//! What holds of the pieces that a dictated text is cut into, for every
//! text and every set of phrases.

use vstd::prelude::*;
use crate::commands::VoiceCommand;
use crate::matcher::{
    exact_command, flushed, holds_command, match_of, normalized_word, segments_from, word_command,
    Match, Segment,
};
use crate::text::{
    is_closing_mark, lemma_run_end_bounds, lemma_run_start_bounds, lowercase, run_end, run_start,
    trimmed, white_space, without_closing_marks,
};
use crate::voice_commands::{matched_code, PhraseEntry};

verus! {

/// What is typed for a run of pieces: the texts of its text pieces, one
/// after another.
pub open spec fn typed_text(segments: Seq<Segment>) -> Seq<char>
    decreases segments.len(),
{
    if segments.len() == 0 {
        Seq::empty()
    } else {
        (match segments[0] {
            Segment::Text(text) => text,
            Segment::Command(_) => Seq::empty(),
        }) + typed_text(segments.drop_first())
    }
}

/// The commands of a run of pieces, in order.
pub open spec fn commands_of(segments: Seq<Segment>) -> Seq<VoiceCommand>
    decreases segments.len(),
{
    if segments.len() == 0 {
        Seq::empty()
    } else {
        (match segments[0] {
            Segment::Text(_) => Seq::empty(),
            Segment::Command(command) => seq![command],
        }) + commands_of(segments.drop_first())
    }
}

/// The text from `from` on without the words that stand for commands:
/// all white space and all other words stay where they are.
pub open spec fn text_without_commands(entries: Seq<PhraseEntry>, text: Seq<char>, from: int) -> Seq<
    char,
>
    decreases text.len() - from,
{
    let start = run_end(text, from, true);
    if from < 0 || from > text.len() {
        Seq::empty()
    } else if start >= text.len() {
        text.subrange(from, text.len() as int)
    } else {
        let end = run_end(text, start, false);
        proof {
            lemma_run_end_bounds(text, from, true);
            lemma_run_end_bounds(text, start, false);
        }
        match word_command(entries, text.subrange(start, end)) {
            Some(_) => text.subrange(from, start) + text_without_commands(entries, text, end),
            None => text.subrange(from, end) + text_without_commands(entries, text, end),
        }
    }
}

/// The commands that the words of the text from `from` on stand for, in
/// the order of the words.
pub open spec fn commands_in_text(entries: Seq<PhraseEntry>, text: Seq<char>, from: int) -> Seq<
    VoiceCommand,
>
    decreases text.len() - from,
{
    let start = run_end(text, from, true);
    if from < 0 || from > text.len() || start >= text.len() {
        Seq::empty()
    } else {
        let end = run_end(text, start, false);
        proof {
            lemma_run_end_bounds(text, from, true);
            lemma_run_end_bounds(text, start, false);
        }
        match word_command(entries, text.subrange(start, end)) {
            Some(command) => seq![command] + commands_in_text(entries, text, end),
            None => commands_in_text(entries, text, end),
        }
    }
}

/// What is typed for two runs of pieces is what is typed for the first
/// and then for the second; and so for their commands.
pub proof fn lemma_pieces_concat(left: Seq<Segment>, right: Seq<Segment>)
    ensures
        typed_text(left + right) == typed_text(left) + typed_text(right),
        commands_of(left + right) == commands_of(left) + commands_of(right),
    decreases left.len(),
{
    if left.len() == 0 {
        assert(left + right =~= right);
        assert(typed_text(left) + typed_text(right) =~= typed_text(right));
        assert(commands_of(left) + commands_of(right) =~= commands_of(right));
    } else {
        let both = left + right;
        assert(both[0] == left[0]);
        assert(both.drop_first() =~= left.drop_first() + right);
        lemma_pieces_concat(left.drop_first(), right);
        let head = match left[0] {
            Segment::Text(text) => text,
            Segment::Command(_) => Seq::empty(),
        };
        assert(typed_text(both) =~= head + (typed_text(left.drop_first()) + typed_text(right)));
        assert(typed_text(left) + typed_text(right) =~= head + (typed_text(left.drop_first())
            + typed_text(right)));
        let first = match left[0] {
            Segment::Text(_) => Seq::<VoiceCommand>::empty(),
            Segment::Command(command) => seq![command],
        };
        assert(commands_of(both) =~= first + (commands_of(left.drop_first()) + commands_of(right)));
        assert(commands_of(left) + commands_of(right) =~= first + (commands_of(left.drop_first())
            + commands_of(right)));
    }
}

/// Text that is given out as a piece is typed as it stands and holds no
/// command.
pub proof fn lemma_flushed(pending: Seq<char>)
    ensures
        typed_text(flushed(pending)) == pending,
        commands_of(flushed(pending)).len() == 0,
{
    if pending.len() == 0 {
        assert(pending =~= Seq::<char>::empty());
    } else {
        let pieces = flushed(pending);
        reveal_with_fuel(typed_text, 2);
        reveal_with_fuel(commands_of, 2);
        assert(pieces.drop_first() =~= Seq::<Segment>::empty());
        assert(typed_text(pieces) =~= pending);
        assert(commands_of(pieces) =~= Seq::<VoiceCommand>::empty());
    }
}

/// A command word is carried out and never typed, and nothing else is
/// lost: what is typed for the pieces of a text is the text without its
/// command words, white space and order kept; and the commands of the
/// pieces are those of the command words, in the order of the words.
pub proof fn lemma_pieces_keep_text(
    entries: Seq<PhraseEntry>,
    text: Seq<char>,
    from: int,
    pending: Seq<char>,
)
    requires
        0 <= from <= text.len(),
    ensures
        typed_text(segments_from(entries, text, from, pending)) == pending + text_without_commands(
            entries,
            text,
            from,
        ),
        commands_of(segments_from(entries, text, from, pending)) == commands_in_text(
            entries,
            text,
            from,
        ),
    decreases text.len() - from,
{
    let start = run_end(text, from, true);
    lemma_run_end_bounds(text, from, true);
    if start >= text.len() {
        lemma_flushed(pending + text.subrange(from, text.len() as int));
        assert(commands_of(segments_from(entries, text, from, pending)) =~= commands_in_text(
            entries,
            text,
            from,
        ));
    } else {
        let end = run_end(text, start, false);
        lemma_run_end_bounds(text, start, false);
        match word_command(entries, text.subrange(start, end)) {
            Some(command) => {
                let head = flushed(pending + text.subrange(from, start));
                let mid = seq![Segment::Command(command)];
                let rest = segments_from(entries, text, end, Seq::empty());
                lemma_flushed(pending + text.subrange(from, start));
                lemma_pieces_keep_text(entries, text, end, Seq::empty());
                lemma_pieces_concat(head + mid, rest);
                lemma_pieces_concat(head, mid);
                reveal_with_fuel(typed_text, 2);
                reveal_with_fuel(commands_of, 2);
                assert(mid.drop_first() =~= Seq::<Segment>::empty());
                assert(typed_text(mid) =~= Seq::<char>::empty());
                assert(commands_of(mid) =~= seq![command]);
                assert(typed_text(head + mid + rest) =~= pending + (text.subrange(from, start)
                    + text_without_commands(entries, text, end)));
                assert(commands_of(head + mid + rest) =~= seq![command] + commands_in_text(
                    entries,
                    text,
                    end,
                ));
            },
            None => {
                lemma_pieces_keep_text(entries, text, end, pending + text.subrange(from, end));
                assert((pending + text.subrange(from, end)) + text_without_commands(
                    entries,
                    text,
                    end,
                ) =~= pending + (text.subrange(from, end) + text_without_commands(
                    entries,
                    text,
                    end,
                )));
            },
        }
    }
}

/// The pieces hold a command exactly if a word of the text stands for one;
/// no text piece is empty.
pub proof fn lemma_pieces_shape(
    entries: Seq<PhraseEntry>,
    text: Seq<char>,
    from: int,
    pending: Seq<char>,
)
    requires
        0 <= from <= text.len(),
    ensures
        holds_command(segments_from(entries, text, from, pending)) == (commands_in_text(
            entries,
            text,
            from,
        ).len() > 0),
        forall|i: int|
            0 <= i < segments_from(entries, text, from, pending).len() ==> (#[trigger] segments_from(
                entries,
                text,
                from,
                pending,
            )[i] matches Segment::Text(piece) ==> piece.len() > 0),
    decreases text.len() - from,
{
    let all = segments_from(entries, text, from, pending);
    let start = run_end(text, from, true);
    lemma_run_end_bounds(text, from, true);
    if start >= text.len() {
    } else {
        let end = run_end(text, start, false);
        lemma_run_end_bounds(text, start, false);
        match word_command(entries, text.subrange(start, end)) {
            Some(command) => {
                let head = flushed(pending + text.subrange(from, start));
                let mid = seq![Segment::Command(command)];
                let rest = segments_from(entries, text, end, Seq::empty());
                lemma_pieces_shape(entries, text, end, Seq::empty());
                assert(all == head + mid + rest);
                assert(all[head.len() as int] is Command);
                assert forall|i: int| 0 <= i < all.len() implies (#[trigger] all[i] matches Segment::Text(
                    piece,
                ) ==> piece.len() > 0) by {
                    if i < head.len() {
                        assert(all[i] == head[i]);
                    } else if i == head.len() {
                    } else {
                        assert(all[i] == rest[i - head.len() - 1]);
                    }
                }
            },
            None => {
                lemma_pieces_shape(entries, text, end, pending + text.subrange(from, end));
            },
        }
    }
}

/// A text of which no word stands for a command is typed as it stands, in
/// one piece.
pub proof fn lemma_plain_text_is_one_piece(
    entries: Seq<PhraseEntry>,
    text: Seq<char>,
    from: int,
    pending: Seq<char>,
)
    requires
        0 <= from <= text.len(),
        commands_in_text(entries, text, from).len() == 0,
    ensures
        segments_from(entries, text, from, pending) == flushed(
            pending + text.subrange(from, text.len() as int),
        ),
    decreases text.len() - from,
{
    let start = run_end(text, from, true);
    lemma_run_end_bounds(text, from, true);
    if start < text.len() {
        let end = run_end(text, start, false);
        lemma_run_end_bounds(text, start, false);
        match word_command(entries, text.subrange(start, end)) {
            Some(command) => {
                assert(commands_in_text(entries, text, from).len() > 0);
            },
            None => {
                lemma_plain_text_is_one_piece(
                    entries,
                    text,
                    end,
                    pending + text.subrange(from, end),
                );
                assert((pending + text.subrange(from, end)) + text.subrange(
                    end,
                    text.len() as int,
                ) =~= pending + text.subrange(from, text.len() as int));
            },
        }
    }
}

/// Trimming a trimmed text changes nothing.
pub proof fn lemma_trim_idempotent(text: Seq<char>)
    ensures
        trimmed(trimmed(text)) == trimmed(text),
{
    let start = run_end(text, 0, true);
    let end = run_start(text, text.len() as int, true);
    lemma_run_end_bounds(text, 0, true);
    lemma_run_start_bounds(text, text.len() as int, true);
    let inner = trimmed(text);
    if start >= end {
        assert(inner =~= Seq::<char>::empty());
    } else {
        assert(inner == text.subrange(start, end));
        assert(inner[0] == text[start]);
        assert(inner[inner.len() - 1] == text[end - 1]);
        lemma_run_end_bounds(inner, 0, true);
        lemma_run_start_bounds(inner, inner.len() as int, true);
        assert(run_end(inner, 0, true) == 0);
        assert(run_start(inner, inner.len() as int, true) == inner.len());
        assert(inner.subrange(0, inner.len() as int) =~= inner);
    }
}

/// A command wins whatever white space stands around it: where the text
/// without the white space at its ends stands for a command, the text is
/// that command and nothing is typed, with the white space as without it.
pub proof fn lemma_surrounding_space_is_ignored(
    entries: Seq<PhraseEntry>,
    input: Seq<char>,
    command: VoiceCommand,
)
    requires
        exact_command(entries, trimmed(input)) == Some(command),
    ensures
        match_of(entries, input) == Match::ExactCommand(command),
        match_of(entries, trimmed(input)) == Match::ExactCommand(command),
{
    lemma_trim_idempotent(input);
}

/// A text that is its own trimmed form does not start and does not end
/// with white space.
pub proof fn lemma_trimmed_ends(text: Seq<char>)
    requires
        trimmed(text) == text,
        text.len() > 0,
    ensures
        !white_space(text[0]),
        !white_space(text[text.len() - 1]),
{
    let start = run_end(text, 0, true);
    let end = run_start(text, text.len() as int, true);
    lemma_run_end_bounds(text, 0, true);
    lemma_run_start_bounds(text, text.len() as int, true);
    assert(start < end);
    assert(text.subrange(start, end).len() == text.len());
}

/// A text that does not start and does not end with white space is its own
/// trimmed form.
pub proof fn lemma_trimmed_of_clean(text: Seq<char>)
    requires
        text.len() > 0 ==> !white_space(text[0]) && !white_space(text[text.len() - 1]),
    ensures
        trimmed(text) == text,
{
    if text.len() == 0 {
        assert(trimmed(text) =~= text);
    } else {
        assert(run_end(text, 0, true) == 0);
        assert(run_start(text, text.len() as int, true) == text.len());
        assert(text.subrange(0, text.len() as int) =~= text);
    }
}

/// Closing marks at the end of a text are cut off with those before them.
pub proof fn lemma_marks_cut_off(text: Seq<char>, marks: Seq<char>)
    requires
        forall|i: int| 0 <= i < marks.len() ==> is_closing_mark(#[trigger] marks[i]),
    ensures
        without_closing_marks(text + marks) == without_closing_marks(text),
    decreases marks.len(),
{
    if marks.len() == 0 {
        assert(text + marks =~= text);
    } else {
        let all = text + marks;
        assert(all.last() == marks.last());
        assert(all.drop_last() =~= text + marks.drop_last());
        assert forall|i: int| 0 <= i < marks.drop_last().len() implies is_closing_mark(
            #[trigger] marks.drop_last()[i],
        ) by {
            assert(marks.drop_last()[i] == marks[i]);
        }
        lemma_marks_cut_off(text, marks.drop_last());
    }
}

/// Closing marks after a word do not count: a word without white space at
/// its ends is compared with phrases as the same text, whether or not full
/// stops, commas, exclamation marks, question marks, colons or semicolons
/// follow it.
pub proof fn lemma_closing_marks_ignored(word: Seq<char>, marks: Seq<char>)
    requires
        trimmed(word) == word,
        forall|i: int| 0 <= i < marks.len() ==> is_closing_mark(#[trigger] marks[i]),
    ensures
        normalized_word(word + marks) == normalized_word(word),
{
    let all = word + marks;
    if marks.len() == 0 {
        assert(all =~= word);
    } else {
        assert(all[all.len() - 1] == marks[marks.len() - 1]);
        if word.len() > 0 {
            lemma_trimmed_ends(word);
            assert(all[0] == word[0]);
        } else {
            assert(all[0] == marks[0]);
        }
        lemma_trimmed_of_clean(all);
        lemma_marks_cut_off(word, marks);
    }
}

/// A run that starts at `from` ends at `end` where all characters between
/// the two are of the run's kind and the one at `end`, if there is one, is
/// not.
pub proof fn lemma_run_end_is(text: Seq<char>, from: int, white: bool, end: int)
    requires
        0 <= from <= end <= text.len(),
        forall|i: int| from <= i < end ==> white_space(#[trigger] text[i]) == white,
        end < text.len() ==> white_space(text[end]) != white,
    ensures
        run_end(text, from, white) == end,
    decreases end - from,
{
    if from < end {
        lemma_run_end_is(text, from + 1, white, end);
    }
}

/// A run that ends before `to` starts at `start` where all characters
/// between the two are of the run's kind and the one before `start`, if
/// there is one, is not.
pub proof fn lemma_run_start_is(text: Seq<char>, to: int, white: bool, start: int)
    requires
        0 <= start <= to <= text.len(),
        forall|i: int| start <= i < to ==> white_space(#[trigger] text[i]) == white,
        start > 0 ==> white_space(text[start - 1]) != white,
    ensures
        run_start(text, to, white) == start,
    decreases to - start,
{
    if start < to {
        lemma_run_start_is(text, to - 1, white, start);
    }
}

/// White space around a text is cut off: a text that neither starts nor
/// ends with white space is what is left of it with white space before
/// and after it.
pub proof fn lemma_trimmed_of_padded(lead: Seq<char>, text: Seq<char>, trail: Seq<char>)
    requires
        forall|i: int| 0 <= i < lead.len() ==> white_space(#[trigger] lead[i]),
        forall|i: int| 0 <= i < trail.len() ==> white_space(#[trigger] trail[i]),
        text.len() > 0 ==> !white_space(text[0]) && !white_space(text[text.len() - 1]),
    ensures
        trimmed(lead + text + trail) == text,
{
    let all = lead + text + trail;
    let from = lead.len() as int;
    let to = from + text.len();
    assert forall|i: int| 0 <= i < from implies white_space(#[trigger] all[i]) by {
        assert(all[i] == lead[i]);
    }
    assert forall|i: int| to <= i < all.len() implies white_space(#[trigger] all[i]) by {
        assert(all[i] == trail[i - to]);
    }
    if text.len() == 0 {
        lemma_run_end_is(all, 0, true, all.len() as int);
        lemma_run_start_bounds(all, all.len() as int, true);
        assert(trimmed(all) =~= text);
    } else {
        assert(all[from] == text[0]);
        assert(all[to - 1] == text[text.len() - 1]);
        lemma_run_end_is(all, 0, true, from);
        lemma_run_start_is(all, all.len() as int, true, to);
        assert(all.subrange(from, to) =~= text);
    }
}

/// A spoken word is compared with phrases as the same text whatever
/// white space stands around it and whatever closing marks follow it:
/// full stops, commas, exclamation marks, question marks, colons and
/// semicolons. Two words that differ in the case of their letters only
/// are compared as the same text as well, since the comparison is made in
/// lower case. So a word stands for the same command with white space and
/// marks as without them.
pub proof fn lemma_punctuated_word(
    entries: Seq<PhraseEntry>,
    lead: Seq<char>,
    word: Seq<char>,
    marks: Seq<char>,
    trail: Seq<char>,
)
    requires
        trimmed(word) == word,
        forall|i: int| 0 <= i < lead.len() ==> white_space(#[trigger] lead[i]),
        forall|i: int| 0 <= i < marks.len() ==> is_closing_mark(#[trigger] marks[i]),
        forall|i: int| 0 <= i < trail.len() ==> white_space(#[trigger] trail[i]),
    ensures
        normalized_word(lead + (word + marks) + trail) == normalized_word(word),
        normalized_word(lead + (word + marks) + trail) == lowercase(without_closing_marks(word)),
        matched_code(entries, normalized_word(lead + (word + marks) + trail)) == matched_code(
            entries,
            normalized_word(word),
        ),
{
    let inner = word + marks;
    if inner.len() > 0 {
        if word.len() > 0 {
            lemma_trimmed_ends(word);
            assert(inner[0] == word[0]);
        } else {
            assert(inner[0] == marks[0]);
        }
        if marks.len() > 0 {
            assert(inner[inner.len() - 1] == marks[marks.len() - 1]);
        } else {
            assert(inner[inner.len() - 1] == word[word.len() - 1]);
        }
    }
    lemma_trimmed_of_padded(lead, inner, trail);
    lemma_marks_cut_off(word, marks);
}

} // verus!
