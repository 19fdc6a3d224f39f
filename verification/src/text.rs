//! Text as sequences of characters: trimming, case, splitting into words.

use vstd::prelude::*;

verus! {

/// Whether a character is white space: one of the code points with the
/// Unicode property White_Space. These are tab to carriage return, the
/// space, next line, the no-break space, the Ogham space mark, the spaces
/// of fixed width from en quad to hair space, line and paragraph
/// separator, the narrow no-break space, the medium mathematical space and
/// the ideographic space.
pub open spec fn white_space(c: char) -> bool {
    let code = c as u32;
    ||| 0x09 <= code <= 0x0D
    ||| code == 0x20
    ||| code == 0x85
    ||| code == 0xA0
    ||| code == 0x1680
    ||| 0x2000 <= code <= 0x200A
    ||| code == 0x2028
    ||| code == 0x2029
    ||| code == 0x202F
    ||| code == 0x205F
    ||| code == 0x3000
}

/// `char::is_whitespace` of std: whether the character has the Unicode
/// property White_Space.
pub assume_specification[ char::is_whitespace ](c: char) -> (white: bool)
    ensures
        white == white_space(c),
;

/// The lower-case form of a text, as `str::to_lowercase` gives it.
pub uninterp spec fn lowercase(text: Seq<char>) -> Seq<char>;

/// `str::to_lowercase` of std: the lower-case form of the text by the
/// Unicode tables. The contract gives that form a name.
pub assume_specification[ str::to_lowercase ](text: &str) -> (lower: String)
    ensures
        lower@ == lowercase(text@),
;

/// The upper-case form of a text, as `str::to_uppercase` gives it.
pub uninterp spec fn uppercase(text: Seq<char>) -> Seq<char>;

/// `str::to_uppercase` of std: the upper-case form of the text by the
/// Unicode tables. The contract gives that form a name.
pub assume_specification[ str::to_uppercase ](text: &str) -> (upper: String)
    ensures
        upper@ == uppercase(text@),
;

/// `String::push` of std: appends one character.
pub assume_specification[ String::push ](text: &mut String, c: char)
    ensures
        final(text)@ == old(text)@.push(c),
;

/// The end of the run of characters that starts at `from` and consists of
/// white space only (`white`) or of no white space (`!white`).
pub open spec fn run_end(text: Seq<char>, from: int, white: bool) -> int
    decreases text.len() - from,
{
    if from < 0 || from >= text.len() || white_space(text[from]) != white {
        from
    } else {
        run_end(text, from + 1, white)
    }
}

/// The start of the run of characters that ends before `to` and consists of
/// white space only (`white`) or of no white space (`!white`).
pub open spec fn run_start(text: Seq<char>, to: int, white: bool) -> int
    decreases to,
{
    if to <= 0 || to > text.len() || white_space(text[to - 1]) != white {
        to
    } else {
        run_start(text, to - 1, white)
    }
}

/// A run ends at or after its start and inside the text, and is not empty
/// where its first character is of the run's kind.
pub proof fn lemma_run_end_bounds(text: Seq<char>, from: int, white: bool)
    requires
        0 <= from <= text.len(),
    ensures
        from <= run_end(text, from, white) <= text.len(),
        from < text.len() && white_space(text[from]) == white ==> from < run_end(
            text,
            from,
            white,
        ),
        run_end(text, from, white) < text.len() ==> white_space(
            text[run_end(text, from, white)],
        ) != white,
        forall|i: int|
            from <= i < run_end(text, from, white) ==> white_space(#[trigger] text[i]) == white,
    decreases text.len() - from,
{
    if from < text.len() && white_space(text[from]) == white {
        lemma_run_end_bounds(text, from + 1, white);
    }
}

/// A run starts at or before its end and inside the text.
pub proof fn lemma_run_start_bounds(text: Seq<char>, to: int, white: bool)
    requires
        0 <= to <= text.len(),
    ensures
        0 <= run_start(text, to, white) <= to,
        run_start(text, to, white) > 0 ==> white_space(
            text[run_start(text, to, white) - 1],
        ) != white,
        forall|i: int|
            run_start(text, to, white) <= i < to ==> white_space(#[trigger] text[i]) == white,
    decreases to,
{
    if to > 0 && white_space(text[to - 1]) == white {
        lemma_run_start_bounds(text, to - 1, white);
    }
}

/// The text without the white space at its start and at its end.
pub open spec fn trimmed(text: Seq<char>) -> Seq<char> {
    let start = run_end(text, 0, true);
    let end = run_start(text, text.len() as int, true);
    if start >= end {
        Seq::empty()
    } else {
        text.subrange(start, end)
    }
}

/// The words of the text from `from` on: the longest runs without white
/// space, in order.
pub open spec fn words_from(text: Seq<char>, from: int) -> Seq<Seq<char>>
    decreases text.len() - from,
{
    let start = run_end(text, from, true);
    if from < 0 || start >= text.len() {
        Seq::empty()
    } else {
        let end = run_end(text, start, false);
        proof {
            lemma_run_end_bounds(text, from, true);
            lemma_run_end_bounds(text, start, false);
        }
        seq![text.subrange(start, end)] + words_from(text, end)
    }
}

/// The words of a text: the longest runs without white space, in order.
pub open spec fn words(text: Seq<char>) -> Seq<Seq<char>> {
    words_from(text, 0)
}

/// Whether a character is one of the marks that may follow a spoken word:
/// full stop, comma, exclamation mark, question mark, colon, semicolon.
pub open spec fn is_closing_mark(c: char) -> bool {
    c == '.' || c == ',' || c == '!' || c == '?' || c == ':' || c == ';'
}

/// The text without the closing marks at its end.
pub open spec fn without_closing_marks(text: Seq<char>) -> Seq<char>
    decreases text.len(),
{
    if text.len() > 0 && is_closing_mark(text.last()) {
        without_closing_marks(text.drop_last())
    } else {
        text
    }
}

/// The views of a run of strings.
pub open spec fn strings_view(strings: Seq<String>) -> Seq<Seq<char>> {
    Seq::new(strings.len(), |i: int| strings[i]@)
}

/// The characters of a text.
pub fn chars_of(text: &str) -> (chars: Vec<char>)
    ensures
        chars@ == text@,
{
    let mut chars: Vec<char> = Vec::new();
    for c in it: text.chars()
        invariant
            chars@ == it.seq().take(it.index() as int),
            it.seq() == text@,
    {
        chars.push(c);
    }
    chars
}

/// The text made of the characters from `from` up to `to`.
pub fn string_of(chars: &Vec<char>, from: usize, to: usize) -> (text: String)
    requires
        from <= to <= chars.len(),
    ensures
        text@ == chars@.subrange(from as int, to as int),
{
    let mut text = String::new();
    let mut i: usize = from;
    while i < to
        invariant
            from <= i <= to <= chars.len(),
            text@ == chars@.subrange(from as int, i as int),
        decreases to - i,
    {
        text.push(chars[i]);
        assert(chars@.subrange(from as int, i as int).push(chars@[i as int]) =~= chars@.subrange(
            from as int,
            i + 1,
        ));
        i += 1;
    }
    text
}

/// Whether two texts hold the same characters.
pub fn same_text(left: &str, right: &str) -> (same: bool)
    ensures
        same == (left@ == right@),
{
    let a = chars_of(left);
    let b = chars_of(right);
    if a.len() != b.len() {
        return false;
    }
    let mut i: usize = 0;
    while i < a.len()
        invariant
            i <= a.len(),
            a.len() == b.len(),
            a@ == left@,
            b@ == right@,
            forall|j: int| 0 <= j < i ==> a@[j] == b@[j],
        decreases a.len() - i,
    {
        if a[i] != b[i] {
            return false;
        }
        i += 1;
    }
    assert(a@ =~= b@);
    true
}

/// The end of the run that starts at `from`.
pub fn scan_run(chars: &Vec<char>, from: usize, white: bool) -> (end: usize)
    requires
        from <= chars.len(),
    ensures
        end as int == run_end(chars@, from as int, white),
        from <= end <= chars.len(),
{
    let mut i: usize = from;
    while i < chars.len() && chars[i].is_whitespace() == white
        invariant
            from <= i <= chars.len(),
            run_end(chars@, from as int, white) == run_end(chars@, i as int, white),
        decreases chars.len() - i,
    {
        i += 1;
    }
    i
}

/// The start of the run that ends before `to`.
pub fn scan_run_back(chars: &Vec<char>, to: usize, white: bool) -> (start: usize)
    requires
        to <= chars.len(),
    ensures
        start as int == run_start(chars@, to as int, white),
        start <= to,
{
    let mut i: usize = to;
    while i > 0 && chars[i - 1].is_whitespace() == white
        invariant
            i <= to <= chars.len(),
            run_start(chars@, to as int, white) == run_start(chars@, i as int, white),
        decreases i,
    {
        i -= 1;
    }
    i
}

/// The text without the white space at its start and at its end.
pub fn trim(text: &str) -> (out: String)
    ensures
        out@ == trimmed(text@),
{
    let chars = chars_of(text);
    let start = scan_run(&chars, 0, true);
    let end = scan_run_back(&chars, chars.len(), true);
    if start >= end {
        String::new()
    } else {
        string_of(&chars, start, end)
    }
}

/// The words of a text, in order.
pub fn split_words(text: &str) -> (out: Vec<String>)
    ensures
        strings_view(out@) == words(text@),
{
    let chars = chars_of(text);
    let mut out: Vec<String> = Vec::new();
    let mut pos: usize = 0;
    assert(strings_view(out@) + words_from(chars@, 0) =~= words(chars@));
    loop
        invariant
            pos <= chars.len(),
            chars@ == text@,
            strings_view(out@) + words_from(chars@, pos as int) == words(chars@),
        ensures
            strings_view(out@) == words(text@),
        decreases chars.len() - pos,
    {
        let start = scan_run(&chars, pos, true);
        if start >= chars.len() {
            assert(strings_view(out@) + Seq::<Seq<char>>::empty() =~= strings_view(out@));
            break;
        }
        proof {
            lemma_run_end_bounds(chars@, pos as int, true);
            lemma_run_end_bounds(chars@, start as int, false);
        }
        let end = scan_run(&chars, start, false);
        let word = string_of(&chars, start, end);
        let ghost before = strings_view(out@);
        out.push(word);
        assert(strings_view(out@) =~= before + seq![chars@.subrange(start as int, end as int)]);
        assert(before + words_from(chars@, pos as int) =~= strings_view(out@) + words_from(
            chars@,
            end as int,
        ));
        pos = end;
    }
    out
}

/// The text without the closing marks at its end.
pub fn strip_closing_marks(text: &str) -> (out: String)
    ensures
        out@ == without_closing_marks(text@),
{
    let chars = chars_of(text);
    let mut end: usize = chars.len();
    assert(chars@.take(end as int) =~= chars@);
    while end > 0 && (chars[end - 1] == '.' || chars[end - 1] == ',' || chars[end - 1] == '!'
        || chars[end - 1] == '?' || chars[end - 1] == ':' || chars[end - 1] == ';')
        invariant
            end <= chars.len(),
            without_closing_marks(chars@) == without_closing_marks(chars@.take(end as int)),
        decreases end,
    {
        assert(chars@.take(end as int).drop_last() =~= chars@.take(end - 1));
        end -= 1;
    }
    assert(chars@.take(end as int) =~= chars@.subrange(0, end as int));
    string_of(&chars, 0, end)
}

/// Whether the text holds the character.
pub fn has_char(text: &str, wanted: char) -> (found: bool)
    ensures
        found == text@.contains(wanted),
{
    let chars = chars_of(text);
    let mut i: usize = 0;
    while i < chars.len()
        invariant
            i <= chars.len(),
            chars@ == text@,
            forall|j: int| 0 <= j < i ==> chars@[j] != wanted,
        decreases chars.len() - i,
    {
        if chars[i] == wanted {
            return true;
        }
        i += 1;
    }
    false
}

/// The text without every occurrence of one character.
pub open spec fn without_char(text: Seq<char>, unwanted: char) -> Seq<char>
    decreases text.len(),
{
    if text.len() == 0 {
        Seq::empty()
    } else if text.last() == unwanted {
        without_char(text.drop_last(), unwanted)
    } else {
        without_char(text.drop_last(), unwanted).push(text.last())
    }
}

/// Takes every occurrence of one character out of a text.
pub fn remove_char(text: &str, unwanted: char) -> (out: String)
    ensures
        out@ == without_char(text@, unwanted),
{
    let chars = chars_of(text);
    let mut out = String::new();
    let mut i: usize = 0;
    while i < chars.len()
        invariant
            i <= chars.len(),
            chars@ == text@,
            out@ == without_char(chars@.subrange(0, i as int), unwanted),
        decreases chars.len() - i,
    {
        assert(chars@.subrange(0, i + 1).drop_last() =~= chars@.subrange(0, i as int));
        if chars[i] != unwanted {
            out.push(chars[i]);
        }
        i += 1;
    }
    assert(chars@.subrange(0, chars.len() as int) =~= chars@);
    out
}

} // verus!
