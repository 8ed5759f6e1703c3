//! Character-level text handling.
use vstd::prelude::*;
use vstd::string::StringExecFns;

verus! {

/// `String::push` appends one character to the end of the string.
pub assume_specification[ String::push ](string: &mut String, c: char)
    ensures
        final(string)@ == old(string)@.push(c),
;

/// The characters with the Unicode `White_Space` property.
pub open spec fn is_white_space(c: char) -> bool {
    ||| '\u{9}' <= c <= '\u{d}'
    ||| c == ' '
    ||| c == '\u{85}'
    ||| c == '\u{a0}'
    ||| c == '\u{1680}'
    ||| '\u{2000}' <= c <= '\u{200a}'
    ||| c == '\u{2028}'
    ||| c == '\u{2029}'
    ||| c == '\u{202f}'
    ||| c == '\u{205f}'
    ||| c == '\u{3000}'
}

/// Whether `c` is white space.
pub fn white_space(c: char) -> (r: bool)
    ensures
        r == is_white_space(c),
{
    ('\u{9}' <= c && c <= '\u{d}') || c == ' ' || c == '\u{85}' || c == '\u{a0}' || c == '\u{1680}'
        || ('\u{2000}' <= c && c <= '\u{200a}') || c == '\u{2028}' || c == '\u{2029}' || c
        == '\u{202f}' || c == '\u{205f}' || c == '\u{3000}'
}

/// The characters of each string.
pub open spec fn texts(strings: Seq<String>) -> Seq<Seq<char>> {
    Seq::new(strings.len(), |i: int| strings[i]@)
}

/// The characters of an optional text.
pub open spec fn optional(value: Option<&str>) -> Option<Seq<char>> {
    match value {
        Some(value) => Some(value@),
        None => None,
    }
}

/// Whether two texts are equal.
pub fn same(a: &str, b: &str) -> (r: bool)
    ensures
        r == (a@ == b@),
{
    a.to_owned() == b.to_owned()
}

/// The characters of `text`, one per element.
pub fn characters(text: &str) -> (r: Vec<char>)
    ensures
        r@ == text@,
{
    let mut result: Vec<char> = Vec::new();
    for c in it: text.chars()
        invariant
            result@ == it.seq().take(it.index()),
            it.seq() == text@,
    {
        result.push(c);
    }
    result
}

/// The text made of the characters `from..to`.
pub fn text_of(chars: &Vec<char>, from: usize, to: usize) -> (r: String)
    requires
        from <= to <= chars@.len(),
    ensures
        r@ == chars@.subrange(from as int, to as int),
{
    let mut result = String::new();
    let mut i: usize = from;
    while i < to
        invariant
            from <= i <= to <= chars@.len(),
            result@ == chars@.subrange(from as int, i as int),
        decreases to - i,
    {
        result.push(chars[i]);
        i = i + 1;
    }
    result
}

/// `s` without its leading white space.
pub open spec fn trim_start(s: Seq<char>) -> Seq<char>
    decreases s.len(),
{
    if s.len() > 0 && is_white_space(s[0]) {
        trim_start(s.drop_first())
    } else {
        s
    }
}

/// `s` without its trailing white space.
pub open spec fn trim_end(s: Seq<char>) -> Seq<char>
    decreases s.len(),
{
    if s.len() > 0 && is_white_space(s.last()) {
        trim_end(s.drop_last())
    } else {
        s
    }
}

/// `s` without leading and trailing white space.
pub open spec fn trim(s: Seq<char>) -> Seq<char> {
    trim_end(trim_start(s))
}

/// The number of leading white space characters.
fn leading_space(chars: &Vec<char>) -> (r: usize)
    ensures
        r <= chars@.len(),
        trim_start(chars@) == chars@.skip(r as int),
{
    let mut start: usize = 0;
    assert(chars@.skip(0) =~= chars@);
    while start < chars.len() && white_space(chars[start])
        invariant
            start <= chars@.len(),
            trim_start(chars@) == trim_start(chars@.skip(start as int)),
        decreases chars@.len() - start,
    {
        assert(chars@.skip(start as int).drop_first() =~= chars@.skip(start + 1));
        start = start + 1;
    }
    start
}

/// `text` without its leading white space.
pub fn trimmed_start(text: &str) -> (r: String)
    ensures
        r@ == trim_start(text@),
{
    let chars = characters(text);
    let start = leading_space(&chars);
    text_of(&chars, start, chars.len())
}

/// `text` without leading and trailing white space.
pub fn trimmed(text: &str) -> (r: String)
    ensures
        r@ == trim(text@),
{
    let chars = characters(text);
    let start = leading_space(&chars);
    let mut end: usize = chars.len();
    let ghost kept = chars@.skip(start as int);
    assert(chars@.subrange(start as int, end as int) =~= kept);
    while start < end && white_space(chars[end - 1])
        invariant
            start <= end <= chars@.len(),
            trim_end(kept) == trim_end(chars@.subrange(start as int, end as int)),
        decreases end,
    {
        assert(chars@.subrange(start as int, end as int).drop_last() =~= chars@.subrange(
            start as int,
            end - 1,
        ));
        end = end - 1;
    }
    text_of(&chars, start, end)
}

/// `s` without the occurrences of `c` at its end.
pub open spec fn trim_end_of(s: Seq<char>, c: char) -> Seq<char>
    decreases s.len(),
{
    if s.len() > 0 && s.last() == c {
        trim_end_of(s.drop_last(), c)
    } else {
        s
    }
}

/// `s` without the occurrences of `c` at its start.
pub open spec fn trim_start_of(s: Seq<char>, c: char) -> Seq<char>
    decreases s.len(),
{
    if s.len() > 0 && s[0] == c {
        trim_start_of(s.drop_first(), c)
    } else {
        s
    }
}

/// `text` without the occurrences of `c` at its end.
pub fn trimmed_end_of(text: &str, c: char) -> (r: String)
    ensures
        r@ == trim_end_of(text@, c),
{
    let chars = characters(text);
    let mut end: usize = chars.len();
    assert(chars@.subrange(0, end as int) =~= chars@);
    while 0 < end && chars[end - 1] == c
        invariant
            end <= chars@.len(),
            trim_end_of(chars@, c) == trim_end_of(chars@.subrange(0, end as int), c),
        decreases end,
    {
        assert(chars@.subrange(0, end as int).drop_last() =~= chars@.subrange(0, end - 1));
        end = end - 1;
    }
    text_of(&chars, 0, end)
}

/// `text` without the occurrences of `c` at its start.
pub fn trimmed_start_of(text: &str, c: char) -> (r: String)
    ensures
        r@ == trim_start_of(text@, c),
{
    let chars = characters(text);
    let mut start: usize = 0;
    assert(chars@.skip(0) =~= chars@);
    while start < chars.len() && chars[start] == c
        invariant
            start <= chars@.len(),
            trim_start_of(chars@, c) == trim_start_of(chars@.skip(start as int), c),
        decreases chars@.len() - start,
    {
        assert(chars@.skip(start as int).drop_first() =~= chars@.skip(start + 1));
        start = start + 1;
    }
    text_of(&chars, start, chars.len())
}

/// What trimming leaves does not end with the trimmed character, so trimming it again changes
/// nothing.
pub proof fn trim_end_of_is_idempotent(s: Seq<char>, c: char)
    ensures
        trim_end_of(trim_end_of(s, c), c) == trim_end_of(s, c),
    decreases s.len(),
{
    if s.len() > 0 && s.last() == c {
        trim_end_of_is_idempotent(s.drop_last(), c);
    }
}

/// The ASCII lower-case form of `c`.
pub open spec fn lower(c: char) -> char {
    if 'A' <= c <= 'Z' {
        (c as u8 + 32) as char
    } else {
        c
    }
}

/// `s` with its ASCII letters in lower case.
pub open spec fn lowercase(s: Seq<char>) -> Seq<char> {
    Seq::new(s.len(), |i: int| lower(s[i]))
}

/// `text` with its ASCII letters in lower case.
pub fn lowercased(text: &str) -> (r: String)
    ensures
        r@ == lowercase(text@),
{
    let chars = characters(text);
    let mut result = String::new();
    let mut i: usize = 0;
    while i < chars.len()
        invariant
            i <= chars@.len(),
            chars@ == text@,
            result@ =~= lowercase(text@).take(i as int),
        decreases chars@.len() - i,
    {
        let c = chars[i];
        if 'A' <= c && c <= 'Z' {
            result.push((c as u8 + 32) as char);
        } else {
            result.push(c);
        }
        i = i + 1;
    }
    result
}

/// The text behind `prefix`, where `s` starts with it.
pub open spec fn after_prefix(s: Seq<char>, prefix: Seq<char>) -> Option<Seq<char>> {
    if prefix.len() <= s.len() && s.take(prefix.len() as int) == prefix {
        Some(s.skip(prefix.len() as int))
    } else {
        None
    }
}

/// The text behind `prefix`, where `text` starts with it.
pub fn strip_prefix(text: &str, prefix: &str) -> (r: Option<String>)
    ensures
        match r {
            Some(rest) => after_prefix(text@, prefix@) == Some(rest@),
            None => after_prefix(text@, prefix@) is None,
        },
{
    let chars = characters(text);
    let head = characters(prefix);
    if chars.len() < head.len() {
        return None;
    }
    let mut i: usize = 0;
    while i < head.len()
        invariant
            i <= head@.len() <= chars@.len(),
            head@ == prefix@,
            chars@ == text@,
            forall|k: int| 0 <= k < i ==> chars@[k] == head@[k],
        decreases head@.len() - i,
    {
        if chars[i] != head[i] {
            assert(text@.take(prefix@.len() as int)[i as int] != prefix@[i as int]);
            return None;
        }
        i = i + 1;
    }
    assert(text@.take(prefix@.len() as int) =~= prefix@);
    assert(chars@.subrange(head@.len() as int, chars@.len() as int) =~= text@.skip(
        prefix@.len() as int,
    ));
    Some(text_of(&chars, head.len(), chars.len()))
}

/// The number of characters in front of the first `separator`, or all of them.
pub open spec fn segment_len(s: Seq<char>, separator: char) -> nat
    decreases s.len(),
{
    if s.len() == 0 || s[0] == separator {
        0
    } else {
        1 + segment_len(s.drop_first(), separator)
    }
}

/// The pieces of `s` between occurrences of `separator`.
pub open spec fn split(s: Seq<char>, separator: char) -> Seq<Seq<char>>
    decreases s.len(),
{
    let n = segment_len(s, separator);
    if n >= s.len() {
        seq![s]
    } else {
        seq![s.take(n as int)] + split(s.skip(n as int + 1), separator)
    }
}

/// A line without the carriage return in front of its line feed.
pub open spec fn without_return(s: Seq<char>) -> Seq<char> {
    if s.len() > 0 && s.last() == '\r' {
        s.drop_last()
    } else {
        s
    }
}

/// The lines of `s`: each ends at a line feed, which may follow a carriage return. What comes
/// behind the last line feed is a line of its own unless it is empty.
pub open spec fn lines(s: Seq<char>) -> Seq<Seq<char>>
    decreases s.len(),
{
    let n = segment_len(s, '\n');
    if s.len() == 0 {
        seq![]
    } else if n >= s.len() {
        seq![s]
    } else {
        seq![without_return(s.take(n as int))] + lines(s.skip(n as int + 1))
    }
}

/// The first separator ends the first segment.
pub proof fn segment_is_found(s: Seq<char>, separator: char, n: int)
    requires
        0 <= n <= s.len(),
        forall|k: int| 0 <= k < n ==> s[k] != separator,
        n == s.len() || s[n] == separator,
    ensures
        segment_len(s, separator) == n,
    decreases n,
{
    if n > 0 {
        segment_is_found(s.drop_first(), separator, n - 1);
    }
}

/// The end of the segment that begins at `start`.
fn segment_end(chars: &Vec<char>, start: usize, separator: char) -> (r: usize)
    requires
        start <= chars@.len(),
    ensures
        start <= r <= chars@.len(),
        segment_len(chars@.skip(start as int), separator) == r - start,
{
    let mut end: usize = start;
    while end < chars.len() && chars[end] != separator
        invariant
            start <= end <= chars@.len(),
            forall|k: int| start <= k < end ==> chars@[k] != separator,
        decreases chars@.len() - end,
    {
        end = end + 1;
    }
    proof {
        segment_is_found(chars@.skip(start as int), separator, end - start);
    }
    end
}

/// The pieces of `text` between occurrences of `separator`.
pub fn split_on(text: &str, separator: char) -> (r: Vec<String>)
    ensures
        texts(r@) == split(text@, separator),
{
    let chars = characters(text);
    let mut pieces: Vec<String> = Vec::new();
    let mut start: usize = 0;
    assert(chars@.skip(0) =~= chars@);
    loop
        invariant
            start <= chars@.len(),
            chars@ == text@,
            split(text@, separator) =~= texts(pieces@) + split(chars@.skip(start as int), separator),
        decreases chars@.len() - start,
    {
        let ghost before = texts(pieces@);
        let ghost rest = chars@.skip(start as int);
        let end = segment_end(&chars, start, separator);
        let piece = text_of(&chars, start, end);
        assert(piece@ =~= rest.take(end - start));
        pieces.push(piece);
        assert(texts(pieces@) =~= before.push(piece@));
        if end == chars.len() {
            assert(rest.take(end - start) =~= rest);
            return pieces;
        }
        assert(rest.skip(end - start + 1) =~= chars@.skip(end + 1));
        start = end + 1;
    }
}

/// The lines of `text`.
pub fn text_lines(text: &str) -> (r: Vec<String>)
    ensures
        texts(r@) == lines(text@),
{
    let chars = characters(text);
    let mut found: Vec<String> = Vec::new();
    let mut start: usize = 0;
    assert(chars@.skip(0) =~= chars@);
    while start < chars.len()
        invariant
            start <= chars@.len(),
            chars@ == text@,
            lines(text@) =~= texts(found@) + lines(chars@.skip(start as int)),
        decreases chars@.len() - start,
    {
        let ghost before = texts(found@);
        let ghost rest = chars@.skip(start as int);
        let end = segment_end(&chars, start, '\n');
        if end == chars.len() {
            let line = text_of(&chars, start, end);
            assert(line@ =~= rest);
            found.push(line);
            assert(texts(found@) =~= before.push(line@));
            assert(chars@.skip(end as int) =~= seq![]);
            start = end;
        } else {
            let stop: usize = if start < end && chars[end - 1] == '\r' {
                end - 1
            } else {
                end
            };
            let line = text_of(&chars, start, stop);
            assert(line@ =~= without_return(rest.take(end - start)));
            found.push(line);
            assert(texts(found@) =~= before.push(line@));
            assert(rest.skip(end - start + 1) =~= chars@.skip(end + 1));
            start = end + 1;
        }
    }
    found
}

/// The number of leading characters that are no white space.
pub open spec fn word_len(s: Seq<char>) -> nat
    decreases s.len(),
{
    if s.len() == 0 || is_white_space(s[0]) {
        0
    } else {
        1 + word_len(s.drop_first())
    }
}

proof fn lemma_word_len(s: Seq<char>, n: int)
    requires
        0 <= n <= s.len(),
        forall|k: int| 0 <= k < n ==> !is_white_space(#[trigger] s[k]),
        n == s.len() || is_white_space(s[n]),
    ensures
        word_len(s) == n,
    decreases n,
{
    if n > 0 {
        lemma_word_len(s.drop_first(), n - 1);
    }
}

/// Trimming never lengthens a text, and what is left of it, if anything, begins with a word.
pub proof fn lemma_trim_start_len(s: Seq<char>)
    ensures
        trim_start(s).len() <= s.len(),
        trim_start(s).len() > 0 ==> word_len(trim_start(s)) > 0,
    decreases s.len(),
{
    if s.len() > 0 && is_white_space(s[0]) {
        lemma_trim_start_len(s.drop_first());
    }
}

/// The words of `s`, set apart by white space.
pub open spec fn words(s: Seq<char>) -> Seq<Seq<char>>
    decreases s.len(),
{
    proof {
        lemma_trim_start_len(s);
    }
    let t = trim_start(s);
    let n = word_len(t);
    if t.len() == 0 || n > t.len() {
        seq![]
    } else {
        seq![t.take(n as int)] + words(t.skip(n as int))
    }
}

/// The words of `text`, set apart by white space.
pub fn text_words(text: &str) -> (r: Vec<String>)
    ensures
        texts(r@) == words(text@),
{
    let chars = characters(text);
    let mut found: Vec<String> = Vec::new();
    let mut start: usize = 0;
    assert(chars@.skip(0) =~= chars@);
    while start < chars.len()
        invariant
            start <= chars@.len(),
            chars@ == text@,
            words(text@) =~= texts(found@) + words(chars@.skip(start as int)),
        decreases chars@.len() - start,
    {
        let ghost before = texts(found@);
        let ghost rest = chars@.skip(start as int);
        if white_space(chars[start]) {
            assert(rest.drop_first() =~= chars@.skip(start + 1));
            assert(trim_start(rest) == trim_start(rest.drop_first()));
            start = start + 1;
        } else {
            let mut end: usize = start;
            while end < chars.len() && !white_space(chars[end])
                invariant
                    start <= end <= chars@.len(),
                    forall|k: int| start <= k < end ==> !is_white_space(#[trigger] chars@[k]),
                decreases chars@.len() - end,
            {
                end = end + 1;
            }
            proof {
                assert forall|k: int| 0 <= k < end - start implies !is_white_space(
                    #[trigger] rest[k],
                ) by {
                    assert(rest[k] == chars@[start + k]);
                }
                lemma_word_len(rest, end - start);
            }
            assert(trim_start(rest) == rest);
            let word = text_of(&chars, start, end);
            assert(word@ =~= rest.take(end - start));
            found.push(word);
            assert(texts(found@) =~= before.push(word@));
            assert(rest.skip(end - start) =~= chars@.skip(end as int));
            start = end;
        }
    }
    assert(chars@.skip(start as int) =~= seq![]);
    found
}

/// Whether `needle` stands in `s` at position `i`.
pub open spec fn stands_at(s: Seq<char>, needle: Seq<char>, i: int) -> bool {
    0 <= i && i + needle.len() <= s.len() && s.subrange(i, i + needle.len()) == needle
}

/// Whether `needle` stands somewhere in `s`.
pub open spec fn holds(s: Seq<char>, needle: Seq<char>) -> bool {
    exists|i: int| stands_at(s, needle, i)
}

/// Whether `needle` stands somewhere in `text`.
pub fn contains(text: &str, needle: &str) -> (r: bool)
    ensures
        r == holds(text@, needle@),
{
    let chars = characters(text);
    let wanted = characters(needle);
    if chars.len() < wanted.len() {
        return false;
    }
    let last = chars.len() - wanted.len();
    let mut i: usize = 0;
    while i <= last
        invariant
            i <= last + 1,
            last == chars@.len() - wanted@.len(),
            chars@.len() <= usize::MAX,
            chars@ == text@,
            wanted@ == needle@,
            forall|k: int| 0 <= k < i ==> !stands_at(text@, needle@, k),
        decreases last + 1 - i,
    {
        let mut j: usize = 0;
        while j < wanted.len() && chars[i + j] == wanted[j]
            invariant
                j <= wanted@.len(),
                i + wanted@.len() <= chars@.len(),
                chars@.len() <= usize::MAX,
                forall|k: int| 0 <= k < j ==> chars@[i + k] == wanted@[k],
            decreases wanted@.len() - j,
        {
            j = j + 1;
        }
        let ghost found = text@.subrange(i as int, i + needle@.len());
        if j == wanted.len() {
            assert(found =~= needle@);
            assert(stands_at(text@, needle@, i as int));
            return true;
        }
        assert(found[j as int] != needle@[j as int]);
        if i == last {
            return false;
        }
        i = i + 1;
    }
    false
}

/// The white space characters are those of Unicode, by their numbers.
pub proof fn white_space_is_that_of_unicode(c: char)
    ensures
        is_white_space(c) <==> {
            let n = c as u32;
            ||| 9 <= n <= 13
            ||| n == 32
            ||| n == 133
            ||| n == 160
            ||| n == 5760
            ||| 8192 <= n <= 8202
            ||| n == 8232
            ||| n == 8233
            ||| n == 8239
            ||| n == 8287
            ||| n == 12288
        },
{
}

/// Trimming the start takes away white space alone, and all of it: `i` characters.
pub proof fn trim_start_takes_white_space(s: Seq<char>) -> (i: int)
    ensures
        0 <= i <= s.len(),
        trim_start(s) == s.skip(i),
        forall|k: int| 0 <= k < i ==> is_white_space(#[trigger] s[k]),
        i < s.len() ==> !is_white_space(s[i]),
    decreases s.len(),
{
    if s.len() > 0 && is_white_space(s[0]) {
        let rest = s.drop_first();
        let j = trim_start_takes_white_space(rest);
        assert(s.skip(j + 1) =~= rest.skip(j));
        assert forall|k: int| 0 <= k < j + 1 implies is_white_space(#[trigger] s[k]) by {
            if k > 0 {
                assert(rest[k - 1] == s[k]);
            }
        }
        j + 1
    } else {
        assert(s.skip(0) =~= s);
        0
    }
}

proof fn lemma_trim_end(s: Seq<char>) -> (j: int)
    ensures
        0 <= j <= s.len(),
        trim_end(s) == s.take(j),
        forall|k: int| j <= k < s.len() ==> is_white_space(#[trigger] s[k]),
        0 < j ==> !is_white_space(s[j - 1]),
    decreases s.len(),
{
    if s.len() > 0 && is_white_space(s.last()) {
        let rest = s.drop_last();
        let j = lemma_trim_end(rest);
        assert(s.take(j) =~= rest.take(j));
        assert forall|k: int| j <= k < s.len() implies is_white_space(#[trigger] s[k]) by {
            if k < rest.len() {
                assert(rest[k] == s[k]);
            }
        }
        j
    } else {
        assert(s.take(s.len() as int) =~= s);
        s.len() as int
    }
}

/// Trimming takes away white space at both ends alone, and all of it: what is left stands between
/// two positions, begins and ends with other characters, and is empty only where there are none.
pub proof fn trim_takes_white_space(s: Seq<char>) -> (range: (int, int))
    ensures
        0 <= range.0 <= range.1 <= s.len(),
        trim(s) == s.subrange(range.0, range.1),
        forall|k: int|
            0 <= k < s.len() && !(range.0 <= k < range.1) ==> is_white_space(#[trigger] s[k]),
        range.0 < range.1 ==> !is_white_space(s[range.0]) && !is_white_space(s[range.1 - 1]),
{
    let i = trim_start_takes_white_space(s);
    let rest = s.skip(i);
    let j = lemma_trim_end(rest);
    assert(rest.take(j) =~= s.subrange(i, i + j));
    assert forall|k: int| 0 <= k < s.len() && !(i <= k < i + j) implies is_white_space(
        #[trigger] s[k],
    ) by {
        if k >= i {
            assert(rest[k - i] == s[k]);
        }
    }
    if j > 0 {
        assert(rest[j - 1] == s[i + j - 1]);
        assert(rest[0] == s[i]);
    }
    (i, i + j)
}

/// Trimming leaves nothing exactly where there is nothing but white space.
pub proof fn blank_texts_are_trimmed_away(s: Seq<char>)
    ensures
        trim(s).len() == 0 <==> forall|k: int| 0 <= k < s.len() ==> is_white_space(#[trigger] s[k]),
{
    let (i, j) = trim_takes_white_space(s);
    if i < j {
        assert(!is_white_space(s[i]));
    }
}

/// Trimming a character at the end takes away that character alone, and all of it: what is left are
/// the first `j` characters.
pub proof fn trim_end_of_takes_the_character(s: Seq<char>, c: char) -> (j: int)
    ensures
        0 <= j <= s.len(),
        trim_end_of(s, c) == s.take(j),
        forall|k: int| j <= k < s.len() ==> #[trigger] s[k] == c,
        0 < j ==> s[j - 1] != c,
    decreases s.len(),
{
    if s.len() > 0 && s.last() == c {
        let rest = s.drop_last();
        let j = trim_end_of_takes_the_character(rest, c);
        assert(s.take(j) =~= rest.take(j));
        assert forall|k: int| j <= k < s.len() implies #[trigger] s[k] == c by {
            if k < rest.len() {
                assert(rest[k] == s[k]);
            }
        }
        j
    } else {
        assert(s.take(s.len() as int) =~= s);
        s.len() as int
    }
}

/// Trimming a character at the start takes away that character alone, and all of it: `i` times.
pub proof fn trim_start_of_takes_the_character(s: Seq<char>, c: char) -> (i: int)
    ensures
        0 <= i <= s.len(),
        trim_start_of(s, c) == s.skip(i),
        forall|k: int| 0 <= k < i ==> #[trigger] s[k] == c,
        i < s.len() ==> s[i] != c,
    decreases s.len(),
{
    if s.len() > 0 && s[0] == c {
        let rest = s.drop_first();
        let j = trim_start_of_takes_the_character(rest, c);
        assert(s.skip(j + 1) =~= rest.skip(j));
        assert forall|k: int| 0 <= k < j + 1 implies #[trigger] s[k] == c by {
            if k > 0 {
                assert(rest[k - 1] == s[k]);
            }
        }
        j + 1
    } else {
        assert(s.skip(0) =~= s);
        0
    }
}

/// Lower case changes the capital letters of ASCII alone, each by 32, and leaves none.
pub proof fn lowercase_changes_capitals_alone(s: Seq<char>, i: int)
    requires
        0 <= i < s.len(),
    ensures
        lowercase(s).len() == s.len(),
        !(65 <= lowercase(s)[i] as u32 <= 90),
        lowercase(s)[i] == s[i] || (65 <= s[i] as u32 <= 90 && lowercase(s)[i] as u32 == s[i] as u32
            + 32),
{
    let n = s[i] as u32;
    if 65 <= n <= 90 {
        assert(lowercase(s)[i] as u32 == n + 32);
    }
}

/// What stands behind a prefix gives the text back behind that prefix, and every text that begins
/// with the prefix has it.
pub proof fn prefix_and_rest_make_the_text(s: Seq<char>, prefix: Seq<char>, rest: Seq<char>)
    ensures
        after_prefix(s, prefix) == Some(rest) <==> s == prefix + rest,
{
    if after_prefix(s, prefix) == Some(rest) {
        assert(s =~= s.take(prefix.len() as int) + s.skip(prefix.len() as int));
    }
    if s == prefix + rest {
        assert(s.take(prefix.len() as int) =~= prefix);
        assert(s.skip(prefix.len() as int) =~= rest);
    }
}

/// A piece without the separator is split off at the separator behind it, and is all there is where
/// none follows.
pub proof fn pieces_are_split_off(piece: Seq<char>, separator: char, rest: Seq<char>)
    requires
        forall|k: int| 0 <= k < piece.len() ==> #[trigger] piece[k] != separator,
    ensures
        split(piece, separator) == seq![piece],
        split(piece + seq![separator] + rest, separator) == seq![piece] + split(rest, separator),
{
    let s = piece + seq![separator] + rest;
    segment_is_found(piece, separator, piece.len() as int);
    segment_is_found(s, separator, piece.len() as int);
    assert(s.take(piece.len() as int) =~= piece);
    assert(s.skip(piece.len() as int + 1) =~= rest);
}

/// A line ends at its line feed, without the carriage return in front of it; what has no line feed
/// is a line as it stands, and nothing is no line.
pub proof fn lines_are_split_off(line: Seq<char>, rest: Seq<char>)
    requires
        forall|k: int| 0 <= k < line.len() ==> #[trigger] line[k] != '\n',
    ensures
        lines(seq![]) == Seq::<Seq<char>>::empty(),
        line.len() > 0 ==> lines(line) == seq![line],
        line.len() == 0 || line.last() != '\r' ==> lines(line + seq!['\n'] + rest) == seq![line]
            + lines(rest),
        lines(line + seq!['\r', '\n'] + rest) == seq![line] + lines(rest),
{
    segment_is_found(line, '\n', line.len() as int);
    let s = line + seq!['\n'] + rest;
    segment_is_found(s, '\n', line.len() as int);
    assert(s.take(line.len() as int) =~= line);
    assert(s.skip(line.len() as int + 1) =~= rest);
    let t = line + seq!['\r', '\n'] + rest;
    segment_is_found(t, '\n', line.len() as int + 1);
    assert(t.take(line.len() as int + 1) =~= line.push('\r'));
    assert(line.push('\r').drop_last() =~= line);
    assert(t.skip(line.len() as int + 2) =~= rest);
    assert(lines(seq![]) =~= Seq::<Seq<char>>::empty());
}

/// A word ends at the white space behind it, or at the end of the text, and white space in front of
/// a word does not count.
pub proof fn words_are_split_off(word: Seq<char>, space: char, rest: Seq<char>)
    requires
        word.len() > 0,
        forall|k: int| 0 <= k < word.len() ==> !is_white_space(#[trigger] word[k]),
        is_white_space(space),
    ensures
        words(seq![]) == Seq::<Seq<char>>::empty(),
        words(seq![space] + rest) == words(rest),
        words(word) == seq![word],
        words(word + seq![space] + rest) == seq![word] + words(rest),
{
    let s = seq![space] + rest;
    assert(s.drop_first() =~= rest);
    assert(trim_start(s) == trim_start(rest));
    assert(words(s) == words(rest));
    assert(words(seq![]) =~= Seq::<Seq<char>>::empty());
    lemma_word_len(word, word.len() as int);
    assert(trim_start(word) == word);
    assert(word.take(word.len() as int) =~= word);
    assert(word.skip(word.len() as int) =~= seq![]);
    assert(words(word) =~= seq![word]);
    let t = word + seq![space] + rest;
    assert forall|k: int| 0 <= k < word.len() implies !is_white_space(#[trigger] t[k]) by {
        assert(t[k] == word[k]);
    }
    lemma_word_len(t, word.len() as int);
    assert(trim_start(t) == t);
    assert(t.take(word.len() as int) =~= word);
    assert(t.skip(word.len() as int) =~= s);
}

/// A text holds another one exactly where it consists of something, the other one, and something.
pub proof fn held_texts_stand_inside(s: Seq<char>, needle: Seq<char>)
    ensures
        holds(s, needle) <==> exists|front: Seq<char>, back: Seq<char>|
            s == #[trigger] (front + needle + back),
{
    if holds(s, needle) {
        let i = choose|i: int| stands_at(s, needle, i);
        let front = s.take(i);
        let back = s.skip(i + needle.len());
        assert(s =~= front + needle + back);
    }
    if exists|front: Seq<char>, back: Seq<char>| s == #[trigger] (front + needle + back) {
        let (front, back) = choose|front: Seq<char>, back: Seq<char>|
            s == #[trigger] (front + needle + back);
        let i = front.len() as int;
        assert(s.subrange(i, i + needle.len()) =~= needle);
        assert(stands_at(s, needle, i));
    }
}

proof fn lemma_segment(s: Seq<char>, separator: char)
    ensures
        segment_len(s, separator) <= s.len(),
        forall|k: int| 0 <= k < segment_len(s, separator) ==> #[trigger] s[k] != separator,
        segment_len(s, separator) < s.len() ==> s[segment_len(s, separator) as int] == separator,
    decreases s.len(),
{
    if s.len() > 0 && s[0] != separator {
        let rest = s.drop_first();
        lemma_segment(rest, separator);
        assert forall|k: int| 0 <= k < segment_len(s, separator) implies #[trigger] s[k] != separator by {
            if k > 0 {
                assert(rest[k - 1] == s[k]);
            }
        }
    }
}

/// The pieces of a text give it back with the separators between them: the first piece is the text
/// up to the first separator, and the others are the pieces of what follows that separator.
pub proof fn split_pieces_rejoin(s: Seq<char>, separator: char)
    ensures
        ({
            let pieces = split(s, separator);
            &&& pieces.len() > 0
            &&& forall|k: int| 0 <= k < pieces[0].len() ==> #[trigger] pieces[0][k] != separator
            &&& pieces.len() == 1 ==> s == pieces[0]
            &&& pieces.len() > 1 ==> {
                let rest = s.skip(pieces[0].len() as int + 1);
                &&& pieces[0].len() < s.len()
                &&& s == pieces[0] + seq![separator] + rest
                &&& pieces == seq![pieces[0]] + split(rest, separator)
            }
        }),
{
    let n = segment_len(s, separator) as int;
    lemma_segment(s, separator);
    if n < s.len() {
        let rest = s.skip(n + 1);
        assert(split(s, separator) =~= seq![s.take(n)] + split(rest, separator));
        assert(split(rest, separator).len() > 0);
        assert(split(s, separator)[0] =~= s.take(n));
        assert(s =~= s.take(n) + seq![separator] + rest);
    } else {
        assert(s.take(n) =~= s);
    }
}

/// What stands behind the last line feed of a text is its last line, as it stands, and leaves the
/// lines in front of it as they are.
pub proof fn last_lines_are_added(front: Seq<char>, line: Seq<char>)
    requires
        line.len() > 0,
        forall|k: int| 0 <= k < line.len() ==> #[trigger] line[k] != '\n',
    ensures
        lines(front + seq!['\n'] + line) == lines(front + seq!['\n']).push(line),
    decreases front.len(),
{
    let s = front + seq!['\n'] + line;
    let t = front + seq!['\n'];
    lemma_segment(front, '\n');
    let n = segment_len(front, '\n') as int;
    segment_is_found(s, '\n', n);
    segment_is_found(t, '\n', n);
    assert(s.take(n) =~= t.take(n));
    if n < front.len() {
        let rest = front.skip(n + 1);
        assert(s.skip(n + 1) =~= rest + seq!['\n'] + line);
        assert(t.skip(n + 1) =~= rest + seq!['\n']);
        last_lines_are_added(rest, line);
    } else {
        assert(s.skip(n + 1) =~= line);
        assert(t.skip(n + 1) =~= seq![]);
        lines_are_split_off(line, seq![]);
    }
    assert(lines(s) =~= lines(t).push(line));
}

/// Lists and optional texts are taken as they are, character by character.
pub proof fn texts_are_taken_as_they_are(strings: Seq<String>, i: int, value: &str)
    ensures
        texts(strings).len() == strings.len(),
        0 <= i < strings.len() ==> texts(strings)[i] == strings[i]@,
        optional(Some(value)) == Some(value@),
        optional(None) is None,
{
}

/// A carriage return in front of a line feed does not count, wherever the line stands.
pub proof fn carriage_returns_do_not_count(front: Seq<char>, rest: Seq<char>)
    requires
        front.len() == 0 || front.last() != '\r',
    ensures
        lines(front + seq!['\r', '\n'] + rest) == lines(front + seq!['\n'] + rest),
    decreases front.len(),
{
    let s = front + seq!['\r', '\n'] + rest;
    let t = front + seq!['\n'] + rest;
    lemma_segment(front, '\n');
    let n = segment_len(front, '\n') as int;
    if n < front.len() {
        let later = front.skip(n + 1);
        segment_is_found(s, '\n', n);
        segment_is_found(t, '\n', n);
        assert(s.take(n) =~= t.take(n));
        assert(s.skip(n + 1) =~= later + seq!['\r', '\n'] + rest);
        assert(t.skip(n + 1) =~= later + seq!['\n'] + rest);
        assert(later.len() > 0 ==> later.last() == front.last());
        carriage_returns_do_not_count(later, rest);
    } else {
        lines_are_split_off(front, rest);
    }
}

/// A line feed at the very end of a text ends its last line and begins no other.
pub proof fn final_line_feeds_do_not_count(s: Seq<char>)
    requires
        s.len() > 0,
        s.last() != '\n' && s.last() != '\r',
    ensures
        lines(s + seq!['\n']) == lines(s),
    decreases s.len(),
{
    let t = s + seq!['\n'];
    lemma_segment(s, '\n');
    let n = segment_len(s, '\n') as int;
    if n < s.len() {
        let later = s.skip(n + 1);
        segment_is_found(t, '\n', n);
        assert(s.take(n) =~= t.take(n));
        assert(t.skip(n + 1) =~= later + seq!['\n']);
        assert(n + 1 < s.len());
        assert(later.last() == s.last());
        final_line_feeds_do_not_count(later);
    } else {
        lines_are_split_off(s, seq![]);
        assert(t =~= s + seq!['\n'] + seq![]);
        assert(lines(t) =~= lines(s));
    }
}

} // verus!
