//! Text as sequences of characters: trimming, splitting, ASCII case and
//! decimal numbers.

use vstd::prelude::*;
use vstd::string::StringExecFns;
use vstd::utf8::{decode_utf8, valid_utf8};

verus! {

/// `String::push` appends one character.
pub assume_specification[ String::push ](text: &mut String, c: char)
    ensures
        final(text)@ == old(text)@.push(c),
;

/// `std::str::from_utf8` accepts exactly the byte strings that are valid UTF-8,
/// and returns the text that they encode.
#[verifier::external_body]
fn utf8_str(bytes: &Vec<u8>) -> (text: Option<&str>)
    ensures
        match text {
            Some(text) => valid_utf8(bytes@) && text@ == decode_utf8(bytes@),
            None => !valid_utf8(bytes@),
        },
{
    std::str::from_utf8(bytes).ok()
}

/// The text that a byte string encodes in UTF-8.
pub open spec fn utf8_of(bytes: Seq<u8>) -> Option<Seq<char>> {
    if valid_utf8(bytes) {
        Some(decode_utf8(bytes))
    } else {
        None
    }
}

/// The text that a byte string encodes in UTF-8.
pub fn utf8_text(bytes: &Vec<u8>) -> (text: Option<String>)
    ensures
        text_of(text) == utf8_of(bytes@),
{
    match utf8_str(bytes) {
        Some(text) => Some(text.to_owned()),
        None => None,
    }
}

/// Whether a character has the Unicode property `White_Space`.
pub open spec fn white_space(c: char) -> bool {
    let code = c as u32;
    ||| 0x09 <= code <= 0x0d
    ||| code == 0x20
    ||| code == 0x85
    ||| code == 0xa0
    ||| code == 0x1680
    ||| 0x2000 <= code <= 0x200a
    ||| code == 0x2028
    ||| code == 0x2029
    ||| code == 0x202f
    ||| code == 0x205f
    ||| code == 0x3000
}

/// The lowercase form of an ASCII capital, any other character unchanged.
pub open spec fn lower(c: char) -> char {
    if 'A' <= c && c <= 'Z' {
        (c as u8 + 32) as char
    } else {
        c
    }
}

/// A text with its ASCII capitals in lowercase.
pub open spec fn lowercase(text: Seq<char>) -> Seq<char> {
    Seq::new(text.len(), |i: int| lower(text[i]))
}

/// A text without the characters of a kind that it starts with.
pub open spec fn strip_front(text: Seq<char>, kind: spec_fn(char) -> bool) -> Seq<char>
    decreases text.len(),
{
    if text.len() > 0 && kind(text[0]) {
        strip_front(text.skip(1), kind)
    } else {
        text
    }
}

/// A text without the characters of a kind that it ends with.
pub open spec fn strip_back(text: Seq<char>, kind: spec_fn(char) -> bool) -> Seq<char>
    decreases text.len(),
{
    if text.len() > 0 && kind(text.last()) {
        strip_back(text.drop_last(), kind)
    } else {
        text
    }
}

/// A text without the white space around it.
pub open spec fn trimmed(text: Seq<char>) -> Seq<char> {
    strip_back(strip_front(text, |c: char| white_space(c)), |c: char| white_space(c))
}

/// A text without the NUL characters around it.
pub open spec fn without_nul(text: Seq<char>) -> Seq<char> {
    strip_back(strip_front(text, |c: char| c == '\0'), |c: char| c == '\0')
}

/// An extension in the form that extensions are listed in: without white space
/// around it, without leading dots, in lowercase.
pub open spec fn normal_extension(text: Seq<char>) -> Seq<char> {
    lowercase(strip_front(trimmed(text), |c: char| c == '.'))
}

/// The pieces of a text between separators; one more than it has separators.
pub open spec fn pieces(text: Seq<char>, separator: char) -> Seq<Seq<char>>
    decreases text.len(),
{
    if text.len() == 0 {
        seq![Seq::empty()]
    } else {
        let front = pieces(text.drop_last(), separator);
        if text.last() == separator {
            front.push(Seq::empty())
        } else {
            front.update(front.len() - 1, front.last().push(text.last()))
        }
    }
}

/// The decimal digits of a number.
pub open spec fn decimal(n: nat) -> Seq<char>
    decreases n,
{
    if n < 10 {
        seq![digit(n)]
    } else {
        decimal(n / 10).push(digit(n % 10))
    }
}

/// The character of a decimal digit.
pub open spec fn digit(n: nat) -> char {
    (n + 48) as char
}

/// The contents of a list of texts.
pub open spec fn texts_of(texts: Seq<String>) -> Seq<Seq<char>> {
    Seq::new(texts.len(), |i: int| texts[i]@)
}

/// The contents of an optional text.
pub open spec fn text_of(text: Option<String>) -> Option<Seq<char>> {
    match text {
        Some(value) => Some(value@),
        None => None,
    }
}

/// The contents of an optional borrowed text.
pub open spec fn str_of(text: Option<&str>) -> Option<Seq<char>> {
    match text {
        Some(value) => Some(value@),
        None => None,
    }
}

/// The characters of a text.
pub fn chars_of(text: &str) -> (chars: Vec<char>)
    ensures
        chars@ == text@,
{
    let mut chars: Vec<char> = Vec::new();
    for c in iter: text.chars()
        invariant
            chars@ == iter.seq().take(iter.index() as int),
            iter.seq() == text@,
    {
        chars.push(c);
    }
    assert(chars@ =~= text@);
    chars
}

/// The text made of the characters from `from` up to `to`.
pub fn text_between(chars: &Vec<char>, from: usize, to: usize) -> (text: String)
    requires
        from <= to <= chars@.len(),
    ensures
        text@ == chars@.subrange(from as int, to as int),
{
    let mut text = String::new();
    let mut index: usize = from;
    assert(text@ =~= chars@.subrange(from as int, index as int));
    while index < to
        invariant
            from <= index <= to <= chars@.len(),
            text@ == chars@.subrange(from as int, index as int),
        decreases to - index,
    {
        text.push(chars[index]);
        index += 1;
        assert(text@ =~= chars@.subrange(from as int, index as int));
    }
    text
}

/// Whether a character is white space.
pub fn is_white_space(c: char) -> (yes: bool)
    ensures
        yes == white_space(c),
{
    let code: u32 = c as u32;
    (0x09 <= code && code <= 0x0d) || code == 0x20 || code == 0x85 || code == 0xa0
        || code == 0x1680 || (0x2000 <= code && code <= 0x200a) || code == 0x2028
        || code == 0x2029 || code == 0x202f || code == 0x205f || code == 0x3000
}

/// The lowercase form of a character that is an ASCII capital.
pub fn to_lower(c: char) -> (result: char)
    ensures
        result == lower(c),
{
    if 'A' <= c && c <= 'Z' {
        (c as u8 + 32) as char
    } else {
        c
    }
}

/// A text with its ASCII capitals in lowercase.
pub fn to_lowercase(text: &str) -> (result: String)
    ensures
        result@ == lowercase(text@),
{
    let chars = chars_of(text);
    let mut result = String::new();
    let mut index: usize = 0;
    assert(result@ =~= lowercase(text@).take(0));
    while index < chars.len()
        invariant
            chars@ == text@,
            index <= chars@.len(),
            result@ == lowercase(text@).take(index as int),
        decreases chars@.len() - index,
    {
        result.push(to_lower(chars[index]));
        index += 1;
        assert(result@ =~= lowercase(text@).take(index as int));
    }
    assert(result@ =~= lowercase(text@));
    result
}

proof fn lemma_strip_front_at(text: Seq<char>, kind: spec_fn(char) -> bool, start: int)
    requires
        0 <= start <= text.len(),
        forall|i: int| 0 <= i < start ==> kind(#[trigger] text[i]),
        start < text.len() ==> !kind(text[start]),
    ensures
        strip_front(text, kind) == text.skip(start),
    decreases text.len(),
{
    if start == 0 {
        assert(text.skip(0) =~= text);
    } else {
        let rest = text.skip(1);
        assert forall|i: int| 0 <= i < start - 1 implies kind(#[trigger] rest[i]) by {
            assert(rest[i] == text[i + 1]);
        }
        lemma_strip_front_at(rest, kind, start - 1);
        assert(rest.skip(start - 1) =~= text.skip(start));
    }
}

proof fn lemma_strip_back_at(text: Seq<char>, kind: spec_fn(char) -> bool, end: int)
    requires
        0 <= end <= text.len(),
        forall|i: int| end <= i < text.len() ==> kind(#[trigger] text[i]),
        end > 0 ==> !kind(text[end - 1]),
    ensures
        strip_back(text, kind) == text.take(end),
    decreases text.len(),
{
    if end == text.len() {
        assert(text.take(end) =~= text);
    } else {
        let rest = text.drop_last();
        assert forall|i: int| end <= i < rest.len() implies kind(#[trigger] rest[i]) by {
            assert(rest[i] == text[i]);
        }
        lemma_strip_back_at(rest, kind, end);
        assert(rest.take(end) =~= text.take(end));
    }
}

/// A text without the white space around it.
pub fn trim(text: &str) -> (result: String)
    ensures
        result@ == trimmed(text@),
{
    let chars = chars_of(text);
    let ghost kind = |c: char| white_space(c);
    let mut from: usize = 0;
    while from < chars.len() && is_white_space(chars[from])
        invariant
            from <= chars@.len(),
            forall|i: int| 0 <= i < from ==> white_space(#[trigger] chars@[i]),
        decreases chars@.len() - from,
    {
        from += 1;
    }
    let mut to: usize = chars.len();
    while from < to && is_white_space(chars[to - 1])
        invariant
            from <= to <= chars@.len(),
            forall|i: int| to <= i < chars@.len() ==> white_space(#[trigger] chars@[i]),
        decreases to,
    {
        to -= 1;
    }
    proof {
        lemma_strip_front_at(text@, kind, from as int);
        let front = text@.skip(from as int);
        assert forall|i: int| to - from <= i < front.len() implies kind(#[trigger] front[i]) by {
            assert(front[i] == chars@[i + from]);
        }
        lemma_strip_back_at(front, kind, to - from);
        assert(front.take(to - from) =~= chars@.subrange(from as int, to as int));
    }
    text_between(&chars, from, to)
}

/// A text without the NUL characters around it.
pub fn trim_nul(text: &str) -> (result: String)
    ensures
        result@ == without_nul(text@),
{
    let chars = chars_of(text);
    let ghost kind = |c: char| c == '\0';
    let mut from: usize = 0;
    while from < chars.len() && chars[from] == '\0'
        invariant
            from <= chars@.len(),
            forall|i: int| 0 <= i < from ==> #[trigger] chars@[i] == '\0',
        decreases chars@.len() - from,
    {
        from += 1;
    }
    let mut to: usize = chars.len();
    while from < to && chars[to - 1] == '\0'
        invariant
            from <= to <= chars@.len(),
            forall|i: int| to <= i < chars@.len() ==> #[trigger] chars@[i] == '\0',
        decreases to,
    {
        to -= 1;
    }
    proof {
        lemma_strip_front_at(text@, kind, from as int);
        let front = text@.skip(from as int);
        assert forall|i: int| to - from <= i < front.len() implies kind(#[trigger] front[i]) by {
            assert(front[i] == chars@[i + from]);
        }
        lemma_strip_back_at(front, kind, to - from);
        assert(front.take(to - from) =~= chars@.subrange(from as int, to as int));
    }
    text_between(&chars, from, to)
}

/// An extension in the form that extensions are listed in.
pub fn normalize_extension(text: &str) -> (result: String)
    ensures
        result@ == normal_extension(text@),
{
    let trimmed_text = trim(text);
    let chars = chars_of(trimmed_text.as_str());
    let ghost kind = |c: char| c == '.';
    let mut from: usize = 0;
    while from < chars.len() && chars[from] == '.'
        invariant
            from <= chars@.len(),
            forall|i: int| 0 <= i < from ==> #[trigger] chars@[i] == '.',
        decreases chars@.len() - from,
    {
        from += 1;
    }
    proof {
        lemma_strip_front_at(chars@, kind, from as int);
        assert(chars@.skip(from as int) =~= chars@.subrange(from as int, chars@.len() as int));
    }
    let name = text_between(&chars, from, chars.len());
    to_lowercase(name.as_str())
}

/// The pieces of a text between separators.
pub fn split(text: &str, separator: char) -> (result: Vec<String>)
    ensures
        texts_of(result@) == pieces(text@, separator),
{
    let chars = chars_of(text);
    let mut result: Vec<String> = Vec::new();
    let mut piece = String::new();
    let mut index: usize = 0;
    assert(texts_of(result@).push(piece@) =~= pieces(text@.take(0), separator));
    while index < chars.len()
        invariant
            chars@ == text@,
            index <= chars@.len(),
            texts_of(result@).push(piece@) == pieces(text@.take(index as int), separator),
        decreases chars@.len() - index,
    {
        let ghost before = texts_of(result@).push(piece@);
        let c = chars[index];
        assert(text@.take(index + 1).drop_last() =~= text@.take(index as int));
        if c == separator {
            result.push(piece);
            piece = String::new();
            assert(texts_of(result@).push(piece@) =~= before.push(Seq::empty()));
        } else {
            piece.push(c);
            assert(texts_of(result@).push(piece@) =~= before.update(
                before.len() - 1,
                before.last().push(c),
            ));
        }
        index += 1;
    }
    assert(text@.take(index as int) =~= text@);
    result.push(piece);
    assert(texts_of(result@) =~= pieces(text@, separator));
    result
}

/// Whether two texts are the same.
pub fn same_text(left: &str, right: &str) -> (same: bool)
    ensures
        same == (left@ == right@),
{
    left.to_owned() == right.to_owned()
}

/// Whether a list holds a text.
pub fn has_text(texts: &Vec<String>, text: &str) -> (found: bool)
    ensures
        found == texts_of(texts@).contains(text@),
{
    let mut index: usize = 0;
    while index < texts.len()
        invariant
            index <= texts@.len(),
            forall|i: int| 0 <= i < index ==> (#[trigger] texts@[i])@ != text@,
        decreases texts@.len() - index,
    {
        if same_text(texts[index].as_str(), text) {
            assert(texts_of(texts@)[index as int] == text@);
            return true;
        }
        index += 1;
    }
    assert forall|i: int| 0 <= i < texts_of(texts@).len() implies texts_of(texts@)[i] != text@ by {
        assert(texts@[i]@ != text@);
    }
    false
}

/// A copy of a list of texts.
pub fn texts_copy(texts: &Vec<String>) -> (copy: Vec<String>)
    ensures
        texts_of(copy@) == texts_of(texts@),
{
    let mut copy: Vec<String> = Vec::new();
    let mut index: usize = 0;
    while index < texts.len()
        invariant
            index <= texts@.len(),
            copy@.len() == index,
            forall|i: int| 0 <= i < index ==> (#[trigger] copy@[i])@ == texts@[i]@,
        decreases texts@.len() - index,
    {
        copy.push(texts[index].clone());
        index += 1;
    }
    assert(texts_of(copy@) =~= texts_of(texts@));
    copy
}

/// A copy of an optional text.
pub fn text_copy(text: &Option<String>) -> (copy: Option<String>)
    ensures
        text_of(copy) == text_of(*text),
{
    match text {
        Some(value) => Some(value.clone()),
        None => None,
    }
}

/// A number in decimal.
pub fn to_decimal(n: u128) -> (text: String)
    ensures
        text@ == decimal(n as nat),
    decreases n,
{
    if n < 10 {
        let mut text = String::new();
        text.push((n as u8 + 48) as char);
        assert(text@ =~= decimal(n as nat));
        text
    } else {
        let mut text = to_decimal(n / 10);
        text.push(((n % 10) as u8 + 48) as char);
        text
    }
}

/// Two texts, one after the other.
pub fn joined(left: &str, right: &str) -> (text: String)
    ensures
        text@ == left@ + right@,
{
    let mut text = left.to_owned();
    text.append(right);
    text
}

/// Stripping takes characters of the kind off, all of them and no others.
pub proof fn law_stripping_takes_the_kind_off(text: Seq<char>, kind: spec_fn(char) -> bool)
    ensures
        ({
            let rest = strip_front(text, kind);
            &&& rest.len() <= text.len()
            &&& rest == text.skip(text.len() - rest.len())
            &&& rest.len() > 0 ==> !kind(rest[0])
            &&& forall|i: int| 0 <= i < text.len() - rest.len() ==> kind(#[trigger] text[i])
        }),
        ({
            let rest = strip_back(text, kind);
            &&& rest.len() <= text.len()
            &&& rest == text.take(rest.len() as int)
            &&& rest.len() > 0 ==> !kind(rest.last())
            &&& forall|i: int| rest.len() <= i < text.len() ==> kind(#[trigger] text[i])
        }),
    decreases text.len(),
{
    if text.len() > 0 {
        if kind(text[0]) {
            law_stripping_takes_the_kind_off(text.skip(1), kind);
            let rest = strip_front(text.skip(1), kind);
            assert(text.skip(1).skip(text.skip(1).len() - rest.len()) =~= text.skip(
                text.len() - rest.len(),
            ));
            assert forall|i: int| 0 <= i < text.len() - rest.len() implies kind(
                #[trigger] text[i],
            ) by {
                if i > 0 {
                    assert(text[i] == text.skip(1)[i - 1]);
                }
            }
        } else {
            assert(text.skip(0) =~= text);
        }
        if kind(text.last()) {
            law_stripping_takes_the_kind_off(text.drop_last(), kind);
            let rest = strip_back(text.drop_last(), kind);
            assert(text.drop_last().take(rest.len() as int) =~= text.take(rest.len() as int));
            assert forall|i: int| rest.len() <= i < text.len() implies kind(#[trigger] text[i]) by {
                if i < text.len() - 1 {
                    assert(text[i] == text.drop_last()[i]);
                }
            }
        } else {
            assert(text.take(text.len() as int) =~= text);
        }
    } else {
        assert(text.skip(0) =~= text);
        assert(text.take(0) =~= text);
    }
}

/// Lowercase changes the ASCII capitals alone, each to the letter that stands 32 places
/// behind it.
pub proof fn law_lowercase_changes_capitals(text: Seq<char>, i: int)
    requires
        0 <= i < text.len(),
    ensures
        lowercase(text).len() == text.len(),
        'A' <= text[i] && text[i] <= 'Z' ==> lowercase(text)[i] as int == text[i] as int + 32,
        !('A' <= text[i] && text[i] <= 'Z') ==> lowercase(text)[i] == text[i],
        lowercase(lowercase(text)) == lowercase(text),
{
    assert(lowercase(lowercase(text)) =~= lowercase(text));
}

/// An extension in its normal form is the same whether it was given with dots in front, in
/// capitals, or with white space around it.
pub proof fn law_normal_extension_ignores_form(text: Seq<char>)
    requires
        text.len() > 0,
        text[0] != '.',
        !white_space(text[0]),
        !white_space(text.last()),
    ensures
        normal_extension(text) == lowercase(text),
        normal_extension(seq!['.'] + text) == lowercase(text),
        normal_extension(seq![' '] + text) == lowercase(text),
        normal_extension(text.push(' ')) == lowercase(text),
{
    let white = |c: char| white_space(c);
    let dot = |c: char| c == '.';
    assert(strip_front(text, white) == text);
    assert(strip_back(text, white) == text);
    assert(strip_front(text, dot) == text);
    let dotted = seq!['.'] + text;
    assert(dotted.skip(1) =~= text);
    assert(dotted.last() == text.last());
    assert(strip_front(dotted, white) == dotted);
    assert(strip_back(dotted, white) == dotted);
    assert(strip_front(dotted, dot) == text);
    let spaced = seq![' '] + text;
    assert(spaced.skip(1) =~= text);
    assert(strip_front(spaced, white) == text);
    let trailing = text.push(' ');
    assert(trailing.drop_last() =~= text);
    assert(strip_front(trailing, white) == trailing);
    assert(strip_back(trailing, white) == text);
}

/// The digits of a number in decimal, read from left to right, are the number.
pub open spec fn read_decimal(text: Seq<char>) -> int
    decreases text.len(),
{
    if text.len() == 0 {
        0
    } else {
        10 * read_decimal(text.drop_last()) + (text.last() as int - 48)
    }
}

/// A number in decimal reads as the number, is made of digits, and starts with no zero but
/// for zero itself.
pub proof fn law_decimal_reads_back(n: nat)
    ensures
        read_decimal(decimal(n)) == n,
        decimal(n).len() > 0,
        forall|i: int| 0 <= i < decimal(n).len() ==> '0' <= #[trigger] decimal(n)[i] <= '9',
        n > 0 ==> decimal(n)[0] != '0',
    decreases n,
{
    if n < 10 {
        assert(decimal(n).drop_last() =~= Seq::empty());
        assert(read_decimal(decimal(n).drop_last()) == 0);
    } else {
        law_decimal_reads_back(n / 10);
        let text = decimal(n);
        assert(text.drop_last() =~= decimal(n / 10));
        assert(text[0] == decimal(n / 10)[0]);
    }
}

/// The pieces of a text hold no separator, and with separators between them they are the
/// text.
pub proof fn law_pieces_make_the_text(text: Seq<char>, separator: char)
    ensures
        pieces(text, separator).len() >= 1,
        rejoined(pieces(text, separator), separator) == text,
        forall|i: int|
            0 <= i < pieces(text, separator).len() ==> !(#[trigger] pieces(
                text,
                separator,
            )[i]).contains(separator),
    decreases text.len(),
{
    if text.len() == 0 {
        let all = pieces(text, separator);
        assert(all.len() == 1);
        assert(rejoined(all, separator) =~= text);
    } else {
        let before = text.drop_last();
        law_pieces_make_the_text(before, separator);
        let front = pieces(before, separator);
        let all = pieces(text, separator);
        if text.last() == separator {
            assert(all.drop_last() =~= front);
            assert(rejoined(all, separator) =~= text);
        } else {
            let grown = front.last().push(text.last());
            assert(all.drop_last() =~= front.drop_last());
            assert(!grown.contains(separator)) by {
                if grown.contains(separator) {
                    let k = grown.index_of(separator);
                    assert(front.last()[k] == separator);
                    assert(front[front.len() - 1].contains(separator));
                }
            }
            assert(rejoined(all, separator) =~= rejoined(front, separator).push(text.last()));
            assert(before.push(text.last()) =~= text);
        }
    }
}

/// Texts with a separator between them.
pub open spec fn rejoined(texts: Seq<Seq<char>>, separator: char) -> Seq<char>
    decreases texts.len(),
{
    if texts.len() == 0 {
        Seq::empty()
    } else if texts.len() == 1 {
        texts[0]
    } else {
        rejoined(texts.drop_last(), separator).push(separator) + texts.last()
    }
}

/// Whether a line is a text with something before and something after it.
pub open spec fn encloses(
    line: Seq<char>,
    before: Seq<char>,
    text: Seq<char>,
    after: Seq<char>,
) -> bool {
    line == before + text + after
}

/// Whether a line holds a text.
pub open spec fn tells(line: Seq<char>, text: Seq<char>) -> bool {
    exists|before: Seq<char>, after: Seq<char>| #[trigger] encloses(line, before, text, after)
}

} // verus!
