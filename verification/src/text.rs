//! Text scanning shared by the configuration, artifact, and transport rules.

use vstd::prelude::*;
use vstd::string::*;
use vstd::utf8::*;

verus! {

/// `String::push` appends one character at the end of the text.
pub assume_specification[ std::string::String::push ](s: &mut String, c: char)
    ensures
        final(s)@ == old(s)@.push(c),
;

/// `std::str::from_utf8` accepts exactly well-formed UTF-8 and gives its characters.
#[verifier::external_body]
pub(crate) fn utf8_text(bytes: &[u8]) -> (text: Option<String>)
    ensures
        text is Some <==> valid_utf8(bytes@),
        text matches Some(s) ==> s@ == decode_utf8(bytes@),
{
    std::str::from_utf8(bytes).ok().map(|text| text.to_string())
}

/// Whether two texts hold the same characters.
pub fn same_text(a: &str, b: &str) -> (same: bool)
    ensures
        same == (a@ == b@),
{
    let left = a.as_bytes();
    let right = b.as_bytes();
    proof {
        encode_utf8_decode_utf8(a@);
        encode_utf8_decode_utf8(b@);
    }
    if left.len() != right.len() {
        return false;
    }
    let mut i: usize = 0;
    while i < left.len()
        invariant
            left@.len() == right@.len(),
            left@ == encode_utf8(a@),
            right@ == encode_utf8(b@),
            i <= left@.len(),
            forall|j: int| 0 <= j < i ==> left@[j] == right@[j],
        decreases left@.len() - i,
    {
        if left[i] != right[i] {
            return false;
        }
        i += 1;
    }
    assert(left@ =~= right@);
    true
}

/// The characters of a text.
pub fn chars_of(s: &str) -> (chars: Vec<char>)
    ensures
        chars@ == s@,
{
    let mut chars: Vec<char> = Vec::new();
    for c in it: s.chars()
        invariant
            chars@ == it.seq().take(it.index()),
            it.seq() == s@,
    {
        chars.push(c);
    }
    chars
}

/// The text made of the given characters.
pub fn text_of(chars: &[char]) -> (s: String)
    ensures
        s@ == chars@,
{
    let mut s = String::new();
    let mut i: usize = 0;
    while i < chars.len()
        invariant
            i <= chars@.len(),
            s@ == chars@.take(i as int),
        decreases chars@.len() - i,
    {
        s.push(chars[i]);
        i += 1;
        assert(chars@.take(i as int) =~= chars@.take(i - 1).push(chars@[i - 1]));
    }
    assert(chars@.take(i as int) =~= chars@);
    s
}

/// One text followed by another.
pub fn concat(a: &str, b: &str) -> (s: String)
    ensures
        s@ == a@ + b@,
{
    let mut s = a.to_owned();
    s.append(b);
    s
}

/// Characters with the Unicode `White_Space` property.
pub open spec fn whitespace(c: char) -> bool {
    ||| '\u{9}' <= c <= '\u{d}'
    ||| c == ' '
    ||| c == '\u{85}'
    ||| c == '\u{a0}'
    ||| c == '\u{1680}'
    ||| '\u{2000}' <= c <= '\u{200a}'
    ||| c == '\u{2028}'
    ||| c == '\u{2029}'
    ||| c == '\u{202f}'
    ||| c == '\u{205f}'
    ||| c == '\u{3000}'
}

/// Whether a character has the Unicode `White_Space` property.
pub fn is_whitespace(c: char) -> (r: bool)
    ensures
        r == whitespace(c),
{
    ('\u{9}' <= c && c <= '\u{d}') || c == ' ' || c == '\u{85}' || c == '\u{a0}' || c == '\u{1680}'
        || ('\u{2000}' <= c && c <= '\u{200a}') || c == '\u{2028}' || c == '\u{2029}'
        || c == '\u{202f}' || c == '\u{205f}' || c == '\u{3000}'
}

/// The text without its leading whitespace.
pub open spec fn trim_start(s: Seq<char>) -> Seq<char>
    decreases s.len(),
{
    if s.len() > 0 && whitespace(s[0]) {
        trim_start(s.skip(1))
    } else {
        s
    }
}

/// The text without its trailing whitespace.
pub open spec fn trim_end(s: Seq<char>) -> Seq<char>
    decreases s.len(),
{
    if s.len() > 0 && whitespace(s.last()) {
        trim_end(s.drop_last())
    } else {
        s
    }
}

/// The text without its leading and trailing whitespace.
pub open spec fn trim(s: Seq<char>) -> Seq<char> {
    trim_end(trim_start(s))
}

/// Removes leading and trailing whitespace.
pub fn trimmed(chars: &[char]) -> (r: &[char])
    ensures
        r@ == trim(chars@),
{
    let mut start: usize = 0;
    assert(chars@.skip(0) =~= chars@);
    while start < chars.len() && is_whitespace(chars[start])
        invariant
            start <= chars@.len(),
            trim_start(chars@) == trim_start(chars@.skip(start as int)),
        decreases chars@.len() - start,
    {
        assert(chars@.skip(start as int).skip(1) =~= chars@.skip(start + 1));
        start += 1;
    }
    let ghost front = chars@.skip(start as int);
    assert(trim_start(chars@) == front);
    let mut end: usize = chars.len();
    assert(chars@.subrange(start as int, end as int) =~= front);
    while end > start && is_whitespace(chars[end - 1])
        invariant
            start <= end <= chars@.len(),
            front == chars@.skip(start as int),
            trim_end(front) == trim_end(chars@.subrange(start as int, end as int)),
        decreases end,
    {
        assert(chars@.subrange(start as int, end as int).drop_last() =~= chars@.subrange(
            start as int,
            end - 1,
        ));
        end -= 1;
    }
    vstd::slice::slice_subrange(chars, start, end)
}

/// Whether every character of the text is whitespace.
pub open spec fn blank(s: Seq<char>) -> bool {
    forall|i: int| 0 <= i < s.len() ==> whitespace(#[trigger] s[i])
}

/// Whether trimming the text would leave nothing.
pub fn is_blank(s: &str) -> (r: bool)
    ensures
        r == blank(s@),
{
    let chars = chars_of(s);
    let mut i: usize = 0;
    while i < chars.len()
        invariant
            chars@ == s@,
            i <= chars@.len(),
            forall|j: int| 0 <= j < i ==> whitespace(#[trigger] chars@[j]),
        decreases chars@.len() - i,
    {
        if !is_whitespace(chars[i]) {
            return false;
        }
        i += 1;
    }
    true
}

/// A text trims to nothing exactly when it is blank.
pub proof fn trim_of_blank_is_empty(s: Seq<char>)
    ensures
        trim(s).len() == 0 <==> blank(s),
    decreases s.len(),
{
    if s.len() > 0 {
        if whitespace(s[0]) {
            trim_of_blank_is_empty(s.skip(1));
            assert(trim(s) == trim(s.skip(1)));
            if blank(s.skip(1)) {
                assert forall|i: int| 0 <= i < s.len() implies whitespace(#[trigger] s[i]) by {
                    if i > 0 {
                        assert(s.skip(1)[i - 1] == s[i]);
                    }
                }
            }
            if blank(s) {
                assert forall|i: int| 0 <= i < s.skip(1).len() implies whitespace(
                    #[trigger] s.skip(1)[i],
                ) by {
                    assert(s.skip(1)[i] == s[i + 1]);
                }
            }
        } else {
            trim_end_keeps_solid_head(s);
        }
    }
}

proof fn trim_end_keeps_solid_head(s: Seq<char>)
    requires
        s.len() > 0,
        !whitespace(s[0]),
    ensures
        trim_end(s).len() > 0,
    decreases s.len(),
{
    if whitespace(s.last()) {
        assert(s.drop_last().len() > 0);
        assert(s.drop_last()[0] == s[0]);
        trim_end_keeps_solid_head(s.drop_last());
    }
}

/// ASCII upper-case letters become lower case; every other character stays.
pub open spec fn lower_char(c: char) -> char {
    if 'A' <= c <= 'Z' {
        ((c as u32 + 32) as u32) as char
    } else {
        c
    }
}

/// The text with its ASCII letters in lower case.
pub open spec fn lower(s: Seq<char>) -> Seq<char> {
    s.map_values(|c: char| lower_char(c))
}

/// Folds ASCII letters to lower case.
pub fn lowered(chars: &[char]) -> (r: Vec<char>)
    ensures
        r@ == lower(chars@),
{
    let mut r: Vec<char> = Vec::new();
    let mut i: usize = 0;
    while i < chars.len()
        invariant
            i <= chars@.len(),
            r@ == lower(chars@.take(i as int)),
        decreases chars@.len() - i,
    {
        let c = chars[i];
        let folded = if 'A' <= c && c <= 'Z' {
            ((c as u8) + 32u8) as char
        } else {
            c
        };
        r.push(folded);
        i += 1;
        assert(chars@.take(i as int) =~= chars@.take(i - 1).push(chars@[i - 1]));
        assert(lower(chars@.take(i as int)) =~= lower(chars@.take(i - 1)).push(lower_char(chars@[i - 1])));
    }
    assert(chars@.take(i as int) =~= chars@);
    r
}

/// Position of the first occurrence of `c`, or the length when there is none.
pub open spec fn position(s: Seq<char>, c: char) -> nat
    decreases s.len(),
{
    if s.len() == 0 || s[0] == c {
        0
    } else {
        1 + position(s.skip(1), c)
    }
}

/// The pieces of a text between occurrences of `sep`; a text without it is one piece.
pub open spec fn split(s: Seq<char>, sep: char) -> Seq<Seq<char>>
    decreases s.len(),
{
    let p = position(s, sep) as int;
    if 0 <= p < s.len() {
        seq![s.take(p)] + split(s.skip(p + 1), sep)
    } else {
        seq![s]
    }
}

/// What `position` finds: no earlier occurrence, and an occurrence there unless it is the length.
pub proof fn position_properties(s: Seq<char>, c: char)
    ensures
        position(s, c) <= s.len(),
        position(s, c) < s.len() ==> s[position(s, c) as int] == c,
        forall|i: int| 0 <= i < position(s, c) ==> s[i] != c,
    decreases s.len(),
{
    if s.len() > 0 && s[0] != c {
        position_properties(s.skip(1), c);
        assert forall|i: int| 0 <= i < position(s, c) implies s[i] != c by {
            if i > 0 {
                assert(s.skip(1)[i - 1] == s[i]);
            }
        }
    }
}

/// Position of the first occurrence of `c`, or the length when there is none.
pub fn position_of(chars: &[char], c: char) -> (p: usize)
    ensures
        p as nat == position(chars@, c),
        p <= chars@.len(),
{
    let mut i: usize = 0;
    assert(chars@.skip(0) =~= chars@);
    while i < chars.len() && chars[i] != c
        invariant
            i <= chars@.len(),
            position(chars@, c) == i + position(chars@.skip(i as int), c),
        decreases chars@.len() - i,
    {
        assert(chars@.skip(i as int).skip(1) =~= chars@.skip(i + 1));
        i += 1;
    }
    i
}

/// Splits a text at every occurrence of `sep`.
pub fn split_at_char(chars: &[char], sep: char) -> (pieces: Vec<Vec<char>>)
    ensures
        pieces@.len() == split(chars@, sep).len(),
        forall|i: int| 0 <= i < pieces@.len() ==> (#[trigger] pieces@[i])@ == split(chars@, sep)[i],
{
    let mut pieces: Vec<Vec<char>> = Vec::new();
    let mut start: usize = 0;
    assert(chars@.skip(0) =~= chars@);
    let ghost whole = split(chars@, sep);
    loop
        invariant
            start <= chars@.len(),
            whole == split(chars@, sep),
            whole.len() == pieces@.len() + split(chars@.skip(start as int), sep).len(),
            forall|i: int| 0 <= i < pieces@.len() ==> (#[trigger] pieces@[i])@ == whole[i],
            forall|i: int|
                0 <= i < split(chars@.skip(start as int), sep).len()
                    ==> #[trigger] split(chars@.skip(start as int), sep)[i] == whole[pieces@.len() + i],
        decreases chars@.len() - start,
    {
        let ghost rest = chars@.skip(start as int);
        let tail = vstd::slice::slice_subrange(chars, start, chars.len());
        assert(tail@ =~= rest);
        let p = position_of(tail, sep);
        let piece = vstd::slice::slice_subrange(tail, 0, p);
        let owned = vstd::slice::slice_to_vec(piece);
        assert(owned@ =~= rest.take(p as int));
        proof {
            assert(split(rest, sep)[0] == whole[pieces@.len() as int]);
        }
        let ghost before = pieces@;
        pieces.push(owned);
        if p == tail.len() {
            assert(rest.take(p as int) =~= rest);
            return pieces;
        }
        proof {
            let after = split(rest.skip(p + 1), sep);
            assert(split(rest, sep) == seq![rest.take(p as int)] + after);
            assert(rest.skip(p + 1) =~= chars@.skip(start + p + 1));
            assert forall|i: int| 0 <= i < after.len() implies #[trigger] after[i]
                == whole[pieces@.len() + i] by {
                assert(split(rest, sep)[i + 1] == after[i]);
                assert(split(rest, sep)[i + 1] == whole[before.len() + (i + 1)]);
            }
        }
        start = start + p + 1;
    }
}

/// Trimming takes exactly the whitespace at both ends: what is left begins and ends with something
/// else, or is nothing, and between blank ends it is the text.
pub proof fn trimming_takes_blank_ends(s: Seq<char>)
    ensures
        trim(s).len() > 0 ==> !whitespace(trim(s)[0]) && !whitespace(trim(s).last()),
        exists|before: Seq<char>, after: Seq<char>|
            #![trigger before + trim(s) + after]
            blank(before) && blank(after) && before + trim(s) + after == s,
{
    let front = trim_start(s);
    let before = start_is_blank(s);
    let after = end_is_blank(front);
    assert(before + trim(s) + after =~= s) by {
        assert(before + front =~= s);
        assert(trim_end(front) + after =~= front);
    }
    if trim(s).len() > 0 {
        assert(trim(s)[0] == front[0]);
    }
}

/// What trimming takes from the start.
proof fn start_is_blank(s: Seq<char>) -> (before: Seq<char>)
    ensures
        blank(before),
        before + trim_start(s) == s,
        trim_start(s).len() > 0 ==> !whitespace(trim_start(s)[0]),
    decreases s.len(),
{
    if s.len() > 0 && whitespace(s[0]) {
        let rest = start_is_blank(s.skip(1));
        let before = seq![s[0]] + rest;
        assert(before + trim_start(s) =~= seq![s[0]] + (rest + trim_start(s.skip(1))));
        assert(seq![s[0]] + s.skip(1) =~= s);
        assert forall|i: int| 0 <= i < before.len() implies whitespace(#[trigger] before[i]) by {
            if i > 0 {
                assert(before[i] == rest[i - 1]);
            }
        }
        before
    } else {
        assert(Seq::<char>::empty() + s =~= s);
        Seq::empty()
    }
}

/// What trimming takes from the end.
proof fn end_is_blank(s: Seq<char>) -> (after: Seq<char>)
    ensures
        blank(after),
        trim_end(s) + after == s,
        trim_end(s).len() > 0 ==> !whitespace(trim_end(s).last()) && trim_end(s)[0] == s[0],
    decreases s.len(),
{
    if s.len() > 0 && whitespace(s.last()) {
        let rest = end_is_blank(s.drop_last());
        let after = rest.push(s.last());
        assert(trim_end(s) + after =~= (trim_end(s.drop_last()) + rest).push(s.last()));
        assert(s.drop_last().push(s.last()) =~= s);
        assert forall|i: int| 0 <= i < after.len() implies whitespace(#[trigger] after[i]) by {
            if i < rest.len() {
                assert(after[i] == rest[i]);
            }
        }
        after
    } else {
        assert(s + Seq::<char>::empty() =~= s);
        Seq::empty()
    }
}

/// A text that neither begins nor ends with whitespace is what trimming leaves of it between any
/// blank ends.
pub proof fn blank_ends_do_not_matter(before: Seq<char>, s: Seq<char>, after: Seq<char>)
    requires
        blank(before),
        blank(after),
        s.len() > 0,
        !whitespace(s[0]),
        !whitespace(s.last()),
    ensures
        trim(before + s + after) == s,
{
    let all = before + s + after;
    blank_start_goes(before, s + after);
    assert(all =~= before + (s + after));
    blank_end_goes(s, after);
}

proof fn blank_start_goes(before: Seq<char>, s: Seq<char>)
    requires
        blank(before),
        s.len() > 0,
        !whitespace(s[0]),
    ensures
        trim_start(before + s) == s,
    decreases before.len(),
{
    if before.len() == 0 {
        assert(before + s =~= s);
    } else {
        assert(whitespace(before[0]));
        assert((before + s).skip(1) =~= before.skip(1) + s);
        assert forall|i: int| 0 <= i < before.skip(1).len() implies whitespace(
            #[trigger] before.skip(1)[i],
        ) by {
            assert(before.skip(1)[i] == before[i + 1]);
        }
        blank_start_goes(before.skip(1), s);
    }
}

proof fn blank_end_goes(s: Seq<char>, after: Seq<char>)
    requires
        blank(after),
        s.len() > 0,
        !whitespace(s.last()),
    ensures
        trim_end(s + after) == s,
    decreases after.len(),
{
    if after.len() == 0 {
        assert(s + after =~= s);
    } else {
        assert(whitespace(after.last()));
        assert((s + after).drop_last() =~= s + after.drop_last());
        assert forall|i: int| 0 <= i < after.drop_last().len() implies whitespace(
            #[trigger] after.drop_last()[i],
        ) by {
            assert(after.drop_last()[i] == after[i]);
        }
        blank_end_goes(s, after.drop_last());
    }
}

/// Folding changes ASCII capitals alone, each to its small letter, and changes nothing twice.
pub proof fn folding_changes_capitals_alone(s: Seq<char>, i: int)
    requires
        0 <= i < s.len(),
    ensures
        lower(s).len() == s.len(),
        'A' <= s[i] <= 'Z' ==> lower(s)[i] as u32 == s[i] as u32 + 32,
        !('A' <= s[i] <= 'Z') ==> lower(s)[i] == s[i],
        lower(lower(s)) == lower(s),
{
    assert forall|j: int| 0 <= j < s.len() implies lower(lower(s))[j] == lower(s)[j] by {
        let c = s[j];
        if 'A' <= c <= 'Z' {
            assert(lower_char(c) as u32 == c as u32 + 32);
        }
    }
    assert(lower(lower(s)) =~= lower(s));
}

/// Pieces with a separator between each two.
pub open spec fn joined_with(pieces: Seq<Seq<char>>, sep: char) -> Seq<char>
    decreases pieces.len(),
{
    if pieces.len() == 0 {
        Seq::empty()
    } else if pieces.len() == 1 {
        pieces[0]
    } else {
        pieces[0] + seq![sep] + joined_with(pieces.skip(1), sep)
    }
}

/// Splitting loses nothing: the pieces with the separator between them are the text, and no piece
/// holds the separator.
pub proof fn splitting_loses_nothing(s: Seq<char>, sep: char)
    ensures
        split(s, sep).len() > 0,
        joined_with(split(s, sep), sep) == s,
        forall|i: int| 0 <= i < split(s, sep).len() ==> !(#[trigger] split(s, sep)[i]).contains(sep),
    decreases s.len(),
{
    position_properties(s, sep);
    let p = position(s, sep) as int;
    let pieces = split(s, sep);
    if p < s.len() {
        let rest = s.skip(p + 1);
        splitting_loses_nothing(rest, sep);
        assert(pieces.skip(1) =~= split(rest, sep));
        assert(joined_with(pieces, sep) =~= s.take(p) + seq![sep] + rest);
        assert(s.take(p) + seq![sep] + rest =~= s);
        assert forall|i: int| 0 <= i < pieces.len() implies !(#[trigger] pieces[i]).contains(sep) by {
            if i > 0 {
                assert(pieces[i] == split(rest, sep)[i - 1]);
            }
        }
    }
}

/// What stands before the first separator is the first piece, and what stands behind it is split by
/// itself.
pub proof fn first_piece_stands_before_the_separator(
    first: Seq<char>,
    rest: Seq<char>,
    sep: char,
)
    requires
        !first.contains(sep),
    ensures
        split(first + seq![sep] + rest, sep) == seq![first] + split(rest, sep),
        split(first, sep) == seq![first],
{
    let s = first + seq![sep] + rest;
    position_properties(s, sep);
    position_properties(first, sep);
    let p = position(s, sep) as int;
    assert(s[first.len() as int] == sep);
    if p < first.len() {
        assert(first[p] == s[p]);
        assert(first.contains(sep));
    }
    assert(p == first.len());
    assert(s.take(p) =~= first);
    assert(s.skip(p + 1) =~= rest);
    if position(first, sep) < first.len() {
        assert(first[position(first, sep) as int] == sep);
    }
}

/// Whitespace is what Unicode calls so: five control characters from the tabulator on, the next-line
/// control, and the spaces and separators of every width; no letter, digit, or sign is.
pub proof fn whitespace_is_that_of_unicode(c: char)
    ensures
        ({
            let n = c as u32;
            whitespace(c) <==> {
                ||| 9 <= n < 14
                ||| n == 32
                ||| n == 133
                ||| n == 160
                ||| n == 5760
                ||| 8192 <= n < 8203
                ||| n == 8232
                ||| n == 8233
                ||| n == 8239
                ||| n == 8287
                ||| n == 12288
            }
        }),
        'a' <= c <= 'z' || 'A' <= c <= 'Z' || '0' <= c <= '9' || c == '\0' ==> !whitespace(c),
{
}

}
