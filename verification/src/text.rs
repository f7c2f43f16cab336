//! Text as the commands see it: character classes, lengths, prefixes, and which
//! characters a text is made of, each with its meaning as a function on sequences
//! of characters.

use vstd::prelude::*;
use vstd::utf8::encode_utf8;

verus! {

/// `String::push` appends one character.
pub assume_specification [String::push](buffer: &mut String, c: char)
    ensures
        final(buffer)@ == old(buffer)@.push(c),
;

/// The characters with the Unicode property `White_Space`.
pub open spec fn is_white(c: char) -> bool {
    ||| '\u{9}' <= c <= '\u{d}'
    ||| c == ' '
    ||| c == '\u{85}'
    ||| c == '\u{a0}'
    ||| c == '\u{1680}'
    ||| '\u{2000}' <= c <= '\u{200a}'
    ||| c == '\u{2028}'
    ||| c == '\u{2029}'
    ||| c == '\u{202f}'
    ||| c == '\u{205f}'
    ||| c == '\u{3000}'
}

/// Whether `c` has the Unicode property `White_Space`.
pub fn white(c: char) -> (r: bool)
    ensures
        r == is_white(c),
{
    ('\u{9}' <= c && c <= '\u{d}') || c == ' ' || c == '\u{85}' || c == '\u{a0}' || c == '\u{1680}'
        || ('\u{2000}' <= c && c <= '\u{200a}') || c == '\u{2028}' || c == '\u{2029}' || c
        == '\u{202f}' || c == '\u{205f}' || c == '\u{3000}'
}

pub open spec fn is_digit(c: char) -> bool {
    '0' <= c <= '9'
}

/// ASCII letters and digits.
pub open spec fn is_alphanumeric(c: char) -> bool {
    ||| 'a' <= c <= 'z'
    ||| 'A' <= c <= 'Z'
    ||| is_digit(c)
}

/// Whether `c` is an ASCII decimal digit.
pub fn digit(c: char) -> (r: bool)
    ensures
        r == is_digit(c),
{
    '0' <= c && c <= '9'
}

/// Whether `c` is an ASCII letter or digit.
pub fn alphanumeric(c: char) -> (r: bool)
    ensures
        r == is_alphanumeric(c),
{
    ('a' <= c && c <= 'z') || ('A' <= c && c <= 'Z') || ('0' <= c && c <= '9')
}

/// The texts that a list of strings holds.
pub open spec fn texts(list: Seq<String>) -> Seq<Seq<char>> {
    list.map_values(|s: String| s@)
}

/// The number of bytes that `s` takes in UTF-8, which is what Rust calls the
/// length of a string.
pub open spec fn byte_len(s: Seq<char>) -> nat {
    encode_utf8(s).len()
}

/// The UTF-8 length of `s`.
pub fn utf8_len(s: &str) -> (r: usize)
    ensures
        r == byte_len(s@),
{
    s.as_bytes().len()
}

/// Every character of `s` is an ASCII letter or digit or one of `extra`.
pub open spec fn only(s: Seq<char>, extra: Seq<char>) -> bool {
    forall|i: int| 0 <= i < s.len() ==> is_alphanumeric(#[trigger] s[i]) || extra.contains(s[i])
}

/// No character of `s` is one of `banned`.
pub open spec fn free_of(s: Seq<char>, banned: Seq<char>) -> bool {
    forall|i: int| 0 <= i < s.len() ==> !banned.contains(#[trigger] s[i])
}

/// The characters of `s`, in order.
pub fn chars_of(s: &str) -> (r: Vec<char>)
    ensures
        r@ == s@,
{
    let mut out: Vec<char> = Vec::new();
    for c in it: s.chars()
        invariant
            it.seq() == s@,
            out@ == s@.take(it.index() as int),
    {
        out.push(c);
    }
    assert(s@.take(s@.len() as int) =~= s@);
    out
}

/// The text made of the characters `from..to` of `chars`.
pub fn text_between(chars: &Vec<char>, from: usize, to: usize) -> (r: String)
    requires
        from <= to <= chars@.len(),
    ensures
        r@ == chars@.subrange(from as int, to as int),
{
    let mut out = String::new();
    let mut i: usize = from;
    while i < to
        invariant
            from <= i <= to <= chars@.len(),
            out@ == chars@.subrange(from as int, i as int),
        decreases to - i,
    {
        out.push(chars[i]);
        i += 1;
        assert(chars@.subrange(from as int, i as int) =~= chars@.subrange(
            from as int,
            i - 1,
        ).push(chars@[i - 1]));
    }
    out
}

/// Whether `c` occurs in `s`.
pub fn has_char(s: &str, c: char) -> (r: bool)
    ensures
        r == s@.contains(c),
{
    let mut found = false;
    for d in it: s.chars()
        invariant
            it.seq() == s@,
            found == s@.take(it.index() as int).contains(c),
    {
        let ghost before = s@.take(it.index() as int);
        assert(s@.take(it.index() + 1) =~= before.push(d));
        proof {
            if before.contains(c) {
                let k = choose|k: int| 0 <= k < before.len() && before[k] == c;
                assert(before.push(d)[k] == c);
            }
            if d == c {
                assert(before.push(d)[before.len() as int] == c);
            }
            if before.push(d).contains(c) && d != c {
                let k = choose|k: int| 0 <= k < before.push(d).len() && before.push(d)[k] == c;
                assert(before[k] == c);
            }
        }
        if d == c {
            found = true;
        }
    }
    assert(s@.take(s@.len() as int) =~= s@);
    found
}

/// Whether every character of `s` is an ASCII letter or digit or one of
/// `extra`.
pub fn made_of(s: &str, extra: &str) -> (r: bool)
    ensures
        r == only(s@, extra@),
{
    for c in it: s.chars()
        invariant
            it.seq() == s@,
            forall|i: int|
                0 <= i < it.index() ==> is_alphanumeric(#[trigger] s@[i]) || extra@.contains(s@[i]),
    {
        if !alphanumeric(c) && !has_char(extra, c) {
            assert(s@[it.index() as int] == c);
            return false;
        }
    }
    true
}

/// Whether `s` has one to `max` characters, each an ASCII letter or digit or one
/// of `extra`.
pub fn named_within(s: &str, max: usize, extra: &str) -> (r: bool)
    ensures
        r == (1 <= s@.len() <= max && only(s@, extra@)),
{
    let len = s.unicode_len();
    1 <= len && len <= max && made_of(s, extra)
}

/// Whether no character of `s` is one of `banned`.
pub fn clear_of(s: &str, banned: &str) -> (r: bool)
    ensures
        r == free_of(s@, banned@),
{
    for c in it: s.chars()
        invariant
            it.seq() == s@,
            forall|i: int| 0 <= i < it.index() ==> !banned@.contains(#[trigger] s@[i]),
    {
        if has_char(banned, c) {
            assert(s@[it.index() as int] == c);
            return false;
        }
    }
    true
}

/// Whether `s` begins with `prefix`.
pub fn begins_with(s: &str, prefix: &str) -> (r: bool)
    ensures
        r == prefix@.is_prefix_of(s@),
{
    let chars = chars_of(s);
    let lead = chars_of(prefix);
    if lead.len() > chars.len() {
        return false;
    }
    let mut i: usize = 0;
    while i < lead.len()
        invariant
            chars@ == s@,
            lead@ == prefix@,
            lead@.len() <= chars@.len(),
            i <= lead@.len(),
            forall|k: int| 0 <= k < i ==> lead@[k] == chars@[k],
        decreases lead.len() - i,
    {
        if lead[i] != chars[i] {
            assert(s@.subrange(0, prefix@.len() as int)[i as int] != prefix@[i as int]);
            return false;
        }
        i += 1;
    }
    true
}

/// Whether the two texts are the same.
pub fn same(a: &str, b: &str) -> (r: bool)
    ensures
        r == (a@ == b@),
{
    let x = a.to_owned();
    let y = b.to_owned();
    x == y
}

} // verus!
