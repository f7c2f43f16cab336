//! IPv4 addresses in dotted-quad form.

use vstd::prelude::*;

use crate::number::{all_digits, number_of, parse_up_to};
use crate::split::{join_undoes_split, lemma_pieces_nonempty, pieces, split, Separator};
use crate::text::{chars_of, digit, is_digit, texts};

verus! {

/// Up to three digits that write a number up to 255, leading zeros included.
pub open spec fn is_loose_octet(s: Seq<char>) -> bool {
    &&& 1 <= s.len() <= 3
    &&& all_digits(s)
    &&& number_of(s) <= 255
}

/// The one way to write each number up to 255: no leading zeros.
pub open spec fn is_octet(s: Seq<char>) -> bool {
    &&& is_loose_octet(s)
    &&& s.len() > 1 ==> s.first() != '0'
}

/// Four octets with a dot between each two, leading zeros allowed.
pub open spec fn is_loose_quad(s: Seq<char>) -> bool {
    let octets = pieces(s, Separator::Char('.'));
    &&& octets.len() == 4
    &&& forall|i: int| 0 <= i < 4 ==> is_loose_octet(#[trigger] octets[i])
}

/// Four octets with a dot between each two, none with a leading zero.
pub open spec fn is_dotted_quad(s: Seq<char>) -> bool {
    let octets = pieces(s, Separator::Char('.'));
    &&& octets.len() == 4
    &&& forall|i: int| 0 <= i < 4 ==> is_octet(#[trigger] octets[i])
}

fn loose_octet(s: &str) -> (r: bool)
    ensures
        r == is_loose_octet(s@),
{
    let chars = chars_of(s);
    if chars.len() < 1 || chars.len() > 3 {
        return false;
    }
    let mut i: usize = 0;
    while i < chars.len()
        invariant
            chars@ == s@,
            i <= chars@.len(),
            forall|k: int| 0 <= k < i ==> is_digit(#[trigger] chars@[k]),
        decreases chars.len() - i,
    {
        if !digit(chars[i]) {
            return false;
        }
        i += 1;
    }
    assert(is_digit(s@[0]) && s@.first() == s@[0]);
    parse_up_to(s, 255).is_some()
}

fn octet(s: &str) -> (r: bool)
    ensures
        r == is_octet(s@),
{
    if !loose_octet(s) {
        return false;
    }
    let chars = chars_of(s);
    chars.len() == 1 || chars[0] != '0'
}

/// Whether `value` is an IPv4 address in dotted-quad form, leading zeros
/// allowed.
pub fn valid_ipv4(value: &str) -> (r: bool)
    ensures
        r == is_loose_quad(value@),
{
    let octets = split(value, Separator::Char('.'));
    let ghost parts = texts(octets@);
    if octets.len() != 4 {
        return false;
    }
    assert(parts[0] == octets@[0]@ && parts[1] == octets@[1]@);
    assert(parts[2] == octets@[2]@ && parts[3] == octets@[3]@);
    loose_octet(octets[0].as_str()) && loose_octet(octets[1].as_str()) && loose_octet(
        octets[2].as_str(),
    ) && loose_octet(octets[3].as_str())
}

/// Whether `value` is an IPv4 address in dotted-quad form, without leading
/// zeros.
pub fn dotted_quad(value: &str) -> (r: bool)
    ensures
        r == is_dotted_quad(value@),
{
    let octets = split(value, Separator::Char('.'));
    let ghost parts = texts(octets@);
    if octets.len() != 4 {
        return false;
    }
    assert(parts[0] == octets@[0]@ && parts[1] == octets@[1]@);
    assert(parts[2] == octets@[2]@ && parts[3] == octets@[3]@);
    octet(octets[0].as_str()) && octet(octets[1].as_str()) && octet(octets[2].as_str()) && octet(
        octets[3].as_str(),
    )
}

/// An address with no leading zeros is an address.
pub proof fn strict_addresses_are_addresses(s: Seq<char>)
    requires
        is_dotted_quad(s),
    ensures
        is_loose_quad(s),
{
    let octets = pieces(s, Separator::Char('.'));
    assert forall|i: int| 0 <= i < 4 implies is_loose_octet(#[trigger] octets[i]) by {
        assert(is_octet(octets[i]));
    }
}

/// Where a text begins, its first piece begins.
proof fn lemma_first_piece_starts(s: Seq<char>)
    requires
        pieces(s, Separator::Char('.'))[0].len() > 0,
    ensures
        s.len() > 0,
        s.first() == pieces(s, Separator::Char('.'))[0].first(),
    decreases s.len(),
{
    let dot = Separator::Char('.');
    if s.len() > 0 {
        let rest = s.drop_last();
        lemma_pieces_nonempty(rest, dot);
        let before = pieces(rest, dot);
        if before[0].len() > 0 {
            lemma_first_piece_starts(rest);
        } else if before.len() == 1 {
            join_undoes_split(rest, '.');
            assert(rest =~= Seq::<char>::empty());
        }
    }
}

/// An address starts with a digit.
pub proof fn lemma_quad_starts_with_digit(s: Seq<char>)
    requires
        is_loose_quad(s),
    ensures
        s.len() > 0,
        is_digit(s.first()),
{
    let octets = pieces(s, Separator::Char('.'));
    assert(is_loose_octet(octets[0]));
    lemma_first_piece_starts(s);
}

} // verus!
