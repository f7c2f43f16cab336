//! Laws of text: characters, pieces, numbers and addresses.

use vstd::prelude::*;

use crate::ipv4::{is_dotted_quad, is_loose_octet, is_loose_quad, is_octet};
use crate::json::{lemma_value_at, member, value_in, JsonView};
use crate::laws::terms::{
    address, avoids, counts, drawn_from, figure, letter_or_digit, padded_address, padded_byte,
    padded_quad, quad, starts,
};
use crate::number::{all_digits, decimal, digit_value, in_range, number_of, unsigned};
use crate::split::{
    entries, items, join_undoes_split, joined, lemma_one_piece, lemma_pieces_concatenate, nonempty,
    pieces, separates, split_undoes_join, trim, trim_start, unbroken, words, Separator,
};
use crate::text::{byte_len, free_of, is_alphanumeric, is_digit, is_white, only, texts};

verus! {

/// Letters and digits are those with the codes of ASCII letters and digits.
pub proof fn letters_and_digits_by_code(c: char)
    ensures
        is_alphanumeric(c) <==> letter_or_digit(c),
        is_digit(c) <==> figure(c),
{
}

/// The characters of whitespace, by their codes.
pub proof fn whitespace_by_code(c: char)
    ensures
        is_white(c) <==> seq![
            9u32, 10, 11, 12, 13, 32, 0x85, 0xa0, 0x1680, 0x2000, 0x2001, 0x2002, 0x2003, 0x2004,
            0x2005, 0x2006, 0x2007, 0x2008, 0x2009, 0x200a, 0x2028, 0x2029, 0x202f, 0x205f, 0x3000,
        ].contains(c as u32),
{
    let codes = seq![
        9u32, 10, 11, 12, 13, 32, 0x85, 0xa0, 0x1680, 0x2000, 0x2001, 0x2002, 0x2003, 0x2004,
        0x2005, 0x2006, 0x2007, 0x2008, 0x2009, 0x200a, 0x2028, 0x2029, 0x202f, 0x205f, 0x3000,
    ];
    let code = c as u32;
    if is_white(c) {
        let at: int = if code <= 13 {
            code - 9
        } else if code == 32 {
            5
        } else if code == 0x85 {
            6
        } else if code == 0xa0 {
            7
        } else if code == 0x1680 {
            8
        } else if code <= 0x200a {
            code - 0x2000 + 9
        } else if code <= 0x2029 {
            code - 0x2028 + 20
        } else if code == 0x202f {
            22
        } else if code == 0x205f {
            23
        } else {
            24
        };
        assert(codes[at] == code);
    }
}

/// A text is made of letters, digits and some characters exactly where every one
/// of its characters is.
pub proof fn made_of_by_code(s: Seq<char>, extra: Seq<char>)
    ensures
        only(s, extra) <==> drawn_from(s, extra),
{
    assert forall|i: int| 0 <= i < s.len() implies is_alphanumeric(#[trigger] s[i])
        == letter_or_digit(s[i]) by {
        letters_and_digits_by_code(s[i]);
    }
}

/// A text is free of some characters exactly where it shares none with them.
pub proof fn free_of_shared_characters(s: Seq<char>, banned: Seq<char>)
    ensures
        free_of(s, banned) <==> avoids(s, banned),
{
    if free_of(s, banned) {
        assert forall|i: int, k: int|
            0 <= i < s.len() && 0 <= k < banned.len() implies #[trigger] s[i]
            != #[trigger] banned[k] by {
            assert(!banned.contains(s[i]));
        }
    }
    if avoids(s, banned) {
        assert forall|i: int| 0 <= i < s.len() implies !banned.contains(#[trigger] s[i]) by {
            if banned.contains(s[i]) {
                let k = choose|k: int| 0 <= k < banned.len() && banned[k] == s[i];
                assert(s[i] == banned[k]);
            }
        }
    }
}

/// Beginning with a text is going on after it.
pub proof fn beginnings(s: Seq<char>, prefix: Seq<char>)
    ensures
        prefix.is_prefix_of(s) <==> starts(s, prefix),
{
    if prefix.is_prefix_of(s) {
        assert(s =~= prefix + s.skip(prefix.len() as int));
    }
    if starts(s, prefix) {
        let rest = choose|rest: Seq<char>| s == #[trigger] (prefix + rest);
        assert(prefix =~= s.take(prefix.len() as int));
    }
}

/// The length in bytes counts one to four bytes for each character, by its code.
pub proof fn byte_length_by_code(c: char, rest: Seq<char>)
    ensures
        byte_len(Seq::empty()) == 0,
        byte_len(seq![c] + rest) == byte_len(rest) + if (c as u32) < 0x80 {
            1int
        } else if (c as u32) < 0x800 {
            2
        } else if (c as u32) < 0x10000 {
            3
        } else {
            4
        },
{
    let whole = seq![c] + rest;
    assert(whole.drop_first() =~= rest);
    assert(whole[0] == c);
}

/// A text without separators is one piece, and a separator between two texts parts
/// their pieces: this fixes the pieces of every text.
pub proof fn pieces_are_parted_by_separators(
    left: Seq<char>,
    c: char,
    right: Seq<char>,
    sep: Separator,
)
    ensures
        (sep matches Separator::Char(d) ==> (separates(sep, c) <==> c == d)),
        (sep is Whitespace ==> (separates(sep, c) <==> is_white(c))),
        (forall|i: int| 0 <= i < left.len() ==> !separates(sep, #[trigger] left[i])) ==> pieces(
            left,
            sep,
        ) == seq![left],
        separates(sep, c) ==> pieces(left + seq![c] + right, sep) == pieces(left, sep) + pieces(
            right,
            sep,
        ),
{
    if forall|i: int| 0 <= i < left.len() ==> !separates(sep, #[trigger] left[i]) {
        assert(unbroken(left, sep));
        lemma_one_piece(left, sep);
    }
    if separates(sep, c) {
        lemma_pieces_concatenate(left, c, right, sep);
    }
}

/// Joining puts the glue between each two texts and nowhere else.
pub proof fn glue_stands_between(list: Seq<Seq<char>>, last: Seq<char>, glue: Seq<char>)
    ensures
        joined(Seq::empty(), glue) == Seq::<char>::empty(),
        joined(seq![last], glue) == last,
        list.len() > 0 ==> joined(list.push(last), glue) == joined(list, glue) + glue + last,
{
    assert(list.push(last).drop_last() =~= list);
}

/// Dropping empty texts keeps every other one, in order.
pub proof fn empty_texts_are_dropped(list: Seq<Seq<char>>, last: Seq<char>)
    ensures
        nonempty(Seq::empty()) == Seq::<Seq<char>>::empty(),
        nonempty(list.push(last)) == if last.len() == 0 {
            nonempty(list)
        } else {
            nonempty(list).push(last)
        },
{
    assert(list.push(last).drop_last() =~= list);
}

/// Trimming takes whitespace off both ends and nothing else: whitespace that is
/// added at an end makes no difference, and a text that has none there stays.
pub proof fn trimming_takes_outer_whitespace(s: Seq<char>, c: char)
    ensures
        is_white(c) ==> trim(seq![c] + s) == trim(s),
        is_white(c) ==> trim(s.push(c)) == trim(s),
        s.len() == 0 || (!is_white(s.first()) && !is_white(s.last())) ==> trim(s) == s,
{
    let before = seq![c] + s;
    assert(before.drop_first() =~= s);
    assert(before.first() == c);
    if is_white(c) {
        lemma_trim_start_push(s, c);
        let start = trim_start(s);
        assert(start.push(c).drop_last() =~= start);
        if start.len() == 0 {
            assert(start =~= Seq::<char>::empty());
        }
    }
}

proof fn lemma_trim_start_push(s: Seq<char>, c: char)
    requires
        is_white(c),
    ensures
        trim_start(s.push(c)) == if trim_start(s).len() == 0 {
            Seq::empty()
        } else {
            trim_start(s).push(c)
        },
    decreases s.len(),
{
    let whole = s.push(c);
    if s.len() == 0 {
        assert(whole.drop_first() =~= Seq::<char>::empty());
        assert(whole.first() == c);
        reveal_with_fuel(trim_start, 2);
        assert(trim_start(whole) =~= Seq::<char>::empty());
    } else {
        assert(whole.first() == s.first());
        if is_white(s.first()) {
            lemma_trim_start_push(s.drop_first(), c);
            assert(whole.drop_first() =~= s.drop_first().push(c));
        }
    }
}

/// The entries of a list are what stands between its commas, each trimmed; its
/// items are those that are not empty.
pub proof fn commas_part_entries(left: Seq<char>, right: Seq<char>)
    ensures
        !left.contains(',') ==> entries(left) == seq![trim(left)],
        entries(left + seq![','] + right) == entries(left) + entries(right),
        !left.contains(',') ==> items(left) == if trim(left).len() == 0 {
            Seq::empty()
        } else {
            seq![trim(left)]
        },
        items(left + seq![','] + right) == items(left) + items(right),
{
    let comma = Separator::Char(',');
    lemma_pieces_concatenate(left, ',', right, comma);
    assert(entries(left + seq![','] + right) =~= entries(left) + entries(right));
    lemma_nonempty_concatenate(entries(left), entries(right));
    if !left.contains(',') {
        assert forall|i: int| 0 <= i < left.len() implies !separates(comma, #[trigger] left[i]) by {
            assert(left.contains(left[i]));
        }
        lemma_one_piece(left, comma);
        assert(entries(left) =~= seq![trim(left)]);
        let none = Seq::<Seq<char>>::empty();
        empty_texts_are_dropped(none, trim(left));
        assert(none.push(trim(left)) =~= seq![trim(left)]);
        assert(items(left) =~= if trim(left).len() == 0 {
            none
        } else {
            seq![trim(left)]
        });
    }
}

pub(crate) proof fn lemma_nonempty_concatenate(a: Seq<Seq<char>>, b: Seq<Seq<char>>)
    ensures
        nonempty(a + b) == nonempty(a) + nonempty(b),
    decreases b.len(),
{
    if b.len() == 0 {
        assert(a + b =~= a);
        assert(nonempty(a) + nonempty(b) =~= nonempty(a));
    } else {
        lemma_nonempty_concatenate(a, b.drop_last());
        assert((a + b).drop_last() =~= a + b.drop_last());
        assert(nonempty(a + b) =~= nonempty(a) + nonempty(b));
    }
}

/// The words of two texts with whitespace between them are the words of the one
/// and then those of the other; a text without whitespace is one word, or none.
pub proof fn whitespace_parts_words(left: Seq<char>, c: char, right: Seq<char>)
    ensures
        is_white(c) ==> words(left + seq![c] + right) == words(left) + words(right),
        (forall|i: int| 0 <= i < left.len() ==> !is_white(#[trigger] left[i])) ==> words(left)
            == if left.len() == 0 {
            Seq::empty()
        } else {
            seq![left]
        },
{
    let sep = Separator::Whitespace;
    if is_white(c) {
        lemma_pieces_concatenate(left, c, right, sep);
        lemma_nonempty_concatenate(pieces(left, sep), pieces(right, sep));
    }
    if forall|i: int| 0 <= i < left.len() ==> !is_white(#[trigger] left[i]) {
        assert forall|i: int| 0 <= i < left.len() implies !separates(sep, #[trigger] left[i]) by {}
        lemma_one_piece(left, sep);
        let none = Seq::<Seq<char>>::empty();
        empty_texts_are_dropped(none, left);
        assert(none.push(left) =~= seq![left]);
    }
}

/// Numbers are read digit by digit, by the codes of the digits, after at most one
/// plus sign; a text with anything else in it is no number.
pub proof fn numbers_are_read_by_digits(s: Seq<char>, c: char)
    ensures
        unsigned(seq![c]) == if figure(c) {
            Some((c as u32 - 48) as nat)
        } else {
            None::<nat>
        },
        unsigned(Seq::empty()) is None,
        s.len() > 0 && figure(c) ==> unsigned(s.push(c)) == match unsigned(s) {
            Some(n) => Some(10 * n + (c as u32 - 48) as nat),
            None => if s == seq!['+'] {
                Some((c as u32 - 48) as nat)
            } else {
                None
            },
        },
        !figure(c) ==> unsigned(s.push(c)) is None,
{
    letters_and_digits_by_code(c);
    let one = seq![c];
    assert(one.skip(0) =~= one);
    assert(one.drop_last() =~= Seq::<char>::empty());
    reveal_with_fuel(number_of, 2);
    assert(one.skip(1) =~= Seq::<char>::empty());
    if figure(c) {
        assert(all_digits(one));
        assert(one.first() == c);
    } else {
        assert(one[0] == c);
    }
    let whole = s.push(c);
    assert(whole.last() == c);
    if s.len() > 0 {
        assert(whole.first() == s.first());
        let digits = if s.first() == '+' {
            s.skip(1)
        } else {
            s
        };
        let more = if s.first() == '+' {
            whole.skip(1)
        } else {
            whole
        };
        assert(more =~= digits.push(c));
        assert(more.drop_last() =~= digits);
        assert(more[more.len() - 1] == c);
        if figure(c) {
            if all_digits(digits) {
                assert(all_digits(more));
            } else {
                let k = choose|k: int| 0 <= k < digits.len() && !is_digit(#[trigger] digits[k]);
                assert(more[k] == digits[k]);
                assert(!all_digits(more));
            }
            if digits.len() == 0 {
                assert(s =~= seq!['+']);
                assert(number_of(digits) == 0);
            }
            assert(s == seq!['+'] ==> digits.len() == 0);
        } else {
            assert(!all_digits(more));
        }
    } else {
        assert(whole =~= one);
    }
}

/// The decimal writing of a number has digits alone, no zero in front, and reads
/// back as the number.
pub proof fn decimals_read_back(n: nat)
    ensures
        unsigned(decimal(n)) == Some(n),
        decimal(n).len() > 0,
        forall|i: int| 0 <= i < decimal(n).len() ==> figure(#[trigger] decimal(n)[i]),
        decimal(n).len() > 1 ==> decimal(n)[0] != '0',
{
    lemma_decimal(n);
    assert(is_digit(decimal(n)[0]));
    assert forall|i: int| 0 <= i < decimal(n).len() implies figure(#[trigger] decimal(n)[i]) by {
        letters_and_digits_by_code(decimal(n)[i]);
    }
}

proof fn lemma_decimal(n: nat)
    ensures
        number_of(decimal(n)) == n,
        all_digits(decimal(n)),
        decimal(n).len() > 0,
        n > 0 ==> decimal(n)[0] != '0',
        n < 10 ==> decimal(n).len() == 1,
        n < 100 ==> decimal(n).len() <= 2,
        n < 1000 ==> decimal(n).len() <= 3,
    decreases n,
{
    let last = (n % 10 + '0' as int) as char;
    if n < 10 {
        assert(seq![last].drop_last() =~= Seq::<char>::empty());
        reveal_with_fuel(number_of, 2);
    } else {
        lemma_decimal(n / 10);
        let front = decimal(n / 10);
        assert(decimal(n) =~= front.push(last));
        assert(decimal(n).drop_last() =~= front);
        assert(decimal(n)[0] == front[0]);
        assert(10 * (n / 10) + n % 10 == n);
    }
}

/// A run of digits without a zero in front is the decimal writing of its number.
proof fn lemma_decimal_of_digits(s: Seq<char>)
    requires
        s.len() > 0,
        all_digits(s),
        s.len() > 1 ==> s[0] != '0',
    ensures
        decimal(number_of(s)) == s,
        s[0] != '0' ==> number_of(s) > 0,
    decreases s.len(),
{
    let rest = s.drop_last();
    assert(is_digit(s[s.len() - 1]));
    assert(is_digit(s[0]));
    if s.len() == 1 {
        assert(rest =~= Seq::<char>::empty());
        reveal_with_fuel(number_of, 2);
        assert(decimal(number_of(s)) =~= s);
    } else {
        assert forall|i: int| 0 <= i < rest.len() implies is_digit(#[trigger] rest[i]) by {
            assert(rest[i] == s[i]);
        }
        lemma_decimal_of_digits(rest);
        let n = number_of(s);
        assert(n / 10 == number_of(rest) && n % 10 == digit_value(s.last()));
        assert(decimal(n) =~= s);
    }
}

proof fn lemma_digits_are_their_number(s: Seq<char>)
    requires
        s.len() > 0,
        all_digits(s),
    ensures
        unsigned(s) == Some(number_of(s)),
{
    assert(is_digit(s[0]));
}

/// A range of numbers holds the texts that write a number in it.
pub proof fn ranges_hold_numbers(s: Seq<char>, low: nat, high: nat)
    ensures
        in_range(s, low, high) <==> counts(s, low, high),
{
}

proof fn lemma_unbroken_by_dot(s: Seq<char>)
    requires
        all_digits(s),
    ensures
        unbroken(s, Separator::Char('.')),
{
    assert forall|i: int| 0 <= i < s.len() implies !separates(
        Separator::Char('.'),
        #[trigger] s[i],
    ) by {
        assert(is_digit(s[i]));
    }
}

/// An address in dotted-quad form is four numbers up to 255 in their shortest
/// writing.
pub proof fn addresses_are_four_bytes(s: Seq<char>)
    ensures
        is_dotted_quad(s) <==> address(s),
{
    let octets = pieces(s, Separator::Char('.'));
    if is_dotted_quad(s) {
        join_undoes_split(s, '.');
        assert forall|i: int| 0 <= i < 4 implies #[trigger] octets[i] == decimal(
            number_of(octets[i]),
        ) && number_of(octets[i]) < 256 by {
            assert(is_octet(octets[i]));
            lemma_decimal_of_digits(octets[i]);
        }
        let a = number_of(octets[0]);
        let b = number_of(octets[1]);
        let c = number_of(octets[2]);
        let d = number_of(octets[3]);
        assert(octets =~= seq![decimal(a), decimal(b), decimal(c), decimal(d)]);
        assert(s == quad(a, b, c, d));
    }
    if address(s) {
        let (a, b, c, d) = choose|a: nat, b: nat, c: nat, d: nat|
            a < 256 && b < 256 && c < 256 && d < 256 && s == #[trigger] quad(a, b, c, d);
        let list = seq![decimal(a), decimal(b), decimal(c), decimal(d)];
        lemma_decimal(a);
        lemma_decimal(b);
        lemma_decimal(c);
        lemma_decimal(d);
        assert forall|i: int| 0 <= i < list.len() implies unbroken(
            #[trigger] list[i],
            Separator::Char('.'),
        ) && is_octet(list[i]) by {
            lemma_unbroken_by_dot(list[i]);
        }
        split_undoes_join(list, '.', Separator::Char('.'));
        assert forall|i: int| 0 <= i < 4 implies is_octet(#[trigger] octets[i]) by {
            assert(octets[i] == list[i]);
        }
    }
}

/// An address that may be padded is four runs of one to three digits that write
/// numbers up to 255.
pub proof fn padded_addresses_are_four_bytes(s: Seq<char>)
    ensures
        is_loose_quad(s) <==> padded_address(s),
{
    let octets = pieces(s, Separator::Char('.'));
    if is_loose_quad(s) {
        join_undoes_split(s, '.');
        assert forall|i: int| 0 <= i < 4 implies padded_byte(#[trigger] octets[i]) by {
            assert(is_loose_octet(octets[i]));
            lemma_digits_are_their_number(octets[i]);
            assert forall|k: int| 0 <= k < octets[i].len() implies figure(
                #[trigger] octets[i][k],
            ) by {
                assert(is_digit(octets[i][k]));
            }
        }
        assert(padded_quad(octets, s));
    }
    if padded_address(s) {
        let list = choose|list: Seq<Seq<char>>| padded_quad(list, s);
        assert forall|i: int| 0 <= i < list.len() implies unbroken(
            #[trigger] list[i],
            Separator::Char('.'),
        ) && is_loose_octet(list[i]) by {
            assert(padded_byte(list[i]));
            assert forall|k: int| 0 <= k < list[i].len() implies is_digit(
                #[trigger] list[i][k],
            ) by {
                assert(figure(list[i][k]));
            }
            lemma_unbroken_by_dot(list[i]);
            lemma_digits_are_their_number(list[i]);
        }
        split_undoes_join(list, '.', Separator::Char('.'));
        assert forall|i: int| 0 <= i < 4 implies is_loose_octet(#[trigger] octets[i]) by {
            assert(octets[i] == list[i]);
        }
    }
}

/// A member of a document is the value of the first member with its name, and null
/// where there is none or the document is no object.
pub proof fn members_are_found_by_name(document: JsonView, key: Seq<char>, at: int)
    ensures
        document matches JsonView::Object(list) ==> {
            &&& 0 <= at < list.len() && list[at].0 == key && (forall|i: int|
                0 <= i < at ==> (#[trigger] list[i]).0 != key) ==> member(document, key)
                == list[at].1
            &&& (forall|i: int| 0 <= i < list.len() ==> (#[trigger] list[i]).0 != key) ==> member(
                document,
                key,
            ) == JsonView::Null
        },
        document !is Object ==> member(document, key) == JsonView::Null,
{
    if let JsonView::Object(list) = document {
        if 0 <= at < list.len() && list[at].0 == key && (forall|i: int|
            0 <= i < at ==> (#[trigger] list[i]).0 != key) {
            lemma_value_at(list, at);
        }
        if forall|i: int| 0 <= i < list.len() ==> (#[trigger] list[i]).0 != key {
            lemma_value_absent(list, key);
        }
    }
}

proof fn lemma_value_absent(list: Seq<(Seq<char>, JsonView)>, key: Seq<char>)
    requires
        forall|i: int| 0 <= i < list.len() ==> (#[trigger] list[i]).0 != key,
    ensures
        value_in(list, key) == JsonView::Null,
    decreases list.len(),
{
    if list.len() > 0 {
        assert(list[0].0 != key);
        let rest = list.drop_first();
        assert forall|i: int| 0 <= i < rest.len() implies (#[trigger] rest[i]).0 != key by {
            assert(rest[i] == list[i + 1]);
        }
        lemma_value_absent(rest, key);
    }
}

} // verus!
