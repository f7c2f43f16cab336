//! Cutting text into pieces and putting pieces back together.

use vstd::prelude::*;

use crate::text::{chars_of, is_white, text_between, texts, white};

verus! {

/// What stands between two pieces of a text.
#[derive(Clone, Copy)]
pub enum Separator {
    Char(char),
    Whitespace,
}

/// Whether `c` separates pieces.
pub open spec fn separates(sep: Separator, c: char) -> bool {
    match sep {
        Separator::Char(d) => c == d,
        Separator::Whitespace => is_white(c),
    }
}

/// The pieces of `s` between separators, empty ones included: a text with `n`
/// separators has `n + 1` pieces.
pub open spec fn pieces(s: Seq<char>, sep: Separator) -> Seq<Seq<char>>
    decreases s.len(),
{
    if s.len() == 0 {
        seq![Seq::<char>::empty()]
    } else {
        let before = pieces(s.drop_last(), sep);
        if separates(sep, s.last()) {
            before.push(Seq::empty())
        } else {
            before.drop_last().push(before.last().push(s.last()))
        }
    }
}

/// `parts` without its empty texts.
pub open spec fn nonempty(parts: Seq<Seq<char>>) -> Seq<Seq<char>>
    decreases parts.len(),
{
    if parts.len() == 0 {
        parts
    } else {
        let before = nonempty(parts.drop_last());
        if parts.last().len() > 0 {
            before.push(parts.last())
        } else {
            before
        }
    }
}

/// The runs of characters of `s` between any amount of whitespace.
pub open spec fn words(s: Seq<char>) -> Seq<Seq<char>> {
    nonempty(pieces(s, Separator::Whitespace))
}

/// `s` without leading whitespace.
pub open spec fn trim_start(s: Seq<char>) -> Seq<char>
    decreases s.len(),
{
    if s.len() > 0 && is_white(s.first()) {
        trim_start(s.drop_first())
    } else {
        s
    }
}

/// `s` without trailing whitespace.
pub open spec fn trim_end(s: Seq<char>) -> Seq<char>
    decreases s.len(),
{
    if s.len() > 0 && is_white(s.last()) {
        trim_end(s.drop_last())
    } else {
        s
    }
}

/// `s` without whitespace at either end.
pub open spec fn trim(s: Seq<char>) -> Seq<char> {
    trim_end(trim_start(s))
}

/// The entries of a comma-separated list, each trimmed.
pub open spec fn entries(s: Seq<char>) -> Seq<Seq<char>> {
    pieces(s, Separator::Char(',')).map_values(|p: Seq<char>| trim(p))
}

/// The entries of a comma-separated list, each trimmed, empty ones dropped.
pub open spec fn items(s: Seq<char>) -> Seq<Seq<char>> {
    nonempty(entries(s))
}

/// The texts of `parts` one after another, `glue` between each two.
pub open spec fn joined(parts: Seq<Seq<char>>, glue: Seq<char>) -> Seq<char>
    decreases parts.len(),
{
    if parts.len() == 0 {
        Seq::empty()
    } else if parts.len() == 1 {
        parts.last()
    } else {
        joined(parts.drop_last(), glue) + glue + parts.last()
    }
}

/// There is always at least one piece.
pub proof fn lemma_pieces_nonempty(s: Seq<char>, sep: Separator)
    ensures
        pieces(s, sep).len() > 0,
    decreases s.len(),
{
    if s.len() > 0 {
        lemma_pieces_nonempty(s.drop_last(), sep);
    }
}

/// No separator stands in `s`.
pub open spec fn unbroken(s: Seq<char>, sep: Separator) -> bool {
    forall|i: int| 0 <= i < s.len() ==> !separates(sep, #[trigger] s[i])
}

/// No piece has a separator in it.
pub proof fn pieces_are_unbroken(s: Seq<char>, sep: Separator)
    ensures
        forall|i: int| 0 <= i < pieces(s, sep).len() ==> unbroken(#[trigger] pieces(s, sep)[i], sep),
    decreases s.len(),
{
    if s.len() > 0 {
        pieces_are_unbroken(s.drop_last(), sep);
        lemma_pieces_nonempty(s.drop_last(), sep);
        let before = pieces(s.drop_last(), sep);
        assert(before.last() == before[before.len() - 1]);
    }
}

/// Two neighbours in a piece are neighbours in the text.
pub(crate) proof fn lemma_neighbours(s: Seq<char>, sep: Separator, i: int, k: int)
    requires
        0 <= i < pieces(s, sep).len(),
        0 <= k < pieces(s, sep)[i].len() - 1,
    ensures
        exists|at: int|
            0 <= at < s.len() - 1 && #[trigger] s[at] == pieces(s, sep)[i][k] && s[at + 1]
                == pieces(s, sep)[i][k + 1],
    decreases s.len(),
{
    if s.len() > 0 {
        let rest = s.drop_last();
        let before = pieces(rest, sep);
        lemma_pieces_nonempty(rest, sep);
        if i < before.len() && k < before[i].len() - 1 {
            lemma_neighbours(rest, sep, i, k);
            let at = choose|at: int|
                0 <= at < rest.len() - 1 && #[trigger] rest[at] == before[i][k] && rest[at + 1]
                    == before[i][k + 1];
            assert(s[at] == rest[at] && s[at + 1] == rest[at + 1]);
        } else {
            lemma_last_piece_ends(rest, sep);
            assert(s[s.len() - 2] == rest.last());
            assert(s[s.len() - 2 + 1] == s.last());
        }
    }
}

/// Where the last piece is not empty, it ends where the text ends.
proof fn lemma_last_piece_ends(s: Seq<char>, sep: Separator)
    ensures
        pieces(s, sep).last().len() > 0 ==> s.len() > 0 && s.last() == pieces(s, sep).last().last(),
{
    if s.len() > 0 {
        lemma_pieces_nonempty(s.drop_last(), sep);
    }
}

/// A text with no separator is its own one piece.
pub(crate) proof fn lemma_one_piece(s: Seq<char>, sep: Separator)
    requires
        unbroken(s, sep),
    ensures
        pieces(s, sep) == seq![s],
    decreases s.len(),
{
    if s.len() > 0 {
        let rest = s.drop_last();
        assert forall|i: int| 0 <= i < rest.len() implies !separates(sep, #[trigger] rest[i]) by {
            assert(rest[i] == s[i]);
        }
        lemma_one_piece(rest, sep);
        assert(!separates(sep, s[s.len() - 1]));
        assert(rest.push(s.last()) =~= s);
        assert(pieces(s, sep) =~= seq![s]);
    } else {
        assert(s =~= Seq::<char>::empty());
    }
}

/// The pieces of two texts with a separator between them are the pieces of the
/// one and then those of the other.
pub(crate) proof fn lemma_pieces_concatenate(
    left: Seq<char>,
    mid: char,
    right: Seq<char>,
    sep: Separator,
)
    requires
        separates(sep, mid),
    ensures
        pieces(left + seq![mid] + right, sep) == pieces(left, sep) + pieces(right, sep),
    decreases right.len(),
{
    let whole = left + seq![mid] + right;
    if right.len() == 0 {
        assert(whole.drop_last() =~= left);
        assert(pieces(whole, sep) =~= pieces(left, sep) + pieces(right, sep));
    } else {
        let rest = right.drop_last();
        lemma_pieces_concatenate(left, mid, rest, sep);
        lemma_pieces_nonempty(rest, sep);
        assert(whole.drop_last() =~= left + seq![mid] + rest);
        assert(whole.last() == right.last());
        let all = pieces(left, sep) + pieces(rest, sep);
        assert(all.last() == pieces(rest, sep).last());
        assert(pieces(whole, sep) =~= pieces(left, sep) + pieces(right, sep));
    }
}

/// Splitting undoes joining: texts that have no separator in them come back as
/// they were.
pub proof fn split_undoes_join(parts: Seq<Seq<char>>, glue: char, sep: Separator)
    requires
        parts.len() > 0,
        separates(sep, glue),
        forall|i: int| 0 <= i < parts.len() ==> unbroken(#[trigger] parts[i], sep),
    ensures
        pieces(joined(parts, seq![glue]), sep) == parts,
    decreases parts.len(),
{
    assert(unbroken(parts[parts.len() - 1], sep));
    lemma_one_piece(parts.last(), sep);
    if parts.len() == 1 {
        assert(seq![parts.last()] =~= parts);
    } else {
        let rest = parts.drop_last();
        assert forall|i: int| 0 <= i < rest.len() implies unbroken(#[trigger] rest[i], sep) by {
            assert(rest[i] == parts[i]);
        }
        split_undoes_join(rest, glue, sep);
        lemma_pieces_concatenate(joined(rest, seq![glue]), glue, parts.last(), sep);
        assert(rest + seq![parts.last()] =~= parts);
    }
}

/// Joining undoes splitting at one character.
pub proof fn join_undoes_split(s: Seq<char>, c: char)
    ensures
        joined(pieces(s, Separator::Char(c)), seq![c]) == s,
    decreases s.len(),
{
    let sep = Separator::Char(c);
    if s.len() == 0 {
        assert(joined(pieces(s, sep), seq![c]) =~= s);
    } else {
        let before = pieces(s.drop_last(), sep);
        join_undoes_split(s.drop_last(), c);
        lemma_pieces_nonempty(s.drop_last(), sep);
        if s.last() == c {
            let all = before.push(Seq::empty());
            assert(all.drop_last() =~= before);
            assert(joined(all, seq![c]) =~= s);
        } else {
            let all = before.drop_last().push(before.last().push(s.last()));
            assert(all.drop_last() =~= before.drop_last());
            assert(joined(all, seq![c]) =~= joined(before, seq![c]).push(s.last()));
            assert(s.drop_last().push(s.last()) =~= s);
        }
    }
}

/// Every character of a joined text comes from a part or from the glue.
pub(crate) proof fn lemma_joined_chars(parts: Seq<Seq<char>>, glue: char, sep: Separator)
    requires
        forall|i: int| 0 <= i < parts.len() ==> unbroken(#[trigger] parts[i], sep),
        !separates(sep, glue),
    ensures
        unbroken(joined(parts, seq![glue]), sep),
    decreases parts.len(),
{
    if parts.len() > 0 {
        assert(unbroken(parts[parts.len() - 1], sep));
        let rest = parts.drop_last();
        assert forall|i: int| 0 <= i < rest.len() implies unbroken(#[trigger] rest[i], sep) by {
            assert(rest[i] == parts[i]);
        }
        lemma_joined_chars(rest, glue, sep);
        let whole = joined(parts, seq![glue]);
        let front = joined(rest, seq![glue]);
        if parts.len() > 1 {
            assert forall|i: int| 0 <= i < whole.len() implies !separates(
                sep,
                #[trigger] whole[i],
            ) by {
                if i < front.len() {
                    assert(whole[i] == front[i]);
                } else if i == front.len() {
                    assert(whole[i] == glue);
                } else {
                    assert(whole[i] == parts.last()[i - front.len() - 1]);
                }
            }
        }
    }
}

/// A list of texts that are not empty loses nothing when empty texts are dropped.
proof fn lemma_nonempty_keeps(parts: Seq<Seq<char>>)
    requires
        forall|i: int| 0 <= i < parts.len() ==> (#[trigger] parts[i]).len() > 0,
    ensures
        nonempty(parts) == parts,
    decreases parts.len(),
{
    if parts.len() > 0 {
        assert(parts[parts.len() - 1].len() > 0);
        let rest = parts.drop_last();
        assert forall|i: int| 0 <= i < rest.len() implies (#[trigger] rest[i]).len() > 0 by {
            assert(rest[i] == parts[i]);
        }
        lemma_nonempty_keeps(rest);
        assert(rest.push(parts.last()) =~= parts);
    }
}

/// What is left when empty texts are dropped are texts of the list, none empty.
proof fn lemma_nonempty_from(parts: Seq<Seq<char>>)
    ensures
        forall|i: int|
            0 <= i < nonempty(parts).len() ==> (#[trigger] nonempty(parts)[i]).len() > 0
                && parts.contains(nonempty(parts)[i]),
    decreases parts.len(),
{
    if parts.len() > 0 {
        let rest = parts.drop_last();
        lemma_nonempty_from(rest);
        let kept = nonempty(parts);
        assert forall|i: int| 0 <= i < kept.len() implies (#[trigger] kept[i]).len() > 0
            && parts.contains(kept[i]) by {
            if i < nonempty(rest).len() {
                assert(kept[i] == nonempty(rest)[i]);
                let at = choose|at: int| 0 <= at < rest.len() && rest[at] == kept[i];
                assert(parts[at] == rest[at]);
            } else {
                assert(parts[parts.len() - 1] == parts.last());
            }
        }
    }
}

/// Words that have no whitespace in them, one space between each two, are the
/// words of the text that they make.
pub proof fn words_of_joined_words(list: Seq<Seq<char>>)
    requires
        list.len() > 0,
        forall|i: int|
            0 <= i < list.len() ==> (#[trigger] list[i]).len() > 0 && unbroken(
                list[i],
                Separator::Whitespace,
            ),
    ensures
        words(joined(list, " "@)) == list,
{
    reveal_strlit(" ");
    assert(" "@ =~= seq![' ']);
    split_undoes_join(list, ' ', Separator::Whitespace);
    lemma_nonempty_keeps(list);
}

/// A word is not empty and has no whitespace in it.
pub proof fn words_are_unbroken(s: Seq<char>)
    ensures
        forall|i: int|
            0 <= i < words(s).len() ==> (#[trigger] words(s)[i]).len() > 0 && unbroken(
                words(s)[i],
                Separator::Whitespace,
            ),
{
    let all = pieces(s, Separator::Whitespace);
    pieces_are_unbroken(s, Separator::Whitespace);
    lemma_nonempty_from(all);
    assert forall|i: int| 0 <= i < words(s).len() implies (#[trigger] words(s)[i]).len() > 0
        && unbroken(words(s)[i], Separator::Whitespace) by {
        let at = choose|at: int| 0 <= at < all.len() && all[at] == words(s)[i];
        assert(unbroken(all[at], Separator::Whitespace));
    }
}

/// Trimming takes a part out of the middle of a text.
proof fn lemma_trim_within(s: Seq<char>)
    ensures
        exists|from: int, to: int|
            0 <= from <= to <= s.len() && trim(s) == #[trigger] s.subrange(from, to),
{
    lemma_trim_start_within(s);
    let start = trim_start(s);
    let from = choose|from: int| 0 <= from <= s.len() && start == #[trigger] s.skip(from);
    lemma_trim_end_within(start);
    let len = choose|len: int|
        0 <= len <= start.len() && trim_end(start) == #[trigger] start.take(len);
    assert(trim(s) =~= s.subrange(from, from + len));
}

proof fn lemma_trim_start_within(s: Seq<char>)
    ensures
        exists|from: int| 0 <= from <= s.len() && trim_start(s) == #[trigger] s.skip(from),
        trim_start(s).len() > 0 ==> !is_white(trim_start(s).first()),
    decreases s.len(),
{
    if s.len() > 0 && is_white(s.first()) {
        let rest = s.drop_first();
        lemma_trim_start_within(rest);
        let from = choose|from: int|
            0 <= from <= rest.len() && trim_start(rest) == #[trigger] rest.skip(from);
        assert(rest.skip(from) =~= s.skip(from + 1));
    } else {
        assert(s =~= s.skip(0));
    }
}

proof fn lemma_trim_end_within(s: Seq<char>)
    ensures
        exists|len: int| 0 <= len <= s.len() && trim_end(s) == #[trigger] s.take(len),
        trim_end(s).len() > 0 ==> !is_white(trim_end(s).last()) && trim_end(s).first() == s.first(),
    decreases s.len(),
{
    if s.len() > 0 && is_white(s.last()) {
        let rest = s.drop_last();
        lemma_trim_end_within(rest);
        let len = choose|len: int|
            0 <= len <= rest.len() && trim_end(rest) == #[trigger] rest.take(len);
        assert(rest.take(len) =~= s.take(len));
    } else {
        assert(s =~= s.take(s.len() as int));
    }
}

/// Trimming a second time changes nothing.
pub proof fn trim_is_idempotent(s: Seq<char>)
    ensures
        trim(trim(s)) == trim(s),
{
    lemma_trim_start_within(s);
    lemma_trim_end_within(trim_start(s));
}

/// The entries of a list have no comma in them, and trimming them changes
/// nothing.
pub proof fn entries_are_plain(s: Seq<char>)
    ensures
        entries(s).len() > 0,
        forall|i: int|
            0 <= i < entries(s).len() ==> unbroken(#[trigger] entries(s)[i], Separator::Char(','))
                && trim(entries(s)[i]) == entries(s)[i],
{
    let all = pieces(s, Separator::Char(','));
    lemma_pieces_nonempty(s, Separator::Char(','));
    pieces_are_unbroken(s, Separator::Char(','));
    assert forall|i: int| 0 <= i < entries(s).len() implies unbroken(
        #[trigger] entries(s)[i],
        Separator::Char(','),
    ) && trim(entries(s)[i]) == entries(s)[i] by {
        assert(unbroken(all[i], Separator::Char(',')));
        trim_is_idempotent(all[i]);
        lemma_trim_within(all[i]);
        let (from, to) = choose|from: int, to: int|
            0 <= from <= to <= all[i].len() && trim(all[i]) == #[trigger] all[i].subrange(from, to);
        assert forall|k: int| 0 <= k < entries(s)[i].len() implies !separates(
            Separator::Char(','),
            #[trigger] entries(s)[i][k],
        ) by {
            assert(entries(s)[i][k] == all[i][from + k]);
        }
    }
}

/// A list of trimmed texts without commas, written with a comma between each two,
/// has those texts as its entries.
pub proof fn entries_of_joined_entries(list: Seq<Seq<char>>)
    requires
        list.len() > 0,
        forall|i: int|
            0 <= i < list.len() ==> unbroken(#[trigger] list[i], Separator::Char(',')) && trim(
                list[i],
            ) == list[i],
    ensures
        entries(joined(list, ","@)) == list,
{
    reveal_strlit(",");
    assert(","@ =~= seq![',']);
    split_undoes_join(list, ',', Separator::Char(','));
    assert(entries(joined(list, ","@)) =~= list);
}

/// The entries of a list survive being written out again.
pub proof fn entries_survive_joining(s: Seq<char>)
    ensures
        entries(joined(entries(s), ","@)) == entries(s),
{
    entries_are_plain(s);
    entries_of_joined_entries(entries(s));
}

/// The items of a list are not empty and have no comma in them, and trimming them
/// changes nothing.
pub proof fn items_are_plain(s: Seq<char>)
    ensures
        forall|i: int|
            0 <= i < items(s).len() ==> (#[trigger] items(s)[i]).len() > 0 && unbroken(
                items(s)[i],
                Separator::Char(','),
            ) && trim(items(s)[i]) == items(s)[i],
{
    entries_are_plain(s);
    lemma_nonempty_from(entries(s));
    let list = items(s);
    assert forall|i: int| 0 <= i < list.len() implies (#[trigger] list[i]).len() > 0 && unbroken(
        list[i],
        Separator::Char(','),
    ) && trim(list[i]) == list[i] by {
        let at = choose|at: int| 0 <= at < entries(s).len() && entries(s)[at] == list[i];
        assert(unbroken(entries(s)[at], Separator::Char(',')));
    }
}

/// The items of a list survive being written out again.
pub proof fn items_survive_joining(s: Seq<char>)
    ensures
        items(joined(items(s), ","@)) == items(s),
{
    let list = items(s);
    items_are_plain(s);
    if list.len() > 0 {
        entries_of_joined_entries(list);
        lemma_nonempty_keeps(list);
    } else {
        let none = Seq::<char>::empty();
        assert(pieces(none, Separator::Char(',')) =~= seq![none]);
        assert(entries(none) =~= seq![none]);
        assert(seq![none].drop_last() =~= Seq::<Seq<char>>::empty());
        reveal_with_fuel(nonempty, 2);
        assert(items(none) =~= list);
    }
}

fn is_separator(sep: Separator, c: char) -> (r: bool)
    ensures
        r == separates(sep, c),
{
    match sep {
        Separator::Char(d) => c == d,
        Separator::Whitespace => white(c),
    }
}

/// Cut `s` at every separator.
pub fn split(s: &str, sep: Separator) -> (r: Vec<String>)
    ensures
        texts(r@) == pieces(s@, sep),
{
    let mut done: Vec<String> = Vec::new();
    let mut current = String::new();
    for c in it: s.chars()
        invariant
            it.seq() == s@,
            texts(done@).push(current@) == pieces(s@.take(it.index() as int), sep),
    {
        let ghost seen = s@.take(it.index() as int);
        let ghost earlier = texts(done@);
        assert(s@.take(it.index() + 1) =~= seen.push(c));
        assert(seen.push(c).drop_last() =~= seen);
        if is_separator(sep, c) {
            let ghost finished = current@;
            done.push(current);
            current = String::new();
            assert(texts(done@) =~= earlier.push(finished));
        } else {
            let ghost start = current@;
            current.push(c);
            assert(earlier.push(start).drop_last() =~= earlier);
        }
    }
    assert(s@.take(s@.len() as int) =~= s@);
    let ghost earlier = texts(done@);
    let ghost finished = current@;
    done.push(current);
    assert(texts(done@) =~= earlier.push(finished));
    done
}

/// The words of `s`.
pub fn split_words(s: &str) -> (r: Vec<String>)
    ensures
        texts(r@) == words(s@),
{
    keep_nonempty(split(s, Separator::Whitespace))
}

/// The list without its empty texts.
fn keep_nonempty(list: Vec<String>) -> (r: Vec<String>)
    ensures
        texts(r@) == nonempty(texts(list@)),
{
    let mut out: Vec<String> = Vec::new();
    let mut i: usize = 0;
    while i < list.len()
        invariant
            i <= list@.len(),
            texts(out@) == nonempty(texts(list@).take(i as int)),
        decreases list.len() - i,
    {
        let ghost seen = texts(list@).take(i as int);
        let ghost kept = texts(out@);
        assert(texts(list@).take(i + 1) =~= seen.push(list@[i as int]@));
        assert(seen.push(list@[i as int]@).drop_last() =~= seen);
        if !list[i].as_str().is_empty() {
            out.push(list[i].clone());
            assert(texts(out@) =~= kept.push(list@[i as int]@));
        }
        i += 1;
    }
    assert(texts(list@).take(list@.len() as int) =~= texts(list@));
    out
}

proof fn lemma_trim_start_skip(s: Seq<char>, n: int)
    requires
        0 <= n <= s.len(),
        forall|k: int| 0 <= k < n ==> is_white(#[trigger] s[k]),
        n < s.len() ==> !is_white(s[n]),
    ensures
        trim_start(s) == s.skip(n),
    decreases n,
{
    if n > 0 {
        assert(s.first() == s[0]);
        let rest = s.drop_first();
        assert forall|k: int| 0 <= k < n - 1 implies is_white(#[trigger] rest[k]) by {
            assert(rest[k] == s[k + 1]);
        }
        lemma_trim_start_skip(rest, n - 1);
        assert(rest.skip(n - 1) =~= s.skip(n));
    } else {
        assert(s.skip(0) =~= s);
        if s.len() > 0 {
            assert(s.first() == s[0]);
        }
    }
}

proof fn lemma_trim_end_take(s: Seq<char>, n: int)
    requires
        0 <= n <= s.len(),
        forall|k: int| n <= k < s.len() ==> is_white(#[trigger] s[k]),
        n > 0 ==> !is_white(s[n - 1]),
    ensures
        trim_end(s) == s.take(n),
    decreases s.len() - n,
{
    if n < s.len() {
        assert(s.last() == s[s.len() - 1]);
        let rest = s.drop_last();
        assert forall|k: int| n <= k < rest.len() implies is_white(#[trigger] rest[k]) by {
            assert(rest[k] == s[k]);
        }
        lemma_trim_end_take(rest, n);
        assert(rest.take(n) =~= s.take(n));
    } else {
        assert(s.take(n) =~= s);
    }
}

/// `s` without whitespace at either end.
pub fn trimmed(s: &str) -> (r: String)
    ensures
        r@ == trim(s@),
{
    let chars = chars_of(s);
    let mut from: usize = 0;
    while from < chars.len() && white(chars[from])
        invariant
            from <= chars@.len(),
            forall|k: int| 0 <= k < from ==> is_white(#[trigger] chars@[k]),
        decreases chars.len() - from,
    {
        from += 1;
    }
    let mut to: usize = chars.len();
    while to > from && white(chars[to - 1])
        invariant
            from <= to <= chars@.len(),
            forall|k: int| to <= k < chars@.len() ==> is_white(#[trigger] chars@[k]),
        decreases to,
    {
        to -= 1;
    }
    proof {
        let rest = chars@.skip(from as int);
        lemma_trim_start_skip(chars@, from as int);
        assert forall|k: int| to - from <= k < rest.len() implies is_white(#[trigger] rest[k]) by {
            assert(rest[k] == chars@[k + from]);
        }
        lemma_trim_end_take(rest, to - from);
        assert(rest.take(to - from) =~= chars@.subrange(from as int, to as int));
    }
    text_between(&chars, from, to)
}

/// The entries of a comma-separated list, each trimmed.
pub fn list_entries(s: &str) -> (r: Vec<String>)
    ensures
        texts(r@) == entries(s@),
{
    let parts = split(s, Separator::Char(','));
    let mut out: Vec<String> = Vec::new();
    let mut i: usize = 0;
    while i < parts.len()
        invariant
            i <= parts@.len(),
            out@.len() == i,
            forall|k: int| 0 <= k < i ==> (#[trigger] out@[k])@ == trim(parts@[k]@),
        decreases parts.len() - i,
    {
        out.push(trimmed(parts[i].as_str()));
        i += 1;
    }
    assert(texts(out@) =~= entries(s@)) by {
        assert forall|k: int| 0 <= k < out@.len() implies texts(out@)[k] == entries(s@)[k] by {
            assert(out@[k]@ == trim(parts@[k]@));
            assert(texts(parts@)[k] == parts@[k]@);
        }
        assert(texts(parts@).len() == parts@.len());
    }
    out
}

/// The entries of a comma-separated list, each trimmed, empty ones dropped.
pub fn list_items(s: &str) -> (r: Vec<String>)
    ensures
        texts(r@) == items(s@),
{
    keep_nonempty(list_entries(s))
}

/// The texts of `parts` one after another, `glue` between each two.
pub fn join(parts: &Vec<String>, glue: &str) -> (r: String)
    ensures
        r@ == joined(texts(parts@), glue@),
{
    let mut out = String::new();
    let mut i: usize = 0;
    while i < parts.len()
        invariant
            i <= parts@.len(),
            out@ == joined(texts(parts@).take(i as int), glue@),
        decreases parts.len() - i,
    {
        let ghost seen = texts(parts@).take(i as int);
        assert(texts(parts@).take(i + 1) =~= seen.push(parts@[i as int]@));
        assert(seen.push(parts@[i as int]@).drop_last() =~= seen);
        if i > 0 {
            out.append(glue);
        } else {
            assert(out@ + parts@[0]@ =~= parts@[0]@);
        }
        out.append(parts[i].as_str());
        i += 1;
    }
    assert(texts(parts@).take(parts@.len() as int) =~= texts(parts@));
    out
}

} // verus!
