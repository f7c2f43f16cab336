//! Laws of names, paths and zones.

use vstd::prelude::*;

use crate::commands::dns::{
    is_reverse_zone, is_single_label, lemma_without_end_dots, lower, lower_char,
    single_labels_are_labels, without_end_dots,
};
use crate::commands::linux::is_relay_path;
use crate::commands::paths::{
    depth, has_double_dot, is_path_inside, lemma_resolved_below, lies_under, never_climbs_out,
    resolved, PRODUCT_TREE, TRANSFER_DIR,
};
use crate::commands::util::{
    are_dns_labels, are_dns_names, document_on, is_dns_label, is_dns_name, is_posix_path,
    without_root_dot,
};
use crate::json::{json_document, JsonView};
use crate::laws::terms::{
    counts, domain_name, domain_names, file_path, label, letter_or_digit, spells,
};
use crate::laws::text::made_of_by_code;
use crate::number::in_range;
use crate::split::{
    join_undoes_split, joined, lemma_one_piece, lemma_pieces_nonempty, pieces, separates,
    split_undoes_join, unbroken, Separator,
};
use crate::text::is_digit;

verus! {

/// A label is letters, digits and inner hyphens, one to 63 of them.
pub proof fn labels_by_code(s: Seq<char>)
    ensures
        is_dns_label(s) <==> label(s),
{
    made_of_by_code(s, seq!['-']);
}

proof fn lemma_label_has_no_dot(s: Seq<char>)
    requires
        label(s),
    ensures
        unbroken(s, Separator::Char('.')),
{
    assert forall|i: int| 0 <= i < s.len() implies !separates(
        Separator::Char('.'),
        #[trigger] s[i],
    ) by {
        assert(letter_or_digit(s[i]) || seq!['-'].contains(s[i]));
    }
}

proof fn lemma_spelled(labels: Seq<Seq<char>>, s: Seq<char>)
    requires
        spells(labels, s),
    ensures
        pieces(s, Separator::Char('.')) == labels,
        s.len() > 0,
        s.last() != '.',
        are_dns_labels(labels),
{
    assert forall|i: int| 0 <= i < labels.len() implies unbroken(
        #[trigger] labels[i],
        Separator::Char('.'),
    ) && is_dns_label(labels[i]) by {
        assert(label(labels[i]));
        lemma_label_has_no_dot(labels[i]);
        labels_by_code(labels[i]);
    }
    split_undoes_join(labels, '.', Separator::Char('.'));
    let last = labels.last();
    assert(label(labels[labels.len() - 1]));
    assert(unbroken(labels[labels.len() - 1], Separator::Char('.')));
    assert(!separates(Separator::Char('.'), last[last.len() - 1]));
    assert(s.last() == last.last());
}

/// A DNS name is labels with dots between them, and maybe one dot at the end.
pub proof fn names_are_dotted_labels(s: Seq<char>)
    ensures
        is_dns_name(s) <==> domain_name(s),
{
    let bare = without_root_dot(s);
    if is_dns_name(s) {
        let labels = pieces(bare, Separator::Char('.'));
        join_undoes_split(bare, '.');
        lemma_pieces_nonempty(bare, Separator::Char('.'));
        assert forall|i: int| 0 <= i < labels.len() implies label(#[trigger] labels[i]) by {
            assert(is_dns_label(labels[i]));
            labels_by_code(labels[i]);
        }
        assert(spells(labels, bare));
    }
    if exists|labels: Seq<Seq<char>>| spells(labels, s) {
        let labels = choose|labels: Seq<Seq<char>>| spells(labels, s);
        lemma_spelled(labels, s);
        assert(bare == s);
    } else if domain_name(s) {
        let labels = choose|labels: Seq<Seq<char>>| spells(labels, s.drop_last());
        lemma_spelled(labels, s.drop_last());
        assert(s.last() == '.');
        assert(bare == s.drop_last());
    }
}

/// A list is of DNS names exactly where each of its texts is one.
pub proof fn lists_of_names(list: Seq<Seq<char>>)
    ensures
        are_dns_names(list) <==> domain_names(list),
{
    assert forall|i: int| 0 <= i < list.len() implies is_dns_name(#[trigger] list[i])
        == domain_name(list[i]) by {
        names_are_dotted_labels(list[i]);
    }
}

/// A name of a single label is a label, and every label is one.
pub proof fn single_labels_by_code(s: Seq<char>)
    ensures
        is_single_label(s) <==> label(s),
{
    if is_single_label(s) {
        single_labels_are_labels(s);
        labels_by_code(s);
    }
    if label(s) {
        lemma_label_has_no_dot(s);
        labels_by_code(s);
        lemma_one_piece(s, Separator::Char('.'));
        assert(!separates(Separator::Char('.'), s[s.len() - 1]));
        assert(without_root_dot(s) == s);
        assert(seq![s][0] == s);
        assert(is_dns_name(s));
        if s.contains('.') {
            let i = choose|i: int| 0 <= i < s.len() && s[i] == '.';
            assert(!separates(Separator::Char('.'), s[i]));
        }
    }
}

/// A path is absolute and of the portable characters, by their codes.
pub proof fn paths_by_code(s: Seq<char>)
    ensures
        is_posix_path(s) <==> file_path(s),
{
    reveal_strlit("/._-");
    assert("/._-"@ =~= seq!['/', '.', '_', '-']);
    made_of_by_code(s, seq!['/', '.', '_', '-']);
    if s.len() > 0 && s[0] == '/' {
        assert(seq!['/'].is_prefix_of(s));
    }
    if seq!['/'].is_prefix_of(s) {
        assert(s.take(1)[0] == s[0]);
        assert(seq!['/'][0] == s[0]);
    }
}

/// `path` is the directory's own path and something after it.
pub open spec fn continues(path: Seq<char>, tree: Seq<char>) -> bool {
    exists|rest: Seq<char>| rest.len() > 0 && path == #[trigger] (tree + rest)
}

proof fn lemma_continues(path: Seq<char>, tree: Seq<char>)
    ensures
        lies_under(path, tree) <==> continues(path, tree),
{
    if lies_under(path, tree) {
        assert(path =~= tree + path.skip(tree.len() as int));
    }
    if continues(path, tree) {
        let rest = choose|rest: Seq<char>| rest.len() > 0 && path == #[trigger] (tree + rest);
        assert(tree =~= path.take(tree.len() as int));
    }
}

/// The names on the way to the product tree.
pub open spec fn way_to_product() -> Seq<Seq<char>> {
    seq!["opt"@, "certsecure-manager"@]
}

/// A path into the product tree: wherever one stands while walking down its
/// components, the way there went through the tree, and at the end one stands below
/// it.
pub open spec fn leads_into_product(path: Seq<char>) -> bool {
    &&& file_path(path)
    &&& exists|rest: Seq<char>|
        {
            let parts = pieces(rest, Separator::Char('/'));
            &&& path == #[trigger] ("/opt/certsecure-manager/"@ + rest)
            &&& rest.len() > 0
            &&& forall|n: int|
                0 <= n <= parts.len() ==> way_to_product().is_prefix_of(
                    resolved(way_to_product() + #[trigger] parts.take(n)),
                )
            &&& resolved(way_to_product() + parts).len() > 2
        }
}

proof fn lemma_way()
    ensures
        resolved(way_to_product()) == way_to_product(),
{
    reveal_strlit("opt");
    reveal_strlit("certsecure-manager");
    reveal_strlit("..");
    reveal_strlit(".");
    let way = way_to_product();
    assert("opt"@.len() == 3 && "certsecure-manager"@.len() == 18 && ".."@.len() == 2 && "."@.len()
        == 1);
    let none = Seq::<Seq<char>>::empty();
    assert(way.drop_last() =~= seq!["opt"@]);
    assert(seq!["opt"@].drop_last() =~= none);
    assert(resolved(none) =~= none);
    assert(resolved(seq!["opt"@]) =~= seq!["opt"@]);
    assert(resolved(way) =~= way);
}

/// Where components climb out, there is a first place at which they do.
proof fn lemma_first_way_out(parts: Seq<Seq<char>>) -> (n: int)
    requires
        !never_climbs_out(parts),
    ensures
        0 < n <= parts.len(),
        never_climbs_out(parts.take(n - 1)),
        depth(parts.take(n)) < 0,
    decreases parts.len(),
{
    let bad = choose|n: int| 0 <= n <= parts.len() && depth(#[trigger] parts.take(n)) < 0;
    assert(bad > 0);
    let rest = parts.take(bad - 1);
    if never_climbs_out(rest) {
        bad
    } else {
        let n = lemma_first_way_out(rest);
        assert(rest.take(n) =~= parts.take(n));
        assert(rest.take(n - 1) =~= parts.take(n - 1));
        n
    }
}

/// The certificate and key paths that are taken are those that lead into the
/// product tree.
pub proof fn product_paths_lead_into_the_tree(path: Seq<char>)
    ensures
        is_path_inside(path, PRODUCT_TREE@) <==> leads_into_product(path),
{
    let tree = "/opt/certsecure-manager/"@;
    let way = way_to_product();
    paths_by_code(path);
    lemma_continues(path, tree);
    lemma_way();
    if is_path_inside(path, tree) {
        let rest = path.skip(tree.len() as int);
        let parts = pieces(rest, Separator::Char('/'));
        assert(path =~= tree + rest);
        assert forall|n: int| 0 <= n <= parts.len() implies way.is_prefix_of(
            resolved(way + #[trigger] parts.take(n)),
        ) by {
            let some = parts.take(n);
            assert forall|k: int| 0 <= k <= some.len() implies depth(
                #[trigger] some.take(k),
            ) >= 0 by {
                assert(some.take(k) =~= parts.take(k));
            }
            lemma_resolved_below(way, some);
            assert((way + resolved(some)).take(2) =~= way);
        }
        lemma_resolved_below(way, parts);
        assert(leads_into_product(path));
    }
    if leads_into_product(path) {
        let rest = choose|rest: Seq<char>|
            {
                let parts = pieces(rest, Separator::Char('/'));
                &&& path == #[trigger] (tree + rest)
                &&& rest.len() > 0
                &&& forall|n: int|
                    0 <= n <= parts.len() ==> way.is_prefix_of(
                        resolved(way + #[trigger] parts.take(n)),
                    )
                &&& resolved(way + parts).len() > 2
            };
        let parts = pieces(rest, Separator::Char('/'));
        assert(path.skip(tree.len() as int) =~= rest);
        if !never_climbs_out(parts) {
            let n = lemma_first_way_out(parts);
            let some = parts.take(n - 1);
            lemma_resolved_below(way, some);
            assert(some.take(some.len() as int) =~= some);
            assert(depth(some) >= 0);
            assert(parts.take(n).drop_last() =~= some);
            assert(parts.take(n).last() == parts[n - 1]);
            assert((way + parts.take(n)).drop_last() =~= way + some);
            assert((way + parts.take(n)).last() == parts[n - 1]);
            assert(resolved(some).len() == 0);
            assert(way + resolved(some) =~= way);
            assert(resolved(way + parts.take(n)) == way.drop_last());
            assert(way.is_prefix_of(resolved(way + parts.take(n))));
            assert(false);
        }
        lemma_resolved_below(way, parts);
    }
}

/// A text with two dots in its middle.
pub open spec fn around_dots(before: Seq<char>, after: Seq<char>) -> Seq<char> {
    before + seq!['.', '.'] + after
}

/// Two dots stand side by side in `s`.
pub open spec fn dots_in_a_row(s: Seq<char>) -> bool {
    exists|before: Seq<char>, after: Seq<char>| s == #[trigger] around_dots(before, after)
}

/// The paths that the relay takes: absolute paths below one of its directories
/// without two dots in a row.
pub proof fn relay_paths_by_prefix(path: Seq<char>)
    ensures
        is_relay_path(path) <==> {
            &&& file_path(path)
            &&& !dots_in_a_row(path)
            &&& continues(path, "/opt/certsecure-manager/"@) || continues(
                path,
                "/var/lib/pki-executor/transfer/"@,
            )
        },
{
    paths_by_code(path);
    lemma_continues(path, PRODUCT_TREE@);
    lemma_continues(path, TRANSFER_DIR@);
    if has_double_dot(path) {
        let i = choose|i: int|
            0 <= i < path.len() - 1 && #[trigger] path[i] == '.' && path[i + 1] == '.';
        assert(path =~= around_dots(path.take(i), path.skip(i + 2)));
    }
    if dots_in_a_row(path) {
        let (before, after) = choose|before: Seq<char>, after: Seq<char>|
            path == #[trigger] around_dots(before, after);
        let i = before.len() as int;
        assert(path[i] == '.' && path[i + 1] == '.');
    }
}

/// `b` is `a`, but that upper-case ASCII letters of `a` may be their lower-case
/// letters in `b`.
pub open spec fn lowered(a: Seq<char>, b: Seq<char>) -> bool {
    a.len() == b.len() && forall|i: int|
        0 <= i < a.len() ==> #[trigger] b[i] == if 65 <= a[i] as u32 <= 90 {
            (a[i] as u32 + 32) as char
        } else {
            a[i]
        }
}

/// `n` dots.
pub open spec fn dots(n: nat) -> Seq<char> {
    Seq::new(n, |i: int| '.')
}

/// `s` is these numbers and `.in-addr.arpa`, in any case, and then `n` dots.
pub open spec fn reverses(numbers: Seq<Seq<char>>, n: nat, s: Seq<char>) -> bool {
    &&& 1 <= numbers.len() <= 3
    &&& forall|i: int| 0 <= i < numbers.len() ==> counts(#[trigger] numbers[i], 0, 255)
    &&& lowered(s, joined(numbers, seq!['.']) + ".in-addr.arpa"@ + dots(n))
}

proof fn lemma_lowered(s: Seq<char>)
    ensures
        lowered(s, lower(s)),
        forall|t: Seq<char>| lowered(s, t) ==> t == lower(s),
{
    assert forall|t: Seq<char>| lowered(s, t) implies t == lower(s) by {
        assert(t =~= lower(s));
    }
}

proof fn lemma_number_has_no_dot(s: Seq<char>)
    requires
        in_range(s, 0, 255),
    ensures
        unbroken(s, Separator::Char('.')),
{
    let digits = if s.len() > 0 && s.first() == '+' {
        s.skip(1)
    } else {
        s
    };
    assert forall|i: int| 0 <= i < s.len() implies !separates(
        Separator::Char('.'),
        #[trigger] s[i],
    ) by {
        if s.first() == '+' {
            if i > 0 {
                assert(is_digit(digits[i - 1]));
            }
        } else {
            assert(is_digit(digits[i]));
        }
    }
}

proof fn lemma_end_dots(s: Seq<char>) -> (n: int)
    ensures
        0 <= n <= s.len(),
        without_end_dots(s) == s.take(n),
        forall|k: int| n <= k < s.len() ==> #[trigger] s[k] == '.',
    decreases s.len(),
{
    if s.len() > 0 && s.last() == '.' {
        let rest = s.drop_last();
        let n = lemma_end_dots(rest);
        assert(rest.take(n) =~= s.take(n));
        assert forall|k: int| n <= k < s.len() implies #[trigger] s[k] == '.' by {
            if k < rest.len() {
                assert(rest[k] == s[k]);
            }
        }
        n
    } else {
        assert(s.take(s.len() as int) =~= s);
        s.len() as int
    }
}

/// A zone for reverse lookups is one to three numbers up to 255 and
/// `.in-addr.arpa`, in any case, with any number of dots at the end.
pub proof fn reverse_zones_are_numbers(s: Seq<char>)
    ensures
        is_reverse_zone(s) <==> exists|numbers: Seq<Seq<char>>, n: nat| reverses(numbers, n, s),
{
    let suffix = ".in-addr.arpa"@;
    reveal_strlit(".in-addr.arpa");
    assert(suffix.last() == 'a');
    let dot = Separator::Char('.');
    lemma_lowered(s);
    if is_reverse_zone(s) {
        let end = lemma_end_dots(s);
        let normalized = lower(without_end_dots(s));
        let prefix = normalized.take(normalized.len() - suffix.len());
        let numbers = pieces(prefix, dot);
        join_undoes_split(prefix, '.');
        let n = (s.len() - end) as nat;
        assert forall|i: int| 0 <= i < numbers.len() implies counts(
            #[trigger] numbers[i],
            0,
            255,
        ) by {
            assert(in_range(numbers[i], 0, 255));
        }
        assert(normalized =~= prefix + suffix);
        assert(lower(s) =~= prefix + suffix + dots(n));
        assert(reverses(numbers, n, s));
    }
    if exists|numbers: Seq<Seq<char>>, n: nat| reverses(numbers, n, s) {
        let (numbers, n) = choose|numbers: Seq<Seq<char>>, n: nat| reverses(numbers, n, s);
        let prefix = joined(numbers, seq!['.']);
        let whole = prefix + suffix + dots(n);
        assert(whole == lower(s));
        let end = prefix.len() + suffix.len();
        assert forall|k: int| end <= k < s.len() implies #[trigger] s[k] == '.' by {
            assert(whole[k] == '.');
            assert(lower(s)[k] == lower_char(s[k]));
        }
        assert(whole[end - 1] == suffix.last());
        assert(lower(s)[end - 1] == lower_char(s[end - 1]));
        lemma_without_end_dots(s, end as int);
        let normalized = lower(without_end_dots(s));
        assert forall|i: int| 0 <= i < end implies normalized[i] == (prefix + suffix)[i] by {
            assert(lower(s)[i] == lower_char(s[i]));
            assert(whole[i] == (prefix + suffix)[i]);
        }
        assert(normalized =~= prefix + suffix);
        assert(normalized.take(normalized.len() - suffix.len()) =~= prefix);
        assert(suffix =~= normalized.subrange(
            normalized.len() - suffix.len(),
            normalized.len() as int,
        ));
        assert forall|i: int| 0 <= i < numbers.len() implies unbroken(#[trigger] numbers[i], dot)
            && in_range(numbers[i], 0, 255) by {
            assert(counts(numbers[i], 0, 255));
            lemma_number_has_no_dot(numbers[i]);
        }
        split_undoes_join(numbers, '.', dot);
    }
}

/// The document on a command's output is what the output decodes to, and null
/// where it is not JSON.
pub proof fn documents_are_decoded(stdout: Seq<char>)
    ensures
        json_document(stdout) matches Some(document) ==> document_on(stdout) == document,
        json_document(stdout) is None ==> document_on(stdout) == JsonView::Null,
{
}

} // verus!
