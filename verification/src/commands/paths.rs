//! The directories that commands may name files in, and the paths that stay in
//! them.

use vstd::prelude::*;

use crate::commands::util::{is_posix_path, valid_posix_path};
use crate::split::{lemma_neighbours, lemma_pieces_concatenate, pieces, split, Separator};
use crate::text::{begins_with, chars_of, same, text_between, texts};

verus! {

/// The product tree.
pub const PRODUCT_TREE: &'static str = "/opt/certsecure-manager/";

/// A scratch directory that nothing else owns.
pub const TRANSFER_DIR: &'static str = "/var/lib/pki-executor/transfer/";

/// Two dots in a row occur in `s`.
pub open spec fn has_double_dot(s: Seq<char>) -> bool {
    exists|i: int| 0 <= i < s.len() - 1 && #[trigger] s[i] == '.' && s[i + 1] == '.'
}

/// `path` goes on after `prefix`.
pub open spec fn lies_under(path: Seq<char>, prefix: Seq<char>) -> bool {
    path.len() > prefix.len() && prefix.is_prefix_of(path)
}

/// How far a component takes a path down: an ordinary one by one, `..` up by one,
/// an empty one or `.` not at all.
pub open spec fn descent(component: Seq<char>) -> int {
    if component == ".."@ {
        -1
    } else if component.len() == 0 || component == "."@ {
        0
    } else {
        1
    }
}

/// How far below its start a path of these components ends.
pub open spec fn depth(components: Seq<Seq<char>>) -> int
    decreases components.len(),
{
    if components.len() == 0 {
        0
    } else {
        depth(components.drop_last()) + descent(components.last())
    }
}

/// No component takes the path above its start.
pub open spec fn never_climbs_out(components: Seq<Seq<char>>) -> bool {
    forall|n: int| 0 <= n <= components.len() ==> depth(#[trigger] components.take(n)) >= 0
}

/// The components of `path` after `tree`.
pub open spec fn components_below(path: Seq<char>, tree: Seq<char>) -> Seq<Seq<char>> {
    pieces(path.skip(tree.len() as int), Separator::Char('/'))
}

/// An absolute path to something inside the directory `tree`, which is written
/// with its slash at the end: the path goes on below the directory, and no
/// component takes it out again.
pub open spec fn is_path_inside(path: Seq<char>, tree: Seq<char>) -> bool {
    &&& is_posix_path(path)
    &&& lies_under(path, tree)
    &&& never_climbs_out(components_below(path, tree))
    &&& depth(components_below(path, tree)) > 0
}

/// Whether two dots in a row occur in `s`.
pub fn double_dot(s: &str) -> (r: bool)
    ensures
        r == has_double_dot(s@),
{
    let chars = chars_of(s);
    let mut i: usize = 1;
    while i < chars.len()
        invariant
            chars@ == s@,
            1 <= i,
            i <= chars@.len() || chars@.len() == 0,
            forall|k: int| 0 <= k < i - 1 ==> !(#[trigger] s@[k] == '.' && s@[k + 1] == '.'),
        decreases chars.len() - i,
    {
        if chars[i - 1] == '.' && chars[i] == '.' {
            assert(s@[i - 1] == '.' && s@[(i - 1) + 1] == '.');
            return true;
        }
        i += 1;
    }
    false
}

/// Whether `path` goes on after `prefix`.
pub fn under(path: &str, prefix: &str) -> (r: bool)
    ensures
        r == lies_under(path@, prefix@),
{
    path.unicode_len() > prefix.unicode_len() && begins_with(path, prefix)
}

/// Whether a path of these components ends below its start and never is above it.
fn goes_down(components: &Vec<String>) -> (r: bool)
    ensures
        r == (never_climbs_out(texts(components@)) && depth(texts(components@)) > 0),
{
    let ghost all = texts(components@);
    let mut down: usize = 0;
    let mut i: usize = 0;
    while i < components.len()
        invariant
            all == texts(components@),
            i <= components@.len(),
            down <= i,
            down == depth(all.take(i as int)),
            forall|n: int| 0 <= n <= i ==> depth(#[trigger] all.take(n)) >= 0,
        decreases components.len() - i,
    {
        let component = components[i].as_str();
        assert(all[i as int] == components@[i as int]@);
        assert(all.take(i + 1).drop_last() =~= all.take(i as int));
        assert(all.take(i + 1).last() == component@);
        if same(component, "..") {
            if down == 0 {
                assert(depth(all.take(i + 1)) < 0);
                return false;
            }
            down -= 1;
        } else if !component.is_empty() && !same(component, ".") {
            down += 1;
        }
        i += 1;
    }
    assert(all.take(i as int) =~= all);
    down > 0
}

/// Whether `path` is an absolute path to something inside the directory `tree`,
/// which is written with its slash at the end.
pub fn path_inside(path: &str, tree: &str) -> (r: bool)
    ensures
        r == is_path_inside(path@, tree@),
{
    if !valid_posix_path(path) || !under(path, tree) {
        return false;
    }
    let chars = chars_of(path);
    let rest = text_between(&chars, tree.unicode_len(), chars.len());
    assert(rest@ =~= path@.skip(tree@.len() as int));
    goes_down(&split(rest.as_str(), Separator::Char('/')))
}

/// The names that a path of these components leads through from its start: `..`
/// takes the last one back, and at the start leads nowhere.
pub open spec fn resolved(components: Seq<Seq<char>>) -> Seq<Seq<char>>
    decreases components.len(),
{
    if components.len() == 0 {
        Seq::empty()
    } else {
        let before = resolved(components.drop_last());
        let last = components.last();
        if last == ".."@ {
            if before.len() > 0 {
                before.drop_last()
            } else {
                before
            }
        } else if last.len() == 0 || last == "."@ {
            before
        } else {
            before.push(last)
        }
    }
}

/// The names that an absolute path leads through from the root.
pub open spec fn resolved_path(path: Seq<char>) -> Seq<Seq<char>> {
    resolved(pieces(path, Separator::Char('/')))
}

/// Components that never climb out leave what stands before them as it is.
pub(crate) proof fn lemma_resolved_below(lead: Seq<Seq<char>>, rest: Seq<Seq<char>>)
    requires
        never_climbs_out(rest),
    ensures
        resolved(lead + rest) == resolved(lead) + resolved(rest),
        resolved(rest).len() == depth(rest),
    decreases rest.len(),
{
    if rest.len() == 0 {
        assert(lead + rest =~= lead);
        assert(resolved(lead) + resolved(rest) =~= resolved(lead));
    } else {
        let before = rest.drop_last();
        assert forall|n: int| 0 <= n <= before.len() implies depth(
            #[trigger] before.take(n),
        ) >= 0 by {
            assert(before.take(n) =~= rest.take(n));
        }
        lemma_resolved_below(lead, before);
        assert((lead + rest).drop_last() =~= lead + before);
        assert((lead + rest).last() == rest.last());
        assert(rest.take(rest.len() as int) =~= rest);
        assert(depth(rest) >= 0);
        reveal_strlit("..");
        reveal_strlit(".");
        assert(resolved(lead + rest) =~= resolved(lead) + resolved(rest));
    }
}

/// A path inside a directory leads through the directory's own names and then
/// through at least one more.
pub proof fn inside_paths_resolve_inside(path: Seq<char>, dir: Seq<char>)
    requires
        is_path_inside(path, dir + seq!['/']),
    ensures
        resolved_path(dir).is_prefix_of(resolved_path(path)),
        resolved_path(path).len() > resolved_path(dir).len(),
{
    let tree = dir + seq!['/'];
    let rest = path.skip(tree.len() as int);
    assert(path =~= dir + seq!['/'] + rest);
    lemma_pieces_concatenate(dir, '/', rest, Separator::Char('/'));
    lemma_resolved_below(
        pieces(dir, Separator::Char('/')),
        pieces(rest, Separator::Char('/')),
    );
}

/// A path without two dots in a row has no component that takes it up.
pub proof fn dotless_paths_do_not_climb(path: Seq<char>)
    requires
        !has_double_dot(path),
    ensures
        !pieces(path, Separator::Char('/')).contains(".."@),
{
    let parts = pieces(path, Separator::Char('/'));
    reveal_strlit("..");
    if parts.contains(".."@) {
        let i = choose|i: int| 0 <= i < parts.len() && parts[i] == ".."@;
        lemma_neighbours(path, Separator::Char('/'), i, 0);
        assert(has_double_dot(path));
    }
}

} // verus!
