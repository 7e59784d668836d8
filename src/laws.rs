//! What holds of the document over sequences of contributions.

use vstd::prelude::*;

use crate::document::{empty_view, merge, merge_all, ApiView, ContributionView, Method};

verus! {

/// Starting from an empty document, the paths after any sequence of
/// contributions are exactly the paths the contributions were mounted at, and
/// each path holds exactly the union of the methods that the contributions at
/// that path brought: no method is lost and none leaks in from another path.
pub proof fn lemma_paths_are_union_of_contributions(cs: Seq<ContributionView>)
    ensures
        forall|p: Seq<char>|
            #[trigger] merge_all(empty_view(), cs).paths.contains_key(p) <==> exists|i: int|
                0 <= i < cs.len() && #[trigger] cs[i].path == p,
        forall|p: Seq<char>, m: Method|
            merge_all(empty_view(), cs).paths.contains_key(p) ==> (
            #[trigger] merge_all(empty_view(), cs).paths[p].contains_key(m) <==> exists|i: int|
                0 <= i < cs.len() && #[trigger] cs[i].path == p && cs[i].operations.contains_key(
                    m,
                )),
    decreases cs.len(),
{
    if cs.len() > 0 {
        let pre = cs.drop_last();
        let c = cs.last();
        let n = cs.len() - 1;
        lemma_paths_are_union_of_contributions(pre);
        let d = merge_all(empty_view(), pre);
        let r = merge_all(empty_view(), cs);
        assert(r == merge(d, c));
        assert forall|p: Seq<char>| #[trigger]
            r.paths.contains_key(p) <==> exists|i: int| 0 <= i < cs.len() && #[trigger] cs[i].path == p by {
            if r.paths.contains_key(p) && p != c.path {
                assert(d.paths.contains_key(p));
                let i = choose|i: int| 0 <= i < pre.len() && #[trigger] pre[i].path == p;
                assert(cs[i] == pre[i]);
            }
            if r.paths.contains_key(p) && p == c.path {
                assert(cs[n].path == p);
            }
            if exists|i: int| 0 <= i < cs.len() && #[trigger] cs[i].path == p {
                let i = choose|i: int| 0 <= i < cs.len() && #[trigger] cs[i].path == p;
                if i < n {
                    assert(pre[i] == cs[i]);
                    assert(d.paths.contains_key(p));
                }
            }
        }
        assert forall|p: Seq<char>, m: Method| r.paths.contains_key(p) implies (
        #[trigger] r.paths[p].contains_key(m) <==> exists|i: int|
            0 <= i < cs.len() && #[trigger] cs[i].path == p && cs[i].operations.contains_key(
                m,
            )) by {
            if r.paths[p].contains_key(m) {
                if p == c.path && c.operations.contains_key(m) {
                    assert(cs[n].path == p);
                } else {
                    assert(d.paths.contains_key(p));
                    assert(d.paths[p].contains_key(m));
                    let i = choose|i: int|
                        0 <= i < pre.len() && #[trigger] pre[i].path == p
                            && pre[i].operations.contains_key(m);
                    assert(cs[i] == pre[i]);
                }
            }
            if exists|i: int|
                0 <= i < cs.len() && #[trigger] cs[i].path == p && cs[i].operations.contains_key(m) {
                let i = choose|i: int|
                    0 <= i < cs.len() && #[trigger] cs[i].path == p
                        && cs[i].operations.contains_key(m);
                if i < n {
                    assert(pre[i] == cs[i]);
                    assert(d.paths.contains_key(p));
                    assert(d.paths[p].contains_key(m));
                }
            }
        }
    }
}

/// When two contributions define a schema, or a security scheme, of the same
/// name, the document holds the definition of the later one.
pub proof fn lemma_definitions_last_write_wins(
    d: ApiView,
    first: ContributionView,
    second: ContributionView,
    name: Seq<char>,
)
    ensures
        second.definitions.contains_key(name) ==> merge(merge(d, first), second).definitions[name]
            == second.definitions[name],
        second.security_definitions.contains_key(name) ==> merge(
            merge(d, first),
            second,
        ).security_definitions[name] == second.security_definitions[name],
{
}

/// The document after a sequence of contributions is the document after its
/// first part with the rest merged into it: what the first part produced is a
/// value of its own, which later contributions build on and do not change.
pub proof fn lemma_merge_all_split(d: ApiView, first: Seq<ContributionView>, rest: Seq<ContributionView>)
    ensures
        merge_all(d, first + rest) == merge_all(merge_all(d, first), rest),
    decreases rest.len(),
{
    if rest.len() == 0 {
        assert(first + rest =~= first);
    } else {
        lemma_merge_all_split(d, first, rest.drop_last());
        assert((first + rest).drop_last() =~= first + rest.drop_last());
        assert((first + rest).last() == rest.last());
    }
}

} // verus!
