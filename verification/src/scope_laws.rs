//! What holds of the growth of a scope, in terms of what is listed and merged.
use vstd::prelude::*;

use crate::egraph::{EGraph, Id};
use crate::runner_laws::finds_alike;
use crate::scope::{
    ScopeRoots, admitted, created, extended, grown, join_local, joined, law_created_is_what_is_new,
    law_scope_gains_what_was_created, extend, find_roots, holds, lemma_admitted, lemma_extended, let_in, new_ids,
    outside,
};

verus! {

/// The e-graph may give two e-classes the same root: they were merged, or are one.
pub open spec fn share_root<G: EGraph>(egraph: G, a: Id, b: Id) -> bool {
    exists|root: Id|
        #[trigger] call_ensures(G::find, (&egraph, a), root) && call_ensures(
            G::find,
            (&egraph, b),
            root,
        )
}

/// `a` is listed somewhere before `b`.
pub open spec fn listed_in_order(ids: Seq<Id>, a: Id, b: Id) -> bool {
    exists|p: int, q: int| 0 <= p < q < ids.len() && #[trigger] ids[p] == a && #[trigger] ids[q] == b
}

/// What `extended` adds comes from `ids`, in order, repeats nothing and was not there.
proof fn lemma_extended_in_order(base: Seq<Id>, avoid: Seq<Id>, ids: Seq<Id>)
    ensures
        base.is_prefix_of(extended(base, avoid, ids)),
        forall|i: int|
            base.len() <= i < extended(base, avoid, ids).len() ==> ids.contains(
                #[trigger] extended(base, avoid, ids)[i],
            ) && !base.contains(extended(base, avoid, ids)[i]),
        forall|i: int, j: int|
            base.len() <= i < j < extended(base, avoid, ids).len() ==> (#[trigger] extended(
                base,
                avoid,
                ids,
            )[i]) != (#[trigger] extended(base, avoid, ids)[j]) && listed_in_order(
                ids,
                extended(base, avoid, ids)[i],
                extended(base, avoid, ids)[j],
            ),
    decreases ids.len(),
{
    if ids.len() > 0 {
        let front = ids.drop_last();
        let rest = extended(base, avoid, front);
        let all = extended(base, avoid, ids);
        lemma_extended_in_order(base, avoid, front);
        assert forall|i: int| base.len() <= i < all.len() implies ids.contains(#[trigger] all[i])
            && !base.contains(all[i]) by {
            if i < rest.len() {
                assert(rest[i] == all[i]);
                assert(ids[front.index_of(all[i])] == all[i]);
            } else {
                assert(ids[ids.len() - 1] == all[i]);
                if base.contains(all[i]) {
                    assert(rest[base.index_of(all[i])] == all[i]);
                }
            }
        }
        assert forall|i: int, j: int| base.len() <= i < j < all.len() implies (#[trigger] all[i])
            != (#[trigger] all[j]) && listed_in_order(ids, all[i], all[j]) by {
            assert(rest[i] == all[i]);
            if j < rest.len() {
                assert(rest[j] == all[j]);
                assert(listed_in_order(front, all[i], all[j]));
                let (p, q) = choose|p: int, q: int|
                    0 <= p < q < front.len() && #[trigger] front[p] == all[i]
                        && #[trigger] front[q] == all[j];
                assert(ids[p] == all[i] && ids[q] == all[j]);
            } else {
                assert(front.contains(rest[i]));
                let p = front.index_of(all[i]);
                assert(ids[p] == all[i] && ids[ids.len() - 1] == all[j]);
                assert(rest.contains(all[i]));
            }
        }
    }
}

/// `admitted` keeps the order.
proof fn lemma_admitted_in_order(new: Seq<Id>, roots: ScopeRoots)
    ensures
        forall|i: int|
            0 <= i < admitted(new, roots).len() ==> new.contains(#[trigger] admitted(new, roots)[i]),
        forall|i: int, j: int|
            0 <= i < j < admitted(new, roots).len() ==> listed_in_order(
                new,
                #[trigger] admitted(new, roots)[i],
                #[trigger] admitted(new, roots)[j],
            ),
    decreases new.len(),
{
    if new.len() > 0 {
        let front = new.drop_last();
        let rest = admitted(front, roots);
        let all = admitted(new, roots);
        lemma_admitted_in_order(front, roots);
        assert forall|i: int| 0 <= i < all.len() implies new.contains(#[trigger] all[i]) by {
            if i < rest.len() {
                assert(rest[i] == all[i]);
                assert(new[front.index_of(all[i])] == all[i]);
            } else {
                assert(new[new.len() - 1] == all[i]);
            }
        }
        assert forall|i: int, j: int| 0 <= i < j < all.len() implies listed_in_order(
            new,
            #[trigger] all[i],
            #[trigger] all[j],
        ) by {
            assert(rest[i] == all[i]);
            if j < rest.len() {
                assert(rest[j] == all[j]);
                assert(listed_in_order(front, all[i], all[j]));
                let (p, q) = choose|p: int, q: int|
                    0 <= p < q < front.len() && #[trigger] front[p] == all[i]
                        && #[trigger] front[q] == all[j];
                assert(new[p] == all[i] && new[q] == all[j]);
            } else {
                assert(front.contains(rest[i]));
                let p = front.index_of(all[i]);
                assert(new[p] == all[i] && new[new.len() - 1] == all[j]);
            }
        }
    }
}

/// A scope grows at its end, by e-classes that are listed now and were not listed before,
/// each once and in the order of the list. Every such e-class joins it that shares its root
/// with none that existed before outside the scope, however many of those there are. Where
/// the e-graph has one root for each, one that shares its root with the scope joins too, and
/// any other stays out.
pub proof fn law_scope_grows_by_what_is_new<G: EGraph>(
    egraph: G,
    scope: Seq<Id>,
    before: Seq<Id>,
    listed: Seq<Id>,
    roots: ScopeRoots,
    res: Seq<Id>,
)
    requires
        res == grown(scope, before, listed, roots),
        created(before, listed).len() > 0 ==> roots.found_in(
            egraph,
            scope,
            before,
            created(before, listed),
        ),
    ensures
        scope.len() <= res.len(),
        forall|i: int| 0 <= i < scope.len() ==> #[trigger] res[i] == scope[i],
        forall|i: int|
            scope.len() <= i < res.len() ==> listed.contains(#[trigger] res[i])
                && !before.contains(res[i]) && !scope.contains(res[i]),
        forall|i: int, j: int|
            scope.len() <= i < j < res.len() ==> #[trigger] res[i] != #[trigger] res[j]
                && listed_in_order(listed, res[i], res[j]),
        forall|id: Id|
            listed.contains(id) && !before.contains(id) && (forall|old: Id|
                before.contains(old) && !scope.contains(old) ==> !#[trigger] share_root(
                    egraph,
                    id,
                    old,
                )) ==> #[trigger] res.contains(id),
        finds_alike(egraph) ==> forall|id: Id, near: Id|
            listed.contains(id) && !before.contains(id) && scope.contains(near)
                && #[trigger] share_root(egraph, id, near) ==> res.contains(id),
        finds_alike(egraph) ==> forall|id: Id, old: Id|
            !scope.contains(id) && before.contains(old) && !scope.contains(old)
                && #[trigger] share_root(egraph, id, old) && (forall|near: Id|
                scope.contains(near) ==> !#[trigger] share_root(egraph, id, near)) ==> !res.contains(
                id,
            ),
{
    let new = created(before, listed);
    let joining = admitted(new, roots);
    let out = outside(scope, before);
    lemma_extended_in_order(Seq::empty(), before, listed);
    lemma_admitted_in_order(new, roots);
    lemma_extended_in_order(scope, Seq::empty(), joining);
    law_created_is_what_is_new(before, listed);
    law_created_is_what_is_new(scope, before);
    assert(res == extended(scope, Seq::empty(), joining));
    assert forall|i: int| scope.len() <= i < res.len() implies listed.contains(#[trigger] res[i])
        && !before.contains(res[i]) && !scope.contains(res[i]) by {
        assert(joining.contains(res[i]));
        assert(new.contains(joining[joining.index_of(res[i])]));
    }
    assert forall|i: int, j: int| scope.len() <= i < j < res.len() implies #[trigger] res[i]
        != #[trigger] res[j] && listed_in_order(listed, res[i], res[j]) by {
        assert(listed_in_order(joining, res[i], res[j]));
        let (p, q) = choose|p: int, q: int|
            0 <= p < q < joining.len() && #[trigger] joining[p] == res[i] && #[trigger] joining[q]
                == res[j];
        assert(listed_in_order(new, joining[p], joining[q]));
        let (p2, q2) = choose|p: int, q: int|
            0 <= p < q < new.len() && #[trigger] new[p] == res[i] && #[trigger] new[q] == res[j];
        assert(new[p2] != new[q2]);
    }
    assert forall|id: Id|
        listed.contains(id) && !before.contains(id) && (forall|old: Id|
            before.contains(old) && !scope.contains(old) ==> !#[trigger] share_root(
                egraph,
                id,
                old,
            )) implies #[trigger] res.contains(id) by {
        assert(new.contains(id));
        let k = new.index_of(id);
        let root = roots.created[k];
        assert(call_ensures(G::find, (&egraph, new[k]), roots.created[k]));
        if roots.keeps_out(root) {
            let o = roots.outside.index_of(root);
            assert(call_ensures(G::find, (&egraph, out[o]), roots.outside[o]));
            assert(out.contains(out[o]));
            assert(share_root(egraph, id, out[o]));
        }
        law_scope_gains_what_was_created(scope, before, listed, roots, id);
        assert(new[k] == id);
    }
    if finds_alike(egraph) {
        assert forall|id: Id, near: Id|
            listed.contains(id) && !before.contains(id) && scope.contains(near)
                && #[trigger] share_root(egraph, id, near) implies res.contains(id) by {
            assert(new.contains(id));
            let k = new.index_of(id);
            let s = scope.index_of(near);
            assert(call_ensures(G::find, (&egraph, new[k]), roots.created[k]));
            assert(call_ensures(G::find, (&egraph, scope[s]), roots.scope[s]));
            let root = choose|root: Id|
                #[trigger] call_ensures(G::find, (&egraph, id), root) && call_ensures(
                    G::find,
                    (&egraph, near),
                    root,
                );
            assert(roots.scope[s] == root);
            assert(roots.scope.contains(root));
            assert(roots.created[k] == root);
            law_scope_gains_what_was_created(scope, before, listed, roots, id);
            assert(new[k] == id);
        }
        assert forall|id: Id, old: Id|
            !scope.contains(id) && before.contains(old) && !scope.contains(old)
                && #[trigger] share_root(egraph, id, old) && (forall|near: Id|
                scope.contains(near) ==> !#[trigger] share_root(egraph, id, near)) implies !res.contains(
            id,
        ) by {
            if res.contains(id) {
                law_scope_gains_what_was_created(scope, before, listed, roots, id);
                let k = choose|k: int|
                    0 <= k < new.len() && #[trigger] new[k] == id && !roots.keeps_out(
                        roots.created[k],
                    );
                let root = choose|root: Id|
                    #[trigger] call_ensures(G::find, (&egraph, id), root) && call_ensures(
                        G::find,
                        (&egraph, old),
                        root,
                    );
                assert(call_ensures(G::find, (&egraph, new[k]), roots.created[k]));
                assert(roots.created[k] == root);
                assert(out.contains(old));
                let o = out.index_of(old);
                assert(call_ensures(G::find, (&egraph, out[o]), roots.outside[o]));
                assert(roots.outside[o] == root);
                assert(roots.outside.contains(root));
                assert(roots.scope.contains(root));
                let s = roots.scope.index_of(root);
                assert(call_ensures(G::find, (&egraph, scope[s]), roots.scope[s]));
                assert(share_root(egraph, id, scope[s]));
                assert(scope.contains(scope[s]));
            }
        }
    }
}

/// What is new is listed now and was not before, each once and in the order of the list.
pub proof fn law_new_ids_are_what_is_new(before: &Vec<Id>, after: &Vec<Id>, res: Vec<Id>)
    requires
        call_ensures(new_ids, (before, after), res),
    ensures
        forall|id: Id| #[trigger]
            res@.contains(id) <==> after@.contains(id) && !before@.contains(id),
        forall|i: int, j: int|
            0 <= i < j < res@.len() ==> #[trigger] res@[i] != #[trigger] res@[j]
                && listed_in_order(after@, res@[i], res@[j]),
{
    law_created_is_what_is_new(before@, after@);
    lemma_extended_in_order(Seq::empty(), before@, after@);
}

/// Every e-class of `new` that shares its root with none of `before` outside the scope joins
/// it, however many e-classes are outside; without any, the scope stays as it is.
pub proof fn law_unmerged_class_joins<G: EGraph>(
    egraph: &G,
    scope: Vec<Id>,
    before: &Vec<Id>,
    new: &Vec<Id>,
    res: Vec<Id>,
    id: Id,
)
    requires
        call_ensures(join_local::<G>, (egraph, scope, before, new), res),
    ensures
        new@.len() == 0 ==> res@ == scope@,
        scope@.contains(id) ==> res@.contains(id),
        res@.contains(id) ==> scope@.contains(id) || new@.contains(id),
        new@.contains(id) && (forall|old: Id|
            before@.contains(old) && !scope@.contains(old) ==> !#[trigger] share_root(
                *egraph,
                id,
                old,
            )) ==> res@.contains(id),
        finds_alike(*egraph) && new@.contains(id) && (exists|near: Id|
            scope@.contains(near) && #[trigger] share_root(*egraph, id, near)) ==> res@.contains(id),
        finds_alike(*egraph) && !scope@.contains(id) && (exists|old: Id|
            before@.contains(old) && !scope@.contains(old) && #[trigger] share_root(
                *egraph,
                id,
                old,
            )) && (forall|near: Id|
            scope@.contains(near) ==> !#[trigger] share_root(*egraph, id, near)) ==> !res@.contains(id),
{
    if new@.len() > 0 {
        let roots = choose|roots: ScopeRoots|
            #[trigger] roots.found_in(*egraph, scope@, before@, new@) && res@ == joined(
                scope@,
                new@,
                roots,
            );
        lemma_join(*egraph, scope@, before@, new@, roots, id);
    }
}

/// What joining does to one e-class.
proof fn lemma_join<G: EGraph>(
    egraph: G,
    scope: Seq<Id>,
    before: Seq<Id>,
    new: Seq<Id>,
    roots: ScopeRoots,
    id: Id,
)
    requires
        roots.found_in(egraph, scope, before, new),
    ensures
        scope.contains(id) ==> joined(scope, new, roots).contains(id),
        joined(scope, new, roots).contains(id) ==> scope.contains(id) || new.contains(id),
        new.contains(id) && (forall|old: Id|
            before.contains(old) && !scope.contains(old) ==> !#[trigger] share_root(
                egraph,
                id,
                old,
            )) ==> joined(scope, new, roots).contains(id),
        finds_alike(egraph) && new.contains(id) && (exists|near: Id|
            scope.contains(near) && #[trigger] share_root(egraph, id, near)) ==> joined(
            scope,
            new,
            roots,
        ).contains(id),
        finds_alike(egraph) && !scope.contains(id) && (exists|old: Id|
            before.contains(old) && !scope.contains(old) && #[trigger] share_root(egraph, id, old))
            && (forall|near: Id|
            scope.contains(near) ==> !#[trigger] share_root(egraph, id, near)) ==> !joined(
            scope,
            new,
            roots,
        ).contains(id),
{
    let out = outside(scope, before);
    let joining = admitted(new, roots);
    law_created_is_what_is_new(scope, before);
    lemma_admitted(new, roots);
    lemma_extended(scope, Seq::empty(), joining);
    assert(!Seq::<Id>::empty().contains(id));
    assert(joined(scope, new, roots).contains(id) <==> scope.contains(id) || joining.contains(id));
    if joining.contains(id) {
        let k = choose|k: int|
            0 <= k < new.len() && #[trigger] new[k] == id && !roots.keeps_out(roots.created[k]);
        assert(new.contains(new[k]));
        assert(call_ensures(G::find, (&egraph, new[k]), roots.created[k]));
        if finds_alike(egraph) && !scope.contains(id) && (exists|old: Id|
            before.contains(old) && !scope.contains(old) && #[trigger] share_root(egraph, id, old))
            && (forall|near: Id|
            scope.contains(near) ==> !#[trigger] share_root(egraph, id, near)) {
            let old = choose|old: Id|
                before.contains(old) && !scope.contains(old) && #[trigger] share_root(
                    egraph,
                    id,
                    old,
                );
            let root = choose|root: Id|
                #[trigger] call_ensures(G::find, (&egraph, id), root) && call_ensures(
                    G::find,
                    (&egraph, old),
                    root,
                );
            assert(roots.created[k] == root);
            assert(out.contains(old));
            let o = out.index_of(old);
            assert(call_ensures(G::find, (&egraph, out[o]), roots.outside[o]));
            assert(roots.outside[o] == root);
            assert(roots.outside.contains(root));
            let s = roots.scope.index_of(root);
            assert(call_ensures(G::find, (&egraph, scope[s]), roots.scope[s]));
            assert(share_root(egraph, id, scope[s]));
            assert(scope.contains(scope[s]));
        }
    }
    if new.contains(id) {
        let k = new.index_of(id);
        let root = roots.created[k];
        assert(call_ensures(G::find, (&egraph, new[k]), roots.created[k]));
        if roots.keeps_out(root) {
            let o = roots.outside.index_of(root);
            assert(call_ensures(G::find, (&egraph, out[o]), roots.outside[o]));
            assert(out.contains(out[o]));
            assert(share_root(egraph, id, out[o]));
            if finds_alike(egraph) && (exists|near: Id|
                scope.contains(near) && #[trigger] share_root(egraph, id, near)) {
                let near = choose|near: Id|
                    scope.contains(near) && #[trigger] share_root(egraph, id, near);
                let s = scope.index_of(near);
                assert(call_ensures(G::find, (&egraph, scope[s]), roots.scope[s]));
                assert(roots.scope[s] == root);
                assert(roots.scope.contains(root));
            }
        }
        assert(new[k] == id);
    }
}

/// A list is extended at its end, by what it lacks and need not avoid, each once and in the
/// order in which it comes.
pub proof fn law_list_is_extended_by_what_it_lacks(
    base: Vec<Id>,
    avoid: &Vec<Id>,
    ids: &Vec<Id>,
    res: Vec<Id>,
    id: Id,
    held: bool,
)
    requires
        call_ensures(extend, (base, avoid, ids), res),
        call_ensures(holds, (&res, id), held),
    ensures
        held <==> base@.contains(id) || (ids@.contains(id) && !avoid@.contains(id)),
        held <==> exists|i: int| 0 <= i < res@.len() && #[trigger] res@[i] == id,
        base@.len() <= res@.len(),
        forall|i: int| 0 <= i < base@.len() ==> #[trigger] res@[i] == base@[i],
        forall|i: int, j: int|
            base@.len() <= i < j < res@.len() ==> #[trigger] res@[i] != #[trigger] res@[j]
                && listed_in_order(ids@, res@[i], res@[j]),
{
    lemma_extended(base@, avoid@, ids@);
    lemma_extended_in_order(base@, avoid@, ids@);
}

/// Each e-class is asked for its root, and the roots are in the same order.
pub proof fn law_each_class_is_asked_for_its_root<G: EGraph>(
    egraph: &G,
    ids: &Vec<Id>,
    roots: Vec<Id>,
)
    requires
        call_ensures(find_roots::<G>, (egraph, ids), roots),
    ensures
        roots@.len() == ids@.len(),
        forall|k: int|
            0 <= k < ids@.len() ==> call_ensures(G::find, (egraph, ids@[k]), #[trigger] roots@[k]),
{
}

/// An identity is let in exactly where its root is none of those outside, or one of the
/// scope, and the order is kept.
pub proof fn law_root_decides_who_is_let_in(
    new: &Vec<Id>,
    new_roots: &Vec<Id>,
    outside_roots: &Vec<Id>,
    scope_roots: &Vec<Id>,
    res: Vec<Id>,
)
    requires
        new_roots@.len() == new@.len(),
        call_ensures(let_in, (new, new_roots, outside_roots, scope_roots), res),
    ensures
        forall|id: Id| #[trigger]
            res@.contains(id) <==> exists|k: int|
                {
                    &&& 0 <= k < new@.len()
                    &&& #[trigger] new@[k] == id
                    &&& !outside_roots@.contains(new_roots@[k]) || scope_roots@.contains(
                        new_roots@[k],
                    )
                },
        forall|i: int, j: int|
            0 <= i < j < res@.len() ==> listed_in_order(
                new@,
                #[trigger] res@[i],
                #[trigger] res@[j],
            ),
{
    let roots = ScopeRoots { scope: scope_roots@, outside: outside_roots@, created: new_roots@ };
    lemma_admitted(new@, roots);
    lemma_admitted_in_order(new@, roots);
    assert forall|id: Id| #[trigger] res@.contains(id) <==> exists|k: int|
        {
            &&& 0 <= k < new@.len()
            &&& #[trigger] new@[k] == id
            &&& !outside_roots@.contains(new_roots@[k]) || scope_roots@.contains(new_roots@[k])
        } by {
        if res@.contains(id) {
            let k = choose|k: int|
                0 <= k < new@.len() && #[trigger] new@[k] == id && !roots.keeps_out(
                    roots.created[k],
                );
            assert(new@[k] == id);
        }
        if exists|k: int|
            {
                &&& 0 <= k < new@.len()
                &&& #[trigger] new@[k] == id
                &&& !outside_roots@.contains(new_roots@[k]) || scope_roots@.contains(new_roots@[k])
            } {
            let k = choose|k: int|
                {
                    &&& 0 <= k < new@.len()
                    &&& #[trigger] new@[k] == id
                    &&& !outside_roots@.contains(new_roots@[k]) || scope_roots@.contains(
                        new_roots@[k],
                    )
                };
            assert(new@[k] == id && !roots.keeps_out(roots.created[k]));
        }
    }
}

} // verus!
