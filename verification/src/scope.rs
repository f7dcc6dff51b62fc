//! How the local scope grows.
use vstd::prelude::*;

use crate::egraph::{EGraph, Id};

verus! {

/// `base`, followed by the identities of `ids` that are neither in `avoid` nor in it
/// yet, in order.
pub open spec fn extended(base: Seq<Id>, avoid: Seq<Id>, ids: Seq<Id>) -> Seq<Id>
    decreases ids.len(),
{
    if ids.len() == 0 {
        base
    } else {
        let rest = extended(base, avoid, ids.drop_last());
        if avoid.contains(ids.last()) || rest.contains(ids.last()) {
            rest
        } else {
            rest.push(ids.last())
        }
    }
}

/// The identities of `after` that were not there `before`, each once.
pub open spec fn created(before: Seq<Id>, after: Seq<Id>) -> Seq<Id> {
    extended(Seq::empty(), before, after)
}

/// The e-classes of `before` that are outside `scope`, each once.
pub open spec fn outside(scope: Seq<Id>, before: Seq<Id>) -> Seq<Id> {
    created(scope, before)
}

/// What stands for the e-classes by which a scope grows, once merging is done.
pub struct ScopeRoots {
    /// For each e-class of the scope.
    pub scope: Seq<Id>,
    /// For each e-class that existed before, outside the scope.
    pub outside: Seq<Id>,
    /// For each e-class that was created.
    pub created: Seq<Id>,
}

/// `roots` are what [`EGraph::find`] returns for `ids`, one by one.
pub open spec fn rooted<G: EGraph>(egraph: G, ids: Seq<Id>, roots: Seq<Id>) -> bool {
    &&& roots.len() == ids.len()
    &&& forall|k: int|
        0 <= k < ids.len() ==> call_ensures(G::find, (&egraph, ids[k]), #[trigger] roots[k])
}

impl ScopeRoots {
    /// The roots are of this scope, of the e-classes of `before` outside it and of `new`.
    pub open spec fn found_in<G: EGraph>(
        self,
        egraph: G,
        scope: Seq<Id>,
        before: Seq<Id>,
        new: Seq<Id>,
    ) -> bool {
        &&& rooted(egraph, scope, self.scope)
        &&& rooted(egraph, outside(scope, before), self.outside)
        &&& rooted(egraph, new, self.created)
    }

    /// The e-class that `root` stands for was merged into one that existed before outside
    /// the scope, and into none of the scope.
    pub open spec fn keeps_out(self, root: Id) -> bool {
        self.outside.contains(root) && !self.scope.contains(root)
    }
}

/// The identities of `new` that the roots do not keep out, in order.
pub open spec fn admitted(new: Seq<Id>, roots: ScopeRoots) -> Seq<Id>
    decreases new.len(),
{
    if new.len() == 0 {
        new
    } else {
        let rest = admitted(new.drop_last(), roots);
        if roots.keeps_out(roots.created[new.len() - 1]) {
            rest
        } else {
            rest.push(new.last())
        }
    }
}

/// The scope once the e-classes of `new` have joined it, but for those that were merged
/// into an e-class that existed before outside it.
pub open spec fn joined(scope: Seq<Id>, new: Seq<Id>, roots: ScopeRoots) -> Seq<Id> {
    extended(scope, Seq::empty(), admitted(new, roots))
}

/// The scope once the e-classes that were created between `before` and `after` have
/// joined it, but for those that were merged into an e-class of `before` outside it.
pub open spec fn grown(
    scope: Seq<Id>,
    before: Seq<Id>,
    after: Seq<Id>,
    roots: ScopeRoots,
) -> Seq<Id> {
    joined(scope, created(before, after), roots)
}

/// `res` is the scope once the e-classes of `new` have joined it in this e-graph. Where
/// there are none, nothing is asked of the e-graph.
pub open spec fn joins<G: EGraph>(
    egraph: G,
    scope: Seq<Id>,
    before: Seq<Id>,
    new: Seq<Id>,
    res: Seq<Id>,
) -> bool {
    if new.len() == 0 {
        res == scope
    } else {
        exists|roots: ScopeRoots|
            #[trigger] roots.found_in(egraph, scope, before, new) && res == joined(
                scope,
                new,
                roots,
            )
    }
}

/// What `extended` holds, and that it repeats nothing that was not repeated before.
pub proof fn lemma_extended(base: Seq<Id>, avoid: Seq<Id>, ids: Seq<Id>)
    ensures
        base.is_prefix_of(extended(base, avoid, ids)),
        forall|id: Id| #[trigger]
            extended(base, avoid, ids).contains(id) <==> base.contains(id) || (ids.contains(id)
                && !avoid.contains(id)),
        base.no_duplicates() ==> extended(base, avoid, ids).no_duplicates(),
    decreases ids.len(),
{
    if ids.len() > 0 {
        let last = ids.last();
        let front = ids.drop_last();
        let rest = extended(base, avoid, front);
        let all = extended(base, avoid, ids);
        lemma_extended(base, avoid, front);
        assert(ids =~= front.push(last));
        assert forall|id: Id| #[trigger] all.contains(id) <==> base.contains(id) || (ids.contains(
            id,
        ) && !avoid.contains(id)) by {
            assert(ids.contains(id) <==> front.contains(id) || id == last) by {
                if front.contains(id) {
                    let k = front.index_of(id);
                    assert(ids[k] == id);
                }
                if id == last {
                    assert(ids[ids.len() - 1] == id);
                }
            }
            assert(rest.contains(id) <==> base.contains(id) || (front.contains(id)
                && !avoid.contains(id)));
            if all != rest {
                assert(all == rest.push(last));
                if rest.contains(id) {
                    let k = rest.index_of(id);
                    assert(all[k] == id);
                }
                if id == last {
                    assert(all[all.len() - 1] == id);
                }
            }
        }
    }
}

/// What `admitted` holds.
pub proof fn lemma_admitted(new: Seq<Id>, roots: ScopeRoots)
    ensures
        admitted(new, roots).len() <= new.len(),
        forall|id: Id| #[trigger]
            admitted(new, roots).contains(id) <==> exists|k: int|
                0 <= k < new.len() && #[trigger] new[k] == id && !roots.keeps_out(
                    roots.created[k],
                ),
    decreases new.len(),
{
    if new.len() > 0 {
        let front = new.drop_last();
        let n = new.len() - 1;
        let rest = admitted(front, roots);
        let all = admitted(new, roots);
        lemma_admitted(front, roots);
        assert forall|id: Id| #[trigger] all.contains(id) <==> exists|k: int|
            0 <= k < new.len() && #[trigger] new[k] == id && !roots.keeps_out(
                roots.created[k],
            ) by {
            if all.contains(id) {
                if rest.contains(id) {
                    let k = choose|k: int|
                        0 <= k < front.len() && #[trigger] front[k] == id && !roots.keeps_out(
                            roots.created[k],
                        );
                    assert(new[k] == id);
                } else {
                    assert(all == rest.push(new[n]));
                    let j = all.index_of(id);
                    if j < rest.len() {
                        assert(rest[j] == id);
                    }
                    assert(new[n] == id);
                }
            }
            if exists|k: int|
                0 <= k < new.len() && #[trigger] new[k] == id && !roots.keeps_out(
                    roots.created[k],
                ) {
                let k = choose|k: int|
                    0 <= k < new.len() && #[trigger] new[k] == id && !roots.keeps_out(
                        roots.created[k],
                    );
                if k < n {
                    assert(front[k] == id);
                    assert(rest.contains(id));
                    assert(all[rest.index_of(id)] == id);
                } else {
                    assert(all[all.len() - 1] == id);
                }
            }
        }
    }
}

/// The scope never loses an e-class: what it held stays in front, in order.
pub proof fn law_scope_keeps_its_classes(
    scope: Seq<Id>,
    before: Seq<Id>,
    after: Seq<Id>,
    roots: ScopeRoots,
)
    ensures
        scope.is_prefix_of(grown(scope, before, after, roots)),
{
    lemma_extended(scope, Seq::empty(), admitted(created(before, after), roots));
}

/// The scope grows by exactly the e-classes that were created and not merged into one that
/// existed before outside it.
pub proof fn law_scope_gains_what_was_created(
    scope: Seq<Id>,
    before: Seq<Id>,
    after: Seq<Id>,
    roots: ScopeRoots,
    id: Id,
)
    ensures
        grown(scope, before, after, roots).contains(id) <==> scope.contains(id) || exists|k: int|
            0 <= k < created(before, after).len() && #[trigger] created(before, after)[k] == id
                && !roots.keeps_out(roots.created[k]),
{
    let new = created(before, after);
    lemma_admitted(new, roots);
    lemma_extended(scope, Seq::empty(), admitted(new, roots));
    assert(!Seq::<Id>::empty().contains(id));
    assert(grown(scope, before, after, roots).contains(id) <==> scope.contains(id) || admitted(
        new,
        roots,
    ).contains(id));
}

/// What was created is what `after` lists and `before` does not, each once.
pub proof fn law_created_is_what_is_new(before: Seq<Id>, after: Seq<Id>)
    ensures
        created(before, after).no_duplicates(),
        forall|id: Id| #[trigger]
            created(before, after).contains(id) <==> after.contains(id) && !before.contains(id),
{
    lemma_extended(Seq::empty(), before, after);
    assert forall|id: Id| #[trigger]
        created(before, after).contains(id) <==> after.contains(id) && !before.contains(id) by {
        assert(!Seq::<Id>::empty().contains(id));
    }
}

/// An e-class that was created and merged into one that existed before outside the scope,
/// and into none of the scope, does not join it; nor does the one that it was merged into.
pub proof fn law_merged_classes_stay_outside(
    scope: Seq<Id>,
    before: Seq<Id>,
    after: Seq<Id>,
    roots: ScopeRoots,
    k: int,
    old: Id,
)
    requires
        0 <= k < created(before, after).len(),
        roots.keeps_out(roots.created[k]),
        !scope.contains(created(before, after)[k]),
        before.contains(old),
        !scope.contains(old),
    ensures
        !grown(scope, before, after, roots).contains(created(before, after)[k]),
        !grown(scope, before, after, roots).contains(old),
{
    let new = created(before, after);
    law_created_is_what_is_new(before, after);
    law_scope_gains_what_was_created(scope, before, after, roots, new[k]);
    law_scope_gains_what_was_created(scope, before, after, roots, old);
    assert forall|j: int| 0 <= j < new.len() && #[trigger] new[j] == new[k] implies j == k by {}
    assert forall|j: int| 0 <= j < new.len() implies #[trigger] new[j] != old by {
        assert(new.contains(new[j]));
    }
}

/// A scope without repetitions grows without repetitions.
pub proof fn law_scope_repeats_nothing(
    scope: Seq<Id>,
    before: Seq<Id>,
    after: Seq<Id>,
    roots: ScopeRoots,
)
    requires
        scope.no_duplicates(),
    ensures
        grown(scope, before, after, roots).no_duplicates(),
{
    lemma_extended(scope, Seq::empty(), admitted(created(before, after), roots));
}

/// A scope stays as it is where no e-class was created.
pub proof fn law_scope_rests_without_creation(
    scope: Seq<Id>,
    before: Seq<Id>,
    after: Seq<Id>,
    roots: ScopeRoots,
)
    requires
        forall|id: Id| #[trigger] after.contains(id) ==> before.contains(id),
    ensures
        grown(scope, before, after, roots) == scope,
{
    law_created_is_what_is_new(before, after);
    let new = created(before, after);
    if new.len() > 0 {
        assert(new.contains(new[0]));
    }
}

/// A scope that holds every e-class of `before` comes to hold every e-class of `after`.
pub proof fn law_covering_scope_keeps_covering<G: EGraph>(
    egraph: G,
    scope: Seq<Id>,
    before: Seq<Id>,
    after: Seq<Id>,
    roots: ScopeRoots,
    id: Id,
)
    requires
        created(before, after).len() > 0 ==> roots.found_in(
            egraph,
            scope,
            before,
            created(before, after),
        ),
        forall|id: Id| #[trigger] before.contains(id) ==> scope.contains(id),
        after.contains(id),
    ensures
        grown(scope, before, after, roots).contains(id),
{
    let new = created(before, after);
    law_created_is_what_is_new(scope, before);
    law_created_is_what_is_new(before, after);
    law_scope_gains_what_was_created(scope, before, after, roots, id);
    let out = outside(scope, before);
    if out.len() > 0 {
        assert(out.contains(out[0]));
    }
    if !scope.contains(id) {
        assert(new.contains(id));
        let k = new.index_of(id);
        assert(new[k] == id && !roots.keeps_out(roots.created[k]));
    }
}

/// Whether `ids` holds `id`.
pub fn holds(ids: &Vec<Id>, id: Id) -> (b: bool)
    ensures
        b == ids@.contains(id),
{
    let mut i: usize = 0;
    while i < ids.len()
        invariant
            i <= ids@.len(),
            forall|k: int| 0 <= k < i ==> ids@[k] != id,
        decreases ids@.len() - i,
    {
        if ids[i] == id {
            assert(ids@[i as int] == id);
            return true;
        }
        i = i + 1;
    }
    false
}

/// Adds to `base` the identities of `ids` that are neither in `avoid` nor in it yet.
pub fn extend(base: Vec<Id>, avoid: &Vec<Id>, ids: &Vec<Id>) -> (res: Vec<Id>)
    ensures
        res@ == extended(base@, avoid@, ids@),
{
    let ghost start = base@;
    let mut res: Vec<Id> = base;
    let mut i: usize = 0;
    assert(ids@.take(0) =~= Seq::<Id>::empty());
    while i < ids.len()
        invariant
            i <= ids@.len(),
            res@ == extended(start, avoid@, ids@.take(i as int)),
        decreases ids@.len() - i,
    {
        let id: Id = ids[i];
        assert(ids@.take(i + 1).drop_last() =~= ids@.take(i as int));
        assert(ids@.take(i + 1).last() == id);
        if !holds(avoid, id) && !holds(&res, id) {
            res.push(id);
        }
        i = i + 1;
    }
    assert(ids@.take(i as int) =~= ids@);
    res
}

/// The e-classes that were created between `before` and `after`.
pub fn new_ids(before: &Vec<Id>, after: &Vec<Id>) -> (res: Vec<Id>)
    ensures
        res@ == created(before@, after@),
{
    extend(Vec::new(), before, after)
}

/// What stands for each of `ids`.
pub fn find_roots<G: EGraph>(egraph: &G, ids: &Vec<Id>) -> (roots: Vec<Id>)
    ensures
        rooted(*egraph, ids@, roots@),
{
    let mut roots: Vec<Id> = Vec::new();
    let mut i: usize = 0;
    while i < ids.len()
        invariant
            i <= ids@.len(),
            roots@.len() == i,
            forall|k: int|
                0 <= k < i ==> call_ensures(G::find, (egraph, ids@[k]), #[trigger] roots@[k]),
        decreases ids@.len() - i,
    {
        roots.push(egraph.find(ids[i]));
        i = i + 1;
    }
    roots
}

/// Picks the identities of `new` that do not stand, by their roots, for an e-class that
/// existed before outside the scope alone.
pub fn let_in(
    new: &Vec<Id>,
    new_roots: &Vec<Id>,
    outside_roots: &Vec<Id>,
    scope_roots: &Vec<Id>,
) -> (res: Vec<Id>)
    requires
        new_roots@.len() == new@.len(),
    ensures
        res@ == admitted(
            new@,
            ScopeRoots { scope: scope_roots@, outside: outside_roots@, created: new_roots@ },
        ),
{
    let ghost roots = ScopeRoots {
        scope: scope_roots@,
        outside: outside_roots@,
        created: new_roots@,
    };
    let mut res: Vec<Id> = Vec::new();
    let mut i: usize = 0;
    assert(new@.take(0) =~= Seq::<Id>::empty());
    while i < new.len()
        invariant
            i <= new@.len(),
            new_roots@.len() == new@.len(),
            roots == (ScopeRoots {
                scope: scope_roots@,
                outside: outside_roots@,
                created: new_roots@,
            }),
            res@ == admitted(new@.take(i as int), roots),
        decreases new@.len() - i,
    {
        assert(new@.take(i + 1).drop_last() =~= new@.take(i as int));
        assert(new@.take(i + 1).last() == new@[i as int]);
        let root: Id = new_roots[i];
        if !(holds(outside_roots, root) && !holds(scope_roots, root)) {
            res.push(new[i]);
        }
        i = i + 1;
    }
    assert(new@.take(i as int) =~= new@);
    res
}

/// Lets the e-classes of `new` join the scope, but for those that were merged into an
/// e-class of `before` outside it.
pub fn join_local<G: EGraph>(
    egraph: &G,
    local_scope: Vec<Id>,
    before: &Vec<Id>,
    new: &Vec<Id>,
) -> (res: Vec<Id>)
    ensures
        new@.len() == 0 ==> res@ == local_scope@,
        joins(*egraph, local_scope@, before@, new@, res@),
{
    if new.len() == 0 {
        return local_scope;
    }
    let outside_ids: Vec<Id> = new_ids(&local_scope, before);
    let scope_roots: Vec<Id> = find_roots(egraph, &local_scope);
    let outside_roots: Vec<Id> = find_roots(egraph, &outside_ids);
    let new_roots: Vec<Id> = find_roots(egraph, new);
    let ghost roots = ScopeRoots {
        scope: scope_roots@,
        outside: outside_roots@,
        created: new_roots@,
    };
    assert(roots.found_in(*egraph, local_scope@, before@, new@));
    let joining: Vec<Id> = let_in(new, &new_roots, &outside_roots, &scope_roots);
    extend(local_scope, &Vec::new(), &joining)
}

} // verus!
