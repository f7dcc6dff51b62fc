//! What the runner needs of an e-graph.
use vstd::prelude::*;

use crate::symbol::Symbol;

verus! {

/// The identity of an e-class.
#[derive(Clone, Copy, Debug, PartialEq, Eq, PartialOrd, Ord, Hash, Structural)]
pub struct Id {
    pub index: usize,
}

impl From<usize> for Id {
    fn from(index: usize) -> (id: Self) {
        Id { index }
    }
}

impl vstd::std_specs::convert::FromSpecImpl<usize> for Id {
    open spec fn obeys_from_spec() -> bool {
        true
    }

    open spec fn from_spec(index: usize) -> Id {
        Id { index }
    }
}

/// What a search found in one e-class: a substitution for each match.
#[derive(Debug)]
pub struct SearchMatches<T> {
    pub eclass: Id,
    pub substs: Vec<T>,
}

/// How many substitutions a list of matches holds in all.
pub open spec fn total_substs<T>(matches: Seq<SearchMatches<T>>) -> nat
    decreases matches.len(),
{
    if matches.len() == 0 {
        0
    } else {
        total_substs(matches.drop_last()) + matches.last().substs@.len()
    }
}

/// Counts the substitutions of a list of matches. The count is taken in `u128`, in
/// which no list overflows it.
pub fn count_substs<T>(matches: &Vec<SearchMatches<T>>) -> (total: u128)
    ensures
        total == total_substs(matches@),
{
    let mut total: u128 = 0;
    let mut i: usize = 0;
    assert(matches@.take(0) =~= Seq::<SearchMatches<T>>::empty());
    while i < matches.len()
        invariant
            i <= matches@.len(),
            total == total_substs(matches@.take(i as int)),
            total <= i * usize::MAX,
        decreases matches@.len() - i,
    {
        assert(matches@.take(i + 1).drop_last() =~= matches@.take(i as int));
        assert(i * usize::MAX + usize::MAX == (i + 1) * usize::MAX) by (nonlinear_arith);
        assert((i + 1) * usize::MAX <= u128::MAX) by (nonlinear_arith)
            requires
                i + 1 <= usize::MAX,
                usize::MAX <= u64::MAX,
        ;
        total = total + matches[i].substs.len() as u128;
        i = i + 1;
    }
    assert(matches@.take(i as int) =~= matches@);
    total
}

/// An e-graph that can be searched from chosen e-classes and rewritten.
///
/// Nothing is claimed of what an implementation does: contracts elsewhere say
/// which of these functions were called, on what, and what was made of the answers.
pub trait EGraph: Sized {
    /// What is tracked for each e-class.
    type Analysis;

    /// An expression that can be added.
    type Expr;

    /// The left side of a rule, as a pattern.
    type Pattern;

    /// One way in which a pattern matches.
    type Subst;

    /// How a rewrite searches and what it does where it matched.
    type Rule;

    /// A proof that two expressions are equal.
    type Explanation;

    /// An empty e-graph.
    fn new(analysis: Self::Analysis) -> Self;

    /// Adds an expression and returns its e-class.
    fn add_expr(&mut self, expr: &Self::Expr) -> Id;

    /// The number of e-nodes ever added that are told apart.
    fn total_size(&self) -> usize;

    /// The number of e-nodes in all e-classes.
    fn total_number_of_nodes(&self) -> usize;

    /// The number of e-classes.
    fn number_of_classes(&self) -> usize;

    /// The identities of all e-classes.
    fn class_ids(&self) -> Vec<Id>;

    /// The e-class that now stands for `id`: two identities have the same one exactly when
    /// their e-classes were merged.
    fn find(&self, id: Id) -> Id;

    /// Restores the invariants after changes, and returns how much work it took.
    fn rebuild(&mut self) -> usize;

    /// Searches a rule, starting in the e-classes of `local_scope` alone, for about
    /// `limit` matches.
    fn search_local_with_limit(
        &self,
        rule: &Self::Rule,
        local_scope: &Vec<Id>,
        limit: usize,
    ) -> Vec<SearchMatches<Self::Subst>>;

    /// Applies a rule at its matches, and returns the e-classes that changed.
    fn apply_rule(
        &mut self,
        rule: &Self::Rule,
        matches: &Vec<SearchMatches<Self::Subst>>,
    ) -> Vec<Id>;

    /// The e-graph, recording how equalities come about.
    fn with_explanations_enabled(self) -> Self;

    /// The e-graph, recording nothing of how equalities come about.
    fn with_explanations_disabled(self) -> Self;

    /// The e-graph, making explanations shorter.
    fn with_explanation_length_optimization(self) -> Self;

    /// The e-graph, leaving explanations as long as they come.
    fn without_explanation_length_optimization(self) -> Self;

    /// Explains why two expressions are equal.
    fn explain_equivalence(&mut self, left: &Self::Expr, right: &Self::Expr) -> Self::Explanation;

    /// Explains why an expression is equal to a pattern under a substitution.
    fn explain_matches(
        &mut self,
        left: &Self::Expr,
        right: &Self::Pattern,
        subst: &Self::Subst,
    ) -> Self::Explanation;
}

/// A named rule.
pub struct Rewrite<G: EGraph> {
    pub name: Symbol,
    pub rule: G::Rule,
}

/// Calls [`EGraph::rebuild`].
fn rebuild_in_place<G: EGraph>(egraph: &mut G) -> (n: usize)
    ensures
        exists|g: &mut G|
            *g == *old(egraph) && *final(g) == *final(egraph) && #[trigger] call_ensures(
                G::rebuild,
                (g,),
                n,
            ),
{
    egraph.rebuild()
}

/// Rebuilds an e-graph: calls [`EGraph::rebuild`] on it and hands it back.
pub fn rebuilt<G: EGraph>(egraph: G) -> (res: (G, usize))
    ensures
        exists|g: &mut G|
            *g == egraph && *final(g) == res.0 && #[trigger] call_ensures(
                G::rebuild,
                (g,),
                res.1,
            ),
{
    let mut egraph = egraph;
    let n: usize = rebuild_in_place(&mut egraph);
    let res = (egraph, n);
    assert(res.0 == egraph && res.1 == n);
    res
}

/// [`EGraph::rebuild`] on `before` may leave `after` and return `n`.
pub open spec fn rebuilds<G: EGraph>(before: G, after: G, n: usize) -> bool {
    call_ensures(rebuilt::<G>, (before,), (after, n))
}

/// Calls [`EGraph::add_expr`].
fn add_in_place<G: EGraph>(egraph: &mut G, expr: &G::Expr) -> (id: Id)
    ensures
        exists|g: &mut G|
            *g == *old(egraph) && *final(g) == *final(egraph) && #[trigger] call_ensures(
                G::add_expr,
                (g, expr),
                id,
            ),
{
    egraph.add_expr(expr)
}

/// Adds an expression to an e-graph: calls [`EGraph::add_expr`] on it and hands it back.
pub fn added<G: EGraph>(egraph: G, expr: &G::Expr) -> (res: (G, Id))
    ensures
        exists|g: &mut G|
            *g == egraph && *final(g) == res.0 && #[trigger] call_ensures(
                G::add_expr,
                (g, expr),
                res.1,
            ),
{
    let mut egraph = egraph;
    let id: Id = add_in_place(&mut egraph, expr);
    let res = (egraph, id);
    assert(res.0 == egraph && res.1 == id);
    res
}

/// [`EGraph::add_expr`] on `before` may leave `after` and return `id`.
pub open spec fn adds<G: EGraph>(before: G, expr: G::Expr, after: G, id: Id) -> bool {
    call_ensures(added::<G>, (before, &expr), (after, id))
}

} // verus!
