//! Hooks: work of the caller's own at the start of each iteration.
use vstd::prelude::*;

use crate::egraph::Id;
use crate::outcome::{Iteration, RunnerResult, StopReason};

verus! {

/// The part of a runner that a hook may change.
pub struct HookScope<G> {
    /// The e-graph.
    pub egraph: G,
    /// The roots of the expressions that were added.
    pub roots: Vec<Id>,
    /// The e-classes from which rewrites are searched.
    pub local_scope: Vec<Id>,
}

/// Work at the start of an iteration. It may change the e-graph, the roots and the
/// scope, sees the iterations so far, and can stop the run by giving a reason.
pub trait LocalHook<G> {
    fn call(
        &mut self,
        scope: &mut HookScope<G>,
        iterations: &Vec<Iteration<()>>,
    ) -> Result<(), String>;
}

/// Calls [`LocalHook::call`] on the hook in a box.
pub fn call_boxed<G, H: LocalHook<G> + ?Sized>(
    hook: &mut Box<H>,
    scope: &mut HookScope<G>,
    iterations: &Vec<Iteration<()>>,
) -> (out: Result<(), String>)
    ensures
        exists|h: &mut H, s: &mut HookScope<G>|
            {
                &&& &*h == &**old(hook)
                &&& &*final(h) == &**final(hook)
                &&& *s == *old(scope)
                &&& *final(s) == *final(scope)
                &&& #[trigger] call_ensures(
                    <H as LocalHook<G>>::call,
                    (h, s, iterations),
                    out,
                )
            },
{
    let inner: &mut H = &mut **hook;
    inner.call(scope, iterations)
}

impl<G> LocalHook<G> for Box<dyn LocalHook<G>> {
    fn call(
        &mut self,
        scope: &mut HookScope<G>,
        iterations: &Vec<Iteration<()>>,
    ) -> (out: Result<(), String>)
        ensures
            exists|h: &mut Box<dyn LocalHook<G>>, s: &mut HookScope<G>|
                {
                    &&& *h == *old(self)
                    &&& *final(h) == *final(self)
                    &&& *s == *old(scope)
                    &&& *final(s) == *final(scope)
                    &&& #[trigger] call_ensures(
                        call_boxed::<G, dyn LocalHook<G>>,
                        (h, s, iterations),
                        out,
                    )
                },
    {
        call_boxed(self, scope, iterations)
    }
}

/// Calls [`LocalHook::call`].
fn call_in_place<G, H: LocalHook<G>>(
    hook: &mut H,
    scope: &mut HookScope<G>,
    iterations: &Vec<Iteration<()>>,
) -> (out: Result<(), String>)
    ensures
        exists|h: &mut H, s: &mut HookScope<G>|
            {
                &&& *h == *old(hook)
                &&& *final(h) == *final(hook)
                &&& *s == *old(scope)
                &&& *final(s) == *final(scope)
                &&& #[trigger] call_ensures(
                    <H as LocalHook<G>>::call,
                    (h, s, iterations),
                    out,
                )
            },
{
    hook.call(scope, iterations)
}

/// Runs a hook: calls [`LocalHook::call`] on it and on the scope, and hands both back.
pub fn called<G, H: LocalHook<G>>(
    hook: H,
    scope: HookScope<G>,
    iterations: &Vec<Iteration<()>>,
) -> (res: (H, HookScope<G>, Result<(), String>))
    ensures
        exists|h: &mut H, s: &mut HookScope<G>|
            {
                &&& *h == hook
                &&& *final(h) == res.0
                &&& *s == scope
                &&& *final(s) == res.1
                &&& #[trigger] call_ensures(
                    <H as LocalHook<G>>::call,
                    (h, s, iterations),
                    res.2,
                )
            },
{
    let mut hook = hook;
    let mut scope = scope;
    let out = call_in_place(&mut hook, &mut scope, iterations);
    let res = (hook, scope, out);
    assert(res.0 == hook && res.1 == scope && res.2 == out);
    res
}

/// [`LocalHook::call`] on `before` and `scope` may leave `after` and `changed` and
/// return `out`.
pub open spec fn calls<G, H: LocalHook<G>>(
    before: H,
    scope: HookScope<G>,
    iterations: Vec<Iteration<()>>,
    after: H,
    changed: HookScope<G>,
    out: Result<(), String>,
) -> bool {
    call_ensures(called::<G, H>, (before, scope, &iterations), (after, changed, out))
}

/// The result of running `count` hooks one after the other, made of what the single
/// hooks returned: the first reason that one gave, if any did.
pub open spec fn hook_result(
    outs: Seq<Result<(), String>>,
    count: nat,
    res: RunnerResult<()>,
) -> bool {
    match res {
        Ok(_) => {
            &&& outs.len() == count
            &&& forall|k: int| 0 <= k < count ==> #[trigger] outs[k] is Ok
        },
        Err(reason) => {
            &&& 0 < outs.len() <= count
            &&& outs.last() matches Err(text) && reason == StopReason::Other(text)
            &&& forall|k: int| 0 <= k < outs.len() - 1 ==> #[trigger] outs[k] is Ok
        },
    }
}

/// The first hooks of `before`, as many as `outs` has entries, were run in order and
/// returned `outs`; they took the scope through `scopes` and are now those of `after`.
pub open spec fn hook_chain<G, H: LocalHook<G>>(
    before: Seq<H>,
    iterations: Vec<Iteration<()>>,
    after: Seq<H>,
    scopes: Seq<HookScope<G>>,
    outs: Seq<Result<(), String>>,
) -> bool {
    &&& outs.len() <= before.len()
    &&& after.len() == before.len()
    &&& scopes.len() == outs.len() + 1
    &&& forall|k: int|
        0 <= k < outs.len() ==> calls(
            #[trigger] before[k],
            scopes[k],
            iterations,
            after[k],
            scopes[k + 1],
            outs[k],
        )
    &&& forall|k: int| outs.len() <= k < before.len() ==> after[k] == #[trigger] before[k]
}

/// Running the hooks `before` on `scope`, up to the first that gives a reason to stop,
/// may leave `after` and `changed` and have the result `res`.
pub open spec fn hooks_run<G, H: LocalHook<G>>(
    before: Seq<H>,
    scope: HookScope<G>,
    iterations: Vec<Iteration<()>>,
    after: Seq<H>,
    changed: HookScope<G>,
    res: RunnerResult<()>,
) -> bool {
    exists|scopes: Seq<HookScope<G>>, outs: Seq<Result<(), String>>|
        {
            &&& #[trigger] hook_chain(before, iterations, after, scopes, outs)
            &&& scopes[0] == scope
            &&& scopes.last() == changed
            &&& hook_result(outs, before.len(), res)
        }
}

/// Runs the hooks in order, up to the first that gives a reason to stop.
pub fn run_hooks<G, H: LocalHook<G>>(
    hooks: Vec<H>,
    scope: HookScope<G>,
    iterations: &Vec<Iteration<()>>,
) -> (res: (Vec<H>, HookScope<G>, RunnerResult<()>))
    ensures
        hooks_run(hooks@, scope, *iterations, res.0@, res.1, res.2),
{
    let ghost all = hooks@;
    let ghost first = scope;
    let ghost mut scopes: Seq<HookScope<G>> = seq![scope];
    let ghost mut outs: Seq<Result<(), String>> = Seq::empty();
    let mut waiting: Vec<H> = hooks;
    let mut done: Vec<H> = Vec::new();
    let mut scope = scope;
    let mut result: RunnerResult<()> = Ok(());
    assert(done@ + waiting@ =~= all);
    while waiting.len() > 0 && result.is_ok()
        invariant
            waiting@.len() + done@.len() == all.len(),
            done@.len() == outs.len(),
            hook_chain(all, *iterations, done@ + waiting@, scopes, outs),
            waiting@ == all.skip(outs.len() as int),
            scopes[0] == first,
            scopes.last() == scope,
            result is Ok ==> forall|k: int| 0 <= k < outs.len() ==> #[trigger] outs[k] is Ok,
            result is Err ==> hook_result(outs, all.len(), result),
        decreases waiting@.len(),
    {
        let ghost n = outs.len() as int;
        let ghost before = done@ + waiting@;
        let ghost old_scopes = scopes;
        let ghost old_outs = outs;
        let ghost old_scope = scope;
        let hook: H = waiting.remove(0);
        assert(hook == all[n]);
        let (hook, next, out) = called(hook, scope, iterations);
        assert(calls(all[n], old_scope, *iterations, hook, next, out));
        scope = next;
        done.push(hook);
        proof {
            scopes = old_scopes.push(next);
            outs = old_outs.push(out);
            let after = done@ + waiting@;
            assert(waiting@ =~= all.skip(outs.len() as int));
            assert forall|k: int| 0 <= k < outs.len() implies calls(
                #[trigger] all[k],
                scopes[k],
                *iterations,
                after[k],
                scopes[k + 1],
                outs[k],
            ) by {
                if k < n {
                    assert(before[k] == after[k]);
                }
            }
            assert forall|k: int| outs.len() <= k < all.len() implies after[k]
                == #[trigger] all[k] by {
                assert(before[k] == all[k]);
            }
            assert(hook_chain(all, *iterations, after, scopes, outs));
        }
        result = match out {
            Ok(_) => Ok(()),
            Err(text) => Err(StopReason::Other(text)),
        };
    }
    let ghost after = done@ + waiting@;
    done.append(&mut waiting);
    assert(done@ =~= after);
    (done, scope, result)
}

} // verus!
