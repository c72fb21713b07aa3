//! What holds of the scope stack across several operations.
//!
//! Every statement here is about the bindings of the stack, as the contracts
//! of [`Scopes`](crate::shared::scopes::Scopes) describe them.

use vstd::prelude::*;
use crate::shared::scopes::{
    accepts, after_pop, cleared, declared, innermost, lemma_innermost, lemma_innermost_is, lookup,
    made_for, popped, pushed, Frames, ScopeGuard,
};

verus! {

/// One operation of a compiler pass on its scope stack.
pub enum Visit<T> {
    /// Enter a nested construct: push a scope and keep its guard.
    Enter,
    /// Leave the construct entered last: pop with the guard kept for it.
    Leave,
    /// Declare a local in the current scope.
    Declare { name: Seq<char>, value: T },
    /// Reset the locals of the current scope.
    Clear,
}

/// Where a pass stands in its walk.
pub struct Walk<T> {
    /// The bindings of the stack.
    pub frames: Frames<T>,
    /// The depths of the guards that were handed out and not yet given
    /// back, the most recent one last.
    pub guards: Seq<nat>,
    /// Whether every operation so far has succeeded.
    pub sound: bool,
}

/// The walk after one more operation. A `Leave` gives back the guard that was
/// handed out last.
pub open spec fn step<T>(walk: Walk<T>, visit: Visit<T>) -> Walk<T> {
    match visit {
        Visit::Enter => Walk {
            frames: pushed(walk.frames),
            guards: walk.guards.push(pushed(walk.frames).len()),
            sound: walk.sound,
        },
        Visit::Leave => Walk {
            frames: after_pop(walk.frames),
            guards: if walk.guards.len() == 0 {
                walk.guards
            } else {
                walk.guards.drop_last()
            },
            sound: walk.sound && walk.guards.len() > 0 && walk.frames.len() >= 2
                && walk.frames.len() == walk.guards.last(),
        },
        Visit::Declare { name, value } => Walk {
            frames: if walk.frames.len() == 0 {
                walk.frames
            } else {
                declared(walk.frames, name, value)
            },
            guards: walk.guards,
            sound: walk.sound && walk.frames.len() > 0,
        },
        Visit::Clear => Walk {
            frames: if walk.frames.len() == 0 {
                walk.frames
            } else {
                cleared(walk.frames)
            },
            guards: walk.guards,
            sound: walk.sound && walk.frames.len() > 0,
        },
    }
}

/// The walk after a sequence of operations.
pub open spec fn run<T>(walk: Walk<T>, visits: Seq<Visit<T>>) -> Walk<T>
    decreases visits.len(),
{
    if visits.len() == 0 {
        walk
    } else {
        step(run(walk, visits.drop_last()), visits.last())
    }
}

/// Whether every `Leave` in `visits` has an `Enter` of its own before it,
/// given that `open` constructs were entered before and not yet left.
pub open spec fn paired<T>(visits: Seq<Visit<T>>, open: nat) -> bool
    decreases visits.len(),
{
    if visits.len() == 0 {
        true
    } else {
        match visits[0] {
            Visit::Enter => paired(visits.drop_first(), open + 1),
            Visit::Leave => open > 0 && paired(visits.drop_first(), (open - 1) as nat),
            _ => paired(visits.drop_first(), open),
        }
    }
}

/// The guards of a walk are those of the scopes above a base of at least one
/// scope, in order.
spec fn anchored<T>(walk: Walk<T>) -> bool {
    &&& walk.sound
    &&& walk.guards.len() < walk.frames.len()
    &&& forall|at: int|
        0 <= at < walk.guards.len() ==> #[trigger] walk.guards[at] == walk.frames.len()
            - walk.guards.len() + at + 1
}

proof fn lemma_run_first<T>(walk: Walk<T>, visits: Seq<Visit<T>>)
    requires
        visits.len() > 0,
    ensures
        run(walk, visits) == run(step(walk, visits[0]), visits.drop_first()),
    decreases visits.len(),
{
    if visits.len() == 1 {
        assert(visits.drop_last() =~= Seq::<Visit<T>>::empty());
        assert(visits.drop_first() =~= Seq::<Visit<T>>::empty());
        assert(run(walk, visits.drop_last()) == walk);
    } else {
        let front = visits.drop_last();
        lemma_run_first(walk, front);
        assert(front.drop_first() =~= visits.drop_first().drop_last());
        assert(front[0] == visits[0]);
        assert(visits.drop_first().last() == visits.last());
    }
}

proof fn lemma_paired_prefix<T>(visits: Seq<Visit<T>>, open: nat, upto: int)
    requires
        paired(visits, open),
        0 <= upto <= visits.len(),
    ensures
        paired(visits.take(upto), open),
    decreases visits.len(),
{
    let front = visits.take(upto);
    if upto > 0 {
        let next: nat = match visits[0] {
            Visit::Enter => open + 1,
            Visit::Leave => (open - 1) as nat,
            _ => open,
        };
        lemma_paired_prefix(visits.drop_first(), next, upto - 1);
        assert(front.drop_first() =~= visits.drop_first().take(upto - 1));
        assert(front[0] == visits[0]);
    }
}

proof fn lemma_run_anchored<T>(walk: Walk<T>, visits: Seq<Visit<T>>)
    requires
        anchored(walk),
        paired(visits, walk.guards.len()),
    ensures
        anchored(run(walk, visits)),
    decreases visits.len(),
{
    if visits.len() > 0 {
        let next = step(walk, visits[0]);
        lemma_run_first(walk, visits);
        match visits[0] {
            Visit::Enter => {
                assert(next.guards.len() == walk.guards.len() + 1);
                assert forall|at: int| 0 <= at < next.guards.len() implies #[trigger] next.guards[at]
                    == next.frames.len() - next.guards.len() + at + 1 by {
                    if at < walk.guards.len() {
                        assert(next.guards[at] == walk.guards[at]);
                    }
                }
            },
            Visit::Leave => {
                assert(walk.guards.last() == walk.guards[walk.guards.len() - 1]);
                assert forall|at: int| 0 <= at < next.guards.len() implies #[trigger] next.guards[at]
                    == next.frames.len() - next.guards.len() + at + 1 by {
                    assert(next.guards[at] == walk.guards[at]);
                }
            },
            _ => {},
        }
        assert(anchored(next));
        lemma_run_anchored(next, visits.drop_first());
    }
}

/// As long as pushes and pops are correctly paired, the stack never loses
/// its root: started on a stack with at least one scope, a walk in which
/// every pop gives back the guard of the push it belongs to succeeds at
/// every operation and has at least one scope after each of them.
pub proof fn law_paired_walk_keeps_root<T>(frames: Frames<T>, visits: Seq<Visit<T>>, upto: int)
    requires
        frames.len() >= 1,
        paired(visits, 0),
        0 <= upto <= visits.len(),
    ensures
        run(Walk { frames, guards: Seq::empty(), sound: true }, visits.take(upto)).sound,
        run(Walk { frames, guards: Seq::empty(), sound: true }, visits.take(upto)).frames.len() >= 1,
{
    let start = Walk { frames, guards: Seq::<nat>::empty(), sound: true };
    lemma_paired_prefix(visits, 0, upto);
    lemma_run_anchored(start, visits.take(upto));
}

/// On a stack that holds its root, a push followed by a pop with the guard
/// of that push succeeds and gives back the stack as it was.
pub proof fn law_push_then_pop_restores<T>(frames: Frames<T>, guard: ScopeGuard)
    requires
        frames.len() >= 1,
        made_for(pushed(frames), guard),
    ensures
        accepts(pushed(frames), guard),
        after_pop(pushed(frames)) == frames,
{
    assert(popped(pushed(frames)) =~= frames);
}

/// After two pushes the guard of the first one is not accepted: a pop with
/// it fails, since it was not made for the innermost scope.
pub proof fn law_outer_guard_rejected<T>(frames: Frames<T>, first: ScopeGuard)
    requires
        made_for(pushed(frames), first),
    ensures
        !accepts(pushed(pushed(frames)), first),
        pushed(pushed(frames)).len() >= 2,
{
}

/// No pop removes the root: whatever the guard, a stack with one scope is
/// left as it is and the guard is not accepted, and a stack with at least
/// one scope has at least one afterwards.
pub proof fn law_pop_keeps_root<T>(frames: Frames<T>, guard: ScopeGuard)
    requires
        frames.len() >= 1,
    ensures
        after_pop(frames).len() >= 1,
        frames.len() == 1 ==> after_pop(frames) == frames && !accepts(frames, guard),
{
}

/// A name declared in the current scope resolves to the declared value for
/// as long as that scope is on the stack and no scope above it binds the
/// name again.
pub proof fn law_declared_is_found<T>(
    frames: Frames<T>,
    name: Seq<char>,
    value: T,
    above: Frames<T>,
)
    requires
        frames.len() >= 1,
        forall|at: int| 0 <= at < above.len() ==> !above[at].contains_key(name),
    ensures
        lookup(declared(frames, name, value), name) == Some(value),
        lookup(declared(frames, name, value) + above, name) == Some(value),
{
    let now = declared(frames, name, value);
    lemma_innermost_is(now, name, now.len() - 1);
    let all = now + above;
    assert(all[now.len() - 1] == now[now.len() - 1]);
    assert forall|at: int| now.len() - 1 < at < all.len() implies !all[at].contains_key(name) by {
        assert(all[at] == above[at - now.len()]);
    }
    lemma_innermost_is(all, name, now.len() - 1);
}

/// An inner declaration hides the outer one only while the inner scope is on
/// the stack: in a fresh scope pushed above a binding of `name`, declaring
/// `name` again makes it resolve to the inner value, and popping that scope
/// brings back the stack, and so the outer value, unchanged.
pub proof fn law_shadowing<T>(frames: Frames<T>, name: Seq<char>, outer: T, inner: T)
    requires
        frames.len() >= 1,
    ensures
        lookup(declared(frames, name, outer), name) == Some(outer),
        lookup(declared(pushed(declared(frames, name, outer)), name, inner), name) == Some(inner),
        after_pop(declared(pushed(declared(frames, name, outer)), name, inner)) == declared(
            frames,
            name,
            outer,
        ),
{
    let below = declared(frames, name, outer);
    law_declared_is_found(frames, name, outer, Seq::empty());
    law_declared_is_found(pushed(below), name, inner, Seq::empty());
    assert(popped(declared(pushed(below), name, inner)) =~= below);
    assert(after_pop(declared(pushed(below), name, inner)) == below);
}

/// Clearing the current scope empties that scope and touches no other: every
/// scope below keeps its bindings, and each name resolves as it did below
/// the current scope.
pub proof fn law_clear_leaves_outer_scopes<T>(frames: Frames<T>, name: Seq<char>)
    requires
        frames.len() >= 1,
    ensures
        cleared(frames).len() == frames.len(),
        cleared(frames).last() == Map::<Seq<char>, T>::empty(),
        forall|at: int| 0 <= at < frames.len() - 1 ==> cleared(frames)[at] == frames[at],
        lookup(cleared(frames), name) == lookup(popped(frames), name),
{
    assert(cleared(frames).drop_last() =~= popped(frames));
    let below = popped(frames);
    lemma_innermost(below, name);
    match innermost(below, name) {
        Some(at) => {
            assert(cleared(frames)[at] == below[at]);
        },
        None => {},
    }
}

/// Declarations in a scope pushed above the stack do not outlive it: once
/// that scope is popped, every name resolves as it did before the push. A
/// name that was bound nowhere before is bound nowhere after.
pub proof fn law_declaration_ends_with_scope<T>(
    frames: Frames<T>,
    name: Seq<char>,
    value: T,
    other: Seq<char>,
)
    requires
        frames.len() >= 1,
    ensures
        after_pop(declared(pushed(frames), name, value)) == frames,
        lookup(after_pop(declared(pushed(frames), name, value)), other) == lookup(frames, other),
        lookup(frames, name) is None ==> lookup(
            after_pop(declared(pushed(frames), name, value)),
            name,
        ) is None,
{
    assert(popped(declared(pushed(frames), name, value)) =~= frames);
}

} // verus!
