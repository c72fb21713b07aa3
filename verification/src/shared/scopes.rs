//! The stack of lexical scopes used during compile-time evaluation.

use vstd::prelude::*;
use crate::shared::internal::Internal;
use crate::shared::scope::Scope;
use crate::shared::text::boxed_str;
use crate::span::{Span, Spanned};

verus! {

/// Description of the internal error raised by [`Scopes::decl`] and
/// [`Scopes::clear_current`] on a stack without scopes.
pub const EXPECTED_SCOPE: &'static str = "expected at least one scope";

/// Description of the internal error raised by [`Scopes::pop`] on a stack
/// without scopes.
pub const EXPECTED_SCOPE_TO_POP: &'static str = "expected at least one scope to pop";

/// Description of the internal error raised by [`Scopes::pop`] when the guard
/// does not belong to the innermost scope, or when only the root is left.
pub const SCOPE_LENGTH_MISMATCH: &'static str = "scope length mismatch";

/// The bindings of a stack of scopes, outermost first.
pub type Frames<T> = Seq<Map<Seq<char>, T>>;

/// The index of the innermost scope that binds `name`.
pub open spec fn innermost<T>(frames: Frames<T>, name: Seq<char>) -> Option<int>
    decreases frames.len(),
{
    if frames.len() == 0 {
        None
    } else if frames.last().contains_key(name) {
        Some(frames.len() - 1)
    } else {
        innermost(frames.drop_last(), name)
    }
}

/// What `name` resolves to: the value bound in the innermost scope that
/// binds it.
pub open spec fn lookup<T>(frames: Frames<T>, name: Seq<char>) -> Option<T> {
    match innermost(frames, name) {
        Some(at) => Some(frames[at][name]),
        None => None,
    }
}

/// The stack after a new, empty scope is entered.
pub open spec fn pushed<T>(frames: Frames<T>) -> Frames<T> {
    frames.push(Map::empty())
}

/// The stack after the innermost scope is left.
pub open spec fn popped<T>(frames: Frames<T>) -> Frames<T> {
    frames.drop_last()
}

/// The stack after a pop: the innermost scope is left where there is one
/// above the root. The root scope itself is never removed.
pub open spec fn after_pop<T>(frames: Frames<T>) -> Frames<T> {
    if frames.len() >= 2 {
        popped(frames)
    } else {
        frames
    }
}

/// The stack after `name` is bound to `value` in the innermost scope.
pub open spec fn declared<T>(frames: Frames<T>, name: Seq<char>, value: T) -> Frames<T> {
    frames.update(frames.len() - 1, frames.last().insert(name, value))
}

/// The stack after the innermost scope has lost all its bindings.
pub open spec fn cleared<T>(frames: Frames<T>) -> Frames<T> {
    frames.update(frames.len() - 1, Map::empty())
}

/// Whether `guard` records the depth of `frames`, as the guard of the push
/// that made the innermost scope of `frames` does.
pub open spec fn made_for<T>(frames: Frames<T>, guard: ScopeGuard) -> bool {
    frames.len() == guard.depth()
}

/// Whether a pop on `frames` accepts `guard`: there is a scope above the
/// root, and the guard was made for it.
pub open spec fn accepts<T>(frames: Frames<T>, guard: ScopeGuard) -> bool {
    frames.len() >= 2 && made_for(frames, guard)
}

/// `innermost` finds a scope that binds the name and lies above every other
/// scope that does; it finds none exactly when no scope binds the name.
pub proof fn lemma_innermost<T>(frames: Frames<T>, name: Seq<char>)
    ensures
        match innermost(frames, name) {
            Some(at) => {
                &&& 0 <= at < frames.len()
                &&& frames[at].contains_key(name)
                &&& forall|above: int| at < above < frames.len() ==> !frames[above].contains_key(name)
            },
            None => forall|at: int| 0 <= at < frames.len() ==> !frames[at].contains_key(name),
        },
    decreases frames.len(),
{
    if frames.len() > 0 && !frames.last().contains_key(name) {
        let below = frames.drop_last();
        lemma_innermost(below, name);
        match innermost(below, name) {
            Some(at) => {
                assert(below[at] == frames[at]);
                assert forall|above: int| at < above < frames.len() implies !frames[above].contains_key(
                    name,
                ) by {
                    if above < below.len() {
                        assert(below[above] == frames[above]);
                    }
                }
            },
            None => {
                assert forall|at: int| 0 <= at < frames.len() implies !frames[at].contains_key(
                    name,
                ) by {
                    if at < below.len() {
                        assert(below[at] == frames[at]);
                    }
                }
            },
        }
    }
}

/// A scope that binds the name, with no scope above it that does, is the one
/// `innermost` finds.
pub proof fn lemma_innermost_is<T>(frames: Frames<T>, name: Seq<char>, at: int)
    requires
        0 <= at < frames.len(),
        frames[at].contains_key(name),
        forall|above: int| at < above < frames.len() ==> !frames[above].contains_key(name),
    ensures
        innermost(frames, name) == Some(at),
    decreases frames.len(),
{
    if at < frames.len() - 1 {
        lemma_innermost_is(frames.drop_last(), name, at);
    }
}

/// The kind of a [`ScopeError`].
#[derive(Debug)]
pub enum ScopeErrorKind {
    /// A local variable was missing.
    MissingLocal {
        /// The name that was missing.
        name: Box<str>,
    },
}

impl ScopeErrorKind {
    /// The name of the local variable that was missing.
    pub open spec fn missing(&self) -> Seq<char> {
        match self {
            ScopeErrorKind::MissingLocal { name } => name@,
        }
    }

    /// The text of the diagnostic.
    pub fn message(&self) -> (text: String)
        ensures
            text@ == "missing local "@ + self.missing(),
    {
        match self {
            ScopeErrorKind::MissingLocal { name } => {
                String::from_str("missing local ").concat(&**name)
            },
        }
    }
}

/// An error caused by issues with scoping, to be reported to the author of
/// the script at the span it carries.
#[derive(Debug)]
pub struct ScopeError {
    /// Where the failed lookup stands in the source.
    span: Span,
    /// What went wrong.
    kind: ScopeErrorKind,
}

impl ScopeError {
    /// Model of [`ScopeError::span`].
    pub closed spec fn spec_span(&self) -> Span {
        self.span
    }

    /// Model of [`ScopeError::kind`].
    pub closed spec fn spec_kind(&self) -> &ScopeErrorKind {
        &self.kind
    }

    /// An error of the given kind at the place of `spanned`.
    pub fn new<S: Spanned>(spanned: S, kind: ScopeErrorKind) -> (error: ScopeError)
        ensures
            error.span() == spanned.spanned(),
            *error.kind() == kind,
    {
        ScopeError { span: spanned.span(), kind }
    }

    /// The span the error is anchored at.
    #[verifier::when_used_as_spec(spec_span)]
    pub fn span(&self) -> (span: Span)
        ensures
            span == self.span(),
    {
        self.span
    }

    /// The kind of the error.
    #[verifier::when_used_as_spec(spec_kind)]
    pub fn kind(&self) -> (kind: &ScopeErrorKind)
        ensures
            kind == self.kind(),
    {
        &self.kind
    }

    /// Takes the kind out of the error.
    pub fn into_kind(self) -> (kind: ScopeErrorKind)
        ensures
            kind == *self.kind(),
    {
        self.kind
    }

    /// The error for a lookup of `name` at `spanned` that found no binding.
    fn missing_local<S: Spanned>(spanned: S, name: &str) -> (error: ScopeError)
        ensures
            error.span() == spanned.spanned(),
            error.kind().missing() == name@,
    {
        ScopeError::new(spanned, ScopeErrorKind::MissingLocal { name: boxed_str(name) })
    }
}

impl Spanned for ScopeError {
    open spec fn spanned(&self) -> Span {
        self.span()
    }

    fn span(&self) -> (span: Span) {
        self.span
    }
}

/// The token handed out by [`Scopes::push`] and taken back by
/// [`Scopes::pop`].
///
/// It is no handle to the scope: it only remembers how deep the stack was,
/// so that a pop can check that it removes the scope its guard was made for.
#[derive(Debug)]
pub struct ScopeGuard {
    /// The length of the stack before the push.
    length: usize,
}

impl ScopeGuard {
    /// The depth that the stack reached with the push that made this guard.
    pub closed spec fn depth(&self) -> nat {
        (self.length + 1) as nat
    }

    /// A guard stands for a scope, so the depth it records is at least one.
    /// No guard is made for a stack without scopes.
    pub proof fn lemma_depth_positive(&self)
        ensures
            self.depth() >= 1,
    {
    }
}

/// A hierarchy of scopes: index 0 is the outermost, the last one the
/// innermost.
#[derive(Debug)]
pub struct Scopes<T> {
    scopes: Vec<Scope<T>>,
}

impl<T> View for Scopes<T> {
    type V = Frames<T>;

    closed spec fn view(&self) -> Frames<T> {
        frames_of(self.scopes@)
    }
}

/// The bindings of each scope in turn.
spec fn frames_of<T>(scopes: Seq<Scope<T>>) -> Frames<T> {
    scopes.map_values(|scope: Scope<T>| scope@)
}

/// Replacing one scope replaces its bindings and leaves the others alone.
proof fn lemma_frames_of_update<T>(scopes: Seq<Scope<T>>, at: int)
    requires
        0 <= at < scopes.len(),
    ensures
        forall|scope: Scope<T>| #[trigger]
            frames_of(scopes.update(at, scope)) == frames_of(scopes).update(at, scope@),
{
    assert forall|scope: Scope<T>| #[trigger]
        frames_of(scopes.update(at, scope)) == frames_of(scopes).update(at, scope@) by {
        assert(frames_of(scopes.update(at, scope)) =~= frames_of(scopes).update(at, scope@));
    }
}

impl<T> Scopes<T> {
    /// Whether the stack holds its root scope, and every scope on it holds
    /// each of its names once. Every stack is made so, and every operation
    /// keeps it so.
    pub closed spec fn wf(&self) -> bool {
        &&& self.scopes.len() >= 1
        &&& forall|at: int| 0 <= at < self.scopes.len() ==> (#[trigger] self.scopes[at]).wf()
    }

    /// A well-formed stack has at least one scope, the root.
    pub proof fn lemma_wf_has_root(&self)
        requires
            self.wf(),
        ensures
            self@.len() >= 1,
    {
    }

    /// A stack that holds the root scope, without bindings.
    pub fn new() -> (scopes: Self)
        ensures
            scopes@ == seq![Map::<Seq<char>, T>::empty()],
            scopes.wf(),
    {
        let mut scopes = Vec::new();
        scopes.push(Scope::new());
        let stack = Scopes { scopes };
        assert(stack@ =~= seq![Map::<Seq<char>, T>::empty()]);
        stack
    }

    /// The number of scopes on the stack.
    pub fn len(&self) -> (length: usize)
        ensures
            length == self@.len(),
    {
        self.scopes.len()
    }

    /// The index of the innermost scope that binds `name`.
    fn find(&self, name: &str) -> (found: Option<usize>)
        ensures
            match found {
                Some(at) => innermost(self@, name@) == Some(at as int) && at < self@.len(),
                None => innermost(self@, name@) is None,
            },
    {
        let mut below: usize = self.scopes.len();
        while below > 0
            invariant
                below <= self.scopes.len(),
                forall|above: int| below <= above < self@.len() ==> !self@[above].contains_key(name@),
            decreases below,
        {
            below -= 1;
            if self.scopes[below].get(name).is_some() {
                proof {
                    lemma_innermost_is(self@, name@, below as int);
                }
                return Some(below);
            }
        }
        proof {
            lemma_innermost(self@, name@);
        }
        None
    }

    /// Get a value out of the scopes: the value bound to `name` in the
    /// innermost scope that binds it.
    pub fn get<'a>(&'a self, name: &str) -> (value: Option<&'a T>)
        ensures
            match value {
                Some(value) => lookup(self@, name@) == Some(*value),
                None => lookup(self@, name@) is None,
            },
    {
        proof {
            lemma_innermost(self@, name@);
        }
        match self.find(name) {
            Some(at) => self.scopes[at].get(name),
            None => None,
        }
    }

    /// Clear the current scope: the innermost scope loses its bindings and
    /// stays on the stack.
    pub fn clear_current<S: Spanned>(&mut self, spanned: S) -> (result: Result<(), Internal>)
        ensures
            match result {
                Ok(_) => old(self)@.len() > 0 && final(self)@ == cleared(old(self)@),
                Err(error) => {
                    &&& old(self)@.len() == 0
                    &&& final(self)@ == old(self)@
                    &&& error.span() == spanned.spanned()
                    &&& error.message()@ == EXPECTED_SCOPE@
                },
            },
            old(self).wf() ==> final(self).wf() && result is Ok,
    {
        let length = self.scopes.len();
        if length == 0 {
            return Err(Internal::new(spanned, EXPECTED_SCOPE));
        }
        self.scopes[length - 1].clear();
        assert(self@ =~= cleared(old(self)@));
        Ok(())
    }

    /// Declare a value in the scope: `name` is bound to `value` in the
    /// innermost scope, replacing what it was bound to there.
    pub fn decl<S: Spanned>(&mut self, name: &str, value: T, spanned: S) -> (result: Result<
        (),
        Internal,
    >)
        ensures
            match result {
                Ok(_) => old(self)@.len() > 0 && final(self)@ == declared(old(self)@, name@, value),
                Err(error) => {
                    &&& old(self)@.len() == 0
                    &&& final(self)@ == old(self)@
                    &&& error.span() == spanned.spanned()
                    &&& error.message()@ == EXPECTED_SCOPE@
                },
            },
            old(self).wf() ==> final(self).wf() && result is Ok,
    {
        let length = self.scopes.len();
        if length == 0 {
            return Err(Internal::new(spanned, EXPECTED_SCOPE));
        }
        self.scopes[length - 1].insert(name, value);
        assert(self@ =~= declared(old(self)@, name@, value));
        Ok(())
    }

    /// Get the given variable, or the error that reports it as missing.
    pub fn get_name<'a, S: Spanned>(&'a self, name: &str, spanned: S) -> (result: Result<
        &'a T,
        ScopeError,
    >)
        ensures
            match result {
                Ok(value) => lookup(self@, name@) == Some(*value),
                Err(error) => {
                    &&& lookup(self@, name@) is None
                    &&& error.span() == spanned.spanned()
                    &&& error.kind().missing() == name@
                },
            },
    {
        match self.get(name) {
            Some(value) => Ok(value),
            None => Err(ScopeError::missing_local(spanned, name)),
        }
    }

    /// Get the given variable as mutable.
    ///
    /// The reference leads to the value bound in the innermost scope that
    /// binds `name`; what the caller leaves behind it is what `name` is bound
    /// to in that scope afterwards, and nothing else changes.
    pub fn get_name_mut<'a, S: Spanned>(&'a mut self, name: &str, spanned: S) -> (result: Result<
        &'a mut T,
        ScopeError,
    >)
        ensures
            match result {
                Ok(value) => {
                    &&& lookup(old(self)@, name@) == Some(*value)
                    &&& innermost(old(self)@, name@) matches Some(at)
                    &&& final(self)@ == old(self)@.update(
                        at,
                        old(self)@[at].insert(name@, *final(value)),
                    )
                },
                Err(error) => {
                    &&& lookup(old(self)@, name@) is None
                    &&& final(self)@ == old(self)@
                    &&& error.span() == spanned.spanned()
                    &&& error.kind().missing() == name@
                },
            },
            old(self).wf() ==> final(self).wf(),
    {
        match self.find(name) {
            Some(at) => {
                proof {
                    lemma_innermost(self@, name@);
                    lemma_frames_of_update(self.scopes@, at as int);
                }
                match self.scopes[at].get_mut(name) {
                    Some(value) => Ok(value),
                    None => Err(ScopeError::missing_local(spanned, name)),
                }
            },
            None => Err(ScopeError::missing_local(spanned, name)),
        }
    }

    /// Push a scope and return the guard associated with the scope.
    pub fn push(&mut self) -> (guard: ScopeGuard)
        ensures
            final(self)@ == pushed(old(self)@),
            made_for(final(self)@, guard),
            old(self).wf() ==> final(self).wf(),
    {
        let length = self.scopes.len();
        self.scopes.push(Scope::new());
        assert(self@ =~= pushed(old(self)@));
        ScopeGuard { length }
    }

    /// Pop the innermost scope, which `guard` must have been made for.
    ///
    /// The root scope is never removed: a pop on a stack that holds nothing
    /// above the root fails and leaves the stack as it is. Above the root,
    /// the innermost scope is removed before the guard is checked, so it is
    /// gone even when the guard does not match.
    pub fn pop<S: Spanned>(&mut self, spanned: S, guard: ScopeGuard) -> (result: Result<
        (),
        Internal,
    >)
        ensures
            final(self)@ == after_pop(old(self)@),
            old(self)@.len() >= 1 ==> final(self)@.len() >= 1,
            old(self)@.len() < 2 ==> result is Err,
            match result {
                Ok(_) => accepts(old(self)@, guard),
                Err(error) => {
                    &&& !accepts(old(self)@, guard)
                    &&& error.span() == spanned.spanned()
                    &&& error.message()@ == if old(self)@.len() == 0 {
                        EXPECTED_SCOPE_TO_POP@
                    } else {
                        SCOPE_LENGTH_MISMATCH@
                    }
                },
            },
            old(self).wf() ==> final(self).wf(),
    {
        let length = self.scopes.len();
        if length == 0 {
            return Err(Internal::new(spanned, EXPECTED_SCOPE_TO_POP));
        }
        if length == 1 {
            return Err(Internal::new(spanned, SCOPE_LENGTH_MISMATCH));
        }
        self.scopes.pop();
        assert(self@ =~= popped(old(self)@));
        if self.scopes.len() != guard.length {
            return Err(Internal::new(spanned, SCOPE_LENGTH_MISMATCH));
        }
        Ok(())
    }

    /// Get the last scope mutably.
    ///
    /// What the caller leaves behind the reference is the innermost scope
    /// afterwards; the scopes below it do not change.
    pub fn last_mut(&mut self) -> (last: Option<&mut Scope<T>>)
        ensures
            match last {
                Some(scope) => {
                    &&& old(self)@.len() > 0
                    &&& scope@ == old(self)@.last()
                    &&& final(self)@ == old(self)@.update(old(self)@.len() - 1, final(scope)@)
                    &&& old(self).wf() ==> scope.wf()
                    &&& old(self).wf() && final(scope).wf() ==> final(self).wf()
                },
                None => old(self)@.len() == 0 && final(self)@ == old(self)@ && (old(self).wf()
                    ==> final(self).wf()),
            },
    {
        let length = self.scopes.len();
        if length == 0 {
            return None;
        }
        proof {
            lemma_frames_of_update(self.scopes@, length - 1);
        }
        Some(&mut self.scopes[length - 1])
    }
}

impl<T> Default for Scopes<T> {
    fn default() -> (scopes: Self)
        ensures
            scopes@ == seq![Map::<Seq<char>, T>::empty()],
            scopes.wf(),
    {
        Scopes::new()
    }
}

} // verus!
