//! A single frame of local bindings.

use vstd::prelude::*;
use crate::shared::text::str_eq;

verus! {

/// The bindings held by a list of entries: where a name occurs more than
/// once, the earliest entry is the one that counts.
spec fn bindings<T>(entries: Seq<(String, T)>) -> Map<Seq<char>, T>
    decreases entries.len(),
{
    if entries.len() == 0 {
        Map::empty()
    } else {
        bindings(entries.drop_first()).insert(entries[0].0@, entries[0].1)
    }
}

/// Whether some entry before position `upto` carries `name`.
spec fn named_before<T>(entries: Seq<(String, T)>, name: Seq<char>, upto: int) -> bool {
    exists|k: int| 0 <= k < upto && #[trigger] entries[k].0@ == name
}

/// Whether no two entries carry the same name.
spec fn distinct<T>(entries: Seq<(String, T)>) -> bool {
    forall|a: int, b: int| 0 <= a < b < entries.len() ==> entries[a].0@ != entries[b].0@
}

/// A name is bound exactly when some entry carries it.
proof fn lemma_bindings_dom<T>(entries: Seq<(String, T)>, name: Seq<char>)
    ensures
        bindings(entries).contains_key(name) <==> named_before(entries, name, entries.len() as int),
    decreases entries.len(),
{
    if entries.len() > 0 {
        let rest = entries.drop_first();
        lemma_bindings_dom(rest, name);
        if named_before(rest, name, rest.len() as int) {
            let k = choose|k: int| 0 <= k < rest.len() && #[trigger] rest[k].0@ == name;
            assert(entries[k + 1].0@ == name);
        }
        if named_before(entries, name, entries.len() as int) && entries[0].0@ != name {
            let k = choose|k: int| 0 <= k < entries.len() && #[trigger] entries[k].0@ == name;
            assert(rest[k - 1].0@ == name);
        }
    }
}

/// The earliest entry that carries a name holds the value bound to it.
proof fn lemma_bindings_first<T>(entries: Seq<(String, T)>, at: int)
    requires
        0 <= at < entries.len(),
        !named_before(entries, entries[at].0@, at),
    ensures
        bindings(entries).contains_key(entries[at].0@),
        bindings(entries)[entries[at].0@] == entries[at].1,
    decreases at,
{
    if at > 0 {
        let rest = entries.drop_first();
        assert(entries[0].0@ != entries[at].0@);
        assert forall|k: int| 0 <= k < at - 1 implies #[trigger] rest[k].0@ != rest[at - 1].0@ by {
            assert(entries[k + 1].0@ != entries[at].0@);
        }
        lemma_bindings_first(rest, at - 1);
    }
}

/// Replacing the value of the earliest entry that carries a name rebinds
/// that name and nothing else.
proof fn lemma_bindings_update<T>(entries: Seq<(String, T)>, at: int, entry: (String, T))
    requires
        0 <= at < entries.len(),
        entry.0@ == entries[at].0@,
        !named_before(entries, entries[at].0@, at),
    ensures
        bindings(entries.update(at, entry)) == bindings(entries).insert(entry.0@, entry.1),
    decreases at,
{
    let changed = entries.update(at, entry);
    if at == 0 {
        assert(changed.drop_first() =~= entries.drop_first());
        assert(bindings(changed) =~= bindings(entries).insert(entry.0@, entry.1));
    } else {
        let rest = entries.drop_first();
        assert(entries[0].0@ != entries[at].0@);
        assert forall|k: int| 0 <= k < at - 1 implies #[trigger] rest[k].0@ != rest[at - 1].0@ by {
            assert(entries[k + 1].0@ != entries[at].0@);
        }
        lemma_bindings_update(rest, at - 1, entry);
        assert(changed.drop_first() =~= rest.update(at - 1, entry));
        assert(bindings(changed) =~= bindings(entries).insert(entry.0@, entry.1));
    }
}

/// Appending an entry under a name that no entry carries binds that name
/// and nothing else.
proof fn lemma_bindings_push<T>(entries: Seq<(String, T)>, entry: (String, T))
    requires
        !named_before(entries, entry.0@, entries.len() as int),
    ensures
        bindings(entries.push(entry)) == bindings(entries).insert(entry.0@, entry.1),
    decreases entries.len(),
{
    let grown = entries.push(entry);
    if entries.len() == 0 {
        assert(grown.drop_first() =~= entries);
        assert(bindings(grown.drop_first()) =~= Map::<Seq<char>, T>::empty());
        assert(bindings(grown) =~= bindings(entries).insert(entry.0@, entry.1));
    } else {
        let rest = entries.drop_first();
        assert(entries[0].0@ != entry.0@);
        assert forall|k: int| 0 <= k < rest.len() implies #[trigger] rest[k].0@ != entry.0@ by {
            assert(entries[k + 1].0@ != entry.0@);
        }
        lemma_bindings_push(rest, entry);
        assert(grown.drop_first() =~= rest.push(entry));
        assert(bindings(grown) =~= bindings(entries).insert(entry.0@, entry.1));
    }
}

/// One lexical nesting level: a mapping from identifiers to bound values.
///
/// A name is bound at most once; declaring it again replaces the value.
#[derive(Debug)]
pub struct Scope<T> {
    /// Locals in the scope.
    locals: Vec<(String, T)>,
}

impl<T> View for Scope<T> {
    type V = Map<Seq<char>, T>;

    closed spec fn view(&self) -> Map<Seq<char>, T> {
        bindings(self.locals@)
    }
}

impl<T> Scope<T> {
    /// Whether the scope holds each of its names once. Every scope is made
    /// so, and every operation keeps it so: a name that is declared again
    /// takes the place of its earlier binding.
    pub closed spec fn wf(&self) -> bool {
        distinct(self.locals@)
    }

    /// A scope without bindings.
    pub fn new() -> (scope: Self)
        ensures
            scope@ == Map::<Seq<char>, T>::empty(),
            scope.wf(),
    {
        Scope { locals: Vec::new() }
    }

    /// The position of the entry that binds `name`, if it is bound.
    fn position(&self, name: &str) -> (found: Option<usize>)
        ensures
            match found {
                Some(at) => {
                    &&& at < self.locals.len()
                    &&& self.locals[at as int].0@ == name@
                    &&& !named_before(self.locals@, name@, at as int)
                },
                None => !self@.contains_key(name@),
            },
    {
        let mut at: usize = 0;
        while at < self.locals.len()
            invariant
                at <= self.locals.len(),
                !named_before(self.locals@, name@, at as int),
            decreases self.locals.len() - at,
        {
            if str_eq(self.locals[at].0.as_str(), name) {
                return Some(at);
            }
            at += 1;
        }
        proof {
            lemma_bindings_dom(self.locals@, name@);
        }
        None
    }

    /// The value bound to `name` in this scope.
    pub fn get(&self, name: &str) -> (value: Option<&T>)
        ensures
            match value {
                Some(value) => self@.contains_key(name@) && *value == self@[name@],
                None => !self@.contains_key(name@),
            },
    {
        match self.position(name) {
            Some(at) => {
                proof {
                    lemma_bindings_first(self.locals@, at as int);
                }
                Some(&self.locals[at].1)
            },
            None => None,
        }
    }

    /// The value bound to `name` in this scope, for updating in place.
    ///
    /// Whatever the caller leaves behind the reference is what `name` is
    /// bound to afterwards; no other binding changes.
    pub fn get_mut(&mut self, name: &str) -> (value: Option<&mut T>)
        ensures
            match value {
                Some(value) => {
                    &&& old(self)@.contains_key(name@)
                    &&& *value == old(self)@[name@]
                    &&& final(self)@ == old(self)@.insert(name@, *final(value))
                },
                None => !old(self)@.contains_key(name@) && final(self)@ == old(self)@,
            },
            old(self).wf() ==> final(self).wf(),
    {
        match self.position(name) {
            Some(at) => {
                proof {
                    lemma_bindings_first(self.locals@, at as int);
                    let entries = self.locals@;
                    assert forall|entry: (String, T)|
                        entry.0@ == name@ && distinct(entries) implies #[trigger] distinct(
                        entries.update(at as int, entry),
                    ) by {
                        let changed = entries.update(at as int, entry);
                        assert forall|a: int, b: int| 0 <= a < b < changed.len() implies changed[a].0@
                            != changed[b].0@ by {
                            assert(changed[a].0@ == entries[a].0@);
                            assert(changed[b].0@ == entries[b].0@);
                        }
                    }
                    assert forall|entry: (String, T)| entry.0@ == name@ implies #[trigger] bindings(
                        entries.update(at as int, entry),
                    ) == bindings(entries).insert(name@, entry.1) by {
                        lemma_bindings_update(entries, at as int, entry);
                    }
                }
                Some(&mut self.locals[at].1)
            },
            None => None,
        }
    }

    /// Binds `name` to `value`, and returns the value it was bound to before.
    pub fn insert(&mut self, name: &str, value: T) -> (previous: Option<T>)
        ensures
            final(self)@ == old(self)@.insert(name@, value),
            match previous {
                Some(previous) => old(self)@.contains_key(name@) && previous == old(self)@[name@],
                None => !old(self)@.contains_key(name@),
            },
            old(self).wf() ==> final(self).wf(),
    {
        match self.position(name) {
            Some(at) => {
                proof {
                    lemma_bindings_first(self.locals@, at as int);
                }
                let ghost before = self.locals@;
                let mut value = value;
                core::mem::swap(&mut self.locals[at].1, &mut value);
                proof {
                    lemma_bindings_update(before, at as int, self.locals@[at as int]);
                    assert(self.locals@ =~= before.update(at as int, self.locals@[at as int]));
                    if distinct(before) {
                        assert forall|a: int, b: int| 0 <= a < b < self.locals@.len() implies self.locals@[a].0@
                            != self.locals@[b].0@ by {
                            assert(self.locals@[a].0@ == before[a].0@);
                            assert(self.locals@[b].0@ == before[b].0@);
                        }
                    }
                }
                Some(value)
            },
            None => {
                proof {
                    lemma_bindings_dom(self.locals@, name@);
                }
                let ghost before = self.locals@;
                let entry = (name.to_owned(), value);
                proof {
                    lemma_bindings_push(before, entry);
                    if distinct(before) {
                        let grown = before.push(entry);
                        assert forall|a: int, b: int| 0 <= a < b < grown.len() implies grown[a].0@
                            != grown[b].0@ by {
                            if b < before.len() {
                                assert(grown[a].0@ == before[a].0@);
                                assert(grown[b].0@ == before[b].0@);
                            } else {
                                assert(before[a].0@ != entry.0@);
                            }
                        }
                    }
                }
                self.locals.push(entry);
                None
            },
        }
    }

    /// Removes every binding.
    pub fn clear(&mut self)
        ensures
            final(self)@ == Map::<Seq<char>, T>::empty(),
            final(self).wf(),
    {
        self.locals.clear();
    }
}

impl<T> Default for Scope<T> {
    fn default() -> (scope: Self)
        ensures
            scope@ == Map::<Seq<char>, T>::empty(),
            scope.wf(),
    {
        Scope::new()
    }
}

} // verus!
