//! The substitution context: a flat mapping from placeholder names to the
//! text that replaces them.

use vstd::prelude::*;

verus! {

/// The mapping that a list of bindings stands for. Where a name occurs more
/// than once, the binding nearest the front of the list is the one that counts.
pub open spec fn bindings(entries: Seq<(String, String)>) -> Map<Seq<char>, Seq<char>>
    decreases entries.len(),
{
    if entries.len() == 0 {
        Map::empty()
    } else {
        bindings(entries.drop_first()).insert(entries[0].0@, entries[0].1@)
    }
}

/// A name that none of the entries binds is not in the mapping.
pub proof fn lemma_unbound(entries: Seq<(String, String)>, name: Seq<char>)
    requires
        forall|j: int| 0 <= j < entries.len() ==> (#[trigger] entries[j]).0@ != name,
    ensures
        !bindings(entries).contains_key(name),
    decreases entries.len(),
{
    if entries.len() > 0 {
        let rest = entries.drop_first();
        assert forall|j: int| 0 <= j < rest.len() implies (#[trigger] rest[j]).0@ != name by {
            assert(rest[j] == entries[j + 1]);
        }
        lemma_unbound(rest, name);
    }
}

/// The first entry that binds a name decides its value.
pub proof fn lemma_first_binding(entries: Seq<(String, String)>, name: Seq<char>, at: int)
    requires
        0 <= at < entries.len(),
        entries[at].0@ == name,
        forall|j: int| 0 <= j < at ==> (#[trigger] entries[j]).0@ != name,
    ensures
        bindings(entries).contains_key(name),
        bindings(entries)[name] == entries[at].1@,
    decreases at,
{
    if at > 0 {
        let rest = entries.drop_first();
        assert forall|j: int| 0 <= j < at - 1 implies (#[trigger] rest[j]).0@ != name by {
            assert(rest[j] == entries[j + 1]);
        }
        assert(rest[at - 1] == entries[at]);
        lemma_first_binding(rest, name, at - 1);
    }
}

/// Overwriting the first entry that binds a name rebinds that name and
/// nothing else.
pub proof fn lemma_rebind(entries: Seq<(String, String)>, at: int, entry: (String, String))
    requires
        0 <= at < entries.len(),
        entries[at].0@ == entry.0@,
        forall|j: int| 0 <= j < at ==> (#[trigger] entries[j]).0@ != entry.0@,
    ensures
        bindings(entries.update(at, entry)) == bindings(entries).insert(entry.0@, entry.1@),
    decreases at,
{
    let updated = entries.update(at, entry);
    if at == 0 {
        assert(updated.drop_first() =~= entries.drop_first());
        assert(bindings(updated) =~= bindings(entries).insert(entry.0@, entry.1@));
    } else {
        let rest = entries.drop_first();
        assert forall|j: int| 0 <= j < at - 1 implies (#[trigger] rest[j]).0@ != entry.0@ by {
            assert(rest[j] == entries[j + 1]);
        }
        assert(rest[at - 1] == entries[at]);
        lemma_rebind(rest, at - 1, entry);
        assert(updated.drop_first() =~= rest.update(at - 1, entry));
        assert(updated[0] == entries[0]);
        assert(entries[0].0@ != entry.0@);
        assert(bindings(updated) =~= bindings(entries).insert(entry.0@, entry.1@));
    }
}

/// Appending a binding for a name that no entry binds yet adds that binding
/// and changes nothing else.
pub proof fn lemma_bind_new(entries: Seq<(String, String)>, entry: (String, String))
    requires
        forall|j: int| 0 <= j < entries.len() ==> (#[trigger] entries[j]).0@ != entry.0@,
    ensures
        bindings(entries.push(entry)) == bindings(entries).insert(entry.0@, entry.1@),
    decreases entries.len(),
{
    let grown = entries.push(entry);
    if entries.len() == 0 {
        assert(grown.drop_first() =~= entries);
        assert(bindings(grown) =~= bindings(entries).insert(entry.0@, entry.1@));
    } else {
        let rest = entries.drop_first();
        assert forall|j: int| 0 <= j < rest.len() implies (#[trigger] rest[j]).0@ != entry.0@ by {
            assert(rest[j] == entries[j + 1]);
        }
        lemma_bind_new(rest, entry);
        assert(grown.drop_first() =~= rest.push(entry));
        assert(grown[0] == entries[0]);
        assert(entries[0].0@ != entry.0@);
        assert(bindings(grown) =~= bindings(entries).insert(entry.0@, entry.1@));
    }
}

/// A flat mapping from placeholder name to substitution value. Names are
/// unique: binding a name again replaces its value.
pub struct Context {
    entries: Vec<(String, String)>,
}

impl View for Context {
    type V = Map<Seq<char>, Seq<char>>;

    closed spec fn view(&self) -> Map<Seq<char>, Seq<char>> {
        bindings(self.entries@)
    }
}

impl Context {
    /// The context that binds no name.
    pub fn new() -> (ctx: Context)
        ensures
            ctx@ == Map::<Seq<char>, Seq<char>>::empty(),
    {
        Context { entries: Vec::new() }
    }

    /// Index of the first entry that binds `name`, if there is one.
    fn position(&self, name: &String) -> (found: Option<usize>)
        ensures
            match found {
                Some(at) => {
                    &&& at < self.entries@.len()
                    &&& self.entries@[at as int].0@ == name@
                    &&& forall|j: int| 0 <= j < at ==> (#[trigger] self.entries@[j]).0@ != name@
                },
                None => forall|j: int|
                    0 <= j < self.entries@.len() ==> (#[trigger] self.entries@[j]).0@ != name@,
            },
    {
        let mut i: usize = 0;
        while i < self.entries.len()
            invariant
                i <= self.entries@.len(),
                forall|j: int| 0 <= j < i ==> (#[trigger] self.entries@[j]).0@ != name@,
            decreases self.entries@.len() - i,
        {
            if self.entries[i].0 == *name {
                return Some(i);
            }
            i += 1;
        }
        None
    }

    /// Binds `name` to `value`, replacing an earlier binding of the same name.
    pub fn insert(&mut self, name: String, value: String)
        ensures
            final(self)@ == old(self)@.insert(name@, value@),
    {
        match self.position(&name) {
            Some(at) => {
                proof {
                    lemma_rebind(self.entries@, at as int, (name, value));
                }
                self.entries.set(at, (name, value));
            },
            None => {
                proof {
                    lemma_bind_new(self.entries@, (name, value));
                }
                self.entries.push((name, value));
            },
        }
    }

    /// The value bound to `name`, or `None` where the context does not bind it.
    pub fn get(&self, name: &str) -> (value: Option<&String>)
        ensures
            match value {
                Some(v) => self@.contains_key(name@) && v@ == self@[name@],
                None => !self@.contains_key(name@),
            },
    {
        let wanted = name.to_owned();
        match self.position(&wanted) {
            Some(at) => {
                proof {
                    lemma_first_binding(self.entries@, name@, at as int);
                }
                Some(&self.entries[at].1)
            },
            None => {
                proof {
                    lemma_unbound(self.entries@, name@);
                }
                None
            },
        }
    }
}

} // verus!
