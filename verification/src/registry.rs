//! The registry: who is live, by name.
//!
//! A registry is owned by whoever serves its mailbox and is changed by one
//! request at a time: every operation that changes it takes it by `&mut`.
//! That is all that keeps two changes apart; there is no lock.

use crate::name::Name;
use crate::request::{lemma_replay_one_more, replay, request_views, Change, Notice, Request};
use vstd::prelude::*;

verus! {

/// One line of the registry: a name and the handle stored under it.
struct Entry<H> {
    name: Name,
    handle: H,
}

/// The names of a sequence of entries, in their order.
spec fn names_of<H>(entries: Seq<Entry<H>>) -> Seq<Seq<char>> {
    entries.map_values(|e: Entry<H>| e.name@)
}

/// The map that a sequence of entries stands for, when no name occurs twice.
spec fn map_of<H>(entries: Seq<Entry<H>>) -> Map<Seq<char>, H> {
    Map::new(
        |n: Seq<char>| names_of(entries).contains(n),
        |n: Seq<char>| entries[names_of(entries).index_of(n)].handle,
    )
}

/// A map from names to handles. A handle is whatever the runtime uses to
/// reach a worker; the registry stores it and never looks inside.
///
/// The registry is viewed as a finite `Map` from the text of a name to the
/// handle stored under it.
pub struct Registry<H> {
    entries: Vec<Entry<H>>,
}

impl<H> View for Registry<H> {
    type V = Map<Seq<char>, H>;

    closed spec fn view(&self) -> Map<Seq<char>, H> {
        map_of(self.entries@)
    }
}

proof fn lemma_map_of<H>(entries: Seq<Entry<H>>)
    requires
        names_of(entries).no_duplicates(),
    ensures
        map_of(entries).dom().finite(),
        map_of(entries).len() == entries.len(),
        forall|i: int|
            0 <= i < entries.len() ==> map_of(entries).contains_key(#[trigger] entries[i].name@)
                && map_of(entries)[entries[i].name@] == entries[i].handle,
        forall|n: Seq<char>| #[trigger]
            map_of(entries).contains_key(n) <==> names_of(entries).contains(n),
{
    let names = names_of(entries);
    assert(map_of(entries).dom() =~= names.to_set());
    names.unique_seq_to_set();
    vstd::seq_lib::seq_to_set_is_finite(names);
    assert forall|i: int| 0 <= i < entries.len() implies map_of(entries).contains_key(
        #[trigger] entries[i].name@,
    ) && map_of(entries)[entries[i].name@] == entries[i].handle by {
        assert(names[i] == entries[i].name@);
        let j = names.index_of(entries[i].name@);
        assert(0 <= j < names.len() && names[j] == names[i]);
    }
}

proof fn lemma_replace_entry<H>(before: Seq<Entry<H>>, i: int, entry: Entry<H>)
    requires
        names_of(before).no_duplicates(),
        0 <= i < before.len(),
        before[i].name@ == entry.name@,
    ensures
        names_of(before.update(i, entry)) == names_of(before),
        map_of(before.update(i, entry)) == map_of(before).insert(entry.name@, entry.handle),
{
    let after = before.update(i, entry);
    assert(after.len() == before.len());
    assert(names_of(after) =~= names_of(before));
    lemma_map_of(before);
    lemma_map_of(after);
    assert forall|n: Seq<char>| #[trigger]
        map_of(after).contains_key(n) implies map_of(after)[n] == map_of(before).insert(
        entry.name@,
        entry.handle,
    )[n] by {
        let j = names_of(after).index_of(n);
        assert(0 <= j < after.len() && names_of(after)[j] == n);
        assert(after[j].name@ == n);
        if j != i {
            assert(before[j].name@ == n);
            assert(names_of(before)[j] == n);
            assert(names_of(before)[i] == entry.name@);
        }
    }
    assert(map_of(after).contains_key(entry.name@)) by {
        assert(after[i].name@ == entry.name@);
    }
    assert(map_of(after) =~= map_of(before).insert(entry.name@, entry.handle));
}

proof fn lemma_push_entry<H>(before: Seq<Entry<H>>, entry: Entry<H>)
    requires
        names_of(before).no_duplicates(),
        !names_of(before).contains(entry.name@),
    ensures
        names_of(before.push(entry)).no_duplicates(),
        map_of(before.push(entry)) == map_of(before).insert(entry.name@, entry.handle),
{
    let after = before.push(entry);
    assert(names_of(after) =~= names_of(before).push(entry.name@));
    assert forall|i: int, j: int|
        0 <= i < names_of(after).len() && 0 <= j < names_of(after).len() && i != j implies names_of(
        after,
    )[i] != names_of(after)[j] by {
        if i < before.len() {
            assert(names_of(before)[i] == names_of(after)[i]);
        }
        if j < before.len() {
            assert(names_of(before)[j] == names_of(after)[j]);
        }
    }
    lemma_map_of(before);
    lemma_map_of(after);
    assert forall|n: Seq<char>|
        map_of(after).contains_key(n) <==> map_of(before).insert(
            entry.name@,
            entry.handle,
        ).contains_key(n) by {
        if names_of(after).contains(n) {
            let j = names_of(after).index_of(n);
            assert(0 <= j < after.len() && names_of(after)[j] == n);
            if j < before.len() {
                assert(names_of(before)[j] == n);
            }
        }
        if names_of(before).contains(n) {
            let j = names_of(before).index_of(n);
            assert(0 <= j < before.len() && names_of(before)[j] == n);
            assert(names_of(after)[j] == n);
        }
        if n == entry.name@ {
            assert(names_of(after)[before.len() as int] == n);
        }
    }
    assert forall|n: Seq<char>| #[trigger]
        map_of(after).contains_key(n) implies map_of(after)[n] == map_of(before).insert(
        entry.name@,
        entry.handle,
    )[n] by {
        let j = names_of(after).index_of(n);
        assert(0 <= j < after.len() && names_of(after)[j] == n);
        assert(after[j].name@ == n);
        if j < before.len() {
            assert(before[j].name@ == n);
            assert(names_of(before)[j] == n);
        }
    }
    assert(map_of(after) =~= map_of(before).insert(entry.name@, entry.handle));
}

proof fn lemma_remove_entry<H>(before: Seq<Entry<H>>, i: int)
    requires
        names_of(before).no_duplicates(),
        0 <= i < before.len(),
    ensures
        names_of(before.remove(i)).no_duplicates(),
        map_of(before.remove(i)) == map_of(before).remove(before[i].name@),
{
    let after = before.remove(i);
    let gone = before[i].name@;
    assert(names_of(after) =~= names_of(before).remove(i));
    assert forall|a: int, b: int|
        0 <= a < names_of(after).len() && 0 <= b < names_of(after).len() && a != b implies names_of(
        after,
    )[a] != names_of(after)[b] by {
        let a0 = if a < i { a } else { a + 1 };
        let b0 = if b < i { b } else { b + 1 };
        assert(names_of(after)[a] == names_of(before)[a0]);
        assert(names_of(after)[b] == names_of(before)[b0]);
    }
    lemma_map_of(before);
    lemma_map_of(after);
    assert forall|n: Seq<char>|
        map_of(after).contains_key(n) <==> map_of(before).remove(gone).contains_key(n) by {
        if names_of(after).contains(n) {
            let j = names_of(after).index_of(n);
            assert(0 <= j < after.len() && names_of(after)[j] == n);
            let j0 = if j < i { j } else { j + 1 };
            assert(names_of(before)[j0] == n);
            assert(names_of(before)[i] == gone);
        }
        if names_of(before).contains(n) && n != gone {
            let j = names_of(before).index_of(n);
            assert(0 <= j < before.len() && names_of(before)[j] == n);
            assert(names_of(before)[i] == gone);
            let j1 = if j < i { j } else { j - 1 };
            assert(names_of(after)[j1] == n);
        }
    }
    assert forall|n: Seq<char>| #[trigger]
        map_of(after).contains_key(n) implies map_of(after)[n] == map_of(before).remove(gone)[n] by {
        let j = names_of(after).index_of(n);
        assert(0 <= j < after.len() && names_of(after)[j] == n);
        assert(after[j].name@ == n);
        let j0 = if j < i { j } else { j + 1 };
        assert(before[j0].name@ == n);
    }
    assert(map_of(after) =~= map_of(before).remove(gone));
}

impl<H> Default for Registry<H> {
    fn default() -> (registry: Registry<H>)
        ensures
            registry@ == Map::<Seq<char>, H>::empty(),
    {
        Registry::new()
    }
}

impl<H> Registry<H> {
    #[verifier::type_invariant]
    spec fn no_name_twice(self) -> bool {
        names_of(self.entries@).no_duplicates()
    }

    /// The empty registry.
    pub fn new() -> (registry: Registry<H>)
        ensures
            registry@ == Map::<Seq<char>, H>::empty(),
    {
        let registry = Registry { entries: Vec::new() };
        assert(registry@ =~= Map::<Seq<char>, H>::empty());
        registry
    }

    /// Where `name` stands among the entries, if it does.
    fn position(&self, name: &Name) -> (found: Option<usize>)
        ensures
            match found {
                Some(i) => i < self.entries@.len() && self.entries@[i as int].name@ == name@,
                None => !names_of(self.entries@).contains(name@),
            },
    {
        let mut i: usize = 0;
        while i < self.entries.len()
            invariant
                i <= self.entries@.len(),
                forall|j: int| 0 <= j < i ==> self.entries@[j].name@ != name@,
            decreases self.entries@.len() - i,
        {
            if self.entries[i].name == *name {
                return Some(i);
            }
            i = i + 1;
        }
        None
    }

    /// Stores `handle` under `name`, in place of the handle that was stored
    /// under it, if there was one. Returns the number of names then in the
    /// registry.
    pub fn register(&mut self, name: Name, handle: H) -> (size: usize)
        ensures
            final(self)@ == old(self)@.insert(name@, handle),
            final(self)@.dom().finite(),
            size == final(self)@.len(),
            size == if old(self)@.contains_key(name@) {
                old(self)@.len()
            } else {
                old(self)@.len() + 1
            },
    {
        proof {
            use_type_invariant(&*self);
            lemma_map_of(self.entries@);
        }
        let found = self.position(&name);
        let ghost text = name@;
        let ghost before = self.entries@;
        let mut entries: Vec<Entry<H>> = Vec::new();
        std::mem::swap(&mut entries, &mut self.entries);
        match found {
            Some(i) => {
                entries.set(i, Entry { name, handle });
                proof {
                    lemma_replace_entry(before, i as int, entries@[i as int]);
                    assert(entries@ =~= before.update(i as int, entries@[i as int]));
                }
            },
            None => {
                entries.push(Entry { name, handle });
                proof {
                    lemma_push_entry(before, entries@.last());
                    assert(entries@ =~= before.push(entries@.last()));
                }
            },
        }
        proof {
            lemma_map_of(entries@);
        }
        self.entries = entries;
        self.entries.len()
    }

    /// Takes `name` out of the registry; where it is not there, nothing
    /// changes. Returns the number of names then in the registry.
    pub fn unregister(&mut self, name: &Name) -> (size: usize)
        ensures
            final(self)@ == old(self)@.remove(name@),
            final(self)@.dom().finite(),
            size == final(self)@.len(),
            size == if old(self)@.contains_key(name@) {
                old(self)@.len() - 1
            } else {
                old(self)@.len() as int
            },
    {
        proof {
            use_type_invariant(&*self);
            lemma_map_of(self.entries@);
        }
        let found = self.position(name);
        let ghost before = self.entries@;
        let mut entries: Vec<Entry<H>> = Vec::new();
        std::mem::swap(&mut entries, &mut self.entries);
        match found {
            Some(i) => {
                entries.remove(i);
                proof {
                    lemma_remove_entry(before, i as int);
                }
            },
            None => {
                proof {
                    assert(map_of(before).remove(name@) =~= map_of(before));
                }
            },
        }
        proof {
            lemma_map_of(entries@);
        }
        self.entries = entries;
        self.entries.len()
    }

    /// Serves one request and reports it.
    pub fn deliver(&mut self, request: Request<H>) -> (notice: Notice)
        ensures
            final(self)@ == request@.apply(old(self)@),
            final(self)@.dom().finite(),
            notice.change == request@.change(),
            notice.name@ == request@.subject(),
            notice.size == final(self)@.len(),
    {
        match request {
            Request::Register { name, handle } => {
                let reported = name.clone();
                let size = self.register(name, handle);
                Notice { change: Change::Registered, name: reported, size }
            },
            Request::Unregister { name } => {
                let size = self.unregister(&name);
                Notice { change: Change::Removed, name, size }
            },
        }
    }

    /// Serves `requests` in their order and reports each of them.
    pub fn process(&mut self, requests: Vec<Request<H>>) -> (notices: Vec<Notice>)
        ensures
            final(self)@ == replay(old(self)@, request_views(requests@)),
            final(self)@.dom().finite(),
            notices@.len() == requests@.len(),
            forall|i: int|
                0 <= i < requests@.len() ==> {
                    &&& (#[trigger] notices@[i]).change == requests@[i]@.change()
                    &&& notices@[i].name@ == requests@[i]@.subject()
                    &&& notices@[i].size == replay(
                        old(self)@,
                        request_views(requests@).take(i + 1),
                    ).len()
                },
    {
        let ghost all = request_views(requests@);
        let ghost start = self@;
        let mut notices: Vec<Notice> = Vec::new();
        proof {
            use_type_invariant(&*self);
            lemma_map_of(self.entries@);
            assert(all.take(0) =~= Seq::empty());
        }
        for request in it: requests
            invariant
                all == request_views(it.seq()),
                self@ == replay(start, all.take(it.index() as int)),
                self@.dom().finite(),
                notices@.len() == it.index(),
                forall|i: int|
                    0 <= i < it.index() ==> {
                        &&& (#[trigger] notices@[i]).change == all[i].change()
                        &&& notices@[i].name@ == all[i].subject()
                        &&& notices@[i].size == replay(start, all.take(i + 1)).len()
                    },
        {
            proof {
                let n = it.index() as int;
                assert(all[n] == request@);
                assert(all.take(n + 1) =~= all.take(n).push(all[n]));
                lemma_replay_one_more(start, all.take(n), all[n]);
            }
            let notice = self.deliver(request);
            notices.push(notice);
        }
        assert(all.take(all.len() as int) =~= all);
        notices
    }

    /// The number of names in the registry.
    pub fn len(&self) -> (size: usize)
        ensures
            size == self@.len(),
            self@.dom().finite(),
    {
        proof {
            use_type_invariant(self);
            lemma_map_of(self.entries@);
        }
        self.entries.len()
    }

    /// Whether the registry holds no name.
    pub fn is_empty(&self) -> (empty: bool)
        ensures
            empty == (self@.len() == 0),
    {
        self.len() == 0
    }

    /// Whether `name` is in the registry.
    pub fn contains(&self, name: &Name) -> (present: bool)
        ensures
            present == self@.contains_key(name@),
    {
        proof {
            use_type_invariant(self);
            lemma_map_of(self.entries@);
        }
        self.position(name).is_some()
    }

    /// The handle stored under `name`, if there is one.
    pub fn get(&self, name: &Name) -> (handle: Option<&H>)
        ensures
            handle == if self@.contains_key(name@) {
                Some(&self@[name@])
            } else {
                None
            },
    {
        proof {
            use_type_invariant(self);
            lemma_map_of(self.entries@);
        }
        match self.position(name) {
            Some(i) => Some(&self.entries[i].handle),
            None => None,
        }
    }
}

} // verus!
