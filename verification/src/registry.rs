//! The column family registry.
//!
//! Maps namespace names to numbered handles. Identifiers are never reused:
//! dropping a column family retires its entry but keeps it in the list, so
//! a stale handle can be recognized and rejected rather than silently
//! addressing unrelated data.

use vstd::prelude::*;

verus! {

/// A handle to a registered column family. Cheap to copy; it names the
/// column family by its registry identifier.
#[derive(PartialEq, Eq, Structural, Clone, Copy, Debug)]
pub struct ColumnFamily {
    pub id: u64,
}

/// One registry entry: a namespace name, its identifier, and whether the
/// column family still exists.
pub struct CfEntry {
    pub name: String,
    pub id: u64,
    pub live: bool,
}

/// Some live entry carries `name`.
pub open spec fn live_name(es: Seq<CfEntry>, name: Seq<char>) -> bool {
    exists|i: int| 0 <= i < es.len() && es[i].live && es[i].name@ == name
}

/// The index of the live entry carrying `name`, where one exists.
pub open spec fn live_index(es: Seq<CfEntry>, name: Seq<char>) -> int {
    choose|i: int| 0 <= i < es.len() && es[i].live && es[i].name@ == name
}

/// The identifier registered for the live `name`.
pub open spec fn live_id(es: Seq<CfEntry>, name: Seq<char>) -> u64 {
    es[live_index(es, name)].id
}

/// Whether `id` identifies a column family that still exists.
pub open spec fn id_live(es: Seq<CfEntry>, id: u64) -> bool {
    exists|i: int| 0 <= i < es.len() && es[i].live && es[i].id == id
}

/// The registry owned by a database.
pub struct CfRegistry {
    pub entries: Vec<CfEntry>,
    pub next_id: u64,
}

impl CfRegistry {
    /// Validity: identifiers are distinct and below `next_id`, and at most
    /// one live entry carries any given name.
    pub open spec fn wf(self) -> bool {
        &&& forall|i: int, j: int|
            0 <= i < j < self.entries@.len() ==> (#[trigger] self.entries@[i].id)
                != (#[trigger] self.entries@[j].id)
        &&& forall|i: int|
            0 <= i < self.entries@.len() ==> (#[trigger] self.entries@[i].id) < self.next_id
        &&& forall|i: int, j: int|
            0 <= i < j < self.entries@.len() && (#[trigger] self.entries@[i]).live
                && (#[trigger] self.entries@[j]).live ==> self.entries@[i].name@
                != self.entries@[j].name@
    }

    /// An empty registry. Identifier 0 is reserved for the engine-level
    /// default namespace, so assignment starts at 1.
    pub fn empty() -> (r: CfRegistry)
        ensures
            r.wf(),
            r.entries@.len() == 0,
            r.next_id == 1,
    {
        CfRegistry { entries: Vec::new(), next_id: 1 }
    }

    /// A registry holding only the default namespace, with identifier 0.
    pub fn with_default() -> (r: CfRegistry)
        ensures
            r.wf(),
            r.entries@.len() == 1,
            r.entries@[0].name@ == "default"@,
            r.entries@[0].id == 0,
            r.entries@[0].live,
            r.next_id == 1,
    {
        let mut entries: Vec<CfEntry> = Vec::new();
        entries.push(CfEntry { name: "default".to_owned(), id: 0, live: true });
        CfRegistry { entries, next_id: 1 }
    }

    /// The index of the live entry named `name`, if any.
    fn find_live(&self, name: &str) -> (r: Option<usize>)
        requires
            self.wf(),
        ensures
            match r {
                Some(i) => 0 <= i < self.entries@.len() && self.entries@[i as int].live
                    && self.entries@[i as int].name@ == name@,
                None => !live_name(self.entries@, name@),
            },
    {
        let wanted = name.to_owned();
        let n = self.entries.len();
        let mut i: usize = 0;
        while i < n
            invariant
                0 <= i <= n,
                n == self.entries@.len(),
                wanted@ == name@,
                forall|j: int|
                    0 <= j < i ==> !((#[trigger] self.entries@[j]).live && self.entries@[j].name@
                        == name@),
            decreases n - i,
        {
            let entry = &self.entries[i];
            if entry.live && entry.name == wanted {
                return Some(i);
            }
            i = i + 1;
        }
        None
    }

    /// The handle registered for the live `name`, if any.
    pub fn handle_of(&self, name: &str) -> (r: Option<ColumnFamily>)
        requires
            self.wf(),
        ensures
            r is Some <==> live_name(self.entries@, name@),
            r is Some ==> r->Some_0.id == live_id(self.entries@, name@),
    {
        match self.find_live(name) {
            Some(i) => {
                proof {
                    let j = live_index(self.entries@, name@);
                    assert(live_name(self.entries@, name@));
                    assert(self.entries@[j].live && self.entries@[j].name@ == name@);
                    assert(j == i);
                }
                Some(ColumnFamily { id: self.entries[i].id })
            },
            None => None,
        }
    }

    /// Registers `name` under a fresh identifier. Fails exactly when a
    /// live entry already carries `name` or identifiers are exhausted.
    pub fn register(&mut self, name: &str) -> (r: Option<ColumnFamily>)
        requires
            old(self).wf(),
        ensures
            final(self).wf(),
            r is Some <==> !live_name(old(self).entries@, name@) && old(self).next_id < u64::MAX,
            r is Some ==> {
                &&& final(self).entries@.len() == old(self).entries@.len() + 1
                &&& final(self).entries@.take(old(self).entries@.len() as int) == old(
                    self,
                ).entries@
                &&& final(self).entries@.last().name@ == name@
                &&& final(self).entries@.last().id == old(self).next_id
                &&& final(self).entries@.last().live
                &&& final(self).next_id == old(self).next_id + 1
                &&& r->Some_0.id == old(self).next_id
            },
            r is None ==> *final(self) == *old(self),
    {
        match self.find_live(name) {
            Some(_) => None,
            None => {
                if self.next_id == u64::MAX {
                    return None;
                }
                let id = self.next_id;
                self.entries.push(CfEntry { name: name.to_owned(), id, live: true });
                self.next_id = id + 1;
                proof {
                    let es0 = old(self).entries@;
                    let es1 = self.entries@;
                    assert(es1.take(es0.len() as int) =~= es0);
                    assert forall|i: int, j: int|
                        0 <= i < j < es1.len() && (#[trigger] es1[i]).live
                            && (#[trigger] es1[j]).live implies es1[i].name@ != es1[j].name@ by {
                        if j == es1.len() - 1 {
                            assert(!live_name(es0, name@));
                            assert(es1[i] == es0[i]);
                            if es0[i].live && es0[i].name@ == name@ {
                                assert(live_name(es0, name@));
                            }
                        }
                    }
                }
                Some(ColumnFamily { id })
            },
        }
    }

    /// Retires the live entry named `name`. Returns whether one existed.
    pub fn retire(&mut self, name: &str) -> (r: bool)
        requires
            old(self).wf(),
        ensures
            final(self).wf(),
            r <==> live_name(old(self).entries@, name@),
            !r ==> *final(self) == *old(self),
            r ==> {
                &&& final(self).entries@.len() == old(self).entries@.len()
                &&& final(self).next_id == old(self).next_id
                &&& final(self).entries@ == old(self).entries@.update(
                    live_index(old(self).entries@, name@),
                    CfEntry {
                        name: old(self).entries@[live_index(old(self).entries@, name@)].name,
                        id: old(self).entries@[live_index(old(self).entries@, name@)].id,
                        live: false,
                    },
                )
            },
    {
        match self.find_live(name) {
            Some(i) => {
                let ghost es0 = self.entries@;
                let entry = &self.entries[i];
                let replacement = CfEntry { name: entry.name.clone(), id: entry.id, live: false };
                self.entries.set(i, replacement);
                proof {
                    let j = live_index(es0, name@);
                    assert(es0[j].live && es0[j].name@ == name@);
                    assert(j == i);
                    assert(self.entries@ =~= es0.update(
                        j,
                        CfEntry { name: es0[j].name, id: es0[j].id, live: false },
                    ));
                }
                true
            },
            None => false,
        }
    }

    /// Whether `id` identifies a still-existing column family.
    pub fn is_live(&self, id: u64) -> (r: bool)
        ensures
            r == id_live(self.entries@, id),
    {
        let n = self.entries.len();
        let mut i: usize = 0;
        while i < n
            invariant
                0 <= i <= n,
                n == self.entries@.len(),
                forall|j: int|
                    0 <= j < i ==> !((#[trigger] self.entries@[j]).live && self.entries@[j].id
                        == id),
            decreases n - i,
        {
            let entry = &self.entries[i];
            if entry.live && entry.id == id {
                return true;
            }
            i = i + 1;
        }
        false
    }
}

} // verus!
