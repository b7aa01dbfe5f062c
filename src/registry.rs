//! The server's registry of connected clients: who is connected, under what
//! name. Names are unique among registered clients at all times.

use vstd::prelude::*;
use crate::messages::{Message, MessageView};

verus! {

/// One registered client.
struct Entry {
    id: u64,
    name: String,
}

/// The registry: connection identity to display name.
pub struct Registry {
    entries: Vec<Entry>,
    model: Ghost<Map<u64, Seq<char>>>,
}

/// One message addressed to one connection.
#[derive(Debug, Clone, PartialEq, Eq)]
pub struct Delivery {
    pub to: u64,
    pub message: Message,
}

impl View for Delivery {
    type V = (u64, MessageView);

    open spec fn view(&self) -> (u64, MessageView) {
        (self.to, self.message@)
    }
}

/// Why a connection could not be registered.
#[derive(Debug, Clone, Copy, PartialEq, Eq, Structural)]
pub enum RegisterError {
    /// That identity is registered already.
    IdentityTaken,
    /// Another registered client holds that name.
    NameTaken,
}

/// The views of a sequence of deliveries.
pub open spec fn deliveries_view(ds: Seq<Delivery>) -> Seq<(u64, MessageView)> {
    ds.map_values(|d: Delivery| d@)
}

/// No two registered identities hold equal names.
pub open spec fn names_unique(m: Map<u64, Seq<char>>) -> bool {
    forall|a: u64, b: u64|
        #![trigger m[a], m[b]]
        m.contains_key(a) && m.contains_key(b) && a != b ==> m[a] != m[b]
}

/// Some registered identity other than `id` holds `name`.
pub open spec fn taken_by_other(m: Map<u64, Seq<char>>, id: u64, name: Seq<char>) -> bool {
    exists|other: u64| #![trigger m[other]] m.contains_key(other) && other != id && m[other] == name
}

/// The answer to a request by `id` for `name`: reason 0 for an empty name,
/// reason 1 for a name that another registered identity holds.
pub open spec fn validity(m: Map<u64, Seq<char>>, id: u64, name: Seq<char>) -> Result<(), u8> {
    if name.len() == 0 {
        Err(0)
    } else if taken_by_other(m, id, name) {
        Err(1)
    } else {
        Ok(())
    }
}

/// `ds` hands `msg` once to every identity registered in `m` but `exclude`,
/// and to nobody else.
pub open spec fn is_broadcast(
    ds: Seq<(u64, MessageView)>,
    m: Map<u64, Seq<char>>,
    msg: MessageView,
    exclude: Option<u64>,
) -> bool {
    &&& forall|i: int| 0 <= i < ds.len() ==> (#[trigger] ds[i]).1 == msg
    &&& forall|i: int, j: int| 0 <= i < j < ds.len() ==> (#[trigger] ds[i]).0 != (#[trigger] ds[j]).0
    &&& forall|i: int| 0 <= i < ds.len() ==> m.contains_key((#[trigger] ds[i]).0) && exclude != Some(ds[i].0)
    &&& forall|id: u64| #[trigger] m.contains_key(id) && exclude != Some(id) ==> exists|i: int| 0 <= i < ds.len() && (#[trigger] ds[i]).0 == id
}

/// A copy of a message.
fn copy_message(m: &Message) -> (r: Message)
    ensures
        r@ == m@,
{
    match m {
        Message::NameAssignment(s) => Message::NameAssignment(s.clone()),
        Message::ChatMessage(s) => Message::ChatMessage(s.clone()),
        Message::ChatMessageError(e) => Message::ChatMessageError(*e),
        Message::NameChangeRequest(s) => Message::NameChangeRequest(s.clone()),
        Message::NameChangeApproval => Message::NameChangeApproval,
        Message::NameChangeDenial(r) => Message::NameChangeDenial(*r),
        Message::Disconnect => Message::Disconnect,
    }
}

impl View for Registry {
    type V = Map<u64, Seq<char>>;

    closed spec fn view(&self) -> Map<u64, Seq<char>> {
        self.model@
    }
}

impl Registry {
    /// The registry is consistent and its names are unique.
    pub closed spec fn wf(&self) -> bool {
        &&& forall|i: int, j: int|
            0 <= i < j < self.entries@.len() ==> (#[trigger] self.entries@[i]).id != (
            #[trigger] self.entries@[j]).id
        &&& forall|i: int|
            0 <= i < self.entries@.len() ==> self.model@.contains_key(
                (#[trigger] self.entries@[i]).id,
            ) && self.model@[self.entries@[i].id] == self.entries@[i].name@
        &&& forall|id: u64| #[trigger]
            self.model@.contains_key(id) ==> exists|i: int|
                0 <= i < self.entries@.len() && (#[trigger] self.entries@[i]).id == id
        &&& names_unique(self.model@)
    }

    /// An empty registry.
    pub fn new() -> (r: Registry)
        ensures
            r.wf(),
            r@ == Map::<u64, Seq<char>>::empty(),
    {
        Registry { entries: Vec::new(), model: Ghost(Map::empty()) }
    }

    /// Where `id` stands in the entries, if it is registered.
    fn find(&self, id: u64) -> (r: Option<usize>)
        requires
            self.wf(),
        ensures
            match r {
                Some(i) => i < self.entries@.len() && self.entries@[i as int].id == id,
                None => !self@.contains_key(id),
            },
    {
        let mut i: usize = 0;
        while i < self.entries.len()
            invariant
                self.wf(),
                0 <= i <= self.entries@.len(),
                forall|k: int| 0 <= k < i ==> (#[trigger] self.entries@[k]).id != id,
            decreases self.entries@.len() - i,
        {
            if self.entries[i].id == id {
                return Some(i);
            }
            i = i + 1;
        }
        None
    }

    /// Whether `id` is registered.
    pub fn contains(&self, id: u64) -> (r: bool)
        requires
            self.wf(),
        ensures
            r == self@.contains_key(id),
    {
        match self.find(id) {
            Some(_) => true,
            None => false,
        }
    }

    /// The name under which `id` is registered.
    pub fn name_of(&self, id: u64) -> (r: Option<String>)
        requires
            self.wf(),
        ensures
            match r {
                Some(name) => self@.contains_key(id) && name@ == self@[id],
                None => !self@.contains_key(id),
            },
    {
        match self.find(id) {
            Some(i) => Some(self.entries[i].name.clone()),
            None => None,
        }
    }

    /// Whether some registered identity other than `id` holds `name`.
    pub fn name_taken(&self, id: u64, name: &String) -> (r: bool)
        requires
            self.wf(),
        ensures
            r == taken_by_other(self@, id, name@),
    {
        let mut i: usize = 0;
        while i < self.entries.len()
            invariant
                self.wf(),
                0 <= i <= self.entries@.len(),
                forall|k: int|
                    0 <= k < i ==> !((#[trigger] self.entries@[k]).id != id && self.entries@[k].name@
                        == name@),
            decreases self.entries@.len() - i,
        {
            if self.entries[i].id != id && self.entries[i].name == *name {
                let ghost other = self.entries@[i as int].id;
                assert(self@.contains_key(other) && self@[other] == name@);
                return true;
            }
            i = i + 1;
        }
        assert forall|other: u64| self@.contains_key(other) && other != id implies #[trigger] self@[other] != name@ by {
            let k = choose|k: int| 0 <= k < self.entries@.len() && (#[trigger] self.entries@[k]).id == other;
            assert(self.entries@[k].id == other);
        }
        false
    }

    /// Adds a client under `name`. Refused when `id` is registered already or
    /// another client holds `name`; the registry is then unchanged.
    pub fn register(&mut self, id: u64, name: String) -> (r: Result<(), RegisterError>)
        requires
            old(self).wf(),
        ensures
            final(self).wf(),
            old(self)@.contains_key(id) ==> r == Err::<(), RegisterError>(RegisterError::IdentityTaken),
            !old(self)@.contains_key(id) && taken_by_other(old(self)@, id, name@) ==> r == Err::<(), RegisterError>(RegisterError::NameTaken),
            r is Ok <==> !old(self)@.contains_key(id) && !taken_by_other(old(self)@, id, name@),
            r is Ok ==> final(self)@ == old(self)@.insert(id, name@),
            r is Err ==> final(self)@ == old(self)@,
    {
        if self.contains(id) {
            return Err(RegisterError::IdentityTaken);
        }
        if self.name_taken(id, &name) {
            return Err(RegisterError::NameTaken);
        }
        let ghost n = name@;
        let ghost old_entries = self.entries@;
        self.entries.push(Entry { id, name });
        self.model = Ghost(self.model@.insert(id, n));
        proof {
            assert forall|i: int| 0 <= i < self.entries@.len() implies self.model@.contains_key(
                (#[trigger] self.entries@[i]).id,
            ) && self.model@[self.entries@[i].id] == self.entries@[i].name@ by {
                if i < old_entries.len() {
                    assert(self.entries@[i] == old_entries[i]);
                }
            }
            assert forall|x: u64| #[trigger] self.model@.contains_key(x) implies exists|i: int|
                0 <= i < self.entries@.len() && (#[trigger] self.entries@[i]).id == x by {
                if x == id {
                    assert(self.entries@[old_entries.len() as int].id == x);
                } else {
                    let k = choose|k: int| 0 <= k < old_entries.len() && (#[trigger] old_entries[k]).id == x;
                    assert(self.entries@[k] == old_entries[k]);
                }
            }
        }
        Ok(())
    }
    /// Changes the name of `id` to `requested`, unless it is empty (reason 0)
    /// or another registered identity holds it (reason 1). On approval the
    /// previous name comes back; on denial nothing changes.
    pub fn rename(&mut self, id: u64, requested: String) -> (r: Result<String, u8>)
        requires
            old(self).wf(),
            old(self)@.contains_key(id),
        ensures
            final(self).wf(),
            r is Ok <==> validity(old(self)@, id, requested@) is Ok,
            r is Err ==> r == Err::<String, u8>(validity(old(self)@, id, requested@)->Err_0),
            r is Err ==> final(self)@ == old(self)@,
            r is Ok ==> r->Ok_0@ == old(self)@[id],
            r is Ok ==> final(self)@ == old(self)@.insert(id, requested@),
    {
        match new_name_validity(self, id, &requested) {
            Err(reason) => {
                return Err(reason);
            },
            Ok(()) => {},
        }
        let i = match self.find(id) {
            Some(i) => i,
            None => {
                return Err(0);
            },
        };
        let ghost n = requested@;
        let ghost old_entries = self.entries@;
        let ghost old_model = self.model@;
        let mut e = Entry { id, name: requested };
        self.entries.set_and_swap(i, &mut e);
        self.model = Ghost(self.model@.insert(id, n));
        proof {
            assert(self.entries@ == old_entries.update(i as int, Entry { id, name: self.entries@[i as int].name }));
            assert forall|k: int| 0 <= k < self.entries@.len() implies self.model@.contains_key(
                (#[trigger] self.entries@[k]).id,
            ) && self.model@[self.entries@[k].id] == self.entries@[k].name@ by {
                if k != i {
                    assert(self.entries@[k] == old_entries[k]);
                }
            }
            assert forall|x: u64| #[trigger] self.model@.contains_key(x) implies exists|k: int|
                0 <= k < self.entries@.len() && (#[trigger] self.entries@[k]).id == x by {
                let k = choose|k: int| 0 <= k < old_entries.len() && (#[trigger] old_entries[k]).id == x;
                assert(self.entries@[k].id == old_entries[k].id);
            }
            assert forall|a: u64, b: u64|
                self.model@.contains_key(a) && self.model@.contains_key(b) && a != b
                implies #[trigger] self.model@[a] != #[trigger] self.model@[b] by {
                if a == id {
                    assert(old_model.contains_key(b) && b != id);
                } else if b == id {
                    assert(old_model.contains_key(a) && a != id);
                } else {
                    assert(old_model[a] != old_model[b]);
                }
            }
        }
        Ok(e.name)
    }

    /// Removes `id`, giving back its name; nothing happens when it is absent.
    pub fn remove(&mut self, id: u64) -> (r: Option<String>)
        requires
            old(self).wf(),
        ensures
            final(self).wf(),
            final(self)@ == old(self)@.remove(id),
            match r {
                Some(name) => old(self)@.contains_key(id) && name@ == old(self)@[id],
                None => !old(self)@.contains_key(id),
            },
    {
        let i = match self.find(id) {
            Some(i) => i,
            None => {
                proof {
                    assert(self.model@.remove(id) =~= self.model@);
                }
                return None;
            },
        };
        let ghost old_entries = self.entries@;
        let ghost old_model = self.model@;
        let e = self.entries.remove(i);
        self.model = Ghost(self.model@.remove(id));
        proof {
            assert forall|k: int| 0 <= k < self.entries@.len() implies self.model@.contains_key(
                (#[trigger] self.entries@[k]).id,
            ) && self.model@[self.entries@[k].id] == self.entries@[k].name@ by {
                if k < i {
                    assert(self.entries@[k] == old_entries[k]);
                } else {
                    assert(self.entries@[k] == old_entries[k + 1]);
                }
            }
            assert forall|x: u64| #[trigger] self.model@.contains_key(x) implies exists|k: int|
                0 <= k < self.entries@.len() && (#[trigger] self.entries@[k]).id == x by {
                let k = choose|k: int| 0 <= k < old_entries.len() && (#[trigger] old_entries[k]).id == x;
                if k < i {
                    assert(self.entries@[k] == old_entries[k]);
                } else {
                    assert(self.entries@[k - 1] == old_entries[k]);
                }
            }
            assert forall|a: u64, b: u64|
                self.model@.contains_key(a) && self.model@.contains_key(b) && a != b
                implies #[trigger] self.model@[a] != #[trigger] self.model@[b] by {
                assert(old_model[a] != old_model[b]);
            }
        }
        Some(e.name)
    }

    /// One delivery of `message` to every registered client but `exclude`.
    pub fn broadcast(&self, message: &Message, exclude: Option<u64>) -> (r: Vec<Delivery>)
        requires
            self.wf(),
        ensures
            is_broadcast(deliveries_view(r@), self@, message@, exclude),
    {
        let mut ds: Vec<Delivery> = Vec::new();
        let mut i: usize = 0;
        while i < self.entries.len()
            invariant
                self.wf(),
                0 <= i <= self.entries@.len(),
                forall|j: int| 0 <= j < ds@.len() ==> (#[trigger] ds@[j]).message@ == message@,
                forall|j: int| 0 <= j < ds@.len() ==> exists|k: int| 0 <= k < i && (#[trigger] self.entries@[k]).id == (#[trigger] ds@[j]).to,
                forall|j1: int, j2: int| 0 <= j1 < j2 < ds@.len() ==> (#[trigger] ds@[j1]).to != (#[trigger] ds@[j2]).to,
                forall|j: int| 0 <= j < ds@.len() ==> exclude != Some((#[trigger] ds@[j]).to),
                forall|k: int| 0 <= k < i && exclude != Some((#[trigger] self.entries@[k]).id) ==> exists|j: int| 0 <= j < ds@.len() && (#[trigger] ds@[j]).to == self.entries@[k].id,
            decreases self.entries@.len() - i,
        {
            let id = self.entries[i].id;
            let skip = match exclude {
                Some(x) => x == id,
                None => false,
            };
            if !skip {
                let ghost before = ds@;
                ds.push(Delivery { to: id, message: copy_message(message) });
                proof {
                    assert forall|j: int| 0 <= j < ds@.len() implies exists|k: int| 0 <= k < i + 1 && (#[trigger] self.entries@[k]).id == (#[trigger] ds@[j]).to by {
                        if j < before.len() {
                            assert(ds@[j] == before[j]);
                        } else {
                            assert(self.entries@[i as int].id == ds@[j].to);
                        }
                    }
                    assert forall|j1: int, j2: int| 0 <= j1 < j2 < ds@.len() implies (#[trigger] ds@[j1]).to != (#[trigger] ds@[j2]).to by {
                        assert(ds@[j1] == before[j1]);
                        if j2 == before.len() {
                            let k = choose|k: int| 0 <= k < i && (#[trigger] self.entries@[k]).id == before[j1].to;
                            assert(self.entries@[k].id != self.entries@[i as int].id);
                        } else {
                            assert(ds@[j2] == before[j2]);
                        }
                    }
                    assert forall|k: int| 0 <= k < i + 1 && exclude != Some((#[trigger] self.entries@[k]).id) implies exists|j: int| 0 <= j < ds@.len() && (#[trigger] ds@[j]).to == self.entries@[k].id by {
                        if k < i {
                            let j = choose|j: int| 0 <= j < before.len() && (#[trigger] before[j]).to == self.entries@[k].id;
                            assert(ds@[j] == before[j]);
                        } else {
                            assert(ds@[before.len() as int].to == self.entries@[k].id);
                        }
                    }
                }
            }
            i = i + 1;
        }
        proof {
            let dv = deliveries_view(ds@);
            assert forall|j: int| 0 <= j < dv.len() implies self@.contains_key((#[trigger] dv[j]).0) && exclude != Some(dv[j].0) by {
                let k = choose|k: int| 0 <= k < self.entries@.len() && (#[trigger] self.entries@[k]).id == ds@[j].to;
            }
            assert forall|x: u64| #[trigger] self@.contains_key(x) && exclude != Some(x) implies exists|j: int| 0 <= j < dv.len() && (#[trigger] dv[j]).0 == x by {
                let k = choose|k: int| 0 <= k < self.entries@.len() && (#[trigger] self.entries@[k]).id == x;
                let j = choose|j: int| 0 <= j < ds@.len() && (#[trigger] ds@[j]).to == self.entries@[k].id;
                assert(dv[j].0 == x);
            }
            assert forall|j1: int, j2: int| 0 <= j1 < j2 < dv.len() implies (#[trigger] dv[j1]).0 != (#[trigger] dv[j2]).0 by {
                assert(ds@[j1].to != ds@[j2].to);
            }
        }
        ds
    }
}

/// Whether `id` may take `new_name`: `Err(0)` when it is empty, `Err(1)` when
/// another registered identity holds it, `Ok` otherwise.
pub fn new_name_validity(clients: &Registry, addr: u64, new_name: &String) -> (r: Result<(), u8>)
    requires
        clients.wf(),
    ensures
        r == validity(clients@, addr, new_name@),
{
    if new_name.as_str().is_empty() {
        return Err(0);
    }
    if clients.name_taken(addr, new_name) {
        return Err(1);
    }
    Ok(())
}

/// Whatever sequence of registrations, renames and removals produced a
/// registry, no two of its identities hold equal names.
pub proof fn lemma_names_unique(clients: &Registry)
    requires
        clients.wf(),
    ensures
        names_unique(clients@),
{
}

/// A request for an empty name is denied with reason 0 whatever is
/// registered; a non-empty name that another registered identity holds is
/// denied with reason 1; any other non-empty name is approved.
pub proof fn lemma_rename_rules(m: Map<u64, Seq<char>>, id: u64, name: Seq<char>)
    ensures
        name.len() == 0 ==> validity(m, id, name) == Err::<(), u8>(0),
        name.len() > 0 && taken_by_other(m, id, name) ==> validity(m, id, name) == Err::<(), u8>(1),
        name.len() > 0 && !taken_by_other(m, id, name) ==> validity(m, id, name) is Ok,
{
}

} // verus!
