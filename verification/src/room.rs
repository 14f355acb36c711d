//! Rooms and the registry of rooms.
//!
//! A room holds the ids of its connected clients and one metadata value. Rooms
//! are created explicitly and live in a [`RoomManager`], keyed by their id.
//!
//! The registry keeps its rooms in a vector of slots with unique ids, looked
//! up by comparing ids.

use vstd::prelude::*;
use crate::error::SyncError;
use crate::storage::Storage;
use dashmap::DashSet;

verus! {

#[verifier::external_type_specification]
#[verifier::external_body]
#[verifier::reject_recursive_types(K)]
#[verifier::reject_recursive_types(S)]
pub struct ExDashSet<K, S>(DashSet<K, S>);

/// The client ids that a member set holds.
pub uninterp spec fn members_of(s: DashSet<u128>) -> Set<u128>;

/// Calls `DashSet::with_capacity`. Claimed: the new set is empty.
#[verifier::external_body]
fn member_set_with_capacity(capacity: usize) -> (s: DashSet<u128>)
    ensures
        members_of(s) == Set::<u128>::empty(),
{
    DashSet::with_capacity(capacity)
}

/// Calls `DashSet::insert`. Claimed: the id is then held, nothing else changes,
/// and the answer says whether it was new.
#[verifier::external_body]
fn member_set_insert(s: &mut DashSet<u128>, id: u128) -> (fresh: bool)
    ensures
        members_of(*final(s)) == members_of(*old(s)).insert(id),
        fresh == !members_of(*old(s)).contains(id),
{
    s.insert(id)
}

/// Calls `DashSet::remove`. Claimed: the id is then absent, nothing else
/// changes, and the answer says whether it was held.
#[verifier::external_body]
fn member_set_remove(s: &mut DashSet<u128>, id: u128) -> (was: bool)
    ensures
        members_of(*final(s)) == members_of(*old(s)).remove(id),
        was == members_of(*old(s)).contains(id),
{
    s.remove(&id).is_some()
}

/// Calls `DashSet::contains`. Claimed: the answer is membership.
#[verifier::external_body]
fn member_set_contains(s: &DashSet<u128>, id: u128) -> (b: bool)
    ensures
        b == members_of(*s).contains(id),
{
    s.contains(&id)
}

/// Calls `DashSet::len`. Claimed: the answer is the number of ids held.
#[verifier::external_body]
fn member_set_len(s: &DashSet<u128>) -> (n: usize)
    ensures
        n == members_of(*s).len(),
{
    s.len()
}

/// Walks the set with `DashSet::iter` and copies each id out. Claimed: every id
/// of the set comes out once; the order is the set's, and is not stated.
#[verifier::external_body]
fn member_set_ids(s: &DashSet<u128>) -> (v: Vec<u128>)
    ensures
        v@.no_duplicates(),
        v@.to_set() == members_of(*s),
{
    s.iter().map(|r| *r).collect()
}

/// What a room holds: the ids of its members and its metadata.
pub struct RoomState<M> {
    pub members: Set<u128>,
    pub meta: Option<M>,
}

/// A single room holding connected clients, identified by their ids, and a
/// metadata value that the library does not interpret.
pub struct Room<M> {
    clients: DashSet<u128>,
    metadata: Storage<M>,
}

impl<M> View for Room<M> {
    type V = RoomState<M>;

    closed spec fn view(&self) -> RoomState<M> {
        RoomState { members: members_of(self.clients), meta: self.metadata@ }
    }
}

impl<M> Room<M> {
    /// An empty room with no metadata.
    pub fn new() -> (r: Self)
        ensures
            r@.members == Set::<u128>::empty(),
            r@.meta is None,
    {
        Room { clients: member_set_with_capacity(128), metadata: Storage::new() }
    }

    /// Adds a client to the room.
    pub fn insert(&mut self, id: u128)
        ensures
            final(self)@.members == old(self)@.members.insert(id),
            final(self)@.meta == old(self)@.meta,
    {
        member_set_insert(&mut self.clients, id);
    }

    /// Removes a client; answers whether it was a member.
    pub fn remove(&mut self, id: u128) -> (was: bool)
        ensures
            final(self)@.members == old(self)@.members.remove(id),
            final(self)@.meta == old(self)@.meta,
            was == old(self)@.members.contains(id),
    {
        member_set_remove(&mut self.clients, id)
    }

    /// Whether the client is a member.
    pub fn contains(&self, id: u128) -> (b: bool)
        ensures
            b == self@.members.contains(id),
    {
        member_set_contains(&self.clients, id)
    }

    /// Whether the room has no members.
    pub fn is_empty(&self) -> (b: bool)
        ensures
            b == (self@.members.len() == 0),
    {
        member_set_len(&self.clients) == 0
    }

    /// The number of members.
    pub fn len(&self) -> (n: usize)
        ensures
            n == self@.members.len(),
    {
        member_set_len(&self.clients)
    }

    /// All member ids, each once.
    pub fn client_ids(&self) -> (v: Vec<u128>)
        ensures
            v@.no_duplicates(),
            v@.to_set() == self@.members,
    {
        member_set_ids(&self.clients)
    }

    /// The members that a frame from `sender` goes to: every member but the
    /// sender, each once.
    pub fn recipients(&self, sender: u128) -> (v: Vec<u128>)
        ensures
            v@.no_duplicates(),
            v@.to_set() == self@.members.remove(sender),
    {
        let all = member_set_ids(&self.clients);
        let mut out: Vec<u128> = Vec::new();
        let mut i: usize = 0;
        while i < all.len()
            invariant
                i <= all@.len(),
                all@.no_duplicates(),
                out@.no_duplicates(),
                out@.to_set() == all@.subrange(0, i as int).to_set().remove(sender),
                forall|k: int| 0 <= k < out@.len() ==> all@.subrange(0, i as int).contains(#[trigger] out@[k]),
            decreases all@.len() - i,
        {
            let id = all[i];
            let ghost before = all@.subrange(0, i as int);
            assert(all@.subrange(0, i + 1) =~= before.push(id));
            assert(!before.contains(id)) by {
                if before.contains(id) {
                    let k = choose|k: int| 0 <= k < before.len() && before[k] == id;
                    assert(all@[k] == all@[i as int]);
                }
            }
            proof { before.lemma_push_to_set_commute(id); }
            if id != sender {
                let ghost prev = out@;
                out.push(id);
                proof { prev.lemma_push_to_set_commute(id); }
                assert(out@.to_set() =~= before.push(id).to_set().remove(sender));
                assert forall|k: int| 0 <= k < out@.len() implies all@.subrange(0, i + 1).contains(#[trigger] out@[k]) by {
                    if k < prev.len() {
                        assert(before.contains(prev[k]));
                        let j = choose|j: int| 0 <= j < before.len() && before[j] == prev[k];
                        assert(all@.subrange(0, i + 1)[j] == prev[k]);
                    } else {
                        assert(all@.subrange(0, i + 1)[i as int] == id);
                    }
                }
            } else {
                assert(out@.to_set() =~= before.push(id).to_set().remove(sender));
                assert forall|k: int| 0 <= k < out@.len() implies all@.subrange(0, i + 1).contains(#[trigger] out@[k]) by {
                    assert(before.contains(out@[k]));
                    let j = choose|j: int| 0 <= j < before.len() && before[j] == out@[k];
                    assert(all@.subrange(0, i + 1)[j] == out@[k]);
                }
            }
            i = i + 1;
        }
        assert(all@.subrange(0, all@.len() as int) =~= all@);
        out
    }

    /// Stores the room's metadata, replacing any previous value.
    pub fn set_meta(&mut self, value: M)
        ensures
            final(self)@.members == old(self)@.members,
            final(self)@.meta == Some(value),
    {
        self.metadata.set(value);
    }

    /// Reads the metadata through a callback; `None` when none is set.
    pub fn get_meta<R, F: FnOnce(&M) -> R>(&self, f: F) -> (r: Option<R>)
        requires
            self@.meta matches Some(v) ==> f.requires((&v,)),
        ensures
            r is Some <==> self@.meta is Some,
            r matches Some(x) ==> f.ensures((&self@.meta->0,), x),
    {
        self.metadata.get(f)
    }

    /// Removes and returns the metadata.
    pub fn take_meta(&mut self) -> (r: Option<M>)
        ensures
            r == old(self)@.meta,
            final(self)@.meta is None,
            final(self)@.members == old(self)@.members,
    {
        self.metadata.take()
    }

    /// Whether metadata is set.
    pub fn has_meta(&self) -> (b: bool)
        ensures
            b == self@.meta is Some,
    {
        self.metadata.is_set()
    }
}

} // verus!

verus! {

/// A room together with its id.
struct RoomSlot<M> {
    id: String,
    room: Room<M>,
}

/// Manages all active rooms, keyed by room id.
pub struct RoomManager<M> {
    slots: Vec<RoomSlot<M>>,
}

/// The rooms that a sequence of slots holds, by id.
spec fn slots_map<M>(s: Seq<RoomSlot<M>>) -> Map<Seq<char>, RoomState<M>>
    decreases s.len(),
{
    if s.len() == 0 {
        Map::empty()
    } else {
        slots_map(s.drop_last()).insert(s.last().id@, s.last().room@)
    }
}

/// No two slots carry the same id.
spec fn ids_unique<M>(s: Seq<RoomSlot<M>>) -> bool {
    forall|i: int, j: int| 0 <= i < s.len() && 0 <= j < s.len() && i != j ==> s[i].id@ != s[j].id@
}

proof fn lemma_slots_map<M>(s: Seq<RoomSlot<M>>)
    requires
        ids_unique(s),
    ensures
        forall|k: Seq<char>| #[trigger] slots_map(s).contains_key(k) <==> exists|i: int| 0 <= i < s.len() && s[i].id@ == k,
        forall|i: int| 0 <= i < s.len() ==> #[trigger] slots_map(s)[s[i].id@] == s[i].room@,
        slots_map(s).dom().finite(),
        slots_map(s).dom().len() == s.len(),
    decreases s.len(),
{
    if s.len() > 0 {
        let t = s.drop_last();
        assert(ids_unique(t));
        lemma_slots_map(t);
        let last = s.last();
        assert(!slots_map(t).contains_key(last.id@)) by {
            if slots_map(t).contains_key(last.id@) {
                let i = choose|i: int| 0 <= i < t.len() && t[i].id@ == last.id@;
                assert(s[i].id@ == s[s.len() - 1].id@);
            }
        }
        assert forall|k: Seq<char>| #[trigger] slots_map(s).contains_key(k) <==> exists|i: int| 0 <= i < s.len() && s[i].id@ == k by {
            if slots_map(s).contains_key(k) {
                if k == last.id@ {
                    assert(s[s.len() - 1].id@ == k);
                } else {
                    let i = choose|i: int| 0 <= i < t.len() && t[i].id@ == k;
                    assert(s[i].id@ == k);
                }
            }
            if exists|i: int| 0 <= i < s.len() && s[i].id@ == k {
                let i = choose|i: int| 0 <= i < s.len() && s[i].id@ == k;
                if i < s.len() - 1 {
                    assert(t[i].id@ == k);
                }
            }
        }
        assert forall|i: int| 0 <= i < s.len() implies #[trigger] slots_map(s)[s[i].id@] == s[i].room@ by {
            if i < s.len() - 1 {
                assert(t[i] == s[i]);
                assert(slots_map(t)[t[i].id@] == t[i].room@);
            }
        }
    }
}

proof fn lemma_slots_push<M>(s: Seq<RoomSlot<M>>, x: RoomSlot<M>)
    requires
        ids_unique(s),
        !slots_map(s).contains_key(x.id@),
    ensures
        ids_unique(s.push(x)),
        slots_map(s.push(x)) == slots_map(s).insert(x.id@, x.room@),
{
    lemma_slots_map(s);
    let t = s.push(x);
    assert(t.drop_last() =~= s);
    assert forall|i: int, j: int| 0 <= i < t.len() && 0 <= j < t.len() && i != j implies t[i].id@ != t[j].id@ by {
        if i == s.len() {
            assert(s[j].id@ != x.id@);
        } else if j == s.len() {
            assert(s[i].id@ != x.id@);
        }
    }
}

proof fn lemma_slots_update<M>(s: Seq<RoomSlot<M>>, i: int, x: RoomSlot<M>)
    requires
        ids_unique(s),
        0 <= i < s.len(),
        x.id@ == s[i].id@,
    ensures
        ids_unique(s.update(i, x)),
        slots_map(s.update(i, x)) == slots_map(s).insert(x.id@, x.room@),
{
    let t = s.update(i, x);
    assert(ids_unique(t)) by {
        assert forall|a: int, b: int| 0 <= a < t.len() && 0 <= b < t.len() && a != b implies t[a].id@ != t[b].id@ by {
            assert(t[a].id@ == s[a].id@);
            assert(t[b].id@ == s[b].id@);
        }
    }
    lemma_slots_map(s);
    lemma_slots_map(t);
    assert forall|k: Seq<char>| #[trigger] slots_map(t).contains_key(k) <==> slots_map(s).insert(x.id@, x.room@).contains_key(k) by {
        if slots_map(t).contains_key(k) {
            let j = choose|j: int| 0 <= j < t.len() && t[j].id@ == k;
            assert(s[j].id@ == k);
        }
        if slots_map(s).contains_key(k) {
            let j = choose|j: int| 0 <= j < s.len() && s[j].id@ == k;
            assert(t[j].id@ == k);
        }
        if k == x.id@ {
            assert(t[i].id@ == k);
        }
    }
    assert forall|k: Seq<char>| #[trigger] slots_map(t).contains_key(k) implies slots_map(t)[k] == slots_map(s).insert(x.id@, x.room@)[k] by {
        let j = choose|j: int| 0 <= j < t.len() && t[j].id@ == k;
        assert(slots_map(t)[t[j].id@] == t[j].room@);
        if j != i {
            assert(t[j] == s[j]);
            assert(slots_map(s)[s[j].id@] == s[j].room@);
        }
    }
    assert(slots_map(t) =~= slots_map(s).insert(x.id@, x.room@));
}

proof fn lemma_slots_remove<M>(s: Seq<RoomSlot<M>>, i: int)
    requires
        ids_unique(s),
        0 <= i < s.len(),
    ensures
        ids_unique(s.remove(i)),
        slots_map(s.remove(i)) == slots_map(s).remove(s[i].id@),
{
    let t = s.remove(i);
    let gone = s[i].id@;
    assert forall|a: int| 0 <= a < t.len() implies #[trigger] t[a] == s[if a < i { a } else { a + 1 }] by {}
    assert(ids_unique(t)) by {
        assert forall|a: int, b: int| 0 <= a < t.len() && 0 <= b < t.len() && a != b implies t[a].id@ != t[b].id@ by {
            assert(t[a] == s[if a < i { a } else { a + 1 }]);
            assert(t[b] == s[if b < i { b } else { b + 1 }]);
        }
    }
    lemma_slots_map(s);
    lemma_slots_map(t);
    assert forall|k: Seq<char>| #[trigger] slots_map(t).contains_key(k) <==> slots_map(s).remove(gone).contains_key(k) by {
        if slots_map(t).contains_key(k) {
            let j = choose|j: int| 0 <= j < t.len() && t[j].id@ == k;
            let js = if j < i { j } else { j + 1 };
            assert(t[j] == s[js]);
            assert(s[js].id@ == k);
        }
        if slots_map(s).contains_key(k) && k != gone {
            let j = choose|j: int| 0 <= j < s.len() && s[j].id@ == k;
            let jt = if j < i { j } else { j - 1 };
            assert(t[jt] == s[j]);
        }
    }
    assert forall|k: Seq<char>| #[trigger] slots_map(t).contains_key(k) implies slots_map(t)[k] == slots_map(s).remove(gone)[k] by {
        let j = choose|j: int| 0 <= j < t.len() && t[j].id@ == k;
        let js = if j < i { j } else { j + 1 };
        assert(t[j] == s[js]);
        assert(slots_map(t)[t[j].id@] == t[j].room@);
        assert(slots_map(s)[s[js].id@] == s[js].room@);
    }
    assert(slots_map(t) =~= slots_map(s).remove(gone));
}

impl<M> View for RoomManager<M> {
    type V = Map<Seq<char>, RoomState<M>>;

    closed spec fn view(&self) -> Map<Seq<char>, RoomState<M>> {
        slots_map(self.slots@)
    }
}

/// The state of a room after `client` is added to it.
pub open spec fn with_member<M>(r: RoomState<M>, client: u128) -> RoomState<M> {
    RoomState { members: r.members.insert(client), meta: r.meta }
}

/// The state of a room after `client` is removed from it.
pub open spec fn without_member<M>(r: RoomState<M>, client: u128) -> RoomState<M> {
    RoomState { members: r.members.remove(client), meta: r.meta }
}

/// A fresh room: no members, no metadata.
pub open spec fn empty_room<M>() -> RoomState<M> {
    RoomState { members: Set::empty(), meta: None }
}

impl<M> RoomManager<M> {
    /// The registry's well-formedness: room ids are unique.
    pub closed spec fn wf(&self) -> bool {
        ids_unique(self.slots@)
    }

    /// An empty registry.
    pub fn new() -> (m: Self)
        ensures
            m.wf(),
            m@ == Map::<Seq<char>, RoomState<M>>::empty(),
    {
        RoomManager { slots: Vec::new() }
    }

    /// The index of the slot that holds `room_id`.
    fn find(&self, room_id: &str) -> (r: Option<usize>)
        requires
            self.wf(),
        ensures
            r is Some <==> self@.contains_key(room_id@),
            r matches Some(i) ==> i < self.slots@.len() && self.slots@[i as int].id@ == room_id@,
    {
        proof {
            lemma_slots_map(self.slots@);
        }
        let key = room_id.to_owned();
        let mut i: usize = 0;
        while i < self.slots.len()
            invariant
                i <= self.slots@.len(),
                key@ == room_id@,
                self.wf(),
                forall|j: int| 0 <= j < i ==> self.slots@[j].id@ != room_id@,
            decreases self.slots@.len() - i,
        {
            if self.slots[i].id == key {
                proof {
                    lemma_slots_map(self.slots@);
                    assert(self.slots@[i as int].id@ == room_id@);
                }
                return Some(i);
            }
            i = i + 1;
        }
        None
    }

    /// Whether a room with this id exists.
    pub fn contains(&self, room_id: &str) -> (b: bool)
        requires
            self.wf(),
        ensures
            b == self@.contains_key(room_id@),
    {
        self.find(room_id).is_some()
    }

    /// Creates a room with the given id. Fails with `RoomAlreadyExists` if a
    /// room with this id exists, and then changes nothing.
    pub fn create(&mut self, room_id: &str) -> (r: Result<(), SyncError>)
        requires
            old(self).wf(),
        ensures
            final(self).wf(),
            old(self)@.contains_key(room_id@) ==> {
                &&& r matches Err(SyncError::RoomAlreadyExists(id)) && id@ == room_id@
                &&& final(self)@ == old(self)@
            },
            !old(self)@.contains_key(room_id@) ==> {
                &&& r is Ok
                &&& final(self)@ == old(self)@.insert(room_id@, empty_room())
            },
    {
        if self.find(room_id).is_some() {
            return Err(SyncError::RoomAlreadyExists(room_id.to_owned()));
        }
        let slot = RoomSlot { id: room_id.to_owned(), room: Room::new() };
        proof {
            lemma_slots_push(self.slots@, slot);
        }
        self.slots.push(slot);
        assert(slots_map(self.slots@) =~= slots_map(old(self).slots@).insert(room_id@, empty_room()));
        Ok(())
    }

    /// Deletes a room; answers whether it existed.
    pub fn delete(&mut self, room_id: &str) -> (existed: bool)
        requires
            old(self).wf(),
        ensures
            final(self).wf(),
            existed == old(self)@.contains_key(room_id@),
            final(self)@ == old(self)@.remove(room_id@),
    {
        match self.find(room_id) {
            Some(i) => {
                proof {
                    lemma_slots_remove(self.slots@, i as int);
                }
                self.slots.remove(i);
                true
            },
            None => {
                assert(self@ =~= self@.remove(room_id@));
                false
            },
        }
    }

    /// Adds a client to a room; answers whether the room exists (nothing
    /// changes when it does not).
    pub fn add_client(&mut self, room_id: &str, client_id: u128) -> (found: bool)
        requires
            old(self).wf(),
        ensures
            final(self).wf(),
            found == old(self)@.contains_key(room_id@),
            found ==> final(self)@ == old(self)@.insert(room_id@, with_member(old(self)@[room_id@], client_id)),
            !found ==> final(self)@ == old(self)@,
    {
        match self.find(room_id) {
            Some(i) => {
                proof {
                    lemma_slots_map(self.slots@);
                }
                let ghost before = self.slots@;
                self.slots[i].room.insert(client_id);
                proof {
                    lemma_slots_update(before, i as int, self.slots@[i as int]);
                    assert(self.slots@ =~= before.update(i as int, self.slots@[i as int]));
                }
                true
            },
            None => false,
        }
    }

    /// Removes a client from a room. Does not delete the room, even when it
    /// becomes empty; does nothing when the room does not exist.
    pub fn remove_client(&mut self, room_id: &str, client_id: u128)
        requires
            old(self).wf(),
        ensures
            final(self).wf(),
            old(self)@.contains_key(room_id@) ==> final(self)@ == old(self)@.insert(
                room_id@,
                without_member(old(self)@[room_id@], client_id),
            ),
            !old(self)@.contains_key(room_id@) ==> final(self)@ == old(self)@,
    {
        match self.find(room_id) {
            Some(i) => {
                proof {
                    lemma_slots_map(self.slots@);
                }
                let ghost before = self.slots@;
                self.slots[i].room.remove(client_id);
                proof {
                    lemma_slots_update(before, i as int, self.slots@[i as int]);
                    assert(self.slots@ =~= before.update(i as int, self.slots@[i as int]));
                }
            },
            None => {},
        }
    }

    /// A reference to a room; `None` if it doesn't exist.
    pub fn get(&self, room_id: &str) -> (r: Option<&Room<M>>)
        requires
            self.wf(),
        ensures
            r is Some <==> self@.contains_key(room_id@),
            r matches Some(room) ==> room@ == self@[room_id@],
    {
        proof {
            lemma_slots_map(self.slots@);
        }
        match self.find(room_id) {
            Some(i) => Some(&self.slots[i].room),
            None => None,
        }
    }

    /// Stores metadata on a room; answers whether the room exists (nothing
    /// changes when it does not).
    pub fn set_meta(&mut self, room_id: &str, value: M) -> (found: bool)
        requires
            old(self).wf(),
        ensures
            final(self).wf(),
            found == old(self)@.contains_key(room_id@),
            found ==> final(self)@ == old(self)@.insert(
                room_id@,
                RoomState { members: old(self)@[room_id@].members, meta: Some(value) },
            ),
            !found ==> final(self)@ == old(self)@,
    {
        match self.find(room_id) {
            Some(i) => {
                proof {
                    lemma_slots_map(self.slots@);
                }
                let ghost before = self.slots@;
                self.slots[i].room.set_meta(value);
                proof {
                    lemma_slots_update(before, i as int, self.slots@[i as int]);
                    assert(self.slots@ =~= before.update(i as int, self.slots@[i as int]));
                }
                true
            },
            None => false,
        }
    }

    /// Removes and returns a room's metadata; `None` when the room does not
    /// exist or holds none.
    pub fn take_meta(&mut self, room_id: &str) -> (r: Option<M>)
        requires
            old(self).wf(),
        ensures
            final(self).wf(),
            old(self)@.contains_key(room_id@) ==> {
                &&& r == old(self)@[room_id@].meta
                &&& final(self)@ == old(self)@.insert(
                    room_id@,
                    RoomState { members: old(self)@[room_id@].members, meta: None },
                )
            },
            !old(self)@.contains_key(room_id@) ==> r is None && final(self)@ == old(self)@,
    {
        match self.find(room_id) {
            Some(i) => {
                proof {
                    lemma_slots_map(self.slots@);
                }
                let ghost before = self.slots@;
                let r = self.slots[i].room.take_meta();
                proof {
                    lemma_slots_update(before, i as int, self.slots@[i as int]);
                    assert(self.slots@ =~= before.update(i as int, self.slots@[i as int]));
                }
                r
            },
            None => None,
        }
    }

    /// The ids of all rooms, each once.
    pub fn room_ids(&self) -> (v: Vec<String>)
        requires
            self.wf(),
        ensures
            v@.map_values(|s: String| s@).no_duplicates(),
            v@.map_values(|s: String| s@).to_set() == self@.dom(),
    {
        proof {
            lemma_slots_map(self.slots@);
        }
        let mut v: Vec<String> = Vec::new();
        let mut i: usize = 0;
        while i < self.slots.len()
            invariant
                i <= self.slots@.len(),
                self.wf(),
                v@.len() == i,
                forall|j: int| 0 <= j < i ==> #[trigger] v@[j]@ == self.slots@[j].id@,
            decreases self.slots@.len() - i,
        {
            v.push(self.slots[i].id.clone());
            i = i + 1;
        }
        proof {
            lemma_slots_map(self.slots@);
            let names = v@.map_values(|s: String| s@);
            assert forall|a: int, b: int| 0 <= a < names.len() && 0 <= b < names.len() && a != b
                implies names[a] != names[b] by {
                assert(names[a] == self.slots@[a].id@);
                assert(names[b] == self.slots@[b].id@);
            }
            assert forall|k: Seq<char>| names.to_set().contains(k) <==> self@.dom().contains(k) by {
                if names.to_set().contains(k) {
                    assert(names.contains(k));
                    let j = choose|j: int| 0 <= j < names.len() && names[j] == k;
                    assert(self.slots@[j].id@ == k);
                }
                if self@.dom().contains(k) {
                    let j = choose|j: int| 0 <= j < self.slots@.len() && self.slots@[j].id@ == k;
                    assert(names[j] == k);
                }
            }
            assert(names.to_set() =~= self@.dom());
        }
        v
    }

    /// Number of active rooms.
    pub fn len(&self) -> (n: usize)
        requires
            self.wf(),
        ensures
            n == self@.len(),
            self@.dom().finite(),
    {
        proof {
            lemma_slots_map(self.slots@);
        }
        self.slots.len()
    }
}

} // verus!
