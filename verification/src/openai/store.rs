//! The registry from conversation identity to the list of turn anchors.

use crate::text::{copy_texts, same_text, texts};
use vstd::prelude::*;

verus! {

/// A conversation identity: the user and the room.
pub type Identity = (Seq<char>, Seq<char>);

/// The anchors of all conversations, by identity.
pub type Anchors = Map<Identity, Seq<Seq<char>>>;

/// The anchors of one identity: those on record, or none for an identity
/// that was never seen.
pub open spec fn anchors_of(store: Anchors, id: Identity) -> Seq<Seq<char>> {
    if store.dom().contains(id) {
        store[id]
    } else {
        Seq::empty()
    }
}

/// The store once `id` has been looked up: it now has a list, empty if it
/// had none.
pub open spec fn touched(store: Anchors, id: Identity) -> Anchors {
    store.insert(id, anchors_of(store, id))
}

/// The store once the list of `id` has been cleared.
pub open spec fn cleared(store: Anchors, id: Identity) -> Anchors {
    store.insert(id, Seq::empty())
}

/// The store once `ids` have been appended to the list of `id`.
pub open spec fn appended(store: Anchors, id: Identity, ids: Seq<Seq<char>>) -> Anchors {
    store.insert(id, anchors_of(store, id) + ids)
}

/// The store once the list of `id` has been replaced by `ids`.
pub open spec fn replaced(store: Anchors, id: Identity, ids: Seq<Seq<char>>) -> Anchors {
    store.insert(id, ids)
}

/// The list of an identity only grows at its end until it is cleared or
/// replaced: after two appends it is what it was, then the anchors of the
/// first, then those of the second. A lookup leaves it as it is, a clearing
/// leaves it empty, and none of them touches the list of another identity.
pub proof fn lemma_appends_accumulate(
    store: Anchors,
    id: Identity,
    first: Seq<Seq<char>>,
    second: Seq<Seq<char>>,
    other: Identity,
)
    ensures
        anchors_of(appended(appended(store, id, first), id, second), id) == anchors_of(store, id)
            + first + second,
        anchors_of(appended(appended(cleared(store, id), id, first), id, second), id) == first
            + second,
        anchors_of(touched(store, id), id) == anchors_of(store, id),
        anchors_of(cleared(store, id), id) == Seq::<Seq<char>>::empty(),
        anchors_of(replaced(store, id, first), id) == first,
        other != id ==> anchors_of(appended(store, id, first), other) == anchors_of(store, other)
            && anchors_of(cleared(store, id), other) == anchors_of(store, other) && anchors_of(
            touched(store, id),
            other,
        ) == anchors_of(store, other) && anchors_of(replaced(store, id, first), other)
            == anchors_of(store, other),
{
    assert(Seq::<Seq<char>>::empty() + first + second =~= first + second);
}

/// The anchors of one conversation.
struct Dialog {
    user: String,
    room: String,
    events: Vec<String>,
}

/// The registry from conversation identity to the list of turn anchors.
pub struct ConversationStore {
    inner: Vec<Dialog>,
}

/// The first index at or after `i` of an entry for `id`.
spec fn slot_from(entries: Seq<Dialog>, id: Identity, i: int) -> Option<int>
    decreases entries.len() - i,
{
    if 0 <= i < entries.len() {
        if (entries[i].user@, entries[i].room@) == id {
            Some(i)
        } else {
            slot_from(entries, id, i + 1)
        }
    } else {
        None
    }
}

/// The index of the entry for `id`.
spec fn slot(entries: Seq<Dialog>, id: Identity) -> Option<int> {
    slot_from(entries, id, 0)
}

/// The anchors that a list of entries records.
spec fn recorded(entries: Seq<Dialog>) -> Anchors {
    Map::new(
        |id: Identity| slot(entries, id) is Some,
        |id: Identity| texts(entries[slot(entries, id)->0].events@),
    )
}

/// A slot that is found holds an entry for the identity, and no entry before
/// it does.
proof fn lemma_slot_from(entries: Seq<Dialog>, id: Identity, i: int)
    requires
        0 <= i,
    ensures
        match slot_from(entries, id, i) {
            Some(k) => i <= k < entries.len() && (entries[k].user@, entries[k].room@) == id
                && forall|j: int| i <= j < k ==> (#[trigger] entries[j].user@, entries[j].room@) != id,
            None => forall|j: int|
                i <= j < entries.len() ==> (#[trigger] entries[j].user@, entries[j].room@) != id,
        },
    decreases entries.len() - i,
{
    if i < entries.len() && (entries[i].user@, entries[i].room@) != id {
        lemma_slot_from(entries, id, i + 1);
    }
}

/// The first entry for an identity is its slot.
proof fn lemma_slot_is(entries: Seq<Dialog>, id: Identity, i: int, k: int)
    requires
        0 <= i <= k < entries.len(),
        (entries[k].user@, entries[k].room@) == id,
        forall|j: int| i <= j < k ==> (#[trigger] entries[j].user@, entries[j].room@) != id,
    ensures
        slot_from(entries, id, i) == Some(k),
    decreases k - i,
{
    if i < k {
        assert((entries[i].user@, entries[i].room@) != id);
        lemma_slot_is(entries, id, i + 1, k);
    }
}

/// No entry for an identity, no slot.
proof fn lemma_slot_none(entries: Seq<Dialog>, id: Identity, i: int)
    requires
        0 <= i,
        forall|j: int|
            i <= j < entries.len() ==> (#[trigger] entries[j].user@, entries[j].room@) != id,
    ensures
        slot_from(entries, id, i) is None,
    decreases entries.len() - i,
{
    if i < entries.len() {
        assert((entries[i].user@, entries[i].room@) != id);
        lemma_slot_none(entries, id, i + 1);
    }
}

/// Replacing the list of the entry at the slot of `id` records the new list
/// for `id` and leaves the rest as it was.
proof fn lemma_recorded_update(before: Seq<Dialog>, after: Seq<Dialog>, id: Identity, k: int)
    requires
        slot(before, id) == Some(k),
        0 <= k < before.len(),
        after.len() == before.len(),
        (after[k].user@, after[k].room@) == id,
        forall|j: int|
            0 <= j < before.len() && j != k ==> (#[trigger] after[j]) == before[j],
    ensures
        recorded(after) == recorded(before).insert(id, texts(after[k].events@)),
{
    lemma_slot_from(before, id, 0);
    assert forall|other: Identity| slot(after, other) == slot(before, other) by {
        lemma_slot_from(before, other, 0);
        match slot(before, other) {
            Some(j) => {
                assert forall|l: int| 0 <= l < j implies (
                    #[trigger] after[l].user@,
                    after[l].room@,
                ) != other by {
                    if l != k {
                        assert(after[l] == before[l]);
                        assert((before[l].user@, before[l].room@) != other);
                    } else {
                        assert((before[l].user@, before[l].room@) != other);
                    }
                }
                if j != k {
                    assert(after[j] == before[j]);
                }
                lemma_slot_is(after, other, 0, j);
            },
            None => {
                assert forall|l: int| 0 <= l < after.len() implies (
                    #[trigger] after[l].user@,
                    after[l].room@,
                ) != other by {
                    if l != k {
                        assert(after[l] == before[l]);
                        assert((before[l].user@, before[l].room@) != other);
                    } else {
                        assert((before[l].user@, before[l].room@) != other);
                    }
                }
                lemma_slot_none(after, other, 0);
            },
        }
    }
    assert forall|other: Identity| other != id && slot(before, other) is Some implies texts(
        after[slot(after, other)->0].events@,
    ) == texts(before[slot(before, other)->0].events@) by {
        lemma_slot_from(before, other, 0);
        let j = slot(before, other)->0;
        assert(j != k);
        assert(after[j] == before[j]);
    }
    assert(recorded(after) =~= recorded(before).insert(id, texts(after[k].events@)));
}

/// Adding an entry for an identity that has none records its list and leaves
/// the rest as it was.
proof fn lemma_recorded_push(before: Seq<Dialog>, entry: Dialog, id: Identity)
    requires
        slot(before, id) is None,
        (entry.user@, entry.room@) == id,
    ensures
        recorded(before.push(entry)) == recorded(before).insert(id, texts(entry.events@)),
{
    let after = before.push(entry);
    lemma_slot_from(before, id, 0);
    assert forall|other: Identity|
        slot(after, other) == (if other == id {
            Some(before.len() as int)
        } else {
            slot(before, other)
        }) by {
        lemma_slot_from(before, other, 0);
        match slot(before, other) {
            Some(j) => {
                assert forall|l: int| 0 <= l < j implies (
                    #[trigger] after[l].user@,
                    after[l].room@,
                ) != other by {
                    assert(after[l] == before[l]);
                    assert((before[l].user@, before[l].room@) != other);
                }
                assert(after[j] == before[j]);
                lemma_slot_is(after, other, 0, j);
            },
            None => {
                if other == id {
                    assert forall|l: int| 0 <= l < before.len() implies (
                        #[trigger] after[l].user@,
                        after[l].room@,
                    ) != other by {
                        assert(after[l] == before[l]);
                        assert((before[l].user@, before[l].room@) != other);
                    }
                    lemma_slot_is(after, other, 0, before.len() as int);
                } else {
                    assert forall|l: int| 0 <= l < after.len() implies (
                        #[trigger] after[l].user@,
                        after[l].room@,
                    ) != other by {
                        if l < before.len() {
                            assert(after[l] == before[l]);
                            assert((before[l].user@, before[l].room@) != other);
                        }
                    }
                    lemma_slot_none(after, other, 0);
                }
            },
        }
    }
    assert forall|other: Identity| other != id && slot(before, other) is Some implies texts(
        after[slot(after, other)->0].events@,
    ) == texts(before[slot(before, other)->0].events@) by {
        lemma_slot_from(before, other, 0);
        let j = slot(before, other)->0;
        assert(after[j] == before[j]);
    }
    assert(recorded(after) =~= recorded(before).insert(id, texts(entry.events@)));
}

impl View for ConversationStore {
    type V = Anchors;

    closed spec fn view(&self) -> Anchors {
        recorded(self.inner@)
    }
}

impl ConversationStore {
    /// A store that has seen no identity.
    pub fn new() -> (r: ConversationStore)
        ensures
            r@ == Map::<Identity, Seq<Seq<char>>>::empty(),
    {
        let store = ConversationStore { inner: Vec::new() };
        assert(store@ =~= Map::<Identity, Seq<Seq<char>>>::empty());
        store
    }

    /// The index of the entry for an identity.
    fn find(&self, user_id: &str, room_id: &str) -> (r: Option<usize>)
        ensures
            match r {
                Some(k) => slot(self.inner@, (user_id@, room_id@)) == Some(k as int) && k
                    < self.inner.len(),
                None => slot(self.inner@, (user_id@, room_id@)) is None,
            },
    {
        let mut i: usize = 0;
        while i < self.inner.len()
            invariant
                0 <= i <= self.inner.len(),
                forall|j: int|
                    0 <= j < i ==> (#[trigger] self.inner@[j].user@, self.inner@[j].room@) != (
                        user_id@,
                        room_id@,
                    ),
            decreases self.inner.len() - i,
        {
            if same_text(self.inner[i].user.as_str(), user_id) && same_text(
                self.inner[i].room.as_str(),
                room_id,
            ) {
                proof {
                    lemma_slot_is(self.inner@, (user_id@, room_id@), 0, i as int);
                }
                return Some(i);
            }
            i += 1;
        }
        proof {
            lemma_slot_none(self.inner@, (user_id@, room_id@), 0);
        }
        None
    }

    /// Records `events` as the list of an identity.
    fn put(&mut self, user_id: &str, room_id: &str, events: Vec<String>)
        ensures
            final(self)@ == replaced(old(self)@, (user_id@, room_id@), texts(events@)),
    {
        let entry = Dialog { user: user_id.to_owned(), room: room_id.to_owned(), events };
        match self.find(user_id, room_id) {
            Some(k) => {
                let ghost before = self.inner@;
                self.inner.set(k, entry);
                proof {
                    lemma_recorded_update(before, self.inner@, (user_id@, room_id@), k as int);
                }
            },
            None => {
                proof {
                    lemma_recorded_push(self.inner@, entry, (user_id@, room_id@));
                }
                self.inner.push(entry);
            },
        }
    }

    /// The anchors of an identity. An identity that is new to the store gets
    /// an empty list.
    pub fn get_or_create(&mut self, user_id: &str, room_id: &str) -> (r: Vec<String>)
        ensures
            texts(r@) == anchors_of(old(self)@, (user_id@, room_id@)),
            final(self)@ == touched(old(self)@, (user_id@, room_id@)),
    {
        match self.find(user_id, room_id) {
            Some(k) => {
                proof {
                    lemma_slot_from(self.inner@, (user_id@, room_id@), 0);
                    assert(self@ =~= touched(self@, (user_id@, room_id@)));
                }
                copy_texts(&self.inner[k].events)
            },
            None => {
                let fresh: Vec<String> = Vec::new();
                assert(texts(fresh@) =~= Seq::empty());
                self.put(user_id, room_id, fresh);
                let list: Vec<String> = Vec::new();
                assert(texts(list@) =~= Seq::empty());
                list
            },
        }
    }

    /// Empties the list of an identity.
    pub fn clear(&mut self, user_id: &str, room_id: &str)
        ensures
            final(self)@ == cleared(old(self)@, (user_id@, room_id@)),
    {
        let fresh: Vec<String> = Vec::new();
        assert(texts(fresh@) =~= Seq::empty());
        self.put(user_id, room_id, fresh);
    }

    /// Appends anchors to the list of an identity.
    pub fn insert_events(&mut self, user_id: &str, room_id: &str, event_ids: Vec<String>)
        ensures
            final(self)@ == appended(old(self)@, (user_id@, room_id@), texts(event_ids@)),
    {
        let mut event_ids = event_ids;
        let ghost added = texts(event_ids@);
        let mut list = self.get_or_create(user_id, room_id);
        let ghost held = texts(list@);
        list.append(&mut event_ids);
        assert(texts(list@) =~= held + added);
        self.put(user_id, room_id, list);
        assert(self@ =~= appended(old(self)@, (user_id@, room_id@), added));
    }

    /// Replaces the list of an identity.
    pub fn set(&mut self, user_id: &str, room_id: &str, event_ids: Vec<String>)
        ensures
            final(self)@ == replaced(old(self)@, (user_id@, room_id@), texts(event_ids@)),
    {
        self.put(user_id, room_id, event_ids);
    }
}


} // verus!
