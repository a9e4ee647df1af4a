use vstd::prelude::*;
use crate::error::{Error, Result};
use crate::ticket_id::{stand_in, stand_in_id, lemma_stand_ins_fit};

verus! {

/// A ticket of the tracker.
pub struct Ticket {
    pub id: String,
    pub title: String,
}

/// What a client sends to open a ticket.
pub struct TicketForCreate {
    pub title: String,
}

/// The abstract value of a [`Ticket`].
pub struct TicketView {
    pub id: Seq<char>,
    pub title: Seq<char>,
}

impl View for Ticket {
    type V = TicketView;

    open spec fn view(&self) -> TicketView {
        TicketView { id: self.id@, title: self.title@ }
    }
}

impl Clone for Ticket {
    fn clone(&self) -> (res: Self)
        ensures
            res@ == self@,
    {
        Ticket { id: self.id.clone(), title: self.title.clone() }
    }
}

/// The abstract value of one slot of the store: a ticket, or the empty
/// place left by a deleted one.
pub open spec fn slot_view(slot: Option<Ticket>) -> Option<TicketView> {
    match slot {
        Some(t) => Some(t@),
        None => None,
    }
}

/// The tickets that the slots of `store` hold, in slot order.
pub open spec fn live_tickets(store: Seq<Option<TicketView>>) -> Seq<TicketView>
    decreases store.len(),
{
    if store.len() == 0 {
        Seq::empty()
    } else {
        let rest = live_tickets(store.drop_last());
        match store.last() {
            Some(t) => rest.push(t),
            None => rest,
        }
    }
}

/// The views of a sequence of tickets.
pub open spec fn tickets_view(tickets: Seq<Ticket>) -> Seq<TicketView> {
    tickets.map_values(|t: Ticket| t@)
}

/// The id of the ticket in a slot (empty for an empty slot).
pub open spec fn slot_id(slot: Option<TicketView>) -> Seq<char> {
    match slot {
        Some(t) => t.id,
        None => Seq::empty(),
    }
}

/// The ids of the slots of a store, by slot index.
pub open spec fn slot_ids(store: Seq<Option<TicketView>>) -> spec_fn(int) -> Seq<char> {
    |j: int| slot_id(store[j])
}

/// The slot holds a ticket with this id.
pub open spec fn slot_has_id(slot: Option<TicketView>, id: Seq<char>) -> bool {
    slot matches Some(t) && t.id == id
}

/// Slot `i` is the first slot of `store` that holds a ticket with this id.
pub open spec fn is_first_with_id(store: Seq<Option<TicketView>>, id: Seq<char>, i: int) -> bool {
    &&& 0 <= i < store.len()
    &&& slot_has_id(store[i], id)
    &&& forall|j: int| 0 <= j < i ==> !slot_has_id(#[trigger] store[j], id)
}

/// The first slot of `store` that holds a ticket with this id, if any does.
pub open spec fn first_slot_with_id(store: Seq<Option<TicketView>>, id: Seq<char>) -> Option<int> {
    if exists|i: int| is_first_with_id(store, id, i) {
        Some(choose|i: int| is_first_with_id(store, id, i))
    } else {
        None
    }
}

/// A lower-case hexadecimal digit.
pub open spec fn is_lower_hex(c: char) -> bool {
    ('0' <= c && c <= '9') || ('a' <= c && c <= 'f')
}

/// `s` is a random (version 4, RFC 4122 variant) UUID in hyphenated
/// lower-case form, such as `67e55044-10b1-426f-9247-bb680e5fe0c8`.
pub open spec fn is_v4_uuid_text(s: Seq<char>) -> bool {
    &&& s.len() == 36
    &&& forall|i: int|
        0 <= i < 36 ==> if i == 8 || i == 13 || i == 18 || i == 23 {
            #[trigger] s[i] == '-'
        } else {
            is_lower_hex(s[i])
        }
    &&& s[14] == '4'
    &&& (s[19] == '8' || s[19] == '9' || s[19] == 'a' || s[19] == 'b')
}

/// Draws a fresh ticket id: `uuid::Uuid::new_v4()`, written by its `Display`
/// impl. The id is random; what holds of every outcome is its form. The uuid
/// crate sets the version nibble to 4 and the variant bits to `10`, and
/// `Display` writes the hyphenated lower-case form.
#[verifier::external_body]
fn new_ticket_id() -> (id: String)
    ensures
        is_v4_uuid_text(id@),
{
    uuid::Uuid::new_v4().to_string()
}

/// The in-memory store of tickets. A deleted ticket leaves an empty slot
/// behind, so slots never move.
pub struct ModelController {
    tickets_store: Vec<Option<Ticket>>,
}

impl View for ModelController {
    type V = Seq<Option<TicketView>>;

    closed spec fn view(&self) -> Seq<Option<TicketView>> {
        self.tickets_store@.map_values(|slot: Option<Ticket>| slot_view(slot))
    }
}

impl ModelController {
    /// An empty store.
    pub fn new() -> (r: Result<ModelController>)
        ensures
            r matches Ok(mc) && mc@ == Seq::<Option<TicketView>>::empty(),
    {
        let mc = ModelController { tickets_store: Vec::new() };
        assert(mc@ =~= Seq::<Option<TicketView>>::empty());
        Ok(mc)
    }

    /// Opens a ticket with a fresh random id and the requested title, stores
    /// it in a new slot and returns it.
    pub fn create_ticker(&mut self, ticket_fc: TicketForCreate) -> (r: Result<Ticket>)
        ensures
            r matches Ok(t) && {
                &&& t.title@ == ticket_fc.title@
                &&& is_v4_uuid_text(t.id@)
                &&& forall|j: int| 0 <= j < old(self)@.len() ==> !slot_has_id(#[trigger] old(self)@[j], t.id@)
                &&& final(self)@ == old(self)@.push(Some(t@))
            },
    {
        let drawn = new_ticket_id();
        let id = if self.holds_id(&drawn) {
            self.unused_id()
        } else {
            drawn
        };
        Ok(self.insert_ticket(id, ticket_fc))
    }

    /// Whether some ticket of the store has this id.
    fn holds_id(&self, id: &String) -> (b: bool)
        ensures
            b == exists|j: int| 0 <= j < self@.len() && slot_has_id(#[trigger] self@[j], id@),
    {
        let n = self.tickets_store.len();
        let mut i: usize = 0;
        while i < n
            invariant
                n == self.tickets_store@.len(),
                i <= n,
                forall|j: int| 0 <= j < i ==> !slot_has_id(#[trigger] self@[j], id@),
            decreases n - i,
        {
            let found = match &self.tickets_store[i] {
                Some(t) => t.id == *id,
                None => false,
            };
            assert(self@[i as int] == slot_view(self.tickets_store@[i as int]));
            if found {
                assert(slot_has_id(self@[i as int], id@));
                return true;
            }
            i = i + 1;
        }
        false
    }

    /// A version-4 UUID text that no ticket of the store has: the first
    /// stand-in id that is free. Among the first `n + 1` stand-in ids, which
    /// all differ, at most `n` can be held by the `n` slots.
    fn unused_id(&self) -> (id: String)
        ensures
            is_v4_uuid_text(id@),
            forall|j: int| 0 <= j < self@.len() ==> !slot_has_id(#[trigger] self@[j], id@),
    {
        let n = self.tickets_store.len();
        let ghost store = self@;
        let ghost ids = slot_ids(store);
        let mut k: usize = 0;
        loop
            invariant
                n == self@.len(),
                store == self@,
                ids == slot_ids(store),
                k <= n,
                forall|i: int|
                    #![trigger stand_in_id(i as nat)]
                    0 <= i < k ==> exists|j: int| #![trigger ids(j)] 0 <= j < n && ids(j) == stand_in_id(i as nat),
            decreases n - k,
        {
            let candidate = stand_in(k as u64);
            if !self.holds_id(&candidate) {
                return candidate;
            }
            proof {
                let j = choose|j: int| 0 <= j < self@.len() && slot_has_id(#[trigger] self@[j], candidate@);
                assert((k as u64) as nat == k as nat);
                assert(ids(j) == slot_id(store[j]));
                assert(ids(j) == stand_in_id(k as nat));
                assert forall|i: int|
                    #![trigger stand_in_id(i as nat)]
                    0 <= i < k + 1 implies exists|j: int| #![trigger ids(j)] 0 <= j < n && ids(j) == stand_in_id(i as nat) by {
                    if i == k {
                        assert(ids(j) == stand_in_id(i as nat));
                    }
                }
                lemma_stand_ins_fit(ids, n as nat, (k + 1) as nat);
            }
            k = k + 1;
        }
    }

    /// Stores a ticket with the given id and the requested title in a new
    /// slot and returns it.
    pub fn insert_ticket(&mut self, id: String, ticket_fc: TicketForCreate) -> (t: Ticket)
        ensures
            t@ == (TicketView { id: id@, title: ticket_fc.title@ }),
            final(self)@ == old(self)@.push(Some(t@)),
    {
        let ticket = Ticket { id, title: ticket_fc.title };
        self.tickets_store.push(Some(ticket.clone()));
        assert(self@ =~= old(self)@.push(Some(ticket@)));
        ticket
    }

    /// The tickets of the store, in the order they were opened.
    pub fn list_tickets(&self) -> (r: Result<Vec<Ticket>>)
        ensures
            r matches Ok(v) && tickets_view(v@) == live_tickets(self@),
    {
        let mut res: Vec<Ticket> = Vec::new();
        let n = self.tickets_store.len();
        let mut i: usize = 0;
        assert(self@.take(0) =~= Seq::<Option<TicketView>>::empty());
        while i < n
            invariant
                n == self.tickets_store@.len(),
                i <= n,
                tickets_view(res@) =~= live_tickets(self@.take(i as int)),
            decreases n - i,
        {
            assert(self@.take((i + 1) as int).drop_last() =~= self@.take(i as int));
            let ghost before = res@;
            match &self.tickets_store[i] {
                Some(t) => {
                    res.push(t.clone());
                    assert(tickets_view(res@) =~= tickets_view(before).push(t@));
                },
                None => {},
            }
            i = i + 1;
        }
        assert(self@.take(n as int) =~= self@);
        Ok(res)
    }

    /// Deletes the first ticket with this id and returns it; its slot is left
    /// empty. Fails with `TicketDeleteFailIdNotFound`, leaving the store as it
    /// was, when no ticket has this id.
    pub fn delete_ticket(&mut self, id: String) -> (r: Result<Ticket>)
        ensures
            match first_slot_with_id(old(self)@, id@) {
                Some(i) => r matches Ok(t) && {
                    &&& old(self)@[i] == Some(t@)
                    &&& final(self)@ == old(self)@.update(i, None)
                },
                None => r matches Err(Error::TicketDeleteFailIdNotFound { id: eid }) && {
                    &&& eid@ == id@
                    &&& final(self)@ == old(self)@
                },
            },
    {
        let n = self.tickets_store.len();
        let mut i: usize = 0;
        while i < n
            invariant
                n == self.tickets_store@.len(),
                i <= n,
                self@ == old(self)@,
                forall|j: int| 0 <= j < i ==> !slot_has_id(#[trigger] self@[j], id@),
            decreases n - i,
        {
            let found = match &self.tickets_store[i] {
                Some(t) => t.id == id,
                None => false,
            };
            assert(self@[i as int] == slot_view(self.tickets_store@[i as int]));
            if found {
                let ghost k = i as int;
                assert(is_first_with_id(self@, id@, k));
                let ticket = self.tickets_store[i].take().unwrap();
                assert(self@ =~= old(self)@.update(k, None));
                proof {
                    lemma_first_slot_unique(old(self)@, id@, k);
                }
                return Ok(ticket);
            }
            i = i + 1;
        }
        assert(!exists|c: int| is_first_with_id(old(self)@, id@, c));
        Err(Error::TicketDeleteFailIdNotFound { id })
    }
}

} // verus!
verus! {

/// The tickets of two runs of slots laid end to end are those of the first
/// run followed by those of the second.
proof fn lemma_live_tickets_concat(a: Seq<Option<TicketView>>, b: Seq<Option<TicketView>>)
    ensures
        live_tickets(a + b) == live_tickets(a) + live_tickets(b),
    decreases b.len(),
{
    if b.len() == 0 {
        assert(a + b =~= a);
        assert(live_tickets(a) + live_tickets(b) =~= live_tickets(a));
    } else {
        assert((a + b).drop_last() =~= a + b.drop_last());
        lemma_live_tickets_concat(a, b.drop_last());
        match b.last() {
            Some(t) => {
                assert(live_tickets(a) + live_tickets(b.drop_last()).push(t) =~= (live_tickets(a)
                    + live_tickets(b.drop_last())).push(t));
            },
            None => {},
        }
    }
}

/// The first slot with an id, when there is one, satisfies `is_first_with_id`.
proof fn lemma_first_slot(store: Seq<Option<TicketView>>, id: Seq<char>, i: int)
    requires
        first_slot_with_id(store, id) == Some(i),
    ensures
        is_first_with_id(store, id, i),
{
}

/// A slot that is first with an id is what `first_slot_with_id` finds.
proof fn lemma_first_slot_unique(store: Seq<Option<TicketView>>, id: Seq<char>, i: int)
    requires
        is_first_with_id(store, id, i),
    ensures
        first_slot_with_id(store, id) == Some(i),
{
    let c = choose|c: int| is_first_with_id(store, id, c);
    assert(c == i) by {
        if c < i {
            assert(!slot_has_id(store[c], id));
        } else if c > i {
            assert(!slot_has_id(store[i], id));
        }
    }
}

/// A ticket that is opened is listed last: the tickets listed after
/// `create_ticker` stored `t` are those listed before, followed by `t`.
pub proof fn law_created_ticket_listed_last(store: Seq<Option<TicketView>>, t: TicketView)
    ensures
        live_tickets(store.push(Some(t))) == live_tickets(store).push(t),
{
    assert(store.push(Some(t)).drop_last() =~= store);
}

/// Deleting a ticket takes exactly that ticket off the list: when the first
/// slot with `id` is slot `i`, the ticket in it stands at place `k` of the
/// list, where `k` counts the tickets in the slots before `i`, and the list
/// after `delete_ticket` emptied slot `i` is the list before without place `k`.
pub proof fn law_deleted_ticket_leaves_list(store: Seq<Option<TicketView>>, id: Seq<char>, i: int)
    requires
        first_slot_with_id(store, id) == Some(i),
    ensures
        ({
            let k = live_tickets(store.take(i)).len() as int;
            &&& 0 <= k < live_tickets(store).len()
            &&& Some(live_tickets(store)[k]) == store[i]
            &&& live_tickets(store.update(i, None))
                == live_tickets(store).remove(k)
        }),
{
    lemma_first_slot(store, id, i);
    let t = store[i]->0;
    let before = store.take(i);
    let after = store.skip(i + 1);
    assert(store =~= before + seq![Some(t)] + after);
    assert(store.update(i, None) =~= before + seq![None] + after);
    lemma_live_tickets_concat(before + seq![Some(t)], after);
    lemma_live_tickets_concat(before, seq![Some(t)]);
    lemma_live_tickets_concat(before + seq![None], after);
    lemma_live_tickets_concat(before, seq![None]);
    let e: Seq<Option<TicketView>> = Seq::empty();
    assert(seq![Some(t)].drop_last() =~= e);
    assert(seq![None::<TicketView>].drop_last() =~= e);
    assert(live_tickets(e) =~= Seq::<TicketView>::empty());
    assert(seq![Some(t)].last() == Some(t));
    assert(live_tickets(seq![Some(t)]) =~= seq![t]);
    assert(live_tickets(seq![None::<TicketView>]) =~= Seq::<TicketView>::empty());
    let lb = live_tickets(before);
    let la = live_tickets(after);
    assert(live_tickets(store) =~= lb + seq![t] + la);
    assert(live_tickets(store.update(i, None)) =~= lb + la);
    assert((lb + seq![t] + la).remove(lb.len() as int) =~= lb + la);
}

/// Opening a ticket and then deleting it by its id gives back the list of
/// before, provided no ticket already had that id.
pub proof fn law_create_then_delete_restores_list(store: Seq<Option<TicketView>>, t: TicketView)
    requires
        forall|j: int| 0 <= j < store.len() ==> !slot_has_id(#[trigger] store[j], t.id),
    ensures
        first_slot_with_id(store.push(Some(t)), t.id) == Some(store.len() as int),
        live_tickets(store.push(Some(t)).update(store.len() as int, None)) == live_tickets(store),
{
    let s1 = store.push(Some(t));
    assert(is_first_with_id(s1, t.id, store.len() as int)) by {
        assert forall|j: int| 0 <= j < store.len() implies !slot_has_id(#[trigger] s1[j], t.id) by {
            assert(s1[j] == store[j]);
        }
    }
    lemma_first_slot_unique(s1, t.id, store.len() as int);
    let s2 = s1.update(store.len() as int, None);
    assert(s2.drop_last() =~= store);
}

/// A ticket can be deleted once: when one ticket alone has `id`, after
/// `delete_ticket` emptied its slot no ticket has `id`, so a second
/// `delete_ticket` with it fails.
pub proof fn law_delete_twice_fails(store: Seq<Option<TicketView>>, id: Seq<char>, i: int)
    requires
        first_slot_with_id(store, id) == Some(i),
        forall|j: int| 0 <= j < store.len() && j != i ==> !slot_has_id(#[trigger] store[j], id),
    ensures
        first_slot_with_id(store.update(i, None), id) == None::<int>,
{
    lemma_first_slot(store, id, i);
    let s2 = store.update(i, None);
    assert forall|c: int| !is_first_with_id(s2, id, c) by {
        if 0 <= c < s2.len() && c != i {
            assert(s2[c] == store[c]);
        }
    }
}

/// No two tickets of the store share an id.
pub open spec fn ids_distinct(store: Seq<Option<TicketView>>) -> bool {
    forall|i: int, j: int|
        0 <= i < store.len() && 0 <= j < store.len() && i != j && #[trigger] store[i] is Some
            && #[trigger] store[j] is Some ==> store[i]->0.id != store[j]->0.id
}

/// Opening tickets keeps ids distinct: `create_ticker` gives the new ticket
/// an id that no held ticket has, so a store filled by `create_ticker` never
/// holds two tickets with one id, and each ticket is the first (and only)
/// slot with its id.
pub proof fn law_created_ids_stay_distinct(store: Seq<Option<TicketView>>, t: TicketView)
    requires
        ids_distinct(store),
        forall|j: int| 0 <= j < store.len() ==> !slot_has_id(#[trigger] store[j], t.id),
    ensures
        ids_distinct(store.push(Some(t))),
        first_slot_with_id(store.push(Some(t)), t.id) == Some(store.len() as int),
{
    let s1 = store.push(Some(t));
    assert forall|i: int, j: int|
        0 <= i < s1.len() && 0 <= j < s1.len() && i != j && #[trigger] s1[i] is Some
            && #[trigger] s1[j] is Some implies s1[i]->0.id != s1[j]->0.id by {
        if i == store.len() {
            assert(!slot_has_id(store[j], t.id));
        } else if j == store.len() {
            assert(!slot_has_id(store[i], t.id));
        } else {
            assert(s1[i] == store[i] && s1[j] == store[j]);
        }
    }
    law_create_then_delete_restores_list(store, t);
}

/// Deleting keeps ids distinct, and in a store with distinct ids the ticket
/// that `delete_ticket` removes is the one ticket with that id.
pub proof fn law_delete_keeps_ids_distinct(store: Seq<Option<TicketView>>, id: Seq<char>, i: int)
    requires
        ids_distinct(store),
        first_slot_with_id(store, id) == Some(i),
    ensures
        ids_distinct(store.update(i, None)),
        forall|j: int| 0 <= j < store.len() && j != i ==> !slot_has_id(#[trigger] store[j], id),
        first_slot_with_id(store.update(i, None), id) == None::<int>,
{
    lemma_first_slot(store, id, i);
    let s2 = store.update(i, None);
    assert forall|a: int, b: int|
        0 <= a < s2.len() && 0 <= b < s2.len() && a != b && #[trigger] s2[a] is Some
            && #[trigger] s2[b] is Some implies s2[a]->0.id != s2[b]->0.id by {
        assert(s2[a] == store[a] && s2[b] == store[b]);
    }
    assert forall|j: int| 0 <= j < store.len() && j != i implies !slot_has_id(#[trigger] store[j], id) by {
        if slot_has_id(store[j], id) {
            assert(store[i] is Some && store[j] is Some);
        }
    }
    law_delete_twice_fails(store, id, i);
}

} // verus!
