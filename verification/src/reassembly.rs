//! Reassembly buffer: for each inbound session, one slot per fragment, filled
//! as the fragments arrive, until the message is whole.

use crate::message::{fragments_of, joined_data};
use crate::packet::{Fragment, FragmentView, Session};
use std::collections::HashMap;
use vstd::prelude::*;

verus! {

broadcast use vstd::std_specs::hash::group_hash_axioms;

/// The slots of one session: the fragment at each index, where it has come.
pub type Slots = Seq<Option<FragmentView>>;

/// The value of a slot.
pub open spec fn slot_view(slot: Option<Fragment>) -> Option<FragmentView> {
    match slot {
        Some(f) => Some(f@),
        None => None,
    }
}

/// The values of a list of slots.
pub open spec fn slot_views(slots: Seq<Option<Fragment>>) -> Slots {
    Seq::new(slots.len(), |i: int| slot_view(slots[i]))
}

/// `n` slots, none of them filled.
pub open spec fn empty_slots(n: nat) -> Slots {
    Seq::new(n, |i: int| None::<FragmentView>)
}

/// There is at least one slot and every slot is filled.
pub open spec fn complete(slots: Slots) -> bool {
    slots.len() > 0 && forall|i: int| 0 <= i < slots.len() ==> (#[trigger] slots[i]) is Some
}

/// The payloads of the filled slots, joined in slot order.
pub open spec fn joined_slots(slots: Slots) -> Seq<u8>
    decreases slots.len(),
{
    if slots.len() == 0 {
        Seq::empty()
    } else {
        joined_slots(slots.drop_last()) + (match slots.last() {
            Some(f) => f.data,
            None => Seq::empty(),
        })
    }
}

/// `slots` after `f` arrived: `f` fills the slot at its index if that slot
/// exists and is still empty; otherwise nothing changes.
pub open spec fn placed(slots: Slots, f: FragmentView) -> Slots {
    if f.fragment_index < slots.len() && slots[f.fragment_index as int] is None {
        slots.update(f.fragment_index as int, Some(f))
    } else {
        slots
    }
}

/// Whether a first fragment can open a session: it announces at least one
/// fragment, and no more than a list can hold.
pub open spec fn opens_session(f: FragmentView) -> bool {
    1 <= f.total_n_fragments <= usize::MAX
}

/// The slots that `f` is placed into: those of its session, or, for the
/// first fragment of a session, as many empty slots as it announces.
pub open spec fn slots_for(store: Map<Session, Slots>, session: Session, f: FragmentView) -> Slots {
    if store.contains_key(session) {
        store[session]
    } else {
        empty_slots(f.total_n_fragments as nat)
    }
}

/// Whether `f` is taken in at all: its session is open, or it can open one.
pub open spec fn accepted(store: Map<Session, Slots>, session: Session, f: FragmentView) -> bool {
    store.contains_key(session) || opens_session(f)
}

/// The payload that the arrival of `f` completes, if it completes one.
pub open spec fn completed_by(store: Map<Session, Slots>, session: Session, f: FragmentView) -> Option<
    Seq<u8>,
> {
    let slots = placed(slots_for(store, session, f), f);
    if accepted(store, session, f) && complete(slots) {
        Some(joined_slots(slots))
    } else {
        None
    }
}

/// `store` after the fragment `f` of `session` arrived: a completed session
/// leaves the store, an incomplete one keeps its slots.
pub open spec fn after_store(store: Map<Session, Slots>, session: Session, f: FragmentView) -> Map<
    Session,
    Slots,
> {
    let slots = placed(slots_for(store, session, f), f);
    if !accepted(store, session, f) {
        store
    } else if complete(slots) {
        store.remove(session)
    } else {
        store.insert(session, slots)
    }
}

/// Where every slot is filled, the slots join to what their fragments join
/// to.
pub proof fn lemma_joined_filled(frags: Seq<FragmentView>)
    ensures
        joined_slots(Seq::new(frags.len(), |i: int| Some(frags[i]))) == joined_data(frags),
    decreases frags.len(),
{
    let slots = Seq::new(frags.len(), |i: int| Some(frags[i]));
    if frags.len() > 0 {
        lemma_joined_filled(frags.drop_last());
        assert(slots.drop_last() =~= Seq::new(
            frags.drop_last().len(),
            |i: int| Some(frags.drop_last()[i]),
        ));
    }
}

/// Slots that hold the fragments of a payload, each at its index, join to
/// that payload.
pub proof fn lemma_reassembly_round_trip(bytes: Seq<u8>)
    ensures
        complete(Seq::new(fragments_of(bytes).len(), |i: int| Some(fragments_of(bytes)[i]))),
        joined_slots(Seq::new(fragments_of(bytes).len(), |i: int| Some(fragments_of(bytes)[i])))
            == bytes,
{
    lemma_joined_filled(fragments_of(bytes));
    crate::message::lemma_fragment_round_trip(bytes);
}

/// `store` after the fragments `frags` of `session` arrived, one after the
/// other.
pub open spec fn after_store_all(store: Map<Session, Slots>, session: Session, frags: Seq<FragmentView>) -> Map<
    Session,
    Slots,
>
    decreases frags.len(),
{
    if frags.len() == 0 {
        store
    } else {
        after_store(after_store_all(store, session, frags.drop_last()), session, frags.last())
    }
}

/// The slots of a message of `frags.len()` fragments of which the first
/// `k` have arrived.
pub open spec fn first_filled(frags: Seq<FragmentView>, k: int) -> Slots {
    Seq::new(
        frags.len(),
        |i: int|
            if i < k {
                Some(frags[i])
            } else {
                None
            },
    )
}

/// While the fragments of a payload arrive in index order at a buffer that
/// does not hold their session, each fragment before the last leaves the
/// message incomplete, with the slots of the fragments so far filled.
proof fn lemma_in_order_prefix(store: Map<Session, Slots>, session: Session, bytes: Seq<u8>, k: int)
    requires
        !store.contains_key(session),
        bytes.len() <= usize::MAX,
        0 <= k < fragments_of(bytes).len(),
    ensures
        ({
            let frags = fragments_of(bytes);
            let so_far = after_store_all(store, session, frags.subrange(0, k));
            &&& k == 0 ==> so_far == store
            &&& k > 0 ==> so_far == store.insert(session, first_filled(frags, k))
        }),
    decreases k,
{
    let frags = fragments_of(bytes);
    let n = frags.len();
    if k == 0 {
        assert(frags.subrange(0, 0) =~= Seq::<FragmentView>::empty());
    } else {
        lemma_in_order_prefix(store, session, bytes, k - 1);
        let prior = after_store_all(store, session, frags.subrange(0, k - 1));
        let f = frags[k - 1];
        assert(frags.subrange(0, k).drop_last() == frags.subrange(0, k - 1));
        assert(frags.subrange(0, k).last() == f);
        assert(f.fragment_index == k - 1 && f.total_n_fragments == n);
        let slots = placed(slots_for(prior, session, f), f);
        if k == 1 {
            assert(slots_for(prior, session, f) =~= first_filled(frags, 0));
        }
        assert(slots =~= first_filled(frags, k));
        assert(slots[k] is None);
    }
}

/// The fragments of a payload, arriving in index order at a buffer that
/// does not hold their session, complete the message with the last
/// fragment, and not before; the completed payload is the one that was cut,
/// and the buffer is left as it was.
pub proof fn lemma_in_order_reassembly(store: Map<Session, Slots>, session: Session, bytes: Seq<u8>)
    requires
        !store.contains_key(session),
        bytes.len() <= usize::MAX,
    ensures
        ({
            let frags = fragments_of(bytes);
            let n = frags.len() as int;
            &&& forall|k: int|
                0 <= k < n - 1 ==> #[trigger] completed_by(
                    after_store_all(store, session, frags.subrange(0, k)),
                    session,
                    frags[k],
                ) is None
            &&& completed_by(
                after_store_all(store, session, frags.subrange(0, n - 1)),
                session,
                frags[n - 1],
            ) == Some(bytes)
            &&& after_store_all(store, session, frags) == store
        }),
{
    let frags = fragments_of(bytes);
    let n = frags.len() as int;
    assert forall|k: int| 0 <= k < n - 1 implies #[trigger] completed_by(
        after_store_all(store, session, frags.subrange(0, k)),
        session,
        frags[k],
    ) is None by {
        lemma_in_order_prefix(store, session, bytes, k);
        let prior = after_store_all(store, session, frags.subrange(0, k));
        let f = frags[k];
        assert(f.fragment_index == k && f.total_n_fragments == n);
        let slots = placed(slots_for(prior, session, f), f);
        if k == 0 {
            assert(slots_for(prior, session, f) =~= first_filled(frags, 0));
        }
        assert(slots =~= first_filled(frags, k + 1));
        assert(slots[k + 1] is None);
    }
    lemma_in_order_prefix(store, session, bytes, n - 1);
    let prior = after_store_all(store, session, frags.subrange(0, n - 1));
    let f = frags[n - 1];
    assert(f.fragment_index == n - 1 && f.total_n_fragments == n);
    let slots = placed(slots_for(prior, session, f), f);
    if n == 1 {
        assert(slots_for(prior, session, f) =~= first_filled(frags, 0));
    }
    assert(slots =~= Seq::new(frags.len(), |i: int| Some(frags[i])));
    lemma_reassembly_round_trip(bytes);
    assert(frags.drop_last() == frags.subrange(0, n - 1));
    assert(after_store(prior, session, f) =~= store);
}

/// Partial messages, per inbound session.
pub struct Reassembly {
    entries: HashMap<Session, Vec<Option<Fragment>>>,
}

/// As many empty slots as `total` says.
fn new_slots(total: usize) -> (res: Vec<Option<Fragment>>)
    ensures
        slot_views(res@) == empty_slots(total as nat),
{
    let mut slots: Vec<Option<Fragment>> = Vec::new();
    let mut i: usize = 0;
    while i < total
        invariant
            i <= total,
            slots.len() == i,
            forall|j: int| 0 <= j < i ==> (#[trigger] slots@[j]) is None,
        decreases total - i,
    {
        slots.push(None);
        i += 1;
    }
    assert(slot_views(slots@) =~= empty_slots(total as nat));
    slots
}

/// Whether every slot is filled, and there is one.
fn all_filled(slots: &Vec<Option<Fragment>>) -> (res: bool)
    ensures
        res == complete(slot_views(slots@)),
{
    if slots.len() == 0 {
        return false;
    }
    let mut i: usize = 0;
    while i < slots.len()
        invariant
            i <= slots.len(),
            forall|j: int| 0 <= j < i ==> (#[trigger] slot_views(slots@)[j]) is Some,
        decreases slots.len() - i,
    {
        if slots[i].is_none() {
            assert(slot_views(slots@)[i as int] is None);
            return false;
        }
        assert(slot_views(slots@)[i as int] is Some);
        i += 1;
    }
    true
}

/// Joins the payloads of the filled slots in slot order.
fn join_slots(slots: &Vec<Option<Fragment>>) -> (res: Vec<u8>)
    ensures
        res@ == joined_slots(slot_views(slots@)),
{
    let ghost views = slot_views(slots@);
    let mut out: Vec<u8> = Vec::new();
    let mut i: usize = 0;
    assert(views.subrange(0, 0) =~= Seq::<Option<FragmentView>>::empty());
    while i < slots.len()
        invariant
            i <= slots.len(),
            views == slot_views(slots@),
            out@ == joined_slots(views.subrange(0, i as int)),
        decreases slots.len() - i,
    {
        proof {
            assert(views.subrange(0, i + 1).drop_last() == views.subrange(0, i as int));
            assert(views.subrange(0, i + 1).last() == slot_view(slots@[i as int]));
        }
        match &slots[i] {
            Some(f) => {
                let ghost before = out@;
                let mut k: usize = 0;
                while k < f.data.len()
                    invariant
                        k <= f.data.len(),
                        out@ == before + f.data@.subrange(0, k as int),
                    decreases f.data.len() - k,
                {
                    out.push(f.data[k]);
                    assert(out@ == before + f.data@.subrange(0, k + 1));
                    k += 1;
                }
                assert(f.data@.subrange(0, f.data.len() as int) == f.data@);
            },
            None => {
                assert(out@ + Seq::<u8>::empty() == out@);
            },
        }
        i += 1;
    }
    assert(views.subrange(0, slots.len() as int) == views);
    out
}

impl Reassembly {
    /// The buffer as a map from session to its slots.
    pub closed spec fn view(&self) -> Map<Session, Slots> {
        Map::new(
            |s: Session| self.entries@.contains_key(s),
            |s: Session| slot_views(self.entries@[s]@),
        )
    }

    /// An empty buffer.
    pub fn new() -> (res: Self)
        ensures
            res@ == Map::<Session, Slots>::empty(),
    {
        let res = Reassembly { entries: HashMap::new() };
        assert(res@ =~= Map::<Session, Slots>::empty());
        res
    }

    /// Whether a partial message is held for `session`.
    pub fn contains(&self, session: Session) -> (res: bool)
        ensures
            res == self@.contains_key(session),
    {
        self.entries.contains_key(&session)
    }

    /// Takes in the fragment `fragment` of `session`. The first fragment of a
    /// session opens as many slots as it announces; a fragment fills the slot
    /// at its index unless that slot is filled already or does not exist.
    /// When that leaves no slot empty, the session leaves the buffer and the
    /// joined payload is returned.
    pub fn store(&mut self, session: Session, fragment: Fragment) -> (res: Option<Vec<u8>>)
        ensures
            final(self)@ == after_store(old(self)@, session, fragment@),
            match res {
                Some(payload) => completed_by(old(self)@, session, fragment@) == Some(payload@),
                None => completed_by(old(self)@, session, fragment@) is None,
            },
    {
        let ghost fv = fragment@;
        let known = self.entries.contains_key(&session);
        if !known && (fragment.total_n_fragments == 0 || fragment.total_n_fragments
            > usize::MAX as u64) {
            return None;
        }
        let taken = self.entries.remove(&session);
        let mut slots: Vec<Option<Fragment>> = match taken {
            Some(slots) => slots,
            None => new_slots(fragment.total_n_fragments as usize),
        };
        assert(slot_views(slots@) == slots_for(old(self)@, session, fv));
        let ghost prior = slot_views(slots@);
        let index = fragment.fragment_index;
        if index < slots.len() as u64 && slots[index as usize].is_none() {
            slots.set(index as usize, Some(fragment));
        }
        assert(slot_views(slots@) =~= placed(prior, fv));
        if all_filled(&slots) {
            let payload = join_slots(&slots);
            assert(final(self)@ =~= after_store(old(self)@, session, fv));
            Some(payload)
        } else {
            self.entries.insert(session, slots);
            assert(final(self)@ =~= after_store(old(self)@, session, fv));
            None
        }
    }
}

} // verus!
