//! The pin collection: captured texts and images kept for later, at most
//! one per id, in the order they were (last) pinned.
use vstd::prelude::*;
use crate::scrolling::{is_uuid_v4_text, new_uuid_v4_text};

verus! {

/// The content of a pin.
pub enum PinData {
    Text(String),
    /// A base64-encoded image.
    ImageBase64(String),
}

impl Clone for PinData {
    fn clone(&self) -> (r: Self)
        ensures
            r == *self,
    {
        match self {
            PinData::Text(s) => PinData::Text(s.clone()),
            PinData::ImageBase64(s) => PinData::ImageBase64(s.clone()),
        }
    }
}

/// A pinned item.
pub struct PinItem {
    pub id: String,
    pub data: PinData,
    /// Seconds since the Unix epoch when it was pinned.
    pub timestamp: u64,
}

impl Clone for PinItem {
    fn clone(&self) -> (r: Self)
        ensures
            r == *self,
    {
        PinItem { id: self.id.clone(), data: self.data.clone(), timestamp: self.timestamp }
    }
}

/// The pin collection.
pub struct PinState {
    pub pins: Vec<PinItem>,
}

/// The pins whose id differs from `id`, in order.
pub open spec fn without_id(pins: Seq<PinItem>, id: Seq<char>) -> Seq<PinItem>
    decreases pins.len(),
{
    if pins.len() == 0 {
        Seq::empty()
    } else {
        let rest = without_id(pins.drop_last(), id);
        if pins.last().id@ == id {
            rest
        } else {
            rest.push(pins.last())
        }
    }
}

/// The first pin with the given id.
pub open spec fn find_pin(pins: Seq<PinItem>, id: Seq<char>) -> Option<PinItem>
    decreases pins.len(),
{
    if pins.len() == 0 {
        None
    } else {
        match find_pin(pins.drop_last(), id) {
            Some(p) => Some(p),
            None => if pins.last().id@ == id {
                Some(pins.last())
            } else {
                None
            },
        }
    }
}

proof fn lemma_find_pin_concat(a: Seq<PinItem>, b: Seq<PinItem>, id: Seq<char>)
    ensures
        find_pin(a + b, id) == (match find_pin(a, id) {
            Some(p) => Some(p),
            None => find_pin(b, id),
        }),
    decreases b.len(),
{
    if b.len() == 0 {
        assert(a + b =~= a);
    } else {
        lemma_find_pin_concat(a, b.drop_last(), id);
        assert((a + b).drop_last() =~= a + b.drop_last());
        assert((a + b).last() == b.last());
    }
}

proof fn lemma_find_pin_single(x: PinItem, id: Seq<char>)
    ensures
        find_pin(seq![x], id) == (if x.id@ == id { Some(x) } else { None }),
{
    assert(seq![x].drop_last() =~= Seq::<PinItem>::empty());
    assert(find_pin(Seq::<PinItem>::empty(), id) is None);
    assert(seq![x].last() == x);
}

/// The collection after pinning `data` under `id` at time `timestamp`:
/// any pin with that id is replaced and the new one goes last.
pub open spec fn pinned(pins: Seq<PinItem>, id: String, data: PinData, timestamp: u64) -> Seq<PinItem> {
    without_id(pins, id@).push(PinItem { id, data, timestamp })
}

/// Number of pins with the given id.
pub open spec fn count_id(pins: Seq<PinItem>, id: Seq<char>) -> nat
    decreases pins.len(),
{
    if pins.len() == 0 {
        0
    } else {
        count_id(pins.drop_last(), id) + if pins.last().id@ == id { 1nat } else { 0nat }
    }
}

/// No two pins share an id.
pub open spec fn ids_unique(pins: Seq<PinItem>) -> bool {
    forall|i: int, j: int| 0 <= i < j < pins.len() ==> pins[i].id@ != pins[j].id@
}

/// Seconds since the Unix epoch by the system clock (`SystemTime::now`),
/// 0 when the clock is set before the epoch. Nothing is stated of the
/// value: it depends on the clock.
#[verifier::external_body]
fn unix_time_secs() -> u64 {
    std::time::SystemTime::now().duration_since(std::time::UNIX_EPOCH).map(|d| d.as_secs()).unwrap_or(0)
}

impl PinState {
    /// An empty collection.
    pub fn new() -> (s: Self)
        ensures
            s.pins@.len() == 0,
    {
        PinState { pins: Vec::new() }
    }

    /// Pins `data` under `id`, stamped with `timestamp`, replacing any pin
    /// with the same id.
    pub fn add_pin_at(&mut self, id: String, data: PinData, timestamp: u64)
        ensures
            final(self).pins@ == pinned(old(self).pins@, id, data, timestamp),
    {
        self.remove_pin(id.as_str());
        self.pins.push(PinItem { id, data, timestamp });
    }

    /// Pins `data` under `id`, stamped with the current time, replacing any
    /// pin with the same id.
    pub fn add_pin(&mut self, id: String, data: PinData)
        ensures
            exists|t: u64| final(self).pins@ == pinned(old(self).pins@, id, data, t),
    {
        let t = unix_time_secs();
        self.add_pin_at(id, data, t);
    }

    /// Pins recognized text under a fresh random version-4 UUID, stamped
    /// with the current time; returns the id.
    pub fn add_text_pin(&mut self, text: String) -> (id: String)
        ensures
            is_uuid_v4_text(id@),
            exists|t: u64| final(self).pins@ == pinned(old(self).pins@, id, PinData::Text(text), t),
    {
        let id = new_uuid_v4_text();
        self.add_pin(id.clone(), PinData::Text(text));
        id
    }

    /// A copy of the first pin with the given id.
    pub fn get_pin(&self, id: &str) -> (r: Option<PinItem>)
        ensures
            r == find_pin(self.pins@, id@),
    {
        let id_s = String::from_str(id);
        let ghost ps = self.pins@;
        let mut i: usize = 0;
        assert(ps.take(0) =~= Seq::<PinItem>::empty());
        while i < self.pins.len()
            invariant
                0 <= i <= self.pins@.len(),
                ps == self.pins@,
                id_s@ == id@,
                find_pin(ps.take(i as int), id@) is None,
            decreases self.pins@.len() - i,
        {
            proof {
                lemma_find_pin_concat(ps.take(i as int), seq![ps[i as int]], id@);
                lemma_find_pin_single(ps[i as int], id@);
                assert(ps.take(i + 1) =~= ps.take(i as int) + seq![ps[i as int]]);
            }
            if self.pins[i].id == id_s {
                proof {
                    lemma_find_pin_concat(ps.take(i + 1), ps.skip(i + 1), id@);
                    assert(ps.take(i + 1) + ps.skip(i + 1) =~= ps);
                }
                return Some(self.pins[i].clone());
            }
            i = i + 1;
        }
        assert(ps.take(i as int) =~= ps);
        None
    }

    /// A copy of all pins, in order.
    pub fn get_all_pins(&self) -> (r: Vec<PinItem>)
        ensures
            r@ == self.pins@,
    {
        let mut r: Vec<PinItem> = Vec::new();
        let mut i: usize = 0;
        while i < self.pins.len()
            invariant
                0 <= i <= self.pins@.len(),
                r@ == self.pins@.take(i as int),
            decreases self.pins@.len() - i,
        {
            r.push(self.pins[i].clone());
            assert(self.pins@.take(i + 1) =~= self.pins@.take(i as int).push(self.pins@[i as int]));
            i = i + 1;
        }
        assert(self.pins@.take(i as int) =~= self.pins@);
        r
    }

    /// Removes every pin with the given id.
    pub fn remove_pin(&mut self, id: &str)
        ensures
            final(self).pins@ == without_id(old(self).pins@, id@),
    {
        let id_s = String::from_str(id);
        let mut rest: Vec<PinItem> = Vec::new();
        std::mem::swap(&mut rest, &mut self.pins);
        let ghost orig = rest@;
        let n0 = rest.len();
        assert(orig.len() == n0);
        let mut k: usize = 0;
        assert(orig.skip(0) =~= orig);
        assert(orig.take(0) =~= Seq::<PinItem>::empty());
        while rest.len() > 0
            invariant
                id_s@ == id@,
                0 <= k <= orig.len(),
                orig.len() <= usize::MAX,
                rest@ == orig.skip(k as int),
                self.pins@ == without_id(orig.take(k as int), id@),
            decreases rest@.len(),
        {
            let p = rest.remove(0);
            assert(p == orig[k as int]);
            assert(orig.take(k + 1).drop_last() =~= orig.take(k as int));
            assert(orig.skip(k as int).drop_first() =~= orig.skip(k + 1));
            if !(p.id == id_s) {
                self.pins.push(p);
            }
            k = k + 1;
        }
        assert(orig.take(k as int) =~= orig);
    }

    /// Removes every pin.
    pub fn clear_all(&mut self)
        ensures
            final(self).pins@.len() == 0,
    {
        self.pins.clear();
    }
}


proof fn lemma_without_id_members(pins: Seq<PinItem>, id: Seq<char>)
    ensures
        forall|k: int|
            0 <= k < without_id(pins, id).len() ==> (#[trigger] without_id(pins, id)[k]).id@ != id
                && exists|j: int| 0 <= j < pins.len() && without_id(pins, id)[k] == pins[j],
    decreases pins.len(),
{
    if pins.len() > 0 {
        lemma_without_id_members(pins.drop_last(), id);
        let rest = without_id(pins.drop_last(), id);
        assert forall|k: int| 0 <= k < without_id(pins, id).len() implies (#[trigger] without_id(
            pins,
            id,
        )[k]).id@ != id && exists|j: int| 0 <= j < pins.len() && without_id(pins, id)[k] == pins[j] by {
            if k < rest.len() {
                let j = choose|j: int| 0 <= j < pins.drop_last().len() && rest[k] == pins.drop_last()[j];
                assert(pins.drop_last()[j] == pins[j]);
            } else {
                assert(without_id(pins, id)[k] == pins[pins.len() - 1]);
            }
        }
    }
}

proof fn lemma_find_pin_absent(pins: Seq<PinItem>, id: Seq<char>)
    requires
        forall|k: int| 0 <= k < pins.len() ==> (#[trigger] pins[k]).id@ != id,
    ensures
        find_pin(pins, id) is None,
    decreases pins.len(),
{
    if pins.len() > 0 {
        assert forall|k: int| 0 <= k < pins.drop_last().len() implies (#[trigger] pins.drop_last()[k]).id@ != id by {
            assert(pins.drop_last()[k] == pins[k]);
        }
        lemma_find_pin_absent(pins.drop_last(), id);
    }
}

proof fn lemma_without_id_keeps_others(pins: Seq<PinItem>, id: Seq<char>, other: Seq<char>)
    requires
        other != id,
    ensures
        find_pin(without_id(pins, id), other) == find_pin(pins, other),
    decreases pins.len(),
{
    if pins.len() > 0 {
        lemma_without_id_keeps_others(pins.drop_last(), id, other);
        let rest = without_id(pins.drop_last(), id);
        if pins.last().id@ != id {
            assert(rest.push(pins.last()).drop_last() =~= rest);
        }
    }
}

proof fn lemma_count_without_id(pins: Seq<PinItem>, id: Seq<char>)
    ensures
        count_id(without_id(pins, id), id) == 0,
    decreases pins.len(),
{
    if pins.len() > 0 {
        lemma_count_without_id(pins.drop_last(), id);
        let rest = without_id(pins.drop_last(), id);
        if pins.last().id@ != id {
            assert(rest.push(pins.last()).drop_last() =~= rest);
        }
    }
}

/// Right after pinning under an id, looking that id up gives the new
/// pin.
pub proof fn lemma_get_after_add(pins: Seq<PinItem>, id: String, data: PinData, timestamp: u64)
    ensures
        find_pin(pinned(pins, id, data, timestamp), id@) == Some(PinItem { id, data, timestamp }),
{
    let w = without_id(pins, id@);
    lemma_without_id_members(pins, id@);
    lemma_find_pin_absent(w, id@);
    assert(w.push(PinItem { id, data, timestamp }).drop_last() =~= w);
}

/// After removing an id, looking it up finds nothing.
pub proof fn lemma_get_after_remove(pins: Seq<PinItem>, id: Seq<char>)
    ensures
        find_pin(without_id(pins, id), id) is None,
{
    lemma_without_id_members(pins, id);
    lemma_find_pin_absent(without_id(pins, id), id);
}

/// Pinning under an id leaves exactly one pin with that id.
pub proof fn lemma_add_replaces(pins: Seq<PinItem>, id: String, data: PinData, timestamp: u64)
    ensures
        count_id(pinned(pins, id, data, timestamp), id@) == 1,
{
    let w = without_id(pins, id@);
    lemma_count_without_id(pins, id@);
    assert(w.push(PinItem { id, data, timestamp }).drop_last() =~= w);
}

/// Pinning under one id does not change what any other id finds.
pub proof fn lemma_add_keeps_other_pins(
    pins: Seq<PinItem>,
    id: String,
    data: PinData,
    timestamp: u64,
    other: Seq<char>,
)
    requires
        other != id@,
    ensures
        find_pin(pinned(pins, id, data, timestamp), other) == find_pin(pins, other),
{
    let w = without_id(pins, id@);
    lemma_without_id_keeps_others(pins, id@, other);
    assert(w.push(PinItem { id, data, timestamp }).drop_last() =~= w);
}

/// Pinning keeps the ids of the collection distinct.
pub proof fn lemma_add_keeps_ids_unique(pins: Seq<PinItem>, id: String, data: PinData, timestamp: u64)
    requires
        ids_unique(pins),
    ensures
        ids_unique(pinned(pins, id, data, timestamp)),
{
    lemma_without_id_unique(pins, id@);
    lemma_without_id_members(pins, id@);
}

/// Removing pins keeps the ids of the collection distinct.
pub proof fn lemma_remove_keeps_ids_unique(pins: Seq<PinItem>, id: Seq<char>)
    requires
        ids_unique(pins),
    ensures
        ids_unique(without_id(pins, id)),
{
    lemma_without_id_unique(pins, id);
}

/// One call on a pin collection: pinning under some id at some time
/// (`add_pin`, `add_pin_at`, `add_text_pin`), removing an id
/// (`remove_pin`) or clearing (`clear_all`).
pub open spec fn pin_step(before: Seq<PinItem>, after: Seq<PinItem>) -> bool {
    ||| exists|id: String, data: PinData, t: u64| after == pinned(before, id, data, t)
    ||| exists|id: Seq<char>| after == without_id(before, id)
    ||| after.len() == 0
}

/// Whatever calls follow one another on a collection that starts empty,
/// its ids stay distinct.
pub proof fn lemma_pin_ids_stay_unique(states: Seq<Seq<PinItem>>)
    requires
        states.len() >= 1,
        states[0].len() == 0,
        forall|i: int| 0 <= i < states.len() - 1 ==> #[trigger] pin_step(states[i], states[i + 1]),
    ensures
        forall|i: int| 0 <= i < states.len() ==> #[trigger] ids_unique(states[i]),
    decreases states.len(),
{
    if states.len() > 1 {
        let front = states.drop_last();
        assert forall|i: int| 0 <= i < front.len() - 1 implies #[trigger] pin_step(front[i], front[i + 1]) by {
            assert(front[i] == states[i] && front[i + 1] == states[i + 1]);
            assert(pin_step(states[i], states[i + 1]));
        }
        lemma_pin_ids_stay_unique(front);
        let n = states.len() - 1;
        assert(ids_unique(front[n - 1]));
        assert(front[n - 1] == states[n - 1]);
        let m = n - 1;
        assert(pin_step(states[m], states[m + 1]));
        let before = states[m];
        let after = states[m + 1];
        if exists|id: String, data: PinData, t: u64| after == pinned(before, id, data, t) {
            let (id, data, t) = choose|id: String, data: PinData, t: u64| after == pinned(before, id, data, t);
            lemma_add_keeps_ids_unique(before, id, data, t);
        } else if exists|id: Seq<char>| after == without_id(before, id) {
            let id = choose|id: Seq<char>| after == without_id(before, id);
            lemma_remove_keeps_ids_unique(before, id);
        }
        assert forall|i: int| 0 <= i < states.len() implies #[trigger] ids_unique(states[i]) by {
            if i < n {
                assert(front[i] == states[i]);
            } else {
                assert(states[i] == after);
            }
        }
    } else {
        assert(ids_unique(states[0]));
    }
}

proof fn lemma_without_id_unique(pins: Seq<PinItem>, id: Seq<char>)
    requires
        ids_unique(pins),
    ensures
        ids_unique(without_id(pins, id)),
    decreases pins.len(),
{
    if pins.len() > 0 {
        let d = pins.drop_last();
        assert(ids_unique(d)) by {
            assert forall|i: int, j: int| 0 <= i < j < d.len() implies d[i].id@ != d[j].id@ by {
                assert(d[i] == pins[i] && d[j] == pins[j]);
            }
        }
        lemma_without_id_unique(d, id);
        lemma_without_id_members(d, id);
        let rest = without_id(d, id);
        if pins.last().id@ != id {
            let w = rest.push(pins.last());
            assert forall|i: int, j: int| 0 <= i < j < w.len() implies w[i].id@ != w[j].id@ by {
                if j == w.len() - 1 {
                    let k = choose|k: int| 0 <= k < d.len() && rest[i] == d[k];
                    assert(d[k] == pins[k]);
                } else {
                    assert(w[i] == rest[i] && w[j] == rest[j]);
                }
            }
        }
    }
}

} // verus!
