use crate::name_map::NameMap;
use crate::types::{Authority, MessageId, XorName};
use vstd::prelude::*;

verus! {

/// How long, in milliseconds, a relayed `Put` waits for its success response.
pub const PUT_REQUEST_EXPIRY_MS: u64 = 600_000;

/// Whether an entry stored at time `inserted` is still live at time `now`.
pub open spec fn is_live(inserted: u64, now: u64) -> bool {
    now < inserted + PUT_REQUEST_EXPIRY_MS
}

/// What a lookup of `id` at time `now` finds in the entries `m`: the requester and the
/// relaying authority of a live entry.
pub open spec fn lookup(
    m: Map<MessageId, (Authority, Authority, u64)>,
    id: MessageId,
    now: u64,
) -> Option<(Authority, Authority)> {
    if m.contains_key(id) && is_live(m[id].2, now) {
        Some((m[id].0, m[id].1))
    } else {
        None
    }
}

/// The entries of `m` that are still live at time `now`.
pub open spec fn live_entries(
    m: Map<MessageId, (Authority, Authority, u64)>,
    now: u64,
) -> Map<MessageId, (Authority, Authority, u64)> {
    m.restrict(m.dom().filter(|id: MessageId| is_live(m[id].2, now)))
}

/// A time-bounded map from a request's id to the authorities that its success response
/// must be relayed between. An entry older than the expiry is never found again.
pub struct PutRequestCache {
    entries: NameMap<(Authority, Authority, u64)>,
}

impl View for PutRequestCache {
    type V = Map<MessageId, (Authority, Authority, u64)>;

    closed spec fn view(&self) -> Map<MessageId, (Authority, Authority, u64)> {
        Map::new(|id: MessageId| self.entries@.contains_key(id.0), |id: MessageId| self.entries@[id.0])
    }
}

fn is_live_at(inserted: u64, now: u64) -> (r: bool)
    ensures
        r == is_live(inserted, now),
{
    now < inserted || now - inserted < PUT_REQUEST_EXPIRY_MS
}

impl PutRequestCache {
    pub closed spec fn wf(&self) -> bool {
        self.entries.wf()
    }

    pub fn new() -> (r: Self)
        ensures
            r.wf(),
            r@ == Map::<MessageId, (Authority, Authority, u64)>::empty(),
    {
        let r = PutRequestCache { entries: NameMap::new() };
        assert(r@ =~= Map::<MessageId, (Authority, Authority, u64)>::empty());
        r
    }

    /// Drops the entries that have expired by time `now`.
    pub fn purge_expired(&mut self, now: u64)
        requires
            old(self).wf(),
        ensures
            final(self).wf(),
            final(self)@ == live_entries(old(self)@, now),
    {
        let ghost old_map = self.entries@;
        let ghost keys = self.entries.keys();
        proof {
            self.entries.lemma_keys();
        }
        let mut kept: NameMap<(Authority, Authority, u64)> = NameMap::new();
        let mut i: usize = 0;
        while i < self.entries.len()
            invariant
                self.entries@ == old_map,
                self.entries.keys() == keys,
                self.entries.wf(),
                kept.wf(),
                keys.no_duplicates(),
                forall|k: XorName| old_map.contains_key(k) <==> keys.contains(k),
                i <= keys.len(),
                forall|k: XorName| #[trigger] kept@.contains_key(k) <==> exists|j: int|
                    0 <= j < i && keys[j] == k && is_live(old_map[k].2, now),
                forall|k: XorName| #[trigger] kept@.contains_key(k) ==> kept@[k] == old_map[k],
            decreases keys.len() - i,
        {
            let k = self.entries.key_at(i);
            let e = *self.entries.value_at(i);
            if is_live_at(e.2, now) {
                kept.insert(k, e);
            }
            proof {
                assert forall|k2: XorName| #[trigger] kept@.contains_key(k2) <==> exists|j: int|
                    0 <= j < i + 1 && keys[j] == k2 && is_live(old_map[k2].2, now) by {
                    if k2 == k && is_live(old_map[k2].2, now) {
                        assert(keys[i as int] == k2);
                    }
                }
            }
            i = i + 1;
        }
        self.entries = kept;
        proof {
            let exp = live_entries(old(self)@, now);
            assert forall|id: MessageId| #[trigger] self@.contains_key(id) <==> exp.contains_key(id) by {
                assert(old_map.contains_key(id.0) <==> keys.contains(id.0));
                assert(old(self)@.dom().filter(|x: MessageId| is_live(old(self)@[x].2, now)).contains(id)
                    <==> old(self)@.contains_key(id) && is_live(old(self)@[id].2, now));
                if exp.contains_key(id) {
                    assert(keys.contains(id.0));
                    let j = choose|j: int| 0 <= j < keys.len() && keys[j] == id.0;
                    assert(kept@.contains_key(id.0));
                }
            }
            assert(self@ =~= exp);
        }
    }

    /// Records that the success response of `id` goes from `relay` to `requester`, after
    /// dropping the entries that have expired by `now`; says whether a live entry for `id`
    /// was overwritten.
    pub fn insert(&mut self, id: MessageId, requester: Authority, relay: Authority, now: u64) -> (r: bool)
        requires
            old(self).wf(),
        ensures
            final(self).wf(),
            final(self)@ == live_entries(old(self)@, now).insert(id, (requester, relay, now)),
            r == lookup(old(self)@, id, now).is_some(),
    {
        let overwrote = self.get(id, now).is_some();
        self.purge_expired(now);
        let ghost purged = self@;
        self.entries.insert(id.0, (requester, relay, now));
        assert(self@ =~= purged.insert(id, (requester, relay, now)));
        overwrote
    }

    /// The live entry of `id`, if there is one.
    pub fn get(&self, id: MessageId, now: u64) -> (r: Option<(Authority, Authority)>)
        requires
            self.wf(),
        ensures
            r == lookup(self@, id, now),
    {
        match self.entries.get(id.0) {
            Some(e) => if is_live_at(e.2, now) {
                Some((e.0, e.1))
            } else {
                None
            },
            None => None,
        }
    }

    /// Takes the entry of `id` out; hands it back where it was still live.
    pub fn remove(&mut self, id: MessageId, now: u64) -> (r: Option<(Authority, Authority)>)
        requires
            old(self).wf(),
        ensures
            final(self).wf(),
            final(self)@ == old(self)@.remove(id),
            r == lookup(old(self)@, id, now),
    {
        let r = match self.entries.remove(id.0) {
            Some(e) => if is_live_at(e.2, now) {
                Some((e.0, e.1))
            } else {
                None
            },
            None => None,
        };
        assert(self@ =~= old(self)@.remove(id));
        r
    }
}

/// An entry stored at time `t` is found up to one second before the expiry, and no
/// longer one second after it.
pub proof fn lemma_cache_expiry(
    m: Map<MessageId, (Authority, Authority, u64)>,
    id: MessageId,
    requester: Authority,
    relay: Authority,
    t: u64,
)
    requires
        t + PUT_REQUEST_EXPIRY_MS + 1000 <= u64::MAX,
    ensures
        lookup(m.insert(id, (requester, relay, t)), id, (t + PUT_REQUEST_EXPIRY_MS - 1000) as u64)
            == Some((requester, relay)),
        lookup(m.insert(id, (requester, relay, t)), id, (t + PUT_REQUEST_EXPIRY_MS + 1000) as u64)
            is None,
{
}

} // verus!
