use vstd::prelude::*;

verus! {

/// The identity of an offer: (maker, id).
pub type OfferKey = (u64, u64);

/// The terms of one open offer. The vault that backs it is kept beside it
/// in the [`OfferBook`].
#[derive(Clone, Copy, Debug, PartialEq, Eq, Structural)]
pub struct Offer {
    pub id: u64,
    pub maker: u64,
    pub token_mint_a: u64,
    pub token_mint_b: u64,
    pub token_b_wanted_amount: u64,
}

/// An offer together with the amount of asset A its vault holds.
#[derive(Clone, Copy, Debug)]
pub struct OfferSlot {
    pub offer: Offer,
    pub vault: u64,
}

pub open spec fn slot_key(s: OfferSlot) -> OfferKey {
    (s.offer.maker, s.offer.id)
}

/// What a stored offer and its vault must satisfy: the record sits under
/// its own (maker, id), asks for a nonzero amount, and its vault is not empty.
pub open spec fn offer_entry_ok(k: OfferKey, offer: Offer, vault: u64) -> bool {
    &&& offer.maker == k.0
    &&& offer.id == k.1
    &&& offer.token_b_wanted_amount > 0
    &&& vault > 0
}

/// The open offers, at most one per (maker, id), each paired with its vault.
pub struct OfferBook {
    slots: Vec<OfferSlot>,
    offers: Ghost<Map<OfferKey, Offer>>,
    vaults: Ghost<Map<OfferKey, u64>>,
}

impl OfferBook {
    /// The offer records, keyed by (maker, id).
    pub closed spec fn offers(&self) -> Map<OfferKey, Offer> {
        self.offers@
    }

    /// The vault balances, keyed by the (maker, id) of the offer they back.
    pub closed spec fn vaults(&self) -> Map<OfferKey, u64> {
        self.vaults@
    }

    pub closed spec fn wf(&self) -> bool {
        &&& forall|i: int, j: int|
            0 <= i < j < self.slots@.len() ==> slot_key(self.slots@[i]) != slot_key(self.slots@[j])
        &&& forall|i: int|
            #![trigger self.slots@[i]]
            0 <= i < self.slots@.len() ==> {
                &&& self.offers@.contains_key(slot_key(self.slots@[i]))
                &&& self.offers@[slot_key(self.slots@[i])] == self.slots@[i].offer
                &&& self.vaults@.contains_key(slot_key(self.slots@[i]))
                &&& self.vaults@[slot_key(self.slots@[i])] == self.slots@[i].vault
            }
        &&& forall|k: OfferKey|
            #![trigger self.offers@.contains_key(k)]
            self.offers@.contains_key(k) ==> exists|i: int|
                0 <= i < self.slots@.len() && slot_key(self.slots@[i]) == k
        &&& self.offers@.dom() == self.vaults@.dom()
        &&& forall|k: OfferKey|
            #![trigger self.offers@[k]]
            self.offers@.contains_key(k) ==> offer_entry_ok(k, self.offers@[k], self.vaults@[k])
    }

    /// Every stored entry is well formed, and each offer has a vault.
    pub proof fn lemma_entries_ok(&self)
        requires
            self.wf(),
        ensures
            self.offers().dom() == self.vaults().dom(),
            forall|k: OfferKey|
                #[trigger] self.offers().contains_key(k) ==> offer_entry_ok(
                    k,
                    self.offers()[k],
                    self.vaults()[k],
                ),
    {
        assert forall|k: OfferKey| #[trigger] self.offers().contains_key(k) implies offer_entry_ok(
            k,
            self.offers()[k],
            self.vaults()[k],
        ) by {
            assert(offer_entry_ok(k, self.offers@[k], self.vaults@[k]));
        }
    }

    pub fn new() -> (r: Self)
        ensures
            r.wf(),
            r.offers() == Map::<OfferKey, Offer>::empty(),
            r.vaults() == Map::<OfferKey, u64>::empty(),
    {
        let r = OfferBook { slots: Vec::new(), offers: Ghost(Map::empty()), vaults: Ghost(Map::empty()) };
        assert(r.offers@.dom() =~= r.vaults@.dom());
        r
    }

    fn find(&self, maker: u64, id: u64) -> (r: Option<usize>)
        requires
            self.wf(),
        ensures
            match r {
                Some(i) => i < self.slots@.len() && slot_key(self.slots@[i as int]) == (maker, id),
                None => !self.offers().contains_key((maker, id)),
            },
    {
        let mut i: usize = 0;
        while i < self.slots.len()
            invariant
                self.wf(),
                i <= self.slots@.len(),
                forall|j: int| 0 <= j < i ==> slot_key(self.slots@[j]) != (maker, id),
            decreases self.slots@.len() - i,
        {
            if self.slots[i].offer.maker == maker && self.slots[i].offer.id == id {
                return Some(i);
            }
            i = i + 1;
        }
        None
    }

    /// The open offer stored under (maker, id), with its vault balance.
    pub fn get(&self, maker: u64, id: u64) -> (r: Option<OfferSlot>)
        requires
            self.wf(),
        ensures
            match r {
                Some(s) => self.offers().contains_key((maker, id)) && s.offer == self.offers()[(
                maker,
                id,
                )] && s.vault == self.vaults()[(maker, id)],
                None => !self.offers().contains_key((maker, id)),
            },
    {
        match self.find(maker, id) {
            Some(i) => Some(self.slots[i]),
            None => None,
        }
    }

    /// Stores a new offer and its vault.
    pub fn insert(&mut self, offer: Offer, vault: u64)
        requires
            old(self).wf(),
            !old(self).offers().contains_key((offer.maker, offer.id)),
            offer.token_b_wanted_amount > 0,
            vault > 0,
        ensures
            final(self).wf(),
            final(self).offers() == old(self).offers().insert((offer.maker, offer.id), offer),
            final(self).vaults() == old(self).vaults().insert((offer.maker, offer.id), vault),
    {
        let ghost k = (offer.maker, offer.id);
        let ghost old_offers = self.offers@;
        self.slots.push(OfferSlot { offer, vault });
        self.offers = Ghost(self.offers@.insert(k, offer));
        self.vaults = Ghost(self.vaults@.insert(k, vault));
        let ghost last = self.slots@.len() - 1;
        assert(self.offers@.dom() =~= self.vaults@.dom());
        assert forall|q: OfferKey| #[trigger] self.offers@.contains_key(q) implies exists|j: int|
            0 <= j < self.slots@.len() && slot_key(self.slots@[j]) == q by {
            if q != k {
                assert(old_offers.contains_key(q));
                let j = choose|j: int| 0 <= j < old(self).slots@.len() && slot_key(old(self).slots@[j]) == q;
                assert(slot_key(self.slots@[j]) == q);
            } else {
                assert(slot_key(self.slots@[last]) == q);
            }
        }
        assert forall|q: OfferKey| #[trigger] self.offers@.contains_key(q) implies offer_entry_ok(
            q,
            self.offers@[q],
            self.vaults@[q],
        ) by {
            if q != k {
                assert(old_offers.contains_key(q));
                assert(offer_entry_ok(q, old_offers[q], old(self).vaults@[q]));
            }
        }
    }

    /// Takes the offer stored under (maker, id) out of the book, with its vault.
    pub fn remove(&mut self, maker: u64, id: u64) -> (r: OfferSlot)
        requires
            old(self).wf(),
            old(self).offers().contains_key((maker, id)),
        ensures
            final(self).wf(),
            r.offer == old(self).offers()[(maker, id)],
            r.vault == old(self).vaults()[(maker, id)],
            final(self).offers() == old(self).offers().remove((maker, id)),
            final(self).vaults() == old(self).vaults().remove((maker, id)),
    {
        let ghost k = (maker, id);
        let ghost old_offers = self.offers@;
        let ghost old_slots = self.slots@;
        let i = match self.find(maker, id) {
            Some(i) => i,
            None => {
                assert(false);
                0
            },
        };
        let r = self.slots.remove(i);
        self.offers = Ghost(self.offers@.remove(k));
        self.vaults = Ghost(self.vaults@.remove(k));
        assert(self.slots@ == old_slots.remove(i as int));
        assert(self.offers@.dom() =~= self.vaults@.dom());
        assert forall|a: int, b: int|
            0 <= a < b < self.slots@.len() implies slot_key(self.slots@[a]) != slot_key(
                self.slots@[b],
            ) by {
            let oa = if a < i { a } else { a + 1 };
            let ob = if b < i { b } else { b + 1 };
            assert(self.slots@[a] == old_slots[oa]);
            assert(self.slots@[b] == old_slots[ob]);
        }
        assert forall|a: int| #![trigger self.slots@[a]] 0 <= a < self.slots@.len() implies {
            &&& self.offers@.contains_key(slot_key(self.slots@[a]))
            &&& self.offers@[slot_key(self.slots@[a])] == self.slots@[a].offer
            &&& self.vaults@.contains_key(slot_key(self.slots@[a]))
            &&& self.vaults@[slot_key(self.slots@[a])] == self.slots@[a].vault
        } by {
            let oa = if a < i { a } else { a + 1 };
            assert(self.slots@[a] == old_slots[oa]);
            assert(old_slots[oa] == old_slots[oa]);
            assert(slot_key(old_slots[oa]) != k);
        }
        assert forall|q: OfferKey| #[trigger] self.offers@.contains_key(q) implies exists|j: int|
            0 <= j < self.slots@.len() && slot_key(self.slots@[j]) == q by {
            assert(old_offers.contains_key(q));
            let j = choose|j: int| 0 <= j < old_slots.len() && slot_key(old_slots[j]) == q;
            assert(j != i);
            let nj = if j < i { j } else { j - 1 };
            assert(self.slots@[nj] == old_slots[j]);
        }
        assert forall|q: OfferKey| #[trigger] self.offers@.contains_key(q) implies offer_entry_ok(
            q,
            self.offers@[q],
            self.vaults@[q],
        ) by {
            assert(old_offers.contains_key(q));
            assert(offer_entry_ok(q, old_offers[q], old(self).vaults@[q]));
        }
        assert(old_slots[i as int] == old_slots[i as int]);
        r
    }
}

} // verus!
