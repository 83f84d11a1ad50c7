//! The receipt store: a single persistent mapping from receipt identifier to
//! [`Receipt`]. At most one receipt is held per identifier; a second mint
//! with the same identifier silently overwrites the first, and keys are
//! never removed.

use crate::receipt::{Receipt, ReceiptEmitted, ReceiptView};
use vstd::prelude::*;

verus! {

/// The mapping described by a sequence of receipts, each keyed by its own
/// identifier; a later entry overrides an earlier one with the same key.
spec fn assoc_map(s: Seq<Receipt>) -> Map<Seq<char>, ReceiptView>
    decreases s.len(),
{
    if s.len() == 0 {
        Map::empty()
    } else {
        assoc_map(s.drop_last()).insert(s.last()@.receipt_id, s.last()@)
    }
}

/// Every receipt in `s` has an identifier of its own.
spec fn distinct_ids(s: Seq<Receipt>) -> bool {
    forall|i: int, j: int|
        0 <= i < j < s.len() ==> s[i]@.receipt_id != s[j]@.receipt_id
}

proof fn lemma_distinct_drop_last(s: Seq<Receipt>)
    requires
        distinct_ids(s),
        s.len() > 0,
    ensures
        distinct_ids(s.drop_last()),
{
    assert forall|i: int, j: int|
        0 <= i < j < s.drop_last().len() implies s.drop_last()[i]@.receipt_id
        != s.drop_last()[j]@.receipt_id by {
        assert(s.drop_last()[i] == s[i]);
        assert(s.drop_last()[j] == s[j]);
    }
}

proof fn lemma_assoc_map_contains(s: Seq<Receipt>, k: Seq<char>)
    ensures
        assoc_map(s).contains_key(k) <==> exists|i: int|
            0 <= i < s.len() && s[i]@.receipt_id == k,
    decreases s.len(),
{
    if s.len() > 0 {
        lemma_assoc_map_contains(s.drop_last(), k);
        if s.last()@.receipt_id == k {
            assert(s[s.len() - 1]@.receipt_id == k);
        } else if assoc_map(s).contains_key(k) {
            let i = choose|i: int| 0 <= i < s.drop_last().len() && s.drop_last()[i]@.receipt_id == k;
            assert(s[i]@.receipt_id == k);
        }
        if exists|i: int| 0 <= i < s.len() && s[i]@.receipt_id == k {
            let i = choose|i: int| 0 <= i < s.len() && s[i]@.receipt_id == k;
            if i < s.len() - 1 {
                assert(s.drop_last()[i]@.receipt_id == k);
            }
        }
    }
}

proof fn lemma_assoc_map_index(s: Seq<Receipt>, i: int)
    requires
        distinct_ids(s),
        0 <= i < s.len(),
    ensures
        assoc_map(s).contains_key(s[i]@.receipt_id),
        assoc_map(s)[s[i]@.receipt_id] == s[i]@,
    decreases s.len(),
{
    if i < s.len() - 1 {
        lemma_distinct_drop_last(s);
        lemma_assoc_map_index(s.drop_last(), i);
        assert(s.drop_last()[i] == s[i]);
        assert(s[i]@.receipt_id != s.last()@.receipt_id);
    }
}

proof fn lemma_assoc_map_update(s: Seq<Receipt>, i: int, r: Receipt)
    requires
        distinct_ids(s),
        0 <= i < s.len(),
        s[i]@.receipt_id == r@.receipt_id,
    ensures
        assoc_map(s.update(i, r)) == assoc_map(s).insert(r@.receipt_id, r@),
    decreases s.len(),
{
    let t = s.update(i, r);
    if i == s.len() - 1 {
        assert(t.drop_last() =~= s.drop_last());
        assert(t.last() == r);
        assert(assoc_map(t) =~= assoc_map(s).insert(r@.receipt_id, r@));
    } else {
        lemma_distinct_drop_last(s);
        assert(s.drop_last()[i] == s[i]);
        lemma_assoc_map_update(s.drop_last(), i, r);
        assert(t.drop_last() =~= s.drop_last().update(i, r));
        assert(t.last() == s.last());
        assert(s.last()@.receipt_id != r@.receipt_id);
        assert(assoc_map(t) =~= assoc_map(s).insert(r@.receipt_id, r@));
    }
}

/// The result of a lookup in a store's mapping: the receipt stored under
/// `id`, if any.
pub open spec fn lookup(m: Map<Seq<char>, ReceiptView>, id: Seq<char>) -> Option<ReceiptView> {
    if m.contains_key(id) {
        Some(m[id])
    } else {
        None
    }
}

/// The mathematical value of an optional receipt.
pub open spec fn view_option(o: Option<Receipt>) -> Option<ReceiptView> {
    match o {
        Some(r) => Some(r@),
        None => None,
    }
}

/// The receipt store. Its mathematical value (its view) is the mapping from
/// receipt identifier to stored receipt.
pub struct State {
    receipts: Vec<Receipt>,
}

impl View for State {
    type V = Map<Seq<char>, ReceiptView>;

    closed spec fn view(&self) -> Map<Seq<char>, ReceiptView> {
        assoc_map(self.receipts@)
    }
}

impl State {
    /// The store's internal invariant: no identifier is held twice.
    pub closed spec fn wf(self) -> bool {
        distinct_ids(self.receipts@)
    }

    /// Creates an empty store.
    pub fn new() -> (s: State)
        ensures
            s.wf(),
            s@ == Map::<Seq<char>, ReceiptView>::empty(),
    {
        let s = State { receipts: Vec::new() };
        proof {
            assert(s@ =~= Map::<Seq<char>, ReceiptView>::empty());
        }
        s
    }

    /// Stores `receipt` under its own identifier, overwriting any receipt
    /// already held there, and returns the one notification describing the
    /// mint.
    pub fn mint(&mut self, receipt: Receipt) -> (e: ReceiptEmitted)
        requires
            old(self).wf(),
        ensures
            final(self).wf(),
            final(self)@ == old(self)@.insert(receipt@.receipt_id, receipt@),
            e@.receipt_id == receipt@.receipt_id,
            e@.tx_hash == receipt@.tx_hash,
            e@.ts_unix == receipt@.ts_unix,
    {
        let e = ReceiptEmitted {
            receipt_id: receipt.receipt_id.clone(),
            tx_hash: receipt.tx_hash.clone(),
            ts_unix: receipt.ts_unix,
        };
        let n = self.receipts.len();
        let mut i: usize = 0;
        while i < n
            invariant
                i <= n,
                n == self.receipts@.len(),
                self.receipts@ == old(self).receipts@,
                distinct_ids(self.receipts@),
                forall|j: int| 0 <= j < i ==> self.receipts@[j]@.receipt_id != receipt@.receipt_id,
                e@.receipt_id == receipt@.receipt_id,
                e@.tx_hash == receipt@.tx_hash,
                e@.ts_unix == receipt@.ts_unix,
            decreases n - i,
        {
            if self.receipts[i].receipt_id == receipt.receipt_id {
                proof {
                    lemma_assoc_map_update(self.receipts@, i as int, receipt);
                }
                let ghost prev = self.receipts@;
                self.receipts[i] = receipt;
                proof {
                    let cur = self.receipts@;
                    assert(cur == prev.update(i as int, receipt));
                    assert forall|p: int, q: int|
                        0 <= p < q < cur.len() implies cur[p]@.receipt_id
                        != cur[q]@.receipt_id by {
                        assert(prev[p]@.receipt_id != prev[q]@.receipt_id);
                        if p != i && q != i {
                            assert(cur[p] == prev[p] && cur[q] == prev[q]);
                        }
                    }
                }
                return e;
            }
            i = i + 1;
        }
        let ghost prev = self.receipts@;
        self.receipts.push(receipt);
        proof {
            let cur = self.receipts@;
            assert(cur.drop_last() =~= prev);
            assert(cur.last() == receipt);
            assert forall|p: int, q: int|
                0 <= p < q < cur.len() implies cur[p]@.receipt_id != cur[q]@.receipt_id by {
                if q < cur.len() - 1 {
                    assert(prev[p]@.receipt_id != prev[q]@.receipt_id);
                } else {
                    assert(prev[p]@.receipt_id != receipt@.receipt_id);
                }
            }
        }
        e
    }

    /// Returns a copy of the receipt stored under `receipt_id`, or nothing
    /// if that identifier was never minted.
    pub fn get(&self, receipt_id: &String) -> (r: Option<Receipt>)
        requires
            self.wf(),
        ensures
            view_option(r) == lookup(self@, receipt_id@),
    {
        let n = self.receipts.len();
        let mut i: usize = 0;
        while i < n
            invariant
                i <= n,
                n == self.receipts@.len(),
                distinct_ids(self.receipts@),
                forall|j: int| 0 <= j < i ==> self.receipts@[j]@.receipt_id != receipt_id@,
            decreases n - i,
        {
            if self.receipts[i].receipt_id == *receipt_id {
                let rec = self.receipts[i].clone();
                proof {
                    lemma_assoc_map_index(self.receipts@, i as int);
                }
                return Some(rec);
            }
            i = i + 1;
        }
        proof {
            lemma_assoc_map_contains(self.receipts@, receipt_id@);
        }
        None
    }

    /// Returns a copy of every stored receipt, one per identifier, so that
    /// the host can persist the store between invocations. No order is
    /// promised: the mapping itself is the store's only observable content.
    pub fn records(&self) -> (r: Vec<Receipt>)
        requires
            self.wf(),
        ensures
            forall|i: int|
                0 <= i < r@.len() ==> #[trigger] lookup(self@, r@[i]@.receipt_id) == Some(r@[i]@),
            forall|i: int, j: int|
                0 <= i < j < r@.len() ==> r@[i]@.receipt_id != r@[j]@.receipt_id,
            forall|k: Seq<char>|
                self@.contains_key(k) ==> exists|i: int|
                    0 <= i < r@.len() && #[trigger] r@[i]@.receipt_id == k,
    {
        let n = self.receipts.len();
        let mut out: Vec<Receipt> = Vec::new();
        let mut i: usize = 0;
        while i < n
            invariant
                i <= n,
                n == self.receipts@.len(),
                distinct_ids(self.receipts@),
                out@.len() == i,
                forall|j: int| 0 <= j < i ==> #[trigger] out@[j]@ == self.receipts@[j]@,
            decreases n - i,
        {
            let rec = self.receipts[i].clone();
            out.push(rec);
            i = i + 1;
        }
        proof {
            assert forall|i: int|
                0 <= i < out@.len() implies #[trigger] lookup(self@, out@[i]@.receipt_id)
                == Some(out@[i]@) by {
                lemma_assoc_map_index(self.receipts@, i);
            }
            assert forall|k: Seq<char>| self@.contains_key(k) implies exists|i: int|
                0 <= i < out@.len() && #[trigger] out@[i]@.receipt_id == k by {
                lemma_assoc_map_contains(self.receipts@, k);
                let i = choose|i: int|
                    0 <= i < self.receipts@.len() && self.receipts@[i]@.receipt_id == k;
                assert(out@[i]@.receipt_id == k);
            }
        }
        out
    }
}

/// Law: after a mint, a lookup with the minted receipt's identifier returns
/// exactly that receipt.
pub proof fn lemma_mint_then_get(m: Map<Seq<char>, ReceiptView>, r: ReceiptView)
    ensures
        lookup(m.insert(r.receipt_id, r), r.receipt_id) == Some(r),
{
}

/// Law: in a fresh store every lookup comes back empty.
pub proof fn lemma_fresh_store_empty(id: Seq<char>)
    ensures
        lookup(Map::<Seq<char>, ReceiptView>::empty(), id) == None::<ReceiptView>,
{
}

/// Law: a mint under one identifier leaves lookups under every other
/// identifier unchanged. Together with [`lemma_fresh_store_empty`] this
/// gives, by induction over a store's history, that an identifier never
/// minted is never found.
pub proof fn lemma_mint_preserves_others(
    m: Map<Seq<char>, ReceiptView>,
    r: ReceiptView,
    id: Seq<char>,
)
    requires
        id != r.receipt_id,
    ensures
        lookup(m.insert(r.receipt_id, r), id) == lookup(m, id),
{
}

/// The store's mapping after a fresh store has minted exactly the receipts
/// of `history`, in order: each mint inserts its receipt under its own
/// identifier, as [`State::mint`] ensures.
pub open spec fn store_after(history: Seq<ReceiptView>) -> Map<Seq<char>, ReceiptView>
    decreases history.len(),
{
    if history.len() == 0 {
        Map::empty()
    } else {
        store_after(history.drop_last()).insert(history.last().receipt_id, history.last())
    }
}

/// Law: whatever a store's history of mints, an identifier that none of
/// them used is never found.
pub proof fn lemma_never_minted_never_found(history: Seq<ReceiptView>, id: Seq<char>)
    requires
        forall|i: int| 0 <= i < history.len() ==> history[i].receipt_id != id,
    ensures
        lookup(store_after(history), id) == None::<ReceiptView>,
    decreases history.len(),
{
    if history.len() > 0 {
        assert forall|i: int|
            0 <= i < history.drop_last().len() implies history.drop_last()[i].receipt_id != id by {
            assert(history.drop_last()[i] == history[i]);
        }
        lemma_never_minted_never_found(history.drop_last(), id);
        assert(history.last().receipt_id != id);
    }
}

/// Law: minting twice under the same identifier keeps only the second
/// payload; the overwrite is silent and complete.
pub proof fn lemma_overwrite(
    m: Map<Seq<char>, ReceiptView>,
    r1: ReceiptView,
    r2: ReceiptView,
)
    requires
        r1.receipt_id == r2.receipt_id,
    ensures
        lookup(m.insert(r1.receipt_id, r1).insert(r2.receipt_id, r2), r2.receipt_id) == Some(r2),
{
}

} // verus!
