//! The working copy of the native token's balances that bond validation
//! debits.

use vstd::prelude::*;

use crate::txs::{Amount, GenesisAddress, GenesisAddressView};

verus! {

/// Balances of one token: each owner with its amount. An owner's balance is
/// its first entry.
#[derive(Debug, PartialEq, Eq)]
pub struct TokenBalancesForValidation {
    pub amounts: Vec<(GenesisAddress, Amount)>,
}

/// Owners and their balances, in smallest units.
pub type LedgerView = Seq<(GenesisAddressView, nat)>;

/// The view of a list of balances.
pub open spec fn ledger_of(amounts: Seq<(GenesisAddress, Amount)>) -> LedgerView {
    amounts.map_values(|e: (GenesisAddress, Amount)| (e.0@, e.1.raw as nat))
}

impl View for TokenBalancesForValidation {
    type V = LedgerView;

    open spec fn view(&self) -> LedgerView {
        ledger_of(self.amounts@)
    }
}

/// The balance of `a`: the amount of its first entry, if it has one.
pub open spec fn balance_of(l: LedgerView, a: GenesisAddressView) -> Option<nat>
    decreases l.len(),
{
    if l.len() == 0 {
        None
    } else if l[0].0 == a {
        Some(l[0].1)
    } else {
        balance_of(l.drop_first(), a)
    }
}

/// `l` with `amt` taken from the balance of `a`, whose entry goes where it
/// falls to zero.
pub open spec fn debit(l: LedgerView, a: GenesisAddressView, amt: nat) -> LedgerView
    decreases l.len(),
{
    if l.len() == 0 {
        l
    } else if l[0].0 == a {
        if l[0].1 == amt {
            l.drop_first()
        } else {
            seq![(a, (l[0].1 - amt) as nat)] + l.drop_first()
        }
    } else {
        seq![l[0]] + debit(l.drop_first(), a, amt)
    }
}

/// No owner has two entries.
pub open spec fn owners_unique(l: LedgerView) -> bool {
    forall|i: int, j: int| 0 <= i < j < l.len() ==> #[trigger] l[i].0 != #[trigger] l[j].0
}

/// `i` is the first entry of `a`.
pub open spec fn first_entry(l: LedgerView, a: GenesisAddressView, i: int) -> bool {
    &&& 0 <= i < l.len()
    &&& l[i].0 == a
    &&& forall|j: int| 0 <= j < i ==> #[trigger] l[j].0 != a
}

proof fn lemma_first_entry(l: LedgerView, a: GenesisAddressView, i: int, amt: nat)
    requires
        first_entry(l, a, i),
    ensures
        balance_of(l, a) == Some(l[i].1),
        debit(l, a, amt) == l.take(i) + (if l[i].1 == amt {
            Seq::<(GenesisAddressView, nat)>::empty()
        } else {
            seq![(a, (l[i].1 - amt) as nat)]
        }) + l.skip(i + 1),
    decreases i,
{
    if i > 0 {
        assert(l[0].0 != a);
        let t = l.drop_first();
        assert forall|j: int| 0 <= j < i - 1 implies #[trigger] t[j].0 != a by {
            assert(t[j] == l[j + 1]);
        }
        lemma_first_entry(t, a, i - 1, amt);
        assert(l.take(i) =~= seq![l[0]] + t.take(i - 1));
        assert(l.skip(i + 1) =~= t.skip(i));
    } else {
        assert(l.take(0) =~= Seq::<(GenesisAddressView, nat)>::empty());
        assert(l.skip(1) =~= l.drop_first());
    }
}

proof fn lemma_no_entry(l: LedgerView, a: GenesisAddressView, amt: nat)
    requires
        forall|j: int| 0 <= j < l.len() ==> #[trigger] l[j].0 != a,
    ensures
        balance_of(l, a) is None,
        debit(l, a, amt) == l,
    decreases l.len(),
{
    if l.len() > 0 {
        let t = l.drop_first();
        assert(l[0].0 != a);
        assert forall|j: int| 0 <= j < t.len() implies #[trigger] t[j].0 != a by {
            assert(t[j] == l[j + 1]);
        }
        lemma_no_entry(t, a, amt);
        assert(l =~= seq![l[0]] + t);
    }
}

/// Whether no owner of `amounts` has two entries.
pub fn owners_distinct(amounts: &Vec<(GenesisAddress, Amount)>) -> (r: bool)
    ensures
        r == owners_unique(ledger_of(amounts@)),
{
    let ghost l = ledger_of(amounts@);
    let mut j: usize = 0;
    while j < amounts.len()
        invariant
            l == ledger_of(amounts@),
            j <= amounts@.len(),
            forall|a: int, b: int| 0 <= a < b < j ==> #[trigger] l[a].0 != #[trigger] l[b].0,
        decreases amounts@.len() - j,
    {
        let mut i: usize = 0;
        while i < j
            invariant
                l == ledger_of(amounts@),
                i <= j < amounts@.len(),
                forall|a: int, b: int| 0 <= a < b < j ==> #[trigger] l[a].0 != #[trigger] l[b].0,
                forall|a: int| 0 <= a < i ==> #[trigger] l[a].0 != l[j as int].0,
            decreases j - i,
        {
            if amounts[i].0.same_as(&amounts[j].0) {
                assert(l[i as int].0 == l[j as int].0);
                return false;
            }
            i = i + 1;
        }
        j = j + 1;
    }
    true
}

impl TokenBalancesForValidation {
    /// No owner has two entries.
    pub open spec fn wf(&self) -> bool {
        owners_unique(self@)
    }

    /// The position of the first entry of `a`, if it has one.
    pub fn find(&self, a: &GenesisAddress) -> (r: Option<usize>)
        ensures
            match r {
                Some(i) => first_entry(self@, a@, i as int),
                None => forall|j: int| 0 <= j < self@.len() ==> #[trigger] self@[j].0 != a@,
            },
    {
        let mut i: usize = 0;
        while i < self.amounts.len()
            invariant
                i <= self.amounts@.len(),
                forall|j: int| 0 <= j < i ==> #[trigger] self@[j].0 != a@,
            decreases self.amounts@.len() - i,
        {
            if self.amounts[i].0.same_as(a) {
                return Some(i);
            }
            i = i + 1;
        }
        None
    }

    /// The balance of `a`.
    pub fn get(&self, a: &GenesisAddress) -> (r: Option<Amount>)
        ensures
            match r {
                Some(b) => balance_of(self@, a@) == Some(b.raw as nat),
                None => balance_of(self@, a@) is None,
            },
    {
        match self.find(a) {
            Some(i) => {
                proof {
                    lemma_first_entry(self@, a@, i as int, 0);
                }
                Some(self.amounts[i].1)
            },
            None => {
                proof {
                    lemma_no_entry(self@, a@, 0);
                }
                None
            },
        }
    }

    /// Take `amt` from the balance of `a`, which holds at least that much;
    /// remove its entry where the balance falls to zero.
    pub fn debit(&mut self, a: &GenesisAddress, amt: Amount)
        requires
            balance_of(old(self)@, a@) matches Some(b) && amt.raw <= b,
        ensures
            final(self)@ == debit(old(self)@, a@, amt.raw as nat),
            old(self).wf() ==> final(self).wf(),
    {
        proof {
            if old(self).wf() {
                lemma_debit(old(self)@, a@, amt.raw as nat, a@);
            }
        }
        match self.find(a) {
            Some(i) => {
                proof {
                    lemma_first_entry(self@, a@, i as int, amt.raw as nat);
                }
                let b = self.amounts[i].1;
                if b.raw == amt.raw {
                    self.amounts.remove(i);
                    assert(self@ =~= debit(old(self)@, a@, amt.raw as nat));
                } else {
                    let owner = a.clone();
                    self.amounts.set(i, (owner, Amount { raw: b.raw - amt.raw }));
                    assert(self@ =~= debit(old(self)@, a@, amt.raw as nat));
                }
            },
            None => {
                proof {
                    lemma_no_entry(self@, a@, amt.raw as nat);
                }
            },
        }
    }
}

/// The balance of `a`, zero where it has none.
pub open spec fn owner_balance(l: LedgerView, a: GenesisAddressView) -> nat {
    match balance_of(l, a) {
        Some(b) => b,
        None => 0,
    }
}

/// `a` has no entry.
pub open spec fn absent(l: LedgerView, a: GenesisAddressView) -> bool {
    forall|j: int| 0 <= j < l.len() ==> #[trigger] l[j].0 != a
}

/// Debiting an owner that holds enough takes the amount from its balance
/// alone, and keeps owners unique.
pub proof fn lemma_debit(l: LedgerView, s: GenesisAddressView, amt: nat, x: GenesisAddressView)
    requires
        owners_unique(l),
        balance_of(l, s) matches Some(b) && amt <= b,
    ensures
        owners_unique(debit(l, s, amt)),
        forall|y: GenesisAddressView| absent(l, y) ==> #[trigger] absent(debit(l, s, amt), y),
        owner_balance(debit(l, s, amt), x) == if x == s {
            (owner_balance(l, s) - amt) as nat
        } else {
            owner_balance(l, x)
        },
    decreases l.len(),
{
    let t = l.drop_first();
    assert forall|i: int, j: int| 0 <= i < j < t.len() implies #[trigger] t[i].0 != #[trigger] t[j].0 by {
        assert(t[i] == l[i + 1] && t[j] == l[j + 1]);
    }
    assert(absent(t, l[0].0)) by {
        assert forall|j: int| 0 <= j < t.len() implies #[trigger] t[j].0 != l[0].0 by {
            assert(t[j] == l[j + 1]);
        }
    }
    assert forall|y: GenesisAddressView| absent(l, y) implies #[trigger] absent(t, y) by {
        assert forall|j: int| 0 <= j < t.len() implies #[trigger] t[j].0 != y by {
            assert(t[j] == l[j + 1]);
        }
    }
    let r = debit(l, s, amt);
    if l[0].0 == s {
        if l[0].1 == amt {
            assert(r == t);
            if x == s {
                lemma_no_entry(t, s, 0);
            }
        } else {
            let h = (s, (l[0].1 - amt) as nat);
            assert(r == seq![h] + t);
            assert(r.drop_first() =~= t);
            assert forall|i: int, j: int| 0 <= i < j < r.len() implies #[trigger] r[i].0 != #[trigger] r[j].0 by {
                if i == 0 {
                    assert(r[j] == t[j - 1]);
                } else {
                    assert(r[i] == t[i - 1] && r[j] == t[j - 1]);
                }
            }
            assert forall|y: GenesisAddressView| absent(l, y) implies #[trigger] absent(r, y) by {
                assert(l[0].0 != y);
                assert forall|j: int| 0 <= j < r.len() implies #[trigger] r[j].0 != y by {
                    if j > 0 {
                        assert(r[j] == t[j - 1]);
                    }
                }
            }
        }
    } else {
        lemma_debit(t, s, amt, x);
        let d = debit(t, s, amt);
        assert(r == seq![l[0]] + d);
        assert(r.drop_first() =~= d);
        assert(absent(d, l[0].0));
        assert forall|i: int, j: int| 0 <= i < j < r.len() implies #[trigger] r[i].0 != #[trigger] r[j].0 by {
            if i == 0 {
                assert(r[j] == d[j - 1]);
            } else {
                assert(r[i] == d[i - 1] && r[j] == d[j - 1]);
            }
        }
        assert forall|y: GenesisAddressView| absent(l, y) implies #[trigger] absent(r, y) by {
            assert(l[0].0 != y);
            assert(absent(t, y));
            assert(absent(d, y));
            assert forall|j: int| 0 <= j < r.len() implies #[trigger] r[j].0 != y by {
                if j > 0 {
                    assert(r[j] == d[j - 1]);
                }
            }
        }
    }
}

} // verus!
