//! Read-only projections over the ledger: single-account lookup, donor count,
//! and offset/limit pagination. None of these mutates the ledger.
use vstd::prelude::*;

verus! {

use crate::Contract;
use crate::DEFAULT_PAGE_LIMIT;
use crate::find_donor;
use crate::lemma_total_of_absent;
use crate::lemma_total_of_at;

/// A donor account together with its cumulative donated total, derived on
/// demand from the ledger; not separately persisted.
#[derive(Debug, PartialEq, Eq)]
pub struct Donation {
    pub account_id: String,
    pub total_amount: u128,
}

impl Clone for Donation {
    fn clone(&self) -> (r: Self)
        ensures
            r == *self,
    {
        Donation { account_id: self.account_id.clone(), total_amount: self.total_amount }
    }
}

/// The page that `get_donations` returns: skip the first `from_index`
/// records (0 when absent), then take up to `limit` records (the default
/// page limit when absent). An out-of-range start yields the empty page.
pub open spec fn page_of(s: Seq<Donation>, from_index: Option<u128>, limit: Option<u64>) -> Seq<
    Donation,
> {
    let f = match from_index {
        Some(x) => x as int,
        None => 0,
    };
    let lim = match limit {
        Some(x) => x as int,
        None => DEFAULT_PAGE_LIMIT as int,
    };
    let n = s.len() as int;
    let start = if f > n {
        n
    } else {
        f
    };
    let end = if start + lim > n {
        n
    } else {
        start + lim
    };
    s.subrange(start, end)
}

impl Contract {
    /// The donation recorded for one account; a total of 0, not an error,
    /// when the account has never donated.
    pub fn get_donation_for_account(&self, account_id: String) -> (r: Donation)
        requires
            self.wf(),
        ensures
            r.account_id == account_id,
            r.total_amount == self.total_of(account_id@),
    {
        match find_donor(&self.donations, &account_id) {
            Some(i) => {
                proof {
                    lemma_total_of_at(self.donations@, i as int);
                }
                let total_amount = self.donations[i].total_amount;
                Donation { account_id, total_amount }
            },
            None => {
                proof {
                    lemma_total_of_absent(self.donations@, account_id@);
                }
                Donation { account_id, total_amount: 0 }
            },
        }
    }

    /// Number of distinct accounts that ever donated successfully.
    pub fn total_donations(&self) -> (r: u64)
        ensures
            r == self.donations@.len(),
    {
        self.donations.len() as u64
    }

    /// The donors in first-donation order, restricted to one page: skip the
    /// first `from_index` donors, take up to `limit` of the remainder. Never
    /// fails: an out-of-range start yields an empty listing.
    pub fn get_donations(&self, from_index: Option<u128>, limit: Option<u64>) -> (r: Vec<Donation>)
        ensures
            r@ == page_of(self.donations@, from_index, limit),
            from_index matches Some(f) && f >= self.donations@.len() ==> r@ =~= Seq::<
                Donation,
            >::empty(),
    {
        let n = self.donations.len();
        let f: u128 = match from_index {
            Some(x) => x,
            None => 0,
        };
        let lim: u64 = match limit {
            Some(x) => x,
            None => DEFAULT_PAGE_LIMIT,
        };
        let start: usize = if f >= n as u128 {
            n
        } else {
            f as usize
        };
        let end: usize = if (lim as u128) >= (n - start) as u128 {
            n
        } else {
            start + (lim as usize)
        };
        let mut r: Vec<Donation> = Vec::new();
        let mut i: usize = start;
        while i < end
            invariant
                start <= i <= end <= n,
                n == self.donations@.len(),
                r@ =~= self.donations@.subrange(start as int, i as int),
            decreases end - i,
        {
            r.push(self.donations[i].clone());
            i = i + 1;
        }
        proof {
            assert(r@ =~= page_of(self.donations@, from_index, limit));
        }
        r
    }

    /// The identity that receives forwarded donation value.
    pub fn beneficiary(&self) -> (r: String)
        ensures
            r@ == self.beneficiary@,
    {
        self.beneficiary.clone()
    }
}

} // verus!
