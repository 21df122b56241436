//! A donation ledger: cumulative donated amounts per donor account, a
//! beneficiary that receives forwarded value, and paginated read-only views.
//!
//! The ledger is an explicitly passed, exclusively owned state handle: the
//! hosting runtime reads the call context (caller identity, attached amount),
//! hands plain values in, and performs the scheduled value transfer and the
//! persistence of the state outside this crate.
use vstd::prelude::*;

pub mod laws;
pub mod views;

verus! {

use crate::views::Donation;

/// One-time fee, in the smallest unit of value, charged on a donor's first
/// donation to cover the cost of creating their ledger entry.
pub const STORAGE_COST: u128 = 1_000_000_000_000_000_000_000;

/// Number of entries a paginated listing returns when no limit is given.
pub const DEFAULT_PAGE_LIMIT: u64 = 50;

/// Why a call was rejected. A rejected call leaves the ledger unchanged.
#[derive(Clone, Copy, Debug, PartialEq, Eq)]
pub enum Error {
    /// `new` was called while persisted state already exists.
    AlreadyInitialized,
    /// A first-time donor attached an amount not exceeding `STORAGE_COST`.
    InsufficientDeposit,
    /// A privileged call came from an identity other than the controlling one.
    Unauthorized,
    /// The donor's cumulative total would exceed the representable range.
    Overflow,
}

/// What a successful donation asks of the hosting runtime: forward
/// `forwarded` units of value to `beneficiary`. `new_total` is the donor's
/// cumulative total after the donation, which the call also returns.
#[derive(Debug)]
pub struct DonationOutcome {
    pub new_total: u128,
    pub forwarded: u128,
    pub beneficiary: String,
}

/// The entire persisted state: the beneficiary identity and the map from
/// donor identity to cumulative donated amount, kept as a sequence of
/// records in first-donation order with pairwise distinct accounts.
#[derive(Debug)]
pub struct Contract {
    pub beneficiary: String,
    pub donations: Vec<Donation>,
}

/// No account identity occurs twice among the records.
pub open spec fn accounts_distinct(s: Seq<Donation>) -> bool {
    forall|i: int, j: int|
        #![trigger s[i].account_id, s[j].account_id]
        0 <= i < j < s.len() ==> s[i].account_id@ != s[j].account_id@
}

/// Some record carries the given account identity.
pub open spec fn has_donor(s: Seq<Donation>, account: Seq<char>) -> bool {
    exists|i: int| 0 <= i < s.len() && #[trigger] s[i].account_id@ == account
}

/// Index of a record carrying the given account identity; meaningful only
/// when `has_donor` holds, and unique when the accounts are distinct.
pub open spec fn donor_at(s: Seq<Donation>, account: Seq<char>) -> int {
    choose|i: int| 0 <= i < s.len() && #[trigger] s[i].account_id@ == account
}

/// The cumulative total recorded for an account: 0 when the account has
/// never donated (absent record). Under the ledger's invariant a recorded
/// total is never 0, so 0 always means the account is absent.
pub open spec fn spec_total_of(s: Seq<Donation>, account: Seq<char>) -> u128 {
    if has_donor(s, account) {
        s[donor_at(s, account)].total_amount
    } else {
        0
    }
}

/// A first donation is rejected when the attached amount does not exceed the
/// one-time storage fee. `total` is the donor's prior cumulative total.
pub open spec fn first_donation_rejected(total: u128, amount: u128) -> bool {
    total == 0 && amount <= STORAGE_COST
}

/// A repeat donation is rejected when the new cumulative total would not be
/// representable. A first donation never overflows: its total is the amount.
pub open spec fn donation_overflows(total: u128, amount: u128) -> bool {
    total > 0 && total + amount > u128::MAX
}

/// Value forwarded to the beneficiary: the storage fee is deducted on the
/// donor's first donation only; repeat donations are forwarded in full.
pub open spec fn forwarded_amount(total: u128, amount: u128) -> u128 {
    if total == 0 {
        (amount - STORAGE_COST) as u128
    } else {
        amount
    }
}

impl Contract {
    /// The ledger's invariant: a non-empty beneficiary identity, records with
    /// pairwise distinct non-empty accounts, and no record with total 0 (a
    /// total of 0 means, everywhere, that the account never donated).
    pub open spec fn wf(self) -> bool {
        &&& self.beneficiary@.len() > 0
        &&& accounts_distinct(self.donations@)
        &&& forall|i: int|
            0 <= i < self.donations@.len() ==> (#[trigger] self.donations@[i]).total_amount > 0
        &&& forall|i: int|
            0 <= i < self.donations@.len() ==> (#[trigger] self.donations@[i]).account_id@.len()
                > 0
    }

    /// Cumulative total recorded for `account`; 0 when it never donated.
    pub open spec fn total_of(self, account: Seq<char>) -> u128 {
        spec_total_of(self.donations@, account)
    }
}

/// A successful donation in one step: how the post-state and the requested
/// transfer relate to the pre-state, the donor and the attached amount.
/// A first donation appends a record; a repeat donation updates the donor's
/// record in place, so the listing order of first donations is preserved.
pub open spec fn donate_transition(
    pre: Contract,
    post: Contract,
    donor: String,
    amount: u128,
    out: DonationOutcome,
) -> bool {
    let t = pre.total_of(donor@);
    let i = donor_at(pre.donations@, donor@);
    &&& post.beneficiary == pre.beneficiary
    &&& out.beneficiary@ == pre.beneficiary@
    &&& out.new_total == t + amount
    &&& out.forwarded == forwarded_amount(t, amount)
    &&& post.total_of(donor@) == t + amount
    &&& (t == 0 ==> post.donations@ =~= pre.donations@.push(
        Donation { account_id: donor, total_amount: out.new_total },
    ))
    &&& (t > 0 ==> post.donations@ =~= pre.donations@.update(
        i,
        Donation { account_id: pre.donations@[i].account_id, total_amount: out.new_total },
    ))
}

/// In a sequence with distinct accounts, the total looked up for the account
/// of the record at `i` is that record's total.
pub proof fn lemma_total_of_at(s: Seq<Donation>, i: int)
    requires
        accounts_distinct(s),
        0 <= i < s.len(),
    ensures
        spec_total_of(s, s[i].account_id@) == s[i].total_amount,
{
    assert(has_donor(s, s[i].account_id@));
    let j = donor_at(s, s[i].account_id@);
    assert(0 <= j < s.len() && s[j].account_id@ == s[i].account_id@);
    assert(j == i);
}

/// An account that no record carries has total 0.
pub proof fn lemma_total_of_absent(s: Seq<Donation>, account: Seq<char>)
    requires
        forall|k: int| 0 <= k < s.len() ==> (#[trigger] s[k]).account_id@ != account,
    ensures
        spec_total_of(s, account) == 0,
{
    assert(!has_donor(s, account));
}

/// First index carrying the donor's account, if any; `None` means the donor
/// has no record at all.
pub(crate) fn find_donor(donations: &Vec<Donation>, donor: &String) -> (r: Option<usize>)
    ensures
        match r {
            Some(i) => 0 <= i < donations@.len() && donations@[i as int].account_id@ == donor@
                && forall|k: int| 0 <= k < i ==> (#[trigger] donations@[k]).account_id@ != donor@,
            None => forall|k: int|
                0 <= k < donations@.len() ==> (#[trigger] donations@[k]).account_id@ != donor@,
        },
{
    let n = donations.len();
    let mut i: usize = 0;
    while i < n
        invariant
            n == donations@.len(),
            0 <= i <= n,
            forall|k: int| 0 <= k < i ==> (#[trigger] donations@[k]).account_id@ != donor@,
        decreases n - i,
    {
        if donations[i].account_id.eq(donor) {
            return Some(i);
        }
        i = i + 1;
    }
    None
}

impl Default for Contract {
    /// The empty ledger with the fallback beneficiary used before any
    /// explicit initialization.
    fn default() -> (r: Self)
        ensures
            r.wf(),
            r.donations@ =~= Seq::<Donation>::empty(),
            r.beneficiary@ == "v1.faucet.nonofficial.testnet"@,
    {
        proof {
            reveal_strlit("v1.faucet.nonofficial.testnet");
        }
        Contract {
            beneficiary: "v1.faucet.nonofficial.testnet".to_owned(),
            donations: Vec::new(),
        }
    }
}

/// The privileged-caller guard: a capability check comparing the calling
/// identity with the controlling identity.
pub fn is_authorized(caller: &String, controller: &String) -> (r: bool)
    ensures
        r == (caller@ == controller@),
{
    caller.eq(controller)
}

impl Contract {
    /// One-shot initialization, privileged: rejects callers other than the
    /// controlling identity, rejects a second initialization, and otherwise
    /// yields the empty ledger with the given beneficiary.
    pub fn new(
        caller: &String,
        controller: &String,
        state_exists: bool,
        beneficiary: String,
    ) -> (r: Result<Contract, Error>)
        requires
            beneficiary@.len() > 0,
        ensures
            caller@ != controller@ ==> r == Err::<Contract, Error>(Error::Unauthorized),
            caller@ == controller@ && state_exists ==> r == Err::<Contract, Error>(
                Error::AlreadyInitialized,
            ),
            r matches Ok(c) ==> {
                &&& caller@ == controller@
                &&& !state_exists
                &&& c.wf()
                &&& c.beneficiary == beneficiary
                &&& c.donations@ =~= Seq::<Donation>::empty()
            },
            r is Ok <==> caller@ == controller@ && !state_exists,
    {
        if !is_authorized(caller, controller) {
            return Err(Error::Unauthorized);
        }
        if state_exists {
            return Err(Error::AlreadyInitialized);
        }
        Ok(Contract { beneficiary, donations: Vec::new() })
    }

    /// Decides the ledger's invariant at run time, so that state restored
    /// from outside the library can be checked before it is used.
    pub fn check_wf(&self) -> (r: bool)
        ensures
            r == self.wf(),
    {
        if self.beneficiary.as_str().is_empty() {
            return false;
        }
        let n = self.donations.len();
        let mut i: usize = 0;
        while i < n
            invariant
                n == self.donations@.len(),
                i <= n,
                self.beneficiary@.len() > 0,
                forall|k: int| 0 <= k < i ==> (#[trigger] self.donations@[k]).total_amount > 0,
                forall|k: int| 0 <= k < i ==> (#[trigger] self.donations@[k]).account_id@.len() > 0,
                forall|k: int, l: int|
                    #![trigger self.donations@[k].account_id, self.donations@[l].account_id]
                    0 <= k < l < i ==> self.donations@[k].account_id@
                        != self.donations@[l].account_id@,
            decreases n - i,
        {
            if self.donations[i].total_amount == 0 {
                return false;
            }
            if self.donations[i].account_id.as_str().is_empty() {
                return false;
            }
            match find_donor(&self.donations, &self.donations[i].account_id) {
                Some(first) => {
                    if first != i {
                        return false;
                    }
                },
                None => {
                    proof {
                        let di = self.donations@[i as int];
                        assert(di.account_id@ == di.account_id@);
                        assert(false);
                    }
                    return false;
                },
            }
            i = i + 1;
        }
        true
    }

    /// Records a donation of `amount` attached by `donor` and says what to
    /// forward to the beneficiary. A first donation must exceed the one-time
    /// storage fee, which is deducted from the forwarded value only: the
    /// recorded cumulative total always grows by the gross attached amount.
    /// A rejected call leaves the ledger unchanged.
    pub fn donate(&mut self, donor: String, amount: u128) -> (r: Result<DonationOutcome, Error>)
        requires
            old(self).wf(),
            donor@.len() > 0,
        ensures
            final(self).wf(),
            final(self).beneficiary == old(self).beneficiary,
            r is Err ==> *final(self) == *old(self),
            first_donation_rejected(old(self).total_of(donor@), amount) ==> r == Err::<
                DonationOutcome,
                Error,
            >(Error::InsufficientDeposit),
            donation_overflows(old(self).total_of(donor@), amount) ==> r == Err::<
                DonationOutcome,
                Error,
            >(Error::Overflow),
            r is Ok <==> !first_donation_rejected(old(self).total_of(donor@), amount)
                && !donation_overflows(old(self).total_of(donor@), amount),
            r matches Ok(out) ==> donate_transition(*old(self), *final(self), donor, amount, out),
    {
        match find_donor(&self.donations, &donor) {
            None => {
                proof {
                    lemma_total_of_absent(self.donations@, donor@);
                }
                if amount <= STORAGE_COST {
                    return Err(Error::InsufficientDeposit);
                }
                let forwarded = amount - STORAGE_COST;
                let beneficiary = self.beneficiary.clone();
                let record = Donation { account_id: donor, total_amount: amount };
                self.donations.push(record);
                proof {
                    let s = final(self).donations@;
                    assert(s[s.len() - 1].account_id@ == donor@);
                    lemma_total_of_at(s, s.len() - 1);
                }
                Ok(DonationOutcome { new_total: amount, forwarded, beneficiary })
            },
            Some(i) => {
                proof {
                    lemma_total_of_at(old(self).donations@, i as int);
                }
                let t = self.donations[i].total_amount;
                if amount > u128::MAX - t {
                    return Err(Error::Overflow);
                }
                let new_total = t + amount;
                self.donations[i].total_amount = new_total;
                let beneficiary = self.beneficiary.clone();
                proof {
                    let s = final(self).donations@;
                    assert(s =~= old(self).donations@.update(
                        i as int,
                        Donation {
                            account_id: old(self).donations@[i as int].account_id,
                            total_amount: new_total,
                        },
                    ));
                    assert(s[i as int].account_id@ == donor@);
                    lemma_total_of_at(s, i as int);
                }
                Ok(DonationOutcome { new_total, forwarded: amount, beneficiary })
            },
        }
    }

    /// Replaces the beneficiary, privileged: rejects callers other than the
    /// controlling identity; on success only the beneficiary changes.
    pub fn change_beneficiary(
        &mut self,
        caller: &String,
        controller: &String,
        beneficiary: String,
    ) -> (r: Result<(), Error>)
        requires
            old(self).wf(),
            beneficiary@.len() > 0,
        ensures
            final(self).wf(),
            r is Ok <==> caller@ == controller@,
            r is Err ==> r == Err::<(), Error>(Error::Unauthorized) && *final(self) == *old(self),
            r is Ok ==> final(self).beneficiary == beneficiary && final(self).donations == old(
                self,
            ).donations,
    {
        if !is_authorized(caller, controller) {
            return Err(Error::Unauthorized);
        }
        self.beneficiary = beneficiary;
        Ok(())
    }
}

} // verus!
