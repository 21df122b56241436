//! Laws of the ledger, each stated over the spec functions that the
//! executable contracts use and proved once and for all.
use vstd::prelude::*;

verus! {

use crate::Contract;
use crate::DonationOutcome;
use crate::STORAGE_COST;
use crate::accounts_distinct;
use crate::donate_transition;
use crate::donor_at;
use crate::has_donor;
use crate::lemma_total_of_at;
use crate::views::Donation;
use crate::views::page_of;

/// A donor's first successful donation records the gross attached amount as
/// their cumulative total, while the value forwarded to the beneficiary is
/// that amount minus the one-time storage fee.
pub proof fn lemma_first_donation(
    pre: Contract,
    post: Contract,
    donor: String,
    amount: u128,
    out: DonationOutcome,
)
    requires
        donate_transition(pre, post, donor, amount, out),
        pre.total_of(donor@) == 0,
        amount > STORAGE_COST,
    ensures
        post.total_of(donor@) == amount,
        out.new_total == amount,
        out.forwarded == amount - STORAGE_COST,
{
}

/// A repeat donation grows the donor's cumulative total by the attached
/// amount and forwards that amount in full: the fee is charged only once.
pub proof fn lemma_repeat_donation(
    pre: Contract,
    post: Contract,
    donor: String,
    amount: u128,
    out: DonationOutcome,
)
    requires
        donate_transition(pre, post, donor, amount, out),
        pre.total_of(donor@) > 0,
    ensures
        post.total_of(donor@) == pre.total_of(donor@) + amount,
        out.new_total == pre.total_of(donor@) + amount,
        out.forwarded == amount,
{
}

/// Every donation is forwarded toward the ledger's beneficiary as it stands
/// when the donation is made; after a beneficiary change, donations are
/// forwarded to the new beneficiary.
pub proof fn lemma_donation_forwards_to_current_beneficiary(
    pre: Contract,
    post: Contract,
    donor: String,
    amount: u128,
    out: DonationOutcome,
)
    requires
        donate_transition(pre, post, donor, amount, out),
    ensures
        out.beneficiary@ == pre.beneficiary@,
{
}

/// The donor count is the number of distinct accounts ever recorded: the
/// account sequence has no duplicates, so as a set it has exactly as many
/// members as the ledger has records.
pub proof fn lemma_total_donations_counts_distinct_donors(c: Contract)
    requires
        c.wf(),
    ensures
        c.donations@.map_values(|d: Donation| d.account_id@).no_duplicates(),
        c.donations@.map_values(|d: Donation| d.account_id@).to_set().len()
            == c.donations@.len(),
{
    let accts = c.donations@.map_values(|d: Donation| d.account_id@);
    assert forall|i: int, j: int| 0 <= i < accts.len() && 0 <= j < accts.len() && i != j
        implies accts[i] != accts[j] by {
        let a = c.donations@[i].account_id;
        let b = c.donations@[j].account_id;
        assert(a@ != b@);
    }
    accts.unique_seq_to_set();
}

/// The donor count grows by one exactly when a successful donation is a
/// donor's first, stays put otherwise, and the donor is recorded afterwards
/// either way: the count is the number of accounts that ever had a
/// successful first donation.
pub proof fn lemma_donor_count_grows_only_on_first_donation(
    pre: Contract,
    post: Contract,
    donor: String,
    amount: u128,
    out: DonationOutcome,
)
    requires
        donate_transition(pre, post, donor, amount, out),
    ensures
        pre.total_of(donor@) == 0 ==> post.donations@.len() == pre.donations@.len() + 1,
        pre.total_of(donor@) > 0 ==> post.donations@.len() == pre.donations@.len(),
        has_donor(post.donations@, donor@),
{
    let s = pre.donations@;
    let t = post.donations@;
    if pre.total_of(donor@) == 0 {
        assert(t[s.len() as int].account_id@ == donor@);
    } else {
        let i = donor_at(s, donor@);
        assert(s[i].account_id@ == donor@);
        assert(t[i].account_id@ == donor@);
    }
}

/// Reading a page is stable: with no intervening donations, two reads with
/// the same arguments return the same sequence.
pub proof fn lemma_get_donations_stable(
    c: Contract,
    from_index: Option<u128>,
    limit: Option<u64>,
    r1: Seq<Donation>,
    r2: Seq<Donation>,
)
    requires
        r1 == page_of(c.donations@, from_index, limit),
        r2 == page_of(c.donations@, from_index, limit),
    ensures
        r1 == r2,
{
}

/// One full page lists every donor exactly once: a page from index 0 whose
/// limit is the donor count is the whole ledger, and its accounts are
/// pairwise distinct.
pub proof fn lemma_get_donations_complete(c: Contract)
    requires
        c.wf(),
        c.donations@.len() <= u64::MAX,
    ensures
        page_of(c.donations@, Some(0u128), Some(c.donations@.len() as u64)) == c.donations@,
        c.donations@.map_values(|d: Donation| d.account_id@).no_duplicates(),
{
    assert(page_of(c.donations@, Some(0u128), Some(c.donations@.len() as u64)) =~= c.donations@);
    lemma_total_donations_counts_distinct_donors(c);
}

/// A page starting at or past the donor count is empty, not an error.
pub proof fn lemma_get_donations_out_of_range(c: Contract, from_index: u128, limit: Option<u64>)
    requires
        from_index >= c.donations@.len(),
    ensures
        page_of(c.donations@, Some(from_index), limit) == Seq::<Donation>::empty(),
{
    assert(page_of(c.donations@, Some(from_index), limit) =~= Seq::<Donation>::empty());
}

/// A donation never removes a donor and never touches another donor's
/// total; the donor's own total never decreases.
pub proof fn lemma_donate_preserves_other_donors(
    pre: Contract,
    post: Contract,
    donor: String,
    amount: u128,
    out: DonationOutcome,
    other: Seq<char>,
)
    requires
        pre.wf(),
        donate_transition(pre, post, donor, amount, out),
        other != donor@,
    ensures
        post.total_of(other) == pre.total_of(other),
        post.total_of(donor@) >= pre.total_of(donor@),
{
    let s = pre.donations@;
    let t = post.donations@;
    assert forall|k: int| 0 <= k < s.len() implies t[k].account_id@ == s[k].account_id@
        && (s[k].account_id@ != donor@ ==> t[k] == s[k]) by {
        if pre.total_of(donor@) > 0 {
            let i = donor_at(s, donor@);
            assert(s[i].account_id@ == donor@);
        }
    }
    assert(accounts_distinct(t));
    if has_donor(s, other) {
        let k = donor_at(s, other);
        assert(s[k].account_id@ == other);
        assert(t[k] == s[k]);
        lemma_total_of_at(s, k);
        lemma_total_of_at(t, k);
    } else {
        assert forall|k: int| 0 <= k < t.len() implies (#[trigger] t[k]).account_id@ != other by {
            if k < s.len() {
                assert(!(0 <= k < s.len() && s[k].account_id@ == other));
            }
        }
        assert(!has_donor(t, other));
    }
}

} // verus!
