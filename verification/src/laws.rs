//! What holds of every campaign, stated over its mathematical state.

use vstd::prelude::*;
use crate::campaign::{moved, Campaign, Error, Payment, Status};

verus! {

/// One call of `fund`: who paid, how much, and when.
pub struct Funding {
    pub donor: Seq<u8>,
    pub payment: nat,
    pub now: nat,
}

/// The campaign after the calls `fundings`, made in order.
pub open spec fn after_fundings(c: Campaign, fundings: Seq<Funding>) -> Campaign
    decreases fundings.len(),
{
    if fundings.len() == 0 {
        c
    } else {
        let f = fundings.last();
        after_fundings(c, fundings.drop_last()).after_fund(f.donor, f.payment, f.now)
    }
}

/// The sum of what `donor` paid in `fundings`.
pub open spec fn paid_by(fundings: Seq<Funding>, donor: Seq<u8>) -> nat
    decreases fundings.len(),
{
    if fundings.len() == 0 {
        0
    } else {
        let f = fundings.last();
        paid_by(fundings.drop_last(), donor) + if f.donor == donor {
            f.payment
        } else {
            0
        }
    }
}

/// After any calls of `fund` made up to the deadline, by whatever donors, each
/// donor's deposit has grown by the sum of that donor's payments, and the
/// target and the deadline are what they were.
pub proof fn law_deposit_is_sum_of_payments(c: Campaign, fundings: Seq<Funding>, donor: Seq<u8>)
    requires
        forall|i: int| 0 <= i < fundings.len() ==> fundings[i].now <= c.deadline,
    ensures
        after_fundings(c, fundings).deposit_of(donor) == c.deposit_of(donor) + paid_by(fundings, donor),
        after_fundings(c, fundings).target == c.target,
        after_fundings(c, fundings).deadline == c.deadline,
    decreases fundings.len(),
{
    if fundings.len() > 0 {
        law_deposit_is_sum_of_payments(c, fundings.drop_last(), donor);
    }
}

/// In a campaign that has just been set up, a donor's deposit after such calls
/// is the sum of that donor's payments.
pub proof fn law_deposit_from_the_start(target: nat, deadline: nat, fundings: Seq<Funding>, donor: Seq<u8>)
    requires
        forall|i: int| 0 <= i < fundings.len() ==> fundings[i].now <= deadline,
    ensures
        after_fundings(Campaign::opened(target, deadline), fundings).deposit_of(donor) == paid_by(
            fundings,
            donor,
        ),
{
    law_deposit_is_sum_of_payments(Campaign::opened(target, deadline), fundings, donor);
}

/// After the deadline `fund` is turned down with `DeadlinePassed`, whatever
/// the payment, and the campaign stays as it was.
pub proof fn law_late_funding_is_rejected(c: Campaign, donor: Seq<u8>, payment: nat, now: nat)
    requires
        now > c.deadline,
    ensures
        c.fund_outcome(now) == Err::<(), Error>(Error::DeadlinePassed),
        c.after_fund(donor, payment, now) == c,
{
}

/// Up to and at the deadline the status is `FundingPeriod`, whatever the funds.
pub proof fn law_status_until_deadline(c: Campaign, now: nat, funds: nat)
    requires
        now <= c.deadline,
    ensures
        c.status(now, funds) == Status::FundingPeriod,
{
}

/// After the deadline the status is `Successful` exactly where the funds reach
/// the target, and `Failed` exactly where they do not.
pub proof fn law_status_after_deadline(c: Campaign, now: nat, funds: nat)
    requires
        now > c.deadline,
    ensures
        c.status(now, funds) == Status::Successful <==> funds >= c.target,
        c.status(now, funds) == Status::Failed <==> funds < c.target,
        c.status(now, funds) != Status::FundingPeriod,
{
}

/// Once the funding period is over, it does not come back as time goes on.
pub proof fn law_funding_period_does_not_return(c: Campaign, now: nat, later: nat, funds: nat, rest: nat)
    requires
        now <= later,
        c.status(now, funds) != Status::FundingPeriod,
    ensures
        c.status(later, rest) != Status::FundingPeriod,
{
}

/// The owner's claim on a successful campaign hands the owner all the funds,
/// and leaves the deposits on record.
pub proof fn law_owner_claims_all_funds(c: Campaign, owner: Seq<u8>, now: nat, funds: nat)
    requires
        c.status(now, funds) == Status::Successful,
    ensures
        c.claim_outcome(owner, owner, now, funds) == Ok::<Option<Payment>, Error>(
            Some(Payment { to: owner, amount: funds }),
        ),
        c.after_claim(owner, owner, now, funds) == c,
{
}

/// When the owner has claimed all the funds and claims again with nothing left
/// in escrow, the call succeeds and moves nothing, provided that the target is
/// zero or the owner has no deposit on record. (With a target above zero the
/// emptied campaign counts as failed, and an owner who also donated is handed
/// that deposit.)
pub proof fn law_owner_claims_once(c: Campaign, owner: Seq<u8>, now: nat, funds: nat, later: nat)
    requires
        c.status(now, funds) == Status::Successful,
        now <= later,
        c.target == 0 || c.deposit_of(owner) == 0,
    ensures
        c.after_claim(owner, owner, now, funds).claim_outcome(owner, owner, later, 0) is Ok,
        moved(c.after_claim(owner, owner, now, funds).claim_outcome(owner, owner, later, 0)) == 0,
{
}

/// A claim on a successful campaign by anyone but the owner fails with
/// `NotOwner`, moves nothing and changes nothing.
pub proof fn law_only_owner_claims_success(c: Campaign, caller: Seq<u8>, owner: Seq<u8>, now: nat, funds: nat)
    requires
        c.status(now, funds) == Status::Successful,
        caller != owner,
    ensures
        c.claim_outcome(caller, owner, now, funds) == Err::<Option<Payment>, Error>(Error::NotOwner),
        moved(c.claim_outcome(caller, owner, now, funds)) == 0,
        c.after_claim(caller, owner, now, funds) == c,
{
}

/// A claim during the funding period fails with `ClaimTooEarly`, moves
/// nothing and changes nothing.
pub proof fn law_no_claim_before_deadline(c: Campaign, caller: Seq<u8>, owner: Seq<u8>, now: nat, funds: nat)
    requires
        now <= c.deadline,
    ensures
        c.claim_outcome(caller, owner, now, funds) == Err::<Option<Payment>, Error>(Error::ClaimTooEarly),
        c.after_claim(caller, owner, now, funds) == c,
{
}

/// A claim on a failed campaign by a caller without a deposit, the owner
/// included, succeeds, moves nothing and changes nothing.
pub proof fn law_empty_claim_succeeds(c: Campaign, caller: Seq<u8>, owner: Seq<u8>, now: nat, funds: nat)
    requires
        c.status(now, funds) == Status::Failed,
        c.deposit_of(caller) == 0,
    ensures
        c.claim_outcome(caller, owner, now, funds) == Ok::<Option<Payment>, Error>(None),
        c.after_claim(caller, owner, now, funds) == c,
{
}

/// A claim on a failed campaign by a donor hands that donor exactly their
/// deposit and sets it to zero, leaving every other deposit as it was. While
/// the campaign stays failed, a further claim by the same donor moves nothing.
pub proof fn law_refund_is_paid_once(
    c: Campaign,
    caller: Seq<u8>,
    owner: Seq<u8>,
    now: nat,
    funds: nat,
    other: Seq<u8>,
    later: nat,
    rest: nat,
)
    requires
        c.status(now, funds) == Status::Failed,
        c.deposit_of(caller) > 0,
        other != caller,
        now <= later,
        rest <= funds,
    ensures
        c.claim_outcome(caller, owner, now, funds) == Ok::<Option<Payment>, Error>(
            Some(Payment { to: caller, amount: c.deposit_of(caller) }),
        ),
        c.after_claim(caller, owner, now, funds).deposit_of(caller) == 0,
        c.after_claim(caller, owner, now, funds).deposit_of(other) == c.deposit_of(other),
        c.after_claim(caller, owner, now, funds).claim_outcome(caller, owner, later, rest) == Ok::<
            Option<Payment>,
            Error,
        >(None),
        c.after_claim(caller, owner, now, funds).after_claim(caller, owner, later, rest) == c.after_claim(
            caller,
            owner,
            now,
            funds,
        ),
{
}

} // verus!
