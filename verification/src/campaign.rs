//! The escrow state machine: deposits, the derived status, and the release of
//! funds.

use vstd::prelude::*;
use crate::address::Address;
use crate::amount::Amount;

verus! {

/// Where a campaign stands. It is never stored: it follows from the time, the
/// deadline, the target and the funds held.
#[derive(Clone, Copy, Debug, PartialEq, Eq, Structural)]
pub enum Status {
    FundingPeriod,
    Successful,
    Failed,
}

/// Why a call was turned down. A call that is turned down changes nothing.
#[derive(Clone, Copy, Debug, PartialEq, Eq, Structural)]
pub enum Error {
    /// `fund` after the deadline.
    DeadlinePassed,
    /// `claim` while the funding period lasts.
    ClaimTooEarly,
    /// `claim` on a successful campaign by someone other than the owner.
    NotOwner,
}

/// A movement of value out of the escrow, which the host is to perform.
#[derive(Debug)]
pub struct Transfer {
    pub to: Address,
    pub amount: Amount,
}

/// What a `Transfer` stands for.
pub struct Payment {
    pub to: Seq<u8>,
    pub amount: nat,
}

impl View for Transfer {
    type V = Payment;

    open spec fn view(&self) -> Payment {
        Payment { to: self.to@, amount: self.amount@ }
    }
}

/// The result of a claim, with the transfer taken by its view.
pub open spec fn claim_view(r: Result<Option<Transfer>, Error>) -> Result<Option<Payment>, Error> {
    match r {
        Ok(Some(t)) => Ok(Some(t@)),
        Ok(None) => Ok(None),
        Err(e) => Err(e),
    }
}

/// How much value a claim moves: nothing where it fails or has nothing to hand out.
pub open spec fn moved(outcome: Result<Option<Payment>, Error>) -> nat {
    match outcome {
        Ok(Some(p)) => p.amount,
        _ => 0,
    }
}

/// The mathematical state of a campaign. A donor without an entry in
/// `deposits` has deposited nothing.
pub struct Campaign {
    pub target: nat,
    pub deadline: nat,
    pub deposits: Map<Seq<u8>, nat>,
}

impl Campaign {
    /// A campaign that has just been set up: nobody has deposited.
    pub open spec fn opened(target: nat, deadline: nat) -> Campaign {
        Campaign { target, deadline, deposits: Map::total(|d: Seq<u8>| 0nat) }
    }

    /// What `donor` has deposited and not taken back.
    pub open spec fn deposit_of(self, donor: Seq<u8>) -> nat {
        if self.deposits.dom().contains(donor) {
            self.deposits[donor]
        } else {
            0
        }
    }

    /// The status at time `now`, with `funds` held in escrow.
    pub open spec fn status(self, now: nat, funds: nat) -> Status {
        if now <= self.deadline {
            Status::FundingPeriod
        } else if funds >= self.target {
            Status::Successful
        } else {
            Status::Failed
        }
    }

    /// The campaign with `payment` added to what `donor` has deposited.
    pub open spec fn funded(self, donor: Seq<u8>, payment: nat) -> Campaign {
        Campaign { deposits: self.deposits.insert(donor, self.deposit_of(donor) + payment), ..self }
    }

    /// The campaign with the deposit of `donor` set back to zero.
    pub open spec fn refunded(self, donor: Seq<u8>) -> Campaign {
        Campaign { deposits: self.deposits.insert(donor, 0), ..self }
    }

    /// What `fund` answers at time `now`.
    pub open spec fn fund_outcome(self, now: nat) -> Result<(), Error> {
        if now > self.deadline {
            Err(Error::DeadlinePassed)
        } else {
            Ok(())
        }
    }

    /// The campaign after `donor` has called `fund` with `payment` at time `now`.
    pub open spec fn after_fund(self, donor: Seq<u8>, payment: nat, now: nat) -> Campaign {
        if now > self.deadline {
            self
        } else {
            self.funded(donor, payment)
        }
    }

    /// What `claim` answers to `caller` at time `now`, with `funds` held in escrow.
    pub open spec fn claim_outcome(self, caller: Seq<u8>, owner: Seq<u8>, now: nat, funds: nat) -> Result<
        Option<Payment>,
        Error,
    > {
        match self.status(now, funds) {
            Status::FundingPeriod => Err(Error::ClaimTooEarly),
            Status::Successful => if caller == owner {
                Ok(Some(Payment { to: caller, amount: funds }))
            } else {
                Err(Error::NotOwner)
            },
            Status::Failed => if self.deposit_of(caller) > 0 {
                Ok(Some(Payment { to: caller, amount: self.deposit_of(caller) }))
            } else {
                Ok(None)
            },
        }
    }

    /// The campaign after that call of `claim`.
    pub open spec fn after_claim(self, caller: Seq<u8>, owner: Seq<u8>, now: nat, funds: nat) -> Campaign {
        if self.status(now, funds) == Status::Failed && self.deposit_of(caller) > 0 {
            self.refunded(caller)
        } else {
            self
        }
    }
}

/// What one donor has deposited.
struct Deposit {
    donor: Address,
    amount: Amount,
}

/// What `donor` has on record in `entries` from position `from` on: the amount
/// of the first entry under that identity, or zero.
spec fn recorded(entries: Seq<Deposit>, donor: Seq<u8>, from: int) -> nat
    decreases entries.len() - from,
{
    if from < 0 || from >= entries.len() {
        0
    } else if entries[from].donor@ == donor {
        entries[from].amount@
    } else {
        recorded(entries, donor, from + 1)
    }
}

/// The first entry under an identity is what that identity has on record.
proof fn lemma_recorded_found(entries: Seq<Deposit>, donor: Seq<u8>, at: int, from: int)
    requires
        0 <= from <= at < entries.len(),
        entries[at].donor@ == donor,
        forall|j: int| from <= j < at ==> entries[j].donor@ != donor,
    ensures
        recorded(entries, donor, from) == entries[at].amount@,
    decreases at - from,
{
    if from < at {
        lemma_recorded_found(entries, donor, at, from + 1);
    }
}

/// An identity without an entry has nothing on record.
proof fn lemma_recorded_absent(entries: Seq<Deposit>, donor: Seq<u8>, from: int)
    requires
        0 <= from,
        forall|j: int| from <= j < entries.len() ==> entries[j].donor@ != donor,
    ensures
        recorded(entries, donor, from) == 0,
    decreases entries.len() - from,
{
    if from < entries.len() {
        lemma_recorded_absent(entries, donor, from + 1);
    }
}

/// An entry added or replaced under one identity leaves every other identity's
/// record as it was.
proof fn lemma_recorded_elsewhere(before: Seq<Deposit>, after: Seq<Deposit>, donor: Seq<u8>, from: int)
    requires
        0 <= from,
        before.len() <= after.len(),
        forall|j: int| 0 <= j < before.len() && before[j] != after[j] ==> before[j].donor@ != donor
            && after[j].donor@ != donor,
        forall|j: int| before.len() <= j < after.len() ==> after[j].donor@ != donor,
    ensures
        recorded(after, donor, from) == recorded(before, donor, from),
    decreases after.len() - from,
{
    if from < after.len() {
        lemma_recorded_elsewhere(before, after, donor, from + 1);
    }
}

/// A crowdfunding campaign: the target, the deadline, and what each donor has
/// deposited.
pub struct Crowdfunding {
    target: Amount,
    deadline: u64,
    deposits: Vec<Deposit>,
}

impl View for Crowdfunding {
    type V = Campaign;

    closed spec fn view(&self) -> Campaign {
        Campaign {
            target: self.target@,
            deadline: self.deadline as nat,
            deposits: Map::total(|d: Seq<u8>| recorded(self.deposits@, d, 0)),
        }
    }
}

impl Crowdfunding {
    /// Sets up a campaign. Neither value is checked: a target of zero and a
    /// deadline in the past are taken as they are.
    pub fn init(target: Amount, deadline: u64) -> (r: Crowdfunding)
        ensures
            r@ == Campaign::opened(target@, deadline as nat),
    {
        let r = Crowdfunding { target, deadline, deposits: Vec::new() };
        assert(r@.deposits =~= Map::total(|d: Seq<u8>| 0nat));
        r
    }

    /// The campaign as the host kept it for one donor: the target, the
    /// deadline, and what `donor` has on deposit.
    pub fn restore(target: Amount, deadline: u64, donor: &Address, deposit: Amount) -> (r: Crowdfunding)
        ensures
            r@ == Campaign::opened(target@, deadline as nat).funded(donor@, deposit@),
    {
        let mut deposits: Vec<Deposit> = Vec::new();
        deposits.push(Deposit { donor: *donor, amount: deposit });
        let r = Crowdfunding { target, deadline, deposits };
        proof {
            lemma_recorded_found(r.deposits@, donor@, 0, 0);
            assert forall|d: Seq<u8>| d != donor@ implies recorded(r.deposits@, d, 0) == 0 by {
                lemma_recorded_absent(r.deposits@, d, 0);
            }
            assert(r@.deposits =~= Campaign::opened(target@, deadline as nat).funded(donor@, deposit@).deposits);
        }
        r
    }

    /// The amount that the campaign is to reach.
    pub fn target(&self) -> (r: Amount)
        ensures
            r@ == self@.target,
    {
        self.target.clone()
    }

    /// The last moment at which funding is accepted.
    pub fn deadline(&self) -> (r: u64)
        ensures
            r == self@.deadline,
    {
        self.deadline
    }

    /// The position of the first entry under `donor`.
    fn position(&self, donor: &Address) -> (r: Option<usize>)
        ensures
            match r {
                Some(i) => i < self.deposits@.len() && self.deposits@[i as int].donor@ == donor@
                    && recorded(self.deposits@, donor@, 0) == self.deposits@[i as int].amount@
                    && forall|j: int| 0 <= j < i ==> self.deposits@[j].donor@ != donor@,
                None => recorded(self.deposits@, donor@, 0) == 0
                    && forall|j: int| 0 <= j < self.deposits@.len() ==> self.deposits@[j].donor@ != donor@,
            },
    {
        let mut i: usize = 0;
        while i < self.deposits.len()
            invariant
                i <= self.deposits@.len(),
                forall|j: int| 0 <= j < i ==> self.deposits@[j].donor@ != donor@,
            decreases self.deposits@.len() - i,
        {
            if self.deposits[i].donor.same(donor) {
                proof {
                    lemma_recorded_found(self.deposits@, donor@, i as int, 0);
                }
                return Some(i);
            }
            i += 1;
        }
        proof {
            lemma_recorded_absent(self.deposits@, donor@, 0);
        }
        None
    }

    /// What `donor` has deposited and not taken back; zero for a stranger.
    pub fn deposit(&self, donor: &Address) -> (r: Amount)
        ensures
            r@ == self@.deposit_of(donor@),
    {
        match self.position(donor) {
            Some(i) => self.deposits[i].amount.clone(),
            None => Amount::zero(),
        }
    }

    /// The status at time `now`, with `funds` held in escrow. The deadline
    /// itself still belongs to the funding period.
    pub fn status(&self, now: u64, funds: &Amount) -> (r: Status)
        ensures
            r == self@.status(now as nat, funds@),
    {
        if now <= self.deadline {
            Status::FundingPeriod
        } else if funds.ge(&self.target) {
            Status::Successful
        } else {
            Status::Failed
        }
    }

    /// Records that `caller` has paid `payment` into the escrow at time `now`.
    /// After the deadline the call is turned down and nothing changes; up to
    /// and at the deadline it succeeds, also with a payment of zero.
    pub fn fund(&mut self, caller: &Address, payment: &Amount, now: u64) -> (r: Result<(), Error>)
        ensures
            r == old(self)@.fund_outcome(now as nat),
            final(self)@ == old(self)@.after_fund(caller@, payment@, now as nat),
            now > old(self)@.deadline ==> r == Err::<(), Error>(Error::DeadlinePassed),
            now > old(self)@.deadline ==> final(self)@ == old(self)@,
            now <= old(self)@.deadline ==> r == Ok::<(), Error>(()),
            now <= old(self)@.deadline ==> final(self)@ == old(self)@.funded(caller@, payment@),
    {
        if now > self.deadline {
            return Err(Error::DeadlinePassed);
        }
        let ghost before = self.deposits@;
        match self.position(caller) {
            Some(i) => {
                let sum = self.deposits[i].amount.add(payment);
                self.deposits.set(i, Deposit { donor: *caller, amount: sum });
                proof {
                    lemma_recorded_found(self.deposits@, caller@, i as int, 0);
                }
            },
            None => {
                self.deposits.push(Deposit { donor: *caller, amount: payment.clone() });
                proof {
                    lemma_recorded_found(self.deposits@, caller@, before.len() as int, 0);
                }
            },
        }
        proof {
            let after = self.deposits@;
            assert forall|d: Seq<u8>| d != caller@ implies recorded(after, d, 0) == recorded(before, d, 0) by {
                lemma_recorded_elsewhere(before, after, d, 0);
            }
            assert(self@.deposits =~= old(self)@.funded(caller@, payment@).deposits);
        }
        Ok(())
    }

    /// Settles a claim of `caller` at time `now`, with `funds` held in escrow
    /// and `owner` the beneficiary. During the funding period nobody can
    /// claim. From a successful campaign only the owner can, and is handed all
    /// the funds; the deposits stay on record. From a failed campaign each
    /// caller is handed their own deposit, which is then set to zero; a caller
    /// with no deposit is handed nothing, which is no error.
    pub fn claim(&mut self, caller: &Address, owner: &Address, now: u64, funds: &Amount) -> (r: Result<
        Option<Transfer>,
        Error,
    >)
        ensures
            claim_view(r) == old(self)@.claim_outcome(caller@, owner@, now as nat, funds@),
            final(self)@ == old(self)@.after_claim(caller@, owner@, now as nat, funds@),
    {
        match self.status(now, funds) {
            Status::FundingPeriod => Err(Error::ClaimTooEarly),
            Status::Successful => {
                if caller.same(owner) {
                    Ok(Some(Transfer { to: *caller, amount: funds.clone() }))
                } else {
                    Err(Error::NotOwner)
                }
            },
            Status::Failed => {
                let deposit = self.deposit(caller);
                if deposit.is_zero() {
                    return Ok(None);
                }
                let ghost before = self.deposits@;
                match self.position(caller) {
                    Some(i) => {
                        self.deposits.set(i, Deposit { donor: *caller, amount: Amount::zero() });
                        proof {
                            let after = self.deposits@;
                            lemma_recorded_found(after, caller@, i as int, 0);
                            assert forall|d: Seq<u8>| d != caller@ implies recorded(after, d, 0) == recorded(
                                before,
                                d,
                                0,
                            ) by {
                                lemma_recorded_elsewhere(before, after, d, 0);
                            }
                            assert(self@.deposits =~= old(self)@.refunded(caller@).deposits);
                        }
                    },
                    None => {},
                }
                Ok(Some(Transfer { to: *caller, amount: deposit }))
            },
        }
    }
}

} // verus!
