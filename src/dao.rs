use crate::actor::ActorId;
use crate::errors::ServiceError;
use vstd::prelude::*;

verus! {

/// Quorum a fresh governance starts with, in basis points.
pub const DEFAULT_QUORUM_BPS: u16 = 2000;

/// Voting period a fresh governance starts with, in milliseconds.
pub const DEFAULT_VOTING_PERIOD: u64 = 86_400_000;

#[derive(Debug, Clone, Copy, PartialEq, Eq, Structural)]
pub enum VoteChoice {
    Yes,
    No,
    Abstain,
}

#[derive(Debug, Clone, Copy, PartialEq, Eq, Structural)]
pub enum ProposalStatus {
    Active,
    Defeated,
    Succeeded,
    Executed,
    Expired,
}

/// What a proposal would do once approved.
#[derive(Debug, Clone)]
pub enum ProposalKind {
    SetFeeBps { new_fee_bps: u128 },
    SetFinalPrizeBps { new_final_prize_bps: u128 },
    SetMaxPayoutChunk { new_max_payout_chunk: u128 },
    AddPhase { name: String, start_time: u64, end_time: u64 },
    AddMatch { phase: String, home: String, away: String, kick_off: u64 },
    SetQuorum { new_quorum_bps: u16 },
    SetVotingPeriod { new_voting_period: u64 },
}

impl ProposalKind {
    /// A copy equal to `self`.
    pub fn copied(&self) -> (r: ProposalKind)
        ensures
            r == *self,
    {
        match self {
            ProposalKind::SetFeeBps { new_fee_bps } => ProposalKind::SetFeeBps {
                new_fee_bps: *new_fee_bps,
            },
            ProposalKind::SetFinalPrizeBps { new_final_prize_bps } => {
                ProposalKind::SetFinalPrizeBps { new_final_prize_bps: *new_final_prize_bps }
            },
            ProposalKind::SetMaxPayoutChunk { new_max_payout_chunk } => {
                ProposalKind::SetMaxPayoutChunk { new_max_payout_chunk: *new_max_payout_chunk }
            },
            ProposalKind::AddPhase { name, start_time, end_time } => ProposalKind::AddPhase {
                name: name.clone(),
                start_time: *start_time,
                end_time: *end_time,
            },
            ProposalKind::AddMatch { phase, home, away, kick_off } => ProposalKind::AddMatch {
                phase: phase.clone(),
                home: home.clone(),
                away: away.clone(),
                kick_off: *kick_off,
            },
            ProposalKind::SetQuorum { new_quorum_bps } => ProposalKind::SetQuorum {
                new_quorum_bps: *new_quorum_bps,
            },
            ProposalKind::SetVotingPeriod { new_voting_period } => ProposalKind::SetVotingPeriod {
                new_voting_period: *new_voting_period,
            },
        }
    }
}

#[derive(Debug, Clone)]
pub struct Proposal {
    pub id: u64,
    pub proposer: ActorId,
    pub kind: ProposalKind,
    pub description: String,
    pub start_time: u64,
    pub end_time: u64,
    pub yes: u32,
    pub no: u32,
    pub abstain: u32,
    pub status: ProposalStatus,
    pub executed: bool,
}

impl Proposal {
    /// A copy equal to `self`.
    pub fn copied(&self) -> (r: Proposal)
        ensures
            r == *self,
    {
        Proposal {
            id: self.id,
            proposer: self.proposer,
            kind: self.kind.copied(),
            description: self.description.clone(),
            start_time: self.start_time,
            end_time: self.end_time,
            yes: self.yes,
            no: self.no,
            abstain: self.abstain,
            status: self.status,
            executed: self.executed,
        }
    }
}

#[derive(Debug, Clone, Copy)]
pub struct VoteRecord {
    pub proposal_id: u64,
    pub voter: ActorId,
    pub choice: VoteChoice,
}

/// The governance store. Proposal `id` sits at index `id - 1`.
#[derive(Debug, Clone)]
pub struct DaoState {
    pub owner: ActorId,
    pub kyc_contract: Option<ActorId>,
    pub market_contract: ActorId,
    pub quorum_bps: u16,
    pub voting_period: u64,
    pub proposal_count: u64,
    pub proposals: Vec<Proposal>,
    pub votes: Vec<VoteRecord>,
}

#[derive(Debug, Clone)]
pub enum DaoEvent {
    Seeded(ActorId, ActorId),
    ProposalCreated(u64, ActorId),
    Voted(u64, ActorId, VoteChoice),
    ProposalFinalized(u64, ProposalStatus),
    ProposalExecuted(u64),
    MarketCallDispatched(u64),
    GovernanceParamUpdated,
}

/// A command for the betting pool, sent when a proposal is executed.
#[derive(Debug, Clone)]
pub enum MarketDaoCommand {
    RegisterPhase { name: String, start_time: u64, end_time: u64 },
    RegisterMatch { phase: String, home: String, away: String, kick_off: u64 },
    SetFeeBps { new_fee_bps: u128 },
    SetFinalPrizeBps { new_final_prize_bps: u128 },
    SetMaxPayoutChunk { new_max_payout_chunk: u128 },
}

/// The governance parameters, for inspection.
#[derive(Debug, Clone, Copy)]
pub struct IoDaoState {
    pub owner: ActorId,
    pub market_contract: ActorId,
    pub kyc_contract: Option<ActorId>,
    pub quorum_bps: u16,
    pub voting_period: u64,
    pub proposal_count: u64,
}

/// What executing a proposal yields: its events, in order, and the command
/// to send to the betting pool, if the proposal's kind calls for one.
#[derive(Debug, Clone)]
pub struct Execution {
    pub events: Vec<DaoEvent>,
    pub command: Option<MarketDaoCommand>,
}

/// `yes + no + abstain`, saturating.
pub open spec fn total_votes_spec(p: Proposal) -> u32 {
    p.yes.saturating_add(p.no).saturating_add(p.abstain)
}

/// Least number of votes a quorum of `quorum_bps` asks for: two, or one per
/// thousand basis points when that is more.
pub open spec fn min_votes(quorum_bps: u16) -> u32 {
    if quorum_bps / 1000 > 2 {
        (quorum_bps / 1000) as u32
    } else {
        2
    }
}

pub open spec fn meets_quorum_spec(p: Proposal, quorum_bps: u16) -> bool {
    quorum_bps == 0 || (total_votes_spec(p) != 0 && total_votes_spec(p) >= min_votes(quorum_bps))
}

/// A proposal's status at time `now`, derived from its tallies, the quorum
/// and whether it was executed.
pub open spec fn status_spec(p: Proposal, quorum_bps: u16, now: u64) -> ProposalStatus {
    if p.executed {
        ProposalStatus::Executed
    } else if now < p.end_time {
        ProposalStatus::Active
    } else if !meets_quorum_spec(p, quorum_bps) {
        ProposalStatus::Defeated
    } else if p.yes > p.no {
        ProposalStatus::Succeeded
    } else {
        ProposalStatus::Defeated
    }
}

/// The pool command a proposal kind stands for; none for the two kinds that
/// change governance's own parameters.
pub open spec fn command_spec(kind: ProposalKind) -> Option<MarketDaoCommand> {
    match kind {
        ProposalKind::SetFeeBps { new_fee_bps } => Some(
            MarketDaoCommand::SetFeeBps { new_fee_bps },
        ),
        ProposalKind::SetFinalPrizeBps { new_final_prize_bps } => Some(
            MarketDaoCommand::SetFinalPrizeBps { new_final_prize_bps },
        ),
        ProposalKind::SetMaxPayoutChunk { new_max_payout_chunk } => Some(
            MarketDaoCommand::SetMaxPayoutChunk { new_max_payout_chunk },
        ),
        ProposalKind::AddPhase { name, start_time, end_time } => Some(
            MarketDaoCommand::RegisterPhase { name, start_time, end_time },
        ),
        ProposalKind::AddMatch { phase, home, away, kick_off } => Some(
            MarketDaoCommand::RegisterMatch { phase, home, away, kick_off },
        ),
        ProposalKind::SetQuorum { .. } => None,
        ProposalKind::SetVotingPeriod { .. } => None,
    }
}

/// `p` with one more vote for `choice`, saturating.
pub open spec fn tallied(p: Proposal, choice: VoteChoice) -> Proposal {
    match choice {
        VoteChoice::Yes => Proposal { yes: p.yes.saturating_add(1), ..p },
        VoteChoice::No => Proposal { no: p.no.saturating_add(1), ..p },
        VoteChoice::Abstain => Proposal { abstain: p.abstain.saturating_add(1), ..p },
    }
}

/// A proposal just created: no votes, open from `now` for `period`.
pub open spec fn fresh_proposal(
    id: u64,
    proposer: ActorId,
    kind: ProposalKind,
    description: String,
    now: u64,
    period: u64,
) -> Proposal {
    Proposal {
        id,
        proposer,
        kind,
        description,
        start_time: now,
        end_time: now.saturating_add(period),
        yes: 0,
        no: 0,
        abstain: 0,
        status: ProposalStatus::Active,
        executed: false,
    }
}

/// The quorum after executing a proposal of `kind`.
pub open spec fn quorum_after(quorum_bps: u16, kind: ProposalKind) -> u16 {
    match kind {
        ProposalKind::SetQuorum { new_quorum_bps } => new_quorum_bps,
        _ => quorum_bps,
    }
}

/// The voting period after executing a proposal of `kind`.
pub open spec fn period_after(voting_period: u64, kind: ProposalKind) -> u64 {
    match kind {
        ProposalKind::SetVotingPeriod { new_voting_period } => new_voting_period,
        _ => voting_period,
    }
}

/// The events of executing proposal `id`: a dispatch or a parameter update,
/// then the execution itself.
pub open spec fn execution_events(id: u64, kind: ProposalKind) -> Seq<DaoEvent> {
    if command_spec(kind) is Some {
        seq![DaoEvent::MarketCallDispatched(id), DaoEvent::ProposalExecuted(id)]
    } else {
        seq![DaoEvent::GovernanceParamUpdated, DaoEvent::ProposalExecuted(id)]
    }
}

/// A proposal's status is derived, never taken from what was stored: before
/// its end time an unexecuted proposal is active; recomputing the status,
/// after storing any status, gives the same result; and once the end time
/// has passed the status no longer depends on the time.
pub proof fn lemma_status_derivation(
    p: Proposal,
    quorum_bps: u16,
    now: u64,
    later: u64,
    stored: ProposalStatus,
)
    ensures
        !p.executed && now < p.end_time ==> status_spec(p, quorum_bps, now) == ProposalStatus::Active,
        status_spec(Proposal { status: stored, ..p }, quorum_bps, now) == status_spec(p, quorum_bps, now),
        now >= p.end_time && later >= p.end_time ==> status_spec(p, quorum_bps, now) == status_spec(
            p,
            quorum_bps,
            later,
        ),
{
}

pub open spec fn has_vote(votes: Seq<VoteRecord>, proposal_id: u64, voter: ActorId) -> bool {
    exists|i: int|
        0 <= i < votes.len() && #[trigger] votes[i].proposal_id == proposal_id && votes[i].voter
            == voter
}

impl DaoState {
    pub open spec fn wf(&self) -> bool {
        &&& self.proposals@.len() == self.proposal_count
        &&& forall|i: int|
            0 <= i < self.proposals@.len() ==> #[trigger] self.proposals@[i].id == i + 1
        &&& forall|i: int, j: int|
            0 <= i < j < self.votes@.len() ==> !(#[trigger] self.votes@[i].proposal_id
                == #[trigger] self.votes@[j].proposal_id && self.votes@[i].voter
                == self.votes@[j].voter)
    }

    pub open spec fn has_proposal(&self, id: u64) -> bool {
        1 <= id <= self.proposals@.len()
    }

    pub open spec fn proposal(&self, id: u64) -> Proposal {
        self.proposals@[id - 1]
    }

    /// The same owner, contracts and parameters as `o`.
    pub open spec fn same_params(&self, o: DaoState) -> bool {
        &&& self.owner == o.owner
        &&& self.kyc_contract == o.kyc_contract
        &&& self.market_contract == o.market_contract
        &&& self.quorum_bps == o.quorum_bps
        &&& self.voting_period == o.voting_period
        &&& self.proposal_count == o.proposal_count
    }

    /// A fresh store: default quorum and voting period, no proposals.
    pub fn init(owner: ActorId, market_contract: ActorId, kyc_contract: Option<ActorId>) -> (r:
        DaoState)
        ensures
            r.wf(),
            r.owner == owner,
            r.market_contract == market_contract,
            r.kyc_contract == kyc_contract,
            r.quorum_bps == DEFAULT_QUORUM_BPS,
            r.voting_period == DEFAULT_VOTING_PERIOD,
            r.proposal_count == 0,
            r.proposals@.len() == 0,
            r.votes@.len() == 0,
    {
        DaoState {
            owner,
            kyc_contract,
            market_contract,
            quorum_bps: DEFAULT_QUORUM_BPS,
            voting_period: DEFAULT_VOTING_PERIOD,
            proposal_count: 0,
            proposals: Vec::new(),
            votes: Vec::new(),
        }
    }
}

/// The governance service: owns its store and runs each request on it.
pub struct Service {
    pub state: DaoState,
}

impl Service {
    pub fn new(state: DaoState) -> (r: Service)
        requires
            state.wf(),
        ensures
            r.state == state,
    {
        Service { state }
    }

    /// Starts governance with `owner` as its owner.
    pub fn seed(owner: ActorId, market_contract: ActorId, kyc_contract: Option<ActorId>) -> (r:
        Service)
        ensures
            r.state.wf(),
            r.state.owner == owner,
            r.state.market_contract == market_contract,
            r.state.kyc_contract == kyc_contract,
            r.state.quorum_bps == DEFAULT_QUORUM_BPS,
            r.state.voting_period == DEFAULT_VOTING_PERIOD,
            r.state.proposal_count == 0,
            r.state.proposals@.len() == 0,
            r.state.votes@.len() == 0,
    {
        Service { state: DaoState::init(owner, market_contract, kyc_contract) }
    }

    /// Refuses a caller other than the owner.
    pub fn assert_owner(&self, caller: ActorId) -> (r: Result<(), ServiceError>)
        ensures
            r == (if caller == self.state.owner {
                Ok(())
            } else {
                Err(ServiceError::Authorization)
            }),
    {
        if caller != self.state.owner {
            return Err(ServiceError::Authorization);
        }
        Ok(())
    }

    /// Refuses a vote on a proposal that is no longer open at `now`.
    pub fn assert_active(p: &Proposal, quorum_bps: u16, now: u64) -> (r: Result<(), ServiceError>)
        ensures
            r == (if status_spec(*p, quorum_bps, now) == ProposalStatus::Active && now < p.end_time {
                Ok(())
            } else {
                Err(ServiceError::State)
            }),
    {
        if Service::compute_status(p, quorum_bps, now) != ProposalStatus::Active {
            return Err(ServiceError::State);
        }
        if now >= p.end_time {
            return Err(ServiceError::State);
        }
        Ok(())
    }

    pub fn total_votes(p: &Proposal) -> (r: u32)
        ensures
            r == total_votes_spec(*p),
    {
        p.yes.saturating_add(p.no).saturating_add(p.abstain)
    }

    pub fn meets_quorum(p: &Proposal, quorum_bps: u16) -> (r: bool)
        ensures
            r == meets_quorum_spec(*p, quorum_bps),
    {
        if quorum_bps == 0 {
            return true;
        }
        let tv = Service::total_votes(p);
        if tv == 0 {
            return false;
        }
        let per_thousand: u32 = (quorum_bps as u32) / 1000;
        let min_votes: u32 = if per_thousand > 2 {
            per_thousand
        } else {
            2
        };
        tv >= min_votes
    }

    /// The status of `p` at `now`.
    pub fn compute_status(p: &Proposal, quorum_bps: u16, now: u64) -> (r: ProposalStatus)
        ensures
            r == status_spec(*p, quorum_bps, now),
    {
        if p.executed {
            return ProposalStatus::Executed;
        }
        if now < p.end_time {
            return ProposalStatus::Active;
        }
        if !Service::meets_quorum(p, quorum_bps) {
            return ProposalStatus::Defeated;
        }
        if p.yes > p.no {
            ProposalStatus::Succeeded
        } else {
            ProposalStatus::Defeated
        }
    }

    /// The pool command for an approved proposal of this kind, if any.
    pub fn market_command(kind: &ProposalKind) -> (r: Option<MarketDaoCommand>)
        ensures
            r == command_spec(*kind),
    {
        match kind {
            ProposalKind::SetFeeBps { new_fee_bps } => Some(
                MarketDaoCommand::SetFeeBps { new_fee_bps: *new_fee_bps },
            ),
            ProposalKind::SetFinalPrizeBps { new_final_prize_bps } => Some(
                MarketDaoCommand::SetFinalPrizeBps { new_final_prize_bps: *new_final_prize_bps },
            ),
            ProposalKind::SetMaxPayoutChunk { new_max_payout_chunk } => Some(
                MarketDaoCommand::SetMaxPayoutChunk { new_max_payout_chunk: *new_max_payout_chunk },
            ),
            ProposalKind::AddPhase { name, start_time, end_time } => Some(
                MarketDaoCommand::RegisterPhase {
                    name: name.clone(),
                    start_time: *start_time,
                    end_time: *end_time,
                },
            ),
            ProposalKind::AddMatch { phase, home, away, kick_off } => Some(
                MarketDaoCommand::RegisterMatch {
                    phase: phase.clone(),
                    home: home.clone(),
                    away: away.clone(),
                    kick_off: *kick_off,
                },
            ),
            ProposalKind::SetQuorum { .. } => None,
            ProposalKind::SetVotingPeriod { .. } => None,
        }
    }

    /// Points the pool at another market contract. Owner only.
    pub fn set_market_contract(&mut self, caller: ActorId, new_market: ActorId) -> (r: Result<
        DaoEvent,
        ServiceError,
    >)
        requires
            old(self).state.wf(),
        ensures
            final(self).state.wf(),
            caller != old(self).state.owner ==> r == Err::<DaoEvent, ServiceError>(
                ServiceError::Authorization,
            ) && final(self).state == old(self).state,
            caller == old(self).state.owner ==> r == Ok::<DaoEvent, ServiceError>(
                DaoEvent::GovernanceParamUpdated,
            ) && final(self).state == (DaoState { market_contract: new_market, ..old(self).state }),
    {
        if let Err(e) = self.assert_owner(caller) {
            return Err(e);
        }
        self.state.market_contract = new_market;
        Ok(DaoEvent::GovernanceParamUpdated)
    }

    /// Hands ownership to `new_owner`. Owner only.
    pub fn set_owner(&mut self, caller: ActorId, new_owner: ActorId) -> (r: Result<
        DaoEvent,
        ServiceError,
    >)
        requires
            old(self).state.wf(),
        ensures
            final(self).state.wf(),
            caller != old(self).state.owner ==> r == Err::<DaoEvent, ServiceError>(
                ServiceError::Authorization,
            ) && final(self).state == old(self).state,
            caller == old(self).state.owner ==> r == Ok::<DaoEvent, ServiceError>(
                DaoEvent::GovernanceParamUpdated,
            ) && final(self).state == (DaoState { owner: new_owner, ..old(self).state }),
    {
        if let Err(e) = self.assert_owner(caller) {
            return Err(e);
        }
        self.state.owner = new_owner;
        Ok(DaoEvent::GovernanceParamUpdated)
    }

    /// Opens a proposal at `now`; it takes the next id and the current
    /// voting period.
    pub fn create_proposal(
        &mut self,
        caller: ActorId,
        now: u64,
        kind: ProposalKind,
        description: String,
    ) -> (r: DaoEvent)
        requires
            old(self).state.wf(),
            old(self).state.proposal_count < u64::MAX,
        ensures
            final(self).state.wf(),
            r == DaoEvent::ProposalCreated((old(self).state.proposal_count + 1) as u64, caller),
            final(self).state.proposals@ == old(self).state.proposals@.push(
                fresh_proposal(
                    (old(self).state.proposal_count + 1) as u64,
                    caller,
                    kind,
                    description,
                    now,
                    old(self).state.voting_period,
                ),
            ),
            final(self).state.proposal_count == old(self).state.proposal_count + 1,
            final(self).state.votes == old(self).state.votes,
            final(self).state.owner == old(self).state.owner,
            final(self).state.kyc_contract == old(self).state.kyc_contract,
            final(self).state.market_contract == old(self).state.market_contract,
            final(self).state.quorum_bps == old(self).state.quorum_bps,
            final(self).state.voting_period == old(self).state.voting_period,
    {
        let id = self.state.proposal_count + 1;
        self.state.proposal_count = id;
        let end = now.saturating_add(self.state.voting_period);
        let p = Proposal {
            id,
            proposer: caller,
            kind,
            description,
            start_time: now,
            end_time: end,
            yes: 0,
            no: 0,
            abstain: 0,
            status: ProposalStatus::Active,
            executed: false,
        };
        self.state.proposals.push(p);
        DaoEvent::ProposalCreated(id, caller)
    }

    /// Executes proposal `proposal_id` at `now`. A proposal still open is
    /// refused. One that did not succeed only has its status stored. One
    /// that succeeded either yields its pool command or changes the quorum
    /// or the voting period, and is marked executed.
    pub fn execute(&mut self, now: u64, proposal_id: u64) -> (r: Result<Execution, ServiceError>)
        requires
            old(self).state.wf(),
        ensures
            final(self).state.wf(),
            final(self).state.votes == old(self).state.votes,
            final(self).state.owner == old(self).state.owner,
            final(self).state.kyc_contract == old(self).state.kyc_contract,
            final(self).state.market_contract == old(self).state.market_contract,
            final(self).state.proposal_count == old(self).state.proposal_count,
            !old(self).state.has_proposal(proposal_id) ==> r == Err::<Execution, ServiceError>(
                ServiceError::NotFound,
            ) && final(self).state == old(self).state,
            old(self).state.has_proposal(proposal_id) ==> {
                let p = old(self).state.proposal(proposal_id);
                let s = status_spec(p, old(self).state.quorum_bps, now);
                &&& s == ProposalStatus::Active ==> r == Err::<Execution, ServiceError>(
                    ServiceError::State,
                ) && final(self).state == old(self).state
                &&& s != ProposalStatus::Active && s != ProposalStatus::Succeeded ==> {
                    &&& r is Ok
                    &&& r->Ok_0.events@ == seq![DaoEvent::ProposalFinalized(proposal_id, s)]
                    &&& r->Ok_0.command is None
                    &&& final(self).state.proposals@ == old(self).state.proposals@.update(
                        proposal_id - 1,
                        Proposal { status: s, ..p },
                    )
                    &&& final(self).state.quorum_bps == old(self).state.quorum_bps
                    &&& final(self).state.voting_period == old(self).state.voting_period
                }
                &&& s == ProposalStatus::Succeeded ==> {
                    &&& r is Ok
                    &&& r->Ok_0.events@ == execution_events(proposal_id, p.kind)
                    &&& r->Ok_0.command == command_spec(p.kind)
                    &&& final(self).state.proposals@ == old(self).state.proposals@.update(
                        proposal_id - 1,
                        Proposal { executed: true, status: ProposalStatus::Executed, ..p },
                    )
                    &&& final(self).state.quorum_bps == quorum_after(
                        old(self).state.quorum_bps,
                        p.kind,
                    )
                    &&& final(self).state.voting_period == period_after(
                        old(self).state.voting_period,
                        p.kind,
                    )
                }
            },
    {
        let idx = match self.proposal_index(proposal_id) {
            Some(i) => i,
            None => {
                return Err(ServiceError::NotFound);
            },
        };
        let computed = Service::compute_status(&self.state.proposals[idx], self.state.quorum_bps, now);
        if computed == ProposalStatus::Active {
            return Err(ServiceError::State);
        }
        if computed != ProposalStatus::Succeeded {
            self.state.proposals[idx].status = computed;
            let mut events: Vec<DaoEvent> = Vec::new();
            events.push(DaoEvent::ProposalFinalized(proposal_id, computed));
            return Ok(Execution { events, command: None });
        }
        if self.state.proposals[idx].executed {
            return Err(ServiceError::State);
        }
        let mut events: Vec<DaoEvent> = Vec::new();
        let command = Service::market_command(&self.state.proposals[idx].kind);
        match command {
            Some(_) => {
                events.push(DaoEvent::MarketCallDispatched(proposal_id));
            },
            None => {
                match self.state.proposals[idx].kind {
                    ProposalKind::SetQuorum { new_quorum_bps } => {
                        self.state.quorum_bps = new_quorum_bps;
                    },
                    ProposalKind::SetVotingPeriod { new_voting_period } => {
                        self.state.voting_period = new_voting_period;
                    },
                    _ => {},
                }
                events.push(DaoEvent::GovernanceParamUpdated);
            },
        }
        self.state.proposals[idx].executed = true;
        self.state.proposals[idx].status = ProposalStatus::Executed;
        events.push(DaoEvent::ProposalExecuted(proposal_id));
        Ok(Execution { events, command })
    }

    /// The governance parameters.
    pub fn query_state(&self) -> (r: IoDaoState)
        ensures
            r.owner == self.state.owner,
            r.market_contract == self.state.market_contract,
            r.kyc_contract == self.state.kyc_contract,
            r.quorum_bps == self.state.quorum_bps,
            r.voting_period == self.state.voting_period,
            r.proposal_count == self.state.proposal_count,
    {
        IoDaoState {
            owner: self.state.owner,
            market_contract: self.state.market_contract,
            kyc_contract: self.state.kyc_contract,
            quorum_bps: self.state.quorum_bps,
            voting_period: self.state.voting_period,
            proposal_count: self.state.proposal_count,
        }
    }

    /// Proposal `proposal_id`, if it exists.
    pub fn query_proposal(&self, proposal_id: u64) -> (r: Option<Proposal>)
        ensures
            r == (if self.state.has_proposal(proposal_id) {
                Some(self.state.proposal(proposal_id))
            } else {
                None
            }),
    {
        match self.proposal_index(proposal_id) {
            Some(i) => Some(self.state.proposals[i].copied()),
            None => None,
        }
    }

    /// Every proposal, in order of id.
    pub fn query_proposals(&self) -> (r: Vec<Proposal>)
        ensures
            r@ == self.state.proposals@,
    {
        let mut r: Vec<Proposal> = Vec::new();
        let mut i: usize = 0;
        while i < self.state.proposals.len()
            invariant
                0 <= i <= self.state.proposals@.len(),
                r@ == self.state.proposals@.subrange(0, i as int),
            decreases self.state.proposals@.len() - i,
        {
            r.push(self.state.proposals[i].copied());
            i = i + 1;
        }
        assert(self.state.proposals@.subrange(0, self.state.proposals@.len() as int)
            == self.state.proposals@);
        r
    }

    /// How `voter` voted on proposal `proposal_id`, if they did.
    pub fn query_vote(&self, proposal_id: u64, voter: ActorId) -> (r: Option<VoteChoice>)
        requires
            self.state.wf(),
        ensures
            match r {
                Some(c) => exists|i: int|
                    0 <= i < self.state.votes@.len() && #[trigger] self.state.votes@[i].proposal_id
                        == proposal_id && self.state.votes@[i].voter == voter
                        && self.state.votes@[i].choice == c,
                None => !has_vote(self.state.votes@, proposal_id, voter),
            },
    {
        match self.find_vote(proposal_id, voter) {
            Some(i) => Some(self.state.votes[i].choice),
            None => None,
        }
    }

    /// Where proposal `proposal_id` sits, if it exists.
    fn proposal_index(&self, proposal_id: u64) -> (r: Option<usize>)
        ensures
            match r {
                Some(i) => self.state.has_proposal(proposal_id) && i == proposal_id - 1,
                None => !self.state.has_proposal(proposal_id),
            },
    {
        let n = self.state.proposals.len();
        if proposal_id == 0 || proposal_id > n as u64 {
            None
        } else {
            Some((proposal_id - 1) as usize)
        }
    }

    /// Index of the vote of `voter` on proposal `proposal_id`, if any.
    fn find_vote(&self, proposal_id: u64, voter: ActorId) -> (r: Option<usize>)
        ensures
            match r {
                Some(i) => i < self.state.votes@.len() && self.state.votes@[i as int].proposal_id
                    == proposal_id && self.state.votes@[i as int].voter == voter,
                None => !has_vote(self.state.votes@, proposal_id, voter),
            },
    {
        let mut i: usize = 0;
        while i < self.state.votes.len()
            invariant
                0 <= i <= self.state.votes@.len(),
                forall|k: int|
                    0 <= k < i ==> !(#[trigger] self.state.votes@[k].proposal_id == proposal_id
                        && self.state.votes@[k].voter == voter),
            decreases self.state.votes@.len() - i,
        {
            if self.state.votes[i].proposal_id == proposal_id && self.state.votes[i].voter == voter {
                return Some(i);
            }
            i = i + 1;
        }
        None
    }

    /// Casts `caller`'s vote on an open proposal, once.
    pub fn vote(&mut self, caller: ActorId, now: u64, proposal_id: u64, choice: VoteChoice) -> (r:
        Result<DaoEvent, ServiceError>)
        requires
            old(self).state.wf(),
        ensures
            final(self).state.wf(),
            final(self).state.same_params(old(self).state),
            !old(self).state.has_proposal(proposal_id) ==> r == Err::<DaoEvent, ServiceError>(
                ServiceError::NotFound,
            ),
            old(self).state.has_proposal(proposal_id) && (status_spec(
                old(self).state.proposal(proposal_id),
                old(self).state.quorum_bps,
                now,
            ) != ProposalStatus::Active || now >= old(self).state.proposal(proposal_id).end_time)
                ==> r == Err::<DaoEvent, ServiceError>(ServiceError::State),
            old(self).state.has_proposal(proposal_id) && status_spec(
                old(self).state.proposal(proposal_id),
                old(self).state.quorum_bps,
                now,
            ) == ProposalStatus::Active && now < old(self).state.proposal(proposal_id).end_time
                && has_vote(old(self).state.votes@, proposal_id, caller) ==> r == Err::<
                DaoEvent,
                ServiceError,
            >(ServiceError::Duplicate),
            r is Err ==> final(self).state == old(self).state,
            r is Ok <==> (old(self).state.has_proposal(proposal_id) && status_spec(
                old(self).state.proposal(proposal_id),
                old(self).state.quorum_bps,
                now,
            ) == ProposalStatus::Active && now < old(self).state.proposal(proposal_id).end_time
                && !has_vote(old(self).state.votes@, proposal_id, caller)),
            r is Ok ==> {
                &&& r == Ok::<DaoEvent, ServiceError>(DaoEvent::Voted(proposal_id, caller, choice))
                &&& final(self).state.proposals@ == old(self).state.proposals@.update(
                    proposal_id - 1,
                    tallied(old(self).state.proposal(proposal_id), choice),
                )
                &&& final(self).state.votes@ == old(self).state.votes@.push(
                    VoteRecord { proposal_id, voter: caller, choice },
                )
            },
    {
        let idx = match self.proposal_index(proposal_id) {
            Some(i) => i,
            None => {
                return Err(ServiceError::NotFound);
            },
        };
        if let Err(e) = Service::assert_active(&self.state.proposals[idx], self.state.quorum_bps, now) {
            return Err(e);
        }
        if self.find_vote(proposal_id, caller).is_some() {
            return Err(ServiceError::Duplicate);
        }
        match choice {
            VoteChoice::Yes => {
                self.state.proposals[idx].yes = self.state.proposals[idx].yes.saturating_add(1);
            },
            VoteChoice::No => {
                self.state.proposals[idx].no = self.state.proposals[idx].no.saturating_add(1);
            },
            VoteChoice::Abstain => {
                self.state.proposals[idx].abstain = self.state.proposals[idx].abstain.saturating_add(1);
            },
        }
        self.state.votes.push(VoteRecord { proposal_id, voter: caller, choice });
        Ok(DaoEvent::Voted(proposal_id, caller, choice))
    }

    /// Stores the status that proposal `proposal_id` has at `now`.
    pub fn finalize_proposal(&mut self, now: u64, proposal_id: u64) -> (r: Result<
        DaoEvent,
        ServiceError,
    >)
        requires
            old(self).state.wf(),
        ensures
            final(self).state.wf(),
            final(self).state.same_params(old(self).state),
            final(self).state.votes == old(self).state.votes,
            !old(self).state.has_proposal(proposal_id) ==> r == Err::<DaoEvent, ServiceError>(
                ServiceError::NotFound,
            ) && final(self).state == old(self).state,
            old(self).state.has_proposal(proposal_id) ==> {
                let p = old(self).state.proposal(proposal_id);
                let s = status_spec(p, old(self).state.quorum_bps, now);
                &&& r == Ok::<DaoEvent, ServiceError>(DaoEvent::ProposalFinalized(proposal_id, s))
                &&& final(self).state.proposals@ == old(self).state.proposals@.update(
                    proposal_id - 1,
                    Proposal { status: s, ..p },
                )
            },
    {
        let idx = match self.proposal_index(proposal_id) {
            Some(i) => i,
            None => {
                return Err(ServiceError::NotFound);
            },
        };
        let s = Service::compute_status(&self.state.proposals[idx], self.state.quorum_bps, now);
        self.state.proposals[idx].status = s;
        Ok(DaoEvent::ProposalFinalized(proposal_id, s))
    }
}

} // verus!
