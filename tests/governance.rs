use smartcup::actor::ActorId;
use smartcup::dao::{DaoEvent, MarketDaoCommand, ProposalKind, ProposalStatus, Service, VoteChoice};
use smartcup::errors::ServiceError;

fn actor(b: u8) -> ActorId {
    ActorId::from_bytes([b; 32])
}

fn governance() -> Service {
    Service::seed(actor(1), actor(2), Some(actor(3)))
}

#[test]
fn three_yes_one_no_succeeds_at_quorum_2000() {
    let mut g = governance();
    assert_eq!(g.state.quorum_bps, 2000);
    g.create_proposal(actor(5), 0, ProposalKind::SetFeeBps { new_fee_bps: 300 }, "fee".to_string());
    let end = g.query_proposal(1).unwrap().end_time;
    assert_eq!(end, 86_400_000);
    g.vote(actor(10), 1, 1, VoteChoice::Yes).unwrap();
    g.vote(actor(11), 2, 1, VoteChoice::Yes).unwrap();
    g.vote(actor(12), 3, 1, VoteChoice::Yes).unwrap();
    g.vote(actor(13), 4, 1, VoteChoice::No).unwrap();
    let p = g.query_proposal(1).unwrap();
    assert_eq!((p.yes, p.no, p.abstain), (3, 1, 0));
    assert_eq!(Service::compute_status(&p, 2000, end - 1), ProposalStatus::Active);
    assert_eq!(Service::compute_status(&p, 2000, end), ProposalStatus::Succeeded);
    assert_eq!(Service::compute_status(&p, 2000, end + 1_000), ProposalStatus::Succeeded);
}

#[test]
fn quorum_rule() {
    let mut g = governance();
    g.create_proposal(actor(5), 0, ProposalKind::SetQuorum { new_quorum_bps: 5000 }, String::new());
    let mut p = g.query_proposal(1).unwrap();
    assert!(Service::meets_quorum(&p, 0));
    assert!(!Service::meets_quorum(&p, 2000));
    p.yes = 1;
    assert!(!Service::meets_quorum(&p, 2000));
    p.no = 1;
    assert!(Service::meets_quorum(&p, 2000));
    assert!(!Service::meets_quorum(&p, 5000));
    p.abstain = 3;
    assert!(Service::meets_quorum(&p, 5000));
    p.yes = u32::MAX;
    assert_eq!(Service::total_votes(&p), u32::MAX);
}

#[test]
fn status_before_end_is_active_and_recomputation_is_stable() {
    let mut g = governance();
    g.create_proposal(actor(5), 100, ProposalKind::SetVotingPeriod { new_voting_period: 10 }, String::new());
    let end = 100 + 86_400_000;
    assert_eq!(g.finalize_proposal(end - 1, 1).unwrap_ok_event(), (1, ProposalStatus::Active));
    assert_eq!(g.finalize_proposal(end, 1).unwrap_ok_event(), (1, ProposalStatus::Defeated));
    assert_eq!(g.finalize_proposal(end + 5, 1).unwrap_ok_event(), (1, ProposalStatus::Defeated));
    assert_eq!(g.query_proposal(1).unwrap().status, ProposalStatus::Defeated);
    assert_eq!(g.finalize_proposal(0, 7).unwrap_err(), ServiceError::NotFound);
}

trait FinalizedEvent {
    fn unwrap_ok_event(self) -> (u64, ProposalStatus);
}

impl FinalizedEvent for Result<DaoEvent, ServiceError> {
    fn unwrap_ok_event(self) -> (u64, ProposalStatus) {
        match self.unwrap() {
            DaoEvent::ProposalFinalized(id, s) => (id, s),
            _ => panic!("unexpected event"),
        }
    }
}

#[test]
fn executing_a_defeated_proposal_only_finalizes() {
    let mut g = governance();
    g.create_proposal(
        actor(5),
        0,
        ProposalKind::AddPhase { name: "final".to_string(), start_time: 1, end_time: 2 },
        String::new(),
    );
    g.vote(actor(10), 1, 1, VoteChoice::No).unwrap();
    g.vote(actor(11), 1, 1, VoteChoice::No).unwrap();
    let ex = g.execute(86_400_000, 1).unwrap();
    assert_eq!(ex.events.len(), 1);
    assert!(matches!(ex.events[0], DaoEvent::ProposalFinalized(1, ProposalStatus::Defeated)));
    assert!(ex.command.is_none());
    let p = g.query_proposal(1).unwrap();
    assert!(!p.executed);
    assert_eq!(p.status, ProposalStatus::Defeated);
}

#[test]
fn executing_a_succeeded_proposal_dispatches_once() {
    let mut g = governance();
    g.create_proposal(
        actor(5),
        0,
        ProposalKind::AddMatch { phase: "final".to_string(), home: "A".to_string(), away: "B".to_string(), kick_off: 9 },
        "match".to_string(),
    );
    assert_eq!(g.execute(10, 1).unwrap_err(), ServiceError::State);
    g.vote(actor(10), 1, 1, VoteChoice::Yes).unwrap();
    g.vote(actor(11), 1, 1, VoteChoice::Abstain).unwrap();
    let ex = g.execute(86_400_000, 1).unwrap();
    assert_eq!(ex.events.len(), 2);
    assert!(matches!(ex.events[0], DaoEvent::MarketCallDispatched(1)));
    assert!(matches!(ex.events[1], DaoEvent::ProposalExecuted(1)));
    match ex.command {
        Some(MarketDaoCommand::RegisterMatch { phase, home, away, kick_off }) => {
            assert_eq!((phase.as_str(), home.as_str(), away.as_str(), kick_off), ("final", "A", "B", 9));
        }
        _ => panic!("expected a match registration"),
    }
    let p = g.query_proposal(1).unwrap();
    assert!(p.executed);
    assert_eq!(p.status, ProposalStatus::Executed);
    let again = g.execute(86_400_001, 1).unwrap();
    assert!(again.command.is_none());
    assert!(matches!(again.events[0], DaoEvent::ProposalFinalized(1, ProposalStatus::Executed)));
    assert_eq!(g.execute(0, 2).unwrap_err(), ServiceError::NotFound);
}

#[test]
fn governance_parameters_change_locally() {
    let mut g = governance();
    g.create_proposal(actor(5), 0, ProposalKind::SetQuorum { new_quorum_bps: 0 }, String::new());
    g.vote(actor(10), 1, 1, VoteChoice::Yes).unwrap();
    g.vote(actor(11), 1, 1, VoteChoice::Yes).unwrap();
    let ex = g.execute(86_400_000, 1).unwrap();
    assert!(ex.command.is_none());
    assert!(matches!(ex.events[0], DaoEvent::GovernanceParamUpdated));
    assert!(matches!(ex.events[1], DaoEvent::ProposalExecuted(1)));
    assert_eq!(g.query_state().quorum_bps, 0);
    g.create_proposal(actor(5), 100, ProposalKind::SetVotingPeriod { new_voting_period: 50 }, String::new());
    assert_eq!(g.query_proposal(2).unwrap().end_time, 100 + 86_400_000);
    g.vote(actor(10), 101, 2, VoteChoice::Yes).unwrap();
    g.execute(100 + 86_400_000, 2).unwrap();
    assert_eq!(g.state.voting_period, 50);
    // the earlier proposal keeps its end time
    assert_eq!(g.query_proposal(2).unwrap().end_time, 100 + 86_400_000);
    g.create_proposal(actor(5), 1_000, ProposalKind::SetFeeBps { new_fee_bps: 1 }, String::new());
    assert_eq!(g.query_proposal(3).unwrap().end_time, 1_050);
    assert_eq!(g.query_proposals().len(), 3);
    assert_eq!(g.query_state().proposal_count, 3);
}

#[test]
fn voting_refusals() {
    let mut g = governance();
    assert_eq!(g.vote(actor(10), 0, 1, VoteChoice::Yes).unwrap_err(), ServiceError::NotFound);
    g.create_proposal(actor(5), 0, ProposalKind::SetFeeBps { new_fee_bps: 1 }, String::new());
    g.vote(actor(10), 0, 1, VoteChoice::Yes).unwrap();
    assert_eq!(g.vote(actor(10), 1, 1, VoteChoice::No).unwrap_err(), ServiceError::Duplicate);
    assert_eq!(g.vote(actor(11), 86_400_000, 1, VoteChoice::No).unwrap_err(), ServiceError::State);
    assert_eq!(g.query_vote(1, actor(10)), Some(VoteChoice::Yes));
    assert_eq!(g.query_vote(1, actor(11)), None);
    let p = g.query_proposal(1).unwrap();
    assert_eq!((p.yes, p.no), (1, 0));
}

#[test]
fn owner_only_settings() {
    let mut g = governance();
    assert_eq!(g.set_owner(actor(9), actor(9)).unwrap_err(), ServiceError::Authorization);
    assert_eq!(g.set_market_contract(actor(9), actor(8)).unwrap_err(), ServiceError::Authorization);
    assert!(matches!(g.set_market_contract(actor(1), actor(8)).unwrap(), DaoEvent::GovernanceParamUpdated));
    assert!(g.query_state().market_contract == actor(8));
    g.set_owner(actor(1), actor(9)).unwrap();
    assert!(g.query_state().owner == actor(9));
    assert_eq!(g.set_owner(actor(1), actor(1)).unwrap_err(), ServiceError::Authorization);
}
