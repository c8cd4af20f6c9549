use smartcup::actor::ActorId;
use smartcup::bolao::{BolaoEvent, Outcome, ResultStatus, Service};
use smartcup::errors::ServiceError;
use smartcup::ledger::MAX_PAYOUT_CHUNK;

fn actor(b: u8) -> ActorId {
    ActorId::from_bytes([b; 32])
}

const YES: [u8; 1] = [1];

fn pool_with_match(kick_off: u64) -> Service {
    let mut s = Service::seed(actor(1), actor(2), actor(3));
    s.register_phase(actor(1), "groups".to_string(), 0, 100).unwrap();
    s.register_match(actor(1), "groups".to_string(), "BRA".to_string(), "ARG".to_string(), kick_off)
        .unwrap();
    s
}

#[test]
fn wager_of_one_million_is_split_by_basis_points() {
    let mut s = pool_with_match(1_000);
    let ev = s.bet(actor(9), 1_000_000, 10, 1, Outcome::Home, &YES).unwrap();
    match ev {
        BolaoEvent::BetAccepted(u, id, o, amt) => {
            assert!(u == actor(9));
            assert_eq!(id, 1);
            assert_eq!(o, Outcome::Home);
            assert_eq!(amt, 750_000);
        }
        _ => panic!("unexpected event"),
    }
    let m = s.query_match(1).unwrap();
    assert_eq!(m.pool_home, 750_000);
    assert_eq!(m.pool_draw, 0);
    assert_eq!(m.pool_away, 0);
    assert!(m.has_bets);
    assert_eq!(m.participants.len(), 1);
    assert_eq!(s.state.fee_accum, 50_000);
    assert_eq!(s.state.final_prize_accum, 200_000);
}

#[test]
fn pools_add_up_to_net_stakes() {
    let mut s = pool_with_match(1_000);
    s.bet(actor(10), 1_000, 1, 1, Outcome::Home, &YES).unwrap();
    s.bet(actor(11), 2_000, 1, 1, Outcome::Draw, &YES).unwrap();
    s.bet(actor(12), 4_000, 1, 1, Outcome::Home, &YES).unwrap();
    let m = s.query_match(1).unwrap();
    let net: u128 = s.state.bets.iter().map(|b| b.amount).sum();
    assert_eq!(m.pool_home + m.pool_draw + m.pool_away, net);
    assert_eq!(m.pool_home, 750 + 3_000);
    assert_eq!(m.pool_draw, 1_500);
    assert_eq!(s.state.fee_accum, 50 + 100 + 200);
    assert_eq!(s.state.final_prize_accum, 200 + 400 + 800);
}

#[test]
fn second_wager_on_same_match_is_a_duplicate() {
    let mut s = pool_with_match(1_000);
    s.bet(actor(9), 100, 10, 1, Outcome::Home, &YES).unwrap();
    let r = s.bet(actor(9), 100, 11, 1, Outcome::Away, &YES);
    assert_eq!(r.unwrap_err(), ServiceError::Duplicate);
    assert_eq!(s.state.bets.len(), 1);
    assert_eq!(s.check_bet(actor(9), 12, 1), Err(ServiceError::Duplicate));
}

#[test]
fn wager_refusals() {
    let mut s = pool_with_match(1_000);
    assert_eq!(s.bet(actor(9), 100, 10, 2, Outcome::Home, &YES).unwrap_err(), ServiceError::NotFound);
    assert_eq!(s.bet(actor(9), 100, 1_000, 1, Outcome::Home, &YES).unwrap_err(), ServiceError::State);
    assert_eq!(s.bet(actor(9), 100, 10, 1, Outcome::Home, &[0]).unwrap_err(), ServiceError::ExternalCall);
    assert_eq!(s.bet(actor(9), 100, 10, 1, Outcome::Home, &[]).unwrap_err(), ServiceError::ExternalCall);
    assert_eq!(s.bet(actor(9), 100, 10, 1, Outcome::Home, &[7]).unwrap_err(), ServiceError::ExternalCall);
    assert_eq!(s.state.bets.len(), 0);
    assert_eq!(s.state.fee_accum, 0);
}

#[test]
fn registration_is_owner_only_and_checked() {
    let mut s = Service::seed(actor(1), actor(2), actor(3));
    assert_eq!(s.register_phase(actor(5), "final".to_string(), 0, 1).unwrap_err(), ServiceError::Authorization);
    s.register_phase(actor(1), "final".to_string(), 0, 1).unwrap();
    assert_eq!(s.register_phase(actor(1), "final".to_string(), 2, 3).unwrap_err(), ServiceError::Duplicate);
    assert_eq!(
        s.register_match(actor(1), "semis".to_string(), "A".to_string(), "B".to_string(), 5).unwrap_err(),
        ServiceError::NotFound
    );
    assert_eq!(
        s.register_match(actor(5), "final".to_string(), "A".to_string(), "B".to_string(), 5).unwrap_err(),
        ServiceError::Authorization
    );
    s.register_match(actor(1), "final".to_string(), "A".to_string(), "B".to_string(), 5).unwrap();
    match s.register_match(actor(1), "final".to_string(), "C".to_string(), "D".to_string(), 6).unwrap() {
        BolaoEvent::MatchRegistered(id, phase, home, away, k) => {
            assert_eq!(id, 2);
            assert_eq!(phase, "final");
            assert_eq!(home, "C");
            assert_eq!(away, "D");
            assert_eq!(k, 6);
        }
        _ => panic!("unexpected event"),
    }
    assert_eq!(s.query_matches_by_phase("final".to_string()).len(), 2);
    assert_eq!(s.query_matches_by_phase("semis".to_string()).len(), 0);
}

#[test]
fn result_moves_only_forward() {
    let mut s = pool_with_match(1_000);
    assert_eq!(s.finalize_result(actor(1), 1).unwrap_err(), ServiceError::State);
    s.propose_result(actor(7), 1, Outcome::Draw).unwrap();
    assert!(matches!(s.query_match(1).unwrap().result, ResultStatus::Proposed { outcome: Outcome::Draw, .. }));
    assert_eq!(s.propose_result(actor(7), 1, Outcome::Home).unwrap_err(), ServiceError::State);
    assert_eq!(s.finalize_result(actor(7), 1).unwrap_err(), ServiceError::Authorization);
    s.finalize_result(actor(1), 1).unwrap();
    assert!(matches!(s.query_match(1).unwrap().result, ResultStatus::Finalized { outcome: Outcome::Draw }));
    assert_eq!(s.propose_result(actor(7), 1, Outcome::Home).unwrap_err(), ServiceError::State);
    assert_eq!(s.finalize_result(actor(1), 1).unwrap_err(), ServiceError::State);
    assert_eq!(s.propose_result(actor(7), 9, Outcome::Home).unwrap_err(), ServiceError::NotFound);
}

#[test]
fn finalizing_awards_points_to_correct_bettors() {
    let mut s = pool_with_match(1_000);
    s.bet(actor(10), 1_000, 1, 1, Outcome::Home, &YES).unwrap();
    s.bet(actor(11), 1_000, 1, 1, Outcome::Away, &YES).unwrap();
    s.propose_result(actor(7), 1, Outcome::Home).unwrap();
    s.finalize_result(actor(1), 1).unwrap();
    assert_eq!(s.query_user_points(actor(10)), 3);
    assert_eq!(s.query_user_points(actor(11)), 0);
    assert_eq!(s.query_user_points(actor(99)), 0);
    assert_eq!(s.query_state().user_points.len(), 1);
}

#[test]
fn payout_pays_proportional_shares_once() {
    let mut s = pool_with_match(1_000);
    s.bet(actor(10), 1_000, 1, 1, Outcome::Home, &YES).unwrap();
    s.bet(actor(11), 3_000, 1, 1, Outcome::Home, &YES).unwrap();
    s.bet(actor(12), 4_000, 1, 1, Outcome::Away, &YES).unwrap();
    assert_eq!(s.payout_winners(1).unwrap_err(), ServiceError::State);
    s.propose_result(actor(7), 1, Outcome::Home).unwrap();
    assert_eq!(s.payout_winners(1).unwrap_err(), ServiceError::State);
    s.finalize_result(actor(1), 1).unwrap();
    let events = s.payout_winners(1).unwrap();
    // pools: home 750 + 2250 = 3000, away 3000, total 6000
    let shares: Vec<u128> = events
        .iter()
        .map(|e| match e {
            BolaoEvent::WinnerPaid(_, _, x) => *x,
            _ => panic!("unexpected event"),
        })
        .collect();
    assert_eq!(shares, vec![1_500, 4_500]);
    assert!(shares.iter().sum::<u128>() <= 6_000);
    assert!(s.payout_winners(1).unwrap().is_empty());
    assert!(s.state.bets.iter().filter(|b| b.selected == Outcome::Home).all(|b| b.paid));
    assert!(!s.state.bets[2].paid);
    assert_eq!(s.payout_winners(5).unwrap_err(), ServiceError::NotFound);
}

#[test]
fn payout_with_empty_winning_pool_pays_nothing() {
    let mut s = pool_with_match(1_000);
    s.bet(actor(10), 1_000, 1, 1, Outcome::Home, &YES).unwrap();
    s.propose_result(actor(7), 1, Outcome::Draw).unwrap();
    s.finalize_result(actor(1), 1).unwrap();
    assert!(s.payout_winners(1).unwrap().is_empty());
    assert!(!s.state.bets[0].paid);
}

#[test]
fn payout_is_chunked_under_the_cap() {
    let mut s = pool_with_match(1_000);
    // each net stake is 3/4 of the gross; one share is 6e15, two would pass the cap of 1e16
    let gross: u128 = 8_000_000_000_000_000;
    s.bet(actor(10), gross, 1, 1, Outcome::Home, &YES).unwrap();
    s.bet(actor(11), gross, 1, 1, Outcome::Home, &YES).unwrap();
    s.bet(actor(12), gross, 1, 1, Outcome::Home, &YES).unwrap();
    s.propose_result(actor(7), 1, Outcome::Home).unwrap();
    s.finalize_result(actor(1), 1).unwrap();
    let mut calls = 0;
    let mut paid_to = Vec::new();
    loop {
        let events = s.payout_winners(1).unwrap();
        if events.is_empty() {
            break;
        }
        calls += 1;
        let mut sum: u128 = 0;
        for e in events {
            if let BolaoEvent::WinnerPaid(_, u, x) = e {
                assert_eq!(x, 6_000_000_000_000_000);
                sum += x;
                paid_to.push(u);
            }
        }
        assert!(sum <= MAX_PAYOUT_CHUNK);
    }
    assert_eq!(calls, 3);
    assert_eq!(paid_to.len(), 3);
    assert!(paid_to[0] == actor(10) && paid_to[1] == actor(11) && paid_to[2] == actor(12));
}

#[test]
fn accumulators_are_emptied_once() {
    let mut s = pool_with_match(1_000);
    assert_eq!(s.withdraw_fees().unwrap_err(), ServiceError::ZeroAmount);
    assert_eq!(s.send_final_prize().unwrap_err(), ServiceError::ZeroAmount);
    s.bet(actor(10), 1_000_000, 1, 1, Outcome::Home, &YES).unwrap();
    match s.withdraw_fees().unwrap() {
        BolaoEvent::FeeWithdrawn(amt, to) => {
            assert_eq!(amt, 50_000);
            assert!(to == actor(1));
        }
        _ => panic!("unexpected event"),
    }
    assert_eq!(s.state.fee_accum, 0);
    assert_eq!(s.withdraw_fees().unwrap_err(), ServiceError::ZeroAmount);
    match s.send_final_prize().unwrap() {
        BolaoEvent::FinalPrizeSent(amt, to) => {
            assert_eq!(amt, 200_000);
            assert!(to == actor(3));
        }
        _ => panic!("unexpected event"),
    }
    assert_eq!(s.state.final_prize_accum, 0);
    assert_eq!(s.send_final_prize().unwrap_err(), ServiceError::ZeroAmount);
}

#[test]
fn huge_wager_saturates_instead_of_overflowing() {
    let mut s = pool_with_match(1_000);
    s.bet(actor(10), u128::MAX, 1, 1, Outcome::Away, &YES).unwrap();
    s.bet(actor(11), u128::MAX, 1, 1, Outcome::Away, &YES).unwrap();
    let m = s.query_match(1).unwrap();
    assert_eq!(m.pool_away, u128::MAX);
    assert_eq!(s.state.fee_accum, u128::MAX / 10_000 * 2);
}
