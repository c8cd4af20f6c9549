use crate::actor::ActorId;
use crate::codec::{decoded_bool, kyc_approves};
use crate::errors::ServiceError;
use crate::ledger::{
    fee_of, fee_spec, net_of, net_spec, prize_cut_of, prize_cut_spec, share_of, share_spec,
    MAX_PAYOUT_CHUNK,
};
use vstd::prelude::*;

verus! {

/// Points a user earns for each correctly predicted match.
pub const POINTS_PER_HIT: u32 = 3;

#[derive(Debug, Clone, Copy, PartialEq, Eq, Structural)]
pub enum Outcome {
    Home,
    Draw,
    Away,
}

/// Where a match's result stands: it moves only forward, from unresolved to
/// proposed (by some oracle) to finalized (by the owner).
#[derive(Debug, Clone, Copy)]
pub enum ResultStatus {
    Unresolved,
    Proposed { outcome: Outcome, oracle: ActorId },
    Finalized { outcome: Outcome },
}

#[derive(Debug, Clone)]
pub struct MatchPhase {
    pub name: String,
    pub start_time: u64,
    pub end_time: u64,
}

impl MatchPhase {
    /// A copy equal to `self`.
    pub fn copied(&self) -> (r: MatchPhase)
        ensures
            r == *self,
    {
        MatchPhase { name: self.name.clone(), start_time: self.start_time, end_time: self.end_time }
    }
}

#[derive(Debug, Clone)]
pub struct MatchInfo {
    pub match_id: u64,
    pub phase: String,
    pub home: String,
    pub away: String,
    pub kick_off: u64,
    pub result: ResultStatus,
    pub pool_home: u128,
    pub pool_draw: u128,
    pub pool_away: u128,
    pub has_bets: bool,
    /// Every user who bet on the match, once each, in order of first bet.
    pub participants: Vec<ActorId>,
}

/// Copies a list of identities.
fn copy_actors(v: &Vec<ActorId>) -> (r: Vec<ActorId>)
    ensures
        r@ == v@,
{
    let mut r: Vec<ActorId> = Vec::new();
    let mut i: usize = 0;
    while i < v.len()
        invariant
            0 <= i <= v@.len(),
            r@ == v@.subrange(0, i as int),
        decreases v@.len() - i,
    {
        r.push(v[i]);
        i = i + 1;
    }
    assert(v@.subrange(0, v@.len() as int) == v@);
    r
}

impl MatchInfo {
    /// A copy equal to `self`.
    pub fn copied(&self) -> (r: MatchInfo)
        ensures
            r.match_id == self.match_id,
            r.phase == self.phase,
            r.home == self.home,
            r.away == self.away,
            r.kick_off == self.kick_off,
            r.result == self.result,
            r.pool_home == self.pool_home,
            r.pool_draw == self.pool_draw,
            r.pool_away == self.pool_away,
            r.has_bets == self.has_bets,
            r.participants@ == self.participants@,
    {
        MatchInfo {
            match_id: self.match_id,
            phase: self.phase.clone(),
            home: self.home.clone(),
            away: self.away.clone(),
            kick_off: self.kick_off,
            result: self.result,
            pool_home: self.pool_home,
            pool_draw: self.pool_draw,
            pool_away: self.pool_away,
            has_bets: self.has_bets,
            participants: copy_actors(&self.participants),
        }
    }
}

/// A user's wager on a match; `amount` is the net stake.
#[derive(Debug, Clone, Copy)]
pub struct Bet {
    pub user: ActorId,
    pub match_id: u64,
    pub selected: Outcome,
    pub amount: u128,
    pub paid: bool,
}

/// The betting pool's store. Match `id` sits at index `id - 1`; bets are
/// kept in the order they were accepted.
#[derive(Debug, Clone)]
pub struct BolaoState {
    pub owner: ActorId,
    pub kyc_contract: ActorId,
    pub final_prize_distributor: ActorId,
    pub fee_accum: u128,
    pub final_prize_accum: u128,
    pub matches: Vec<MatchInfo>,
    pub phases: Vec<MatchPhase>,
    pub user_points: Vec<(ActorId, u32)>,
    pub bets: Vec<Bet>,
    pub current_match: u64,
}

#[derive(Debug, Clone)]
pub enum BolaoEvent {
    PhaseRegistered(String),
    MatchRegistered(u64, String, String, String, u64),
    BetAccepted(ActorId, u64, Outcome, u128),
    ResultProposed(u64, Outcome, ActorId),
    ResultFinalized(u64, Outcome),
    WinnerPaid(u64, ActorId, u128),
    FinalPrizeSent(u128, ActorId),
    FeeWithdrawn(u128, ActorId),
}

/// A snapshot of the whole store, for inspection.
#[derive(Debug, Clone)]
pub struct IoBolaoState {
    pub owner: ActorId,
    pub kyc_contract: ActorId,
    pub final_prize_distributor: ActorId,
    pub fee_accum: u128,
    pub final_prize_accum: u128,
    pub matches: Vec<MatchInfo>,
    pub phases: Vec<MatchPhase>,
    pub user_points: Vec<(ActorId, u32)>,
}

pub open spec fn has_phase(phases: Seq<MatchPhase>, name: Seq<char>) -> bool {
    exists|i: int| 0 <= i < phases.len() && #[trigger] phases[i].name@ == name
}

pub open spec fn has_bet(bets: Seq<Bet>, user: ActorId, match_id: u64) -> bool {
    exists|i: int| 0 <= i < bets.len() && #[trigger] bets[i].user == user && bets[i].match_id == match_id
}

pub open spec fn has_user(up: Seq<(ActorId, u32)>, user: ActorId) -> bool {
    exists|i: int| 0 <= i < up.len() && #[trigger] up[i].0 == user
}

/// A user's point total: 0 when the user has none recorded.
pub open spec fn points_of(up: Seq<(ActorId, u32)>, user: ActorId) -> u32 {
    if has_user(up, user) {
        up[choose|i: int| 0 <= i < up.len() && #[trigger] up[i].0 == user].1
    } else {
        0
    }
}

pub open spec fn unique_users(up: Seq<(ActorId, u32)>) -> bool {
    forall|i: int, j: int| 0 <= i < j < up.len() ==> #[trigger] up[i].0 != #[trigger] up[j].0
}

pub open spec fn unique_bets(bets: Seq<Bet>) -> bool {
    forall|i: int, j: int|
        0 <= i < j < bets.len() ==> !(#[trigger] bets[i].user == #[trigger] bets[j].user
            && bets[i].match_id == bets[j].match_id)
}

pub open spec fn unique_actors(v: Seq<ActorId>) -> bool {
    forall|i: int, j: int| 0 <= i < j < v.len() ==> #[trigger] v[i] != #[trigger] v[j]
}

/// The pool a match holds for outcome `o`.
pub open spec fn pool_of(m: MatchInfo, o: Outcome) -> u128 {
    match o {
        Outcome::Home => m.pool_home,
        Outcome::Draw => m.pool_draw,
        Outcome::Away => m.pool_away,
    }
}

/// `b` agrees with `a` on all but the result, the pools, `has_bets` and the
/// participants.
pub open spec fn same_fixture(a: MatchInfo, b: MatchInfo) -> bool {
    &&& a.match_id == b.match_id
    &&& a.phase == b.phase
    &&& a.home == b.home
    &&& a.away == b.away
    &&& a.kick_off == b.kick_off
}

/// `b` is `a` with a new result and nothing else changed.
pub open spec fn with_result(a: MatchInfo, b: MatchInfo, r: ResultStatus) -> bool {
    &&& same_fixture(a, b)
    &&& b.result == r
    &&& b.pool_home == a.pool_home
    &&& b.pool_draw == a.pool_draw
    &&& b.pool_away == a.pool_away
    &&& b.has_bets == a.has_bets
    &&& b.participants@ == a.participants@
}

/// `b` is `a` after `user` staked `net` on outcome `o`.
pub open spec fn credited(a: MatchInfo, b: MatchInfo, o: Outcome, net: u128, user: ActorId) -> bool {
    &&& same_fixture(a, b)
    &&& b.result == a.result
    &&& forall|x: Outcome| #[trigger] pool_of(b, x) == if x == o {
        pool_of(a, x).saturating_add(net)
    } else {
        pool_of(a, x)
    }
    &&& b.has_bets
    &&& b.participants@ == if a.participants@.contains(user) {
        a.participants@
    } else {
        a.participants@.push(user)
    }
}

/// `b` agrees with `a` on everything but the `paid` flag.
pub open spec fn same_wager(a: Bet, b: Bet) -> bool {
    &&& a.user == b.user
    &&& a.match_id == b.match_id
    &&& a.selected == b.selected
    &&& a.amount == b.amount
}

/// `b` is a copy of `a`.
pub open spec fn same_match(a: MatchInfo, b: MatchInfo) -> bool {
    with_result(a, b, a.result)
}

/// Whether `user` holds a bet on match `match_id` that picked `o`.
pub open spec fn has_winning_bet(bets: Seq<Bet>, user: ActorId, match_id: u64, o: Outcome) -> bool {
    exists|i: int|
        0 <= i < bets.len() && #[trigger] bets[i].user == user && bets[i].match_id == match_id
            && bets[i].selected == o
}

/// Whether finalizing match `match_id` with outcome `o` earns `user` points:
/// they took part and their bet picked `o`.
pub open spec fn earns_points(st: BolaoState, user: ActorId, match_id: u64, o: Outcome) -> bool {
    st.match_at(match_id).participants@.contains(user) && has_winning_bet(st.bets@, user, match_id, o)
}

/// Whether bet `b` is owed a payout on match `match_id` won by `o`.
pub open spec fn eligible(b: Bet, match_id: u64, o: Outcome) -> bool {
    b.match_id == match_id && b.selected == o && !b.paid
}

/// One payout call from bet `i` on, with `paid` already paid in this call
/// and `events` emitted so far: bets are taken in order; each eligible one
/// is marked paid and paid its share, until the next share would take the
/// call past `MAX_PAYOUT_CHUNK`. Yields the bets and the events.
pub open spec fn payout_from(
    bets: Seq<Bet>,
    i: int,
    match_id: u64,
    o: Outcome,
    total_pool: u128,
    winning_pool: u128,
    paid: u128,
    events: Seq<BolaoEvent>,
) -> (Seq<Bet>, Seq<BolaoEvent>)
    decreases bets.len() - i,
{
    if i < 0 || i >= bets.len() {
        (bets, events)
    } else if eligible(bets[i], match_id, o) {
        let share = share_spec(bets[i].amount, total_pool, winning_pool);
        if paid.saturating_add(share) > MAX_PAYOUT_CHUNK {
            (bets, events)
        } else {
            payout_from(
                bets.update(i, Bet { paid: true, ..bets[i] }),
                i + 1,
                match_id,
                o,
                total_pool,
                winning_pool,
                paid.saturating_add(share),
                events.push(BolaoEvent::WinnerPaid(match_id, bets[i].user, share)),
            )
        }
    } else {
        payout_from(bets, i + 1, match_id, o, total_pool, winning_pool, paid, events)
    }
}

/// The sum of the three pools, saturating.
pub open spec fn total_pool_spec(m: MatchInfo) -> u128 {
    m.pool_home.saturating_add(m.pool_draw).saturating_add(m.pool_away)
}

/// What one payout call on match `match_id`, won by `o`, does to `bets`.
pub open spec fn payout_call(bets: Seq<Bet>, m: MatchInfo, o: Outcome) -> (Seq<Bet>, Seq<BolaoEvent>) {
    payout_from(bets, 0, m.match_id, o, total_pool_spec(m), pool_of(m, o), 0, Seq::empty())
}

/// The matches of phase `phase`, in order.
pub open spec fn in_phase(matches: Seq<MatchInfo>, phase: Seq<char>) -> Seq<MatchInfo> {
    matches.filter(|m: MatchInfo| m.phase@ == phase)
}

/// The sum of the net stakes of the bets on match `match_id` that picked `o`.
pub open spec fn staked(bets: Seq<Bet>, match_id: u64, o: Outcome) -> int
    decreases bets.len(),
{
    if bets.len() == 0 {
        0
    } else {
        staked(bets.drop_last(), match_id, o) + if bets.last().match_id == match_id
            && bets.last().selected == o {
            bets.last().amount as int
        } else {
            0
        }
    }
}

/// `x`, held at `u128::MAX` when it is larger.
pub open spec fn capped(x: int) -> u128 {
    if x > u128::MAX {
        u128::MAX
    } else {
        x as u128
    }
}

pub proof fn lemma_staked_nonneg(bets: Seq<Bet>, match_id: u64, o: Outcome)
    ensures
        staked(bets, match_id, o) >= 0,
    decreases bets.len(),
{
    if bets.len() > 0 {
        lemma_staked_nonneg(bets.drop_last(), match_id, o);
    }
}

/// Bets on other matches add nothing to a match's stakes.
pub proof fn lemma_staked_none(bets: Seq<Bet>, match_id: u64, o: Outcome)
    requires
        forall|k: int| 0 <= k < bets.len() ==> #[trigger] bets[k].match_id != match_id,
    ensures
        staked(bets, match_id, o) == 0,
    decreases bets.len(),
{
    if bets.len() > 0 {
        lemma_staked_none(bets.drop_last(), match_id, o);
    }
}

pub proof fn lemma_staked_push(bets: Seq<Bet>, b: Bet, match_id: u64, o: Outcome)
    ensures
        staked(bets.push(b), match_id, o) == staked(bets, match_id, o) + if b.match_id == match_id
            && b.selected == o {
            b.amount as int
        } else {
            0
        },
{
    assert(bets.push(b).drop_last() == bets);
}

/// Marking bets paid leaves every stake sum as it was.
pub proof fn lemma_staked_same_wagers(a: Seq<Bet>, b: Seq<Bet>, match_id: u64, o: Outcome)
    requires
        a.len() == b.len(),
        forall|k: int| 0 <= k < a.len() ==> same_wager(a[k], #[trigger] b[k]),
    ensures
        staked(a, match_id, o) == staked(b, match_id, o),
    decreases a.len(),
{
    if a.len() > 0 {
        assert(same_wager(a[a.len() - 1], b[b.len() - 1]));
        lemma_staked_same_wagers(a.drop_last(), b.drop_last(), match_id, o);
    }
}

/// Adding a stake to a capped sum is a saturating add.
pub proof fn lemma_capped_add(x: int, a: u128)
    requires
        x >= 0,
    ensures
        capped(x + a) == capped(x).saturating_add(a),
{
}

/// The total that a list of events pays out.
pub open spec fn payout_sum(events: Seq<BolaoEvent>) -> int
    decreases events.len(),
{
    if events.len() == 0 {
        0
    } else {
        payout_sum(events.drop_last()) + match events.last() {
            BolaoEvent::WinnerPaid(_, _, share) => share as int,
            _ => 0,
        }
    }
}

/// The number of bets marked paid.
pub open spec fn paid_count(bets: Seq<Bet>) -> int
    decreases bets.len(),
{
    if bets.len() == 0 {
        0
    } else {
        paid_count(bets.drop_last()) + if bets.last().paid {
            1int
        } else {
            0
        }
    }
}

/// The shares of the bets on match `match_id` that picked `o` and are
/// marked paid.
pub open spec fn paid_shares(
    bets: Seq<Bet>,
    match_id: u64,
    o: Outcome,
    total_pool: u128,
    winning_pool: u128,
) -> int
    decreases bets.len(),
{
    if bets.len() == 0 {
        0
    } else {
        paid_shares(bets.drop_last(), match_id, o, total_pool, winning_pool) + if bets.last().match_id
            == match_id && bets.last().selected == o && bets.last().paid {
            share_spec(bets.last().amount, total_pool, winning_pool) as int
        } else {
            0
        }
    }
}

proof fn lemma_paid_shares_mark(
    bets: Seq<Bet>,
    i: int,
    match_id: u64,
    o: Outcome,
    total_pool: u128,
    winning_pool: u128,
)
    requires
        0 <= i < bets.len(),
        eligible(bets[i], match_id, o),
    ensures
        paid_shares(bets.update(i, Bet { paid: true, ..bets[i] }), match_id, o, total_pool, winning_pool)
            == paid_shares(bets, match_id, o, total_pool, winning_pool) + share_spec(
            bets[i].amount,
            total_pool,
            winning_pool,
        ),
    decreases bets.len(),
{
    let b2 = bets.update(i, Bet { paid: true, ..bets[i] });
    if i == bets.len() - 1 {
        assert(b2.drop_last() == bets.drop_last());
    } else {
        assert(b2.drop_last() == bets.drop_last().update(i, Bet { paid: true, ..bets[i] }));
        lemma_paid_shares_mark(bets.drop_last(), i, match_id, o, total_pool, winning_pool);
    }
}

proof fn lemma_paid_shares_bounded(
    bets: Seq<Bet>,
    match_id: u64,
    o: Outcome,
    total_pool: u128,
    winning_pool: u128,
)
    ensures
        0 <= paid_shares(bets, match_id, o, total_pool, winning_pool) <= shares_owed(
            bets,
            match_id,
            o,
            total_pool,
            winning_pool,
        ),
    decreases bets.len(),
{
    if bets.len() > 0 {
        lemma_paid_shares_bounded(bets.drop_last(), match_id, o, total_pool, winning_pool);
    }
}

/// Whatever has been paid on a match, each payout being the share of a bet
/// now marked paid, adds up to at most the whole pool.
pub proof fn lemma_paid_within_pool(
    bets: Seq<Bet>,
    match_id: u64,
    o: Outcome,
    total_pool: u128,
    winning_pool: u128,
)
    requires
        winning_pool > 0,
        winning_pool == staked(bets, match_id, o),
    ensures
        paid_shares(bets, match_id, o, total_pool, winning_pool) <= total_pool,
{
    lemma_paid_shares_bounded(bets, match_id, o, total_pool, winning_pool);
    lemma_shares_within_pool(bets, match_id, o, total_pool, winning_pool);
}

proof fn lemma_paid_count_mark(bets: Seq<Bet>, i: int)
    requires
        0 <= i < bets.len(),
        !bets[i].paid,
    ensures
        paid_count(bets.update(i, Bet { paid: true, ..bets[i] })) == paid_count(bets) + 1,
    decreases bets.len(),
{
    let b2 = bets.update(i, Bet { paid: true, ..bets[i] });
    if i == bets.len() - 1 {
        assert(b2.drop_last() == bets.drop_last());
    } else {
        assert(b2.drop_last() == bets.drop_last().update(i, Bet { paid: true, ..bets[i] }));
        lemma_paid_count_mark(bets.drop_last(), i);
    }
}

/// One payout call, from any point of its run: it keeps every wager but
/// for `paid` flags, unmarks none, marks only eligible bets, marks exactly
/// one bet per payout it makes, and keeps what it pays at most
/// `MAX_PAYOUT_CHUNK`.
pub proof fn lemma_payout_from(
    bets: Seq<Bet>,
    i: int,
    match_id: u64,
    o: Outcome,
    total_pool: u128,
    winning_pool: u128,
    paid: u128,
    events: Seq<BolaoEvent>,
)
    requires
        0 <= i,
        paid <= MAX_PAYOUT_CHUNK,
    ensures
        ({
            let (bs, ev) = payout_from(bets, i, match_id, o, total_pool, winning_pool, paid, events);
            &&& bs.len() == bets.len()
            &&& forall|k: int| 0 <= k < bets.len() ==> same_wager(bets[k], #[trigger] bs[k])
            &&& forall|k: int| 0 <= k < bets.len() && bets[k].paid ==> #[trigger] bs[k].paid
            &&& forall|k: int|
                0 <= k < bets.len() && !bets[k].paid && #[trigger] bs[k].paid ==> eligible(
                    bets[k],
                    match_id,
                    o,
                )
            &&& ev.len() >= events.len()
            &&& ev.subrange(0, events.len() as int) == events
            &&& paid_count(bs) - paid_count(bets) == ev.len() - events.len()
            &&& paid + payout_sum(ev) - payout_sum(events) <= MAX_PAYOUT_CHUNK
            &&& paid_shares(bs, match_id, o, total_pool, winning_pool) - paid_shares(
                bets,
                match_id,
                o,
                total_pool,
                winning_pool,
            ) == payout_sum(ev) - payout_sum(events)
        }),
    decreases bets.len() - i,
{
    if i >= bets.len() {
        assert(events.subrange(0, events.len() as int) == events);
    } else if eligible(bets[i], match_id, o) {
        let share = share_spec(bets[i].amount, total_pool, winning_pool);
        if paid.saturating_add(share) > MAX_PAYOUT_CHUNK {
            assert(events.subrange(0, events.len() as int) == events);
        } else {
            let b2 = bets.update(i, Bet { paid: true, ..bets[i] });
            let e2 = events.push(BolaoEvent::WinnerPaid(match_id, bets[i].user, share));
            let paid_next = paid.saturating_add(share);
            lemma_payout_from(b2, i + 1, match_id, o, total_pool, winning_pool, paid_next, e2);
            lemma_paid_count_mark(bets, i);
            lemma_paid_shares_mark(bets, i, match_id, o, total_pool, winning_pool);
            let (bs, ev) = payout_from(b2, i + 1, match_id, o, total_pool, winning_pool, paid_next, e2);
            assert(e2.drop_last() == events);
            assert(payout_sum(e2) == payout_sum(events) + share);
            assert(ev.subrange(0, events.len() as int) == e2.subrange(0, events.len() as int));
            assert(e2.subrange(0, events.len() as int) == events);
            assert forall|k: int| 0 <= k < bets.len() implies same_wager(bets[k], #[trigger] bs[k]) by {
                assert(same_wager(b2[k], bs[k]));
            }
            assert forall|k: int| 0 <= k < bets.len() && bets[k].paid implies #[trigger] bs[k].paid by {
                assert(b2[k].paid);
            }
            assert forall|k: int|
                0 <= k < bets.len() && !bets[k].paid && #[trigger] bs[k].paid implies eligible(
                    bets[k],
                    match_id,
                    o,
                ) by {
                if k != i {
                    assert(b2[k] == bets[k]);
                }
            }
        }
    } else {
        lemma_payout_from(bets, i + 1, match_id, o, total_pool, winning_pool, paid, events);
    }
}

/// A call that meets an eligible bet whose share fits in a chunk pays
/// someone, when nothing was paid before in the call.
proof fn lemma_payout_reaches(
    bets: Seq<Bet>,
    i: int,
    j: int,
    match_id: u64,
    o: Outcome,
    total_pool: u128,
    winning_pool: u128,
)
    requires
        0 <= i <= j < bets.len(),
        eligible(bets[j], match_id, o),
        share_spec(bets[j].amount, total_pool, winning_pool) <= MAX_PAYOUT_CHUNK,
        forall|k: int| i <= k < j ==> !eligible(#[trigger] bets[k], match_id, o),
    ensures
        payout_from(bets, i, match_id, o, total_pool, winning_pool, 0, Seq::empty()).1.len() > 0,
    decreases j - i,
{
    if i < j {
        lemma_payout_reaches(bets, i + 1, j, match_id, o, total_pool, winning_pool);
    } else {
        let share = share_spec(bets[i].amount, total_pool, winning_pool);
        let b2 = bets.update(i, Bet { paid: true, ..bets[i] });
        let e2 = Seq::<BolaoEvent>::empty().push(BolaoEvent::WinnerPaid(match_id, bets[i].user, share));
        lemma_payout_from(b2, i + 1, match_id, o, total_pool, winning_pool, share, e2);
    }
}

/// Payouts are bounded and exact: one call pays at most
/// `MAX_PAYOUT_CHUNK` in all; it marks paid exactly as many bets as it
/// makes payouts, and only bets that were eligible and unpaid; no bet is
/// ever unmarked, so no bet is paid twice across calls. While an eligible
/// bet is left and every eligible share fits in a chunk, each call pays at
/// least one, so repeated calls pay every eligible bet. What a call pays
/// is the shares of the bets it marks, so all that calls ever pay is the
/// shares of the paid bets (see `lemma_paid_within_pool`).
pub proof fn lemma_payout_call(bets: Seq<Bet>, m: MatchInfo, o: Outcome)
    ensures
        ({
            let (bs, ev) = payout_call(bets, m, o);
            &&& bs.len() == bets.len()
            &&& forall|k: int| 0 <= k < bets.len() ==> same_wager(bets[k], #[trigger] bs[k])
            &&& forall|k: int| 0 <= k < bets.len() && bets[k].paid ==> #[trigger] bs[k].paid
            &&& forall|k: int|
                0 <= k < bets.len() && !bets[k].paid && #[trigger] bs[k].paid ==> eligible(
                    bets[k],
                    m.match_id,
                    o,
                )
            &&& paid_count(bs) - paid_count(bets) == ev.len()
            &&& payout_sum(ev) <= MAX_PAYOUT_CHUNK
            &&& paid_shares(bs, m.match_id, o, total_pool_spec(m), pool_of(m, o)) == paid_shares(
                bets,
                m.match_id,
                o,
                total_pool_spec(m),
                pool_of(m, o),
            ) + payout_sum(ev)
        }),
        (forall|k: int|
            0 <= k < bets.len() && eligible(#[trigger] bets[k], m.match_id, o) ==> share_spec(
                bets[k].amount,
                total_pool_spec(m),
                pool_of(m, o),
            ) <= MAX_PAYOUT_CHUNK) && (exists|k: int|
            0 <= k < bets.len() && eligible(#[trigger] bets[k], m.match_id, o))
            ==> payout_call(bets, m, o).1.len() > 0,
{
    lemma_payout_from(bets, 0, m.match_id, o, total_pool_spec(m), pool_of(m, o), 0, Seq::empty());
    if (forall|k: int|
        0 <= k < bets.len() && eligible(#[trigger] bets[k], m.match_id, o) ==> share_spec(
            bets[k].amount,
            total_pool_spec(m),
            pool_of(m, o),
        ) <= MAX_PAYOUT_CHUNK) && (exists|k: int|
        0 <= k < bets.len() && eligible(#[trigger] bets[k], m.match_id, o)) {
        let j = first_eligible(bets, m.match_id, o);
        lemma_payout_reaches(bets, 0, j, m.match_id, o, total_pool_spec(m), pool_of(m, o));
    }
}

/// The index of the first eligible bet, given that one exists.
proof fn first_eligible(bets: Seq<Bet>, match_id: u64, o: Outcome) -> (j: int)
    requires
        exists|k: int| 0 <= k < bets.len() && eligible(#[trigger] bets[k], match_id, o),
    ensures
        0 <= j < bets.len(),
        eligible(bets[j], match_id, o),
        forall|k: int| 0 <= k < j ==> !eligible(#[trigger] bets[k], match_id, o),
    decreases bets.len(),
{
    if eligible(bets.last(), match_id, o) && !(exists|k: int|
        0 <= k < bets.len() - 1 && eligible(#[trigger] bets[k], match_id, o)) {
        bets.len() - 1
    } else {
        let k0 = choose|k: int| 0 <= k < bets.len() && eligible(#[trigger] bets[k], match_id, o);
        if k0 == bets.len() - 1 {
            let k1 = choose|k: int| 0 <= k < bets.len() - 1 && eligible(#[trigger] bets[k], match_id, o);
            assert(eligible(bets.drop_last()[k1], match_id, o));
        } else {
            assert(eligible(bets.drop_last()[k0], match_id, o));
        }
        let j = first_eligible(bets.drop_last(), match_id, o);
        assert forall|k: int| 0 <= k < j implies !eligible(#[trigger] bets[k], match_id, o) by {
            assert(bets[k] == bets.drop_last()[k]);
        }
        j
    }
}

/// All net stakes on match `match_id`, whatever they picked.
pub open spec fn staked_total(bets: Seq<Bet>, match_id: u64) -> int
    decreases bets.len(),
{
    if bets.len() == 0 {
        0
    } else {
        staked_total(bets.drop_last(), match_id) + if bets.last().match_id == match_id {
            bets.last().amount as int
        } else {
            0
        }
    }
}

proof fn lemma_staked_split(bets: Seq<Bet>, match_id: u64)
    ensures
        staked_total(bets, match_id) == staked(bets, match_id, Outcome::Home) + staked(
            bets,
            match_id,
            Outcome::Draw,
        ) + staked(bets, match_id, Outcome::Away),
    decreases bets.len(),
{
    if bets.len() > 0 {
        lemma_staked_split(bets.drop_last(), match_id);
    }
}

/// In a well-formed store each pool of a match holds the net stakes on its
/// outcome, held at `u128::MAX`; so where they fit, the three pools add up
/// to every net stake recorded on the match.
pub proof fn lemma_pools_hold_stakes(st: BolaoState, match_id: u64)
    requires
        st.wf(),
        st.has_match(match_id),
    ensures
        forall|o: Outcome| #[trigger] pool_of(st.match_at(match_id), o) == capped(
            staked(st.bets@, match_id, o),
        ),
        staked_total(st.bets@, match_id) <= u128::MAX ==> st.match_at(match_id).pool_home
            + st.match_at(match_id).pool_draw + st.match_at(match_id).pool_away == staked_total(
            st.bets@,
            match_id,
        ),
{
    let i = match_id - 1;
    assert forall|o: Outcome| #[trigger] pool_of(st.match_at(match_id), o) == capped(
        staked(st.bets@, match_id, o),
    ) by {
        assert(pool_of(st.matches@[i], o) == capped(staked(st.bets@, (i + 1) as u64, o)));
    }
    lemma_staked_split(st.bets@, match_id);
    lemma_staked_nonneg(st.bets@, match_id, Outcome::Home);
    lemma_staked_nonneg(st.bets@, match_id, Outcome::Draw);
    lemma_staked_nonneg(st.bets@, match_id, Outcome::Away);
    assert(pool_of(st.match_at(match_id), Outcome::Home) == st.match_at(match_id).pool_home);
    assert(pool_of(st.match_at(match_id), Outcome::Draw) == st.match_at(match_id).pool_draw);
    assert(pool_of(st.match_at(match_id), Outcome::Away) == st.match_at(match_id).pool_away);
}

/// A user who holds a bet on a match can never wager on it again: before
/// kick-off the wager is refused as a duplicate, after it as too late.
pub proof fn lemma_second_bet_refused(st: BolaoState, user: ActorId, match_id: u64, now: u64)
    requires
        st.wf(),
        has_bet(st.bets@, user, match_id),
    ensures
        st.bet_refusal(user, now, match_id) is Some,
        now < st.match_at(match_id).kick_off ==> st.bet_refusal(user, now, match_id) == Some(
            ServiceError::Duplicate,
        ),
{
    let k = choose|k: int| 0 <= k < st.bets@.len() && #[trigger] st.bets@[k].user == user && st.bets@[k].match_id == match_id;
    assert(1 <= st.bets@[k].match_id <= st.matches@.len());
}

/// The shares owed to all bets on match `match_id` that picked `o`.
pub open spec fn shares_owed(
    bets: Seq<Bet>,
    match_id: u64,
    o: Outcome,
    total_pool: u128,
    winning_pool: u128,
) -> int
    decreases bets.len(),
{
    if bets.len() == 0 {
        0
    } else {
        shares_owed(bets.drop_last(), match_id, o, total_pool, winning_pool) + if bets.last().match_id
            == match_id && bets.last().selected == o {
            share_spec(bets.last().amount, total_pool, winning_pool) as int
        } else {
            0
        }
    }
}

proof fn lemma_shares_scaled(
    bets: Seq<Bet>,
    match_id: u64,
    o: Outcome,
    total_pool: u128,
    winning_pool: u128,
)
    requires
        winning_pool > 0,
    ensures
        shares_owed(bets, match_id, o, total_pool, winning_pool) * winning_pool <= total_pool
            * staked(bets, match_id, o),
    decreases bets.len(),
{
    if bets.len() > 0 {
        lemma_shares_scaled(bets.drop_last(), match_id, o, total_pool, winning_pool);
        let a = bets.last().amount;
        let prev = shares_owed(bets.drop_last(), match_id, o, total_pool, winning_pool);
        let sprev = staked(bets.drop_last(), match_id, o);
        if bets.last().match_id == match_id && bets.last().selected == o {
            let x = crate::ledger::sat_mul_spec(a, total_pool) as int;
            let w = winning_pool as int;
            assert((x / w) * w <= x) by (nonlinear_arith)
                requires
                    w > 0,
                    x >= 0,
            ;
            assert(x <= a * total_pool);
            assert((prev + x / w) * w == prev * w + (x / w) * w) by (nonlinear_arith);
            assert(total_pool * (sprev + a) == total_pool * sprev + total_pool * a) by (nonlinear_arith);
        }
    }
}

/// The shares owed to the winners of a match never add up to more than the
/// whole pool: rounding down only loses.
pub proof fn lemma_shares_within_pool(
    bets: Seq<Bet>,
    match_id: u64,
    o: Outcome,
    total_pool: u128,
    winning_pool: u128,
)
    requires
        winning_pool > 0,
        winning_pool == staked(bets, match_id, o),
    ensures
        shares_owed(bets, match_id, o, total_pool, winning_pool) <= total_pool,
{
    lemma_shares_scaled(bets, match_id, o, total_pool, winning_pool);
    let s = shares_owed(bets, match_id, o, total_pool, winning_pool);
    let w = winning_pool as int;
    let t = total_pool as int;
    assert(s <= t) by (nonlinear_arith)
        requires
            s * w <= t * w,
            w > 0,
    ;
}

/// A user's points are 0 when nothing was recorded, and otherwise what the
/// record holds.
pub proof fn lemma_points_at(up: Seq<(ActorId, u32)>, k: int)
    requires
        unique_users(up),
        0 <= k < up.len(),
    ensures
        points_of(up, up[k].0) == up[k].1,
{
    assert(has_user(up, up[k].0));
    let j = choose|i: int| 0 <= i < up.len() && #[trigger] up[i].0 == up[k].0;
    if j != k {
        if j < k {
            assert(up[j].0 != up[k].0);
        } else {
            assert(up[k].0 != up[j].0);
        }
    }
}

impl BolaoState {
    pub open spec fn wf(&self) -> bool {
        &&& self.matches@.len() == self.current_match
        &&& forall|i: int| 0 <= i < self.matches@.len() ==> #[trigger] self.matches@[i].match_id == i + 1
        &&& forall|i: int|
            0 <= i < self.matches@.len() ==> unique_actors(#[trigger] self.matches@[i].participants@)
        &&& forall|i: int, j: int|
            0 <= i < j < self.phases@.len() ==> #[trigger] self.phases@[i].name@
                != #[trigger] self.phases@[j].name@
        &&& unique_users(self.user_points@)
        &&& unique_bets(self.bets@)
        &&& forall|k: int|
            0 <= k < self.bets@.len() ==> 1 <= #[trigger] self.bets@[k].match_id <= self.matches@.len()
        &&& forall|i: int, o: Outcome|
            0 <= i < self.matches@.len() ==> #[trigger] pool_of(self.matches@[i], o) == capped(
                staked(self.bets@, (i + 1) as u64, o),
            )
    }

    pub open spec fn has_match(&self, id: u64) -> bool {
        1 <= id <= self.matches@.len()
    }

    pub open spec fn match_at(&self, id: u64) -> MatchInfo {
        self.matches@[id - 1]
    }

    /// The same owner, collaborators and accumulators as `o`.
    pub open spec fn same_ledger(&self, o: BolaoState) -> bool {
        &&& self.owner == o.owner
        &&& self.kyc_contract == o.kyc_contract
        &&& self.final_prize_distributor == o.final_prize_distributor
        &&& self.fee_accum == o.fee_accum
        &&& self.final_prize_accum == o.final_prize_accum
    }

    /// A fresh store: nothing registered, nothing accumulated.
    pub fn init(owner: ActorId, kyc_contract: ActorId, final_prize_distributor: ActorId) -> (r:
        BolaoState)
        ensures
            r.wf(),
            r.owner == owner,
            r.kyc_contract == kyc_contract,
            r.final_prize_distributor == final_prize_distributor,
            r.fee_accum == 0,
            r.final_prize_accum == 0,
            r.matches@.len() == 0,
            r.phases@.len() == 0,
            r.user_points@.len() == 0,
            r.bets@.len() == 0,
            r.current_match == 0,
    {
        BolaoState {
            owner,
            kyc_contract,
            final_prize_distributor,
            fee_accum: 0,
            final_prize_accum: 0,
            matches: Vec::new(),
            phases: Vec::new(),
            user_points: Vec::new(),
            bets: Vec::new(),
            current_match: 0,
        }
    }
}

fn contains_actor(v: &Vec<ActorId>, a: ActorId) -> (r: bool)
    ensures
        r == v@.contains(a),
{
    let mut i: usize = 0;
    while i < v.len()
        invariant
            0 <= i <= v@.len(),
            forall|k: int| 0 <= k < i ==> #[trigger] v@[k] != a,
        decreases v@.len() - i,
    {
        if v[i] == a {
            assert(v@[i as int] == a);
            return true;
        }
        i = i + 1;
    }
    false
}

impl BolaoState {
    /// Why a wager on `match_id` by `user` at `now` would be refused before
    /// the age check, if it would.
    pub open spec fn bet_refusal(&self, user: ActorId, now: u64, match_id: u64) -> Option<ServiceError> {
        if !self.has_match(match_id) {
            Some(ServiceError::NotFound)
        } else if now >= self.match_at(match_id).kick_off {
            Some(ServiceError::State)
        } else if has_bet(self.bets@, user, match_id) {
            Some(ServiceError::Duplicate)
        } else {
            None
        }
    }
}

/// The betting pool service: owns its store and runs each request on it.
pub struct Service {
    pub state: BolaoState,
}

impl Service {
    pub fn new(state: BolaoState) -> (r: Service)
        requires
            state.wf(),
        ensures
            r.state == state,
    {
        Service { state }
    }

    /// Starts a pool owned by `owner`.
    pub fn seed(owner: ActorId, kyc_contract: ActorId, final_prize_distributor: ActorId) -> (r:
        Service)
        ensures
            r.state.wf(),
            r.state.owner == owner,
            r.state.kyc_contract == kyc_contract,
            r.state.final_prize_distributor == final_prize_distributor,
            r.state.fee_accum == 0,
            r.state.final_prize_accum == 0,
            r.state.matches@.len() == 0,
            r.state.phases@.len() == 0,
            r.state.user_points@.len() == 0,
            r.state.bets@.len() == 0,
            r.state.current_match == 0,
    {
        Service { state: BolaoState::init(owner, kyc_contract, final_prize_distributor) }
    }

    fn phase_exists(&self, name: &String) -> (r: bool)
        ensures
            r == has_phase(self.state.phases@, name@),
    {
        let mut i: usize = 0;
        while i < self.state.phases.len()
            invariant
                0 <= i <= self.state.phases@.len(),
                forall|k: int| 0 <= k < i ==> #[trigger] self.state.phases@[k].name@ != name@,
            decreases self.state.phases@.len() - i,
        {
            if self.state.phases[i].name == *name {
                return true;
            }
            i = i + 1;
        }
        false
    }

    fn match_index(&self, match_id: u64) -> (r: Option<usize>)
        ensures
            match r {
                Some(i) => self.state.has_match(match_id) && i == match_id - 1,
                None => !self.state.has_match(match_id),
            },
    {
        let n = self.state.matches.len();
        if match_id == 0 || match_id > n as u64 {
            None
        } else {
            Some((match_id - 1) as usize)
        }
    }

    fn find_bet(&self, user: ActorId, match_id: u64) -> (r: Option<usize>)
        ensures
            match r {
                Some(i) => i < self.state.bets@.len() && self.state.bets@[i as int].user == user
                    && self.state.bets@[i as int].match_id == match_id,
                None => !has_bet(self.state.bets@, user, match_id),
            },
    {
        let mut i: usize = 0;
        while i < self.state.bets.len()
            invariant
                0 <= i <= self.state.bets@.len(),
                forall|k: int|
                    0 <= k < i ==> !(#[trigger] self.state.bets@[k].user == user
                        && self.state.bets@[k].match_id == match_id),
            decreases self.state.bets@.len() - i,
        {
            if self.state.bets[i].user == user && self.state.bets[i].match_id == match_id {
                return Some(i);
            }
            i = i + 1;
        }
        None
    }

    /// Refuses, before the age check, a wager that cannot be taken: an
    /// unknown match, one that has kicked off, or a second bet by `caller`.
    pub fn check_bet(&self, caller: ActorId, now: u64, match_id: u64) -> (r: Result<(), ServiceError>)
        ensures
            r == (match self.state.bet_refusal(caller, now, match_id) {
                Some(e) => Err::<(), ServiceError>(e),
                None => Ok(()),
            }),
    {
        let idx = match self.match_index(match_id) {
            Some(i) => i,
            None => {
                return Err(ServiceError::NotFound);
            },
        };
        if now >= self.state.matches[idx].kick_off {
            return Err(ServiceError::State);
        }
        if self.find_bet(caller, match_id).is_some() {
            return Err(ServiceError::Duplicate);
        }
        Ok(())
    }

    /// Takes `caller`'s wager of `value` on `selected` for match `match_id`
    /// at `now`, given the age-verification service's reply `kyc_reply`.
    /// The fee and the prize cut go to their accumulators; the net stake
    /// goes to the pool of the chosen outcome.
    pub fn bet(
        &mut self,
        caller: ActorId,
        value: u128,
        now: u64,
        match_id: u64,
        selected: Outcome,
        kyc_reply: &[u8],
    ) -> (r: Result<BolaoEvent, ServiceError>)
        requires
            old(self).state.wf(),
        ensures
            final(self).state.wf(),
            old(self).state.bet_refusal(caller, now, match_id) matches Some(e) ==> r == Err::<
                BolaoEvent,
                ServiceError,
            >(e),
            old(self).state.bet_refusal(caller, now, match_id) is None && decoded_bool(kyc_reply@)
                != Some(true) ==> r == Err::<BolaoEvent, ServiceError>(ServiceError::ExternalCall),
            r is Err ==> final(self).state == old(self).state,
            r is Ok <==> old(self).state.bet_refusal(caller, now, match_id) is None && decoded_bool(
                kyc_reply@,
            ) == Some(true),
            r is Ok ==> {
                let net = net_spec(value);
                let idx = match_id - 1;
                &&& r == Ok::<BolaoEvent, ServiceError>(
                    BolaoEvent::BetAccepted(caller, match_id, selected, net),
                )
                &&& final(self).state.fee_accum == old(self).state.fee_accum.saturating_add(
                    fee_spec(value),
                )
                &&& final(self).state.final_prize_accum
                    == old(self).state.final_prize_accum.saturating_add(prize_cut_spec(value))
                &&& final(self).state.matches@.len() == old(self).state.matches@.len()
                &&& forall|j: int|
                    0 <= j < old(self).state.matches@.len() && j != idx
                        ==> #[trigger] final(self).state.matches@[j] == old(self).state.matches@[j]
                &&& credited(
                    old(self).state.matches@[idx],
                    final(self).state.matches@[idx],
                    selected,
                    net,
                    caller,
                )
                &&& final(self).state.bets@ == old(self).state.bets@.push(
                    Bet { user: caller, match_id, selected, amount: net, paid: false },
                )
                &&& has_bet(final(self).state.bets@, caller, match_id)
                &&& final(self).state.owner == old(self).state.owner
                &&& final(self).state.kyc_contract == old(self).state.kyc_contract
                &&& final(self).state.final_prize_distributor
                    == old(self).state.final_prize_distributor
                &&& final(self).state.phases == old(self).state.phases
                &&& final(self).state.user_points == old(self).state.user_points
                &&& final(self).state.current_match == old(self).state.current_match
            },
    {
        if let Err(e) = self.check_bet(caller, now, match_id) {
            return Err(e);
        }
        if !kyc_approves(kyc_reply) {
            return Err(ServiceError::ExternalCall);
        }
        let idx = match self.match_index(match_id) {
            Some(i) => i,
            None => {
                return Err(ServiceError::NotFound);
            },
        };
        let fee = fee_of(value);
        let final_prize = prize_cut_of(value);
        let bet_amount = net_of(value);
        self.state.fee_accum = self.state.fee_accum.saturating_add(fee);
        self.state.final_prize_accum = self.state.final_prize_accum.saturating_add(final_prize);
        match selected {
            Outcome::Home => {
                self.state.matches[idx].pool_home = self.state.matches[idx].pool_home.saturating_add(
                    bet_amount,
                );
            },
            Outcome::Draw => {
                self.state.matches[idx].pool_draw = self.state.matches[idx].pool_draw.saturating_add(
                    bet_amount,
                );
            },
            Outcome::Away => {
                self.state.matches[idx].pool_away = self.state.matches[idx].pool_away.saturating_add(
                    bet_amount,
                );
            },
        }
        self.state.matches[idx].has_bets = true;
        if !contains_actor(&self.state.matches[idx].participants, caller) {
            self.state.matches[idx].participants.push(caller);
        }
        let bet = Bet { user: caller, match_id, selected, amount: bet_amount, paid: false };
        self.state.bets.push(bet);
        assert(self.state.bets@[self.state.bets@.len() - 1].user == caller);
        proof {
            let st = self.state;
            assert forall|i: int, o: Outcome| 0 <= i < st.matches@.len() implies #[trigger] pool_of(
                st.matches@[i],
                o,
            ) == capped(staked(st.bets@, (i + 1) as u64, o)) by {
                lemma_staked_push(old(self).state.bets@, bet, (i + 1) as u64, o);
                lemma_staked_nonneg(old(self).state.bets@, (i + 1) as u64, o);
                lemma_capped_add(staked(old(self).state.bets@, (i + 1) as u64, o), bet_amount);
                assert(pool_of(old(self).state.matches@[i], o) == capped(
                    staked(old(self).state.bets@, (i + 1) as u64, o),
                ));
            }
        }
        Ok(BolaoEvent::BetAccepted(caller, match_id, selected, bet_amount))
    }

    /// Proposes the outcome of an unresolved match; anyone may.
    pub fn propose_result(&mut self, caller: ActorId, match_id: u64, outcome: Outcome) -> (r:
        Result<BolaoEvent, ServiceError>)
        requires
            old(self).state.wf(),
        ensures
            final(self).state.wf(),
            !old(self).state.has_match(match_id) ==> r == Err::<BolaoEvent, ServiceError>(
                ServiceError::NotFound,
            ),
            old(self).state.has_match(match_id) && !(old(self).state.match_at(
                match_id,
            ).result is Unresolved) ==> r == Err::<BolaoEvent, ServiceError>(ServiceError::State),
            r is Err ==> final(self).state == old(self).state,
            r is Ok <==> old(self).state.has_match(match_id) && old(self).state.match_at(
                match_id,
            ).result is Unresolved,
            r is Ok ==> {
                let idx = match_id - 1;
                &&& r == Ok::<BolaoEvent, ServiceError>(
                    BolaoEvent::ResultProposed(match_id, outcome, caller),
                )
                &&& final(self).state.matches@.len() == old(self).state.matches@.len()
                &&& forall|j: int|
                    0 <= j < old(self).state.matches@.len() && j != idx
                        ==> #[trigger] final(self).state.matches@[j] == old(self).state.matches@[j]
                &&& with_result(
                    old(self).state.matches@[idx],
                    final(self).state.matches@[idx],
                    ResultStatus::Proposed { outcome, oracle: caller },
                )
                &&& final(self).state.same_ledger(old(self).state)
                &&& final(self).state.phases == old(self).state.phases
                &&& final(self).state.bets == old(self).state.bets
                &&& final(self).state.user_points == old(self).state.user_points
                &&& final(self).state.current_match == old(self).state.current_match
            },
    {
        let idx = match self.match_index(match_id) {
            Some(i) => i,
            None => {
                return Err(ServiceError::NotFound);
            },
        };
        match self.state.matches[idx].result {
            ResultStatus::Unresolved => {},
            _ => {
                return Err(ServiceError::State);
            },
        }
        self.state.matches[idx].result = ResultStatus::Proposed { outcome, oracle: caller };
        proof {
            let st = self.state;
            assert forall|i: int, o: Outcome| 0 <= i < st.matches@.len() implies #[trigger] pool_of(
                st.matches@[i],
                o,
            ) == capped(staked(st.bets@, (i + 1) as u64, o)) by {
                if i < old(self).state.matches@.len() {
                    assert(pool_of(old(self).state.matches@[i], o) == capped(
                        staked(old(self).state.bets@, (i + 1) as u64, o),
                    ));
                }
            }
        }
        Ok(BolaoEvent::ResultProposed(match_id, outcome, caller))
    }

    fn user_index(&self, user: ActorId) -> (r: Option<usize>)
        ensures
            match r {
                Some(i) => i < self.state.user_points@.len() && self.state.user_points@[i as int].0
                    == user,
                None => !has_user(self.state.user_points@, user),
            },
    {
        let mut i: usize = 0;
        while i < self.state.user_points.len()
            invariant
                0 <= i <= self.state.user_points@.len(),
                forall|k: int| 0 <= k < i ==> #[trigger] self.state.user_points@[k].0 != user,
            decreases self.state.user_points@.len() - i,
        {
            if self.state.user_points[i].0 == user {
                return Some(i);
            }
            i = i + 1;
        }
        None
    }

    /// Makes the proposed outcome of match `match_id` final and gives each
    /// participant whose bet picked it `POINTS_PER_HIT` points. Owner only.
    pub fn finalize_result(&mut self, caller: ActorId, match_id: u64) -> (r: Result<
        BolaoEvent,
        ServiceError,
    >)
        requires
            old(self).state.wf(),
        ensures
            final(self).state.wf(),
            !old(self).state.has_match(match_id) ==> r == Err::<BolaoEvent, ServiceError>(
                ServiceError::NotFound,
            ),
            old(self).state.has_match(match_id) && !(old(self).state.match_at(
                match_id,
            ).result is Proposed) ==> r == Err::<BolaoEvent, ServiceError>(ServiceError::State),
            old(self).state.has_match(match_id) && old(self).state.match_at(match_id).result is Proposed
                && caller != old(self).state.owner ==> r == Err::<BolaoEvent, ServiceError>(
                ServiceError::Authorization,
            ),
            r is Err ==> final(self).state == old(self).state,
            r is Ok <==> old(self).state.has_match(match_id) && old(self).state.match_at(
                match_id,
            ).result is Proposed && caller == old(self).state.owner,
            r is Ok ==> {
                let idx = match_id - 1;
                let outcome = old(self).state.match_at(match_id).result->Proposed_outcome;
                &&& r == Ok::<BolaoEvent, ServiceError>(
                    BolaoEvent::ResultFinalized(match_id, outcome),
                )
                &&& final(self).state.matches@.len() == old(self).state.matches@.len()
                &&& forall|j: int|
                    0 <= j < old(self).state.matches@.len() && j != idx
                        ==> #[trigger] final(self).state.matches@[j] == old(self).state.matches@[j]
                &&& with_result(
                    old(self).state.matches@[idx],
                    final(self).state.matches@[idx],
                    ResultStatus::Finalized { outcome },
                )
                &&& forall|u: ActorId|
                    #[trigger] points_of(final(self).state.user_points@, u) == if earns_points(
                        old(self).state,
                        u,
                        match_id,
                        outcome,
                    ) {
                        points_of(old(self).state.user_points@, u).saturating_add(POINTS_PER_HIT)
                    } else {
                        points_of(old(self).state.user_points@, u)
                    }
                &&& final(self).state.same_ledger(old(self).state)
                &&& final(self).state.phases == old(self).state.phases
                &&& final(self).state.bets == old(self).state.bets
                &&& final(self).state.current_match == old(self).state.current_match
            },
    {
        let idx = match self.match_index(match_id) {
            Some(i) => i,
            None => {
                return Err(ServiceError::NotFound);
            },
        };
        let outcome = match self.state.matches[idx].result {
            ResultStatus::Proposed { outcome, oracle: _ } => outcome,
            _ => {
                return Err(ServiceError::State);
            },
        };
        if caller != self.state.owner {
            return Err(ServiceError::Authorization);
        }
        self.state.matches[idx].result = ResultStatus::Finalized { outcome };
        let participants = copy_actors(&self.state.matches[idx].participants);
        let ghost matches1 = self.state.matches;
        let ghost up0 = self.state.user_points@;
        assert(unique_actors(participants@));
        let mut i: usize = 0;
        while i < participants.len()
            invariant
                0 <= i <= participants@.len(),
                participants@ == old(self).state.matches@[idx as int].participants@,
                unique_actors(participants@),
                up0 == old(self).state.user_points@,
                self.state.matches == matches1,
                self.state.bets == old(self).state.bets,
                unique_bets(self.state.bets@),
                self.state.phases == old(self).state.phases,
                self.state.same_ledger(old(self).state),
                self.state.current_match == old(self).state.current_match,
                unique_users(self.state.user_points@),
                forall|u: ActorId|
                    #[trigger] points_of(self.state.user_points@, u) == if participants@.subrange(
                        0,
                        i as int,
                    ).contains(u) && has_winning_bet(self.state.bets@, u, match_id, outcome) {
                        points_of(up0, u).saturating_add(POINTS_PER_HIT)
                    } else {
                        points_of(up0, u)
                    },
            decreases participants@.len() - i,
        {
            let p = participants[i];
            let ghost up_i = self.state.user_points@;
            proof {
                assert(participants@.subrange(0, i + 1) == participants@.subrange(0, i as int).push(p));
                assert(!participants@.subrange(0, i as int).contains(p)) by {
                    if participants@.subrange(0, i as int).contains(p) {
                        let k = choose|k: int| 0 <= k < i && #[trigger] participants@.subrange(0, i as int)[k] == p;
                        assert(participants@[k] != participants@[i as int]);
                    }
                }
            }
            let wins = match self.find_bet(p, match_id) {
                Some(k) => {
                    proof {
                        assert(has_winning_bet(self.state.bets@, p, match_id, outcome) == (self.state.bets@[k as int].selected == outcome)) by {
                            if has_winning_bet(self.state.bets@, p, match_id, outcome) {
                                let j = choose|j: int| 0 <= j < self.state.bets@.len() && #[trigger] self.state.bets@[j].user == p && self.state.bets@[j].match_id == match_id && self.state.bets@[j].selected == outcome;
                                if j < k {
                                    assert(!(self.state.bets@[j].user == self.state.bets@[k as int].user && self.state.bets@[j].match_id == self.state.bets@[k as int].match_id));
                                } else if k < j {
                                    assert(!(self.state.bets@[k as int].user == self.state.bets@[j].user && self.state.bets@[k as int].match_id == self.state.bets@[j].match_id));
                                }
                            }
                        }
                    }
                    self.state.bets[k].selected == outcome
                },
                None => {
                    proof {
                        if has_winning_bet(self.state.bets@, p, match_id, outcome) {
                            let j = choose|j: int| 0 <= j < self.state.bets@.len() && #[trigger] self.state.bets@[j].user == p && self.state.bets@[j].match_id == match_id && self.state.bets@[j].selected == outcome;
                            assert(has_bet(self.state.bets@, p, match_id));
                        }
                    }
                    false
                },
            };
            assert(wins == has_winning_bet(self.state.bets@, p, match_id, outcome));
            if wins {
                self.add_points(p, POINTS_PER_HIT);
            }
            proof {
                assert forall|u: ActorId|
                    #[trigger] points_of(self.state.user_points@, u) == if participants@.subrange(
                        0,
                        i + 1,
                    ).contains(u) && has_winning_bet(self.state.bets@, u, match_id, outcome) {
                        points_of(up0, u).saturating_add(POINTS_PER_HIT)
                    } else {
                        points_of(up0, u)
                    } by {
                    assert(points_of(up_i, u) == if participants@.subrange(0, i as int).contains(u)
                        && has_winning_bet(self.state.bets@, u, match_id, outcome) {
                        points_of(up0, u).saturating_add(POINTS_PER_HIT)
                    } else {
                        points_of(up0, u)
                    });
                    if u == p {
                        assert(participants@.subrange(0, i + 1)[i as int] == p);
                    } else {
                        assert(participants@.subrange(0, i + 1).contains(u) == participants@.subrange(0, i as int).contains(u)) by {
                            if participants@.subrange(0, i + 1).contains(u) {
                                let k = choose|k: int| 0 <= k < i + 1 && #[trigger] participants@.subrange(0, i + 1)[k] == u;
                                assert(participants@.subrange(0, i as int)[k] == u);
                            }
                        }
                    }
                }
            }
            i = i + 1;
        }
        assert(participants@.subrange(0, participants@.len() as int) == participants@);
        proof {
            let st = self.state;
            assert forall|i: int, o: Outcome| 0 <= i < st.matches@.len() implies #[trigger] pool_of(
                st.matches@[i],
                o,
            ) == capped(staked(st.bets@, (i + 1) as u64, o)) by {
                if i < old(self).state.matches@.len() {
                    assert(pool_of(old(self).state.matches@[i], o) == capped(
                        staked(old(self).state.bets@, (i + 1) as u64, o),
                    ));
                }
            }
        }
        Ok(BolaoEvent::ResultFinalized(match_id, outcome))
    }

    /// Pays the winners of a finalized match, one chunk per call: see
    /// `payout_from`. With an empty winning pool nothing is paid. The events
    /// name each transfer to make.
    pub fn payout_winners(&mut self, match_id: u64) -> (r: Result<Vec<BolaoEvent>, ServiceError>)
        requires
            old(self).state.wf(),
        ensures
            final(self).state.wf(),
            !old(self).state.has_match(match_id) ==> r == Err::<Vec<BolaoEvent>, ServiceError>(
                ServiceError::NotFound,
            ),
            old(self).state.has_match(match_id) && !(old(self).state.match_at(
                match_id,
            ).result is Finalized) ==> r == Err::<Vec<BolaoEvent>, ServiceError>(
                ServiceError::State,
            ),
            r is Err ==> final(self).state == old(self).state,
            r is Ok <==> old(self).state.has_match(match_id) && old(self).state.match_at(
                match_id,
            ).result is Finalized,
            r is Ok ==> {
                let m = old(self).state.match_at(match_id);
                let o = m.result->Finalized_outcome;
                &&& pool_of(m, o) == 0 ==> r->Ok_0@.len() == 0 && final(self).state
                    == old(self).state
                &&& pool_of(m, o) != 0 ==> {
                    &&& final(self).state.bets@ == payout_call(old(self).state.bets@, m, o).0
                    &&& r->Ok_0@ == payout_call(old(self).state.bets@, m, o).1
                }
                &&& final(self).state.same_ledger(old(self).state)
                &&& final(self).state.matches == old(self).state.matches
                &&& final(self).state.phases == old(self).state.phases
                &&& final(self).state.user_points == old(self).state.user_points
                &&& final(self).state.current_match == old(self).state.current_match
            },
    {
        let idx = match self.match_index(match_id) {
            Some(i) => i,
            None => {
                return Err(ServiceError::NotFound);
            },
        };
        let outcome = match self.state.matches[idx].result {
            ResultStatus::Finalized { outcome } => outcome,
            _ => {
                return Err(ServiceError::State);
            },
        };
        let total_pool = self.state.matches[idx].pool_home.saturating_add(
            self.state.matches[idx].pool_draw,
        ).saturating_add(self.state.matches[idx].pool_away);
        let winning_pool = match outcome {
            Outcome::Home => self.state.matches[idx].pool_home,
            Outcome::Draw => self.state.matches[idx].pool_draw,
            Outcome::Away => self.state.matches[idx].pool_away,
        };
        if winning_pool == 0 {
            return Ok(Vec::new());
        }
        let ghost bets0 = self.state.bets@;
        let mut paid: u128 = 0;
        let mut events: Vec<BolaoEvent> = Vec::new();
        let mut stop = false;
        let mut i: usize = 0;
        while i < self.state.bets.len() && !stop
            invariant
                0 <= i <= self.state.bets@.len(),
                self.state.bets@.len() == bets0.len(),
                winning_pool > 0,
                payout_from(self.state.bets@, i as int, match_id, outcome, total_pool, winning_pool, paid, events@)
                    == payout_from(bets0, 0, match_id, outcome, total_pool, winning_pool, 0, Seq::empty()),
                stop ==> payout_from(self.state.bets@, i as int, match_id, outcome, total_pool, winning_pool, paid, events@)
                    == (self.state.bets@, events@),
                forall|k: int| 0 <= k < bets0.len() ==> same_wager(bets0[k], #[trigger] self.state.bets@[k]),
                self.state.matches == old(self).state.matches,
                self.state.phases == old(self).state.phases,
                self.state.user_points == old(self).state.user_points,
                self.state.same_ledger(old(self).state),
                self.state.current_match == old(self).state.current_match,
            decreases self.state.bets@.len() - i + (if stop { 0int } else { 1int }),
        {
            let b = self.state.bets[i];
            if b.match_id == match_id && b.selected == outcome && !b.paid {
                let share = share_of(b.amount, total_pool, winning_pool);
                if paid.saturating_add(share) > MAX_PAYOUT_CHUNK {
                    stop = true;
                } else {
                    self.state.bets[i].paid = true;
                    events.push(BolaoEvent::WinnerPaid(match_id, b.user, share));
                    paid = paid.saturating_add(share);
                    i = i + 1;
                }
            } else {
                i = i + 1;
            }
        }
        proof {
            let st = self.state;
            assert forall|i: int, o: Outcome| 0 <= i < st.matches@.len() implies #[trigger] pool_of(
                st.matches@[i],
                o,
            ) == capped(staked(st.bets@, (i + 1) as u64, o)) by {
                lemma_staked_same_wagers(bets0, st.bets@, (i + 1) as u64, o);
                assert(pool_of(old(self).state.matches@[i], o) == capped(
                    staked(old(self).state.bets@, (i + 1) as u64, o),
                ));
            }
        }
        proof {
            let bs = self.state.bets@;
            assert(unique_bets(bs)) by {
                assert forall|a: int, c: int| 0 <= a < c < bs.len() implies !(#[trigger] bs[a].user
                    == #[trigger] bs[c].user && bs[a].match_id == bs[c].match_id) by {
                    assert(same_wager(bets0[a], bs[a]));
                    assert(same_wager(bets0[c], bs[c]));
                }
            }
        }
        Ok(events)
    }

    /// Sends the whole final-prize accumulator to the prize distributor and
    /// empties it; refused when it is empty.
    pub fn send_final_prize(&mut self) -> (r: Result<BolaoEvent, ServiceError>)
        requires
            old(self).state.wf(),
        ensures
            final(self).state.wf(),
            old(self).state.final_prize_accum == 0 ==> r == Err::<BolaoEvent, ServiceError>(
                ServiceError::ZeroAmount,
            ) && final(self).state == old(self).state,
            old(self).state.final_prize_accum != 0 ==> r == Ok::<BolaoEvent, ServiceError>(
                BolaoEvent::FinalPrizeSent(
                    old(self).state.final_prize_accum,
                    old(self).state.final_prize_distributor,
                ),
            ) && final(self).state == (BolaoState { final_prize_accum: 0, ..old(self).state }),
    {
        let to = self.state.final_prize_distributor;
        let amt = self.state.final_prize_accum;
        if amt == 0 {
            return Err(ServiceError::ZeroAmount);
        }
        self.state.final_prize_accum = 0;
        Ok(BolaoEvent::FinalPrizeSent(amt, to))
    }

    /// Sends the whole fee accumulator to the owner and empties it; refused
    /// when it is empty.
    pub fn withdraw_fees(&mut self) -> (r: Result<BolaoEvent, ServiceError>)
        requires
            old(self).state.wf(),
        ensures
            final(self).state.wf(),
            old(self).state.fee_accum == 0 ==> r == Err::<BolaoEvent, ServiceError>(
                ServiceError::ZeroAmount,
            ) && final(self).state == old(self).state,
            old(self).state.fee_accum != 0 ==> r == Ok::<BolaoEvent, ServiceError>(
                BolaoEvent::FeeWithdrawn(old(self).state.fee_accum, old(self).state.owner),
            ) && final(self).state == (BolaoState { fee_accum: 0, ..old(self).state }),
    {
        let to = self.state.owner;
        let amt = self.state.fee_accum;
        if amt == 0 {
            return Err(ServiceError::ZeroAmount);
        }
        self.state.fee_accum = 0;
        Ok(BolaoEvent::FeeWithdrawn(amt, to))
    }

    /// Match `match_id`, if it exists.
    pub fn query_match(&self, match_id: u64) -> (r: Option<MatchInfo>)
        ensures
            r is Some <==> self.state.has_match(match_id),
            r is Some ==> same_match(self.state.match_at(match_id), r->Some_0),
    {
        match self.match_index(match_id) {
            Some(i) => Some(self.state.matches[i].copied()),
            None => None,
        }
    }

    /// `user`'s point total; 0 when none is recorded.
    pub fn query_user_points(&self, user: ActorId) -> (r: u32)
        requires
            self.state.wf(),
        ensures
            r == points_of(self.state.user_points@, user),
    {
        match self.user_index(user) {
            Some(i) => {
                proof {
                    lemma_points_at(self.state.user_points@, i as int);
                }
                self.state.user_points[i].1
            },
            None => 0,
        }
    }

    /// The matches of phase `phase`, in order of id.
    pub fn query_matches_by_phase(&self, phase: String) -> (r: Vec<MatchInfo>)
        ensures
            r@.len() == in_phase(self.state.matches@, phase@).len(),
            forall|k: int|
                0 <= k < r@.len() ==> same_match(in_phase(self.state.matches@, phase@)[k], #[trigger] r@[k]),
    {
        let mut r: Vec<MatchInfo> = Vec::new();
        let mut i: usize = 0;
        while i < self.state.matches.len()
            invariant
                0 <= i <= self.state.matches@.len(),
                r@.len() == in_phase(self.state.matches@.subrange(0, i as int), phase@).len(),
                forall|k: int|
                    0 <= k < r@.len() ==> same_match(
                        in_phase(self.state.matches@.subrange(0, i as int), phase@)[k],
                        #[trigger] r@[k],
                    ),
            decreases self.state.matches@.len() - i,
        {
            let ghost before = self.state.matches@.subrange(0, i as int);
            let ghost after = self.state.matches@.subrange(0, i + 1);
            proof {
                reveal(Seq::filter);
                assert(after.drop_last() == before);
            }
            if self.state.matches[i].phase == phase {
                r.push(self.state.matches[i].copied());
            }
            i = i + 1;
        }
        assert(self.state.matches@.subrange(0, self.state.matches@.len() as int) == self.state.matches@);
        r
    }

    /// A snapshot of the whole store.
    pub fn query_state(&self) -> (r: IoBolaoState)
        ensures
            r.owner == self.state.owner,
            r.kyc_contract == self.state.kyc_contract,
            r.final_prize_distributor == self.state.final_prize_distributor,
            r.fee_accum == self.state.fee_accum,
            r.final_prize_accum == self.state.final_prize_accum,
            r.matches@.len() == self.state.matches@.len(),
            forall|k: int|
                0 <= k < r.matches@.len() ==> same_match(self.state.matches@[k], #[trigger] r.matches@[k]),
            r.phases@ == self.state.phases@,
            r.user_points@ == self.state.user_points@,
    {
        let mut matches: Vec<MatchInfo> = Vec::new();
        let mut i: usize = 0;
        while i < self.state.matches.len()
            invariant
                0 <= i <= self.state.matches@.len(),
                matches@.len() == i,
                forall|k: int| 0 <= k < i ==> same_match(self.state.matches@[k], #[trigger] matches@[k]),
            decreases self.state.matches@.len() - i,
        {
            matches.push(self.state.matches[i].copied());
            i = i + 1;
        }
        let mut phases: Vec<MatchPhase> = Vec::new();
        let mut j: usize = 0;
        while j < self.state.phases.len()
            invariant
                0 <= j <= self.state.phases@.len(),
                phases@ == self.state.phases@.subrange(0, j as int),
            decreases self.state.phases@.len() - j,
        {
            phases.push(self.state.phases[j].copied());
            j = j + 1;
        }
        let mut user_points: Vec<(ActorId, u32)> = Vec::new();
        let mut k: usize = 0;
        while k < self.state.user_points.len()
            invariant
                0 <= k <= self.state.user_points@.len(),
                user_points@ == self.state.user_points@.subrange(0, k as int),
            decreases self.state.user_points@.len() - k,
        {
            let entry = self.state.user_points[k];
            user_points.push((entry.0, entry.1));
            k = k + 1;
        }
        assert(self.state.phases@.subrange(0, self.state.phases@.len() as int) == self.state.phases@);
        assert(self.state.user_points@.subrange(0, self.state.user_points@.len() as int)
            == self.state.user_points@);
        IoBolaoState {
            owner: self.state.owner,
            kyc_contract: self.state.kyc_contract,
            final_prize_distributor: self.state.final_prize_distributor,
            fee_accum: self.state.fee_accum,
            final_prize_accum: self.state.final_prize_accum,
            matches,
            phases,
            user_points,
        }
    }

    /// Adds `pts` to `user`'s point total, saturating.
    fn add_points(&mut self, user: ActorId, pts: u32)
        requires
            unique_users(old(self).state.user_points@),
        ensures
            unique_users(final(self).state.user_points@),
            forall|u: ActorId|
                #[trigger] points_of(final(self).state.user_points@, u) == if u == user {
                    points_of(old(self).state.user_points@, u).saturating_add(pts)
                } else {
                    points_of(old(self).state.user_points@, u)
                },
            final(self).state.owner == old(self).state.owner,
            final(self).state.kyc_contract == old(self).state.kyc_contract,
            final(self).state.final_prize_distributor == old(self).state.final_prize_distributor,
            final(self).state.fee_accum == old(self).state.fee_accum,
            final(self).state.final_prize_accum == old(self).state.final_prize_accum,
            final(self).state.matches == old(self).state.matches,
            final(self).state.phases == old(self).state.phases,
            final(self).state.bets == old(self).state.bets,
            final(self).state.current_match == old(self).state.current_match,
    {
        let ghost up0 = self.state.user_points@;
        if let Some(i) = self.user_index(user) {
            let v = self.state.user_points[i].1.saturating_add(pts);
            self.state.user_points.set(i, (user, v));
            proof {
                let up1 = self.state.user_points@;
                lemma_points_at(up0, i as int);
                assert(unique_users(up1)) by {
                    assert forall|a: int, b: int| 0 <= a < b < up1.len() implies #[trigger] up1[a].0
                        != #[trigger] up1[b].0 by {
                        assert(up0[a].0 != up0[b].0);
                    }
                }
                lemma_points_at(up1, i as int);
                assert forall|u: ActorId| #[trigger] points_of(up1, u) == if u == user {
                    points_of(up0, u).saturating_add(pts)
                } else {
                    points_of(up0, u)
                } by {
                    if u != user {
                        if has_user(up0, u) {
                            let k = choose|k: int| 0 <= k < up0.len() && #[trigger] up0[k].0 == u;
                            lemma_points_at(up0, k);
                            lemma_points_at(up1, k);
                        } else {
                            assert(!has_user(up1, u)) by {
                                if has_user(up1, u) {
                                    let k = choose|k: int| 0 <= k < up1.len() && #[trigger] up1[k].0 == u;
                                    assert(up0[k].0 == u);
                                }
                            }
                        }
                    }
                }
            }
            return;
        }
        let v = 0u32.saturating_add(pts);
        self.state.user_points.push((user, v));
        proof {
            let up1 = self.state.user_points@;
            assert(!has_user(up0, user));
            assert(unique_users(up1)) by {
                assert forall|a: int, b: int| 0 <= a < b < up1.len() implies #[trigger] up1[a].0
                    != #[trigger] up1[b].0 by {
                    if b < up0.len() {
                        assert(up0[a].0 != up0[b].0);
                    } else {
                        assert(up0[a].0 != user);
                    }
                }
            }
            lemma_points_at(up1, up0.len() as int);
            assert forall|u: ActorId| #[trigger] points_of(up1, u) == if u == user {
                points_of(up0, u).saturating_add(pts)
            } else {
                points_of(up0, u)
            } by {
                if u != user {
                    if has_user(up0, u) {
                        let k = choose|k: int| 0 <= k < up0.len() && #[trigger] up0[k].0 == u;
                        lemma_points_at(up0, k);
                        lemma_points_at(up1, k);
                    } else {
                        assert(!has_user(up1, u)) by {
                            if has_user(up1, u) {
                                let k = choose|k: int| 0 <= k < up1.len() && #[trigger] up1[k].0 == u;
                                assert(up0[k].0 == u);
                            }
                        }
                    }
                }
            }
        }
    }

    /// Registers a phase under a new name. Owner only.
    pub fn register_phase(
        &mut self,
        caller: ActorId,
        phase_name: String,
        start_time: u64,
        end_time: u64,
    ) -> (r: Result<BolaoEvent, ServiceError>)
        requires
            old(self).state.wf(),
        ensures
            final(self).state.wf(),
            caller != old(self).state.owner ==> r == Err::<BolaoEvent, ServiceError>(
                ServiceError::Authorization,
            ),
            caller == old(self).state.owner && has_phase(old(self).state.phases@, phase_name@)
                ==> r == Err::<BolaoEvent, ServiceError>(ServiceError::Duplicate),
            r is Err ==> final(self).state == old(self).state,
            r is Ok <==> caller == old(self).state.owner && !has_phase(
                old(self).state.phases@,
                phase_name@,
            ),
            r is Ok ==> {
                &&& r == Ok::<BolaoEvent, ServiceError>(BolaoEvent::PhaseRegistered(phase_name))
                &&& final(self).state.phases@ == old(self).state.phases@.push(
                    MatchPhase { name: phase_name, start_time, end_time },
                )
                &&& final(self).state.same_ledger(old(self).state)
                &&& final(self).state.matches == old(self).state.matches
                &&& final(self).state.bets == old(self).state.bets
                &&& final(self).state.user_points == old(self).state.user_points
                &&& final(self).state.current_match == old(self).state.current_match
            },
    {
        if caller != self.state.owner {
            return Err(ServiceError::Authorization);
        }
        if self.phase_exists(&phase_name) {
            return Err(ServiceError::Duplicate);
        }
        let phase = MatchPhase { name: phase_name.clone(), start_time, end_time };
        self.state.phases.push(phase);
        Ok(BolaoEvent::PhaseRegistered(phase_name))
    }

    /// Registers a match in an existing phase under the next id. Owner only.
    pub fn register_match(
        &mut self,
        caller: ActorId,
        phase: String,
        home: String,
        away: String,
        kick_off: u64,
    ) -> (r: Result<BolaoEvent, ServiceError>)
        requires
            old(self).state.wf(),
            old(self).state.current_match < u64::MAX,
        ensures
            final(self).state.wf(),
            caller != old(self).state.owner ==> r == Err::<BolaoEvent, ServiceError>(
                ServiceError::Authorization,
            ),
            caller == old(self).state.owner && !has_phase(old(self).state.phases@, phase@) ==> r
                == Err::<BolaoEvent, ServiceError>(ServiceError::NotFound),
            r is Err ==> final(self).state == old(self).state,
            r is Ok <==> caller == old(self).state.owner && has_phase(
                old(self).state.phases@,
                phase@,
            ),
            r is Ok ==> {
                let id = (old(self).state.current_match + 1) as u64;
                let m = final(self).state.matches@.last();
                &&& r == Ok::<BolaoEvent, ServiceError>(
                    BolaoEvent::MatchRegistered(id, phase, home, away, kick_off),
                )
                &&& final(self).state.current_match == id
                &&& final(self).state.matches@.len() == old(self).state.matches@.len() + 1
                &&& final(self).state.matches@.drop_last() == old(self).state.matches@
                &&& m.match_id == id
                &&& m.phase == phase
                &&& m.home == home
                &&& m.away == away
                &&& m.kick_off == kick_off
                &&& m.result == ResultStatus::Unresolved
                &&& m.pool_home == 0 && m.pool_draw == 0 && m.pool_away == 0
                &&& !m.has_bets
                &&& m.participants@.len() == 0
                &&& final(self).state.same_ledger(old(self).state)
                &&& final(self).state.phases == old(self).state.phases
                &&& final(self).state.bets == old(self).state.bets
                &&& final(self).state.user_points == old(self).state.user_points
            },
    {
        if caller != self.state.owner {
            return Err(ServiceError::Authorization);
        }
        if !self.phase_exists(&phase) {
            return Err(ServiceError::NotFound);
        }
        let id = self.state.current_match + 1;
        self.state.current_match = id;
        let info = MatchInfo {
            match_id: id,
            phase: phase.clone(),
            home: home.clone(),
            away: away.clone(),
            kick_off,
            result: ResultStatus::Unresolved,
            pool_home: 0,
            pool_draw: 0,
            pool_away: 0,
            has_bets: false,
            participants: Vec::new(),
        };
        self.state.matches.push(info);
        assert(self.state.matches@.drop_last() == old(self).state.matches@);
        proof {
            let st = self.state;
            assert forall|i: int, o: Outcome| 0 <= i < st.matches@.len() implies #[trigger] pool_of(
                st.matches@[i],
                o,
            ) == capped(staked(st.bets@, (i + 1) as u64, o)) by {
                if i < old(self).state.matches@.len() {
                    assert(pool_of(old(self).state.matches@[i], o) == capped(
                        staked(old(self).state.bets@, (i + 1) as u64, o),
                    ));
                } else {
                    assert forall|k: int| 0 <= k < st.bets@.len() implies #[trigger] st.bets@[k].match_id
                        != (i + 1) as u64 by {}
                    lemma_staked_none(st.bets@, (i + 1) as u64, o);
                }
            }
        }
        Ok(BolaoEvent::MatchRegistered(id, phase, home, away, kick_off))
    }
}

} // verus!
