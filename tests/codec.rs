use smartcup::actor::ActorId;
use smartcup::codec::{kyc_approves, kyc_request};
use smartcup::ledger::{fee_of, net_of, prize_cut_of, share_of};

#[test]
fn kyc_request_is_scale_string_then_user_bytes() {
    let user = ActorId::from_bytes([7u8; 32]);
    let r = kyc_request(&user);
    let mut expected = vec![40u8];
    expected.extend_from_slice(b"is_over_18");
    expected.extend_from_slice(&[7u8; 32]);
    assert_eq!(r, expected);
}

#[test]
fn kyc_reply_must_decode_as_true() {
    assert!(kyc_approves(&[1]));
    assert!(kyc_approves(&[1, 0, 5]));
    assert!(!kyc_approves(&[0]));
    assert!(!kyc_approves(&[2]));
    assert!(!kyc_approves(&[]));
}

#[test]
fn basis_point_cuts() {
    assert_eq!(fee_of(1_000_000), 50_000);
    assert_eq!(prize_cut_of(1_000_000), 200_000);
    assert_eq!(net_of(1_000_000), 750_000);
    assert_eq!(net_of(19), 19 - 0 - 3);
    assert_eq!(fee_of(u128::MAX), u128::MAX / 10_000);
    assert_eq!(share_of(1_000, 6_000, 3_000), 2_000);
    assert_eq!(share_of(1, 10, 3), 3);
}

#[test]
fn actor_equality_is_bytewise() {
    let mut b = [3u8; 32];
    let a = ActorId::from_bytes(b);
    b[31] = 4;
    assert!(a == ActorId::from_bytes([3u8; 32]));
    assert!(a != ActorId::from_bytes(b));
    assert!(ActorId::zero() == ActorId::from_bytes([0u8; 32]));
}
