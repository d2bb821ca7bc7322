use relay::fetch::{Entry, Outcome, INITIAL_BACKOFF, MAX_BACKOFF};
use relay::gateway::{
    begin_key_check, check_digest, decide, key_check_step, DigestStatus, KeyAction, KeyCheck,
    KeyEvent, RejectReason, SignatureStatus, Verdict,
};

const HELLO_SHA256: [u8; 32] = [
    0x2c, 0xf2, 0x4d, 0xba, 0x5f, 0xb0, 0xa3, 0x0e, 0x26, 0xe8, 0x3b, 0x2a, 0xc5, 0xb9, 0xe2, 0x9e,
    0x1b, 0x16, 0x1e, 0x5c, 0x1f, 0xa7, 0x42, 0x5e, 0x73, 0x04, 0x33, 0x62, 0x93, 0x8b, 0x98, 0x24,
];

#[test]
fn digest_is_checked_against_body() {
    assert_eq!(check_digest(b"hello", Some(&HELLO_SHA256)), DigestStatus::Matches);
    assert_eq!(check_digest(b"hellp", Some(&HELLO_SHA256)), DigestStatus::Mismatch);
    assert_eq!(check_digest(b"hello", Some(b"hello")), DigestStatus::Mismatch);
    assert_eq!(check_digest(b"hello", None), DigestStatus::Absent);
}

#[test]
fn optional_mode_relaxes_absence_only() {
    assert_eq!(decide(false, DigestStatus::Matches, SignatureStatus::Absent), Verdict::Accept);
    assert_eq!(decide(false, DigestStatus::Absent, SignatureStatus::Absent), Verdict::Accept);
    assert_eq!(
        decide(false, DigestStatus::Matches, SignatureStatus::Invalid),
        Verdict::Reject(RejectReason::BadSignature)
    );
    assert_eq!(
        decide(true, DigestStatus::Matches, SignatureStatus::Absent),
        Verdict::Reject(RejectReason::MissingSignature)
    );
    assert_eq!(
        decide(true, DigestStatus::Absent, SignatureStatus::Valid),
        Verdict::Reject(RejectReason::MissingDigest)
    );
    assert_eq!(decide(true, DigestStatus::Matches, SignatureStatus::Valid), Verdict::Accept);
    assert_eq!(
        decide(true, DigestStatus::Matches, SignatureStatus::KeyUnavailable),
        Verdict::Reject(RejectReason::KeyUnavailable)
    );
}

#[test]
fn mismatched_digest_is_rejected_in_both_modes() {
    for mode in [false, true] {
        assert_eq!(
            decide(mode, DigestStatus::Mismatch, SignatureStatus::Valid),
            Verdict::Reject(RejectReason::DigestMismatch)
        );
    }
}

fn run(events: &[KeyEvent]) -> Vec<KeyAction> {
    let (mut state, first) = begin_key_check(true);
    let mut actions = vec![first];
    for ev in events {
        let (s, a) = key_check_step(state, *ev);
        state = s;
        actions.push(a);
    }
    actions
}

#[test]
fn rotated_key_is_refreshed_once() {
    assert_eq!(
        run(&[KeyEvent::KeyFetched, KeyEvent::Crypto(false), KeyEvent::KeyFetched, KeyEvent::Crypto(true)]),
        vec![
            KeyAction::Lookup,
            KeyAction::Verify,
            KeyAction::ForceRefresh,
            KeyAction::Verify,
            KeyAction::Done(SignatureStatus::Valid)
        ]
    );
    assert_eq!(
        run(&[KeyEvent::KeyFetched, KeyEvent::Crypto(false), KeyEvent::KeyFetched, KeyEvent::Crypto(false)]),
        vec![
            KeyAction::Lookup,
            KeyAction::Verify,
            KeyAction::ForceRefresh,
            KeyAction::Verify,
            KeyAction::Done(SignatureStatus::Invalid)
        ]
    );
}

#[test]
fn signature_check_ends_early() {
    assert_eq!(
        begin_key_check(false),
        (KeyCheck::Finished(SignatureStatus::Absent), KeyAction::Done(SignatureStatus::Absent))
    );
    assert_eq!(
        run(&[KeyEvent::KeyFetched, KeyEvent::Crypto(true)]),
        vec![KeyAction::Lookup, KeyAction::Verify, KeyAction::Done(SignatureStatus::Valid)]
    );
    assert_eq!(
        run(&[KeyEvent::KeyFailed]),
        vec![KeyAction::Lookup, KeyAction::Done(SignatureStatus::KeyUnavailable)]
    );
}

#[test]
fn concurrent_requests_share_one_fetch() {
    let mut e: Entry<u32> = Entry::Missing;
    let outcomes: Vec<Outcome> = (0..5).map(|_| e.request(100)).collect();
    assert_eq!(outcomes, vec![Outcome::Fetch, Outcome::Wait, Outcome::Wait, Outcome::Wait, Outcome::Wait]);
    e.complete(Some(7), 101);
    assert_eq!(e, Entry::Resolved(7));
    assert_eq!(e.request(102), Outcome::Hit);
    assert_eq!(e.value(), Some(&7));
}

#[test]
fn failures_back_off() {
    let mut e: Entry<u32> = Entry::Missing;
    assert_eq!(e.request(1000), Outcome::Fetch);
    e.complete(None, 1000);
    assert_eq!(e, Entry::Failed { retry_at: 1000 + INITIAL_BACKOFF, backoff: INITIAL_BACKOFF });
    assert_eq!(e.value(), None);
    assert_eq!(e.request(1000 + INITIAL_BACKOFF - 1), Outcome::CachedFailure);
    assert_eq!(e.request(1000 + INITIAL_BACKOFF), Outcome::Fetch);
    assert_eq!(e.request(1000 + INITIAL_BACKOFF), Outcome::Wait);
    e.complete(None, 2000);
    assert_eq!(e, Entry::Failed { retry_at: 2000 + 2 * INITIAL_BACKOFF, backoff: 2 * INITIAL_BACKOFF });
}

#[test]
fn backoff_is_capped() {
    let mut e: Entry<u32> = Entry::Pending { backoff: MAX_BACKOFF };
    e.complete(None, 5);
    assert_eq!(e, Entry::Failed { retry_at: 5 + MAX_BACKOFF, backoff: MAX_BACKOFF });
    let mut e: Entry<u32> = Entry::Pending { backoff: 10 };
    e.complete(None, u64::MAX - 3);
    assert_eq!(e, Entry::Failed { retry_at: u64::MAX, backoff: 20 });
}
