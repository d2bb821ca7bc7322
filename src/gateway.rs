use vstd::prelude::*;

use sha2::{Digest, Sha256};

verus! {

/// The SHA-256 digest of a byte string.
pub uninterp spec fn sha256_of(body: Seq<u8>) -> Seq<u8>;

/// Relies on sha2's `Sha256::digest`: the 32-byte digest of the input, which
/// depends on the bytes alone.
#[verifier::external_body]
fn sha256(body: &[u8]) -> (r: Vec<u8>)
    ensures
        r@ == sha256_of(body@),
        r@.len() == 32,
{
    Sha256::digest(body).to_vec()
}

/// What the digest header of a request says of its body.
#[derive(Debug, PartialEq, Eq, Structural, Clone, Copy)]
pub enum DigestStatus {
    /// The request declares no digest.
    Absent,
    /// The declared digest is that of the body.
    Matches,
    /// The declared digest is not that of the body.
    Mismatch,
}

/// Where a signature check ended.
#[derive(Debug, PartialEq, Eq, Structural, Clone, Copy)]
pub enum SignatureStatus {
    /// The request carries no signature.
    Absent,
    /// The signature verifies against the actor's key.
    Valid,
    /// The signature does not verify, even against a refreshed key.
    Invalid,
    /// The actor's key could not be had.
    KeyUnavailable,
}

/// Why a request was turned away.
#[derive(Debug, PartialEq, Eq, Structural, Clone, Copy)]
pub enum RejectReason {
    MissingDigest,
    DigestMismatch,
    MissingSignature,
    BadSignature,
    KeyUnavailable,
}

/// The gateway's decision on a request.
#[derive(Debug, PartialEq, Eq, Structural, Clone, Copy)]
pub enum Verdict {
    Accept,
    Reject(RejectReason),
}

/// The digest status of a body against a declared digest.
pub open spec fn digest_status_of(body: Seq<u8>, declared: Option<Seq<u8>>) -> DigestStatus {
    match declared {
        None => DigestStatus::Absent,
        Some(d) => if d == sha256_of(body) {
            DigestStatus::Matches
        } else {
            DigestStatus::Mismatch
        },
    }
}

fn bytes_equal(a: &[u8], b: &[u8]) -> (r: bool)
    ensures
        r == (a@ == b@),
{
    if a.len() != b.len() {
        return false;
    }
    let mut i: usize = 0;
    while i < a.len()
        invariant
            a.len() == b.len(),
            0 <= i <= a.len(),
            forall|j: int| 0 <= j < i ==> a@[j] == b@[j],
        decreases a.len() - i,
    {
        if a[i] != b[i] {
            return false;
        }
        i = i + 1;
    }
    assert(a@ =~= b@);
    true
}

/// Checks the declared digest (the raw bytes of the header's SHA-256 value)
/// against the body.
pub fn check_digest(body: &[u8], declared: Option<&[u8]>) -> (r: DigestStatus)
    ensures
        r == digest_status_of(
            body@,
            match declared {
                Some(d) => Some(d@),
                None => None,
            },
        ),
{
    match declared {
        None => DigestStatus::Absent,
        Some(d) => {
            let h = sha256(body);
            if bytes_equal(d, h.as_slice()) {
                DigestStatus::Matches
            } else {
                DigestStatus::Mismatch
            }
        },
    }
}

/// Decides on a request from its digest and signature checks. With
/// `validate_signatures` off, an absent digest or signature passes; a wrong
/// one never does.
pub fn decide(validate_signatures: bool, digest: DigestStatus, signature: SignatureStatus) -> (r:
    Verdict)
    ensures
        r == verdict_of(validate_signatures, digest, signature),
        digest == DigestStatus::Mismatch ==> r == Verdict::Reject(RejectReason::DigestMismatch),
        digest == DigestStatus::Absent && validate_signatures ==> r == Verdict::Reject(
            RejectReason::MissingDigest,
        ),
        (digest == DigestStatus::Matches || (digest == DigestStatus::Absent
            && !validate_signatures)) ==> r == match signature {
            SignatureStatus::Absent => if validate_signatures {
                Verdict::Reject(RejectReason::MissingSignature)
            } else {
                Verdict::Accept
            },
            SignatureStatus::Valid => Verdict::Accept,
            SignatureStatus::Invalid => Verdict::Reject(RejectReason::BadSignature),
            SignatureStatus::KeyUnavailable => Verdict::Reject(RejectReason::KeyUnavailable),
        },
{
    match digest {
        DigestStatus::Mismatch => {
            return Verdict::Reject(RejectReason::DigestMismatch);
        },
        DigestStatus::Absent => {
            if validate_signatures {
                return Verdict::Reject(RejectReason::MissingDigest);
            }
        },
        DigestStatus::Matches => {},
    }
    match signature {
        SignatureStatus::Absent => if validate_signatures {
            Verdict::Reject(RejectReason::MissingSignature)
        } else {
            Verdict::Accept
        },
        SignatureStatus::Valid => Verdict::Accept,
        SignatureStatus::Invalid => Verdict::Reject(RejectReason::BadSignature),
        SignatureStatus::KeyUnavailable => Verdict::Reject(RejectReason::KeyUnavailable),
    }
}

/// Where the signature check of one request stands.
#[derive(Debug, PartialEq, Eq, Structural, Clone, Copy)]
pub enum KeyCheck {
    /// Waiting for the actor's key; `refreshed` once the one forced refresh was asked for.
    LookingUp { refreshed: bool },
    /// Waiting for the cryptographic check against the key at hand.
    Verifying { refreshed: bool },
    /// The check has ended.
    Finished(SignatureStatus),
}

/// What happened since the last step.
#[derive(Debug, PartialEq, Eq, Structural, Clone, Copy)]
pub enum KeyEvent {
    /// The actor's key is at hand.
    KeyFetched,
    /// The actor's key could not be had.
    KeyFailed,
    /// The cryptographic check ended; `true` if the signature verified.
    Crypto(bool),
}

/// What the caller must do next.
#[derive(Debug, PartialEq, Eq, Structural, Clone, Copy)]
pub enum KeyAction {
    /// Look the key up, through the cache.
    Lookup,
    /// Fetch the key anew, bypassing the cache.
    ForceRefresh,
    /// Verify the signature against the key at hand.
    Verify,
    /// Stop with this status.
    Done(SignatureStatus),
}

/// Whether the event is one the state waits for.
pub open spec fn expects(state: KeyCheck, ev: KeyEvent) -> bool {
    match state {
        KeyCheck::LookingUp { .. } => ev == KeyEvent::KeyFetched || ev == KeyEvent::KeyFailed,
        KeyCheck::Verifying { .. } => ev is Crypto,
        KeyCheck::Finished(_) => false,
    }
}

/// The next state and action of a signature check.
pub open spec fn key_step(state: KeyCheck, ev: KeyEvent) -> (KeyCheck, KeyAction) {
    match (state, ev) {
        (KeyCheck::LookingUp { refreshed }, KeyEvent::KeyFetched) => (
            KeyCheck::Verifying { refreshed },
            KeyAction::Verify,
        ),
        (KeyCheck::Verifying { .. }, KeyEvent::Crypto(true)) => (
            KeyCheck::Finished(SignatureStatus::Valid),
            KeyAction::Done(SignatureStatus::Valid),
        ),
        (KeyCheck::Verifying { refreshed: false }, KeyEvent::Crypto(false)) => (
            KeyCheck::LookingUp { refreshed: true },
            KeyAction::ForceRefresh,
        ),
        (KeyCheck::Verifying { refreshed: true }, KeyEvent::Crypto(false)) => (
            KeyCheck::Finished(SignatureStatus::Invalid),
            KeyAction::Done(SignatureStatus::Invalid),
        ),
        _ => (
            KeyCheck::Finished(SignatureStatus::KeyUnavailable),
            KeyAction::Done(SignatureStatus::KeyUnavailable),
        ),
    }
}

/// Starts the signature check of a request.
pub fn begin_key_check(has_signature: bool) -> (r: (KeyCheck, KeyAction))
    ensures
        has_signature ==> r == (KeyCheck::LookingUp { refreshed: false }, KeyAction::Lookup),
        !has_signature ==> r == (
            KeyCheck::Finished(SignatureStatus::Absent),
            KeyAction::Done(SignatureStatus::Absent),
        ),
{
    if has_signature {
        (KeyCheck::LookingUp { refreshed: false }, KeyAction::Lookup)
    } else {
        (KeyCheck::Finished(SignatureStatus::Absent), KeyAction::Done(SignatureStatus::Absent))
    }
}

/// Advances the signature check: a failed cryptographic check against a
/// cached key asks for one forced refresh; a second failure ends it.
pub fn key_check_step(state: KeyCheck, ev: KeyEvent) -> (r: (KeyCheck, KeyAction))
    requires
        expects(state, ev),
    ensures
        r == key_step(state, ev),
{
    match (state, ev) {
        (KeyCheck::LookingUp { refreshed }, KeyEvent::KeyFetched) => (
            KeyCheck::Verifying { refreshed },
            KeyAction::Verify,
        ),
        (KeyCheck::Verifying { .. }, KeyEvent::Crypto(true)) => (
            KeyCheck::Finished(SignatureStatus::Valid),
            KeyAction::Done(SignatureStatus::Valid),
        ),
        (KeyCheck::Verifying { refreshed: false }, KeyEvent::Crypto(false)) => (
            KeyCheck::LookingUp { refreshed: true },
            KeyAction::ForceRefresh,
        ),
        (KeyCheck::Verifying { refreshed: true }, KeyEvent::Crypto(false)) => (
            KeyCheck::Finished(SignatureStatus::Invalid),
            KeyAction::Done(SignatureStatus::Invalid),
        ),
        _ => (
            KeyCheck::Finished(SignatureStatus::KeyUnavailable),
            KeyAction::Done(SignatureStatus::KeyUnavailable),
        ),
    }
}

/// For a body whose digest does not contradict it: without signature
/// enforcement a request with no signature is accepted, while one whose
/// signature does not verify is rejected; with enforcement a request with no
/// signature is rejected.
pub proof fn lemma_signature_modes(digest: DigestStatus)
    requires
        digest != DigestStatus::Mismatch,
    ensures
        verdict_of(false, digest, SignatureStatus::Absent) == Verdict::Accept,
        verdict_of(false, digest, SignatureStatus::Invalid) is Reject,
        verdict_of(true, digest, SignatureStatus::Absent) is Reject,
{
}

/// The decision on a request from its digest and signature checks.
pub open spec fn verdict_of(
    validate_signatures: bool,
    digest: DigestStatus,
    signature: SignatureStatus,
) -> Verdict {
    match digest {
        DigestStatus::Mismatch => Verdict::Reject(RejectReason::DigestMismatch),
        DigestStatus::Absent if validate_signatures => Verdict::Reject(
            RejectReason::MissingDigest,
        ),
        _ => match signature {
            SignatureStatus::Absent => if validate_signatures {
                Verdict::Reject(RejectReason::MissingSignature)
            } else {
                Verdict::Accept
            },
            SignatureStatus::Valid => Verdict::Accept,
            SignatureStatus::Invalid => Verdict::Reject(RejectReason::BadSignature),
            SignatureStatus::KeyUnavailable => Verdict::Reject(RejectReason::KeyUnavailable),
        },
    }
}

/// A body whose declared digest does not match is rejected, whatever the
/// signature and whatever the mode.
pub proof fn lemma_digest_independent(validate_signatures: bool, signature: SignatureStatus)
    ensures
        verdict_of(validate_signatures, DigestStatus::Mismatch, signature) == Verdict::Reject(
            RejectReason::DigestMismatch,
        ),
{
}

/// A signature that fails against the cached key asks for exactly one forced
/// refresh; the check then ends with the outcome against the refreshed key,
/// and a second failure asks for no further refresh.
pub proof fn lemma_key_rotation(second: bool)
    ensures
        ({
            let (s1, a1) = key_step(KeyCheck::LookingUp { refreshed: false }, KeyEvent::KeyFetched);
            let (s2, a2) = key_step(s1, KeyEvent::Crypto(false));
            let (s3, a3) = key_step(s2, KeyEvent::KeyFetched);
            let (s4, a4) = key_step(s3, KeyEvent::Crypto(second));
            &&& a1 == KeyAction::Verify
            &&& a2 == KeyAction::ForceRefresh
            &&& a3 == KeyAction::Verify
            &&& a4 == KeyAction::Done(
                if second {
                    SignatureStatus::Valid
                } else {
                    SignatureStatus::Invalid
                },
            )
            &&& s4 is Finished
        }),
        forall|ev: KeyEvent|
            key_step(KeyCheck::Verifying { refreshed: true }, ev).1 != KeyAction::ForceRefresh
                && key_step(KeyCheck::LookingUp { refreshed: true }, ev).1
                != KeyAction::ForceRefresh,
{
}

} // verus!
