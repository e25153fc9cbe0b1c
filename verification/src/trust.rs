//! Authenticode signature checks through WinVerifyTrust.
//!
//! The service checks its own binaries at start. The calls live outside
//! this crate; what their status codes mean, and what a signer record
//! says, is decided here.

use vstd::prelude::*;

use crate::bytes::{trimmed_text_of_units, wide_text};
use crate::text::{chars_of, lemma_trim_idempotent, string_from, trim_chars, trim_spec};
use crate::Error;

verus! {

/// TRUST_E_NOSIGNATURE (0x800B0100).
pub const TRUST_E_NOSIGNATURE: i32 = -2146762496i32;

/// TRUST_E_SUBJECT_FORM_UNKNOWN (0x800B0003).
pub const TRUST_E_SUBJECT_FORM_UNKNOWN: i32 = -2146762749i32;

/// TRUST_E_PROVIDER_UNKNOWN (0x800B0001).
pub const TRUST_E_PROVIDER_UNKNOWN: i32 = -2146762751i32;

/// The result of a signature check.
#[derive(Debug, Clone, Copy, PartialEq, Eq)]
pub enum SignatureStatus {
    /// A signature exists and its chain of trust is valid.
    Valid,
    /// The file has no signature (expected during development).
    Unsigned,
    /// A signature exists but did not verify — the file may be forged.
    Invalid { code: i32 },
}

/// What a `WinVerifyTrust` status means: 0 is valid; "no signature",
/// "unknown subject form" and "unknown provider" mean unsigned; anything
/// else is an invalid signature.
pub open spec fn status_spec(status: i32) -> SignatureStatus {
    if status == 0 {
        SignatureStatus::Valid
    } else if status == TRUST_E_NOSIGNATURE || status == TRUST_E_SUBJECT_FORM_UNKNOWN
        || status == TRUST_E_PROVIDER_UNKNOWN {
        SignatureStatus::Unsigned
    } else {
        SignatureStatus::Invalid { code: status }
    }
}

/// Classifies a `WinVerifyTrust` status. "Not signed" and "signature
/// does not match" are kept apart: during development Unsigned is only a
/// warning, Invalid is a problem.
pub fn signature_status(status: i32) -> (r: SignatureStatus)
    ensures
        r == status_spec(status),
{
    if status == 0 {
        SignatureStatus::Valid
    } else if status == TRUST_E_NOSIGNATURE || status == TRUST_E_SUBJECT_FORM_UNKNOWN
        || status == TRUST_E_PROVIDER_UNKNOWN {
        SignatureStatus::Unsigned
    } else {
        SignatureStatus::Invalid { code: status }
    }
}

/// The signer of a binary, for its identity.
#[derive(Debug, Clone, Default, PartialEq, Eq)]
pub struct SignerInfo {
    /// Subject CN of the signing certificate (e.g. "Google LLC"). `None`
    /// = no embedded signature (typically catalog-signed system files —
    /// those are recognised by their path under %SystemRoot%).
    pub subject: Option<String>,
    /// A signature exists and its chain of trust is valid.
    pub valid: bool,
}

/// The characters of an optional string.
pub open spec fn opt_chars(s: Option<String>) -> Option<Seq<char>> {
    match s {
        Some(v) => Some(v@),
        None => None,
    }
}

/// The subject as kept: trimmed, and none when nothing is left.
pub open spec fn subject_spec(subject: Option<Seq<char>>) -> Option<Seq<char>> {
    match subject {
        Some(s) => if trim_spec(s).len() == 0 {
            None
        } else {
            Some(trim_spec(s))
        },
        None => None,
    }
}

/// The signer record: the embedded subject, trimmed and dropped when
/// empty, and whether the check of the file came out valid. A subject
/// that is kept is never empty and has nothing left to trim.
pub fn signer_subject(verified: &Result<SignatureStatus, Error>, subject: Option<String>) -> (r: SignerInfo)
    ensures
        r.valid == (*verified == Ok::<SignatureStatus, Error>(SignatureStatus::Valid)),
        opt_chars(r.subject) == subject_spec(opt_chars(subject)),
        r.subject is Some ==> r.subject->0@.len() > 0 && r.subject->0@ == trim_spec(r.subject->0@),
{
    let valid = match verified {
        Ok(SignatureStatus::Valid) => true,
        _ => false,
    };
    let kept = match subject {
        Some(s) => {
            let t = trim_chars(&chars_of(s.as_str()));
            proof {
                lemma_trim_idempotent(s@);
            }
            if t.len() == 0 {
                None
            } else {
                Some(string_from(&t))
            }
        },
        None => None,
    };
    SignerInfo { subject: kept, valid }
}

/// The certificate's display name from its NUL-terminated UTF-16 buffer:
/// trimmed, `None` when empty.
pub open spec fn cert_name_spec(units: Seq<u16>) -> Option<Seq<char>> {
    let s = trim_spec(wide_text(units));
    if s.len() == 0 {
        None
    } else {
        Some(s)
    }
}

/// The certificate's display name (`CertGetNameStringW` output).
pub fn cert_name(units: &[u16]) -> (r: Option<String>)
    ensures
        match r {
            Some(s) => cert_name_spec(units@) == Some(s@),
            None => cert_name_spec(units@) is None,
        },
{
    let s = trimmed_text_of_units(units);
    if s.unicode_len() == 0 {
        None
    } else {
        Some(s)
    }
}

} // verus!
