//! Classification of failed remote calls.
//!
//! The engine distinguishes benign absence (the chat is gone or was
//! never reachable), transient rate limiting (worth a governed retry),
//! and everything else. The class is read off the error message, which
//! is matched case-insensitively against the known signatures.

use vstd::prelude::*;
use vstd::string::StrSliceExecFns;
use vstd::string::StringSliceAdditionalSpecFns;
use crate::text::{fold_key_of, has_subseq, lower_bytes, contains_bytes};

verus! {

/// How a failed remote call is treated.
#[derive(Debug, Clone, Copy, PartialEq, Eq, Structural)]
pub enum ErrorClass {
    /// The chat is unknown or invalid: treated as an empty result, not
    /// as a failure; the chat will be rediscovered on a later refresh.
    UnknownChat,
    /// A flood / rate-limit rejection: transient, retried with backoff.
    RateLimited,
    /// Anything else: propagated or settled for a partial result.
    Other,
}

/// The class of an error whose message has the given UTF-8 bytes.
/// Unknown-chat signatures take precedence over the rate-limit one.
pub open spec fn spec_classify(bytes: Seq<u8>) -> ErrorClass {
    if has_subseq(lower_bytes(bytes), "peer_id_invalid".spec_bytes()) || has_subseq(
        lower_bytes(bytes),
        "chat_id_invalid".spec_bytes(),
    ) || has_subseq(lower_bytes(bytes), "channel_invalid".spec_bytes()) {
        ErrorClass::UnknownChat
    } else if has_subseq(lower_bytes(bytes), "flood".spec_bytes()) {
        ErrorClass::RateLimited
    } else {
        ErrorClass::Other
    }
}

/// Classify a remote error by its message.
pub fn classify_remote_error(message: &str) -> (c: ErrorClass)
    ensures
        c == spec_classify(message.spec_bytes()),
{
    let lowered = fold_key_of(message);
    proof {
        assert(lowered@ == lower_bytes(message.spec_bytes()));
    }
    let peer_sig = "peer_id_invalid".as_bytes_vec();
    let chat_sig = "chat_id_invalid".as_bytes_vec();
    let channel_sig = "channel_invalid".as_bytes_vec();
    if contains_bytes(&lowered, &peer_sig) || contains_bytes(&lowered, &chat_sig)
        || contains_bytes(&lowered, &channel_sig) {
        ErrorClass::UnknownChat
    } else {
        let flood_sig = "flood".as_bytes_vec();
        if contains_bytes(&lowered, &flood_sig) {
            ErrorClass::RateLimited
        } else {
            ErrorClass::Other
        }
    }
}

} // verus!
