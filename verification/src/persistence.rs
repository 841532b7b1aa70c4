//! Compact durable encoding for suspended flow continuations.
//!
//! A frame is a format version and a record in the layout of [`crate::record`]. That layout is this
//! library's own; a frame that the MemoryPack codec wrote is not read.

use vstd::prelude::*;

use crate::continuation;
use crate::continuation::FlowContinuation;
use crate::error;
use crate::error::{CatgaError, CatgaResult, ErrorCode};
use crate::record;
use crate::record::{read_exact, Record};
use crate::text;
use crate::text::{decimal_text, join};

verus! {

/// The version that the frames of this library's own layout start with.
pub const FORMAT_VERSION: u8 = 7;

/// The frame of a continuation: the format version, then its record.
pub open spec fn continuation_frame(value: continuation::ContinuationView) -> Seq<u8> {
    seq![FORMAT_VERSION] + <FlowContinuation as Record>::layout(value)
}

/// The continuation in a frame, or why it cannot be read.
pub open spec fn continuation_outcome(bytes: Seq<u8>) -> Result<
    continuation::ContinuationView,
    Seq<char>,
> {
    if bytes.len() == 0 {
        Err("flow continuation value is missing its format version"@)
    } else if bytes[0] != FORMAT_VERSION {
        Err(
            "unsupported flow continuation format version "@ + text::decimal(
                bytes[0] as nat,
            ),
        )
    } else {
        match record::parse_exact::<FlowContinuation>(bytes.skip(1)) {
            Some(value) => Ok(value),
            None => Err("cannot decode flow continuation"@),
        }
    }
}

/// Encodes a suspended flow continuation for a durable provider.
///
/// The emitted frame starts with the current format version. Providers must store the complete
/// frame unchanged.
pub fn encode_continuation(value: &FlowContinuation) -> (result: CatgaResult<Vec<u8>>)
    ensures
        match result {
            Ok(frame) => <FlowContinuation as Record>::fits(value@) && frame@
                == continuation_frame(value@),
            Err(failure) => !<FlowContinuation as Record>::fits(value@) && failure@
                == error::plain_error(
                ErrorCode::Internal,
                "cannot encode flow continuation"@,
            ),
        },
{
    let mut encoded: Vec<u8> = Vec::new();
    encoded.push(FORMAT_VERSION);
    if !value.write(&mut encoded) {
        return Err(CatgaError::new(ErrorCode::Internal, "cannot encode flow continuation"));
    }
    assert(encoded@ =~= continuation_frame(value@));
    Ok(encoded)
}

/// Decodes a continuation previously produced by [`encode_continuation`].
///
/// Other format versions are rejected: callers must migrate durable records out of band. The
/// record must fill the rest of the frame.
pub fn decode_continuation(bytes: &[u8]) -> (result: CatgaResult<FlowContinuation>)
    ensures
        match (result, continuation_outcome(bytes@)) {
            (Ok(value), Ok(model)) => value@ == model,
            (Err(failure), Err(message)) => failure@ == error::plain_error(
                ErrorCode::Internal,
                message,
            ),
            _ => false,
        },
{
    if bytes.len() == 0 {
        return Err(
            CatgaError::new(
                ErrorCode::Internal,
                "flow continuation value is missing its format version",
            ),
        );
    }
    let version: u8 = bytes[0];
    if version != FORMAT_VERSION {
        let message: String = join(
            "unsupported flow continuation format version ",
            decimal_text(version as u64).as_str(),
        );
        return Err(CatgaError::new(ErrorCode::Internal, message.as_str()));
    }
    let payload: &[u8] = vstd::slice::slice_subrange(bytes, 1, bytes.len());
    assert(payload@ =~= bytes@.skip(1));
    match read_exact::<FlowContinuation>(payload) {
        Some(value) => Ok(value),
        None => Err(CatgaError::new(ErrorCode::Internal, "cannot decode flow continuation")),
    }
}

/// Decoding an encoded continuation gives it back whole, with its waits and rollbacks.
pub proof fn lemma_continuation_round_trip(value: continuation::ContinuationView)
    requires
        <FlowContinuation as Record>::fits(value),
        value.valid(),
    ensures
        continuation_outcome(continuation_frame(value)) == Ok::<
            continuation::ContinuationView,
            Seq<char>,
        >(value),
{
    record::lemma_tagged_record::<FlowContinuation>(FORMAT_VERSION, value, Seq::empty());
}

/// A frame with bytes after its record is rejected.
pub proof fn lemma_continuation_rejects_trailing_bytes(
    value: continuation::ContinuationView,
    tail: Seq<u8>,
)
    requires
        <FlowContinuation as Record>::fits(value),
        value.valid(),
        tail.len() > 0,
    ensures
        continuation_outcome(continuation_frame(value) + tail) is Err,
{
    record::lemma_tagged_record::<FlowContinuation>(FORMAT_VERSION, value, tail);
}

/// A stored flow starts with the format version 7; bytes that start with another are refused.
pub proof fn lemma_continuations_start_with_their_version(
    value: continuation::ContinuationView,
    other: Seq<u8>,
)
    ensures
        continuation_frame(value).len() > 0,
        continuation_frame(value)[0] == 7,
        other.len() == 0 || other[0] != 7 ==> continuation_outcome(other) is Err,
{
}

} // verus!
