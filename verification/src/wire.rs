//! Wire forms of instants, spans and failures in durable records.

use vstd::prelude::*;

use crate::bytes;
use crate::error;
use crate::error::{CatgaError, ErrorCode};
use crate::record::Record;
use crate::text;
use crate::text::{decimal_text, join};
use crate::time;
use crate::time::{Duration, Timestamp};

verus! {

/// A record that holds an impossible value.
#[derive(Debug)]
pub struct DeserializationError {
    message: String,
}

impl View for DeserializationError {
    type V = Seq<char>;

    closed spec fn view(&self) -> Seq<char> {
        self.message@
    }
}

impl DeserializationError {
    fn new(message: String) -> (result: Self)
        ensures
            result@ == message@,
    {
        DeserializationError { message }
    }

    /// Returns what is impossible about the record.
    pub fn message(&self) -> (result: &str)
        ensures
            result@ == self@,
    {
        self.message.as_str()
    }
}

/// An instant as its distance from the Unix epoch.
#[derive(Clone, Copy, Debug, PartialEq, Eq, Structural)]
pub struct TimeWire {
    pub before_epoch: bool,
    pub seconds: u64,
    pub nanoseconds: u32,
}

/// A span as seconds and a fraction.
#[derive(Clone, Copy, Debug, PartialEq, Eq, Structural)]
pub struct DurationWire {
    pub seconds: u64,
    pub nanoseconds: u32,
}

/// A failure with its numeric code.
#[derive(Debug)]
pub struct ErrorWire {
    pub code: u8,
    pub message: String,
    pub details: Option<String>,
    pub retryable: bool,
}

/// The wire form of the instant `nanos` nanoseconds from the Unix epoch.
pub open spec fn time_wire(nanos: int) -> TimeWire {
    let distance = if nanos < 0 {
        -nanos
    } else {
        nanos
    };
    TimeWire {
        before_epoch: nanos < 0,
        seconds: (distance / 1_000_000_000) as u64,
        nanoseconds: (distance % 1_000_000_000) as u32,
    }
}

/// The distance in nanoseconds that a wire form states.
pub open spec fn wire_nanos(seconds: u64, nanoseconds: u32) -> int {
    seconds * 1_000_000_000 + nanoseconds
}

/// The instant that a wire form states.
pub open spec fn wire_instant(wire: TimeWire) -> int {
    if wire.before_epoch {
        -wire_nanos(wire.seconds, wire.nanoseconds)
    } else {
        wire_nanos(wire.seconds, wire.nanoseconds)
    }
}

/// Converts an instant to its wire form.
pub fn encode_time(value: Timestamp) -> (result: TimeWire)
    ensures
        result == time_wire(value@),
        time::valid_timestamp(value@),
{
    match value.duration_since(Timestamp::unix_epoch()) {
        Ok(distance) => TimeWire {
            before_epoch: false,
            seconds: distance.as_secs(),
            nanoseconds: distance.subsec_nanos(),
        },
        Err(distance) => TimeWire {
            before_epoch: true,
            seconds: distance.as_secs(),
            nanoseconds: distance.subsec_nanos(),
        },
    }
}

/// Converts a wire form to its instant, unless that lies outside the supported range.
pub fn decode_time(value: TimeWire) -> (result: Result<Timestamp, DeserializationError>)
    ensures
        match result {
            Ok(instant) => instant@ == wire_instant(value) && time::valid_timestamp(instant@),
            Err(failure) => !time::valid_timestamp(wire_instant(value)) && failure@
                == "flow timestamp is out of range"@,
        },
{
    let decoded = match Duration::checked_new(value.seconds, value.nanoseconds) {
        Some(distance) => if value.before_epoch {
            Timestamp::unix_epoch().checked_sub(distance)
        } else {
            Timestamp::unix_epoch().checked_add(distance)
        },
        None => None,
    };
    match decoded {
        Some(instant) => Ok(instant),
        None => Err(DeserializationError::new("flow timestamp is out of range".to_owned())),
    }
}

/// An instant survives its wire form.
pub proof fn lemma_time_round_trip(nanos: int)
    requires
        time::valid_timestamp(nanos),
    ensures
        wire_instant(time_wire(nanos)) == nanos,
{
}

/// Converts a span to its wire form.
pub fn encode_duration(value: Duration) -> (result: DurationWire)
    ensures
        result.seconds == value@ / 1_000_000_000,
        result.nanoseconds == value@ % 1_000_000_000,
        wire_nanos(result.seconds, result.nanoseconds) == value@,
{
    DurationWire { seconds: value.as_secs(), nanoseconds: value.subsec_nanos() }
}

/// Converts a wire form to its span.
pub fn decode_duration(value: DurationWire) -> (result: Duration)
    requires
        wire_nanos(value.seconds, value.nanoseconds) <= time::max_duration_nanos(),
    ensures
        result@ == wire_nanos(value.seconds, value.nanoseconds),
{
    match Duration::checked_new(value.seconds, value.nanoseconds) {
        Some(span) => span,
        None => Duration::zero(),
    }
}

/// The number of an error code.
pub open spec fn error_code_number(value: ErrorCode) -> u8 {
    match value {
        ErrorCode::Validation => 0,
        ErrorCode::NotFound => 1,
        ErrorCode::Conflict => 2,
        ErrorCode::Unauthorized => 3,
        ErrorCode::Forbidden => 4,
        ErrorCode::Cancelled => 5,
        ErrorCode::Timeout => 6,
        ErrorCode::Unsupported => 7,
        ErrorCode::Transient => 8,
        ErrorCode::Unavailable => 9,
        ErrorCode::Internal => 10,
    }
}

/// The error code with a number, where there is one.
pub open spec fn numbered_error_code(value: u8) -> Option<ErrorCode> {
    if value == 0 {
        Some(ErrorCode::Validation)
    } else if value == 1 {
        Some(ErrorCode::NotFound)
    } else if value == 2 {
        Some(ErrorCode::Conflict)
    } else if value == 3 {
        Some(ErrorCode::Unauthorized)
    } else if value == 4 {
        Some(ErrorCode::Forbidden)
    } else if value == 5 {
        Some(ErrorCode::Cancelled)
    } else if value == 6 {
        Some(ErrorCode::Timeout)
    } else if value == 7 {
        Some(ErrorCode::Unsupported)
    } else if value == 8 {
        Some(ErrorCode::Transient)
    } else if value == 9 {
        Some(ErrorCode::Unavailable)
    } else if value == 10 {
        Some(ErrorCode::Internal)
    } else {
        None
    }
}

/// A numbered error code has exactly the number that it is written with.
pub proof fn lemma_error_code_numbers(code: ErrorCode, number: u8)
    ensures
        numbered_error_code(number) == Some(code) <==> error_code_number(code) == number,
{
}

/// Converts an error code to its number.
pub fn encode_error_code(value: ErrorCode) -> (result: u8)
    ensures
        result == error_code_number(value),
{
    match value {
        ErrorCode::Validation => 0,
        ErrorCode::NotFound => 1,
        ErrorCode::Conflict => 2,
        ErrorCode::Unauthorized => 3,
        ErrorCode::Forbidden => 4,
        ErrorCode::Cancelled => 5,
        ErrorCode::Timeout => 6,
        ErrorCode::Unsupported => 7,
        ErrorCode::Transient => 8,
        ErrorCode::Unavailable => 9,
        ErrorCode::Internal => 10,
    }
}

/// Converts a number to its error code.
pub fn decode_error_code(value: u8) -> (result: Result<ErrorCode, DeserializationError>)
    ensures
        match result {
            Ok(code) => numbered_error_code(value) == Some(code),
            Err(failure) => numbered_error_code(value) is None && failure@
                == "invalid flow error code: "@ + text::decimal(value as nat),
        },
{
    match value {
        0 => Ok(ErrorCode::Validation),
        1 => Ok(ErrorCode::NotFound),
        2 => Ok(ErrorCode::Conflict),
        3 => Ok(ErrorCode::Unauthorized),
        4 => Ok(ErrorCode::Forbidden),
        5 => Ok(ErrorCode::Cancelled),
        6 => Ok(ErrorCode::Timeout),
        7 => Ok(ErrorCode::Unsupported),
        8 => Ok(ErrorCode::Transient),
        9 => Ok(ErrorCode::Unavailable),
        10 => Ok(ErrorCode::Internal),
        other => Err(
            DeserializationError::new(
                join("invalid flow error code: ", decimal_text(other as u64).as_str()),
            ),
        ),
    }
}

/// Converts a failure to its wire form.
pub fn encode_error(value: &CatgaError) -> (result: ErrorWire)
    ensures
        result.code == error_code_number(value@.code),
        result.message@ == value@.message,
        error::text_option(result.details) == value@.details,
        result.retryable == value@.code.spec_is_retryable(),
{
    let details: Option<String> = match value.details() {
        Some(details) => Some(details.to_owned()),
        None => None,
    };
    ErrorWire {
        code: encode_error_code(value.code()),
        message: value.message().to_owned(),
        details,
        retryable: value.is_retryable(),
    }
}

/// Converts a wire form to its failure, unless its code is unknown or its retry mark is wrong.
pub fn decode_error(value: ErrorWire) -> (result: Result<CatgaError, DeserializationError>)
    ensures
        match (result, numbered_error_code(value.code)) {
            (Ok(failure), Some(code)) => value.retryable == code.spec_is_retryable() && failure@
                == (error::ErrorView {
                code,
                message: value.message@,
                details: error::text_option(value.details),
            }),
            (Err(failure), Some(code)) => value.retryable != code.spec_is_retryable() && failure@
                == "flow error retryability does not match its error code"@,
            (Err(failure), None) => failure@ == "invalid flow error code: "@ + text::decimal(
                value.code as nat,
            ),
            _ => false,
        },
{
    let code: ErrorCode = match decode_error_code(value.code) {
        Ok(code) => code,
        Err(failure) => {
            return Err(failure);
        },
    };
    if value.retryable != code.is_retryable() {
        return Err(
            DeserializationError::new(
                "flow error retryability does not match its error code".to_owned(),
            ),
        );
    }
    let failure: CatgaError = CatgaError::new(code, value.message.as_str());
    match value.details {
        Some(details) => Ok(failure.with_details(details)),
        None => Ok(failure),
    }
}

impl DeepView for Timestamp {
    type V = int;

    open spec fn deep_view(&self) -> int {
        self@
    }
}

/// An instant is its epoch flag, seconds and nanoseconds.
impl Record for Timestamp {
    open spec fn fits(value: int) -> bool {
        time::valid_timestamp(value)
    }

    open spec fn valid(value: int) -> bool {
        true
    }

    open spec fn layout(value: int) -> Seq<u8> {
        let wire = time_wire(value);
        <(bool, (u64, u32)) as Record>::layout(
            (wire.before_epoch, (wire.seconds, wire.nanoseconds)),
        )
    }

    open spec fn parse(bytes: Seq<u8>, at: int) -> Option<(int, int)> {
        match <(bool, (u64, u32)) as Record>::parse(bytes, at) {
            Some(((before_epoch, (seconds, nanoseconds)), next)) => {
                let instant = wire_instant(TimeWire { before_epoch, seconds, nanoseconds });
                if time::valid_timestamp(instant) {
                    Some((instant, next))
                } else {
                    None
                }
            },
            None => None,
        }
    }

    proof fn lemma_round_trip(value: int, bytes: Seq<u8>, at: int) {
        let wire = time_wire(value);
        lemma_time_round_trip(value);
        <(bool, (u64, u32)) as Record>::lemma_round_trip(
            (wire.before_epoch, (wire.seconds, wire.nanoseconds)),
            bytes,
            at,
        );
    }

    proof fn lemma_progress(bytes: Seq<u8>, at: int) {
        <(bool, (u64, u32)) as Record>::lemma_progress(bytes, at);
    }

    fn write(&self, out: &mut Vec<u8>) -> (written: bool) {
        let wire = encode_time(*self);
        (wire.before_epoch, (wire.seconds, wire.nanoseconds)).write(out)
    }

    fn read(bytes: &[u8], at: usize) -> (result: Option<(Self, usize)>) {
        match <(bool, (u64, u32)) as Record>::read(bytes, at) {
            Some(((before_epoch, (seconds, nanoseconds)), next)) => {
                match decode_time(TimeWire { before_epoch, seconds, nanoseconds }) {
                    Ok(instant) => Some((instant, next)),
                    Err(_) => None,
                }
            },
            None => None,
        }
    }
}

impl DeepView for Duration {
    type V = int;

    open spec fn deep_view(&self) -> int {
        self@
    }
}

/// A span is its seconds and nanoseconds.
impl Record for Duration {
    open spec fn fits(value: int) -> bool {
        0 <= value <= time::max_duration_nanos()
    }

    open spec fn valid(value: int) -> bool {
        true
    }

    open spec fn layout(value: int) -> Seq<u8> {
        <(u64, u32) as Record>::layout(
            ((value / 1_000_000_000) as u64, (value % 1_000_000_000) as u32),
        )
    }

    open spec fn parse(bytes: Seq<u8>, at: int) -> Option<(int, int)> {
        match <(u64, u32) as Record>::parse(bytes, at) {
            Some(((seconds, nanoseconds), next)) => if wire_nanos(seconds, nanoseconds)
                <= time::max_duration_nanos() {
                Some((wire_nanos(seconds, nanoseconds), next))
            } else {
                None
            },
            None => None,
        }
    }

    proof fn lemma_round_trip(value: int, bytes: Seq<u8>, at: int) {
        <(u64, u32) as Record>::lemma_round_trip(
            ((value / 1_000_000_000) as u64, (value % 1_000_000_000) as u32),
            bytes,
            at,
        );
    }

    proof fn lemma_progress(bytes: Seq<u8>, at: int) {
        <(u64, u32) as Record>::lemma_progress(bytes, at);
    }

    fn write(&self, out: &mut Vec<u8>) -> (written: bool) {
        let wire = encode_duration(*self);
        (wire.seconds, wire.nanoseconds).write(out)
    }

    fn read(bytes: &[u8], at: usize) -> (result: Option<(Self, usize)>) {
        match <(u64, u32) as Record>::read(bytes, at) {
            Some(((seconds, nanoseconds), next)) => match Duration::checked_new(
                seconds,
                nanoseconds,
            ) {
                Some(span) => Some((span, next)),
                None => None,
            },
            None => None,
        }
    }
}

impl DeepView for CatgaError {
    type V = error::ErrorView;

    open spec fn deep_view(&self) -> error::ErrorView {
        self@
    }
}

/// A failure is its code number, message, details and retry mark.
impl Record for CatgaError {
    open spec fn fits(value: error::ErrorView) -> bool {
        <(String, Option<String>) as Record>::fits((value.message, value.details))
    }

    open spec fn valid(value: error::ErrorView) -> bool {
        true
    }

    open spec fn layout(value: error::ErrorView) -> Seq<u8> {
        <(u8, (String, (Option<String>, bool))) as Record>::layout(
            (
                error_code_number(value.code),
                (value.message, (value.details, value.code.spec_is_retryable())),
            ),
        )
    }

    open spec fn parse(bytes: Seq<u8>, at: int) -> Option<(error::ErrorView, int)> {
        match <(u8, (String, (Option<String>, bool))) as Record>::parse(bytes, at) {
            Some(((number, (message, (details, retryable))), next)) => match numbered_error_code(
                number,
            ) {
                Some(code) => if retryable == code.spec_is_retryable() {
                    Some((error::ErrorView { code, message, details }, next))
                } else {
                    None
                },
                None => None,
            },
            None => None,
        }
    }

    proof fn lemma_round_trip(value: error::ErrorView, bytes: Seq<u8>, at: int) {
        lemma_error_code_numbers(value.code, error_code_number(value.code));
        <(u8, (String, (Option<String>, bool))) as Record>::lemma_round_trip(
            (
                error_code_number(value.code),
                (value.message, (value.details, value.code.spec_is_retryable())),
            ),
            bytes,
            at,
        );
    }

    proof fn lemma_progress(bytes: Seq<u8>, at: int) {
        <(u8, (String, (Option<String>, bool))) as Record>::lemma_progress(bytes, at);
    }

    fn write(&self, out: &mut Vec<u8>) -> (written: bool) {
        let wire: ErrorWire = encode_error(self);
        (wire.code, (wire.message, (wire.details, wire.retryable))).write(out)
    }

    fn read(bytes: &[u8], at: usize) -> (result: Option<(Self, usize)>) {
        match <(u8, (String, (Option<String>, bool))) as Record>::read(bytes, at) {
            Some(((code, (message, (details, retryable))), next)) => {
                match decode_error(ErrorWire { code, message, details, retryable }) {
                    Ok(failure) => Some((failure, next)),
                    Err(_) => None,
                }
            },
            None => None,
        }
    }
}

} // verus!
