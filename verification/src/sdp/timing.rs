//! SDP timing information: when a session starts and stops, or that it is
//! permanent.
use crate::sdp::errors::SdpError;
use crate::sdp::model::{outcome_is, timing_check, timing_from, SdpErrorModel};
use crate::sdp::text::{
    joined_with, lemma_decimal_word, lemma_parse_decimal, lemma_words_joined, parse_unsigned,
    parse_unsigned_spec, split_words, words,
};
use crate::text::{chars_of, decimal, decimal_chars, push_chars, push_str, string_from_str};
use vstd::prelude::*;
use vstd::string::*;

verus! {

/// Represents timing information (t=) in an SDP message as defined in RFC 4566.
///
/// The "t=" field specifies the start and stop times for the session.
/// If both values are zero, the session is considered permanent.
#[derive(Debug, Clone)]
pub struct Timing {
    pub start_time: u64,
    pub stop_time: u64,
}

/// The text of a timing line: `t=<start-time> <stop-time>` and a line feed.
pub open spec fn timing_line(t: Timing) -> Seq<char> {
    "t="@ + decimal(t.start_time as nat) + " "@ + decimal(t.stop_time as nat) + "\n"@
}

impl Timing {
    /// Validates the timing field according to RFC 4566.
    ///
    /// The stop time must be **greater than or equal** to the start time,
    /// unless both values are `0`, which represents an unbounded (permanent) session.
    ///
    /// # Returns
    /// * `Ok(())` – If the timing values are valid.
    /// * `Err(SdpError::InvalidTiming)` – If the stop time is less than the start time.
    pub fn validate(&self) -> (r: Result<(), SdpError>)
        ensures
            outcome_is(r, timing_check(*self), |u: ()| u),
    {
        // Stop time must be greater than or equal to start time unless both are 0
        let permanent = self.start_time == 0 && self.stop_time == 0;
        if !permanent && self.stop_time < self.start_time {
            return Err(SdpError::InvalidTiming);
        }
        Ok(())
    }

    /// Parses a `t=` line from an SDP message into a [`Timing`] structure.
    ///
    /// The value must contain **exactly two space-separated numbers**:
    /// - The start time
    /// - The stop time
    ///
    /// # Arguments
    /// * `value` – The value string from the SDP line (without the `t=` prefix).
    ///
    /// # Returns
    /// * `Ok(Timing)` – If both numbers are valid and the format is correct.
    /// * `Err(SdpError::InvalidTimingFormat)` – If the line does not contain two valid integers.
    pub fn parse(value: &str) -> (r: Result<Self, SdpError>)
        ensures
            outcome_is(r, timing_from(value@), |t: Timing| t),
    {
        let chars = chars_of(value);
        let parts = split_words(chars.as_slice());
        if parts.len() != 2 {
            return Err(SdpError::InvalidTimingFormat);
        }
        let start_time = match parse_unsigned(parts[0].as_slice(), u64::MAX) {
            Some(v) => v,
            None => {
                return Err(SdpError::InvalidTimingFormat);
            },
        };
        let stop_time = match parse_unsigned(parts[1].as_slice(), u64::MAX) {
            Some(v) => v,
            None => {
                return Err(SdpError::InvalidTimingFormat);
            },
        };
        Ok(Timing { start_time, stop_time })
    }

    /// The timing as an SDP line: `t=<start-time> <stop-time>` and a line feed.
    pub fn to_string(&self) -> (s: String)
        ensures
            s@ == timing_line(*self),
    {
        let mut s = string_from_str("t=");
        let start = decimal_chars(self.start_time);
        push_chars(&mut s, start.as_slice());
        push_str(&mut s, " ");
        let stop = decimal_chars(self.stop_time);
        push_chars(&mut s, stop.as_slice());
        push_str(&mut s, "\n");
        s
    }
}

/// Provides a default implementation for [`Timing`]: a permanent session.
impl Default for Timing {
    fn default() -> (t: Self)
        ensures
            t.start_time == 0,
            t.stop_time == 0,
    {
        Timing { start_time: 0, stop_time: 0 }
    }
}


/// The value part of a timing line: the two times in decimal, a space
/// between them.
pub open spec fn timing_value(t: Timing) -> Seq<char> {
    decimal(t.start_time as nat) + " "@ + decimal(t.stop_time as nat)
}

/// A timing line is `t=`, its value and a line feed, and parsing that value
/// gives back the timing that was written.
pub proof fn lemma_timing_line_parses(t: Timing)
    ensures
        timing_line(t) == "t="@ + timing_value(t) + "\n"@,
        timing_from(timing_value(t)) == Ok::<Timing, SdpErrorModel>(t),
{
    let parts = seq![decimal(t.start_time as nat), decimal(t.stop_time as nat)];
    lemma_decimal_word(t.start_time as nat);
    lemma_decimal_word(t.stop_time as nat);
    assert(parts.drop_last() =~= seq![decimal(t.start_time as nat)]);
    assert(joined_with(parts.drop_last(), " "@) == decimal(t.start_time as nat));
    assert(joined_with(parts, " "@) == timing_value(t));
    lemma_words_joined(parts);
    lemma_parse_decimal(t.start_time as nat, u64::MAX as nat);
    lemma_parse_decimal(t.stop_time as nat, u64::MAX as nat);
}

} // verus!
