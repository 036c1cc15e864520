//! The remote endpoint announced by the first ICE candidate of a session
//! description.
use crate::connection::sdp::first_line_with;
use crate::sdp::text::{
    has_prefix, lines_of, parse_unsigned, parse_unsigned_spec, split_lines, split_words, starts_with,
    words,
};
use crate::text::{chars_of, string_from_chars};
use vstd::prelude::*;

verus! {

/// Whether a line carries an ICE candidate.
pub open spec fn is_candidate_line(l: Seq<char>) -> bool {
    starts_with(l, "a=candidate:"@) || starts_with(l, "candidate:"@)
}

/// The first candidate line, if any.
pub open spec fn first_candidate_line(ls: Seq<Seq<char>>) -> Option<int> {
    if exists|i: int| 0 <= i < ls.len() && is_candidate_line(ls[i]) {
        Some(
            choose|i: int|
                0 <= i < ls.len() && is_candidate_line(ls[i]) && forall|j: int|
                    0 <= j < i ==> !is_candidate_line(ls[j]),
        )
    } else {
        None
    }
}

/// The endpoint of the first candidate line: its fifth word as the
/// address and its sixth as the port; `None` without a candidate line, or
/// when that line has fewer than six words or no port number there.
pub open spec fn candidate_endpoint(sdp: Seq<char>) -> Option<(Seq<char>, u16)> {
    let ls = lines_of(sdp);
    match first_candidate_line(ls) {
        None => None,
        Some(i) => {
            let w = words(ls[i]);
            if w.len() >= 6 && parse_unsigned_spec(w[5], 65535) is Some {
                Some((w[4], parse_unsigned_spec(w[5], 65535).unwrap() as u16))
            } else {
                None
            }
        },
    }
}

/// The address and port of the first ICE candidate in a session
/// description (see `candidate_endpoint`).
pub fn extract_remote_endpoint_from_sdp(sdp: &str) -> (r: Option<(String, u16)>)
    ensures
        match r {
            Some((ip, port)) => candidate_endpoint(sdp@) == Some((ip@, port)),
            None => candidate_endpoint(sdp@) is None,
        },
{
    let chars = chars_of(sdp);
    let lines = split_lines(chars.as_slice());
    let ghost v = lines@.map_values(|w: Vec<char>| w@);
    let mut i: usize = 0;
    while i < lines.len()
        invariant
            i <= lines@.len(),
            v == lines@.map_values(|w: Vec<char>| w@),
            v == lines_of(sdp@),
            forall|j: int| 0 <= j < i ==> !is_candidate_line(v[j]),
        decreases lines@.len() - i,
    {
        let line = lines[i].as_slice();
        if has_prefix(line, "a=candidate:") || has_prefix(line, "candidate:") {
            proof {
                assert(is_candidate_line(v[i as int]));
                let c = choose|c: int|
                    0 <= c < v.len() && is_candidate_line(v[c]) && forall|j: int|
                        0 <= j < c ==> !is_candidate_line(v[j]);
                assert(0 <= c < v.len() && is_candidate_line(v[c]) && forall|j: int|
                        0 <= j < c ==> !is_candidate_line(v[j]));
                if c < i {
                } else if c > i {
                    assert(!is_candidate_line(v[i as int]));
                }
            }
            let parts = split_words(line);
            if parts.len() >= 6 {
                let ip = string_from_chars(parts[4].as_slice());
                return match parse_unsigned(parts[5].as_slice(), 65535) {
                    Some(port) => Some((ip, port as u16)),
                    None => None,
                };
            } else {
                return None;
            }
        }
        i = i + 1;
    }
    None
}

} // verus!
