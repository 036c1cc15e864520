//! Whether a connection is ready for its DTLS handshake, and what is
//! missing when it is not.
use crate::address::IpAddress;
use crate::sdp::text::joined_with;
use crate::text::{push_str, string_from_str};
use vstd::prelude::*;
use vstd::string::*;

verus! {

/// What stops a DTLS handshake, in the order it is checked: DTLS not set up
/// locally, no local ICE candidate, neither a remote candidate nor a remote
/// endpoint, no remote fingerprint, no remote address.
pub open spec fn dtls_problems(
    has_local_fingerprint: bool,
    local_candidates: nat,
    remote_candidates: nat,
    has_remote_endpoint: bool,
    has_remote_fingerprint: bool,
) -> Seq<Seq<char>> {
    (if !has_local_fingerprint {
        seq!["DTLS not initialized"@]
    } else {
        Seq::empty()
    }) + (if local_candidates == 0 {
        seq!["No local ICE candidates"@]
    } else {
        Seq::empty()
    }) + (if remote_candidates == 0 && !has_remote_endpoint {
        seq!["No remote ICE candidates AND no remote endpoint (CRITICAL)"@]
    } else {
        Seq::empty()
    }) + (if !has_remote_fingerprint {
        seq!["No remote DTLS fingerprint"@]
    } else {
        Seq::empty()
    }) + (if !has_remote_endpoint {
        seq!["Cannot determine remote address"@]
    } else {
        Seq::empty()
    })
}

/// Appends `line` to the report, after a line feed unless it is the first.
fn add_problem<'a>(report: &mut String, found: &mut Vec<&'a str>, line: &'a str)
    requires
        old(report)@ == joined_with(old(found)@.map_values(|p: &str| p@), "\n"@),
    ensures
        final(found)@ == old(found)@.push(line),
        final(report)@ == joined_with(final(found)@.map_values(|p: &str| p@), "\n"@),
{
    let ghost before = found@.map_values(|p: &str| p@);
    if found.len() > 0 {
        push_str(report, "\n");
    }
    push_str(report, line);
    found.push(line);
    let ghost after = found@.map_values(|p: &str| p@);
    assert(after.drop_last() =~= before);
    assert(after.last() == line@);
    proof {
        if before.len() == 0 {
            assert(after =~= seq![line@]);
            assert(report@ =~= joined_with(after, "\n"@));
        }
    }
}

/// Checks what a DTLS handshake needs: a local fingerprint, a local ICE
/// candidate, a remote candidate or a remote endpoint, a remote
/// fingerprint, and a remote endpoint. When something is missing the error
/// is `DTLS preconditions failed:` followed, one per line, by what is
/// missing (see `dtls_problems`).
pub fn dtls_preconditions(
    has_local_fingerprint: bool,
    local_candidates: usize,
    remote_candidates: usize,
    remote_endpoint: Option<(String, u16)>,
    has_remote_fingerprint: bool,
) -> (r: Result<(), String>)
    ensures
        ({
            let p = dtls_problems(
                has_local_fingerprint,
                local_candidates as nat,
                remote_candidates as nat,
                remote_endpoint is Some,
                has_remote_fingerprint,
            );
            &&& p.len() == 0 ==> r is Ok
            &&& p.len() > 0 ==> (r matches Err(e) && e@ == "DTLS preconditions failed:\n"@
                + joined_with(p, "\n"@))
        }),
{
    let has_remote_endpoint = remote_endpoint.is_some();
    let mut found: Vec<&str> = Vec::new();
    let mut report = String::new();
    assert(found@.map_values(|p: &str| p@) =~= Seq::<Seq<char>>::empty());
    if !has_local_fingerprint {
        add_problem(&mut report, &mut found, "DTLS not initialized");
    }
    if local_candidates == 0 {
        add_problem(&mut report, &mut found, "No local ICE candidates");
    }
    if remote_candidates == 0 && !has_remote_endpoint {
        add_problem(
            &mut report,
            &mut found,
            "No remote ICE candidates AND no remote endpoint (CRITICAL)",
        );
    }
    if !has_remote_fingerprint {
        add_problem(&mut report, &mut found, "No remote DTLS fingerprint");
    }
    if !has_remote_endpoint {
        add_problem(&mut report, &mut found, "Cannot determine remote address");
    }
    let ghost p = dtls_problems(
        has_local_fingerprint,
        local_candidates as nat,
        remote_candidates as nat,
        has_remote_endpoint,
        has_remote_fingerprint,
    );
    assert(found@.map_values(|q: &str| q@) =~= p);
    if found.len() == 0 {
        Ok(())
    } else {
        let mut message = string_from_str("DTLS preconditions failed:\n");
        push_str(&mut message, report.as_str());
        Err(message)
    }
}


/// Whether a received packet is a DTLS record: its first byte is a DTLS
/// content type, 20 to 23 (RTP starts at 128, RTCP at 200).
pub fn is_dtls_packet(packet: &[u8]) -> (b: bool)
    ensures
        b == (packet@.len() > 0 && 20 <= packet@[0] <= 23),
{
    packet.len() > 0 && 20 <= packet[0] && packet[0] <= 23
}

/// Whether an address is the unspecified one (`0.0.0.0` or `::`), to which
/// no handshake can be made.
pub fn is_unspecified(ip: &IpAddress) -> (b: bool)
    ensures
        b == (forall|i: int| 0 <= i < ip@.len() ==> ip@[i] == 0),
{
    match ip {
        IpAddress::V4(o) => {
            assert(ip@ == o@);
            let mut i: usize = 0;
            while i < 4
                invariant
                    i <= 4,
                    ip@ == o@,
                    forall|j: int| 0 <= j < i ==> o@[j] == 0,
                decreases 4 - i,
            {
                if o[i] != 0 {
                    assert(ip@[i as int] != 0);
                    return false;
                }
                i = i + 1;
            }
            assert(ip@ == o@);
            true
        },
        IpAddress::V6(o) => {
            assert(ip@ == o@);
            let mut i: usize = 0;
            while i < 16
                invariant
                    i <= 16,
                    ip@ == o@,
                    forall|j: int| 0 <= j < i ==> o@[j] == 0,
                decreases 16 - i,
            {
                if o[i] != 0 {
                    assert(ip@[i as int] != 0);
                    return false;
                }
                i = i + 1;
            }
            assert(ip@ == o@);
            true
        },
    }
}

} // verus!
