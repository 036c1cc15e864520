//! H.264 Annex B byte streams: finding the type of the first NAL unit.
use vstd::prelude::*;

verus! {

/// Whether a four-byte start code `00 00 00 01` begins at `i`.
pub open spec fn start_code4_at(d: Seq<u8>, i: int) -> bool {
    0 <= i && i + 4 <= d.len() && d[i] == 0 && d[i + 1] == 0 && d[i + 2] == 0 && d[i + 3] == 1
}

/// Whether a three-byte start code `00 00 01` begins at `i`.
pub open spec fn start_code3_at(d: Seq<u8>, i: int) -> bool {
    0 <= i && i + 3 <= d.len() && d[i] == 0 && d[i + 1] == 0 && d[i + 2] == 1
}

/// The first position of a four-byte start code, if any.
#[verifier::opaque]
pub open spec fn first_start_code4(d: Seq<u8>) -> Option<int> {
    if exists|i: int| start_code4_at(d, i) {
        Some(choose|i: int| start_code4_at(d, i) && forall|j: int| 0 <= j < i ==> !start_code4_at(d, j))
    } else {
        None
    }
}

/// The first position of a three-byte start code, if any.
#[verifier::opaque]
pub open spec fn first_start_code3(d: Seq<u8>) -> Option<int> {
    if exists|i: int| start_code3_at(d, i) {
        Some(choose|i: int| start_code3_at(d, i) && forall|j: int| 0 <= j < i ==> !start_code3_at(d, j))
    } else {
        None
    }
}

/// The NAL unit type of a stream: the low five bits of the byte after the
/// first four-byte start code; failing that, after the first three-byte
/// one; failing both, 0.
pub open spec fn nal_type_spec(d: Seq<u8>) -> u8 {
    let f4 = first_start_code4(d);
    let f3 = first_start_code3(d);
    if f4 is Some && f4->0 + 4 < d.len() {
        d[f4->0 + 4] & 0x1f
    } else if f3 is Some && f3->0 + 3 < d.len() {
        d[f3->0 + 3] & 0x1f
    } else {
        0
    }
}

fn find_start_code4(data: &[u8]) -> (r: Option<usize>)
    ensures
        match r {
            Some(i) => first_start_code4(data@) == Some(i as int) && i + 4 <= data@.len(),
            None => first_start_code4(data@) is None,
        },
{
    reveal(first_start_code4);
    let n = data.len();
    if n < 4 {
        return None;
    }
    let mut i: usize = 0;
    while i <= n - 4
        invariant
            n == data@.len(),
            n >= 4,
            i <= n - 4 + 1,
            forall|j: int| 0 <= j < i ==> !start_code4_at(data@, j),
        decreases n - i,
    {
        if data[i] == 0 && data[i + 1] == 0 && data[i + 2] == 0 && data[i + 3] == 1 {
            proof {
                reveal(first_start_code4);
                let d = data@;
                assert(start_code4_at(d, i as int));
                let c = choose|c: int| start_code4_at(d, c) && forall|j: int| 0 <= j < c ==> !start_code4_at(d, j);
                if c < i {
                } else if c > i {
                    assert(!start_code4_at(d, i as int));
                }
            }
            return Some(i);
        }
        i = i + 1;
    }
    None
}

fn find_start_code3(data: &[u8]) -> (r: Option<usize>)
    ensures
        match r {
            Some(i) => first_start_code3(data@) == Some(i as int) && i + 3 <= data@.len(),
            None => first_start_code3(data@) is None,
        },
{
    reveal(first_start_code3);
    let n = data.len();
    if n < 3 {
        return None;
    }
    let mut i: usize = 0;
    while i <= n - 3
        invariant
            n == data@.len(),
            n >= 3,
            i <= n - 3 + 1,
            forall|j: int| 0 <= j < i ==> !start_code3_at(data@, j),
        decreases n - i,
    {
        if data[i] == 0 && data[i + 1] == 0 && data[i + 2] == 1 {
            proof {
                reveal(first_start_code3);
                let d = data@;
                assert(start_code3_at(d, i as int));
                let c = choose|c: int| start_code3_at(d, c) && forall|j: int| 0 <= j < c ==> !start_code3_at(d, j);
                if c < i {
                } else if c > i {
                    assert(!start_code3_at(d, i as int));
                }
            }
            return Some(i);
        }
        i = i + 1;
    }
    None
}

/// The type of the first NAL unit in an Annex B byte stream.
pub fn get_nal_type(data: &[u8]) -> (t: u8)
    ensures
        t == nal_type_spec(data@),
{
    let n = data.len();
    match find_start_code4(data) {
        Some(i) => {
            if i + 4 < n {
                return data[i + 4] & 0x1f;
            }
        },
        None => {},
    }
    match find_start_code3(data) {
        Some(i) => {
            if i + 3 < n {
                return data[i + 3] & 0x1f;
            }
        },
        None => {},
    }
    0
}

} // verus!
