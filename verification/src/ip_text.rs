//! IP addresses as text, in the form `std::net` displays them: dotted
//! decimal for IPv4; for IPv6, lower-case hexadecimal groups with the first
//! longest run of two or more zero groups written `::`, and IPv4-mapped
//! addresses as `::ffff:a.b.c.d`.
use crate::address::IpAddress;
use crate::text::{decimal, decimal_chars, push_chars, push_str};
use vstd::prelude::*;
use vstd::string::*;

verus! {

/// The lower-case hexadecimal digit for `d` (0..=15).
pub open spec fn hex_lower(d: int) -> char {
    if d < 10 {
        crate::text::digit_char(d)
    } else if d == 10 {
        'a'
    } else if d == 11 {
        'b'
    } else if d == 12 {
        'c'
    } else if d == 13 {
        'd'
    } else if d == 14 {
        'e'
    } else {
        'f'
    }
}

/// The shortest lower-case hexadecimal representation of `v`.
pub open spec fn hex_text(v: nat) -> Seq<char>
    decreases v,
{
    if v < 16 {
        seq![hex_lower(v as int)]
    } else {
        hex_text(v / 16).push(hex_lower((v % 16) as int))
    }
}

/// The dotted-decimal text of four octets.
pub open spec fn ipv4_text(o: Seq<u8>) -> Seq<char> {
    decimal(o[0] as nat) + "."@ + decimal(o[1] as nat) + "."@ + decimal(o[2] as nat) + "."@
        + decimal(o[3] as nat)
}

/// The eight 16-bit groups of sixteen octets.
pub open spec fn groups_of(o: Seq<u8>) -> Seq<u16> {
    Seq::new(8, |i: int| ((o[2 * i] as int) * 256 + o[2 * i + 1] as int) as u16)
}

/// Groups in hexadecimal, separated by colons.
pub open spec fn groups_text(g: Seq<u16>) -> Seq<char>
    decreases g.len(),
{
    if g.len() == 0 {
        Seq::empty()
    } else if g.len() == 1 {
        hex_text(g[0] as nat)
    } else {
        groups_text(g.drop_last()) + ":"@ + hex_text(g.last() as nat)
    }
}

/// Scanning the first `n` groups from the left, the first longest run of
/// zero groups seen so far and the run of zeros that ends at `n`, each as
/// (start, length).
pub open spec fn zero_scan(g: Seq<u16>, n: nat) -> ((nat, nat), (nat, nat))
    decreases n,
{
    if n == 0 {
        ((0, 0), (0, 0))
    } else {
        let (longest, current) = zero_scan(g, (n - 1) as nat);
        if g[n - 1] == 0 {
            let cur = if current.1 == 0 {
                ((n - 1) as nat, 1nat)
            } else {
                (current.0, current.1 + 1)
            };
            if cur.1 > longest.1 {
                (cur, cur)
            } else {
                (longest, cur)
            }
        } else {
            (longest, (0, 0))
        }
    }
}

/// Whether sixteen octets hold an IPv4-mapped address (`::ffff:a.b.c.d`).
pub open spec fn is_ipv4_mapped(o: Seq<u8>) -> bool {
    (forall|i: int| 0 <= i < 10 ==> o[i] == 0) && o[10] == 0xff && o[11] == 0xff
}

/// The text of sixteen octets as an IPv6 address.
pub open spec fn ipv6_text(o: Seq<u8>) -> Seq<char> {
    if is_ipv4_mapped(o) {
        "::ffff:"@ + ipv4_text(o.subrange(12, 16))
    } else {
        let g = groups_of(o);
        let span = zero_scan(g, 8).0;
        if span.1 > 1 {
            groups_text(g.take(span.0 as int)) + "::"@ + groups_text(g.skip((span.0 + span.1) as int))
        } else {
            groups_text(g)
        }
    }
}

/// The text of an address.
pub open spec fn ip_text(a: IpAddress) -> Seq<char> {
    match a {
        IpAddress::V4(o) => ipv4_text(o@),
        IpAddress::V6(o) => ipv6_text(o@),
    }
}

fn hex_lower_char(d: u16) -> (c: char)
    requires
        d < 16,
    ensures
        c == hex_lower(d as int),
{
    if d < 10 {
        if d == 0 {
            '0'
        } else if d == 1 {
            '1'
        } else if d == 2 {
            '2'
        } else if d == 3 {
            '3'
        } else if d == 4 {
            '4'
        } else if d == 5 {
            '5'
        } else if d == 6 {
            '6'
        } else if d == 7 {
            '7'
        } else if d == 8 {
            '8'
        } else {
            '9'
        }
    } else if d == 10 {
        'a'
    } else if d == 11 {
        'b'
    } else if d == 12 {
        'c'
    } else if d == 13 {
        'd'
    } else if d == 14 {
        'e'
    } else {
        'f'
    }
}

fn hex_chars(v: u16) -> (r: Vec<char>)
    ensures
        r@ == hex_text(v as nat),
    decreases v,
{
    if v < 16 {
        let mut r: Vec<char> = Vec::new();
        r.push(hex_lower_char(v));
        assert(r@ =~= hex_text(v as nat));
        r
    } else {
        let mut r = hex_chars(v / 16);
        r.push(hex_lower_char(v % 16));
        r
    }
}

/// Appends the dotted-decimal text of four octets.
fn push_ipv4(s: &mut String, a: u8, b: u8, c: u8, d: u8)
    ensures
        final(s)@ == old(s)@ + ipv4_text(seq![a, b, c, d]),
{
    let da = decimal_chars(a as u64);
    push_chars(s, da.as_slice());
    push_str(s, ".");
    let db = decimal_chars(b as u64);
    push_chars(s, db.as_slice());
    push_str(s, ".");
    let dc = decimal_chars(c as u64);
    push_chars(s, dc.as_slice());
    push_str(s, ".");
    let dd = decimal_chars(d as u64);
    push_chars(s, dd.as_slice());
    assert(final(s)@ =~= old(s)@ + ipv4_text(seq![a, b, c, d]));
}

/// Appends groups `g[from..to]` in hexadecimal, separated by colons.
fn push_groups(s: &mut String, g: &[u16; 8], from: usize, to: usize)
    requires
        from <= to <= 8,
    ensures
        final(s)@ == old(s)@ + groups_text(g@.subrange(from as int, to as int)),
{
    let mut i: usize = from;
    while i < to
        invariant
            from <= i <= to <= 8,
            g@.len() == 8,
            s@ == old(s)@ + groups_text(g@.subrange(from as int, i as int)),
        decreases to - i,
    {
        let ghost before = g@.subrange(from as int, i as int);
        let ghost after = g@.subrange(from as int, i as int + 1);
        assert(after.drop_last() =~= before);
        if i > from {
            push_str(s, ":");
        }
        let h = hex_chars(g[i]);
        push_chars(s, h.as_slice());
        proof {
            if i == from {
                assert(before.len() == 0);
                assert(after.len() == 1);
            }
        }
        assert(s@ =~= old(s)@ + groups_text(after));
        i = i + 1;
    }
}

/// The text of an address, as `std::net` displays it.
pub fn ip_to_string(a: &IpAddress) -> (s: String)
    ensures
        s@ == ip_text(*a),
{
    let mut s = String::new();
    match a {
        IpAddress::V4(o) => {
            push_ipv4(&mut s, o[0], o[1], o[2], o[3]);
            assert(seq![o[0], o[1], o[2], o[3]] =~= o@);
        },
        IpAddress::V6(o) => {
            let mut mapped = o[10] == 0xff && o[11] == 0xff;
            let mut k: usize = 0;
            while k < 10
                invariant
                    k <= 10,
                    mapped == (o@[10] == 0xff && o@[11] == 0xff && forall|i: int| 0 <= i < k ==> o@[i] == 0),
                decreases 10 - k,
            {
                if o[k] != 0 {
                    mapped = false;
                }
                k = k + 1;
            }
            if mapped {
                push_str(&mut s, "::ffff:");
                push_ipv4(&mut s, o[12], o[13], o[14], o[15]);
                assert(seq![o[12], o[13], o[14], o[15]] =~= o@.subrange(12, 16));
                return s;
            }
            let mut g: [u16; 8] = [0; 8];
            let mut j: usize = 0;
            while j < 8
                invariant
                    j <= 8,
                    forall|i: int| 0 <= i < j ==> g@[i] == groups_of(o@)[i],
                decreases 8 - j,
            {
                g[j] = (o[2 * j] as u16) * 256 + o[2 * j + 1] as u16;
                j = j + 1;
            }
            assert(g@ =~= groups_of(o@));
            // The first longest run of zero groups.
            let mut best_start: usize = 0;
            let mut best_len: usize = 0;
            let mut cur_start: usize = 0;
            let mut cur_len: usize = 0;
            let mut n: usize = 0;
            while n < 8
                invariant
                    n <= 8,
                    g@ == groups_of(o@),
                    zero_scan(g@, n as nat) == ((best_start as nat, best_len as nat), (
                        cur_start as nat,
                        cur_len as nat,
                    )),
                    cur_start + cur_len <= n,
                    best_len <= n,
                    best_start + best_len <= n,
                decreases 8 - n,
            {
                if g[n] == 0 {
                    if cur_len == 0 {
                        cur_start = n;
                    }
                    cur_len = cur_len + 1;
                    if cur_len > best_len {
                        best_start = cur_start;
                        best_len = cur_len;
                    }
                } else {
                    cur_start = 0;
                    cur_len = 0;
                }
                n = n + 1;
            }
            if best_len > 1 {
                push_groups(&mut s, &g, 0, best_start);
                push_str(&mut s, "::");
                push_groups(&mut s, &g, best_start + best_len, 8);
                assert(g@.subrange(0, best_start as int) =~= g@.take(best_start as int));
                assert(g@.subrange((best_start + best_len) as int, 8) =~= g@.skip(
                    (best_start + best_len) as int,
                ));
            } else {
                push_groups(&mut s, &g, 0, 8);
                assert(g@.subrange(0, 8) =~= g@);
            }
        },
    }
    s
}


/// Whether `c` can stand in the text of an address: a decimal digit, a
/// lower-case hexadecimal letter, `.` or `:`.
pub open spec fn is_ip_char(c: char) -> bool {
    ('0' <= c && c <= '9') || ('a' <= c && c <= 'f') || c == '.' || c == ':'
}

/// Whether every character of `s` can stand in the text of an address.
pub open spec fn all_ip_chars(s: Seq<char>) -> bool {
    forall|i: int| 0 <= i < s.len() ==> is_ip_char(#[trigger] s[i])
}

proof fn lemma_concat_ip_chars(a: Seq<char>, b: Seq<char>)
    requires
        all_ip_chars(a),
        all_ip_chars(b),
    ensures
        all_ip_chars(a + b),
{
    assert forall|i: int| 0 <= i < (a + b).len() implies is_ip_char(#[trigger] (a + b)[i]) by {
        if i < a.len() {
            assert((a + b)[i] == a[i]);
        } else {
            assert((a + b)[i] == b[i - a.len()]);
        }
    }
}

proof fn lemma_decimal_ip_chars(v: nat)
    ensures
        all_ip_chars(decimal(v)),
{
    crate::sdp::text::lemma_decimal_digits(v);
    assert forall|i: int| 0 <= i < decimal(v).len() implies is_ip_char(#[trigger] decimal(v)[i]) by {
        assert(crate::sdp::text::is_digit(decimal(v)[i]));
    }
}

proof fn lemma_hex_ip_chars(v: nat)
    ensures
        hex_text(v).len() > 0,
        all_ip_chars(hex_text(v)),
    decreases v,
{
    if v >= 16 {
        lemma_hex_ip_chars(v / 16);
        let d = (v % 16) as int;
        assert(is_ip_char(hex_lower(d)));
        assert(all_ip_chars(seq![hex_lower(d)]));
        assert(hex_text(v / 16).push(hex_lower(d)) =~= hex_text(v / 16) + seq![hex_lower(d)]);
        lemma_concat_ip_chars(hex_text(v / 16), seq![hex_lower(d)]);
    } else {
        assert(is_ip_char(hex_lower(v as int)));
        assert(all_ip_chars(seq![hex_lower(v as int)]));
    }
}

proof fn lemma_groups_ip_chars(g: Seq<u16>)
    ensures
        all_ip_chars(groups_text(g)),
        g.len() > 0 ==> groups_text(g).len() > 0,
    decreases g.len(),
{
    reveal_strlit(":");
    if g.len() == 1 {
        lemma_hex_ip_chars(g[0] as nat);
    } else if g.len() > 1 {
        lemma_groups_ip_chars(g.drop_last());
        lemma_hex_ip_chars(g.last() as nat);
        assert(all_ip_chars(":"@));
        lemma_concat_ip_chars(groups_text(g.drop_last()), ":"@);
        lemma_concat_ip_chars(groups_text(g.drop_last()) + ":"@, hex_text(g.last() as nat));
    }
}

proof fn lemma_ipv4_ip_chars(o: Seq<u8>)
    ensures
        ipv4_text(o).len() > 0,
        all_ip_chars(ipv4_text(o)),
{
    reveal_strlit(".");
    assert(all_ip_chars("."@));
    lemma_decimal_ip_chars(o[0] as nat);
    lemma_decimal_ip_chars(o[1] as nat);
    lemma_decimal_ip_chars(o[2] as nat);
    lemma_decimal_ip_chars(o[3] as nat);
    let a = decimal(o[0] as nat) + "."@;
    lemma_concat_ip_chars(decimal(o[0] as nat), "."@);
    lemma_concat_ip_chars(a, decimal(o[1] as nat));
    lemma_concat_ip_chars(a + decimal(o[1] as nat), "."@);
    lemma_concat_ip_chars(a + decimal(o[1] as nat) + "."@, decimal(o[2] as nat));
    lemma_concat_ip_chars(a + decimal(o[1] as nat) + "."@ + decimal(o[2] as nat), "."@);
    lemma_concat_ip_chars(
        a + decimal(o[1] as nat) + "."@ + decimal(o[2] as nat) + "."@,
        decimal(o[3] as nat),
    );
}

/// The text of an address is not empty, and is made of decimal digits,
/// lower-case hexadecimal letters, dots and colons.
pub proof fn lemma_ip_text_chars(a: IpAddress)
    ensures
        ip_text(a).len() > 0,
        all_ip_chars(ip_text(a)),
{
    match a {
        IpAddress::V4(o) => lemma_ipv4_ip_chars(o@),
        IpAddress::V6(o) => {
            let b = o@;
            if is_ipv4_mapped(b) {
                reveal_strlit("::ffff:");
                assert(all_ip_chars("::ffff:"@));
                lemma_ipv4_ip_chars(b.subrange(12, 16));
                lemma_concat_ip_chars("::ffff:"@, ipv4_text(b.subrange(12, 16)));
            } else {
                let g = groups_of(b);
                let span = zero_scan(g, 8).0;
                if span.1 > 1 {
                    reveal_strlit("::");
                    assert(all_ip_chars("::"@));
                    lemma_groups_ip_chars(g.take(span.0 as int));
                    lemma_groups_ip_chars(g.skip((span.0 + span.1) as int));
                    lemma_concat_ip_chars(groups_text(g.take(span.0 as int)), "::"@);
                    lemma_concat_ip_chars(
                        groups_text(g.take(span.0 as int)) + "::"@,
                        groups_text(g.skip((span.0 + span.1) as int)),
                    );
                } else {
                    lemma_groups_ip_chars(g);
                }
            }
        },
    }
}

} // verus!
