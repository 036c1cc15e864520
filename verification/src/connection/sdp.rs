//! The DTLS fingerprint and setup role in session descriptions (RFC 5763).
use crate::sdp::text::{
    has_prefix, joined_with, lemma_joined_crlf, lemma_lines_no_newline, lemma_lines_with_newlines,
    lines_of, no_newline, split_lines, starts_with, strip_cr, trim, trimmed,
};
use crate::text::{chars_of, push_chars, push_str, string_from_chars};
use vstd::prelude::*;
use vstd::string::*;

verus! {

/// What `str::to_uppercase` gives for a text: each character replaced by
/// its Unicode upper-case mapping.
pub uninterp spec fn uppercase(s: Seq<char>) -> Seq<char>;

/// std's `str::to_uppercase`: the text in upper case. Its result is stated
/// only through the name `uppercase`.
#[verifier::external_body]
fn to_uppercase(s: &str) -> (r: String)
    ensures
        r@ == uppercase(s@),
{
    s.to_uppercase()
}

/// The position of the first line that starts a media description, or the
/// number of lines when none does.
pub open spec fn first_media_line(ls: Seq<Seq<char>>) -> int {
    if exists|i: int| 0 <= i < ls.len() && starts_with(ls[i], "m="@) {
        choose|i: int|
            0 <= i < ls.len() && starts_with(ls[i], "m="@) && forall|j: int|
                0 <= j < i ==> !starts_with(ls[j], "m="@)
    } else {
        ls.len() as int
    }
}

/// The setup role of a side: the offerer can be either (`actpass`), the
/// answerer acts as DTLS client (`active`).
pub open spec fn setup_role(is_offerer: bool) -> Seq<char> {
    if is_offerer {
        "actpass"@
    } else {
        "active"@
    }
}

/// A description with the fingerprint and setup attributes inserted before
/// its first media description (or at its end), its lines joined with
/// CR LF and ended by one.
pub open spec fn with_fingerprint(sdp: Seq<char>, fingerprint: Seq<char>, is_offerer: bool) -> Seq<
    char,
> {
    let ls = lines_of(sdp);
    let k = first_media_line(ls);
    let ls2 = ls.insert(k, "a=fingerprint:sha-256 "@ + fingerprint).insert(
        k + 1,
        "a=setup:"@ + setup_role(is_offerer),
    );
    joined_with(ls2, "\r\n"@) + "\r\n"@
}

/// The first line that starts with `prefix`, if any.
pub open spec fn first_line_with(ls: Seq<Seq<char>>, prefix: Seq<char>) -> Option<int> {
    if exists|i: int| 0 <= i < ls.len() && starts_with(ls[i], prefix) {
        Some(
            choose|i: int|
                0 <= i < ls.len() && starts_with(ls[i], prefix) && forall|j: int|
                    0 <= j < i ==> !starts_with(ls[j], prefix),
        )
    } else {
        None
    }
}

/// The fingerprint a description announces: on its first
/// `a=fingerprint:` line, the text after `a=fingerprint:sha-256 ` (or the
/// same with `SHA-256`), trimmed and in upper case; `None` without such a
/// line, or when that line names another hash.
pub open spec fn announced_fingerprint(sdp: Seq<char>) -> Option<Seq<char>> {
    let ls = lines_of(sdp);
    match first_line_with(ls, "a=fingerprint:"@) {
        None => None,
        Some(i) => if starts_with(ls[i], "a=fingerprint:sha-256 "@) || starts_with(
            ls[i],
            "a=fingerprint:SHA-256 "@,
        ) {
            Some(uppercase(trim(ls[i].skip(22))))
        } else {
            None
        },
    }
}

fn first_line_starting(ls: &Vec<Vec<char>>, prefix: &str) -> (r: Option<usize>)
    ensures
        match r {
            Some(i) => first_line_with(ls@.map_values(|w: Vec<char>| w@), prefix@) == Some(
                i as int,
            ) && i < ls@.len(),
            None => first_line_with(ls@.map_values(|w: Vec<char>| w@), prefix@) is None,
        },
{
    let ghost v = ls@.map_values(|w: Vec<char>| w@);
    let mut i: usize = 0;
    while i < ls.len()
        invariant
            i <= ls@.len(),
            v == ls@.map_values(|w: Vec<char>| w@),
            forall|j: int| 0 <= j < i ==> !starts_with(v[j], prefix@),
        decreases ls@.len() - i,
    {
        if has_prefix(ls[i].as_slice(), prefix) {
            proof {
                assert(starts_with(v[i as int], prefix@));
                let c = choose|c: int|
                    0 <= c < v.len() && starts_with(v[c], prefix@) && forall|j: int|
                        0 <= j < c ==> !starts_with(v[j], prefix@);
                assert(0 <= c < v.len() && starts_with(v[c], prefix@) && forall|j: int|
                        0 <= j < c ==> !starts_with(v[j], prefix@));
                if c < i {
                } else if c > i {
                    assert(!starts_with(v[i as int], prefix@));
                }
            }
            return Some(i);
        }
        i = i + 1;
    }
    None
}

/// The characters of `a` followed by those of `b`.
fn concat_chars(a: &str, b: &str) -> (r: Vec<char>)
    ensures
        r@ == a@ + b@,
{
    let mut r = chars_of(a);
    let tail = chars_of(b);
    let ghost head = r@;
    let mut k: usize = 0;
    while k < tail.len()
        invariant
            k <= tail@.len(),
            r@ == head + tail@.take(k as int),
        decreases tail@.len() - k,
    {
        r.push(tail[k]);
        k = k + 1;
        assert(r@ =~= head + tail@.take(k as int));
    }
    assert(tail@.take(k as int) =~= tail@);
    r
}

/// The lines joined with CR LF, and one more CR LF at the end.
fn join_crlf(lines: &Vec<Vec<char>>) -> (out: String)
    ensures
        out@ == joined_with(lines@.map_values(|w: Vec<char>| w@), "\r\n"@) + "\r\n"@,
{
    let ghost ls = lines@.map_values(|w: Vec<char>| w@);
    let mut out = String::new();
    let mut i: usize = 0;
    while i < lines.len()
        invariant
            i <= lines@.len(),
            ls == lines@.map_values(|w: Vec<char>| w@),
            out@ == joined_with(ls.take(i as int), "\r\n"@),
        decreases lines@.len() - i,
    {
        let ghost t = ls.take(i as int + 1);
        assert(t.drop_last() =~= ls.take(i as int));
        if i > 0 {
            push_str(&mut out, "\r\n");
        }
        push_chars(&mut out, lines[i].as_slice());
        i = i + 1;
        assert(out@ =~= joined_with(t, "\r\n"@));
    }
    assert(ls.take(i as int) =~= ls);
    push_str(&mut out, "\r\n");
    out
}

/// Inserts the DTLS fingerprint (`a=fingerprint:sha-256 <fingerprint>`) and
/// the setup role (`a=setup:actpass` for the offerer, `a=setup:active` for
/// the answerer) before the first media description, and joins the lines
/// with CR LF.
#[verifier::rlimit(60)]
pub fn add_fingerprint_to_sdp(sdp: String, fingerprint: &str, is_offerer: bool) -> (r: String)
    ensures
        r@ == with_fingerprint(sdp@, fingerprint@, is_offerer),
{
    let chars = chars_of(sdp.as_str());
    let mut lines = split_lines(chars.as_slice());
    let ghost ls = lines_of(sdp@);
    let insert_pos = match first_line_starting(&lines, "m=") {
        Some(i) => i,
        None => lines.len(),
    };
    assert(insert_pos == first_media_line(ls));
    let fp_line = concat_chars("a=fingerprint:sha-256 ", fingerprint);
    // RFC 5763: the offerer can be either side, the answerer is the DTLS client.
    let setup = if is_offerer {
        "actpass"
    } else {
        "active"
    };
    let setup_line = concat_chars("a=setup:", setup);
    proof {
        reveal_strlit("actpass");
        reveal_strlit("active");
        assert(setup@ == setup_role(is_offerer));
    }
    let ghost fp_text = fp_line@;
    let ghost setup_text = setup_line@;
    let ghost ls1 = ls.insert(insert_pos as int, fp_text);
    lines.insert(insert_pos, fp_line);
    assert(lines@.map_values(|w: Vec<char>| w@) =~= ls1);
    let count = lines.len();
    assert(insert_pos < count);
    let after = insert_pos + 1;
    let ghost ls2 = ls1.insert(after as int, setup_text);
    lines.insert(after, setup_line);
    assert(lines@.map_values(|w: Vec<char>| w@) =~= ls2);
    assert(fp_text == "a=fingerprint:sha-256 "@ + fingerprint@);
    assert(setup_text == "a=setup:"@ + setup_role(is_offerer));
    let out = join_crlf(&lines);
    assert(out@ == with_fingerprint(sdp@, fingerprint@, is_offerer));
    out
}

/// The fingerprint that a description announces (see
/// `announced_fingerprint`).
pub fn extract_fingerprint_from_sdp(sdp: &str) -> (r: Option<String>)
    ensures
        match r {
            Some(f) => announced_fingerprint(sdp@) == Some(f@),
            None => announced_fingerprint(sdp@) is None,
        },
{
    let chars = chars_of(sdp);
    let lines = split_lines(chars.as_slice());
    let i = match first_line_starting(&lines, "a=fingerprint:") {
        Some(i) => i,
        None => {
            return None;
        },
    };
    let line = lines[i].as_slice();
    if has_prefix(line, "a=fingerprint:sha-256 ") || has_prefix(line, "a=fingerprint:SHA-256 ") {
        proof {
            reveal_strlit("a=fingerprint:sha-256 ");
            reveal_strlit("a=fingerprint:SHA-256 ");
        }
        let rest = trimmed(&line[22..line.len()]);
        let text = string_from_chars(rest.as_slice());
        Some(to_uppercase(text.as_str()))
    } else {
        None
    }
}


/// Whether no line of `sdp` before its first media description already
/// announces a fingerprint.
pub open spec fn no_fingerprint_before_media(sdp: Seq<char>) -> bool {
    let ls = lines_of(sdp);
    forall|j: int| 0 <= j < first_media_line(ls) ==> !starts_with(#[trigger] ls[j], "a=fingerprint:"@)
}

/// The lines of a description once the fingerprint and setup lines are
/// inserted before its first media description.
pub open spec fn fingerprint_lines(sdp: Seq<char>, fingerprint: Seq<char>, is_offerer: bool) -> Seq<
    Seq<char>,
> {
    let ls = lines_of(sdp);
    let k = first_media_line(ls);
    ls.insert(k, "a=fingerprint:sha-256 "@ + fingerprint).insert(
        k + 1,
        "a=setup:"@ + setup_role(is_offerer),
    )
}

/// A line that starts with `prefix` has a first such line at or before it.
proof fn lemma_first_line_exists(ls: Seq<Seq<char>>, prefix: Seq<char>, i: int)
    requires
        0 <= i < ls.len(),
        starts_with(ls[i], prefix),
    ensures
        exists|c: int|
            0 <= c <= i && starts_with(ls[c], prefix) && forall|j: int|
                0 <= j < c ==> !starts_with(#[trigger] ls[j], prefix),
    decreases i,
{
    if exists|j: int| 0 <= j < i && starts_with(ls[j], prefix) {
        let j = choose|j: int| 0 <= j < i && starts_with(ls[j], prefix);
        lemma_first_line_exists(ls, prefix, j);
    } else {
        assert(forall|j: int| 0 <= j < i ==> !starts_with(#[trigger] ls[j], prefix));
    }
}

proof fn lemma_first_media_line_bounds(ls: Seq<Seq<char>>)
    ensures
        0 <= first_media_line(ls) <= ls.len(),
{
    if exists|i: int| 0 <= i < ls.len() && starts_with(ls[i], "m="@) {
        let i = choose|i: int| 0 <= i < ls.len() && starts_with(ls[i], "m="@);
        lemma_first_line_exists(ls, "m="@, i);
        let c = choose|i: int|
            0 <= i < ls.len() && starts_with(ls[i], "m="@) && forall|j: int|
                0 <= j < i ==> !starts_with(ls[j], "m="@);
        assert(0 <= c < ls.len() && starts_with(ls[c], "m="@));
    }
}

proof fn lemma_fingerprint_lines_no_newline(sdp: Seq<char>, fingerprint: Seq<char>, is_offerer: bool)
    requires
        no_newline(fingerprint),
    ensures
        forall|j: int|
            0 <= j < fingerprint_lines(sdp, fingerprint, is_offerer).len() ==> no_newline(
                #[trigger] fingerprint_lines(sdp, fingerprint, is_offerer)[j],
            ),
{
    reveal_strlit("a=fingerprint:sha-256 ");
    reveal_strlit("a=setup:");
    reveal_strlit("actpass");
    reveal_strlit("active");
    let ls = lines_of(sdp);
    let k = first_media_line(ls);
    lemma_first_media_line_bounds(ls);
    lemma_lines_no_newline(sdp);
    let fp_line = "a=fingerprint:sha-256 "@ + fingerprint;
    let setup_line = "a=setup:"@ + setup_role(is_offerer);
    let ls2 = fingerprint_lines(sdp, fingerprint, is_offerer);
    assert forall|j: int| 0 <= j < ls2.len() implies no_newline(#[trigger] ls2[j]) by {
        if j < k {
            assert(ls2[j] == ls[j]);
        } else if j == k {
            assert(ls2[j] == fp_line);
            assert forall|i: int| 0 <= i < fp_line.len() implies #[trigger] fp_line[i] != '\n' by {
                if i >= 22 {
                    assert(fp_line[i] == fingerprint[i - 22]);
                }
            }
        } else if j == k + 1 {
            assert(ls2[j] == setup_line);
        } else {
            assert(ls2[j] == ls[j - 2]);
        }
    }
}

/// The description with the fingerprint inserted is read as its lines.
proof fn lemma_fingerprint_text_lines(sdp: Seq<char>, fingerprint: Seq<char>, is_offerer: bool)
    requires
        no_newline(fingerprint),
    ensures
        lines_of(with_fingerprint(sdp, fingerprint, is_offerer)) == fingerprint_lines(
            sdp,
            fingerprint,
            is_offerer,
        ),
{
    let ls2 = fingerprint_lines(sdp, fingerprint, is_offerer);
    let bodies = ls2.map_values(|l: Seq<char>| l.push('\r'));
    lemma_first_media_line_bounds(lines_of(sdp));
    lemma_joined_crlf(ls2);
    lemma_fingerprint_lines_no_newline(sdp, fingerprint, is_offerer);
    assert forall|j: int| 0 <= j < bodies.len() implies no_newline(#[trigger] bodies[j]) by {
        assert(no_newline(ls2[j]));
        assert(bodies[j] == ls2[j].push('\r'));
    }
    lemma_lines_with_newlines(bodies);
    assert forall|j: int| 0 <= j < bodies.len() implies strip_cr(#[trigger] bodies[j]) == ls2[j] by {
        assert(bodies[j].drop_last() =~= ls2[j]);
    }
    assert(bodies.map_values(|l: Seq<char>| strip_cr(l)) =~= ls2);
}

/// The fingerprint one side inserts is the one the other side reads: once
/// a fingerprint without line feeds is inserted into a description that
/// announces none before its first media description, the description
/// announces that fingerprint, trimmed and in upper case.
pub proof fn lemma_fingerprint_reads_back(sdp: Seq<char>, fingerprint: Seq<char>, is_offerer: bool)
    requires
        no_fingerprint_before_media(sdp),
        no_newline(fingerprint),
    ensures
        announced_fingerprint(with_fingerprint(sdp, fingerprint, is_offerer)) == Some(
            uppercase(trim(fingerprint)),
        ),
{
    reveal_strlit("a=fingerprint:sha-256 ");
    reveal_strlit("a=fingerprint:");
    let ls = lines_of(sdp);
    let k = first_media_line(ls);
    lemma_first_media_line_bounds(ls);
    lemma_fingerprint_text_lines(sdp, fingerprint, is_offerer);
    let ls2 = fingerprint_lines(sdp, fingerprint, is_offerer);
    let fp_line = "a=fingerprint:sha-256 "@ + fingerprint;
    let prefix = "a=fingerprint:"@;
    assert(ls2[k] == fp_line);
    assert(starts_with(ls2[k], prefix)) by {
        assert(fp_line.take(14) =~= prefix);
    }
    assert forall|j: int| 0 <= j < k implies !starts_with(#[trigger] ls2[j], prefix) by {
        assert(ls2[j] == ls[j]);
    }
    lemma_first_line_exists(ls2, prefix, k);
    let c = choose|i: int|
        0 <= i < ls2.len() && starts_with(ls2[i], prefix) && forall|j: int|
            0 <= j < i ==> !starts_with(ls2[j], prefix);
    assert(0 <= c < ls2.len() && starts_with(ls2[c], prefix) && forall|j: int|
        0 <= j < c ==> !starts_with(ls2[j], prefix));
    if c < k {
    } else if c > k {
        assert(!starts_with(ls2[k], prefix));
    }
    assert(first_line_with(ls2, prefix) == Some(k));
    assert(starts_with(ls2[k], "a=fingerprint:sha-256 "@)) by {
        assert(fp_line.take(22) =~= "a=fingerprint:sha-256 "@);
    }
    assert(ls2[k].skip(22) =~= fingerprint);
}

} // verus!
