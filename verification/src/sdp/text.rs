//! The text operations SDP fields are read with: splitting on whitespace,
//! reading unsigned decimal numbers, and comparing words.
use crate::text::{decimal, digit_char};
use vstd::prelude::*;

verus! {

/// Whether `c` is white space in the sense of Unicode's `White_Space`
/// property, as `char::is_whitespace` decides it.
pub open spec fn is_space(c: char) -> bool {
    let u = c as u32;
    ||| u == 0x20
    ||| 0x09 <= u <= 0x0d
    ||| u == 0x85
    ||| u == 0xa0
    ||| u == 0x1680
    ||| 0x2000 <= u <= 0x200a
    ||| u == 0x2028
    ||| u == 0x2029
    ||| u == 0x202f
    ||| u == 0x205f
    ||| u == 0x3000
}

/// Whether `c` is white space (`char::is_whitespace`).
pub fn is_space_char(c: char) -> (b: bool)
    ensures
        b == is_space(c),
{
    let u = c as u32;
    u == 0x20 || (0x09 <= u && u <= 0x0d) || u == 0x85 || u == 0xa0 || u == 0x1680 || (0x2000 <= u
        && u <= 0x200a) || u == 0x2028 || u == 0x2029 || u == 0x202f || u == 0x205f || u == 0x3000
}

/// The words of `s`: its maximal runs of characters that are not white
/// space, in order (what `str::split_whitespace` yields).
pub open spec fn words(s: Seq<char>) -> Seq<Seq<char>>
    decreases s.len(),
{
    if s.len() == 0 {
        Seq::empty()
    } else {
        let before = words(s.drop_last());
        let c = s.last();
        if is_space(c) {
            before
        } else if s.len() >= 2 && !is_space(s[s.len() - 2]) {
            before.update(before.len() - 1, before.last().push(c))
        } else {
            before.push(seq![c])
        }
    }
}

/// A text that ends in a character that is not white space has a word.
pub proof fn lemma_words_nonempty(s: Seq<char>)
    requires
        s.len() > 0,
        !is_space(s.last()),
    ensures
        words(s).len() > 0,
    decreases s.len(),
{
    if s.len() >= 2 && !is_space(s[s.len() - 2]) {
        assert(s.drop_last().last() == s[s.len() - 2]);
        lemma_words_nonempty(s.drop_last());
    }
}

/// The words of `s`, as `str::split_whitespace` yields them.
pub fn split_words(s: &[char]) -> (r: Vec<Vec<char>>)
    ensures
        r@.map_values(|w: Vec<char>| w@) == words(s@),
{
    let mut r: Vec<Vec<char>> = Vec::new();
    let mut in_word = false;
    let mut i: usize = 0;
    while i < s.len()
        invariant
            i <= s@.len(),
            r@.map_values(|w: Vec<char>| w@) == words(s@.take(i as int)),
            in_word == (i > 0 && !is_space(s@[i - 1])),
        decreases s@.len() - i,
    {
        let c = s[i];
        let ghost t = s@.take(i as int + 1);
        assert(t.drop_last() =~= s@.take(i as int));
        assert(t.last() == c);
        if is_space_char(c) {
            in_word = false;
        } else if in_word {
            proof {
                assert(t[t.len() - 2] == s@[i - 1]);
                lemma_words_nonempty(s@.take(i as int));
            }
            let last = r.len() - 1;
            let mut w = r.remove(last);
            w.push(c);
            r.push(w);
            assert(r@.map_values(|w: Vec<char>| w@) =~= words(t));
            in_word = true;
        } else {
            let mut w: Vec<char> = Vec::new();
            w.push(c);
            r.push(w);
            assert(r@.map_values(|w: Vec<char>| w@) =~= words(t));
            in_word = true;
        }
        i = i + 1;
    }
    assert(s@.take(s@.len() as int) =~= s@);
    r
}

/// The pieces of `s` between occurrences of `sep` (what `str::split`
/// yields for a single-character separator): one more piece than there are
/// separators, empty pieces included.
pub open spec fn pieces(s: Seq<char>, sep: char) -> Seq<Seq<char>>
    decreases s.len(),
{
    if s.len() == 0 {
        seq![Seq::empty()]
    } else {
        let before = pieces(s.drop_last(), sep);
        if s.last() == sep {
            before.push(Seq::empty())
        } else {
            before.update(before.len() - 1, before.last().push(s.last()))
        }
    }
}

/// There is always at least one piece.
pub proof fn lemma_pieces_nonempty(s: Seq<char>, sep: char)
    ensures
        pieces(s, sep).len() >= 1,
    decreases s.len(),
{
    if s.len() > 0 {
        lemma_pieces_nonempty(s.drop_last(), sep);
    }
}

/// The pieces of `s` between occurrences of `sep`.
pub fn split_on(s: &[char], sep: char) -> (r: Vec<Vec<char>>)
    ensures
        r@.map_values(|w: Vec<char>| w@) == pieces(s@, sep),
        r@.len() >= 1,
{
    let mut r: Vec<Vec<char>> = Vec::new();
    r.push(Vec::new());
    assert(r@.map_values(|w: Vec<char>| w@) =~= pieces(s@.take(0), sep));
    let mut i: usize = 0;
    while i < s.len()
        invariant
            i <= s@.len(),
            r@.map_values(|w: Vec<char>| w@) == pieces(s@.take(i as int), sep),
            r@.len() >= 1,
        decreases s@.len() - i,
    {
        let c = s[i];
        let ghost t = s@.take(i as int + 1);
        assert(t.drop_last() =~= s@.take(i as int));
        assert(t.last() == c);
        if c == sep {
            r.push(Vec::new());
        } else {
            let last = r.len() - 1;
            let mut w = r.remove(last);
            w.push(c);
            r.push(w);
        }
        assert(r@.map_values(|w: Vec<char>| w@) =~= pieces(t, sep));
        i = i + 1;
    }
    assert(s@.take(s@.len() as int) =~= s@);
    r
}

/// A line without the carriage return that ends it, if any.
pub open spec fn strip_cr(l: Seq<char>) -> Seq<char> {
    if l.len() > 0 && l.last() == '\r' {
        l.drop_last()
    } else {
        l
    }
}

/// The lines of `s`, as `str::lines` yields them: the text is cut after
/// each line feed, a final empty piece is dropped, and a line that a line
/// feed ends loses that line feed and a carriage return before it.
pub open spec fn lines_of(s: Seq<char>) -> Seq<Seq<char>> {
    let p = pieces(s, '\n');
    let n = if p.last().len() == 0 {
        p.len() - 1
    } else {
        p.len() as int
    };
    Seq::new(n as nat, |i: int| if i < p.len() - 1 { strip_cr(p[i]) } else { p[i] })
}

/// The lines of `s` (`str::lines`).
pub fn split_lines(s: &[char]) -> (r: Vec<Vec<char>>)
    ensures
        r@.map_values(|w: Vec<char>| w@) == lines_of(s@),
{
    let p = split_on(s, '\n');
    let ghost pv = pieces(s@, '\n');
    let count = if p[p.len() - 1].len() == 0 {
        p.len() - 1
    } else {
        p.len()
    };
    let mut r: Vec<Vec<char>> = Vec::new();
    let mut i: usize = 0;
    while i < count
        invariant
            p@.map_values(|w: Vec<char>| w@) == pv,
            pv == pieces(s@, '\n'),
            pv.len() >= 1,
            count <= pv.len(),
            count == (if pv.last().len() == 0 { pv.len() - 1 } else { pv.len() as int }),
            i <= count,
            r@.map_values(|w: Vec<char>| w@) == lines_of(s@).take(i as int),
        decreases count - i,
    {
        let piece = p[i].as_slice();
        let mut line: Vec<char> = Vec::new();
        let mut end = piece.len();
        if i + 1 < p.len() && end > 0 && piece[end - 1] == '\r' {
            end = end - 1;
        }
        let ghost cut = (i + 1 < pv.len() && piece@.len() > 0 && piece@.last() == '\r');
        assert(end == (if cut { piece@.len() - 1 } else { piece@.len() as int }));
        let mut k: usize = 0;
        while k < end
            invariant
                end <= piece@.len(),
                k <= end,
                line@ == piece@.take(k as int),
            decreases end - k,
        {
            line.push(piece[k]);
            k = k + 1;
            assert(line@ =~= piece@.take(k as int));
        }
        assert(piece@ == pv[i as int]);
        assert(p@.len() == pv.len());
        assert(piece@.take(piece@.len() as int) =~= piece@);
        assert(piece@.len() > 0 ==> piece@.take(piece@.len() - 1) =~= piece@.drop_last());
        assert(line@ == lines_of(s@)[i as int]);
        let ghost before = r@;
        let ghost text = line@;
        r.push(line);
        assert(r@.map_values(|w: Vec<char>| w@) =~= before.map_values(|w: Vec<char>| w@).push(
            text,
        ));
        assert(lines_of(s@).take(i as int + 1) =~= lines_of(s@).take(i as int).push(text));
        i = i + 1;
    }
    assert(lines_of(s@).take(count as int) =~= lines_of(s@));
    r
}

/// `s` without the white space at its start.
pub open spec fn trim_start(s: Seq<char>) -> Seq<char>
    decreases s.len(),
{
    if s.len() > 0 && is_space(s[0]) {
        trim_start(s.drop_first())
    } else {
        s
    }
}

/// `s` without the white space at its end.
pub open spec fn trim_end(s: Seq<char>) -> Seq<char>
    decreases s.len(),
{
    if s.len() > 0 && is_space(s.last()) {
        trim_end(s.drop_last())
    } else {
        s
    }
}

/// `s` without white space at either end (`str::trim`).
pub open spec fn trim(s: Seq<char>) -> Seq<char> {
    trim_end(trim_start(s))
}

/// `s` without white space at either end (`str::trim`).
pub fn trimmed(s: &[char]) -> (r: Vec<char>)
    ensures
        r@ == trim(s@),
{
    let mut a: usize = 0;
    assert(s@.skip(0) =~= s@);
    while a < s.len() && is_space_char(s[a])
        invariant
            a <= s@.len(),
            trim_start(s@) == trim_start(s@.skip(a as int)),
        decreases s@.len() - a,
    {
        assert(s@.skip(a as int).drop_first() =~= s@.skip(a as int + 1));
        a = a + 1;
    }
    assert(trim_start(s@) == s@.skip(a as int));
    let mut b: usize = s.len();
    while b > a && is_space_char(s[b - 1])
        invariant
            a <= b <= s@.len(),
            trim_start(s@) == s@.skip(a as int),
            trim(s@) == trim_end(s@.subrange(a as int, b as int)),
        decreases b,
    {
        assert(s@.subrange(a as int, b as int).drop_last() =~= s@.subrange(a as int, b - 1));
        b = b - 1;
    }
    assert(s@.skip(a as int) =~= s@.subrange(a as int, s@.len() as int));
    let mut r: Vec<char> = Vec::new();
    let mut k: usize = a;
    while k < b
        invariant
            a <= k <= b <= s@.len(),
            r@ == s@.subrange(a as int, k as int),
        decreases b - k,
    {
        r.push(s[k]);
        k = k + 1;
        assert(r@ =~= s@.subrange(a as int, k as int));
    }
    r
}

/// Whether `s` begins with `prefix`.
pub open spec fn starts_with(s: Seq<char>, prefix: Seq<char>) -> bool {
    prefix.len() <= s.len() && s.take(prefix.len() as int) == prefix
}

/// Whether `s` begins with the characters of `prefix`.
pub fn has_prefix(s: &[char], prefix: &str) -> (b: bool)
    ensures
        b == starts_with(s@, prefix@),
{
    let p = crate::text::chars_of(prefix);
    if p.len() > s.len() {
        return false;
    }
    let mut i: usize = 0;
    while i < p.len()
        invariant
            p@ == prefix@,
            p@.len() <= s@.len(),
            i <= p@.len(),
            forall|j: int| 0 <= j < i ==> s@[j] == p@[j],
        decreases p@.len() - i,
    {
        if s[i] != p[i] {
            return false;
        }
        i = i + 1;
    }
    assert(s@.take(p@.len() as int) =~= p@);
    true
}

/// Texts joined with `sep` between them.
pub open spec fn joined_with(parts: Seq<Seq<char>>, sep: Seq<char>) -> Seq<char>
    decreases parts.len(),
{
    if parts.len() == 0 {
        Seq::empty()
    } else if parts.len() == 1 {
        parts[0]
    } else {
        joined_with(parts.drop_last(), sep) + sep + parts.last()
    }
}

/// Whether `c` is an ASCII decimal digit.
pub open spec fn is_digit(c: char) -> bool {
    '0' <= c <= '9'
}

/// The value of a run of decimal digits.
pub open spec fn digits_value(s: Seq<char>) -> nat
    decreases s.len(),
{
    if s.len() == 0 {
        0
    } else {
        digits_value(s.drop_last()) * 10 + (s.last() as nat - '0' as nat) as nat
    }
}

/// The digits of an unsigned number: the text without a leading `+`.
pub open spec fn unsigned_digits(s: Seq<char>) -> Seq<char> {
    if s.len() > 0 && s[0] == '+' {
        s.drop_first()
    } else {
        s
    }
}

/// What `str::parse` gives for an unsigned integer type whose largest value
/// is `max`: an optional `+` followed by at least one decimal digit and
/// nothing else, with a value not above `max`.
pub open spec fn parse_unsigned_spec(s: Seq<char>, max: nat) -> Option<nat> {
    let d = unsigned_digits(s);
    if d.len() > 0 && (forall|i: int| 0 <= i < d.len() ==> is_digit(#[trigger] d[i]))
        && digits_value(d) <= max {
        Some(digits_value(d))
    } else {
        None
    }
}

proof fn lemma_digits_value_grows(d: Seq<char>, i: int, j: int)
    requires
        0 <= i <= j <= d.len(),
        forall|k: int| 0 <= k < d.len() ==> is_digit(#[trigger] d[k]),
    ensures
        digits_value(d.take(i)) <= digits_value(d.take(j)),
    decreases j - i,
{
    if i < j {
        lemma_digits_value_grows(d, i, j - 1);
        assert(d.take(j).drop_last() =~= d.take(j - 1));
        assert(d.take(j).last() == d[j - 1]);
    }
}

/// The unsigned number that `s` spells, when it is one not above `max`
/// (`str::parse` for an unsigned type whose largest value is `max`).
pub fn parse_unsigned(s: &[char], max: u64) -> (r: Option<u64>)
    ensures
        match r {
            Some(v) => parse_unsigned_spec(s@, max as nat) == Some(v as nat),
            None => parse_unsigned_spec(s@, max as nat) is None,
        },
{
    let start: usize = if s.len() > 0 && s[0] == '+' {
        1
    } else {
        0
    };
    let ghost d = unsigned_digits(s@);
    assert(d =~= s@.skip(start as int));
    if start >= s.len() {
        return None;
    }
    let mut k: usize = start;
    while k < s.len()
        invariant
            start <= k <= s@.len(),
            d == s@.skip(start as int),
            d == unsigned_digits(s@),
            d.len() > 0,
            forall|j: int| 0 <= j < k - start ==> is_digit(#[trigger] d[j]),
        decreases s@.len() - k,
    {
        if !('0' <= s[k] && s[k] <= '9') {
            assert(!is_digit(d[k - start]));
            return None;
        }
        k = k + 1;
    }
    let mut v: u64 = 0;
    let mut i: usize = start;
    while i < s.len()
        invariant
            start <= i <= s@.len(),
            d == s@.skip(start as int),
            d == unsigned_digits(s@),
            d.len() > 0,
            forall|j: int| 0 <= j < d.len() ==> is_digit(#[trigger] d[j]),
            v as nat == digits_value(d.take(i - start)),
            v <= max,
        decreases s@.len() - i,
    {
        assert(d[i - start] == s@[i as int]);
        assert(is_digit(d[i - start]));
        let digit = (s[i] as u32 - '0' as u32) as u64;
        let ghost t = d.take(i - start + 1);
        assert(t.drop_last() =~= d.take(i - start));
        assert(t.last() == s@[i as int]);
        assert(digits_value(t) == v * 10 + digit);
        if digit > max || v > (max - digit) / 10 {
            proof {
                assert(v * 10 + digit > max) by (nonlinear_arith)
                    requires
                        digit > max || v > (max - digit) / 10,
                        max >= 0,
                        digit <= 9,
                ;
                lemma_digits_value_grows(d, i - start + 1, d.len() as int);
                assert(d.take(d.len() as int) =~= d);
            }
            return None;
        }
        assert(v * 10 + digit <= max) by (nonlinear_arith)
            requires
                v <= (max - digit) / 10,
                digit <= max,
        ;
        v = v * 10 + digit;
        i = i + 1;
    }
    assert(d.take(d.len() as int) =~= d);
    Some(v)
}

/// Whether two texts are the same.
pub fn same_text(a: &[char], b: &str) -> (r: bool)
    ensures
        r == (a@ == b@),
{
    let bc = crate::text::chars_of(b);
    if a.len() != bc.len() {
        return false;
    }
    let mut i: usize = 0;
    while i < a.len()
        invariant
            a@.len() == bc@.len(),
            bc@ == b@,
            i <= a@.len(),
            forall|j: int| 0 <= j < i ==> a@[j] == bc@[j],
        decreases a@.len() - i,
    {
        if a[i] != bc[i] {
            return false;
        }
        i = i + 1;
    }
    assert(a@ =~= bc@);
    true
}


/// Whether `w` is a single word: not empty, and without white space.
pub open spec fn is_word(w: Seq<char>) -> bool {
    w.len() > 0 && forall|i: int| 0 <= i < w.len() ==> !is_space(#[trigger] w[i])
}

/// White space at the end of a text adds no word.
pub proof fn lemma_words_push_space(p: Seq<char>, c: char)
    requires
        is_space(c),
    ensures
        words(p.push(c)) == words(p),
{
    assert(p.push(c).drop_last() =~= p);
}

/// A word written after white space (or at the start) is one more word.
pub proof fn lemma_words_append_word(p: Seq<char>, w: Seq<char>)
    requires
        p.len() == 0 || is_space(p.last()),
        is_word(w),
    ensures
        words(p + w) == words(p).push(w),
    decreases w.len(),
{
    let s = p + w;
    assert(s.last() == w.last());
    if w.len() == 1 {
        assert(s.drop_last() =~= p);
        assert(seq![w.last()] =~= w);
    } else {
        let v = w.drop_last();
        assert(s.drop_last() =~= p + v);
        lemma_words_append_word(p, v);
        assert(s[s.len() - 2] == w[w.len() - 2]);
        assert(words(p).push(v).last() == v);
        assert(v.push(w.last()) =~= w);
        assert(words(p).push(v).update(words(p).len() as int, w) =~= words(p).push(w));
    }
}

/// Words joined with single spaces are read back as those words.
pub proof fn lemma_words_joined(parts: Seq<Seq<char>>)
    requires
        forall|i: int| 0 <= i < parts.len() ==> is_word(#[trigger] parts[i]),
    ensures
        words(joined_with(parts, " "@)) == parts,
    decreases parts.len(),
{
    if parts.len() == 0 {
    } else if parts.len() == 1 {
        lemma_words_append_word(Seq::empty(), parts[0]);
        assert(Seq::<char>::empty() + parts[0] =~= parts[0]);
        assert(Seq::<Seq<char>>::empty().push(parts[0]) =~= parts);
    } else {
        let front = parts.drop_last();
        lemma_words_joined(front);
        let j = joined_with(front, " "@);
        lemma_words_push_space(j, ' ');
        reveal_strlit(" ");
        assert(j + " "@ =~= j.push(' '));
        lemma_words_append_word(j.push(' '), parts.last());
        assert(front.push(parts.last()) =~= parts);
    }
}

/// The decimal representation of `v` is a run of digits whose value is `v`.
pub proof fn lemma_decimal_digits(v: nat)
    ensures
        decimal(v).len() > 0,
        forall|i: int| 0 <= i < decimal(v).len() ==> is_digit(#[trigger] decimal(v)[i]),
        digits_value(decimal(v)) == v,
    decreases v,
{
    let last = if v < 10 { v as int } else { (v % 10) as int };
    assert(is_digit(digit_char(last)) && digit_char(last) as nat - '0' as nat == last);
    assert(decimal(v).last() == digit_char(last));
    assert(digits_value(decimal(v)) == digits_value(decimal(v).drop_last()) * 10 + last);
    if v >= 10 {
        lemma_decimal_digits(v / 10);
        let d = decimal(v / 10);
        assert(decimal(v).drop_last() =~= d);
        assert(forall|i: int| 0 <= i < d.len() ==> decimal(v)[i] == d[i]);
    } else {
        assert(decimal(v).drop_last() =~= Seq::<char>::empty());
    }
}

/// The decimal representation of a number is a word.
pub proof fn lemma_decimal_word(v: nat)
    ensures
        is_word(decimal(v)),
{
    lemma_decimal_digits(v);
    assert forall|i: int| 0 <= i < decimal(v).len() implies !is_space(#[trigger] decimal(v)[i]) by {
        assert(is_digit(decimal(v)[i]));
    }
}

/// Reading the decimal representation of a number not above `max` gives
/// that number back.
pub proof fn lemma_parse_decimal(v: nat, max: nat)
    requires
        v <= max,
    ensures
        parse_unsigned_spec(decimal(v), max) == Some(v),
{
    lemma_decimal_digits(v);
    assert(is_digit(decimal(v)[0]));
    assert(unsigned_digits(decimal(v)) == decimal(v));
}


/// Joining two non-empty lists of texts one after the other is joining each
/// and putting the separator between them.
pub proof fn lemma_joined_concat(p: Seq<Seq<char>>, q: Seq<Seq<char>>, sep: Seq<char>)
    requires
        p.len() > 0,
        q.len() > 0,
    ensures
        joined_with(p + q, sep) == joined_with(p, sep) + sep + joined_with(q, sep),
    decreases q.len(),
{
    let pq = p + q;
    assert(pq.last() == q.last());
    if q.len() == 1 {
        assert(pq.drop_last() =~= p);
    } else {
        assert(pq.drop_last() =~= p + q.drop_last());
        lemma_joined_concat(p, q.drop_last(), sep);
        assert(joined_with(p + q.drop_last(), sep) + sep + q.last() =~= joined_with(p, sep) + sep
            + (joined_with(q.drop_last(), sep) + sep + q.last()));
    }
}


/// Two words written one after the other make one word.
pub proof fn lemma_word_concat(a: Seq<char>, b: Seq<char>)
    requires
        is_word(a),
        is_word(b),
    ensures
        is_word(a + b),
{
    assert forall|i: int| 0 <= i < (a + b).len() implies !is_space(#[trigger] (a + b)[i]) by {
        if i < a.len() {
            assert((a + b)[i] == a[i]);
        } else {
            assert((a + b)[i] == b[i - a.len()]);
        }
    }
}

/// Text without `sep` written after `p` extends the last piece of `p`.
pub proof fn lemma_pieces_append(p: Seq<char>, w: Seq<char>, sep: char)
    requires
        forall|i: int| 0 <= i < w.len() ==> #[trigger] w[i] != sep,
    ensures
        pieces(p + w, sep) == pieces(p, sep).drop_last().push(pieces(p, sep).last() + w),
    decreases w.len(),
{
    lemma_pieces_nonempty(p, sep);
    let ps = pieces(p, sep);
    if w.len() == 0 {
        assert(p + w =~= p);
        assert(ps.last() + w =~= ps.last());
        assert(ps.drop_last().push(ps.last()) =~= ps);
    } else {
        let v = w.drop_last();
        assert((p + w).drop_last() =~= p + v);
        assert((p + w).last() == w.last());
        lemma_pieces_append(p, v, sep);
        assert((ps.last() + v).push(w.last()) =~= ps.last() + w);
        assert(ps.drop_last().push(ps.last() + v).update(ps.len() - 1, ps.last() + w)
            =~= ps.drop_last().push(ps.last() + w));
    }
}

/// Texts without `sep`, joined with `sep`, are read back as those texts.
pub proof fn lemma_pieces_joined(parts: Seq<Seq<char>>, sep: char)
    requires
        parts.len() > 0,
        forall|k: int, i: int|
            0 <= k < parts.len() && 0 <= i < parts[k].len() ==> #[trigger] parts[k][i] != sep,
    ensures
        pieces(joined_with(parts, seq![sep]), sep) == parts,
    decreases parts.len(),
{
    if parts.len() == 1 {
        assert(forall|i: int| 0 <= i < parts[0].len() ==> parts[0][i] != sep);
        lemma_pieces_append(Seq::empty(), parts[0], sep);
        assert(Seq::<char>::empty() + parts[0] =~= parts[0]);
        assert(Seq::<char>::empty() + parts[0] =~= parts[0]);
        assert(pieces(Seq::<char>::empty(), sep).drop_last().push(Seq::<char>::empty() + parts[0])
            =~= parts);
    } else {
        let front = parts.drop_last();
        let w = parts.last();
        assert(forall|i: int| 0 <= i < w.len() ==> w[i] == parts[parts.len() - 1][i]);
        assert forall|k: int, i: int| 0 <= k < front.len() && 0 <= i < front[k].len() implies #[trigger] front[k][i] != sep by {
            assert(front[k] == parts[k]);
        }
        lemma_pieces_joined(front, sep);
        let j = joined_with(front, seq![sep]);
        assert(j + seq![sep] =~= j.push(sep));
        lemma_pieces_append(j.push(sep), w, sep);
        assert(j.push(sep).drop_last() =~= j);
        assert(pieces(j.push(sep), sep) == front.push(Seq::empty()));
        assert(front.push(Seq::<char>::empty()).drop_last() =~= front);
        assert(Seq::<char>::empty() + w =~= w);
        assert(joined_with(parts, seq![sep]) == j + seq![sep] + w);
        assert(front.push(w) =~= parts);
    }
}


/// Lines written one after the other, each followed by a line feed.
pub open spec fn with_newlines(ls: Seq<Seq<char>>) -> Seq<char>
    decreases ls.len(),
{
    if ls.len() == 0 {
        Seq::empty()
    } else {
        with_newlines(ls.drop_last()) + ls.last() + "\n"@
    }
}

/// Whether `l` holds no line feed.
pub open spec fn no_newline(l: Seq<char>) -> bool {
    forall|i: int| 0 <= i < l.len() ==> #[trigger] l[i] != '\n'
}

/// Writing two lists of lines is writing one after the other.
pub proof fn lemma_with_newlines_concat(a: Seq<Seq<char>>, b: Seq<Seq<char>>)
    ensures
        with_newlines(a + b) == with_newlines(a) + with_newlines(b),
    decreases b.len(),
{
    if b.len() == 0 {
        assert(a + b =~= a);
        assert(with_newlines(a) + Seq::<char>::empty() =~= with_newlines(a));
    } else {
        assert((a + b).drop_last() =~= a + b.drop_last());
        assert((a + b).last() == b.last());
        lemma_with_newlines_concat(a, b.drop_last());
        assert(with_newlines(a) + with_newlines(b.drop_last()) + b.last() + "\n"@ =~= with_newlines(
            a,
        ) + (with_newlines(b.drop_last()) + b.last() + "\n"@));
    }
}

/// Lines without line feeds, each followed by one, are read back as those
/// lines, each without a carriage return at its end.
pub proof fn lemma_lines_with_newlines(ls: Seq<Seq<char>>)
    requires
        forall|k: int| 0 <= k < ls.len() ==> no_newline(#[trigger] ls[k]),
    ensures
        pieces(with_newlines(ls), '\n') == ls.push(Seq::empty()),
        lines_of(with_newlines(ls)) == ls.map_values(|l: Seq<char>| strip_cr(l)),
    decreases ls.len(),
{
    reveal_strlit("\n");
    if ls.len() > 0 {
        let front = ls.drop_last();
        let l = ls.last();
        assert forall|k: int| 0 <= k < front.len() implies no_newline(#[trigger] front[k]) by {
            assert(front[k] == ls[k]);
        }
        lemma_lines_with_newlines(front);
        let x = with_newlines(front);
        assert(no_newline(ls[ls.len() - 1]));
        lemma_pieces_append(x, l, '\n');
        assert(Seq::<char>::empty() + l =~= l);
        assert(front.push(Seq::<char>::empty()).drop_last() =~= front);
        assert(x + l + "\n"@ =~= (x + l).push('\n'));
        assert((x + l).push('\n').drop_last() =~= x + l);
        assert(front.push(l) =~= ls);
    }
    let p = pieces(with_newlines(ls), '\n');
    assert(p.last().len() == 0);
    assert(lines_of(with_newlines(ls)) =~= ls.map_values(|l: Seq<char>| strip_cr(l)));
}


/// Whether `s` holds neither a line feed nor a carriage return.
pub open spec fn no_line_end(s: Seq<char>) -> bool {
    forall|i: int| 0 <= i < s.len() ==> #[trigger] s[i] != '\n' && s[i] != '\r'
}

/// A word holds no line end.
pub proof fn lemma_word_no_line_end(w: Seq<char>)
    requires
        is_word(w),
    ensures
        no_line_end(w),
{
    assert forall|i: int| 0 <= i < w.len() implies #[trigger] w[i] != '\n' && w[i] != '\r' by {
        assert(!is_space(w[i]));
    }
}

/// Two texts without line ends, one after the other, hold no line end.
pub proof fn lemma_concat_no_line_end(a: Seq<char>, b: Seq<char>)
    requires
        no_line_end(a),
        no_line_end(b),
    ensures
        no_line_end(a + b),
{
    assert forall|i: int| 0 <= i < (a + b).len() implies #[trigger] (a + b)[i] != '\n' && (a + b)[i]
        != '\r' by {
        if i < a.len() {
            assert((a + b)[i] == a[i]);
        } else {
            assert((a + b)[i] == b[i - a.len()]);
        }
    }
}

/// Words joined with a separator without line ends hold no line end.
pub proof fn lemma_joined_no_line_end(parts: Seq<Seq<char>>, sep: Seq<char>)
    requires
        forall|k: int| 0 <= k < parts.len() ==> is_word(#[trigger] parts[k]),
        no_line_end(sep),
    ensures
        no_line_end(joined_with(parts, sep)),
    decreases parts.len(),
{
    if parts.len() == 1 {
        lemma_word_no_line_end(parts[0]);
    } else if parts.len() > 1 {
        let front = parts.drop_last();
        assert(forall|k: int| 0 <= k < front.len() ==> front[k] == parts[k]);
        lemma_joined_no_line_end(front, sep);
        assert(is_word(parts[parts.len() - 1]));
        lemma_word_no_line_end(parts.last());
        lemma_concat_no_line_end(joined_with(front, sep), sep);
        lemma_concat_no_line_end(joined_with(front, sep) + sep, parts.last());
    }
}


/// No piece holds the separator.
pub proof fn lemma_pieces_no_sep(s: Seq<char>, sep: char)
    ensures
        forall|k: int, i: int|
            0 <= k < pieces(s, sep).len() && 0 <= i < pieces(s, sep)[k].len() ==> #[trigger] pieces(
                s,
                sep,
            )[k][i] != sep,
    decreases s.len(),
{
    if s.len() > 0 {
        lemma_pieces_no_sep(s.drop_last(), sep);
        lemma_pieces_nonempty(s.drop_last(), sep);
        let before = pieces(s.drop_last(), sep);
        let p = pieces(s, sep);
        assert forall|k: int, i: int| 0 <= k < p.len() && 0 <= i < p[k].len() implies #[trigger] p[k][i]
            != sep by {
            if s.last() == sep {
                if k < before.len() {
                    assert(p[k] == before[k]);
                }
            } else if k < before.len() - 1 {
                assert(p[k] == before[k]);
            } else {
                assert(p[k] == before.last().push(s.last()));
                if i < before.last().len() {
                    assert(p[k][i] == before[before.len() - 1][i]);
                }
            }
        }
    }
}

/// No line holds a line feed.
pub proof fn lemma_lines_no_newline(s: Seq<char>)
    ensures
        forall|k: int| 0 <= k < lines_of(s).len() ==> no_newline(#[trigger] lines_of(s)[k]),
{
    lemma_pieces_no_sep(s, '\n');
    let p = pieces(s, '\n');
    assert forall|k: int| 0 <= k < lines_of(s).len() implies no_newline(#[trigger] lines_of(s)[k]) by {
        let l = lines_of(s)[k];
        lemma_pieces_nonempty(s, '\n');
        assert(k < p.len());
        let q = p[k];
        assert(l == q || l == q.drop_last());
        assert forall|i: int| 0 <= i < l.len() implies #[trigger] l[i] != '\n' by {
            assert(l[i] == q[i]);
        }
    }
}

/// Lines joined with CR LF and ended by one are those lines, each with a
/// carriage return, each followed by a line feed.
pub proof fn lemma_joined_crlf(ls: Seq<Seq<char>>)
    requires
        ls.len() > 0,
    ensures
        joined_with(ls, "\r\n"@) + "\r\n"@ == with_newlines(
            ls.map_values(|l: Seq<char>| l.push('\r')),
        ),
    decreases ls.len(),
{
    reveal_strlit("\r\n");
    reveal_strlit("\n");
    let m = ls.map_values(|l: Seq<char>| l.push('\r'));
    assert(m.drop_last() =~= ls.drop_last().map_values(|l: Seq<char>| l.push('\r')));
    if ls.len() == 1 {
        assert(m.drop_last() =~= Seq::<Seq<char>>::empty());
        assert(with_newlines(m.drop_last()) == Seq::<char>::empty());
        assert(joined_with(ls, "\r\n"@) + "\r\n"@ =~= Seq::<char>::empty() + m.last() + "\n"@);
    } else {
        lemma_joined_crlf(ls.drop_last());
        assert(joined_with(ls, "\r\n"@) + "\r\n"@ =~= joined_with(ls.drop_last(), "\r\n"@)
            + "\r\n"@ + m.last() + "\n"@);
    }
}


/// A line with the line feed that ends it replaced by CR LF.
pub open spec fn crlf(line: Seq<char>) -> Seq<char> {
    line.drop_last() + "\r\n"@
}

/// Appends a line with the line feed that ends it replaced by CR LF.
pub fn push_crlf_line(s: &mut String, line: &str)
    requires
        line@.len() > 0,
    ensures
        final(s)@ == old(s)@ + crlf(line@),
{
    let chars = crate::text::chars_of(line);
    let n = chars.len() - 1;
    crate::text::push_chars(s, &chars.as_slice()[0..n]);
    crate::text::push_str(s, "\r\n");
    assert(chars@.subrange(0, n as int) =~= line@.drop_last());
}

} // verus!
