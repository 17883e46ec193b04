//! Line normalization and non-negative integer parsing.
//!
//! Player input arrives as raw lines. A line is normalized by trimming the
//! ASCII whitespace around it and folding ASCII uppercase letters to
//! lowercase; duration and count lines are trimmed and then read as decimal
//! numbers.

use vstd::prelude::*;

verus! {

/// The ASCII whitespace characters that trimming removes from the ends of a
/// line: space, tab, line feed, vertical tab, form feed, carriage return.
pub open spec fn is_blank(c: char) -> bool {
    c == ' ' || c == '\t' || c == '\n' || c == '\u{b}' || c == '\u{c}' || c == '\r'
}

/// ASCII case folding: `A`..`Z` map to `a`..`z`, every other character is
/// kept as it is.
pub open spec fn to_lower(c: char) -> char {
    if 'A' <= c && c <= 'Z' {
        ((c as u8) + 32) as char
    } else {
        c
    }
}

/// The sequence without its leading blanks.
pub open spec fn trim_front(s: Seq<char>) -> Seq<char>
    decreases s.len(),
{
    if s.len() > 0 && is_blank(s[0]) {
        trim_front(s.drop_first())
    } else {
        s
    }
}

/// The sequence without its trailing blanks.
pub open spec fn trim_back(s: Seq<char>) -> Seq<char>
    decreases s.len(),
{
    if s.len() > 0 && is_blank(s.last()) {
        trim_back(s.drop_last())
    } else {
        s
    }
}

/// The sequence without the blanks at either end.
pub open spec fn trim_spec(s: Seq<char>) -> Seq<char> {
    trim_back(trim_front(s))
}

/// Every character folded to lowercase.
pub open spec fn lower_all(s: Seq<char>) -> Seq<char> {
    s.map_values(|c: char| to_lower(c))
}

/// A normalized line: trimmed at both ends, then case-folded.
pub open spec fn normalize_spec(s: Seq<char>) -> Seq<char> {
    lower_all(trim_spec(s))
}

/// Exec mirror of [`to_lower`].
fn lower_char(c: char) -> (r: char)
    ensures
        r == to_lower(c),
{
    if 'A' <= c && c <= 'Z' {
        ((c as u8) + 32) as char
    } else {
        c
    }
}

/// Exec mirror of [`is_blank`].
fn blank_char(c: char) -> (r: bool)
    ensures
        r == is_blank(c),
{
    c == ' ' || c == '\t' || c == '\n' || c == '\u{b}' || c == '\u{c}' || c == '\r'
}

/// The characters of the line with the blanks at either end removed.
fn trim_chars(line: &str) -> (r: Vec<char>)
    ensures
        r@ == trim_spec(line@),
{
    let n: usize = line.unicode_len();
    proof {
        assert(line@.subrange(0, n as int) =~= line@);
    }
    let mut lo: usize = 0;
    while lo < n && blank_char(line.get_char(lo))
        invariant
            lo <= n,
            n == line@.len(),
            trim_front(line@) == trim_front(line@.subrange(lo as int, n as int)),
        decreases n - lo,
    {
        proof {
            assert(line@.subrange(lo as int, n as int).drop_first() =~= line@.subrange(
                lo as int + 1,
                n as int,
            ));
        }
        lo += 1;
    }
    proof {
        if lo == n {
            assert(line@.subrange(lo as int, n as int) =~= Seq::<char>::empty());
        }
        assert(trim_front(line@) == line@.subrange(lo as int, n as int));
    }
    let mut hi: usize = n;
    while hi > lo && blank_char(line.get_char(hi - 1))
        invariant
            lo <= hi <= n,
            n == line@.len(),
            trim_front(line@) == line@.subrange(lo as int, n as int),
            trim_spec(line@) == trim_back(line@.subrange(lo as int, hi as int)),
        decreases hi,
    {
        proof {
            assert(line@.subrange(lo as int, hi as int).drop_last() =~= line@.subrange(
                lo as int,
                hi as int - 1,
            ));
        }
        hi -= 1;
    }
    proof {
        if lo == hi {
            assert(line@.subrange(lo as int, hi as int) =~= Seq::<char>::empty());
        }
        assert(trim_spec(line@) == line@.subrange(lo as int, hi as int));
    }
    let mut r: Vec<char> = Vec::new();
    let mut i: usize = lo;
    while i < hi
        invariant
            lo <= i <= hi <= n,
            n == line@.len(),
            trim_spec(line@) == line@.subrange(lo as int, hi as int),
            r@ == line@.subrange(lo as int, i as int),
        decreases hi - i,
    {
        r.push(line.get_char(i));
        proof {
            assert(line@.subrange(lo as int, i as int + 1) =~= line@.subrange(
                lo as int,
                i as int,
            ).push(line@[i as int]));
        }
        i += 1;
    }
    r
}

/// The normalized form of the line: trimmed, then case-folded.
pub fn normalize(line: &str) -> (r: Vec<char>)
    ensures
        r@ == normalize_spec(line@),
{
    let t = trim_chars(line);
    let mut r: Vec<char> = Vec::new();
    let mut i: usize = 0;
    while i < t.len()
        invariant
            i <= t@.len(),
            t@ == trim_spec(line@),
            r@ == lower_all(t@.subrange(0, i as int)),
        decreases t@.len() - i,
    {
        r.push(lower_char(t[i]));
        proof {
            assert(lower_all(t@.subrange(0, i as int + 1)) =~= lower_all(
                t@.subrange(0, i as int),
            ).push(to_lower(t@[i as int])));
        }
        i += 1;
    }
    proof {
        assert(t@.subrange(0, t@.len() as int) =~= t@);
    }
    r
}

/// Whether the collected characters spell exactly the given token.
pub(crate) fn token_eq(v: &Vec<char>, token: &str) -> (r: bool)
    ensures
        r == (v@ == token@),
{
    let n: usize = token.unicode_len();
    if v.len() != n {
        return false;
    }
    let mut i: usize = 0;
    while i < n
        invariant
            i <= n,
            n == token@.len(),
            v@.len() == n,
            forall|j: int| 0 <= j < i ==> v@[j] == token@[j],
        decreases n - i,
    {
        if v[i] != token.get_char(i) {
            return false;
        }
        i += 1;
    }
    proof {
        assert(v@ =~= token@);
    }
    true
}

/// A decimal digit.
pub open spec fn is_digit(c: char) -> bool {
    '0' <= c && c <= '9'
}

/// The numeric value of a digit character.
pub open spec fn digit_val(c: char) -> int {
    c as int - '0' as int
}

/// Every character of the sequence is a decimal digit.
pub open spec fn all_digits(s: Seq<char>) -> bool {
    forall|i: int| 0 <= i < s.len() ==> is_digit(#[trigger] s[i])
}

/// The number the digit sequence denotes, most significant digit first.
pub open spec fn digits_val(s: Seq<char>) -> int
    decreases s.len(),
{
    if s.len() == 0 {
        0
    } else {
        digits_val(s.drop_last()) * 10 + digit_val(s.last())
    }
}

/// The sequence without one optional leading plus sign.
pub open spec fn strip_plus(s: Seq<char>) -> Seq<char> {
    if s.len() > 0 && s[0] == '+' {
        s.drop_first()
    } else {
        s
    }
}

/// Whether an already-trimmed line is accepted as a non-negative number:
/// an optional plus sign, then at least one digit, and a value that fits
/// in a `u64`.
pub open spec fn parse_ok(s: Seq<char>) -> bool {
    strip_plus(s).len() > 0 && all_digits(strip_plus(s)) && digits_val(strip_plus(s))
        <= u64::MAX
}

/// The value of an accepted line.
pub open spec fn parse_val(s: Seq<char>) -> int {
    digits_val(strip_plus(s))
}

/// What parsing makes of an already-trimmed line.
pub open spec fn parse_spec(s: Seq<char>) -> Option<u64> {
    if parse_ok(s) {
        Some(parse_val(s) as u64)
    } else {
        None
    }
}

/// A digit sequence denotes a non-negative number.
proof fn lemma_digits_val_nonneg(s: Seq<char>)
    requires
        all_digits(s),
    ensures
        digits_val(s) >= 0,
    decreases s.len(),
{
    if s.len() > 0 {
        assert(all_digits(s.drop_last())) by {
            assert(forall|i: int|
                0 <= i < s.len() - 1 ==> s.drop_last()[i] == #[trigger] s[i]);
        }
        lemma_digits_val_nonneg(s.drop_last());
    }
}

/// Reading more digits never makes the number smaller: the value of a prefix
/// is at most the value of the whole sequence.
proof fn lemma_digits_val_prefix_le(s: Seq<char>, i: int)
    requires
        all_digits(s),
        0 <= i <= s.len(),
    ensures
        digits_val(s.take(i)) <= digits_val(s),
    decreases s.len() - i,
{
    if i < s.len() {
        lemma_digits_val_prefix_le(s, i + 1);
        assert(s.take(i + 1).drop_last() =~= s.take(i));
        assert(s.take(i + 1).last() == s[i]);
        assert(all_digits(s.take(i))) by {
            assert(forall|j: int| 0 <= j < i ==> s.take(i)[j] == #[trigger] s[j]);
        }
        lemma_digits_val_nonneg(s.take(i));
        assert(digits_val(s.take(i)) <= digits_val(s.take(i)) * 10 + digit_val(s[i]));
    } else {
        assert(s.take(i) =~= s);
    }
}

/// Reads an already-trimmed sequence of characters as a non-negative decimal
/// number, exactly as [`parse_spec`] describes: `None` on an empty digit
/// part, on any non-digit character, and on overflow past `u64::MAX`.
fn digits_to_u64(t: &Vec<char>) -> (r: Option<u64>)
    ensures
        r == parse_spec(t@),
{
    let start: usize = if t.len() > 0 && t[0] == '+' {
        1
    } else {
        0
    };
    let ghost d = strip_plus(t@);
    proof {
        assert(d =~= t@.subrange(start as int, t@.len() as int));
    }
    if start == t.len() {
        return None;
    }
    let m: usize = t.len() - start;
    let mut acc: u64 = 0;
    let mut k: usize = 0;
    while k < m
        invariant
            k <= m,
            m == d.len(),
            start + m == t@.len(),
            d == t@.subrange(start as int, t@.len() as int),
            d == strip_plus(t@),
            all_digits(d.take(k as int)),
            acc == digits_val(d.take(k as int)),
        decreases m - k,
    {
        let c = t[start + k];
        assert(c == d[k as int]);
        if !(c >= '0' && c <= '9') {
            assert(!all_digits(d));
            return None;
        }
        let dv: u64 = (c as u8 - '0' as u8) as u64;
        proof {
            assert(d.take(k as int + 1).drop_last() =~= d.take(k as int));
            assert(d.take(k as int + 1).last() == d[k as int]);
        }
        if acc > (u64::MAX - dv) / 10 {
            proof {
                let x = (u64::MAX - dv) as int;
                assert(x == 10 * (x / 10) + x % 10 && 0 <= x % 10 < 10) by (nonlinear_arith);
                assert(acc * 10 >= (x / 10 + 1) * 10) by (nonlinear_arith)
                    requires
                        acc >= x / 10 + 1,
                ;
                assert(digits_val(d.take(k as int + 1)) > u64::MAX);
                assert(!parse_ok(t@)) by {
                    if all_digits(d) {
                        lemma_digits_val_prefix_le(d, k as int + 1);
                    }
                }
            }
            return None;
        }
        proof {
            let x = (u64::MAX - dv) as int;
            assert(x == 10 * (x / 10) + x % 10 && 0 <= x % 10 < 10) by (nonlinear_arith);
            assert(acc * 10 <= (x / 10) * 10) by (nonlinear_arith)
                requires
                    0 <= acc <= x / 10,
            ;
        }
        acc = acc * 10 + dv;
        k += 1;
    }
    proof {
        assert(d.take(m as int) =~= d);
    }
    Some(acc)
}

/// Two sequences that are the same up to ASCII case.
pub open spec fn case_like(s: Seq<char>, t: Seq<char>) -> bool {
    s.len() == t.len() && forall|i: int|
        0 <= i < s.len() ==> to_lower(#[trigger] s[i]) == to_lower(t[i])
}

/// Two characters with the same case folding are blank together: folding
/// never turns a letter into whitespace or whitespace into a letter.
proof fn lemma_to_lower_blank(a: char, b: char)
    requires
        to_lower(a) == to_lower(b),
    ensures
        is_blank(a) <==> is_blank(b),
{
}

proof fn lemma_trim_front_blank_prefix(p: Seq<char>, t: Seq<char>)
    requires
        forall|i: int| 0 <= i < p.len() ==> is_blank(#[trigger] p[i]),
    ensures
        trim_front(p + t) == trim_front(t),
    decreases p.len(),
{
    if p.len() == 0 {
        assert(p + t =~= t);
    } else {
        assert((p + t)[0] == p[0]);
        assert((p + t).drop_first() =~= p.drop_first() + t);
        assert forall|i: int| 0 <= i < p.drop_first().len() implies is_blank(
            #[trigger] p.drop_first()[i],
        ) by {
            assert(p.drop_first()[i] == p[i + 1]);
        }
        lemma_trim_front_blank_prefix(p.drop_first(), t);
    }
}

proof fn lemma_trim_back_blank_suffix(t: Seq<char>, q: Seq<char>)
    requires
        forall|i: int| 0 <= i < q.len() ==> is_blank(#[trigger] q[i]),
    ensures
        trim_back(t + q) == trim_back(t),
    decreases q.len(),
{
    if q.len() == 0 {
        assert(t + q =~= t);
    } else {
        assert((t + q).last() == q.last());
        assert((t + q).drop_last() =~= t + q.drop_last());
        assert forall|i: int| 0 <= i < q.drop_last().len() implies is_blank(
            #[trigger] q.drop_last()[i],
        ) by {
            assert(q.drop_last()[i] == q[i]);
        }
        lemma_trim_back_blank_suffix(t, q.drop_last());
    }
}

proof fn lemma_trim_front_concat(s: Seq<char>, q: Seq<char>)
    ensures
        trim_front(s + q) == (if trim_front(s).len() > 0 {
            trim_front(s) + q
        } else {
            trim_front(q)
        }),
    decreases s.len(),
{
    if s.len() == 0 {
        assert(s + q =~= q);
    } else if is_blank(s[0]) {
        assert((s + q)[0] == s[0]);
        assert((s + q).drop_first() =~= s.drop_first() + q);
        lemma_trim_front_concat(s.drop_first(), q);
    } else {
        assert((s + q)[0] == s[0]);
    }
}

/// Blanks at the ends do not matter: wrapping a line in whitespace leaves
/// its normalized form unchanged.
pub proof fn lemma_normalize_ignores_surrounding_blanks(
    p: Seq<char>,
    s: Seq<char>,
    q: Seq<char>,
)
    requires
        forall|i: int| 0 <= i < p.len() ==> is_blank(#[trigger] p[i]),
        forall|i: int| 0 <= i < q.len() ==> is_blank(#[trigger] q[i]),
    ensures
        normalize_spec(p + s + q) == normalize_spec(s),
{
    assert(p + s + q =~= p + (s + q));
    lemma_trim_front_blank_prefix(p, s + q);
    lemma_trim_front_concat(s, q);
    if trim_front(s).len() > 0 {
        lemma_trim_back_blank_suffix(trim_front(s), q);
    } else {
        assert(trim_front(s) =~= Seq::<char>::empty());
        lemma_trim_front_blank_prefix(q, Seq::<char>::empty());
        assert(q + Seq::<char>::empty() =~= q);
    }
}

proof fn lemma_trim_front_case(s: Seq<char>, t: Seq<char>)
    requires
        case_like(s, t),
    ensures
        case_like(trim_front(s), trim_front(t)),
    decreases s.len(),
{
    if s.len() > 0 {
        lemma_to_lower_blank(s[0], t[0]);
        if is_blank(s[0]) {
            assert forall|i: int| 0 <= i < s.drop_first().len() implies to_lower(
                #[trigger] s.drop_first()[i],
            ) == to_lower(t.drop_first()[i]) by {
                assert(s.drop_first()[i] == s[i + 1]);
                assert(t.drop_first()[i] == t[i + 1]);
            }
            lemma_trim_front_case(s.drop_first(), t.drop_first());
        }
    }
}

proof fn lemma_trim_back_case(s: Seq<char>, t: Seq<char>)
    requires
        case_like(s, t),
    ensures
        case_like(trim_back(s), trim_back(t)),
    decreases s.len(),
{
    if s.len() > 0 {
        lemma_to_lower_blank(s.last(), t.last());
        if is_blank(s.last()) {
            assert forall|i: int| 0 <= i < s.drop_last().len() implies to_lower(
                #[trigger] s.drop_last()[i],
            ) == to_lower(t.drop_last()[i]) by {
                assert(s.drop_last()[i] == s[i]);
                assert(t.drop_last()[i] == t[i]);
            }
            lemma_trim_back_case(s.drop_last(), t.drop_last());
        }
    }
}

/// Case does not matter: two lines whose characters fold alike normalize
/// to the same sequence.
pub proof fn lemma_normalize_case_insensitive(s: Seq<char>, t: Seq<char>)
    requires
        case_like(s, t),
    ensures
        normalize_spec(s) == normalize_spec(t),
{
    lemma_trim_front_case(s, t);
    lemma_trim_back_case(trim_front(s), trim_front(t));
    assert(lower_all(trim_back(trim_front(s))) =~= lower_all(trim_back(trim_front(t))));
}

/// Reads a raw line as a non-negative decimal number: the line is trimmed,
/// then parsed per [`parse_spec`].
pub fn parse_u64(line: &str) -> (r: Option<u64>)
    ensures
        r == parse_spec(trim_spec(line@)),
{
    let t = trim_chars(line);
    digits_to_u64(&t)
}

} // verus!
