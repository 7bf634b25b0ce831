//! Download progress reported by yt-dlp through the `[nex]` progress template.
use vstd::prelude::*;
use crate::text::{
    all_digits, chars_eq, chars_of, digit_value, digits_value, eq_ignore_case, eq_ignore_case_chars,
    find_chars_from, find_from, index_of, index_of_char, is_digit, is_digit_char, lemma_find_from_some,
    push_all, split_chars, split_on, string_of, sub_chars, trim, trim_chars,
};

verus! {

/// One progress report of a running download.
#[derive(Debug, Clone, Copy, PartialEq, Eq, Structural)]
pub struct DownloadProgress {
    pub downloaded_bytes: Option<u64>,
    pub total_bytes: Option<u64>,
    pub speed_bytes: Option<u64>,
    pub eta_seconds: Option<u64>,
}

/// Index of the first `e` or `E` in `s`, or `s.len()`.
pub open spec fn index_of_exp(s: Seq<char>) -> int
    decreases s.len(),
{
    if s.len() == 0 {
        0
    } else if s[0] == 'e' || s[0] == 'E' {
        0
    } else {
        1 + index_of_exp(s.drop_first())
    }
}

pub open spec fn has_sign(s: Seq<char>) -> bool {
    s.len() > 0 && (s[0] == '-' || s[0] == '+')
}

pub open spec fn unsigned_part(s: Seq<char>) -> Seq<char> {
    if has_sign(s) {
        s.drop_first()
    } else {
        s
    }
}

/// The decimal floating-point grammar of `f64::from_str` without its `inf` and `nan`
/// forms: `[+-]? (digits | digits '.' digits? | digits? '.' digits) ([eE] [+-]? digits)?`.
/// Gives the sign, the digits before and after the point, and the exponent.
pub open spec fn float_parts(t: Seq<char>) -> Option<(bool, Seq<char>, Seq<char>, int)> {
    let neg = t.len() > 0 && t[0] == '-';
    let body = unsigned_part(t);
    let ie = index_of_exp(body);
    let mant = body.take(ie);
    let dot = index_of(mant, '.');
    let ip = mant.take(dot);
    let fp = if dot < mant.len() {
        mant.skip(dot + 1)
    } else {
        Seq::<char>::empty()
    };
    let mant_ok = all_digits(ip) && all_digits(fp) && ip.len() + fp.len() > 0;
    if !mant_ok {
        None
    } else if ie == body.len() {
        Some((neg, ip, fp, 0))
    } else {
        let ex = body.skip(ie + 1);
        let ed = unsigned_part(ex);
        if ed.len() > 0 && all_digits(ed) {
            let mag = digits_value(ed) as int;
            Some((neg, ip, fp, if ex[0] == '-' { -mag } else { mag }))
        } else {
            None
        }
    }
}

/// The value of the first `k` digits of `a`, the missing ones taken as zeros.
pub open spec fn padded_value(a: Seq<char>, k: nat) -> nat
    decreases k,
{
    if k == 0 {
        0
    } else {
        padded_value(a, (k - 1) as nat) * 10 + if k - 1 < a.len() {
            digit_value(a[k - 1])
        } else {
            0
        }
    }
}

/// The digits `a` with the decimal point after `p` of them, rounded to the nearest
/// integer, halves away from zero.
pub open spec fn rounded_value(a: Seq<char>, p: int) -> nat {
    let whole = if p <= 0 {
        0
    } else {
        padded_value(a, p as nat)
    };
    let up = 0 <= p < a.len() && a[p] >= '5';
    whole + if up {
        1nat
    } else {
        0nat
    }
}

/// A progress field: empty, `NA` and `None` stand for no value; otherwise the field is a
/// decimal number, rounded to the nearest integer and saturated at `u64::MAX`; a negative
/// or malformed number gives no value.
pub open spec fn progress_number(s: Seq<char>) -> Option<u64> {
    let t = trim(s);
    if t.len() == 0 || eq_ignore_case(t, "na"@) || t == "None"@ {
        None
    } else {
        match float_parts(t) {
            None => None,
            Some((neg, ip, fp, e)) => {
                let a = ip + fp;
                if neg && digits_value(a) != 0 {
                    None
                } else if neg {
                    Some(0u64)
                } else {
                    let v = rounded_value(a, ip.len() + e);
                    Some(
                        if v > u64::MAX {
                            u64::MAX
                        } else {
                            v as u64
                        },
                    )
                }
            },
        }
    }
}

/// The text between the first `[nex]` marker of `line` and the next one (or the end).
pub open spec fn progress_payload(line: Seq<char>) -> Option<Seq<char>> {
    match find_from(line, "[nex]"@, 0) {
        None => None,
        Some(i) => {
            let rest = line.skip(i + "[nex]"@.len());
            match find_from(rest, "[nex]"@, 0) {
                Some(j) => Some(rest.take(j)),
                None => Some(rest),
            }
        },
    }
}

/// A `[nex]` progress line: downloaded, total, estimated total, speed and eta fields
/// separated by `|`; the total falls back to the estimate.
pub open spec fn progress_line(line: Seq<char>) -> Option<DownloadProgress> {
    match progress_payload(line) {
        None => None,
        Some(payload) => {
            let parts = split_on(payload, '|');
            if parts.len() < 5 {
                None
            } else {
                Some(
                    DownloadProgress {
                        downloaded_bytes: progress_number(parts[0]),
                        total_bytes: match progress_number(parts[1]) {
                            Some(v) => Some(v),
                            None => progress_number(parts[2]),
                        },
                        speed_bytes: progress_number(parts[3]),
                        eta_seconds: progress_number(parts[4]),
                    },
                )
            }
        },
    }
}

fn index_of_exp_chars(s: &[char]) -> (r: usize)
    ensures
        r == index_of_exp(s@),
        r <= s@.len(),
{
    let mut i: usize = 0;
    assert(s@.skip(0) =~= s@);
    while i < s.len() && s[i] != 'e' && s[i] != 'E'
        invariant
            i <= s@.len(),
            index_of_exp(s@) == i + index_of_exp(s@.skip(i as int)),
        decreases s@.len() - i,
    {
        proof {
            let t = s@.skip(i as int);
            assert(t.drop_first() =~= s@.skip(i + 1));
        }
        i = i + 1;
    }
    proof {
        let t = s@.skip(i as int);
        if i < s@.len() {
            assert(t[0] == s@[i as int]);
        }
    }
    i
}

fn all_digits_chars(s: &[char]) -> (r: bool)
    ensures
        r == all_digits(s@),
{
    let mut i: usize = 0;
    while i < s.len()
        invariant
            i <= s@.len(),
            forall|k: int| 0 <= k < i ==> #[trigger] is_digit(s@[k]),
        decreases s@.len() - i,
    {
        if !is_digit_char(s[i]) {
            return false;
        }
        i = i + 1;
    }
    true
}

/// Whether all the digits of `a` are zero.
fn all_zero_digits(a: &[char]) -> (r: bool)
    requires
        all_digits(a@),
    ensures
        r == (digits_value(a@) == 0),
{
    let mut i: usize = 0;
    while i < a.len()
        invariant
            i <= a@.len(),
            all_digits(a@),
            digits_value(a@.take(i as int)) == 0,
        decreases a@.len() - i,
    {
        proof {
            assert(a@.take(i + 1).drop_last() =~= a@.take(i as int));
            assert(is_digit(a@[i as int]));
        }
        if a[i] != '0' {
            proof {
                lemma_digits_prefix_le(a@, i + 1);
            }
            return false;
        }
        i = i + 1;
    }
    assert(a@.take(a@.len() as int) =~= a@);
    true
}

/// The value of a prefix of `a` is at most the value of `a` (all digits).
proof fn lemma_digits_prefix_le(a: Seq<char>, k: int)
    requires
        0 <= k <= a.len(),
        all_digits(a),
    ensures
        digits_value(a.take(k)) <= digits_value(a),
    decreases a.len() - k,
{
    if k < a.len() {
        lemma_digits_prefix_le(a, k + 1);
        assert(a.take(k + 1).drop_last() =~= a.take(k));
    } else {
        assert(a.take(k) =~= a);
    }
}

/// Magnitude of an exponent, saturated at `2^100`.
fn exponent_magnitude(d: &[char]) -> (r: i128)
    requires
        all_digits(d@),
    ensures
        0 <= r <= 0x10000000000000000000000000,
        r < 0x10000000000000000000000000 ==> r == digits_value(d@),
        r == 0x10000000000000000000000000 ==> digits_value(d@) >= 0x10000000000000000000000000,
{
    let cap: i128 = 0x10000000000000000000000000;
    let mut acc: i128 = 0;
    let mut i: usize = 0;
    while i < d.len()
        invariant
            i <= d@.len(),
            all_digits(d@),
            0 <= acc < cap,
            cap == 0x10000000000000000000000000,
            acc == digits_value(d@.take(i as int)),
        decreases d@.len() - i,
    {
        proof {
            assert(d@.take(i + 1).drop_last() =~= d@.take(i as int));
            assert(is_digit(d@[i as int]));
        }
        let dv = (d[i] as u32 - '0' as u32) as i128;
        let next = acc * 10 + dv;
        if next >= cap {
            proof {
                lemma_digits_prefix_le(d@, i + 1);
            }
            return cap;
        }
        acc = next;
        i = i + 1;
    }
    assert(d@.take(d@.len() as int) =~= d@);
    acc
}

proof fn lemma_padded_zero_stays(a: Seq<char>, k: nat, m: nat)
    requires
        k >= a.len(),
        k <= m,
        padded_value(a, k) == 0,
    ensures
        padded_value(a, m) == 0,
    decreases m - k,
{
    if m > k {
        lemma_padded_zero_stays(a, k, (m - 1) as nat);
    }
}

proof fn lemma_padded_mono(a: Seq<char>, k: nat, m: nat)
    requires
        k <= m,
    ensures
        padded_value(a, k) <= padded_value(a, m),
    decreases m - k,
{
    if m > k {
        lemma_padded_mono(a, k, (m - 1) as nat);
    }
}

proof fn lemma_padded_grows(a: Seq<char>, k: nat, m: nat)
    requires
        k >= a.len(),
        k <= m,
        padded_value(a, k) >= 1,
    ensures
        padded_value(a, m) >= padded_value(a, k) + (m - k),
    decreases m - k,
{
    if m > k {
        lemma_padded_grows(a, k, (m - 1) as nat);
        lemma_padded_mono(a, k, (m - 1) as nat);
    }
}

/// `padded_value(a, p)` saturated at `u64::MAX + 1`: `None` stands for "above `u64::MAX`".
fn padded_value_sat(a: &[char], p: i128) -> (r: Option<u64>)
    requires
        all_digits(a@),
        p >= 0,
    ensures
        match r {
            Some(v) => v == padded_value(a@, p as nat),
            None => padded_value(a@, p as nat) > u64::MAX,
        },
{
    let mut acc: u128 = 0;
    let mut k: i128 = 0;
    while k < p
        invariant
            0 <= k <= p,
            all_digits(a@),
            acc == padded_value(a@, k as nat),
            acc <= u64::MAX,
        decreases p - k,
    {
        if acc == 0 && k >= a.len() as i128 {
            proof {
                lemma_padded_zero_stays(a@, k as nat, p as nat);
            }
            return Some(0);
        }
        let d: u128 = if k < a.len() as i128 {
            let c = a[k as usize];
            proof {
                assert(is_digit(a@[k as int]));
            }
            (c as u32 - '0' as u32) as u128
        } else {
            0
        };
        let next = acc * 10 + d;
        if next > u64::MAX as u128 {
            proof {
                lemma_padded_mono(a@, (k + 1) as nat, p as nat);
            }
            return None;
        }
        acc = next;
        k = k + 1;
    }
    Some(acc as u64)
}

/// The parts of `t` under [`float_parts`], with the exponent saturated at `2^100`.
fn float_parts_exec(t: &[char]) -> (r: Option<(bool, Vec<char>, Vec<char>, i128)>)
    ensures
        match r {
            None => float_parts(t@) is None,
            Some((neg, ip, fp, e)) => {
                &&& float_parts(t@) is Some
                &&& float_parts(t@).unwrap().0 == neg
                &&& float_parts(t@).unwrap().1 == ip@
                &&& float_parts(t@).unwrap().2 == fp@
                &&& -0x10000000000000000000000000 <= e <= 0x10000000000000000000000000
                &&& {
                    let te = float_parts(t@).unwrap().3;
                    ||| e == te
                    ||| (e == 0x10000000000000000000000000 && te >= e)
                    ||| (e == -0x10000000000000000000000000 && te <= e)
                }
            },
        },
{
    let neg = t.len() > 0 && t[0] == '-';
    let signed = t.len() > 0 && (t[0] == '-' || t[0] == '+');
    let body = if signed {
        sub_chars(t, 1, t.len())
    } else {
        sub_chars(t, 0, t.len())
    };
    proof {
        assert(t@.subrange(0, t@.len() as int) =~= t@);
        assert(t@.subrange(1, t@.len() as int) =~= t@.drop_first());
    }
    let ie = index_of_exp_chars(&body);
    let mant = sub_chars(&body, 0, ie);
    let dot = index_of_char(&mant, '.');
    let ip = sub_chars(&mant, 0, dot);
    let fp = if dot < mant.len() {
        sub_chars(&mant, dot + 1, mant.len())
    } else {
        Vec::new()
    };
    proof {
        assert(body@.subrange(0, ie as int) =~= body@.take(ie as int));
        assert(mant@.subrange(0, dot as int) =~= mant@.take(dot as int));
        if dot < mant@.len() {
            assert(mant@.subrange(dot + 1, mant@.len() as int) =~= mant@.skip(dot + 1));
        } else {
            assert(fp@ =~= Seq::<char>::empty());
        }
    }
    if !(all_digits_chars(&ip) && all_digits_chars(&fp) && ip.len() + fp.len() > 0) {
        return None;
    }
    if ie == body.len() {
        return Some((neg, ip, fp, 0));
    }
    let ex = sub_chars(&body, ie + 1, body.len());
    let esigned = ex.len() > 0 && (ex[0] == '-' || ex[0] == '+');
    let ed = if esigned {
        sub_chars(&ex, 1, ex.len())
    } else {
        sub_chars(&ex, 0, ex.len())
    };
    proof {
        assert(body@.subrange(ie + 1, body@.len() as int) =~= body@.skip(ie + 1));
        assert(ex@.subrange(0, ex@.len() as int) =~= ex@);
        assert(ex@.subrange(1, ex@.len() as int) =~= ex@.drop_first());
    }
    if !(ed.len() > 0 && all_digits_chars(&ed)) {
        return None;
    }
    let mag = exponent_magnitude(&ed);
    let e = if ex[0] == '-' {
        -mag
    } else {
        mag
    };
    Some((neg, ip, fp, e))
}

/// `rounded_value(a, p)` saturated at `u64::MAX`, given `p` up to a saturation that
/// cannot change the result.
fn rounded_sat(a: &[char], p: i128, Ghost(true_p): Ghost<int>) -> (r: u64)
    requires
        all_digits(a@),
        p == true_p || (p >= 0x10000000000000000000000000 - 0x10000000000000000 && true_p >= p)
            || (p <= 0 && true_p <= 0 && (p == 0 <==> true_p == 0)),
    ensures
        r == (if rounded_value(a@, true_p) > u64::MAX {
            u64::MAX
        } else {
            rounded_value(a@, true_p) as u64
        }),
{
    let whole: Option<u64> = if p <= 0 {
        Some(0)
    } else {
        padded_value_sat(a, p)
    };
    let n = a.len();
    proof {
        if p > 0 && p != true_p {
            assert(a@.len() == n);
            if digits_value(a@) == 0 {
                lemma_zero_digits_padded(a@);
                lemma_padded_zero_stays(a@, a@.len(), p as nat);
                lemma_padded_zero_stays(a@, a@.len(), true_p as nat);
            } else {
                lemma_padded_at_len(a@);
                lemma_padded_grows(a@, a@.len(), p as nat);
                lemma_padded_grows(a@, a@.len(), true_p as nat);
            }
        }
    }
    let up: bool = 0 <= p && p < a.len() as i128 && a[p as usize] >= '5';
    match whole {
        None => u64::MAX,
        Some(w) => if up {
            if w == u64::MAX {
                u64::MAX
            } else {
                w + 1
            }
        } else {
            w
        },
    }
}

/// Parses one progress field; see [`progress_number`].
pub fn parse_progress_number(value: &str) -> (r: Option<u64>)
    ensures
        r == progress_number(value@),
{
    let raw = chars_of(value);
    let t = trim_chars(&raw);
    let na = chars_of("na");
    let none_word = chars_of("None");
    if t.len() == 0 || eq_ignore_case_chars(&t, &na) || chars_eq(&t, &none_word) {
        return None;
    }
    let (neg, ip, fp, e) = match float_parts_exec(&t) {
        None => return None,
        Some(parts) => parts,
    };
    let ghost true_e: int = float_parts(t@).unwrap().3;
    let mut a = ip.clone();
    push_all(&mut a, &fp);
    assert(a@ == ip@ + fp@);
    assert(all_digits(a@)) by {
        assert forall|i: int| 0 <= i < a@.len() implies #[trigger] is_digit(a@[i]) by {
            if i < ip@.len() {
                assert(a@[i] == ip@[i]);
            } else {
                assert(a@[i] == fp@[i - ip@.len()]);
            }
        }
    }
    if neg {
        if all_zero_digits(&a) {
            return Some(0);
        } else {
            return None;
        }
    }
    let p: i128 = ip.len() as i128 + e;
    Some(rounded_sat(&a, p, Ghost(ip@.len() + true_e)))
}

proof fn lemma_padded_at_len(a: Seq<char>)
    ensures
        padded_value(a, a.len()) == digits_value(a),
    decreases a.len(),
{
    if a.len() > 0 {
        lemma_padded_prefix(a.drop_last(), a, (a.len() - 1) as nat);
        lemma_padded_at_len(a.drop_last());
    }
}

/// The padded value of the first `k` digits depends only on those digits.
proof fn lemma_padded_prefix(b: Seq<char>, a: Seq<char>, k: nat)
    requires
        k <= b.len() <= a.len(),
        forall|i: int| 0 <= i < b.len() ==> b[i] == a[i],
    ensures
        padded_value(b, k) == padded_value(a, k),
    decreases k,
{
    if k > 0 {
        lemma_padded_prefix(b, a, (k - 1) as nat);
    }
}

proof fn lemma_zero_digits_padded(a: Seq<char>)
    requires
        digits_value(a) == 0,
    ensures
        padded_value(a, a.len()) == 0,
{
    lemma_padded_at_len(a);
}

/// Parses a `[nex]` progress line; see [`progress_line`].
pub fn parse_progress_line(line: &str) -> (r: Option<DownloadProgress>)
    ensures
        r == progress_line(line@),
{
    let lv = chars_of(line);
    let marker = chars_of("[nex]");
    let first = find_chars_from(&lv, &marker, 0);
    let i = match first {
        None => return None,
        Some(i) => i,
    };
    proof {
        lemma_find_from_some(lv@, marker@, 0);
    }
    let n = lv.len();
    assert(i + marker@.len() <= n);
    let rest = sub_chars(&lv, i + marker.len(), lv.len());
    assert(rest@ =~= lv@.skip(i + marker@.len()));
    let payload = match find_chars_from(&rest, &marker, 0) {
        Some(j) => {
            proof {
                lemma_find_from_some(rest@, marker@, 0);
            }
            let p = sub_chars(&rest, 0, j);
            assert(p@ =~= rest@.take(j as int));
            p
        },
        None => rest,
    };
    let parts = split_chars(&payload, '|');
    if parts.len() < 5 {
        return None;
    }
    let s0 = string_of(&parts[0]);
    let s1 = string_of(&parts[1]);
    let s2 = string_of(&parts[2]);
    let s3 = string_of(&parts[3]);
    let s4 = string_of(&parts[4]);
    let downloaded_bytes = parse_progress_number(s0.as_str());
    let total_raw = parse_progress_number(s1.as_str());
    let total_estimate = parse_progress_number(s2.as_str());
    let total_bytes = match total_raw {
        Some(v) => Some(v),
        None => total_estimate,
    };
    let speed_bytes = parse_progress_number(s3.as_str());
    let eta_seconds = parse_progress_number(s4.as_str());
    Some(DownloadProgress { downloaded_bytes, total_bytes, speed_bytes, eta_seconds })
}


/// The fields of a progress line are read in place: downloaded bytes, speed and ETA
/// from the first, fourth and fifth `|`-separated fields; the total from the second
/// wherever it holds a number, whatever the estimate (third field) holds, and from the
/// estimate only where the second holds none.
pub proof fn law_exact_total_wins_over_estimate(line: Seq<char>, payload: Seq<char>)
    requires
        progress_payload(line) == Some(payload),
        split_on(payload, '|').len() >= 5,
    ensures
        progress_line(line) matches Some(p) && {
            let fields = split_on(payload, '|');
            &&& p.downloaded_bytes == progress_number(fields[0])
            &&& (progress_number(fields[1]) matches Some(total) ==> p.total_bytes == Some(total))
            &&& (progress_number(fields[1]) is None ==> p.total_bytes == progress_number(fields[2]))
            &&& p.speed_bytes == progress_number(fields[3])
            &&& p.eta_seconds == progress_number(fields[4])
        },
{
}

} // verus!
