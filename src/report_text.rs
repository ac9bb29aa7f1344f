//! The report grammar written out: the text of a record, and the law that
//! parsing that text gives the record back.
use vstd::prelude::*;
use crate::node::{
    after_key, decimal_at, decimal_then, keyed_decimal, keyed_pair, parse_spec, pow10, token_bytes,
    u32_at, uint_at, Decimal, NodeHistoryLog, Token,
};
use crate::scan::{contains, digits_end, digits_value, find_from, is_digit, occurs_at};

verus! {

/// The last `len` decimal digits of `n`, zero-padded, most significant first.
pub open spec fn digits_of(n: nat, len: nat) -> Seq<u8>
    decreases len,
{
    if len == 0 {
        Seq::empty()
    } else {
        digits_of(n / 10, (len - 1) as nat).push((48 + n % 10) as u8)
    }
}

/// The number of digits of `n` written without leading zeros.
pub open spec fn num_digits(n: nat) -> nat
    decreases n,
{
    if n < 10 {
        1
    } else {
        1 + num_digits(n / 10)
    }
}

pub open spec fn uint_text(n: nat) -> Seq<u8> {
    digits_of(n, num_digits(n))
}

/// A decimal as the log writes it: the whole part, then, when there are
/// fractional digits, a point and exactly `frac_digits` of them.
pub open spec fn decimal_text(d: Decimal) -> Seq<u8> {
    if d.frac_digits == 0 {
        uint_text(d.whole as nat)
    } else {
        uint_text(d.whole as nat) + (seq![46u8] + digits_of(d.frac as nat, d.frac_digits as nat))
    }
}

pub open spec fn space() -> Seq<u8> {
    seq![32u8]
}

/// `; msgs: `
pub open spec fn msgs_sep() -> Seq<u8> {
    seq![59u8, 32u8, 109u8, 115u8, 103u8, 115u8, 58u8, 32u8]
}

/// `, `
pub open spec fn comma_sep() -> Seq<u8> {
    seq![44u8, 32u8]
}

#[verifier::opaque]
pub open spec fn seg_dec(d: Decimal, suffix: Token, rest: Seq<u8>) -> Seq<u8> {
    decimal_text(d) + (token_bytes(suffix) + rest)
}

#[verifier::opaque]
pub open spec fn seg_keyed_dec(
    sep: Seq<u8>,
    key: Token,
    d: Decimal,
    suffix: Token,
    rest: Seq<u8>,
) -> Seq<u8> {
    sep + (token_bytes(key) + seg_dec(d, suffix, rest))
}

#[verifier::opaque]
pub open spec fn seg_keyed_u32(sep: Seq<u8>, key: Token, n: u32, rest: Seq<u8>) -> Seq<u8> {
    sep + (token_bytes(key) + (uint_text(n as nat) + rest))
}

#[verifier::opaque]
pub open spec fn seg_pair(sep: Seq<u8>, key: Token, a: u32, b: u32, rest: Seq<u8>) -> Seq<u8> {
    sep + (token_bytes(key) + (uint_text(a as nat) + (token_bytes(Token::Slash) + (uint_text(
        b as nat,
    ) + rest))))
}

pub open spec fn rt8(r: NodeHistoryLog) -> Seq<u8> {
    seg_pair(comma_sep(), Token::Validations, r.validations_in, r.validations_out, Seq::empty())
}

pub open spec fn rt7(r: NodeHistoryLog) -> Seq<u8> {
    seg_pair(comma_sep(), Token::Accepts, r.accepts_in, r.accepts_out, rt8(r))
}

pub open spec fn rt6(r: NodeHistoryLog) -> Seq<u8> {
    seg_pair(msgs_sep(), Token::Offers, r.offers_in, r.offers_out, rt7(r))
}

pub open spec fn rt5(r: NodeHistoryLog) -> Seq<u8> {
    seg_keyed_dec(space(), Token::Disk, r.disk_usage, Token::Mb, rt6(r))
}

pub open spec fn rt4(r: NodeHistoryLog) -> Seq<u8> {
    seg_keyed_u32(space(), Token::Count, r.count, rt5(r))
}

pub open spec fn rt3(r: NodeHistoryLog) -> Seq<u8> {
    seg_dec(r.content_total, Token::Mb, rt4(r))
}

pub open spec fn rt2(r: NodeHistoryLog) -> Seq<u8> {
    seg_keyed_dec(space(), Token::Content, r.content_current, Token::Slash, rt3(r))
}

/// The report fragment of a record, as the worker writes it:
/// `radius=R% content=C/Tmb #=N disk=Dmb; msgs: offers=A/B, accepts=A/B, validations=A/B`.
pub open spec fn report_text(r: NodeHistoryLog) -> Seq<u8> {
    seg_keyed_dec(Seq::empty(), Token::Radius, r.radius, Token::Percent, rt2(r))
}

/// Every decimal of the record can be written: its fraction has no more
/// digits than it declares.
pub open spec fn record_wf(r: NodeHistoryLog) -> bool {
    r.radius.wf() && r.content_current.wf() && r.content_total.wf() && r.disk_usage.wf()
}

pub open spec fn suf(s: Seq<u8>, p: int) -> Seq<u8> {
    s.subrange(p, s.len() as int)
}

/// A text that does not continue the number in front of it.
pub open spec fn ends_number(rest: Seq<u8>) -> bool {
    rest.len() == 0 || !is_digit(rest[0])
}

proof fn lemma_lit(s: Seq<u8>, p: int, t: Seq<u8>, rest: Seq<u8>)
    requires
        0 <= p <= s.len(),
        suf(s, p) == t + rest,
    ensures
        occurs_at(s, p, t),
        suf(s, p + t.len()) == rest,
        p + t.len() == s.len() - rest.len(),
{
    let u = s.subrange(p, s.len() as int);
    assert(u.len() == t.len() + rest.len());
    let q = p + t.len();
    let w = s.subrange(p, q);
    assert forall|k: int| 0 <= k < t.len() implies w[k] == t[k] by {
        assert(w[k] == s[p + k]);
        assert(u[k] == s[p + k]);
        assert(u[k] == (t + rest)[k]);
    }
    assert(w =~= t);
    let v = s.subrange(q, s.len() as int);
    assert forall|k: int| 0 <= k < rest.len() implies v[k] == rest[k] by {
        let m = t.len() + k;
        assert(v[k] == s[q + k]);
        assert(u[m] == s[p + m]);
        assert(u[m] == (t + rest)[m]);
    }
    assert(v =~= rest);
}

proof fn lemma_find(s: Seq<u8>, p: int, sep: Seq<u8>, key: Seq<u8>, rest: Seq<u8>)
    requires
        0 <= p <= s.len(),
        suf(s, p) == sep + (key + rest),
        key.len() >= 1,
        forall|j: int| 0 <= j < sep.len() ==> sep[j] != key[0],
    ensures
        find_from(s, p, key) == Some(p + sep.len()),
    decreases sep.len(),
{
    if sep.len() == 0 {
        assert(sep + (key + rest) =~= key + rest);
        lemma_lit(s, p, key, rest);
    } else {
        let u = s.subrange(p, s.len() as int);
        let whole = sep + (key + rest);
        assert(u == whole);
        assert(u.len() == whole.len());
        assert(u.len() == s.len() - p);
        assert(u[0] == s[p]);
        assert(u[0] == whole[0]);
        if occurs_at(s, p, key) {
            assert(s.subrange(p, p + key.len())[0] == s[p]);
        }
        let v = s.subrange(p + 1, s.len() as int);
        let tail = sep.drop_first() + (key + rest);
        assert(v.len() == s.len() - p - 1);
        assert(tail.len() == whole.len() - 1);
        assert forall|k: int| 0 <= k < v.len() implies v[k] == tail[k] by {
            assert(v[k] == s[p + 1 + k]);
            assert(u[k + 1] == s[p + (k + 1)]);
            assert(u[k + 1] == whole[k + 1]);
        }
        assert(v =~= tail);
        lemma_find(s, p + 1, sep.drop_first(), key, rest);
    }
}

proof fn lemma_digits_of_shape(n: nat, len: nat)
    ensures
        digits_of(n, len).len() == len,
        forall|k: int| 0 <= k < len ==> is_digit(#[trigger] digits_of(n, len)[k]),
    decreases len,
{
    if len > 0 {
        lemma_digits_of_shape(n / 10, (len - 1) as nat);
        let prev = digits_of(n / 10, (len - 1) as nat);
        assert(digits_of(n, len) == prev.push((48 + n % 10) as u8));
        assert forall|k: int| 0 <= k < len implies is_digit(#[trigger] digits_of(n, len)[k]) by {
            if k < len - 1 {
                assert(digits_of(n, len)[k] == prev[k]);
            }
        }
    }
}

proof fn lemma_num_digits(n: nat)
    ensures
        num_digits(n) >= 1,
        n < pow10(num_digits(n)),
    decreases n,
{
    assert(pow10(0) == 1);
    assert(pow10(1) == 10);
    if n >= 10 {
        lemma_num_digits(n / 10);
        let k = num_digits(n / 10);
        assert(pow10(k + 1) == 10 * pow10(k));
        assert(num_digits(n) == k + 1);
        assert(n == 10 * (n / 10) + n % 10);
        assert(n % 10 < 10);
        assert(n < 10 * pow10(k));
    }
}

proof fn lemma_digits_end_run(s: Seq<u8>, p: int, e: int)
    requires
        0 <= p <= e <= s.len(),
        forall|q: int| p <= q < e ==> is_digit(s[q]),
        e == s.len() || !is_digit(s[e]),
    ensures
        digits_end(s, p) == e,
    decreases e - p,
{
    if p < e {
        lemma_digits_end_run(s, p + 1, e);
    }
}

proof fn lemma_digits_value(s: Seq<u8>, p: int, n: nat, len: nat)
    requires
        0 <= p,
        p + len <= s.len(),
        forall|k: int| 0 <= k < len ==> s[p + k] == #[trigger] digits_of(n, len)[k],
        n < pow10(len),
    ensures
        digits_value(s, p, p + len) == n,
    decreases len,
{
    if len > 0 {
        let prev = digits_of(n / 10, (len - 1) as nat);
        lemma_digits_of_shape(n / 10, (len - 1) as nat);
        assert(digits_of(n, len) == prev.push((48 + n % 10) as u8));
        assert forall|k: int| 0 <= k < len - 1 implies s[p + k] == #[trigger] prev[k] by {
            assert(digits_of(n, len)[k] == prev[k]);
            assert(s[p + k] == digits_of(n, len)[k]);
        }
        assert(s[p + len - 1] == digits_of(n, len)[len - 1]);
        lemma_digits_value(s, p, n / 10, (len - 1) as nat);
    }
}

proof fn lemma_digits(s: Seq<u8>, p: int, n: nat, len: nat, rest: Seq<u8>)
    requires
        0 <= p <= s.len(),
        suf(s, p) == digits_of(n, len) + rest,
        n < pow10(len),
        ends_number(rest),
    ensures
        p + len == s.len() - rest.len(),
        digits_end(s, p) == p + len,
        digits_value(s, p, p + len) == n,
        suf(s, p + len) == rest,
{
    lemma_digits_of_shape(n, len);
    let t = digits_of(n, len);
    let u = s.subrange(p, s.len() as int);
    assert(u == t + rest);
    assert(u.len() == t.len() + rest.len());
    assert(u.len() == s.len() - p);
    assert forall|k: int| 0 <= k < len implies s[p + k] == #[trigger] t[k] by {
        assert(u[k] == s[p + k]);
        assert(u[k] == (t + rest)[k]);
    }
    if p + len < s.len() {
        assert(u[len as int] == s[p + len]);
        assert(u[len as int] == (t + rest)[len as int]);
        assert((t + rest)[len as int] == rest[0]);
    }
    assert forall|q: int| p <= q < p + len implies is_digit(s[q]) by {
        assert(s[p + (q - p)] == t[q - p]);
    }
    lemma_digits_end_run(s, p, p + len);
    lemma_digits_value(s, p, n, len);
    lemma_lit(s, p, t, rest);
}

proof fn lemma_uint(s: Seq<u8>, p: int, n: nat, rest: Seq<u8>)
    requires
        0 <= p <= s.len(),
        suf(s, p) == uint_text(n) + rest,
        n <= u64::MAX,
        ends_number(rest),
    ensures
        p <= s.len() - rest.len(),
        uint_at(s, p) == Some((n as u64, s.len() - rest.len())),
        suf(s, s.len() - rest.len()) == rest,
{
    lemma_num_digits(n);
    lemma_digits_of_shape(n, num_digits(n));
    lemma_digits(s, p, n, num_digits(n), rest);
    lemma_lit(s, p, uint_text(n), rest);
}

proof fn lemma_u32(s: Seq<u8>, p: int, n: u32, rest: Seq<u8>)
    requires
        0 <= p <= s.len(),
        suf(s, p) == uint_text(n as nat) + rest,
        ends_number(rest),
    ensures
        p <= s.len() - rest.len(),
        u32_at(s, p) == Some((n, s.len() - rest.len())),
        suf(s, s.len() - rest.len()) == rest,
{
    lemma_uint(s, p, n as nat, rest);
}

proof fn lemma_decimal(s: Seq<u8>, p: int, d: Decimal, rest: Seq<u8>)
    requires
        0 <= p <= s.len(),
        d.wf(),
        suf(s, p) == decimal_text(d) + rest,
        ends_number(rest),
        rest.len() > 0 ==> rest[0] != 46u8,
    ensures
        p <= s.len() - rest.len(),
        decimal_at(s, p) == Some((d, s.len() - rest.len())),
        suf(s, s.len() - rest.len()) == rest,
{
    let w = uint_text(d.whole as nat);
    if d.frac_digits == 0 {
        assert(pow10(0) == 1);
        assert(d.frac == 0);
        lemma_uint(s, p, d.whole as nat, rest);
        let j = s.len() - rest.len();
        if j < s.len() {
            assert(s[j] == suf(s, j)[0]);
        }
    } else {
        let fr = digits_of(d.frac as nat, d.frac_digits as nat);
        let pt: Seq<u8> = seq![46u8];
        assert(decimal_text(d) + rest =~= w + (pt + (fr + rest)));
        lemma_uint(s, p, d.whole as nat, pt + (fr + rest));
        let j = s.len() - (pt + (fr + rest)).len();
        assert(s[j] == suf(s, j)[0]);
        assert((pt + (fr + rest))[0] == 46u8);
        lemma_lit(s, j, pt, fr + rest);
        lemma_digits(s, j + 1, d.frac as nat, d.frac_digits as nat, rest);
    }
}

/// Suffix tokens stop a number: they start with neither a digit nor a point.
pub open spec fn stops_number(t: Token) -> bool {
    token_bytes(t).len() >= 1 && !is_digit(token_bytes(t)[0]) && token_bytes(t)[0] != 46u8
}

proof fn lemma_seg_dec(s: Seq<u8>, p: int, d: Decimal, suffix: Token, rest: Seq<u8>)
    requires
        0 <= p <= s.len(),
        d.wf(),
        stops_number(suffix),
        suf(s, p) == seg_dec(d, suffix, rest),
    ensures
        p <= s.len() - rest.len(),
        decimal_then(s, p, suffix) == Some((d, s.len() - rest.len())),
        suf(s, s.len() - rest.len()) == rest,
{
    reveal(seg_dec);
    let tail = token_bytes(suffix) + rest;
    assert(tail[0] == token_bytes(suffix)[0]);
    lemma_decimal(s, p, d, tail);
    lemma_lit(s, s.len() - tail.len(), token_bytes(suffix), rest);
}

proof fn lemma_key(s: Seq<u8>, p: int, sep: Seq<u8>, key: Token, rest: Seq<u8>)
    requires
        0 <= p <= s.len(),
        suf(s, p) == sep + (token_bytes(key) + rest),
        token_bytes(key).len() >= 1,
        forall|j: int| 0 <= j < sep.len() ==> sep[j] != token_bytes(key)[0],
    ensures
        p <= s.len() - rest.len(),
        after_key(s, p, key) == Some(s.len() - rest.len()),
        suf(s, s.len() - rest.len()) == rest,
{
    lemma_find(s, p, sep, token_bytes(key), rest);
    lemma_lit(s, p, sep, token_bytes(key) + rest);
    lemma_lit(s, p + sep.len(), token_bytes(key), rest);
}

proof fn lemma_seg_keyed_dec(
    s: Seq<u8>,
    p: int,
    sep: Seq<u8>,
    key: Token,
    d: Decimal,
    suffix: Token,
    rest: Seq<u8>,
)
    requires
        0 <= p <= s.len(),
        d.wf(),
        stops_number(suffix),
        token_bytes(key).len() >= 1,
        forall|j: int| 0 <= j < sep.len() ==> sep[j] != token_bytes(key)[0],
        suf(s, p) == seg_keyed_dec(sep, key, d, suffix, rest),
    ensures
        p <= s.len() - rest.len(),
        keyed_decimal(s, p, key, suffix) == Some((d, s.len() - rest.len())),
        suf(s, s.len() - rest.len()) == rest,
{
    reveal(seg_keyed_dec);
    let tail = seg_dec(d, suffix, rest);
    lemma_key(s, p, sep, key, tail);
    lemma_seg_dec(s, s.len() - tail.len(), d, suffix, rest);
}

proof fn lemma_seg_pair(s: Seq<u8>, p: int, sep: Seq<u8>, key: Token, a: u32, b: u32, rest: Seq<u8>)
    requires
        0 <= p <= s.len(),
        token_bytes(key).len() >= 1,
        forall|j: int| 0 <= j < sep.len() ==> sep[j] != token_bytes(key)[0],
        ends_number(rest),
        suf(s, p) == seg_pair(sep, key, a, b, rest),
    ensures
        p <= s.len() - rest.len(),
        keyed_pair(s, p, key) == Some(((a, b), s.len() - rest.len())),
        suf(s, s.len() - rest.len()) == rest,
{
    reveal(seg_pair);
    let slash = token_bytes(Token::Slash);
    let t3 = uint_text(b as nat) + rest;
    let t2 = slash + t3;
    let t1 = uint_text(a as nat) + t2;
    lemma_key(s, p, sep, key, t1);
    assert(t2[0] == slash[0]);
    lemma_u32(s, s.len() - t1.len(), a, t2);
    lemma_lit(s, s.len() - t2.len(), slash, t3);
    lemma_u32(s, s.len() - t3.len(), b, rest);
}

proof fn lemma_seg_keyed_u32(s: Seq<u8>, p: int, sep: Seq<u8>, key: Token, n: u32, rest: Seq<u8>)
    requires
        0 <= p <= s.len(),
        token_bytes(key).len() >= 1,
        forall|j: int| 0 <= j < sep.len() ==> sep[j] != token_bytes(key)[0],
        ends_number(rest),
        suf(s, p) == seg_keyed_u32(sep, key, n, rest),
    ensures
        p <= s.len() - rest.len(),
        after_key(s, p, key) == Some(s.len() - (uint_text(n as nat) + rest).len()),
        u32_at(s, s.len() - (uint_text(n as nat) + rest).len()) == Some((n, s.len() - rest.len())),
        suf(s, s.len() - rest.len()) == rest,
{
    reveal(seg_keyed_u32);
    let tail = uint_text(n as nat) + rest;
    lemma_key(s, p, sep, key, tail);
    lemma_u32(s, s.len() - tail.len(), n, rest);
}

proof fn lemma_occurrence_found(p: Seq<u8>, j: int, i: int, key: Seq<u8>)
    requires
        0 <= j <= i,
        occurs_at(p, i, key),
        key.len() >= 1,
    ensures
        find_from(p, j, key) is Some,
    decreases i - j,
{
    if !occurs_at(p, j, key) {
        lemma_occurrence_found(p, j + 1, i, key);
    }
}

proof fn lemma_skip(s: Seq<u8>, i: int, target: int, key: Seq<u8>)
    requires
        0 <= i <= target,
        key.len() >= 1,
        occurs_at(s, target, key),
        forall|j: int| i <= j < target ==> !occurs_at(s, j, key),
    ensures
        find_from(s, i, key) == Some(target),
    decreases target - i,
{
    if i < target {
        lemma_skip(s, i + 1, target, key);
    }
}

proof fn lemma_report_starts(r: NodeHistoryLog)
    ensures
        report_text(r) == token_bytes(Token::Radius) + seg_dec(r.radius, Token::Percent, rt2(r)),
{
    reveal(seg_keyed_dec);
    let key = token_bytes(Token::Radius);
    let sd = seg_dec(r.radius, Token::Percent, rt2(r));
    assert(Seq::<u8>::empty() + (key + sd) =~= key + sd);
}

/// `radius=` has no proper prefix that is also a suffix, so an occurrence
/// cannot straddle a prefix free of it and a text that starts with it.
proof fn lemma_no_straddle(pre: Seq<u8>, t: Seq<u8>, i: int)
    requires
        !contains(pre, token_bytes(Token::Radius)),
        t.len() >= 7,
        forall|k: int| 0 <= k < 7 ==> t[k] == token_bytes(Token::Radius)[k],
        0 <= i < pre.len(),
    ensures
        !occurs_at(pre + t, i, token_bytes(Token::Radius)),
{
    let key = token_bytes(Token::Radius);
    let s = pre + t;
    let n = pre.len() as int;
    if occurs_at(s, i, key) {
        let w = s.subrange(i, i + 7);
        assert(w == key);
        if i + 7 <= n {
            assert forall|k: int| 0 <= k < 7 implies pre.subrange(i, i + 7)[k] == key[k] by {
                assert(w[k] == s[i + k]);
                assert(s[i + k] == pre[i + k]);
            }
            assert(pre.subrange(i, i + 7) =~= key);
            lemma_occurrence_found(pre, 0, i, key);
        } else {
            let k = i + 6 - n;
            assert(w[6] == s[i + 6]);
            assert(s[i + 6] == t[k]);
            assert(key[6] == 61u8);
            assert(key[k] != 61u8);
        }
    }
}

proof fn lemma_first_key(pre: Seq<u8>, r: NodeHistoryLog)
    requires
        !contains(pre, token_bytes(Token::Radius)),
    ensures
        pre.len() + 7int <= (pre + report_text(r)).len(),
        after_key(pre + report_text(r), 0, Token::Radius) == Some(pre.len() + 7int),
        suf(pre + report_text(r), pre.len() + 7int) == seg_dec(r.radius, Token::Percent, rt2(r)),
{
    let s = pre + report_text(r);
    let key = token_bytes(Token::Radius);
    let t = report_text(r);
    let sd = seg_dec(r.radius, Token::Percent, rt2(r));
    let n = pre.len() as int;
    lemma_report_starts(r);
    assert forall|k: int| 0 <= k < 7 implies t[k] == key[k] by {
        assert((key + sd)[k] == key[k]);
    }
    assert(suf(s, n) =~= t);
    lemma_lit(s, n, key, sd);
    assert forall|i: int| 0 <= i < n implies !occurs_at(s, i, key) by {
        lemma_no_straddle(pre, t, i);
    }
    lemma_skip(s, 0, n, key);
}

proof fn lemma_front(pre: Seq<u8>, r: NodeHistoryLog)
    requires
        record_wf(r),
        !contains(pre, token_bytes(Token::Radius)),
    ensures
        ({
            let s = pre + report_text(r);
            &&& keyed_decimal(s, 0, Token::Radius, Token::Percent) == Some(
                (r.radius, s.len() - rt2(r).len()),
            )
            &&& keyed_decimal(s, s.len() - rt2(r).len(), Token::Content, Token::Slash) == Some(
                (r.content_current, s.len() - rt3(r).len()),
            )
            &&& decimal_then(s, s.len() - rt3(r).len(), Token::Mb) == Some(
                (r.content_total, s.len() - rt4(r).len()),
            )
            &&& s.len() - rt4(r).len() >= 0
            &&& suf(s, s.len() - rt4(r).len()) == rt4(r)
        }),
{
    let s = pre + report_text(r);
    lemma_first_key(pre, r);
    lemma_seg_dec(s, pre.len() + 7int, r.radius, Token::Percent, rt2(r));
    lemma_seg_keyed_dec(s, s.len() - rt2(r).len(), space(), Token::Content, r.content_current, Token::Slash, rt3(r));
    lemma_seg_dec(s, s.len() - rt3(r).len(), r.content_total, Token::Mb, rt4(r));
}

proof fn lemma_middle(s: Seq<u8>, p: int, r: NodeHistoryLog)
    requires
        0 <= p <= s.len(),
        record_wf(r),
        suf(s, p) == rt4(r),
    ensures
        after_key(s, p, Token::Count) == Some(s.len() - (uint_text(r.count as nat) + rt5(r)).len()),
        u32_at(s, s.len() - (uint_text(r.count as nat) + rt5(r)).len()) == Some(
            (r.count, s.len() - rt5(r).len()),
        ),
        keyed_decimal(s, s.len() - rt5(r).len(), Token::Disk, Token::Mb) == Some(
            (r.disk_usage, s.len() - rt6(r).len()),
        ),
        s.len() - rt6(r).len() >= 0,
        suf(s, s.len() - rt6(r).len()) == rt6(r),
{
    assert(rt5(r)[0] == 32u8) by {
        reveal(seg_keyed_dec);
    }
    lemma_seg_keyed_u32(s, p, space(), Token::Count, r.count, rt5(r));
    lemma_seg_keyed_dec(s, s.len() - rt5(r).len(), space(), Token::Disk, r.disk_usage, Token::Mb, rt6(r));
}

proof fn lemma_back(s: Seq<u8>, p: int, r: NodeHistoryLog)
    requires
        0 <= p <= s.len(),
        suf(s, p) == rt6(r),
    ensures
        keyed_pair(s, p, Token::Offers) == Some(((r.offers_in, r.offers_out), s.len() - rt7(r).len())),
        keyed_pair(s, s.len() - rt7(r).len(), Token::Accepts) == Some(
            ((r.accepts_in, r.accepts_out), s.len() - rt8(r).len()),
        ),
        keyed_pair(s, s.len() - rt8(r).len(), Token::Validations) == Some(
            ((r.validations_in, r.validations_out), s.len() as int),
        ),
{
    assert(rt7(r)[0] == 44u8) by {
        reveal(seg_pair);
    }
    assert(rt8(r)[0] == 44u8) by {
        reveal(seg_pair);
    }
    lemma_seg_pair(s, p, msgs_sep(), Token::Offers, r.offers_in, r.offers_out, rt7(r));
    lemma_seg_pair(s, s.len() - rt7(r).len(), comma_sep(), Token::Accepts, r.accepts_in, r.accepts_out, rt8(r));
    lemma_seg_pair(
        s,
        s.len() - rt8(r).len(),
        comma_sep(),
        Token::Validations,
        r.validations_in,
        r.validations_out,
        Seq::empty(),
    );
}

/// Any line made of a prefix that does not hold `radius=`, followed by the
/// report text of a record, parses to that record, field for field.
pub proof fn lemma_prefixed_report_round_trip(pre: Seq<u8>, r: NodeHistoryLog)
    requires
        record_wf(r),
        !contains(pre, token_bytes(Token::Radius)),
    ensures
        parse_spec(pre + report_text(r)) == Some(r),
{
    let s = pre + report_text(r);
    lemma_front(pre, r);
    lemma_middle(s, s.len() - rt4(r).len(), r);
    lemma_back(s, s.len() - rt6(r).len(), r);
}

/// Writing a record in the report grammar and parsing the text gives the
/// record back, field for field.
pub proof fn lemma_report_round_trip(r: NodeHistoryLog)
    requires
        record_wf(r),
    ensures
        parse_spec(report_text(r)) == Some(r),
{
    let e = Seq::<u8>::empty();
    assert(find_from(e, 0, token_bytes(Token::Radius)) is None);
    lemma_prefixed_report_round_trip(e, r);
    assert(e + report_text(r) =~= report_text(r));
}

} // verus!
