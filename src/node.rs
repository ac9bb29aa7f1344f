//! The fixed grammar of the worker's periodic metrics line and its parser.
use vstd::prelude::*;
use vstd::string::StringSliceAdditionalSpecFns;
use crate::scan::{
    digits_end, digits_value, find_from, occurs_at, scan_digits, find_from_exec, occurs_at_exec,
    lemma_find_from_occurs,
};

verus! {

/// A non-negative decimal number as written in the log: a whole part and a
/// fractional part of `frac_digits` digits (`8.8` is whole 8, frac 8, one digit;
/// `116.07` is whole 116, frac 7, two digits; `15` has no fractional digits).
#[derive(Clone, Copy, Debug, PartialEq, Eq, Structural)]
pub struct Decimal {
    pub whole: u64,
    pub frac: u64,
    pub frac_digits: usize,
}

impl Decimal {
    pub open spec fn wf(self) -> bool {
        self.frac < pow10(self.frac_digits as nat)
    }

    /// A whole number with no fractional digits.
    pub fn from_whole(whole: u64) -> (r: Decimal)
        ensures
            r == (Decimal { whole, frac: 0, frac_digits: 0 }),
    {
        Decimal { whole, frac: 0, frac_digits: 0 }
    }

    /// A number with the given whole part and fractional digits.
    pub fn new(whole: u64, frac: u64, frac_digits: usize) -> (r: Decimal)
        ensures
            r == (Decimal { whole, frac, frac_digits }),
    {
        Decimal { whole, frac, frac_digits }
    }
}

pub open spec fn pow10(n: nat) -> int
    decreases n,
{
    if n == 0 {
        1
    } else {
        10 * pow10((n - 1) as nat)
    }
}

/// The scraped statistics of one subnetwork's periodic report line.
#[derive(Clone, Copy, Debug, PartialEq, Eq, Structural)]
pub struct NodeHistoryLog {
    pub radius: Decimal,
    pub content_current: Decimal,
    pub content_total: Decimal,
    pub count: u32,
    pub disk_usage: Decimal,
    pub offers_in: u32,
    pub offers_out: u32,
    pub accepts_in: u32,
    pub accepts_out: u32,
    pub validations_in: u32,
    pub validations_out: u32,
}

/// The literal pieces of the report grammar.
#[derive(Clone, Copy)]
pub enum Token {
    Radius,
    Percent,
    Content,
    Slash,
    Mb,
    Count,
    Disk,
    Offers,
    Accepts,
    Validations,
}

pub open spec fn token_bytes(t: Token) -> Seq<u8> {
    match t {
        Token::Radius => seq![114u8, 97u8, 100u8, 105u8, 117u8, 115u8, 61u8],
        Token::Percent => seq![37u8],
        Token::Content => seq![99u8, 111u8, 110u8, 116u8, 101u8, 110u8, 116u8, 61u8],
        Token::Slash => seq![47u8],
        Token::Mb => seq![109u8, 98u8],
        Token::Count => seq![35u8, 61u8],
        Token::Disk => seq![100u8, 105u8, 115u8, 107u8, 61u8],
        Token::Offers => seq![111u8, 102u8, 102u8, 101u8, 114u8, 115u8, 61u8],
        Token::Accepts => seq![97u8, 99u8, 99u8, 101u8, 112u8, 116u8, 115u8, 61u8],
        Token::Validations => seq![118u8, 97u8, 108u8, 105u8, 100u8, 97u8, 116u8, 105u8, 111u8, 110u8, 115u8, 61u8],
    }
}

fn token(t: Token) -> (r: Vec<u8>)
    ensures
        r@ == token_bytes(t),
{
    let r = match t {
        Token::Radius => vec![114u8, 97u8, 100u8, 105u8, 117u8, 115u8, 61u8],
        Token::Percent => vec![37u8],
        Token::Content => vec![99u8, 111u8, 110u8, 116u8, 101u8, 110u8, 116u8, 61u8],
        Token::Slash => vec![47u8],
        Token::Mb => vec![109u8, 98u8],
        Token::Count => vec![35u8, 61u8],
        Token::Disk => vec![100u8, 105u8, 115u8, 107u8, 61u8],
        Token::Offers => vec![111u8, 102u8, 102u8, 101u8, 114u8, 115u8, 61u8],
        Token::Accepts => vec![97u8, 99u8, 99u8, 101u8, 112u8, 116u8, 115u8, 61u8],
        Token::Validations => vec![118u8, 97u8, 108u8, 105u8, 100u8, 97u8, 116u8, 105u8, 111u8, 110u8, 115u8, 61u8],
    };
    assert(r@ =~= token_bytes(t));
    r
}

pub open spec fn at_pos<T>(r: Option<(T, usize)>) -> Option<(T, int)> {
    match r {
        Some((v, p)) => Some((v, p as int)),
        None => None,
    }
}

/// An unsigned integer (one or more digits) at `i` that fits in a `u64`.
pub open spec fn uint_at(s: Seq<u8>, i: int) -> Option<(u64, int)> {
    let j = digits_end(s, i);
    if j == i || digits_value(s, i, j) > u64::MAX {
        None
    } else {
        Some((digits_value(s, i, j) as u64, j))
    }
}

/// An unsigned integer at `i` that fits in a `u32`.
pub open spec fn u32_at(s: Seq<u8>, i: int) -> Option<(u32, int)> {
    match uint_at(s, i) {
        Some((v, j)) => if v <= u32::MAX {
            Some((v as u32, j))
        } else {
            None
        },
        None => None,
    }
}

/// A decimal at `i`: digits, then optionally a point and more digits.
pub open spec fn decimal_at(s: Seq<u8>, i: int) -> Option<(Decimal, int)> {
    match uint_at(s, i) {
        Some((w, j)) => if j < s.len() && s[j] == 46u8 {
            let k = digits_end(s, j + 1);
            if digits_value(s, j + 1, k) > u64::MAX {
                None
            } else {
                Some(
                    (
                        Decimal {
                            whole: w,
                            frac: digits_value(s, j + 1, k) as u64,
                            frac_digits: (k - (j + 1)) as usize,
                        },
                        k,
                    ),
                )
            }
        } else {
            Some((Decimal { whole: w, frac: 0, frac_digits: 0 }, j))
        },
        None => None,
    }
}

/// The position just past the literal `t` when it stands at `i`.
pub open spec fn lit_at(s: Seq<u8>, i: int, t: Token) -> Option<int> {
    if occurs_at(s, i, token_bytes(t)) {
        Some(i + token_bytes(t).len())
    } else {
        None
    }
}

/// The position just past the first occurrence of `key` at or after `i`.
pub open spec fn after_key(s: Seq<u8>, i: int, key: Token) -> Option<int> {
    match find_from(s, i, token_bytes(key)) {
        Some(k) => Some(k + token_bytes(key).len()),
        None => None,
    }
}

/// A decimal at `i` followed by the literal `suffix`.
pub open spec fn decimal_then(s: Seq<u8>, i: int, suffix: Token) -> Option<(Decimal, int)> {
    match decimal_at(s, i) {
        Some((d, j)) => match lit_at(s, j, suffix) {
            Some(k) => Some((d, k)),
            None => None,
        },
        None => None,
    }
}

/// `key`, then a decimal, then `suffix`.
pub open spec fn keyed_decimal(s: Seq<u8>, i: int, key: Token, suffix: Token) -> Option<(Decimal, int)> {
    match after_key(s, i, key) {
        Some(j) => decimal_then(s, j, suffix),
        None => None,
    }
}

/// `key`, then an in/out pair of `u32` counters separated by a slash.
pub open spec fn keyed_pair(s: Seq<u8>, i: int, key: Token) -> Option<((u32, u32), int)> {
    match after_key(s, i, key) {
        Some(j) => match u32_at(s, j) {
            Some((a, k)) => match lit_at(s, k, Token::Slash) {
                Some(m) => match u32_at(s, m) {
                    Some((b, e)) => Some(((a, b), e)),
                    None => None,
                },
                None => None,
            },
            None => None,
        },
        None => None,
    }
}

/// The report grammar, fields in fixed order, each key found at its first
/// occurrence after the previous field:
/// `radius=D%`, `content=D/Dmb`, `#=N`, `disk=Dmb`, `offers=N/N`,
/// `accepts=N/N`, `validations=N/N`; anything may stand between fields.
pub open spec fn parse_spec(s: Seq<u8>) -> Option<NodeHistoryLog> {
    match keyed_decimal(s, 0, Token::Radius, Token::Percent) {
        None => None,
        Some((radius, p1)) => match keyed_decimal(s, p1, Token::Content, Token::Slash) {
            None => None,
            Some((content_current, p2)) => match decimal_then(s, p2, Token::Mb) {
                None => None,
                Some((content_total, p3)) => match after_key(s, p3, Token::Count) {
                    None => None,
                    Some(p4) => match u32_at(s, p4) {
                        None => None,
                        Some((count, p5)) => match keyed_decimal(s, p5, Token::Disk, Token::Mb) {
                            None => None,
                            Some((disk_usage, p6)) => match keyed_pair(s, p6, Token::Offers) {
                                None => None,
                                Some((offers, p7)) => match keyed_pair(s, p7, Token::Accepts) {
                                    None => None,
                                    Some((accepts, p8)) => match keyed_pair(s, p8, Token::Validations) {
                                        None => None,
                                        Some((validations, _p9)) => Some(
                                            NodeHistoryLog {
                                                radius,
                                                content_current,
                                                content_total,
                                                count,
                                                disk_usage,
                                                offers_in: offers.0,
                                                offers_out: offers.1,
                                                accepts_in: accepts.0,
                                                accepts_out: accepts.1,
                                                validations_in: validations.0,
                                                validations_out: validations.1,
                                            },
                                        ),
                                    },
                                },
                            },
                        },
                    },
                },
            },
        },
    }
}

pub open spec fn opt_pos(r: Option<usize>) -> Option<int> {
    match r {
        Some(p) => Some(p as int),
        None => None,
    }
}

/// A position that a successful step hands on lies within the line.
pub open spec fn within<T>(r: Option<(T, usize)>, n: int) -> bool {
    match r {
        Some((_, p)) => p <= n,
        None => true,
    }
}

pub open spec fn within_pos(r: Option<usize>, n: int) -> bool {
    match r {
        Some(p) => p <= n,
        None => true,
    }
}

fn read_uint(s: &[u8], i: usize) -> (r: Option<(u64, usize)>)
    requires
        i <= s@.len(),
    ensures
        at_pos(r) == uint_at(s@, i as int),
        within(r, s@.len() as int),
{
    let (v, j, fits) = scan_digits(s, i);
    if j == i || !fits {
        None
    } else {
        Some((v, j))
    }
}

fn read_u32(s: &[u8], i: usize) -> (r: Option<(u32, usize)>)
    requires
        i <= s@.len(),
    ensures
        at_pos(r) == u32_at(s@, i as int),
        within(r, s@.len() as int),
{
    match read_uint(s, i) {
        Some((v, j)) => if v <= u32::MAX as u64 {
            Some((v as u32, j))
        } else {
            None
        },
        None => None,
    }
}

fn read_decimal(s: &[u8], i: usize) -> (r: Option<(Decimal, usize)>)
    requires
        i <= s@.len(),
    ensures
        at_pos(r) == decimal_at(s@, i as int),
        within(r, s@.len() as int),
{
    match read_uint(s, i) {
        None => None,
        Some((w, j)) => if j < s.len() && s[j] == 46u8 {
            let (f, k, fits) = scan_digits(s, j + 1);
            if !fits {
                None
            } else {
                Some((Decimal { whole: w, frac: f, frac_digits: k - (j + 1) }, k))
            }
        } else {
            Some((Decimal { whole: w, frac: 0, frac_digits: 0 }, j))
        },
    }
}

fn read_lit(s: &[u8], i: usize, t: Token) -> (r: Option<usize>)
    requires
        i <= s@.len(),
    ensures
        opt_pos(r) == lit_at(s@, i as int, t),
        within_pos(r, s@.len() as int),
{
    let b = token(t);
    let _n = s.len();
    if occurs_at_exec(s, i, b.as_slice()) {
        Some(i + b.len())
    } else {
        None
    }
}

fn skip_key(s: &[u8], i: usize, key: Token) -> (r: Option<usize>)
    requires
        i <= s@.len(),
    ensures
        opt_pos(r) == after_key(s@, i as int, key),
        within_pos(r, s@.len() as int),
{
    let b = token(key);
    let _n = s.len();
    match find_from_exec(s, i, b.as_slice()) {
        Some(k) => {
            proof {
                lemma_find_from_occurs(s@, i as int, b@);
            }
            Some(k + b.len())
        },
        None => None,
    }
}

fn read_decimal_then(s: &[u8], i: usize, suffix: Token) -> (r: Option<(Decimal, usize)>)
    requires
        i <= s@.len(),
    ensures
        at_pos(r) == decimal_then(s@, i as int, suffix),
        within(r, s@.len() as int),
{
    match read_decimal(s, i) {
        Some((d, j)) => match read_lit(s, j, suffix) {
            Some(k) => Some((d, k)),
            None => None,
        },
        None => None,
    }
}

fn read_keyed_decimal(s: &[u8], i: usize, key: Token, suffix: Token) -> (r: Option<(Decimal, usize)>)
    requires
        i <= s@.len(),
    ensures
        at_pos(r) == keyed_decimal(s@, i as int, key, suffix),
        within(r, s@.len() as int),
{
    match skip_key(s, i, key) {
        Some(j) => read_decimal_then(s, j, suffix),
        None => None,
    }
}

fn read_keyed_pair(s: &[u8], i: usize, key: Token) -> (r: Option<((u32, u32), usize)>)
    requires
        i <= s@.len(),
    ensures
        at_pos(r) == keyed_pair(s@, i as int, key),
        within(r, s@.len() as int),
{
    let j = match skip_key(s, i, key) {
        Some(j) => j,
        None => return None,
    };
    let (a, k) = match read_u32(s, j) {
        Some(x) => x,
        None => return None,
    };
    let m = match read_lit(s, k, Token::Slash) {
        Some(m) => m,
        None => return None,
    };
    match read_u32(s, m) {
        Some((b, e)) => Some(((a, b), e)),
        None => None,
    }
}

impl NodeHistoryLog {
    /// Parses a report line; `None` when any field is missing or does not fit
    /// its type, so that a line is taken whole or not at all.
    pub fn parse_log_line(line: &str) -> (r: Option<NodeHistoryLog>)
        ensures
            r == parse_spec(line.spec_bytes()),
    {
        let s = line.as_bytes();
        let (radius, p1) = match read_keyed_decimal(s, 0, Token::Radius, Token::Percent) {
            Some(x) => x,
            None => return None,
        };
        let (content_current, p2) = match read_keyed_decimal(s, p1, Token::Content, Token::Slash) {
            Some(x) => x,
            None => return None,
        };
        let (content_total, p3) = match read_decimal_then(s, p2, Token::Mb) {
            Some(x) => x,
            None => return None,
        };
        let p4 = match skip_key(s, p3, Token::Count) {
            Some(x) => x,
            None => return None,
        };
        let (count, p5) = match read_u32(s, p4) {
            Some(x) => x,
            None => return None,
        };
        let (disk_usage, p6) = match read_keyed_decimal(s, p5, Token::Disk, Token::Mb) {
            Some(x) => x,
            None => return None,
        };
        let (offers, p7) = match read_keyed_pair(s, p6, Token::Offers) {
            Some(x) => x,
            None => return None,
        };
        let (accepts, p8) = match read_keyed_pair(s, p7, Token::Accepts) {
            Some(x) => x,
            None => return None,
        };
        let (validations, _p9) = match read_keyed_pair(s, p8, Token::Validations) {
            Some(x) => x,
            None => return None,
        };
        Some(
            NodeHistoryLog {
                radius,
                content_current,
                content_total,
                count,
                disk_usage,
                offers_in: offers.0,
                offers_out: offers.1,
                accepts_in: accepts.0,
                accepts_out: accepts.1,
                validations_in: validations.0,
                validations_out: validations.1,
            },
        )
    }
}

} // verus!
