//! Exact time offsets and the decimal text forms of the numbers that appear
//! in the exported library.
//!
//! Mixxx stores positions as audio frame counts and tempos as beats per
//! minute.  This crate keeps every such quantity exact: a time offset is the
//! fraction `num / den` of a [`Seconds`] value, and a tempo is an integer
//! count of thousandths of a beat per minute.  Rendering those values as
//! decimal text is done here, digit by digit, so that the text form is fully
//! specified.

use vstd::prelude::*;

verus! {

/// An exact time offset in seconds, the fraction `num / den`.
///
/// Equality on this type is representation equality: `1/2` and `2/4` denote
/// the same offset but are distinct values.  Every function producing a
/// `Seconds` documents the exact numerator and denominator it yields.
#[derive(Clone, Copy, Debug, PartialEq, Eq, Structural)]
pub struct Seconds {
    /// Numerator; may be negative.
    pub num: i64,
    /// Denominator; always positive for a well-formed value.
    pub den: u64,
}

impl Seconds {
    /// A well-formed offset has a positive denominator.
    pub open spec fn wf(self) -> bool {
        self.den > 0
    }
}

/// Decimal digit character for `d` in `0..10`.
pub open spec fn digit_char(d: nat) -> char {
    ((d + 48) as u8) as char
}

/// The decimal digits of `n`, most significant first, no leading zeros
/// (except for `n == 0`, which is the single digit `0`).
pub open spec fn dec_digits(n: nat) -> Seq<char>
    decreases n,
{
    if n < 10 {
        seq![digit_char(n)]
    } else {
        dec_digits(n / 10).push(digit_char(n % 10))
    }
}

/// A single decimal digit as a string slice.
fn digit_str(d: u8) -> (r: &'static str)
    requires
        d < 10,
    ensures
        r@ == seq![digit_char(d as nat)],
{
    let r: &'static str = match d {
        0 => "0",
        1 => "1",
        2 => "2",
        3 => "3",
        4 => "4",
        5 => "5",
        6 => "6",
        7 => "7",
        8 => "8",
        _ => "9",
    };
    proof {
        reveal_strlit("0");
        reveal_strlit("1");
        reveal_strlit("2");
        reveal_strlit("3");
        reveal_strlit("4");
        reveal_strlit("5");
        reveal_strlit("6");
        reveal_strlit("7");
        reveal_strlit("8");
        reveal_strlit("9");
        assert(r@ =~= seq![digit_char(d as nat)]);
    }
    r
}

/// Renders `n` in decimal.
pub fn u128_to_dec(n: u128) -> (s: String)
    ensures
        s@ == dec_digits(n as nat),
    decreases n,
{
    if n < 10 {
        let s = String::from_str(digit_str(n as u8));
        proof {
            assert(s@ =~= dec_digits(n as nat));
        }
        s
    } else {
        proof {
            assert(n / 10 < n) by (nonlinear_arith)
                requires
                    n >= 10,
            ;
        }
        let mut s = u128_to_dec(n / 10);
        let d = digit_str((n % 10) as u8);
        s.append(d);
        proof {
            assert(s@ =~= dec_digits(n as nat));
        }
        s
    }
}

/// Renders `n` in decimal.
pub fn u64_to_dec(n: u64) -> (s: String)
    ensures
        s@ == dec_digits(n as nat),
{
    u128_to_dec(n as u128)
}

/// The decimal digits of the signed `n`, with a leading minus sign when
/// negative.
pub open spec fn int_digits(n: int) -> Seq<char> {
    if n < 0 {
        seq!['-'] + dec_digits((-n) as nat)
    } else {
        dec_digits(n as nat)
    }
}

/// Renders the signed `n` in decimal.
pub fn i64_to_dec(n: i64) -> (s: String)
    ensures
        s@ == int_digits(n as int),
{
    let wide: i128 = n as i128;
    if n < 0 {
        let mut out = String::from_str("-");
        proof {
            reveal_strlit("-");
        }
        let d = u128_to_dec((-wide) as u128);
        out.append(d.as_str());
        proof {
            assert(out@ =~= int_digits(n as int));
        }
        out
    } else {
        u128_to_dec(wide as u128)
    }
}

/// Renders `n` in decimal.
pub fn usize_to_dec(n: usize) -> (s: String)
    ensures
        s@ == dec_digits(n as nat),
{
    u128_to_dec(n as u128)
}

/// The first `fuel` digits after the decimal point of the fraction
/// `rem / den`, stopping early once the remainder is exhausted.
pub open spec fn frac_digits(rem: nat, den: nat, fuel: nat) -> Seq<char>
    recommends
        0 < rem < den,
    decreases fuel,
{
    if fuel == 0 {
        Seq::empty()
    } else {
        let d = (rem * 10) / den;
        let r2 = (rem * 10) % den;
        seq![digit_char(d)] + if r2 == 0 {
            Seq::<char>::empty()
        } else {
            frac_digits(r2, den, (fuel - 1) as nat)
        }
    }
}

fn frac_str(rem: u128, den: u128, fuel: u8) -> (s: String)
    requires
        0 < rem < den,
        den <= u64::MAX as u128,
    ensures
        s@ == frac_digits(rem as nat, den as nat, fuel as nat),
    decreases fuel,
{
    if fuel == 0 {
        let s = String::new();
        proof {
            assert(s@ =~= frac_digits(rem as nat, den as nat, 0));
        }
        s
    } else {
        let t: u128 = rem * 10;
        let d: u128 = t / den;
        let r2: u128 = t % den;
        proof {
            assert(d < 10) by (nonlinear_arith)
                requires
                    0 < rem < den,
                    t == rem * 10,
                    d == t / den,
            ;
        }
        let mut s = String::from_str(digit_str(d as u8));
        if r2 > 0 {
            let rest = frac_str(r2, den, fuel - 1);
            s.append(rest.as_str());
        }
        proof {
            assert(s@ =~= frac_digits(rem as nat, den as nat, fuel as nat));
        }
        s
    }
}

/// The decimal text of the offset `num / den`: an optional sign, the whole
/// part, a point, and at least one fractional digit.  The fraction is cut
/// after six digits; an exact zero fraction is written as the single digit
/// `0`, so whole offsets read `2.0` and the zero offset reads `0.0`.
pub open spec fn spec_format_seconds(num: int, den: nat) -> Seq<char>
    recommends
        den > 0,
{
    let a = (if num < 0 {
        -num
    } else {
        num
    }) as nat;
    let sign: Seq<char> = if num < 0 {
        seq!['-']
    } else {
        Seq::empty()
    };
    let q = a / den;
    let r = a % den;
    sign + dec_digits(q) + seq!['.'] + if r == 0 {
        seq!['0']
    } else {
        frac_digits(r, den, 6)
    }
}

/// Renders the offset `s` as decimal text.
pub fn format_seconds(s: &Seconds) -> (r: String)
    requires
        s.wf(),
    ensures
        r@ == spec_format_seconds(s.num as int, s.den as nat),
{
    let neg = s.num < 0;
    let wide: i128 = s.num as i128;
    let a: u128 = if neg {
        (-wide) as u128
    } else {
        wide as u128
    };
    let den: u128 = s.den as u128;
    let q: u128 = a / den;
    let rem: u128 = a % den;
    let mut out = if neg {
        let m = String::from_str("-");
        proof {
            reveal_strlit("-");
        }
        m
    } else {
        String::new()
    };
    let whole = u128_to_dec(q);
    out.append(whole.as_str());
    out.append(".");
    proof {
        reveal_strlit(".");
    }
    if rem == 0 {
        out.append("0");
        proof {
            reveal_strlit("0");
        }
    } else {
        let f = frac_str(rem, den, 6);
        out.append(f.as_str());
    }
    proof {
        assert(out@ =~= spec_format_seconds(s.num as int, s.den as nat));
    }
    out
}

/// The fractional digits of a milli-unit remainder `f` in `1..1000`, with
/// trailing zeros removed.
pub open spec fn milli_frac_digits(f: nat) -> Seq<char>
    recommends
        0 < f < 1000,
{
    if f % 100 == 0 {
        seq![digit_char(f / 100)]
    } else if f % 10 == 0 {
        seq![digit_char(f / 100), digit_char((f / 10) % 10)]
    } else {
        seq![digit_char(f / 100), digit_char((f / 10) % 10), digit_char(f % 10)]
    }
}

/// The decimal text of `m` thousandths: the whole part, then the fractional
/// digits with trailing zeros removed, and no point at all for a whole
/// value (`128000` reads `128`, `128500` reads `128.5`).
pub open spec fn spec_format_milli(m: nat) -> Seq<char> {
    dec_digits(m / 1000) + if m % 1000 == 0 {
        Seq::<char>::empty()
    } else {
        seq!['.'] + milli_frac_digits(m % 1000)
    }
}

/// Renders `m` thousandths as decimal text with trailing zeros removed.
pub fn format_milli(m: u64) -> (s: String)
    ensures
        s@ == spec_format_milli(m as nat),
{
    let mut out = u64_to_dec(m / 1000);
    let f: u64 = m % 1000;
    if f != 0 {
        out.append(".");
        proof {
            reveal_strlit(".");
        }
        let d0 = digit_str((f / 100) as u8);
        out.append(d0);
        if f % 100 != 0 {
            let d1 = digit_str(((f / 10) % 10) as u8);
            out.append(d1);
            if f % 10 != 0 {
                let d2 = digit_str((f % 10) as u8);
                out.append(d2);
            }
        } else {
            proof {
                assert(out@ =~= spec_format_milli(m as nat));
            }
            return out;
        }
    }
    proof {
        assert(out@ =~= spec_format_milli(m as nat));
    }
    out
}

/// The decimal text of `m` thousandths with exactly two digits after the
/// point, the third digit rounding half up (`128000` reads `128.00`).
pub open spec fn spec_format_milli_2(m: nat) -> Seq<char> {
    let c = (m + 5) / 10;
    dec_digits(c / 100) + seq!['.', digit_char((c / 10) % 10), digit_char(c % 10)]
}

/// Renders `m` thousandths with exactly two digits after the point.
pub fn format_milli_2(m: u64) -> (s: String)
    ensures
        s@ == spec_format_milli_2(m as nat),
{
    let c: u64 = (((m as u128) + 5) / 10) as u64;
    let mut out = u64_to_dec(c / 100);
    out.append(".");
    proof {
        reveal_strlit(".");
    }
    let d1 = digit_str(((c / 10) % 10) as u8);
    out.append(d1);
    let d2 = digit_str((c % 10) as u8);
    out.append(d2);
    proof {
        assert(out@ =~= spec_format_milli_2(m as nat));
    }
    out
}

/// Whether `c` is a decimal digit.
pub open spec fn is_dec_digit(c: char) -> bool {
    48 <= c as int <= 57
}

/// The value of the digit `c`.
pub open spec fn digit_val(c: char) -> nat
    recommends
        is_dec_digit(c),
{
    (c as int - 48) as nat
}

/// The value of a non-empty all-digit sequence, `None` if `s` is empty or
/// holds a non-digit.
pub open spec fn spec_digits_val(s: Seq<char>) -> Option<nat>
    decreases s.len(),
{
    if s.len() == 0 {
        None
    } else if s.len() == 1 {
        if is_dec_digit(s[0]) {
            Some(digit_val(s[0]))
        } else {
            None
        }
    } else {
        match spec_digits_val(s.drop_last()) {
            None => None,
            Some(v) => if is_dec_digit(s.last()) {
                Some(v * 10 + digit_val(s.last()))
            } else {
                None
            },
        }
    }
}

/// How `str::parse::<u16>` reads `s`: an optional leading `+`, then one or
/// more decimal digits whose value fits in sixteen bits.
pub open spec fn spec_parse_u16(s: Seq<char>) -> Option<u16> {
    let body = if s.len() >= 1 && s[0] == '+' {
        s.skip(1)
    } else {
        s
    };
    match spec_digits_val(body) {
        Some(v) => if v <= 65535 {
            Some(v as u16)
        } else {
            None
        },
        None => None,
    }
}

/// A digit prefix never exceeds the value of the whole digit run.
proof fn lemma_digits_val_prefix(s: Seq<char>, i: int)
    requires
        0 < i <= s.len(),
        spec_digits_val(s) is Some,
    ensures
        spec_digits_val(s.take(i)) is Some,
        spec_digits_val(s.take(i)).unwrap() <= spec_digits_val(s).unwrap(),
    decreases s.len() - i,
{
    if i == s.len() {
        assert(s.take(i) =~= s);
    } else {
        lemma_digits_val_prefix(s, i + 1);
        assert(s.take(i + 1).drop_last() =~= s.take(i));
        assert(s.take(i + 1).len() == i + 1);
        if i + 1 == 1 {
            assert(spec_digits_val(s.take(i)) is None);
            assert(false);
        }
    }
}

/// Parses `s` as `str::parse::<u16>` does.
#[verifier::loop_isolation(false)]
pub fn parse_u16(s: &str) -> (r: Option<u16>)
    ensures
        r == spec_parse_u16(s@),
{
    let n = s.unicode_len();
    let start: usize = if n >= 1 && s.get_char(0) == '+' {
        1
    } else {
        0
    };
    let ghost body = if s@.len() >= 1 && s@[0] == '+' {
        s@.skip(1)
    } else {
        s@
    };
    proof {
        assert(body =~= s@.subrange(start as int, n as int));
    }
    if start == n {
        return None;
    }
    let mut acc: u32 = 0;
    let mut i: usize = start;
    while i < n
        invariant
            start < n <= s@.len(),
            n == s@.len(),
            start <= i <= n,
            body == s@.subrange(start as int, n as int),
            i > start ==> spec_digits_val(body.take(i - start)) == Some(acc as nat),
            i == start ==> acc == 0,
            acc <= 65535,
        decreases n - i,
    {
        let c = s.get_char(i);
        let cv: u32 = c as u32;
        proof {
            assert(body.take(i - start + 1).drop_last() =~= body.take(i - start));
            assert(body.take(i - start + 1).last() == body[i - start]);
            assert(body[i - start] == c);
        }
        if cv < 48 || cv > 57 {
            proof {
                assert(!is_dec_digit(c));
                if spec_digits_val(body) is Some {
                    lemma_digits_val_prefix(body, i - start + 1);
                    assert(spec_digits_val(body.take(i - start + 1)) is Some);
                    assert(false);
                }
                assert(spec_parse_u16(s@) is None);
            }
            return None;
        }
        let d: u32 = cv - 48;
        let next: u32 = acc * 10 + d;
        proof {
            assert(is_dec_digit(c));
            assert(digit_val(c) == d as nat);
            assert(spec_digits_val(body.take(i - start + 1)) == Some(next as nat));
        }
        if next > 65535 {
            proof {
                if spec_digits_val(body) is Some {
                    lemma_digits_val_prefix(body, i - start + 1);
                }
                assert(spec_parse_u16(s@) is None);
            }
            return None;
        }
        acc = next;
        i += 1;
    }
    proof {
        assert(body.take(n - start) =~= body);
    }
    Some(acc as u16)
}

/// A calendar timestamp held as plain values.
///
/// The field ranges mirror what a successfully parsed timestamp satisfies:
/// `month` in `1..=12`, `day` in `1..=31`, `hour` below 24, `minute` and
/// `second` below 60, `year` below 10000.
#[derive(Clone, Copy, Debug, PartialEq, Eq, Structural)]
pub struct Timestamp {
    pub year: u16,
    pub month: u8,
    pub day: u8,
    pub hour: u8,
    pub minute: u8,
    pub second: u8,
}

impl Timestamp {
    /// Field ranges of a calendar timestamp.
    pub open spec fn wf(self) -> bool {
        self.year <= 9999 && 1 <= self.month <= 12 && 1 <= self.day <= 31 && self.hour <= 23
            && self.minute <= 59 && self.second <= 59
    }
}

/// `n` in decimal, left-padded with zeros to two digits.
pub open spec fn pad2(n: nat) -> Seq<char>
    recommends
        n < 100,
{
    if n < 10 {
        seq!['0'] + dec_digits(n)
    } else {
        dec_digits(n)
    }
}

/// `n` in decimal, left-padded with zeros to four digits.
pub open spec fn pad4(n: nat) -> Seq<char>
    recommends
        n < 10000,
{
    if n < 10 {
        seq!['0', '0', '0'] + dec_digits(n)
    } else if n < 100 {
        seq!['0', '0'] + dec_digits(n)
    } else if n < 1000 {
        seq!['0'] + dec_digits(n)
    } else {
        dec_digits(n)
    }
}

/// The ISO calendar date `YYYY-MM-DD` of `ts`, dropping the time of day.
pub open spec fn spec_format_date(ts: Timestamp) -> Seq<char> {
    pad4(ts.year as nat) + seq!['-'] + pad2(ts.month as nat) + seq!['-'] + pad2(ts.day as nat)
}

fn append_pad2(out: &mut String, n: u8)
    requires
        n < 100,
    ensures
        final(out)@ == old(out)@ + pad2(n as nat),
{
    if n < 10 {
        out.append("0");
        proof {
            reveal_strlit("0");
        }
    }
    let d = u128_to_dec(n as u128);
    out.append(d.as_str());
    proof {
        assert(out@ =~= old(out)@ + pad2(n as nat));
    }
}

/// Renders the calendar date of `ts` as `YYYY-MM-DD`.
pub fn format_date(ts: &Timestamp) -> (s: String)
    requires
        ts.wf(),
    ensures
        s@ == spec_format_date(*ts),
{
    let mut out = String::new();
    if ts.year < 10 {
        out.append("000");
        proof {
            reveal_strlit("000");
        }
    } else if ts.year < 100 {
        out.append("00");
        proof {
            reveal_strlit("00");
        }
    } else if ts.year < 1000 {
        out.append("0");
        proof {
            reveal_strlit("0");
        }
    }
    let y = u128_to_dec(ts.year as u128);
    out.append(y.as_str());
    out.append("-");
    proof {
        reveal_strlit("-");
    }
    append_pad2(&mut out, ts.month);
    out.append("-");
    append_pad2(&mut out, ts.day);
    proof {
        assert(out@ =~= spec_format_date(*ts));
    }
    out
}

/// Relies on std's `String::push`: appends exactly the one character.
#[verifier::external_body]
pub(crate) fn push_char(s: &mut String, c: char)
    ensures
        final(s)@ == old(s)@.push(c),
{
    s.push(c)
}

/// Compares two string slices by their character sequences.
pub fn str_eq(a: &str, b: &str) -> (r: bool)
    ensures
        r == (a@ == b@),
{
    let n = a.unicode_len();
    let m = b.unicode_len();
    if n != m {
        return false;
    }
    let mut i: usize = 0;
    while i < n
        invariant
            n == a@.len(),
            n == b@.len(),
            i <= n,
            forall|j: int| 0 <= j < i ==> a@[j] == b@[j],
        decreases n - i,
    {
        if a.get_char(i) != b.get_char(i) {
            return false;
        }
        i += 1;
    }
    proof {
        assert(a@ =~= b@);
    }
    true
}

} // verus!
