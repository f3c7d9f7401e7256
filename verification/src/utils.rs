//! Clock and identifier sources, decimal formatting, and the integer parser
//! used for the `retry-after` response header.

use vstd::prelude::*;
use vstd::string::StringSliceAdditionalSpecFns;

verus! {

/// Relies on `String::push`: appends the given character to the end of the
/// string.
pub assume_specification[ std::string::String::push ](s: &mut std::string::String, c: char)
    ensures
        final(s)@ == old(s)@.push(c),
;

/// Milliseconds since the Unix epoch, read from the system clock.
///
/// Relies on `std::time::SystemTime::now` and `duration_since`; the result
/// depends on the moment of the call, so nothing is promised of it.
#[verifier::external_body]
pub fn now() -> u64 {
    std::time::SystemTime::now().duration_since(std::time::UNIX_EPOCH).map(
        |d| d.as_millis() as u64,
    ).unwrap_or(0)
}

/// Relies on `uuid::Uuid::new_v4` and its `Display` impl: a fresh random
/// version-4 UUID, rendered in the 36-character hyphenated form.
#[verifier::external_body]
pub fn next_span_id() -> (r: String)
    ensures
        r@.len() == 36,
{
    uuid::Uuid::new_v4().to_string()
}

/// Relies on `uuid::Uuid::new_v4` and its `Display` impl: a fresh random
/// version-4 UUID, rendered in the 36-character hyphenated form.
#[verifier::external_body]
pub fn next_trace_id() -> (r: String)
    ensures
        r@.len() == 36,
{
    uuid::Uuid::new_v4().to_string()
}

/// A time source: the system clock in production, a fixed instant under test.
#[derive(Clone, Copy, Debug)]
pub enum Clock {
    System,
    Fixed(u64),
}

impl Clock {
    /// The current time in milliseconds since the Unix epoch.
    pub fn now_ms(&self) -> (r: u64)
        ensures
            match self {
                Clock::Fixed(t) => r == t,
                Clock::System => true,
            },
    {
        match self {
            Clock::System => now(),
            Clock::Fixed(t) => *t,
        }
    }
}

/// The decimal digit character for `d`.
pub open spec fn dec_digit(d: int) -> char {
    if d == 0 {
        '0'
    } else if d == 1 {
        '1'
    } else if d == 2 {
        '2'
    } else if d == 3 {
        '3'
    } else if d == 4 {
        '4'
    } else if d == 5 {
        '5'
    } else if d == 6 {
        '6'
    } else if d == 7 {
        '7'
    } else if d == 8 {
        '8'
    } else {
        '9'
    }
}

/// The usual decimal rendering of `n`, without leading zeros.
pub open spec fn dec_u64(n: nat) -> Seq<char>
    decreases n,
{
    if n < 10 {
        seq![dec_digit(n as int)]
    } else {
        dec_u64(n / 10) + seq![dec_digit((n % 10) as int)]
    }
}

/// The usual decimal rendering of `i`, with a leading minus sign when
/// negative.
pub open spec fn dec_i64(i: int) -> Seq<char> {
    if i < 0 {
        seq!['-'] + dec_u64((-i) as nat)
    } else {
        dec_u64(i as nat)
    }
}

fn dec_digit_exec(d: u64) -> (c: char)
    requires
        d < 10,
    ensures
        c == dec_digit(d as int),
{
    match d {
        0 => '0',
        1 => '1',
        2 => '2',
        3 => '3',
        4 => '4',
        5 => '5',
        6 => '6',
        7 => '7',
        8 => '8',
        _ => '9',
    }
}

/// Render `n` in decimal.
pub fn fmt_u64(n: u64) -> (r: String)
    ensures
        r@ == dec_u64(n as nat),
    decreases n,
{
    if n < 10 {
        let mut s = String::new();
        s.push(dec_digit_exec(n));
        proof {
            assert(s@ =~= dec_u64(n as nat));
        }
        s
    } else {
        let mut s = fmt_u64(n / 10);
        s.push(dec_digit_exec(n % 10));
        proof {
            assert(s@ =~= dec_u64(n as nat));
        }
        s
    }
}

/// Render `i` in decimal.
pub fn fmt_i64(i: i64) -> (r: String)
    ensures
        r@ == dec_i64(i as int),
{
    if i >= 0 {
        fmt_u64(i as u64)
    } else {
        let mag: u64 = if i == i64::MIN {
            9223372036854775808u64
        } else {
            (-i) as u64
        };
        let mut s = String::new();
        s.push('-');
        let d = fmt_u64(mag);
        s.append(d.as_str());
        proof {
            assert(s@ =~= dec_i64(i as int));
        }
        s
    }
}

/// A span/trace identifier source: random UUIDs in production, a readable
/// counter under test.
#[derive(Clone, Copy, Debug)]
pub enum IdGen {
    Random,
    Sequential { next_span: u64, next_trace: u64 },
}

impl IdGen {
    /// A fresh span identifier: `span_<n>` in sequential mode.
    pub fn span_id(&mut self) -> (r: String)
        ensures
            match *old(self) {
                IdGen::Sequential { next_span, next_trace } => {
                    &&& r@ == "span_"@ + dec_u64(next_span as nat)
                    &&& *final(self) == (IdGen::Sequential {
                        next_span: if next_span == u64::MAX {
                            0
                        } else {
                            (next_span + 1) as u64
                        },
                        next_trace,
                    })
                },
                IdGen::Random => *final(self) == *old(self),
            },
    {
        match *self {
            IdGen::Random => next_span_id(),
            IdGen::Sequential { next_span, next_trace } => {
                let mut s = String::from_str("span_");
                let d = fmt_u64(next_span);
                s.append(d.as_str());
                let bumped: u64 = if next_span == u64::MAX {
                    0
                } else {
                    next_span + 1
                };
                *self = IdGen::Sequential { next_span: bumped, next_trace };
                s
            },
        }
    }

    /// A fresh trace identifier: `trace_<n>` in sequential mode.
    pub fn trace_id(&mut self) -> (r: String)
        ensures
            match *old(self) {
                IdGen::Sequential { next_span, next_trace } => {
                    &&& r@ == "trace_"@ + dec_u64(next_trace as nat)
                    &&& *final(self) == (IdGen::Sequential {
                        next_span,
                        next_trace: if next_trace == u64::MAX {
                            0
                        } else {
                            (next_trace + 1) as u64
                        },
                    })
                },
                IdGen::Random => *final(self) == *old(self),
            },
    {
        match *self {
            IdGen::Random => next_trace_id(),
            IdGen::Sequential { next_span, next_trace } => {
                let mut s = String::from_str("trace_");
                let d = fmt_u64(next_trace);
                s.append(d.as_str());
                let bumped: u64 = if next_trace == u64::MAX {
                    0
                } else {
                    next_trace + 1
                };
                *self = IdGen::Sequential { next_span, next_trace: bumped };
                s
            },
        }
    }
}

/// Whether `b` is the code of an ASCII decimal digit.
pub open spec fn is_digit_byte(b: u8) -> bool {
    48 <= b <= 57
}

/// The numeric value of a sequence of digit bytes, most significant first.
pub open spec fn digits_val(s: Seq<u8>) -> int
    decreases s.len(),
{
    if s.len() == 0 {
        0
    } else {
        digits_val(s.drop_last()) * 10 + (s.last() - 48)
    }
}

/// The digits of a number that may carry one leading `+`.
pub open spec fn strip_plus(s: Seq<u8>) -> Seq<u8> {
    if s.len() > 0 && s[0] == 43 {
        s.skip(1)
    } else {
        s
    }
}

/// Whether every byte is an ASCII decimal digit.
pub open spec fn all_digits(s: Seq<u8>) -> bool {
    forall|i: int| 0 <= i < s.len() ==> is_digit_byte(#[trigger] s[i])
}

/// What `parse_u64` accepts: an optional leading `+`, then one or more
/// decimal digits whose value fits in 64 bits.
pub open spec fn parse_u64_spec(s: Seq<u8>) -> Option<u64> {
    if strip_plus(s).len() == 0 {
        None
    } else if !all_digits(strip_plus(s)) {
        None
    } else if digits_val(strip_plus(s)) > u64::MAX {
        None
    } else {
        Some(digits_val(strip_plus(s)) as u64)
    }
}

proof fn lemma_digits_val_nonneg(s: Seq<u8>)
    requires
        forall|i: int| 0 <= i < s.len() ==> is_digit_byte(#[trigger] s[i]),
    ensures
        digits_val(s) >= 0,
    decreases s.len(),
{
    if s.len() > 0 {
        lemma_digits_val_nonneg(s.drop_last());
    }
}

proof fn lemma_digits_val_prefix(s: Seq<u8>, j: int)
    requires
        forall|i: int| 0 <= i < s.len() ==> is_digit_byte(#[trigger] s[i]),
        0 <= j <= s.len(),
    ensures
        digits_val(s.take(j)) <= digits_val(s),
    decreases s.len() - j,
{
    if j < s.len() {
        lemma_digits_val_nonneg(s.take(j));
        assert(s.take(j + 1).drop_last() =~= s.take(j));
        assert(digits_val(s.take(j + 1)) == digits_val(s.take(j)) * 10 + (s[j] - 48));
        lemma_digits_val_prefix(s, j + 1);
    } else {
        assert(s.take(j) =~= s);
    }
}

/// Parse a decimal unsigned integer, as the `retry-after` header carries one.
pub fn parse_u64(s: &str) -> (r: Option<u64>)
    ensures
        r == parse_u64_spec(s.spec_bytes()),
{
    let b = s.as_bytes();
    let ghost whole = s.spec_bytes();
    if b.len() == 0 {
        return None;
    }
    let start: usize = if b[0] == 43 {
        1
    } else {
        0
    };
    let ghost ds = strip_plus(whole);
    if start == b.len() {
        return None;
    }
    let mut acc: u64 = 0;
    let mut i: usize = start;
    while i < b.len()
        invariant
            start <= i <= b.len(),
            b@ == whole,
            whole == s.spec_bytes(),
            start == 1 ==> whole.len() > 0 && whole[0] == 43,
            start == 0 ==> whole.len() == 0 || whole[0] != 43,
            ds == strip_plus(whole),
            ds.len() == b.len() - start,
            forall|j: int| 0 <= j < ds.len() ==> ds[j] == whole[j + start],
            forall|j: int| 0 <= j < i - start ==> is_digit_byte(#[trigger] ds[j]),
            acc == digits_val(ds.take(i - start)),
        decreases b.len() - i,
    {
        let c = b[i];
        if c < 48 || c > 57 {
            proof {
                assert(ds[i - start] == whole[i as int]);
                assert(!is_digit_byte(ds[i - start]));
                assert(!all_digits(ds));
                assert(parse_u64_spec(whole) is None);
            }
            return None;
        }
        let d: u64 = (c - 48) as u64;
        proof {
            assert(ds.take(i - start + 1).drop_last() =~= ds.take(i - start));
            assert(digits_val(ds.take(i - start + 1)) == acc * 10 + d);
        }
        if acc > (u64::MAX - d) / 10 {
            proof {
                assert(acc * 10 + d > u64::MAX) by (nonlinear_arith)
                    requires
                        acc > (u64::MAX - d) / 10,
                        d < 10,
                ;
                if all_digits(ds) {
                    lemma_digits_val_prefix(ds, i - start + 1);
                    assert(digits_val(ds) > u64::MAX);
                }
                assert(parse_u64_spec(whole) is None);
            }
            return None;
        }
        proof {
            assert(acc * 10 + d <= u64::MAX) by (nonlinear_arith)
                requires
                    acc <= (u64::MAX - d) / 10,
                    d < 10,
            ;
        }
        acc = acc * 10 + d;
        i += 1;
    }
    proof {
        assert(ds.take(i - start) =~= ds);
    }
    Some(acc)
}

} // verus!
