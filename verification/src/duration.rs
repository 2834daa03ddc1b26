//! Non-negative time deltas and the Duration Parser.
//!
//! A `TimeDelta` mirrors the machine representation of a span of time: whole
//! seconds plus a sub-second remainder in nanoseconds. Its mathematical view
//! is the total number of nanoseconds, an `int`. Reading duration text and
//! rendering a delta back to text go through `humantime`, behind trusted
//! wrappers whose results are named by uninterpreted spec functions. Text is
//! handed to the parser only after a verified check that its numerals sum
//! within `MAX_NUMERAL_SUM`: past that the parser could abort building the
//! standard `Duration`, so such text is treated as unparseable instead.

use vstd::prelude::*;

verus! {

use vstd::string::StringSliceAdditionalSpecFns;

/// Nanoseconds in one second.
pub const NANOS_PER_SEC: u32 = 1_000_000_000;

/// The largest total-nanosecond value a `TimeDelta` can hold:
/// `u64::MAX` whole seconds plus the largest sub-second remainder.
pub open spec fn max_delta_nanos() -> int {
    u64::MAX * (NANOS_PER_SEC as int) + (NANOS_PER_SEC as int - 1)
}

/// A sub-second count, held below one second.
spec fn carried_nanos(nanos: u32) -> int {
    if nanos < NANOS_PER_SEC {
        nanos as int
    } else {
        NANOS_PER_SEC as int - 1
    }
}

/// A non-negative span of time with nanosecond precision.
#[derive(Clone, Copy, Debug, PartialEq, Eq)]
pub struct TimeDelta {
    secs: u64,
    nanos: u32,
}

impl View for TimeDelta {
    type V = int;

    /// The span as a total count of nanoseconds. The sub-second part is
    /// read through `carried_nanos`, so the view is bounded whatever the
    /// fields hold; constructed values always satisfy `inv`, where the two
    /// readings agree.
    closed spec fn view(&self) -> int {
        self.secs * (NANOS_PER_SEC as int) + carried_nanos(self.nanos)
    }
}

impl TimeDelta {
    /// The sub-second part never reaches a full second.
    #[verifier::type_invariant]
    spec fn inv(self) -> bool {
        self.nanos < NANOS_PER_SEC
    }

    /// The zero span.
    pub fn zero() -> (r: TimeDelta)
        ensures
            r@ == 0,
    {
        TimeDelta { secs: 0, nanos: 0 }
    }

    /// A span of whole seconds.
    pub fn from_secs(secs: u64) -> (r: TimeDelta)
        ensures
            r@ == secs * (NANOS_PER_SEC as int),
    {
        TimeDelta { secs, nanos: 0 }
    }

    /// A span of whole seconds plus a sub-second remainder.
    pub fn from_parts(secs: u64, nanos: u32) -> (r: TimeDelta)
        requires
            nanos < NANOS_PER_SEC,
        ensures
            r@ == secs * (NANOS_PER_SEC as int) + nanos,
    {
        TimeDelta { secs, nanos }
    }

    /// The whole-second part of the span.
    pub fn secs(&self) -> (r: u64)
        ensures
            r == self@ / (NANOS_PER_SEC as int),
    {
        proof {
            use_type_invariant(self);
            vstd::arithmetic::div_mod::lemma_fundamental_div_mod_converse(
                self@,
                NANOS_PER_SEC as int,
                self.secs as int,
                self.nanos as int,
            );
        }
        self.secs
    }

    /// The sub-second part of the span, in nanoseconds.
    pub fn subsec_nanos(&self) -> (r: u32)
        ensures
            r == self@ % (NANOS_PER_SEC as int),
    {
        proof {
            use_type_invariant(self);
            vstd::arithmetic::div_mod::lemma_fundamental_div_mod_converse(
                self@,
                NANOS_PER_SEC as int,
                self.secs as int,
                self.nanos as int,
            );
        }
        self.nanos
    }

    /// Whether this span is at least as long as `other`.
    pub fn ge(self, other: TimeDelta) -> (r: bool)
        ensures
            r == (self@ >= other@),
    {
        proof {
            use_type_invariant(self);
            use_type_invariant(other);
        }
        self.secs > other.secs || (self.secs == other.secs && self.nanos >= other.nanos)
    }

    /// The sum of two spans, or `None` where it would not fit.
    pub fn checked_add(self, other: TimeDelta) -> (r: Option<TimeDelta>)
        ensures
            self@ + other@ <= max_delta_nanos() ==> (r matches Some(d) && d@ == self@ + other@),
            self@ + other@ > max_delta_nanos() ==> r is None,
    {
        proof {
            use_type_invariant(self);
            use_type_invariant(other);
        }
        let nsum: u32 = self.nanos + other.nanos;
        let carry: u64 = if nsum >= NANOS_PER_SEC {
            1
        } else {
            0
        };
        let nanos: u32 = if nsum >= NANOS_PER_SEC {
            nsum - NANOS_PER_SEC
        } else {
            nsum
        };
        match self.secs.checked_add(other.secs) {
            None => None,
            Some(s) => match s.checked_add(carry) {
                None => None,
                Some(secs) => Some(TimeDelta { secs, nanos }),
            },
        }
    }

    /// The difference of two spans; the smaller comes off the larger.
    pub fn diff(self, other: TimeDelta) -> (r: TimeDelta)
        requires
            other@ <= self@,
        ensures
            r@ == self@ - other@,
    {
        proof {
            use_type_invariant(self);
            use_type_invariant(other);
        }
        if self.nanos >= other.nanos {
            TimeDelta { secs: self.secs - other.secs, nanos: self.nanos - other.nanos }
        } else {
            TimeDelta {
                secs: self.secs - other.secs - 1,
                nanos: self.nanos + NANOS_PER_SEC - other.nanos,
            }
        }
    }

    /// The Duration Parser: reads free-form duration text ("1h 15min",
    /// "30s"). Text that does not parse yields the zero span, never an
    /// error; so does text whose numerals sum past `MAX_NUMERAL_SUM`,
    /// which is never handed to the parser.
    pub fn parse_or_zero(text: &str) -> (r: TimeDelta)
        ensures
            r@ == delta_of_text(text.spec_bytes()),
    {
        if numerals_within_limit(text) {
            match parse_delta(text) {
                Some(d) => d,
                None => TimeDelta::zero(),
            }
        } else {
            TimeDelta::zero()
        }
    }
}

/// Every span is non-negative and bounded by the largest representable one.
pub proof fn lemma_delta_bounds(d: TimeDelta)
    ensures
        0 <= d@ <= max_delta_nanos(),
{
}

/// An ASCII digit.
pub open spec fn is_digit_byte(x: u8) -> bool {
    48 <= x <= 57
}

/// An ASCII letter: a unit name, which ends a number in duration text.
pub open spec fn is_letter_byte(x: u8) -> bool {
    (65 <= x <= 90) || (97 <= x <= 122)
}

/// Folds the text's numerals left to right: a digit extends the current
/// number, a letter closes it, and every other byte (whitespace, dots,
/// other symbols) is stepped over, so digit groups it separates are read
/// joined. The duration parser joins digits across whitespace the same
/// way; joining groups only ever grows the sum, so every number the
/// parser accumulates is bounded by this fold's result.
pub open spec fn numeral_sum_go(b: Seq<u8>, cur: int, acc: int) -> int
    decreases b.len(),
{
    if b.len() == 0 {
        acc + cur
    } else if is_digit_byte(b[0]) {
        numeral_sum_go(b.drop_first(), 10 * cur + (b[0] - 48), acc)
    } else if is_letter_byte(b[0]) {
        numeral_sum_go(b.drop_first(), 0, acc + cur)
    } else {
        numeral_sum_go(b.drop_first(), cur, acc)
    }
}

/// The sum of every number that can be read in the text.
pub open spec fn numeral_sum(b: Seq<u8>) -> int {
    numeral_sum_go(b, 0, 0)
}

/// Only text whose numerals sum to no more than this is handed to the
/// duration parser; anything beyond is treated as unparseable. Each
/// number feeds the parser's seconds total at a factor of at most
/// 31,557,600 (a year) plus a sub-second carry of at most six times
/// itself, so under this bound every seconds total it builds stays below
/// 1.3e19, safely under `u64::MAX`, where constructing the standard
/// `Duration` would abort.
pub const MAX_NUMERAL_SUM: u64 = 400_000_000_000;

/// Whether the text's numerals sum within `MAX_NUMERAL_SUM`.
fn numerals_within_limit(s: &str) -> (r: bool)
    ensures
        r == (numeral_sum(s.spec_bytes()) <= MAX_NUMERAL_SUM as int),
{
    let bytes: &[u8] = s.as_bytes();
    let ghost all = s.spec_bytes();
    let mut cur: u64 = 0;
    let mut acc: u64 = 0;
    let ghost mut true_cur: int = 0;
    let ghost mut true_acc: int = 0;
    let mut i: usize = 0;
    proof {
        assert(all.skip(0) =~= all);
    }
    while i < bytes.len()
        invariant
            bytes@ == all,
            i <= all.len(),
            0 <= true_cur,
            0 <= true_acc,
            true_cur <= MAX_NUMERAL_SUM ==> cur == true_cur,
            true_cur > MAX_NUMERAL_SUM ==> cur == MAX_NUMERAL_SUM + 1,
            true_acc <= MAX_NUMERAL_SUM ==> acc == true_acc,
            true_acc > MAX_NUMERAL_SUM ==> acc == MAX_NUMERAL_SUM + 1,
            numeral_sum(all) == numeral_sum_go(all.skip(i as int), true_cur, true_acc),
        decreases all.len() - i,
    {
        let x: u8 = bytes[i];
        proof {
            assert(all.skip(i as int)[0] == all[i as int]);
            assert(all.skip(i as int).drop_first() =~= all.skip(i + 1));
        }
        if x >= 48 && x <= 57 {
            proof {
                assert(numeral_sum_go(all.skip(i as int), true_cur, true_acc)
                    == numeral_sum_go(all.skip(i + 1), 10 * true_cur + (x - 48), true_acc));
                true_cur = 10 * true_cur + (x - 48);
            }
            cur = cur * 10 + ((x - 48) as u64);
            if cur > MAX_NUMERAL_SUM {
                cur = MAX_NUMERAL_SUM + 1;
            }
        } else if (x >= 65 && x <= 90) || (x >= 97 && x <= 122) {
            proof {
                assert(numeral_sum_go(all.skip(i as int), true_cur, true_acc)
                    == numeral_sum_go(all.skip(i + 1), 0, true_acc + true_cur));
                true_acc = true_acc + true_cur;
                true_cur = 0;
            }
            acc = acc + cur;
            if acc > MAX_NUMERAL_SUM {
                acc = MAX_NUMERAL_SUM + 1;
            }
            cur = 0;
        } else {
            proof {
                assert(numeral_sum_go(all.skip(i as int), true_cur, true_acc)
                    == numeral_sum_go(all.skip(i + 1), true_cur, true_acc));
            }
        }
        i = i + 1;
    }
    proof {
        assert(all.skip(all.len() as int) =~= Seq::<u8>::empty());
    }
    acc <= MAX_NUMERAL_SUM && cur <= MAX_NUMERAL_SUM && acc + cur <= MAX_NUMERAL_SUM
}

/// What `humantime::parse_duration` makes of the text: the total
/// nanoseconds on success, or `None` where the text does not parse.
pub uninterp spec fn parsed_duration_nanos(b: Seq<u8>) -> Option<int>;

/// The span that duration text denotes: the parsed value, or zero where
/// the text does not parse or carries numerals past `MAX_NUMERAL_SUM`.
pub open spec fn delta_of_text(b: Seq<u8>) -> int {
    if numeral_sum(b) <= MAX_NUMERAL_SUM as int {
        match parsed_duration_nanos(b) {
            Some(n) => n,
            None => 0,
        }
    } else {
        0
    }
}

/// Relies on `humantime::parse_duration`: its result is a pure function of
/// the text, and on success `std::time::Duration` keeps the sub-second
/// part below one second (`subsec_nanos` is documented to be under a
/// billion). The `requires` keeps the call away from the one abort in its
/// source: the parser adds each number times at most a year's seconds,
/// with a sub-second carry of at most six times the number, all through
/// checked arithmetic, and the final `Duration::new` can only overflow
/// when that seconds total reaches exactly `u64::MAX` while the
/// nanoseconds land exactly on one second — unreachable while the text's
/// numerals sum within the bound.
#[verifier::external_body]
fn parse_delta(s: &str) -> (r: Option<TimeDelta>)
    requires
        numeral_sum(s.spec_bytes()) <= MAX_NUMERAL_SUM as int,
    ensures
        r matches Some(d) ==> parsed_duration_nanos(s.spec_bytes()) == Some(d@),
        r is None ==> parsed_duration_nanos(s.spec_bytes()) is None,
{
    match humantime::parse_duration(s) {
        Ok(d) => Some(TimeDelta { secs: d.as_secs(), nanos: d.subsec_nanos() }),
        Err(_) => None,
    }
}

/// What `humantime::format_duration` prints for a span of that many
/// nanoseconds.
pub uninterp spec fn formatted_nanos(n: int) -> Seq<char>;

/// Relies on `humantime::format_duration`: the text is a pure function of
/// the duration value alone.
#[verifier::external_body]
pub(crate) fn format_delta(d: TimeDelta) -> (r: String)
    ensures
        r@ == formatted_nanos(d@),
{
    humantime::format_duration(std::time::Duration::new(d.secs, d.nanos)).to_string()
}

} // verus!
