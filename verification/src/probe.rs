//! Reading what the engine answered: whether a call succeeded, and the
//! duration that the probe printed.

use vstd::prelude::*;
use crate::text::lemma_tail_start;
use crate::text::tail_start;

verus! {

/// The length of a clip, in microseconds.
#[derive(Clone, Copy, Debug, PartialEq, Eq, Structural)]
pub struct ClipLength {
    pub micros: u64,
}

impl ClipLength {
    /// The length of nothing.
    pub fn zero() -> (length: ClipLength)
        ensures
            length.micros == 0,
    {
        ClipLength { micros: 0 }
    }

    /// The whole seconds of the length.
    pub fn whole_seconds(&self) -> (seconds: u64)
        ensures
            seconds == self.micros / 1_000_000,
    {
        self.micros / 1_000_000
    }

    /// The microseconds beyond the whole seconds.
    pub fn subsec_micros(&self) -> (micros: u32)
        ensures
            micros == self.micros % 1_000_000,
    {
        (self.micros % 1_000_000) as u32
    }
}

/// Why an operation did not do its work.
#[derive(Clone, Debug, PartialEq, Eq)]
pub enum Failure {
    /// The probe did not report a duration.
    ProbeFailed,
    /// The engine did not split the clip; with what it said.
    SplitFailed(String),
    /// The engine did not write the stream asked for.
    TranscodeFailed,
    /// A file or directory could not be created, copied, renamed or removed.
    FilesystemError,
}

/// What a finished call of the engine left behind.
#[derive(Clone, Debug, PartialEq, Eq)]
pub struct Output {
    /// Whether the program ended with exit code 0.
    pub success: bool,
    /// What it wrote to its standard output.
    pub stdout: Vec<u8>,
    /// What it wrote to its error stream.
    pub stderr: String,
}

/// How a call of the engine went.
#[derive(Clone, Debug, PartialEq, Eq)]
pub enum Run {
    /// The program could not be started; with the reason.
    NotStarted(String),
    /// The program ran and ended.
    Finished(Output),
}

/// Whether a call ran and ended with success.
pub open spec fn succeeded(run: Run) -> bool {
    match run {
        Run::NotStarted(_) => false,
        Run::Finished(output) => output.success,
    }
}

/// What a failed call has to say: the program's error stream, or the reason
/// why it did not start.
pub open spec fn diagnostic(run: Run) -> Seq<char> {
    match run {
        Run::NotStarted(reason) => reason@,
        Run::Finished(output) => output.stderr@,
    }
}

impl Run {
    /// Whether the call ran and ended with success.
    pub fn succeeded(&self) -> (yes: bool)
        ensures
            yes == succeeded(*self),
    {
        match self {
            Run::NotStarted(_) => false,
            Run::Finished(output) => output.success,
        }
    }

    /// What the call has to say for itself: the program's error stream, or
    /// the reason why it did not start.
    pub fn diagnostic(&self) -> (text: String)
        ensures
            text@ == diagnostic(*self),
    {
        match self {
            Run::NotStarted(reason) => reason.clone(),
            Run::Finished(output) => output.stderr.clone(),
        }
    }
}

/// Whether `b` is a blank: a space, a tab, a line feed, a vertical tab, a
/// form feed or a carriage return.
pub open spec fn is_blank(b: u8) -> bool {
    b == 32 || 9 <= b <= 13
}

/// `s` without the blanks at its start.
pub open spec fn trim_start(s: Seq<u8>) -> Seq<u8>
    decreases s.len(),
{
    if s.len() > 0 && is_blank(s[0]) {
        trim_start(s.drop_first())
    } else {
        s
    }
}

/// `s` without the blanks at its end.
pub open spec fn trim_end(s: Seq<u8>) -> Seq<u8>
    decreases s.len(),
{
    if s.len() > 0 && is_blank(s.last()) {
        trim_end(s.drop_last())
    } else {
        s
    }
}

/// `s` without the blanks at either end.
pub open spec fn trimmed(s: Seq<u8>) -> Seq<u8> {
    trim_end(trim_start(s))
}

/// Whether `b` is one of the digits `0` to `9`.
pub open spec fn is_digit_byte(b: u8) -> bool {
    48 <= b <= 57
}

/// Whether `s` holds digits only.
pub open spec fn all_digits(s: Seq<u8>) -> bool {
    forall|i: int| 0 <= i < s.len() ==> is_digit_byte(#[trigger] s[i])
}

/// The digit at place `i` of `s`, or zero where `s` has none there.
pub open spec fn digit_at(s: Seq<u8>, i: int) -> nat {
    if 0 <= i < s.len() && is_digit_byte(s[i]) {
        (s[i] - 48) as nat
    } else {
        0
    }
}

/// The number that the first `places` digits of `s` denote, with zeros
/// standing where `s` has ended.
pub open spec fn leading_value(s: Seq<u8>, places: nat) -> nat
    decreases places,
{
    if places == 0 {
        0
    } else {
        leading_value(s, (places - 1) as nat) * 10 + digit_at(s, places - 1)
    }
}

/// The part of a decimal before its point.
pub open spec fn whole_part(t: Seq<u8>) -> Seq<u8> {
    let k = tail_start(t, 46u8);
    if k == 0 {
        t
    } else {
        t.subrange(0, k - 1)
    }
}

/// The part of a decimal behind its point; empty where it has no point.
pub open spec fn fraction_part(t: Seq<u8>) -> Seq<u8> {
    let k = tail_start(t, 46u8);
    if k == 0 {
        Seq::empty()
    } else {
        t.subrange(k, t.len() as int)
    }
}

/// Whether `t` is a decimal: digits, with at most one point among them, and
/// at least one digit.
pub open spec fn is_decimal(t: Seq<u8>) -> bool {
    &&& all_digits(whole_part(t))
    &&& all_digits(fraction_part(t))
    &&& whole_part(t).len() + fraction_part(t).len() > 0
}

/// The microseconds in the seconds that the decimal `t` denotes. Digits
/// behind the sixth place after the point are dropped.
pub open spec fn micros_of(t: Seq<u8>) -> nat {
    leading_value(whole_part(t), whole_part(t).len()) * 1_000_000 + leading_value(
        fraction_part(t),
        6,
    )
}

/// The duration that the probe's output states, in microseconds: the output
/// without the blanks around it, read as a decimal number of seconds.
pub open spec fn duration_micros(output: Seq<u8>) -> Option<nat> {
    let t = trimmed(output);
    if is_decimal(t) {
        Some(micros_of(t))
    } else {
        None
    }
}

/// More places of a number denote no less than fewer of them.
pub proof fn lemma_leading_value_grows(s: Seq<u8>, fewer: nat, places: nat)
    requires
        fewer <= places,
    ensures
        leading_value(s, fewer) <= leading_value(s, places),
    decreases places,
{
    if fewer < places {
        lemma_leading_value_grows(s, fewer, (places - 1) as nat);
    }
}

/// The first six places behind the point come to less than a second.
pub proof fn lemma_fraction_below_one(s: Seq<u8>)
    ensures
        leading_value(s, 6) < 1_000_000,
{
    reveal_with_fuel(leading_value, 7);
}

proof fn lemma_trim_start(s: Seq<u8>, a: int)
    requires
        0 <= a <= s.len(),
        forall|j: int| 0 <= j < a ==> is_blank(#[trigger] s[j]),
        a == s.len() || !is_blank(s[a]),
    ensures
        trim_start(s) == s.subrange(a, s.len() as int),
    decreases a,
{
    if a == 0 {
        assert(s.subrange(0, s.len() as int) =~= s);
    } else {
        assert(is_blank(s[0]));
        let rest = s.drop_first();
        assert forall|j: int| 0 <= j < a - 1 implies is_blank(#[trigger] rest[j]) by {
            assert(rest[j] == s[j + 1]);
        }
        lemma_trim_start(rest, a - 1);
        assert(rest.subrange(a - 1, rest.len() as int) =~= s.subrange(a, s.len() as int));
    }
}

proof fn lemma_trim_end(s: Seq<u8>, b: int)
    requires
        0 <= b <= s.len(),
        forall|j: int| b <= j < s.len() ==> is_blank(#[trigger] s[j]),
        b == 0 || !is_blank(s[b - 1]),
    ensures
        trim_end(s) == s.subrange(0, b),
    decreases s.len() - b,
{
    if b == s.len() {
        assert(s.subrange(0, b) =~= s);
    } else {
        assert(is_blank(s.last()));
        let rest = s.drop_last();
        assert forall|j: int| b <= j < rest.len() implies is_blank(#[trigger] rest[j]) by {
            assert(rest[j] == s[j]);
        }
        lemma_trim_end(rest, b);
        assert(rest.subrange(0, b) =~= s.subrange(0, b));
    }
}

fn blank(b: u8) -> (yes: bool)
    ensures
        yes == is_blank(b),
{
    b == 32 || (9 <= b && b <= 13)
}

fn digit(b: u8) -> (yes: bool)
    ensures
        yes == is_digit_byte(b),
{
    48 <= b && b <= 57
}

/// Reads the duration that the probe printed. The output is taken without
/// the blanks around it and must be a decimal number of seconds whose
/// microseconds fit in 64 bits.
pub fn parse_duration(output: &[u8]) -> (length: Option<ClipLength>)
    ensures
        match length {
            Some(l) => duration_micros(output@) == Some(l.micros as nat),
            None => match duration_micros(output@) {
                Some(m) => m > u64::MAX,
                None => true,
            },
        },
{
    let n: usize = output.len();
    let mut a: usize = 0;
    while a < n && blank(output[a])
        invariant
            a <= n,
            n == output@.len(),
            forall|j: int| 0 <= j < a ==> is_blank(#[trigger] output@[j]),
        decreases n - a,
    {
        a = a + 1;
    }
    let mut b: usize = n;
    while b > a && blank(output[b - 1])
        invariant
            a <= b <= n,
            n == output@.len(),
            forall|j: int| b <= j < n ==> is_blank(#[trigger] output@[j]),
        decreases b,
    {
        b = b - 1;
    }
    let ghost t = output@.subrange(a as int, b as int);
    proof {
        lemma_trim_start(output@, a as int);
        let rest = output@.subrange(a as int, n as int);
        assert forall|j: int| b - a <= j < rest.len() implies is_blank(#[trigger] rest[j]) by {
            assert(rest[j] == output@[j + a]);
        }
        lemma_trim_end(rest, b - a);
        assert(rest.subrange(0, b - a) =~= t);
        assert(trimmed(output@) == t);
        lemma_tail_start(t, 46u8);
    }
    let ghost k = tail_start(t, 46u8);
    // Find the point, and see that all else is digits.
    let mut point: usize = b;
    let mut i: usize = a;
    while i < b
        invariant
            a <= i <= b <= n,
            n == output@.len(),
            t == output@.subrange(a as int, b as int),
            trimmed(output@) == t,
            k == tail_start(t, 46u8),
            point == b || (a <= point < i && output@[point as int] == 46u8),
            forall|j: int| a <= j < i && j != point ==> is_digit_byte(#[trigger] output@[j]),
        decreases b - i,
    {
        let c = output[i];
        if c == 46u8 && point == b {
            point = i;
        } else if !digit(c) {
            proof {
                lemma_tail_start(t, 46u8);
                assert(t[i - a] == c);
                if point != b {
                    assert(t[point - a] == 46u8);
                }
                if k == 0 {
                    assert(whole_part(t) == t);
                } else {
                    assert(t[k - 1] == 46u8);
                    if i - a < k - 1 {
                        assert(whole_part(t)[i - a] == c);
                    } else if i - a >= k {
                        assert(fraction_part(t)[i - a - k] == c);
                    } else {
                        assert(c == 46u8);
                        assert(point - a < k - 1);
                        assert(whole_part(t)[point - a] == 46u8);
                    }
                }
                assert(!is_decimal(t));
            }
            return None;
        }
        i = i + 1;
    }
    let whole_end: usize = point;
    let fraction_from: usize = if point == b {
        b
    } else {
        point + 1
    };
    let ghost whole = output@.subrange(a as int, whole_end as int);
    let ghost fraction = output@.subrange(fraction_from as int, b as int);
    proof {
        if point == b {
            if k > 0 {
                assert(t[k - 1] == 46u8);
                assert(t[k - 1] == output@[k - 1 + a]);
                assert(is_digit_byte(output@[k - 1 + a]));
            }
            assert(k == 0);
            assert(whole =~= t);
            assert(fraction =~= Seq::<u8>::empty());
        } else {
            assert(t[point - a] == 46u8);
            if k == 0 {
                assert(t[point - a] != 46u8);
            }
            assert(t[k - 1] == output@[k - 1 + a]);
            if k - 1 + a != point {
                assert(is_digit_byte(output@[k - 1 + a]));
            }
            assert(k == point - a + 1);
            assert(whole =~= t.subrange(0, k - 1));
            assert(fraction =~= t.subrange(k, t.len() as int));
        }
        assert(whole == whole_part(t));
        assert(fraction == fraction_part(t));
        assert(all_digits(whole));
        assert(all_digits(fraction));
    }
    if whole_end - a + (b - fraction_from) == 0 {
        return None;
    }
    assert(is_decimal(t));
    // The seconds before the point.
    let mut seconds: u128 = 0;
    let mut w: usize = a;
    while w < whole_end
        invariant
            a <= w <= whole_end <= n,
            n == output@.len(),
            whole == output@.subrange(a as int, whole_end as int),
            whole == whole_part(t),
            trimmed(output@) == t,
            is_decimal(t),
            seconds == leading_value(whole, (w - a) as nat),
            seconds <= 18_446_744_073_709,
        decreases whole_end - w,
    {
        let c = output[w];
        assert(whole[w - a] == c);
        seconds = seconds * 10 + (c - 48) as u128;
        w = w + 1;
        if seconds > 18_446_744_073_709 {
            proof {
                lemma_leading_value_grows(whole, (w - a) as nat, whole.len());
            }
            return None;
        }
    }
    // The first six places behind it.
    let mut part: u128 = 0;
    let mut place: usize = 0;
    while place < 6
        invariant
            place <= 6,
            fraction_from <= b <= n,
            n == output@.len(),
            fraction == output@.subrange(fraction_from as int, b as int),
            fraction == fraction_part(t),
            is_decimal(t),
            part == leading_value(fraction, place as nat),
            part < 1_000_000,
        decreases 6 - place,
    {
        let d: u128 = if place < b - fraction_from {
            let c = output[fraction_from + place];
            assert(fraction[place as int] == c);
            (c - 48) as u128
        } else {
            0
        };
        proof {
            lemma_leading_value_grows(fraction, (place + 1) as nat, 6);
            lemma_fraction_below_one(fraction);
        }
        part = part * 10 + d;
        place = place + 1;
    }
    let total: u128 = seconds * 1_000_000 + part;
    if total > u64::MAX as u128 {
        None
    } else {
        Some(ClipLength { micros: total as u64 })
    }
}

/// The duration that a run of the duration probe states, in microseconds:
/// the number that it printed, where it ran and ended with success.
pub open spec fn probed_micros(run: Run) -> Option<nat> {
    match run {
        Run::NotStarted(_) => None,
        Run::Finished(output) => if output.success {
            duration_micros(output.stdout@)
        } else {
            None
        },
    }
}

/// The duration that a run of the duration probe reports. The probe has
/// failed where it did not start, did not end with success, printed no
/// decimal, or printed one whose microseconds do not fit in 64 bits.
pub fn duration_of(run: &Run) -> (length: Result<ClipLength, Failure>)
    ensures
        match length {
            Ok(l) => probed_micros(*run) == Some(l.micros as nat),
            Err(e) => e is ProbeFailed && (probed_micros(*run) matches Some(m) ==> m > u64::MAX),
        },
{
    match run {
        Run::NotStarted(_) => Err(Failure::ProbeFailed),
        Run::Finished(output) => {
            if output.success {
                match parse_duration(output.stdout.as_slice()) {
                    Some(l) => Ok(l),
                    None => Err(Failure::ProbeFailed),
                }
            } else {
                Err(Failure::ProbeFailed)
            }
        },
    }
}

/// Whether a run of the audio test found audio: it did where the run ended
/// with success. A run that failed or did not start counts as no audio.
pub fn audio_present(run: &Run) -> (present: bool)
    ensures
        present == succeeded(*run),
{
    run.succeeded()
}

/// What a run of the split means: done where it ended with success, else
/// failed, with what the engine said.
pub fn split_result(run: &Run) -> (result: Result<(), Failure>)
    ensures
        result is Ok <==> succeeded(*run),
        result matches Err(e) ==> (e matches Failure::SplitFailed(text) && text@ == diagnostic(*run)),
{
    if run.succeeded() {
        Ok(())
    } else {
        Err(Failure::SplitFailed(run.diagnostic()))
    }
}

/// What a run that extracts or removes a stream means: done where it ended
/// with success, else failed.
pub fn transcode_result(run: &Run) -> (result: Result<(), Failure>)
    ensures
        result is Ok <==> succeeded(*run),
        result matches Err(e) ==> e is TranscodeFailed,
{
    if run.succeeded() {
        Ok(())
    } else {
        Err(Failure::TranscodeFailed)
    }
}

} // verus!
