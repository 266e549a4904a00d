use crate::text::{chars_of, contains, contains_exec, starts_with, starts_with_exec};
use vstd::prelude::*;

verus! {

/// What a probing strategy reports.
#[derive(Debug, Clone)]
pub enum PingResult {
    /// A reply: round-trip time in nanoseconds, and the line or address it
    /// came from.
    Pong(u128, String),
    /// The platform reported a missed reply.
    Timeout(String),
    /// Output that could not be classified, passed on for diagnosis.
    Unknown(String),
    /// The `ping` process ended: its exit code, if it had one, and its stderr.
    PingExited(Option<i32>, String),
}

/// The output dialects of the platform `ping` binaries.
#[derive(Debug, Clone, Copy, PartialEq, Eq, Structural)]
pub enum Dialect {
    /// iputils and BusyBox on Linux.
    Linux,
    /// FreeBSD, DragonFly, OpenBSD, NetBSD and macOS.
    Bsd,
    /// Windows.
    Windows,
}

/// What a line of `ping` output reports, apart from the line itself.
#[derive(Debug, Clone, Copy, PartialEq, Eq, Structural)]
pub enum LineKind {
    Pong(u128),
    Timeout,
    Unknown,
}

/// `r` reports `kind` for `line`, and carries the line with it.
pub open spec fn reports(r: Option<PingResult>, line: Seq<char>, kind: Option<LineKind>) -> bool {
    match r {
        None => kind is None,
        Some(PingResult::Pong(d, l)) => l@ == line && kind == Some(LineKind::Pong(d)),
        Some(PingResult::Timeout(l)) => l@ == line && kind == Some(LineKind::Timeout),
        Some(PingResult::Unknown(l)) => l@ == line && kind == Some(LineKind::Unknown),
        Some(PingResult::PingExited(_, _)) => false,
    }
}

pub open spec fn is_digit(c: char) -> bool {
    '0' <= c && c <= '9'
}

/// The blanks allowed between a measurement and its unit: spaces for Linux,
/// any ASCII white space otherwise.
pub open spec fn is_blank(c: char, d: Dialect) -> bool {
    if d == Dialect::Linux {
        c == ' '
    } else {
        c == ' ' || c == '\t' || c == '\n' || c == '\r' || c == '\x0b' || c == '\x0c'
    }
}

/// End of the run of digits that starts at `i`.
pub open spec fn digit_end(c: Seq<char>, i: int) -> int
    decreases c.len() - i,
{
    if i < 0 || i >= c.len() || !is_digit(c[i]) {
        i
    } else {
        digit_end(c, i + 1)
    }
}

/// End of the run of blanks that starts at `i`.
pub open spec fn blank_end(c: Seq<char>, i: int, d: Dialect) -> int
    decreases c.len() - i,
{
    if i < 0 || i >= c.len() || !is_blank(c[i], d) {
        i
    } else {
        blank_end(c, i + 1, d)
    }
}

/// `c[i]` is the letter `lower`, or `upper` where the dialect ignores case
/// (Linux and Windows do, in ASCII).
pub open spec fn letter_at(c: Seq<char>, i: int, lower: char, upper: char, d: Dialect) -> bool {
    0 <= i < c.len() && (c[i] == lower || (d != Dialect::Bsd && c[i] == upper))
}

/// `time=` begins at `p`.
pub open spec fn label_at(c: Seq<char>, p: int, d: Dialect) -> bool {
    &&& letter_at(c, p, 't', 'T', d)
    &&& letter_at(c, p + 1, 'i', 'I', d)
    &&& letter_at(c, p + 2, 'm', 'M', d)
    &&& letter_at(c, p + 3, 'e', 'E', d)
    &&& letter_at(c, p + 4, '=', '=', d)
}

/// The unit `ms` begins at `i`.
pub open spec fn unit_at(c: Seq<char>, i: int, d: Dialect) -> bool {
    letter_at(c, i, 'm', 'M', d) && letter_at(c, i + 1, 's', 'S', d)
}

/// A measurement `time=<ms>[.<fraction>]` that begins at `p`, with the bounds
/// of its whole milliseconds and of its fraction (empty when there is none).
/// Linux wants the unit `ms` after optional spaces, BSD after at least one
/// blank; Windows wants no unit.
pub open spec fn match_at(c: Seq<char>, p: int, d: Dialect) -> Option<(int, int, int, int)> {
    if !label_at(c, p, d) {
        None
    } else {
        let a = p + 5;
        let b = digit_end(c, a);
        if b == a {
            None
        } else {
            let has_fraction = b < c.len() && c[b] == '.' && digit_end(c, b + 1) > b + 1;
            let fs = if has_fraction {
                b + 1
            } else {
                b
            };
            let fe = if has_fraction {
                digit_end(c, b + 1)
            } else {
                b
            };
            if d == Dialect::Windows {
                Some((a, b, fs, fe))
            } else {
                let w = blank_end(c, fe, d);
                if (d == Dialect::Bsd && w == fe) || !unit_at(c, w, d) {
                    None
                } else {
                    Some((a, b, fs, fe))
                }
            }
        }
    }
}

/// The first position at or after `p` where a measurement begins.
pub open spec fn first_match(c: Seq<char>, d: Dialect, p: int) -> Option<int>
    decreases c.len() - p,
{
    if p < 0 || p >= c.len() {
        None
    } else if match_at(c, p, d) is Some {
        Some(p)
    } else {
        first_match(c, d, p + 1)
    }
}

/// The number that the decimal digits `s` spell.
pub open spec fn digits_value(s: Seq<char>) -> nat
    decreases s.len(),
{
    if s.len() == 0 {
        0
    } else {
        digits_value(s.drop_last()) * 10 + (s.last() as u32 - 48) as nat
    }
}

pub open spec fn pow10(n: nat) -> nat
    decreases n,
{
    if n == 0 {
        1
    } else {
        10 * pow10((n - 1) as nat)
    }
}

/// The round-trip time, in nanoseconds, of the first measurement in `c`:
/// whole milliseconds, plus the fraction read to at most six digits (a
/// nanosecond). None when there is no measurement or its milliseconds do not
/// fit in 64 bits.
pub open spec fn measurement_nanos(c: Seq<char>, d: Dialect) -> Option<u128> {
    match first_match(c, d, 0) {
        None => None,
        Some(p) => {
            let (a, b, fs, fe) = match_at(c, p, d)->Some_0;
            let ms = digits_value(c.subrange(a, b));
            let k = if fe - fs > 6 {
                6
            } else {
                fe - fs
            };
            let fraction = digits_value(c.subrange(fs, fs + k)) * pow10((6 - k) as nat);
            if ms > u64::MAX {
                None
            } else {
                Some((ms * 1_000_000 + fraction) as u128)
            }
        },
    }
}

/// A line that carries nothing: blank, or the `PING host (address)` banner.
pub open spec fn is_noise(c: Seq<char>) -> bool {
    (forall|i: int| 0 <= i < c.len() ==> is_blank(#[trigger] c[i], Dialect::Bsd)) || starts_with(
        c,
        "PING "@,
    )
}

/// What a line of iputils or BusyBox output reports: a reply line that starts
/// with `64 bytes from` gives its time, `no answer yet` is a timeout.
pub open spec fn linux_kind(c: Seq<char>) -> Option<LineKind> {
    if starts_with(c, "64 bytes from"@) {
        match measurement_nanos(c, Dialect::Linux) {
            Some(n) => Some(LineKind::Pong(n)),
            None => Some(LineKind::Unknown),
        }
    } else if starts_with(c, "no answer yet"@) {
        Some(LineKind::Timeout)
    } else if is_noise(c) {
        None
    } else {
        Some(LineKind::Unknown)
    }
}

/// What a line of BSD or macOS output reports: the banner is suppressed,
/// `Request timeout` is a timeout, a measurement is a reply.
pub open spec fn bsd_kind(c: Seq<char>) -> Option<LineKind> {
    if starts_with(c, "PING "@) {
        None
    } else if starts_with(c, "Request timeout"@) {
        Some(LineKind::Timeout)
    } else {
        match measurement_nanos(c, Dialect::Bsd) {
            Some(n) => Some(LineKind::Pong(n)),
            None => if is_noise(c) {
                None
            } else {
                Some(LineKind::Unknown)
            },
        }
    }
}

/// What a line of Windows output reports: any line that mentions `timed out`
/// or `failure` is a timeout, a measurement is a reply.
pub open spec fn windows_kind(c: Seq<char>) -> Option<LineKind> {
    if contains(c, "timed out"@) || contains(c, "failure"@) {
        Some(LineKind::Timeout)
    } else {
        match measurement_nanos(c, Dialect::Windows) {
            Some(n) => Some(LineKind::Pong(n)),
            None => if is_noise(c) {
                None
            } else {
                Some(LineKind::Unknown)
            },
        }
    }
}

pub open spec fn line_kind(d: Dialect, c: Seq<char>) -> Option<LineKind> {
    match d {
        Dialect::Linux => linux_kind(c),
        Dialect::Bsd => bsd_kind(c),
        Dialect::Windows => windows_kind(c),
    }
}

fn is_digit_exec(c: char) -> (r: bool)
    ensures
        r == is_digit(c),
{
    '0' <= c && c <= '9'
}

fn is_blank_exec(c: char, d: Dialect) -> (r: bool)
    ensures
        r == is_blank(c, d),
{
    match d {
        Dialect::Linux => c == ' ',
        _ => c == ' ' || c == '\t' || c == '\n' || c == '\r' || c == '\x0b' || c == '\x0c',
    }
}

fn digit_end_exec(c: &[char], i: usize) -> (r: usize)
    requires
        i <= c@.len(),
    ensures
        r == digit_end(c@, i as int),
        i <= r <= c@.len(),
{
    let mut j = i;
    while j < c.len() && is_digit_exec(c[j])
        invariant
            i <= j <= c@.len(),
            digit_end(c@, j as int) == digit_end(c@, i as int),
        decreases c@.len() - j,
    {
        j += 1;
    }
    j
}

fn blank_end_exec(c: &[char], i: usize, d: Dialect) -> (r: usize)
    requires
        i <= c@.len(),
    ensures
        r == blank_end(c@, i as int, d),
        i <= r <= c@.len(),
{
    let mut j = i;
    while j < c.len() && is_blank_exec(c[j], d)
        invariant
            i <= j <= c@.len(),
            blank_end(c@, j as int, d) == blank_end(c@, i as int, d),
        decreases c@.len() - j,
    {
        j += 1;
    }
    j
}

fn letter_at_exec(c: &[char], i: usize, lower: char, upper: char, d: Dialect) -> (r: bool)
    ensures
        r == letter_at(c@, i as int, lower, upper, d),
{
    i < c.len() && (c[i] == lower || (d != Dialect::Bsd && c[i] == upper))
}

fn match_at_exec(c: &[char], p: usize, d: Dialect) -> (r: Option<(usize, usize, usize, usize)>)
    requires
        p < c@.len(),
    ensures
        match r {
            None => match_at(c@, p as int, d) is None,
            Some(m) => match_at(c@, p as int, d) == Some(
                (m.0 as int, m.1 as int, m.2 as int, m.3 as int),
            ),
        },
        r matches Some(m) ==> m.0 <= m.1 <= m.2 <= m.3 <= c@.len(),
{
    let n = c.len();
    if !(letter_at_exec(c, p, 't', 'T', d) && letter_at_exec(c, p + 1, 'i', 'I', d)
        && letter_at_exec(c, p + 2, 'm', 'M', d) && letter_at_exec(c, p + 3, 'e', 'E', d)
        && letter_at_exec(c, p + 4, '=', '=', d)) {
        return None;
    }
    let a = p + 5;
    let b = digit_end_exec(c, a);
    if b == a {
        return None;
    }
    let mut fs = b;
    let mut fe = b;
    if b < c.len() && c[b] == '.' {
        let e = digit_end_exec(c, b + 1);
        if e > b + 1 {
            fs = b + 1;
            fe = e;
        }
    }
    if d == Dialect::Windows {
        return Some((a, b, fs, fe));
    }
    let w = blank_end_exec(c, fe, d);
    if (d == Dialect::Bsd && w == fe) || !(letter_at_exec(c, w, 'm', 'M', d) && letter_at_exec(c, w + 1, 's', 'S', d)) {
        return None;
    }
    Some((a, b, fs, fe))
}

/// The value of the digits `c[a..b]`, if it fits in 64 bits.
fn digits_value_exec(c: &[char], a: usize, b: usize) -> (r: Option<u64>)
    requires
        a <= b <= c@.len(),
        forall|i: int| a <= i < b ==> is_digit(#[trigger] c@[i]),
    ensures
        match r {
            Some(v) => v == digits_value(c@.subrange(a as int, b as int)),
            None => digits_value(c@.subrange(a as int, b as int)) > u64::MAX,
        },
{
    let mut v: u64 = 0;
    let mut i = a;
    while i < b
        invariant
            a <= i <= b <= c@.len(),
            forall|k: int| a <= k < b ==> is_digit(#[trigger] c@[k]),
            v == digits_value(c@.subrange(a as int, i as int)),
        decreases b - i,
    {
        assert(c@.subrange(a as int, i + 1).drop_last() =~= c@.subrange(a as int, i as int));
        assert(is_digit(c@[i as int]));
        let digit = (c[i] as u32 - 48) as u64;
        let next: u128 = v as u128 * 10 + digit as u128;
        if next > u64::MAX as u128 {
            proof {
                lemma_digits_value_grows(c@, a as int, i + 1, b as int);
            }
            return None;
        }
        v = next as u64;
        i += 1;
    }
    Some(v)
}

proof fn lemma_digits_value_grows(c: Seq<char>, a: int, i: int, j: int)
    requires
        0 <= a <= i <= j <= c.len(),
    ensures
        digits_value(c.subrange(a, j)) >= digits_value(c.subrange(a, i)),
    decreases j - i,
{
    if j > i {
        lemma_digits_value_grows(c, a, i, j - 1);
        assert(c.subrange(a, j).drop_last() =~= c.subrange(a, j - 1));
    }
}

proof fn lemma_digit_run(c: Seq<char>, i: int)
    requires
        0 <= i <= c.len(),
    ensures
        i <= digit_end(c, i) <= c.len(),
        forall|k: int| i <= k < digit_end(c, i) ==> is_digit(#[trigger] c[k]),
    decreases c.len() - i,
{
    if i < c.len() && is_digit(c[i]) {
        lemma_digit_run(c, i + 1);
    }
}

/// The round-trip time of the first measurement in `c`, in nanoseconds.
pub fn measurement(c: &[char], d: Dialect) -> (r: Option<u128>)
    ensures
        r == measurement_nanos(c@, d),
{
    let mut p: usize = 0;
    while p < c.len()
        invariant
            first_match(c@, d, p as int) == first_match(c@, d, 0),
        decreases c@.len() - p,
    {
        match match_at_exec(c, p, d) {
            None => {
                p += 1;
            },
            Some((a, b, fs, fe)) => {
                proof {
                    lemma_digit_run(c@, a as int);
                    if fs < fe {
                        lemma_digit_run(c@, fs as int);
                    }
                }
                let ms = match digits_value_exec(c, a, b) {
                    Some(ms) => ms,
                    None => return None,
                };
                let k = if fe - fs > 6 {
                    6
                } else {
                    fe - fs
                };
                proof {
                    assert forall|i: int| 0 <= i < k implies is_digit(
                        #[trigger] c@.subrange(fs as int, fs + k)[i],
                    ) by {
                        assert(c@.subrange(fs as int, fs + k)[i] == c@[fs + i]);
                    }
                    lemma_small_digits(c@.subrange(fs as int, fs + k));
                    lemma_pow10_mono(k as nat, 6);
                }
                let f = match digits_value_exec(c, fs, fs + k) {
                    Some(f) => f,
                    None => return None,
                };
                let mut fraction: u64 = f;
                let mut j = k;
                assert(pow10(0) == 1);
                assert(f * pow10(0) == f);
                assert(fraction == f * pow10((j - k) as nat));
                while j < 6
                    invariant
                        k <= j <= 6,
                        f < pow10(k as nat),
                        fraction == f * pow10((j - k) as nat),
                        fraction < pow10(j as nat),
                    decreases 6 - j,
                {
                    proof {
                        assert(pow10((j + 1 - k) as nat) == 10 * pow10((j - k) as nat));
                        let x = pow10((j - k) as nat);
                        assert(f * (10 * x) == (f * x) * 10) by (nonlinear_arith);
                        assert(pow10((j + 1) as nat) == 10 * pow10(j as nat));
                        assert(pow10(j as nat) <= 1_000_000) by {
                            lemma_pow10_mono(j as nat, 6);
                        }
                    }
                    fraction = fraction * 10;
                    j += 1;
                }
                proof {
                    assert(fraction == f * pow10((6 - k) as nat));
                }
                return Some(ms as u128 * 1_000_000 + fraction as u128);
            },
        }
    }
    None
}

proof fn lemma_pow10_mono(i: nat, j: nat)
    requires
        i <= j,
    ensures
        pow10(i) <= pow10(j),
        pow10(6) == 1_000_000,
    decreases j,
{
    reveal_with_fuel(pow10, 7);
    if i < j {
        lemma_pow10_mono(i, (j - 1) as nat);
    }
}

proof fn lemma_small_digits(s: Seq<char>)
    requires
        forall|i: int| 0 <= i < s.len() ==> is_digit(#[trigger] s[i]),
    ensures
        digits_value(s) < pow10(s.len()),
    decreases s.len(),
{
    if s.len() > 0 {
        lemma_small_digits(s.drop_last());
    }
}

fn is_noise_exec(c: &[char]) -> (r: bool)
    ensures
        r == is_noise(c@),
{
    let banner = chars_of("PING ");
    assert(banner@ == "PING "@);
    if starts_with_exec(c, banner.as_slice()) {
        return true;
    }
    assert(!starts_with(c@, "PING "@));
    let mut i: usize = 0;
    while i < c.len()
        invariant
            i <= c@.len(),
            !starts_with(c@, "PING "@),
            forall|k: int| 0 <= k < i ==> is_blank(#[trigger] c@[k], Dialect::Bsd),
        decreases c@.len() - i,
    {
        if !is_blank_exec(c[i], Dialect::Bsd) {
            assert(!is_blank(c@[i as int], Dialect::Bsd));
            return false;
        }
        i += 1;
    }
    true
}

/// The result that `kind` stands for, carrying `line`.
fn report(kind: Option<LineKind>, line: String) -> (r: Option<PingResult>)
    ensures
        reports(r, line@, kind),
{
    match kind {
        None => None,
        Some(LineKind::Pong(n)) => Some(PingResult::Pong(n, line)),
        Some(LineKind::Timeout) => Some(PingResult::Timeout(line)),
        Some(LineKind::Unknown) => Some(PingResult::Unknown(line)),
    }
}

/// Parses a line of iputils or BusyBox `ping` output.
pub fn parse_linux(line: String) -> (r: Option<PingResult>)
    ensures
        reports(r, line@, linux_kind(line@)),
{
    let c = chars_of(line.as_str());
    let kind = if starts_with_exec(c.as_slice(), chars_of("64 bytes from").as_slice()) {
        match measurement(c.as_slice(), Dialect::Linux) {
            Some(n) => Some(LineKind::Pong(n)),
            None => Some(LineKind::Unknown),
        }
    } else if starts_with_exec(c.as_slice(), chars_of("no answer yet").as_slice()) {
        Some(LineKind::Timeout)
    } else if is_noise_exec(c.as_slice()) {
        None
    } else {
        Some(LineKind::Unknown)
    };
    report(kind, line)
}

/// Parses a line of BSD or macOS `ping` output.
pub fn parse_bsd(line: String) -> (r: Option<PingResult>)
    ensures
        reports(r, line@, bsd_kind(line@)),
{
    let c = chars_of(line.as_str());
    let kind = if starts_with_exec(c.as_slice(), chars_of("PING ").as_slice()) {
        None
    } else if starts_with_exec(c.as_slice(), chars_of("Request timeout").as_slice()) {
        Some(LineKind::Timeout)
    } else {
        match measurement(c.as_slice(), Dialect::Bsd) {
            Some(n) => Some(LineKind::Pong(n)),
            None => if is_noise_exec(c.as_slice()) {
                None
            } else {
                Some(LineKind::Unknown)
            },
        }
    };
    report(kind, line)
}

/// Parses a line of Windows `ping` output.
pub fn parse_windows(line: String) -> (r: Option<PingResult>)
    ensures
        reports(r, line@, windows_kind(line@)),
{
    let c = chars_of(line.as_str());
    let kind = if contains_exec(c.as_slice(), chars_of("timed out").as_slice()) || contains_exec(
        c.as_slice(),
        chars_of("failure").as_slice(),
    ) {
        Some(LineKind::Timeout)
    } else {
        match measurement(c.as_slice(), Dialect::Windows) {
            Some(n) => Some(LineKind::Pong(n)),
            None => if is_noise_exec(c.as_slice()) {
                None
            } else {
                Some(LineKind::Unknown)
            },
        }
    };
    report(kind, line)
}

/// Parses a line of `ping` output in dialect `d`.
pub fn parse_line(d: Dialect, line: String) -> (r: Option<PingResult>)
    ensures
        reports(r, line@, line_kind(d, line@)),
{
    match d {
        Dialect::Linux => parse_linux(line),
        Dialect::Bsd => parse_bsd(line),
        Dialect::Windows => parse_windows(line),
    }
}

} // verus!
