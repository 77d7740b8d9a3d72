//! Time expressions: `now`, `now-<N><unit>`, calendar timestamps and epoch
//! numbers. Logs and spans take an expression as written once its shape has
//! been checked; metrics take whole seconds since the epoch.

use vstd::prelude::*;
use vstd::string::*;
use crate::clock::unix_now_seconds;
use crate::error::{AppError, ErrorKind};
use crate::text::{
    all_digits, chars_of, count_leading_digits, decimal_value, has_prefix, is_digit, join2,
    leading_digits, lemma_leading_digits, parse_digits,
};

verus! {

/// The largest epoch value in milliseconds that is taken as a time: the start
/// of the year 2100.
pub const MAX_EPOCH_MILLIS: u64 = 4_102_444_800_000;

/// The start of the year 2000 in seconds since the epoch.
pub const YEAR_2000_SECONDS: u64 = 946_684_800;

/// The smallest number that takes thirteen digits to write.
pub const THIRTEEN_DIGITS: u64 = 1_000_000_000_000;

/// How a time expression is to be resolved.
#[derive(Clone, Copy, Debug, PartialEq, Eq, Structural)]
pub enum Mode {
    /// Check the shape only and hand the text on unchanged.
    PassThrough,
    /// Convert to whole seconds since the epoch.
    EpochSeconds,
}

/// Why a time expression was turned down.
#[derive(Clone, Copy, Debug, PartialEq, Eq, Structural)]
pub enum TimeError {
    /// The expression has no accepted shape, or its number cannot be held.
    InvalidFormat,
    /// A relative expression names a unit that is not known.
    InvalidUnit,
    /// The expression is of a shape that the mode does not take.
    UnsupportedFormat,
}

/// A resolved time expression.
#[derive(Debug)]
pub enum ResolvedTime {
    /// The expression as it was written, for the remote service to read.
    Text(String),
    /// Whole seconds since the epoch.
    Seconds(i64),
}

/// What a resolved time holds, as plain values.
pub enum ResolvedView {
    Text(Seq<char>),
    Seconds(int),
}

impl View for ResolvedTime {
    type V = ResolvedView;

    open spec fn view(&self) -> ResolvedView {
        match self {
            ResolvedTime::Text(t) => ResolvedView::Text(t@),
            ResolvedTime::Seconds(n) => ResolvedView::Seconds(*n as int),
        }
    }
}

/// The text `now`.
pub open spec fn now_text() -> Seq<char> {
    seq!['n', 'o', 'w']
}

/// The text `now-`, with which every other relative expression begins.
pub open spec fn relative_prefix() -> Seq<char> {
    seq!['n', 'o', 'w', '-']
}

/// The length in seconds of each unit of a relative expression; a month
/// counts thirty days and a year 365.
pub open spec fn unit_seconds(unit: Seq<char>) -> Option<nat> {
    if unit == seq!['s'] {
        Some(1)
    } else if unit == seq!['m'] {
        Some(60)
    } else if unit == seq!['h'] {
        Some(3_600)
    } else if unit == seq!['d'] {
        Some(86_400)
    } else if unit == seq!['w'] {
        Some(604_800)
    } else if unit == seq!['m', 'o'] {
        Some(2_592_000)
    } else if unit == seq!['y'] {
        Some(31_536_000)
    } else {
        None
    }
}

/// The expression is `now` or begins with `now-`.
pub open spec fn is_relative(s: Seq<char>) -> bool {
    s == now_text() || has_prefix(s, relative_prefix())
}

/// The digits that follow `now-`.
pub open spec fn relative_amount(s: Seq<char>) -> Seq<char> {
    s.skip(4).take(leading_digits(s.skip(4)) as int)
}

/// What follows the digits of a relative expression.
pub open spec fn relative_unit(s: Seq<char>) -> Seq<char> {
    s.skip(4).skip(leading_digits(s.skip(4)) as int)
}

/// `now-`, then one digit or more, then a known unit.
pub open spec fn valid_relative(s: Seq<char>) -> bool {
    &&& has_prefix(s, relative_prefix())
    &&& relative_amount(s).len() > 0
    &&& unit_seconds(relative_unit(s)) is Some
}

/// How often `c` occurs in `s`.
pub open spec fn count_char(s: Seq<char>, c: char) -> nat
    decreases s.len(),
{
    if s.len() == 0 {
        0
    } else {
        count_char(s.drop_last(), c) + if s.last() == c {
            1nat
        } else {
            0nat
        }
    }
}

/// A calendar timestamp as far as it is checked here: ten characters that
/// hold exactly two hyphens, then the separator `T`. A text that begins with
/// `now-` is a relative expression and never a calendar timestamp.
pub open spec fn calendar_shape(s: Seq<char>) -> bool {
    &&& !has_prefix(s, relative_prefix())
    &&& s.len() > 10
    &&& count_char(s.take(10), '-') == 2
    &&& s[10] == 'T'
}

/// Digits only, worth at most `MAX_EPOCH_MILLIS` when read as milliseconds.
pub open spec fn valid_epoch_millis(s: Seq<char>) -> bool {
    s.len() > 0 && all_digits(s) && decimal_value(s) <= MAX_EPOCH_MILLIS
}

/// The shapes that logs and spans take: `now`, a relative expression, a
/// calendar timestamp, or epoch milliseconds up to the year 2100.
pub open spec fn valid_time_format(s: Seq<char>) -> bool {
    s == now_text() || valid_relative(s) || calendar_shape(s) || valid_epoch_millis(s)
}

/// The shape of an accepted time expression.
#[derive(Clone, Copy, Debug, PartialEq, Eq, Structural)]
pub enum TimeShape {
    /// The present: `now`.
    Now,
    /// A duration before the present: `now-<N><unit>`.
    Relative,
    /// A calendar timestamp.
    Calendar,
    /// Milliseconds since the epoch.
    EpochMillis,
}

/// The shape of `s`, if it has one of those that logs and spans take.
pub open spec fn shape_of(s: Seq<char>) -> Option<TimeShape> {
    if s == now_text() {
        Some(TimeShape::Now)
    } else if valid_relative(s) {
        Some(TimeShape::Relative)
    } else if calendar_shape(s) {
        Some(TimeShape::Calendar)
    } else if valid_epoch_millis(s) {
        Some(TimeShape::EpochMillis)
    } else {
        None
    }
}

/// A range is taken when both of its ends are; their order is left to the
/// remote service.
pub open spec fn valid_time_range(from: Seq<char>, to: Seq<char>) -> bool {
    valid_time_format(from) && valid_time_format(to)
}

/// Whole seconds since the epoch for an expression read at the instant `now`.
///
/// `now` gives `now`. `now-<N><unit>` gives `now` less `N` units; it is
/// `InvalidFormat` without digits or where a number leaves the 64-bit range,
/// and `InvalidUnit` for an unknown unit. A digit string is taken as
/// milliseconds, and divided by 1000 rounding down, when its value needs
/// thirteen digits or more; below that it is taken as seconds. Every other
/// text, a calendar timestamp too, is `UnsupportedFormat`.
pub open spec fn epoch_seconds(s: Seq<char>, now: int) -> Result<i64, TimeError> {
    if s == now_text() {
        Ok(now as i64)
    } else if has_prefix(s, relative_prefix()) {
        let amount = decimal_value(relative_amount(s));
        if relative_amount(s).len() == 0 || amount > i64::MAX {
            Err(TimeError::InvalidFormat)
        } else {
            match unit_seconds(relative_unit(s)) {
                None => Err(TimeError::InvalidUnit),
                Some(unit) => if now - amount * unit < i64::MIN || now - amount * unit > i64::MAX {
                    Err(TimeError::InvalidFormat)
                } else {
                    Ok((now - amount * unit) as i64)
                },
            }
        }
    } else if s.len() > 0 && all_digits(s) && decimal_value(s) <= i64::MAX {
        if decimal_value(s) > YEAR_2000_SECONDS && decimal_value(s) >= THIRTEEN_DIGITS {
            Ok((decimal_value(s) / 1000) as i64)
        } else {
            Ok(decimal_value(s) as i64)
        }
    } else {
        Err(TimeError::UnsupportedFormat)
    }
}

/// What resolving `s` in `mode` at the instant `now` gives.
pub open spec fn resolution(s: Seq<char>, mode: Mode, now: int) -> Result<ResolvedView, TimeError> {
    match mode {
        Mode::PassThrough => if valid_time_format(s) {
            Ok(ResolvedView::Text(s))
        } else {
            Err(TimeError::InvalidFormat)
        },
        Mode::EpochSeconds => match epoch_seconds(s, now) {
            Ok(n) => Ok(ResolvedView::Seconds(n as int)),
            Err(e) => Err(e),
        },
    }
}

/// The text that explains why `text` was turned down.
pub open spec fn time_error_text(err: TimeError, text: Seq<char>) -> Seq<char> {
    match err {
        TimeError::InvalidFormat => "Invalid time format: "@ + text,
        TimeError::InvalidUnit => "Invalid time unit in: "@ + text,
        TimeError::UnsupportedFormat => "Time format '"@ + text
            + "' not supported. Please use relative times (now, now-1h) or Unix timestamps"@,
    }
}

/// Whether `s` is the text `now`.
pub(crate) fn is_now(s: &Vec<char>) -> (r: bool)
    ensures
        r == (s@ == now_text()),
{
    let r = s.len() == 3 && s[0] == 'n' && s[1] == 'o' && s[2] == 'w';
    proof {
        if r {
            assert(s@ =~= now_text());
        }
    }
    r
}

/// Whether `s` begins with `now-`.
pub(crate) fn begins_relative(s: &Vec<char>) -> (r: bool)
    ensures
        r == has_prefix(s@, relative_prefix()),
{
    let r = s.len() >= 4 && s[0] == 'n' && s[1] == 'o' && s[2] == 'w' && s[3] == '-';
    proof {
        if r {
            assert(s@.subrange(0, 4) =~= relative_prefix());
        } else if s.len() >= 4 {
            let p = s@.subrange(0, 4);
            assert(p[0] == s@[0] && p[1] == s@[1] && p[2] == s@[2] && p[3] == s@[3]);
        }
    }
    r
}

/// The length in seconds of the unit written in `s` from `from` on.
fn unit_at(s: &Vec<char>, from: usize) -> (r: Option<u64>)
    requires
        from <= s.len(),
    ensures
        match r {
            Some(u) => unit_seconds(s@.skip(from as int)) == Some(u as nat),
            None => unit_seconds(s@.skip(from as int)) is None,
        },
        r is Some ==> 1 <= r->0 <= 31_536_000,
{
    let ghost unit = s@.skip(from as int);
    let len = s.len() - from;
    if len == 1 {
        let c = s[from];
        assert(unit =~= seq![c]);
        assert(unit[0] == c);
        if c == 's' {
            Some(1)
        } else if c == 'm' {
            Some(60)
        } else if c == 'h' {
            Some(3_600)
        } else if c == 'd' {
            Some(86_400)
        } else if c == 'w' {
            Some(604_800)
        } else if c == 'y' {
            Some(31_536_000)
        } else {
            assert(seq!['s'][0] == 's' && seq!['m'][0] == 'm' && seq!['h'][0] == 'h' && seq!['d'][0]
                == 'd' && seq!['w'][0] == 'w' && seq!['y'][0] == 'y');
            assert(seq!['m', 'o'].len() == 2);
            None
        }
    } else if len == 2 {
        let a = s[from];
        let b = s[from + 1];
        assert(unit =~= seq![a, b]);
        assert(unit[0] == a && unit[1] == b);
        if a == 'm' && b == 'o' {
            Some(2_592_000)
        } else {
            assert(seq!['m', 'o'][0] == 'm' && seq!['m', 'o'][1] == 'o');
            None
        }
    } else {
        assert(unit.len() != 1 && unit.len() != 2);
        None
    }
}

/// Whether the first ten characters of `s` hold exactly two hyphens and the
/// eleventh is `T`.
fn has_calendar_shape(s: &Vec<char>) -> (r: bool)
    ensures
        r == (s@.len() > 10 && count_char(s@.take(10), '-') == 2 && s@[10] == 'T'),
{
    if s.len() <= 10 {
        return false;
    }
    let mut hyphens: usize = 0;
    let mut i: usize = 0;
    assert(s@.take(10).take(0) =~= Seq::<char>::empty());
    while i < 10
        invariant
            s@.len() > 10,
            i <= 10,
            hyphens <= i,
            hyphens == count_char(s@.take(10).take(i as int), '-'),
        decreases 10 - i,
    {
        let ghost next = s@.take(10).take(i + 1);
        assert(next.drop_last() =~= s@.take(10).take(i as int));
        assert(next.last() == s@[i as int]);
        if s[i] == '-' {
            hyphens += 1;
        }
        i += 1;
    }
    assert(s@.take(10).take(10) =~= s@.take(10));
    hyphens == 2 && s[10] == 'T'
}

/// The shape of a time expression: `now`, `now-<N><unit>` with a unit among
/// `s`, `m`, `h`, `d`, `w`, `mo`, `y`, a calendar timestamp, or epoch
/// milliseconds up to the year 2100; none for any other text.
pub fn time_shape(time_str: &str) -> (shape: Option<TimeShape>)
    ensures
        shape == shape_of(time_str@),
        shape is Some <==> valid_time_format(time_str@),
{
    let s = chars_of(time_str);
    if is_now(&s) {
        return Some(TimeShape::Now);
    }
    if begins_relative(&s) {
        let digits = count_leading_digits(&s, 4);
        let unit = unit_at(&s, 4 + digits);
        proof {
            lemma_leading_digits(s@.skip(4));
            lemma_relative_is_no_digits(s@);
            assert(s@.skip(4 + digits) =~= relative_unit(s@));
            assert(relative_amount(s@).len() == digits);
        }
        return if digits > 0 && unit.is_some() {
            Some(TimeShape::Relative)
        } else {
            None
        };
    }
    if has_calendar_shape(&s) {
        return Some(TimeShape::Calendar);
    }
    let digits = count_leading_digits(&s, 0);
    proof {
        assert(s@.skip(0) =~= s@);
        lemma_leading_digits(s@);
        assert(s@.subrange(0, s@.len() as int) =~= s@);
        assert(s@.take(s@.len() as int) =~= s@);
    }
    if s.len() > 0 && digits == s.len() && parse_digits(&s, 0, s.len(), MAX_EPOCH_MILLIS).is_some() {
        Some(TimeShape::EpochMillis)
    } else {
        None
    }
}

/// Whether a time expression has a shape that logs and spans take.
pub fn is_valid_time_format(time_str: &str) -> (valid: bool)
    ensures
        valid == valid_time_format(time_str@),
{
    time_shape(time_str).is_some()
}

/// A text that begins with `now-` is neither a digit string nor `now`.
proof fn lemma_relative_is_no_digits(s: Seq<char>)
    requires
        has_prefix(s, relative_prefix()),
    ensures
        !all_digits(s),
        s != now_text(),
{
    assert(s.subrange(0, 4)[0] == s[0]);
    assert(relative_prefix()[0] == 'n');
    assert(!is_digit(s[0]));
}

/// Whether both ends of a range have a shape that logs and spans take. The
/// order of the two is not looked at: the remote service judges it.
pub fn is_valid_time_range(from: &str, to: &str) -> (valid: bool)
    ensures
        valid == valid_time_range(from@, to@),
{
    is_valid_time_format(from) && is_valid_time_format(to)
}

/// Whole seconds since the epoch for `time_str`, read at the instant `now`
/// (itself in seconds since the epoch).
pub fn seconds_at(time_str: &str, now: i64) -> (r: Result<i64, TimeError>)
    ensures
        r == epoch_seconds(time_str@, now as int),
{
    let s = chars_of(time_str);
    if is_now(&s) {
        return Ok(now);
    }
    if begins_relative(&s) {
        let digits = count_leading_digits(&s, 4);
        proof {
            lemma_leading_digits(s@.skip(4));
            assert(s@.subrange(4, 4 + digits) =~= relative_amount(s@));
            assert(s@.skip(4 + digits) =~= relative_unit(s@));
            assert(relative_amount(s@).len() == digits);
        }
        if digits == 0 {
            return Err(TimeError::InvalidFormat);
        }
        let amount = match parse_digits(&s, 4, 4 + digits, 0x7fff_ffff_ffff_ffff) {
            Some(n) => n,
            None => {
                return Err(TimeError::InvalidFormat);
            },
        };
        let unit = match unit_at(&s, 4 + digits) {
            Some(u) => u,
            None => {
                return Err(TimeError::InvalidUnit);
            },
        };
        assert(0 <= amount * unit <= 0x7fff_ffff_ffff_ffff * 31_536_000) by (nonlinear_arith)
            requires
                0 <= amount <= 0x7fff_ffff_ffff_ffff,
                1 <= unit <= 31_536_000,
        ;
        let offset: i128 = (amount as i128) * (unit as i128);
        let at: i128 = now as i128 - offset;
        if at < i64::MIN as i128 || at > i64::MAX as i128 {
            return Err(TimeError::InvalidFormat);
        }
        return Ok(at as i64);
    }
    let digits = count_leading_digits(&s, 0);
    proof {
        assert(s@.skip(0) =~= s@);
        lemma_leading_digits(s@);
        assert(s@.subrange(0, s@.len() as int) =~= s@);
    }
    if s.len() > 0 && digits == s.len() {
        match parse_digits(&s, 0, s.len(), 0x7fff_ffff_ffff_ffff) {
            Some(value) => if value > YEAR_2000_SECONDS && value >= THIRTEEN_DIGITS {
                Ok((value / 1000) as i64)
            } else {
                Ok(value as i64)
            },
            None => Err(TimeError::UnsupportedFormat),
        }
    } else {
        Err(TimeError::UnsupportedFormat)
    }
}

/// Resolves `text` in `mode` at the instant `now`. In `PassThrough` mode an
/// accepted text comes back as it was written; in `EpochSeconds` mode it
/// becomes whole seconds since the epoch.
pub fn resolve_at(text: &str, mode: Mode, now: i64) -> (r: Result<ResolvedTime, TimeError>)
    ensures
        match r {
            Ok(t) => resolution(text@, mode, now as int) == Ok::<ResolvedView, TimeError>(t@),
            Err(e) => resolution(text@, mode, now as int) == Err::<ResolvedView, TimeError>(e),
        },
        mode == Mode::PassThrough ==> (r is Ok <==> valid_time_format(text@)),
        mode == Mode::PassThrough && r is Ok ==> r->Ok_0@ == ResolvedView::Text(text@),
{
    match mode {
        Mode::PassThrough => if is_valid_time_format(text) {
            Ok(ResolvedTime::Text(String::from_str(text)))
        } else {
            Err(TimeError::InvalidFormat)
        },
        Mode::EpochSeconds => match seconds_at(text, now) {
            Ok(n) => Ok(ResolvedTime::Seconds(n)),
            Err(e) => Err(e),
        },
    }
}

/// The configuration failure that reports why `text` was turned down.
pub fn time_failure(err: TimeError, text: &str) -> (e: AppError)
    ensures
        e.kind() == ErrorKind::Config,
        e.detail() == time_error_text(err, text@),
{
    match err {
        TimeError::InvalidFormat => AppError::Config(join2("Invalid time format: ", text)),
        TimeError::InvalidUnit => AppError::Config(join2("Invalid time unit in: ", text)),
        TimeError::UnsupportedFormat => AppError::Config(
            join2("Time format '", text).concat(
                "' not supported. Please use relative times (now, now-1h) or Unix timestamps",
            ),
        ),
    }
}

/// Whether resolving `time_str` to seconds reads the clock.
pub fn needs_clock(time_str: &str) -> (r: bool)
    ensures
        r == is_relative(time_str@),
{
    let s = chars_of(time_str);
    is_now(&s) || begins_relative(&s)
}

/// What `parse_to_unix_seconds` returns for `s` once the clock was read as `now`.
pub open spec fn seconds_outcome(r: Result<i64, AppError>, s: Seq<char>, now: int) -> bool {
    match r {
        Ok(n) => epoch_seconds(s, now) == Ok::<i64, TimeError>(n),
        Err(e) => epoch_seconds(s, now) is Err && e.kind() == ErrorKind::Config && e.detail()
            == time_error_text(epoch_seconds(s, now)->Err_0, s),
    }
}

/// The failure reported where the clock cannot be read.
pub open spec fn is_clock_failure(e: AppError) -> bool {
    e.kind() == ErrorKind::Config && has_prefix(e.detail(), "Failed to get current time: "@)
}

/// Whole seconds since the epoch for a time expression, as metrics need them.
///
/// An expression that is not relative is resolved without the clock. A
/// relative one is resolved at the instant the clock gives; where the clock
/// cannot be read, or gives a time before the epoch, the result is a
/// configuration failure that says so. Every failure is of class `Config`.
pub fn parse_to_unix_seconds(time_str: &str) -> (r: Result<i64, AppError>)
    ensures
        !is_relative(time_str@) ==> seconds_outcome(r, time_str@, 0),
        is_relative(time_str@) ==> (exists|now: int|
            0 <= now <= i64::MAX && #[trigger] seconds_outcome(r, time_str@, now)) || (r is Err
            && r->Err_0.kind() == ErrorKind::Config && has_prefix(
            r->Err_0.detail(),
            "Failed to get current time: "@,
        )),
        r is Err ==> r->Err_0.kind() == ErrorKind::Config,
{
    let now: i64 = if needs_clock(time_str) {
        match unix_now_seconds() {
            Ok(secs) => secs,
            Err(why) => {
                let e = AppError::Config(join2("Failed to get current time: ", why.as_str()));
                proof {
                    let p = "Failed to get current time: "@;
                    assert((p + why@).subrange(0, p.len() as int) =~= p);
                }
                return Err(e);
            },
        }
    } else {
        0
    };
    let r = match seconds_at(time_str, now) {
        Ok(n) => Ok(n),
        Err(err) => Err(time_failure(err, time_str)),
    };
    proof {
        assert(seconds_outcome(r, time_str@, now as int));
    }
    r
}


/// What `resolve_time` returns for `s` in `mode` once the clock was read as `now`.
pub open spec fn resolved_outcome(
    r: Result<ResolvedTime, AppError>,
    s: Seq<char>,
    mode: Mode,
    now: int,
) -> bool {
    match r {
        Ok(t) => resolution(s, mode, now) == Ok::<ResolvedView, TimeError>(t@),
        Err(e) => resolution(s, mode, now) is Err && e.kind() == ErrorKind::Config && e.detail()
            == time_error_text(resolution(s, mode, now)->Err_0, s),
    }
}

/// Resolves a time expression in `mode`: in `PassThrough` mode to the text
/// itself once its shape is checked, in `EpochSeconds` mode to whole seconds
/// since the epoch.
///
/// Only a relative expression in `EpochSeconds` mode reads the clock; where
/// the clock cannot be read the result is a configuration failure that says
/// so. Every failure is of class `Config`.
pub fn resolve_time(text: &str, mode: Mode) -> (r: Result<ResolvedTime, AppError>)
    ensures
        !(mode == Mode::EpochSeconds && is_relative(text@)) ==> resolved_outcome(r, text@, mode, 0),
        mode == Mode::EpochSeconds && is_relative(text@) ==> (exists|now: int|
            0 <= now <= i64::MAX && #[trigger] resolved_outcome(r, text@, mode, now)) || (r is Err
            && r->Err_0.kind() == ErrorKind::Config && has_prefix(
            r->Err_0.detail(),
            "Failed to get current time: "@,
        )),
        r is Err ==> r->Err_0.kind() == ErrorKind::Config,
        mode == Mode::PassThrough ==> (r is Ok <==> valid_time_format(text@)),
        mode == Mode::PassThrough && r is Ok ==> r->Ok_0@ == ResolvedView::Text(text@),
{
    match mode {
        Mode::PassThrough => match resolve_at(text, mode, 0) {
            Ok(t) => Ok(t),
            Err(err) => Err(time_failure(err, text)),
        },
        Mode::EpochSeconds => {
            let parsed = parse_to_unix_seconds(text);
            let ghost witness = if is_relative(text@) && exists|now: int|
                0 <= now <= i64::MAX && #[trigger] seconds_outcome(parsed, text@, now) {
                choose|now: int| 0 <= now <= i64::MAX && #[trigger] seconds_outcome(parsed, text@, now)
            } else {
                0
            };
            let r = match parsed {
                Ok(n) => Ok(ResolvedTime::Seconds(n)),
                Err(e) => Err(e),
            };
            proof {
                if seconds_outcome(parsed, text@, witness) {
                    assert(resolved_outcome(r, text@, mode, witness));
                }
            }
            r
        },
    }
}

/// Ten to the power `n`.
pub open spec fn pow10(n: nat) -> nat
    decreases n,
{
    if n == 0 {
        1
    } else {
        10 * pow10((n - 1) as nat)
    }
}

/// A string of `n` digits is worth less than ten to the `n`, and at least ten
/// to the `n - 1` where its first digit is not zero.
pub proof fn lemma_decimal_bounds(s: Seq<char>)
    requires
        all_digits(s),
    ensures
        decimal_value(s) < pow10(s.len()),
        s.len() > 0 && s[0] != '0' ==> decimal_value(s) >= pow10((s.len() - 1) as nat),
    decreases s.len(),
{
    if s.len() > 0 {
        let head = s.drop_last();
        assert forall|i: int| 0 <= i < head.len() implies is_digit(#[trigger] head[i]) by {
            assert(head[i] == s[i]);
        }
        lemma_decimal_bounds(head);
        assert(is_digit(s.last()));
        if s.len() == 1 {
            assert(head =~= Seq::<char>::empty());
            assert(decimal_value(head) == 0);
            assert(pow10(1) == 10 * pow10(0));
        } else {
            assert(head[0] == s[0]);
        }
    }
}

/// With digits in front of something that is no digit, the leading digits
/// are those digits.
pub proof fn lemma_leading_digits_of_concat(digits: Seq<char>, tail: Seq<char>)
    requires
        all_digits(digits),
        tail.len() == 0 || !is_digit(tail[0]),
    ensures
        leading_digits(digits + tail) == digits.len(),
    decreases digits.len(),
{
    let s = digits + tail;
    if digits.len() == 0 {
        assert(s =~= tail);
    } else {
        assert(s[0] == digits[0]);
        assert(is_digit(digits[0]));
        let rest = digits.drop_first();
        assert forall|i: int| 0 <= i < rest.len() implies is_digit(#[trigger] rest[i]) by {
            assert(rest[i] == digits[i + 1]);
        }
        assert(s.drop_first() =~= rest + tail);
        lemma_leading_digits_of_concat(rest, tail);
    }
}

/// A known unit does not begin with a digit.
pub proof fn lemma_unit_is_no_digit(unit: Seq<char>)
    requires
        unit_seconds(unit) is Some,
    ensures
        unit.len() > 0,
        !is_digit(unit[0]),
{
    assert(seq!['s'][0] == 's' && seq!['m'][0] == 'm' && seq!['h'][0] == 'h' && seq!['d'][0] == 'd'
        && seq!['w'][0] == 'w' && seq!['y'][0] == 'y' && seq!['m', 'o'][0] == 'm');
    assert(seq!['s'].len() == 1 && seq!['m'].len() == 1 && seq!['h'].len() == 1 && seq!['d'].len()
        == 1 && seq!['w'].len() == 1 && seq!['y'].len() == 1 && seq!['m', 'o'].len() == 2);
}

/// A text written as `now-`, digits and a rest that begins with no digit
/// falls apart into just these.
pub proof fn lemma_relative_parts(digits: Seq<char>, unit: Seq<char>)
    requires
        all_digits(digits),
        unit.len() == 0 || !is_digit(unit[0]),
    ensures
        has_prefix(relative_prefix() + digits + unit, relative_prefix()),
        relative_amount(relative_prefix() + digits + unit) == digits,
        relative_unit(relative_prefix() + digits + unit) == unit,
{
    let s = relative_prefix() + digits + unit;
    assert(s.subrange(0, 4) =~= relative_prefix());
    assert(s.skip(4) =~= digits + unit);
    lemma_leading_digits_of_concat(digits, unit);
    assert((digits + unit).take(digits.len() as int) =~= digits);
    assert((digits + unit).skip(digits.len() as int) =~= unit);
}

/// Every text made of `now-`, one digit or more and a known unit is
/// accepted as a relative expression, and resolving it in `PassThrough`
/// mode gives the text itself, at whatever instant.
pub proof fn lemma_relative_accepted(digits: Seq<char>, unit: Seq<char>, now: int)
    requires
        digits.len() > 0,
        all_digits(digits),
        unit_seconds(unit) is Some,
    ensures
        valid_relative(relative_prefix() + digits + unit),
        valid_time_format(relative_prefix() + digits + unit),
        shape_of(relative_prefix() + digits + unit) == Some(TimeShape::Relative),
        resolution(relative_prefix() + digits + unit, Mode::PassThrough, now) == Ok::<
            ResolvedView,
            TimeError,
        >(ResolvedView::Text(relative_prefix() + digits + unit)),
{
    lemma_unit_is_no_digit(unit);
    lemma_relative_parts(digits, unit);
    lemma_relative_is_no_digits(relative_prefix() + digits + unit);
}

/// In `PassThrough` mode every accepted text resolves to itself, unchanged,
/// and every other text is turned down as of no accepted shape; the instant
/// plays no part.
pub proof fn lemma_pass_through_keeps_text(s: Seq<char>, now: int)
    ensures
        valid_time_format(s) ==> resolution(s, Mode::PassThrough, now) == Ok::<
            ResolvedView,
            TimeError,
        >(ResolvedView::Text(s)),
        !valid_time_format(s) ==> resolution(s, Mode::PassThrough, now) == Err::<
            ResolvedView,
            TimeError,
        >(TimeError::InvalidFormat),
        valid_time_format(s) <==> shape_of(s) is Some,
{
}

/// A text made of `now-`, digits and a rest that is no known unit is turned
/// down. The rest is taken to begin with no digit: a digit there would
/// belong to the number.
pub proof fn lemma_unknown_unit_rejected(digits: Seq<char>, unit: Seq<char>, now: int)
    requires
        all_digits(digits),
        unit_seconds(unit) is None,
        unit.len() == 0 || !is_digit(unit[0]),
    ensures
        !valid_time_format(relative_prefix() + digits + unit),
        resolution(relative_prefix() + digits + unit, Mode::PassThrough, now) == Err::<
            ResolvedView,
            TimeError,
        >(TimeError::InvalidFormat),
        epoch_seconds(relative_prefix() + digits + unit, now) is Err,
{
    lemma_relative_parts(digits, unit);
    lemma_relative_is_no_digits(relative_prefix() + digits + unit);
}

/// In seconds, `now` is the instant itself, and `now-<N><unit>` lies `N`
/// units before it, wherever the numbers can be held.
pub proof fn lemma_relative_seconds(digits: Seq<char>, unit: Seq<char>, now: int)
    requires
        digits.len() > 0,
        all_digits(digits),
        unit_seconds(unit) is Some,
        decimal_value(digits) <= i64::MAX,
        i64::MIN <= now - decimal_value(digits) * unit_seconds(unit)->0,
        now <= i64::MAX,
    ensures
        epoch_seconds(now_text(), now) == Ok::<i64, TimeError>(now as i64),
        epoch_seconds(relative_prefix() + digits + unit, now) == Ok::<i64, TimeError>(
            (now - decimal_value(digits) * unit_seconds(unit)->0) as i64,
        ),
        now >= i64::MIN ==> epoch_seconds(relative_prefix() + digits + unit, now)->Ok_0
            == epoch_seconds(now_text(), now)->Ok_0 - decimal_value(digits) * unit_seconds(
            unit,
        )->0,
{
    lemma_unit_is_no_digit(unit);
    lemma_relative_parts(digits, unit);
    lemma_relative_is_no_digits(relative_prefix() + digits + unit);
    assert(decimal_value(digits) * unit_seconds(unit)->0 >= 0) by (nonlinear_arith)
        requires
            decimal_value(digits) >= 0,
            unit_seconds(unit)->0 >= 0,
    ;
}

/// A digit string is no relative expression.
proof fn lemma_digits_not_relative(s: Seq<char>)
    requires
        s.len() > 0,
        all_digits(s),
    ensures
        !is_relative(s),
{
    assert(is_digit(s[0]));
    assert(now_text()[0] == 'n');
    if has_prefix(s, relative_prefix()) {
        assert(s.subrange(0, 4)[0] == s[0]);
        assert(relative_prefix()[0] == 'n');
    }
}

/// A string of thirteen digits that begins with no zero is read as
/// milliseconds: it resolves to its value divided by 1000, rounded down.
pub proof fn lemma_thirteen_digits_are_millis(s: Seq<char>, now: int)
    requires
        s.len() == 13,
        all_digits(s),
        s[0] != '0',
    ensures
        epoch_seconds(s, now) == Ok::<i64, TimeError>((decimal_value(s) / 1000) as i64),
        epoch_seconds(s, now)->Ok_0 == decimal_value(s) / 1000,
{
    lemma_decimal_bounds(s);
    lemma_digits_not_relative(s);
    reveal_with_fuel(pow10, 14);
    assert(pow10(13) == 10_000_000_000_000);
    assert(pow10(12) == 1_000_000_000_000);
}

/// A string of ten digits is read as seconds: it resolves to its value.
pub proof fn lemma_ten_digits_are_seconds(s: Seq<char>, now: int)
    requires
        s.len() == 10,
        all_digits(s),
    ensures
        epoch_seconds(s, now) == Ok::<i64, TimeError>(decimal_value(s) as i64),
        epoch_seconds(s, now)->Ok_0 == decimal_value(s),
{
    lemma_decimal_bounds(s);
    lemma_digits_not_relative(s);
    reveal_with_fuel(pow10, 11);
    assert(pow10(10) == 10_000_000_000);
}

/// Where `c` is counted in `s`, it stands in `s`.
pub proof fn lemma_counted_char_occurs(s: Seq<char>, c: char)
    requires
        count_char(s, c) > 0,
    ensures
        exists|i: int| 0 <= i < s.len() && s[i] == c,
    decreases s.len(),
{
    if s.len() > 0 {
        if s.last() == c {
            assert(s[s.len() - 1] == c);
        } else {
            lemma_counted_char_occurs(s.drop_last(), c);
            let i = choose|i: int| 0 <= i < s.drop_last().len() && s.drop_last()[i] == c;
            assert(s[i] == c);
        }
    }
}

/// A calendar timestamp is accepted as written by logs and spans, and is
/// unsupported where seconds are asked for.
pub proof fn lemma_calendar_unsupported(s: Seq<char>, now: int)
    requires
        calendar_shape(s),
    ensures
        valid_time_format(s),
        epoch_seconds(s, now) == Err::<i64, TimeError>(TimeError::UnsupportedFormat),
        resolution(s, Mode::EpochSeconds, now) == Err::<ResolvedView, TimeError>(
            TimeError::UnsupportedFormat,
        ),
{
    lemma_counted_char_occurs(s.take(10), '-');
    let i = choose|i: int| 0 <= i < s.take(10).len() && s.take(10)[i] == '-';
    assert(s[i] == '-');
    assert(!is_digit(s[i]));
    assert(now_text().len() == 3);
}

/// What is accepted as written and is no calendar timestamp resolves to
/// seconds, unless its number cannot be held in 64 bits.
pub proof fn lemma_accepted_resolves(s: Seq<char>, now: int)
    requires
        valid_time_format(s),
        !calendar_shape(s),
        0 <= now <= i64::MAX,
    ensures
        epoch_seconds(s, now) is Ok || epoch_seconds(s, now) == Err::<i64, TimeError>(
            TimeError::InvalidFormat,
        ),
        valid_epoch_millis(s) ==> epoch_seconds(s, now) is Ok,
{
    if valid_epoch_millis(s) {
        lemma_digits_not_relative(s);
    } else if valid_relative(s) {
        lemma_relative_is_no_digits(s);
    }
}


/// A text has one shape at most: it is `now`, or a relative expression, or a
/// calendar timestamp, or epoch milliseconds, and never two of these.
pub proof fn lemma_one_shape_at_most(s: Seq<char>)
    ensures
        !(s == now_text() && valid_relative(s)),
        !(s == now_text() && calendar_shape(s)),
        !(s == now_text() && valid_epoch_millis(s)),
        !(valid_relative(s) && calendar_shape(s)),
        !(valid_relative(s) && valid_epoch_millis(s)),
        !(calendar_shape(s) && valid_epoch_millis(s)),
{
    assert(now_text().len() == 3);
    assert(now_text()[0] == 'n');
    if valid_relative(s) {
        lemma_relative_is_no_digits(s);
    }
    if calendar_shape(s) {
        lemma_calendar_unsupported(s, 0);
    }
    if valid_epoch_millis(s) {
        lemma_digits_not_relative(s);
        assert(is_digit(s[0]));
    }
}

} // verus!
