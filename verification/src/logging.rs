//! Verbose output: the lines that describe a request, and the address at
//! which the same query can be seen in the web interface. The lines are
//! made here; writing them out is the caller's part.

use vstd::prelude::*;
use vstd::string::*;
use crate::clock::unix_now_millis;
use crate::text::{
    all_digits, chars_of, count_leading_digits, decimal_string, decimal_text, decimal_value,
    has_prefix, is_digit, join2, leading_digits, lemma_leading_digits, parse_digits, same_chars,
    texts,
};
use crate::time::{begins_relative, is_now, now_text, relative_prefix};

verus! {

/// One hour in milliseconds: the offset used where none can be read.
pub const HOUR_MILLIS: u64 = 3_600_000;

/// A byte that percent-encoding leaves as it is: an ASCII letter or digit,
/// or one of `-`, `.`, `_`, `~`.
pub open spec fn is_unreserved(b: u8) -> bool {
    (0x30 <= b <= 0x39) || (0x41 <= b <= 0x5a) || (0x61 <= b <= 0x7a) || b == 0x2d || b == 0x2e
        || b == 0x5f || b == 0x7e
}

/// The upper-case hexadecimal digit for a value below sixteen.
pub open spec fn hex_upper(d: u8) -> char {
    if d < 10 {
        ((0x30 + d) as u8) as char
    } else {
        ((0x41 + d - 10) as u8) as char
    }
}

/// One byte, percent-encoded.
pub open spec fn encoded_byte(b: u8) -> Seq<char> {
    if is_unreserved(b) {
        seq![b as char]
    } else {
        seq!['%', hex_upper(b / 16), hex_upper(b % 16)]
    }
}

/// A byte string, percent-encoded byte by byte.
pub open spec fn percent_encoded(bytes: Seq<u8>) -> Seq<char>
    decreases bytes.len(),
{
    if bytes.len() == 0 {
        Seq::<char>::empty()
    } else {
        encoded_byte(bytes[0]) + percent_encoded(bytes.drop_first())
    }
}

/// `urlencoding::encode`: the UTF-8 bytes of `text`, each left as it is
/// where it is an ASCII letter, a digit or one of `-`, `.`, `_`, `~`, and
/// otherwise written as `%` and two upper-case hexadecimal digits.
#[verifier::external_body]
fn percent_encode(text: &str) -> (out: String)
    ensures
        out@ == percent_encoded(text.spec_bytes()),
{
    urlencoding::encode(text).into_owned()
}

/// A message as it is logged.
pub open spec fn debug_line(message: Seq<char>) -> Seq<char> {
    "[DEBUG] "@ + message
}

/// The lines that describe a request.
pub open spec fn request_lines(
    resource_type: Seq<char>,
    query: Seq<char>,
    from: Seq<char>,
    to: Seq<char>,
) -> Seq<Seq<char>> {
    seq![
        debug_line("Resource type: "@ + resource_type),
        debug_line("Query: "@ + query),
        debug_line("Time range: "@ + from + " to "@ + to),
    ]
}

/// The line that names the endpoint called.
pub open spec fn endpoint_line(endpoint: Seq<char>, method: Seq<char>) -> Seq<char> {
    debug_line("API "@ + method + " "@ + endpoint)
}

/// Whether a key is there, in words.
pub open spec fn presence(set: bool) -> Seq<char> {
    if set {
        "set"@
    } else {
        "not set"@
    }
}

/// The lines that describe the configuration, without the keys themselves.
pub open spec fn config_lines(site: Seq<char>, has_api_key: bool, has_app_key: bool) -> Seq<
    Seq<char>,
> {
    seq![
        debug_line("Datadog site: "@ + site),
        debug_line("API key: "@ + presence(has_api_key)),
        debug_line("App key: "@ + presence(has_app_key)),
    ]
}

/// The line that reports an error and where it arose.
pub open spec fn error_line(error: Seq<char>, context: Seq<char>) -> Seq<char> {
    debug_line("Error: "@ + error + " (context: "@ + context + ")"@)
}

/// A number as `str::parse::<u64>` reads it: an optional `+`, then one
/// digit or more, worth at most `u64::MAX`.
pub open spec fn unsigned_of(s: Seq<char>) -> Option<nat> {
    let digits = if s.len() > 0 && s[0] == '+' {
        s.skip(1)
    } else {
        s
    };
    if digits.len() > 0 && all_digits(digits) && decimal_value(digits) <= u64::MAX {
        Some(decimal_value(digits))
    } else {
        None
    }
}

/// The milliseconds in one of the units that offsets are read in.
pub open spec fn offset_unit_millis(c: char) -> Option<nat> {
    if c == 's' {
        Some(1_000)
    } else if c == 'm' {
        Some(60_000)
    } else if c == 'h' {
        Some(3_600_000)
    } else if c == 'd' {
        Some(86_400_000)
    } else {
        None
    }
}

/// `n` held to the range of 64 bits without sign: 0 for what lies below,
/// `u64::MAX` for what lies above.
pub open spec fn capped(n: int) -> u64 {
    if n > u64::MAX {
        u64::MAX
    } else if n < 0 {
        0
    } else {
        n as u64
    }
}

/// The offset in milliseconds that `<N><unit>` stands for, with a unit among
/// `s`, `m`, `h` and `d`; one hour for anything else. An offset too large
/// for 64 bits counts as the largest that fits.
pub open spec fn relative_offset_millis(s: Seq<char>) -> u64 {
    if s.len() > 0 && offset_unit_millis(s.last()) is Some && unsigned_of(s.drop_last()) is Some {
        capped((unsigned_of(s.drop_last())->0 * offset_unit_millis(s.last())->0) as int)
    } else {
        HOUR_MILLIS
    }
}

/// The start of a range in milliseconds since the epoch, as text, for a
/// clock that reads `now_ms`. `now` is the clock itself and `now-<offset>`
/// lies the offset before it, but not before the epoch; a digit string is
/// taken as it is; anything else counts as one hour ago.
pub open spec fn from_millis_text(from: Seq<char>, now_ms: u64) -> Seq<char> {
    if from == now_text() {
        decimal_text(now_ms as nat)
    } else if has_prefix(from, relative_prefix()) {
        decimal_text(capped(now_ms - relative_offset_millis(from.skip(4))) as nat)
    } else if all_digits(from) {
        from
    } else {
        decimal_text(capped(now_ms - HOUR_MILLIS) as nat)
    }
}

/// The end of a range in milliseconds since the epoch, as text: as the
/// start, but anything unreadable counts as the present.
pub open spec fn to_millis_text(to: Seq<char>, now_ms: u64) -> Seq<char> {
    if to == now_text() {
        decimal_text(now_ms as nat)
    } else if has_prefix(to, relative_prefix()) {
        decimal_text(capped(now_ms - relative_offset_millis(to.skip(4))) as nat)
    } else if all_digits(to) {
        to
    } else {
        decimal_text(now_ms as nat)
    }
}

/// The address of the web interface for a site.
pub open spec fn base_url(site: Seq<char>) -> Seq<char> {
    "https://app."@ + site
}

/// The address at which the web interface shows a query over logs or
/// spans; there is none for any other kind of resource.
pub open spec fn ui_url(
    resource_type: Seq<char>,
    encoded_query: Seq<char>,
    from_ts: Seq<char>,
    to_ts: Seq<char>,
    site: Seq<char>,
) -> Option<Seq<char>> {
    if resource_type == "logs"@ {
        Some(
            base_url(site) + "/logs?query="@ + encoded_query + "&from_ts="@ + from_ts + "&to_ts="@
                + to_ts + "&live=false"@,
        )
    } else if resource_type == "spans"@ {
        Some(
            base_url(site) + "/apm/traces?query="@ + encoded_query + "&from_ts="@ + from_ts
                + "&to_ts="@ + to_ts,
        )
    } else {
        None
    }
}

/// The lines that point to the web interface: the address, and a note
/// where an end of the range was given relative to the present.
pub open spec fn url_lines(
    resource_type: Seq<char>,
    query: Seq<char>,
    query_bytes: Seq<u8>,
    from: Seq<char>,
    to: Seq<char>,
    site: Seq<char>,
    now_ms: u64,
) -> Seq<Seq<char>> {
    match ui_url(
        resource_type,
        percent_encoded(query_bytes),
        from_millis_text(from, now_ms),
        to_millis_text(to, now_ms),
        site,
    ) {
        None => Seq::<Seq<char>>::empty(),
        Some(url) => if has_prefix(from, now_text()) || has_prefix(
            to,
            now_text(),
        ) {
            seq![
                debug_line("Datadog UI URL: "@ + url),
                debug_line(
                    "Note: URL uses approximate timestamps. Adjust time range in UI if needed."@,
                ),
            ]
        } else {
            seq![debug_line("Datadog UI URL: "@ + url)]
        },
    }
}

/// Whether the lines for a range depend on the instant at which they are
/// made. They do unless both ends are digit strings, which go into the
/// address as they are written.
pub open spec fn url_reads_clock(from: Seq<char>, to: Seq<char>) -> bool {
    !(all_digits(from) && all_digits(to))
}

/// A digit string is neither `now` nor does it begin with `now`.
proof fn lemma_digits_do_not_begin_now(s: Seq<char>)
    requires
        all_digits(s),
    ensures
        s != now_text(),
        !has_prefix(s, now_text()),
        !has_prefix(s, relative_prefix()),
{
    assert(now_text()[0] == 'n');
    assert(relative_prefix()[0] == 'n');
    if s.len() > 0 {
        assert(is_digit(s[0]));
        if has_prefix(s, now_text()) {
            assert(s.subrange(0, 3)[0] == s[0]);
        }
        if has_prefix(s, relative_prefix()) {
            assert(s.subrange(0, 4)[0] == s[0]);
        }
    } else {
        assert(now_text().len() == 3);
    }
}

/// Where both ends of the range are digit strings, the lines are the same
/// at whatever instant they are made.
pub proof fn lemma_digit_times_ignore_clock(
    resource_type: Seq<char>,
    query: Seq<char>,
    query_bytes: Seq<u8>,
    from: Seq<char>,
    to: Seq<char>,
    site: Seq<char>,
    a: u64,
    b: u64,
)
    requires
        !url_reads_clock(from, to),
    ensures
        from_millis_text(from, a) == from,
        to_millis_text(to, a) == to,
        url_lines(resource_type, query, query_bytes, from, to, site, a) == url_lines(
            resource_type,
            query,
            query_bytes,
            from,
            to,
            site,
            b,
        ),
{
    lemma_digits_do_not_begin_now(from);
    lemma_digits_do_not_begin_now(to);
}

/// Whether `text` is made of digits only.
fn is_digit_string(text: &str) -> (r: bool)
    ensures
        r == all_digits(text@),
{
    let s = chars_of(text);
    let run = count_leading_digits(&s, 0);
    proof {
        assert(s@.skip(0) =~= s@);
        lemma_leading_digits(s@);
    }
    run == s.len()
}

/// Whether `s` begins with the three characters `now`.
fn begins_now(s: &Vec<char>) -> (r: bool)
    ensures
        r == has_prefix(s@, now_text()),
{
    let r = s.len() >= 3 && s[0] == 'n' && s[1] == 'o' && s[2] == 'w';
    proof {
        let p = now_text();
        if r {
            assert(s@.subrange(0, 3) =~= p);
        } else if s.len() >= 3 {
            let q = s@.subrange(0, 3);
            assert(q[0] == s@[0] && q[1] == s@[1] && q[2] == s@[2]);
            assert(p[0] == 'n' && p[1] == 'o' && p[2] == 'w');
        }
    }
    r
}

/// The number written in `s` between `from` and `to`, read as
/// `str::parse::<u64>` reads it.
fn parse_unsigned(s: &Vec<char>, from: usize, to: usize) -> (r: Option<u64>)
    requires
        from <= to <= s.len(),
    ensures
        match r {
            Some(n) => unsigned_of(s@.subrange(from as int, to as int)) == Some(n as nat),
            None => unsigned_of(s@.subrange(from as int, to as int)) is None,
        },
{
    let ghost whole = s@.subrange(from as int, to as int);
    let start: usize = if from < to && s[from] == '+' {
        from + 1
    } else {
        from
    };
    let ghost digits = s@.subrange(start as int, to as int);
    proof {
        if from < to {
            assert(whole[0] == s@[from as int]);
        }
        if start == from {
            assert(digits =~= whole);
        } else {
            assert(digits =~= whole.skip(1));
        }
    }
    if start == to {
        return None;
    }
    let run = count_leading_digits(s, start);
    proof {
        lemma_leading_digits(s@.skip(start as int));
        lemma_leading_digits(digits);
        lemma_run_within(s@, start as int, to as int);
    }
    if run < to - start {
        return None;
    }
    parse_digits(s, start, to, u64::MAX)
}

/// The digits that lead a part of a text are those that lead the rest of
/// the text, as far as the part goes.
proof fn lemma_run_within(s: Seq<char>, from: int, to: int)
    requires
        0 <= from <= to <= s.len(),
    ensures
        leading_digits(s.subrange(from, to)) == if leading_digits(s.skip(from)) < to - from {
            leading_digits(s.skip(from))
        } else {
            (to - from) as nat
        },
    decreases to - from,
{
    let part = s.subrange(from, to);
    let rest = s.skip(from);
    if from < to {
        assert(part[0] == s[from]);
        assert(rest[0] == s[from]);
        assert(part.drop_first() =~= s.subrange(from + 1, to));
        assert(rest.drop_first() =~= s.skip(from + 1));
        lemma_run_within(s, from + 1, to);
    }
}

/// Verbose output, made only where it was asked for.
pub struct VerboseLogger {
    enabled: bool,
}

impl VerboseLogger {
    /// Whether verbose output was asked for.
    pub closed spec fn enabled(&self) -> bool {
        self.enabled
    }

    /// A logger that makes its lines only if `enabled`.
    pub fn new(enabled: bool) -> (logger: Self)
        ensures
            logger.enabled() == enabled,
    {
        VerboseLogger { enabled }
    }

    /// Whether verbose output was asked for.
    pub fn is_enabled(&self) -> (b: bool)
        ensures
            b == self.enabled(),
    {
        self.enabled
    }

    /// The line for `message`, if verbose output was asked for.
    pub fn log(&self, message: &str) -> (lines: Vec<String>)
        ensures
            texts(lines@) == if self.enabled() {
                seq![debug_line(message@)]
            } else {
                Seq::<Seq<char>>::empty()
            },
    {
        let mut lines: Vec<String> = Vec::new();
        if self.enabled {
            lines.push(join2("[DEBUG] ", message));
            assert(texts(lines@) =~= seq![debug_line(message@)]);
        } else {
            assert(texts(lines@) =~= Seq::<Seq<char>>::empty());
        }
        lines
    }

    /// The offset in milliseconds that `<N><unit>` stands for, with a unit
    /// among `s`, `m`, `h` and `d`; one hour for anything else.
    pub fn parse_relative_time(&self, time_str: &str) -> (millis: u64)
        ensures
            millis == relative_offset_millis(time_str@),
    {
        let s = chars_of(time_str);
        if s.len() == 0 {
            return HOUR_MILLIS;
        }
        let last = s[s.len() - 1];
        let unit: u64 = if last == 's' {
            1_000
        } else if last == 'm' {
            60_000
        } else if last == 'h' {
            3_600_000
        } else if last == 'd' {
            86_400_000
        } else {
            return HOUR_MILLIS;
        };
        proof {
            assert(s@.subrange(0, s@.len() - 1) =~= s@.drop_last());
        }
        match parse_unsigned(&s, 0, s.len() - 1) {
            Some(n) => {
                assert(n * unit <= u64::MAX * 86_400_000) by (nonlinear_arith)
                    requires
                        0 <= n <= u64::MAX,
                        0 <= unit <= 86_400_000,
                ;
                let product: u128 = (n as u128) * (unit as u128);
                if product > u64::MAX as u128 {
                    u64::MAX
                } else {
                    product as u64
                }
            },
            None => HOUR_MILLIS,
        }
    }

    /// Both ends of a range in milliseconds since the epoch, as text, for a
    /// clock that reads `now_ms`.
    pub fn convert_times_for_url(&self, from: &str, to: &str, now_ms: u64) -> (r: (String, String))
        ensures
            r.0@ == from_millis_text(from@, now_ms),
            r.1@ == to_millis_text(to@, now_ms),
    {
        let from_ts = self.millis_text(from, now_ms, if now_ms >= HOUR_MILLIS {
            now_ms - HOUR_MILLIS
        } else {
            0
        });
        let to_ts = self.millis_text(to, now_ms, now_ms);
        (from_ts, to_ts)
    }

    /// One end of a range in milliseconds since the epoch, as text, with
    /// `fallback` for what cannot be read.
    fn millis_text(&self, time: &str, now_ms: u64, fallback: u64) -> (out: String)
        ensures
            out@ == if time@ == now_text() {
                decimal_text(now_ms as nat)
            } else if has_prefix(time@, relative_prefix()) {
                decimal_text(capped(now_ms - relative_offset_millis(time@.skip(4))) as nat)
            } else if all_digits(time@) {
                time@
            } else {
                decimal_text(fallback as nat)
            },
    {
        let s = chars_of(time);
        if is_now(&s) {
            return decimal_string(now_ms);
        }
        if begins_relative(&s) {
            let rest = time.substring_char(4, s.len());
            assert(rest@ =~= time@.skip(4));
            let offset = self.parse_relative_time(rest);
            let at: u64 = if now_ms >= offset {
                now_ms - offset
            } else {
                0
            };
            return decimal_string(at);
        }
        let run = count_leading_digits(&s, 0);
        proof {
            assert(s@.skip(0) =~= s@);
            lemma_leading_digits(s@);
        }
        if run == s.len() {
            String::from_str(time)
        } else {
            decimal_string(fallback)
        }
    }

    /// The lines that describe a request, if verbose output was asked for.
    pub fn log_request(&self, resource_type: &str, query: &str, from: &str, to: &str) -> (lines:
        Vec<String>)
        ensures
            texts(lines@) == if self.enabled() {
                request_lines(resource_type@, query@, from@, to@)
            } else {
                Seq::<Seq<char>>::empty()
            },
    {
        let mut lines: Vec<String> = Vec::new();
        if !self.enabled {
            assert(texts(lines@) =~= Seq::<Seq<char>>::empty());
            return lines;
        }
        lines.push(join2("[DEBUG] ", join2("Resource type: ", resource_type).as_str()));
        lines.push(join2("[DEBUG] ", join2("Query: ", query).as_str()));
        lines.push(
            join2(
                "[DEBUG] ",
                join2("Time range: ", from).concat(" to ").concat(to).as_str(),
            ),
        );
        assert(texts(lines@) =~= request_lines(resource_type@, query@, from@, to@));
        lines
    }

    /// The line that names the endpoint called, if verbose output was asked for.
    pub fn log_api_endpoint(&self, endpoint: &str, method: &str) -> (lines: Vec<String>)
        ensures
            texts(lines@) == if self.enabled() {
                seq![endpoint_line(endpoint@, method@)]
            } else {
                Seq::<Seq<char>>::empty()
            },
    {
        let mut lines: Vec<String> = Vec::new();
        if self.enabled {
            lines.push(
                join2("[DEBUG] ", join2("API ", method).concat(" ").concat(endpoint).as_str()),
            );
            assert(texts(lines@) =~= seq![endpoint_line(endpoint@, method@)]);
        } else {
            assert(texts(lines@) =~= Seq::<Seq<char>>::empty());
        }
        lines
    }

    /// The lines that describe the configuration, if verbose output was
    /// asked for. They say whether each key is set, never what it is.
    pub fn log_config(&self, site: &str, has_api_key: bool, has_app_key: bool) -> (lines: Vec<
        String,
    >)
        ensures
            texts(lines@) == if self.enabled() {
                config_lines(site@, has_api_key, has_app_key)
            } else {
                Seq::<Seq<char>>::empty()
            },
    {
        let mut lines: Vec<String> = Vec::new();
        if !self.enabled {
            assert(texts(lines@) =~= Seq::<Seq<char>>::empty());
            return lines;
        }
        let api = if has_api_key {
            "set"
        } else {
            "not set"
        };
        let app = if has_app_key {
            "set"
        } else {
            "not set"
        };
        lines.push(join2("[DEBUG] ", join2("Datadog site: ", site).as_str()));
        lines.push(join2("[DEBUG] ", join2("API key: ", api).as_str()));
        lines.push(join2("[DEBUG] ", join2("App key: ", app).as_str()));
        assert(texts(lines@) =~= config_lines(site@, has_api_key, has_app_key));
        lines
    }

    /// The line that reports an error and where it arose, if verbose output
    /// was asked for.
    pub fn log_error(&self, error: &str, context: &str) -> (lines: Vec<String>)
        ensures
            texts(lines@) == if self.enabled() {
                seq![error_line(error@, context@)]
            } else {
                Seq::<Seq<char>>::empty()
            },
    {
        let mut lines: Vec<String> = Vec::new();
        if self.enabled {
            lines.push(
                join2(
                    "[DEBUG] ",
                    join2("Error: ", error).concat(" (context: ").concat(context).concat(
                        ")",
                    ).as_str(),
                ),
            );
            assert(texts(lines@) =~= seq![error_line(error@, context@)]);
        } else {
            assert(texts(lines@) =~= Seq::<Seq<char>>::empty());
        }
        lines
    }

    /// The lines that point to the web interface for a query over logs or
    /// spans, for a clock that reads `now_ms`; none for another kind of
    /// resource, or where verbose output was not asked for.
    pub fn datadog_url_lines(
        &self,
        resource_type: &str,
        query: &str,
        from: &str,
        to: &str,
        site: &str,
        now_ms: u64,
    ) -> (lines: Vec<String>)
        ensures
            texts(lines@) == if self.enabled() {
                url_lines(resource_type@, query@, query.spec_bytes(), from@, to@, site@, now_ms)
            } else {
                Seq::<Seq<char>>::empty()
            },
    {
        let mut lines: Vec<String> = Vec::new();
        if !self.enabled {
            assert(texts(lines@) =~= Seq::<Seq<char>>::empty());
            return lines;
        }
        let encoded = percent_encode(query);
        let base = join2("https://app.", site);
        let times = self.convert_times_for_url(from, to, now_ms);
        let kind = chars_of(resource_type);
        let logs = chars_of("logs");
        let spans = chars_of("spans");
        let url = if same_chars(&kind, &logs) {
            base.concat("/logs?query=").concat(encoded.as_str()).concat("&from_ts=").concat(
                times.0.as_str(),
            ).concat("&to_ts=").concat(times.1.as_str()).concat("&live=false")
        } else if same_chars(&kind, &spans) {
            base.concat("/apm/traces?query=").concat(encoded.as_str()).concat("&from_ts=").concat(
                times.0.as_str(),
            ).concat("&to_ts=").concat(times.1.as_str())
        } else {
            assert(texts(lines@) =~= Seq::<Seq<char>>::empty());
            return lines;
        };
        lines.push(join2("[DEBUG] ", join2("Datadog UI URL: ", url.as_str()).as_str()));
        let relative = begins_now(&chars_of(from)) || begins_now(&chars_of(to));
        if relative {
            lines.push(
                join2(
                    "[DEBUG] ",
                    "Note: URL uses approximate timestamps. Adjust time range in UI if needed.",
                ),
            );
        }
        assert(texts(lines@) =~= url_lines(
            resource_type@,
            query@,
            query.spec_bytes(),
            from@,
            to@,
            site@,
            now_ms,
        ));
        lines
    }

    /// The lines that point to the web interface for a query over logs or
    /// spans, made at the present instant.
    ///
    /// Without verbose output there are none. Where both ends of the range
    /// are digit strings the lines do not depend on the instant, and the
    /// clock is not read: they are given whatever the clock does. Otherwise
    /// the clock is read once: the lines are those of the instant it gives,
    /// and there are none where it cannot be read.
    pub fn log_datadog_url(
        &self,
        resource_type: &str,
        query: &str,
        from: &str,
        to: &str,
        site: &str,
    ) -> (lines: Vec<String>)
        ensures
            !self.enabled() ==> texts(lines@) == Seq::<Seq<char>>::empty(),
            self.enabled() && !url_reads_clock(from@, to@) ==> forall|now_ms: u64|
                texts(lines@) == #[trigger] url_lines(
                    resource_type@,
                    query@,
                    query.spec_bytes(),
                    from@,
                    to@,
                    site@,
                    now_ms,
                ),
            self.enabled() && url_reads_clock(from@, to@) ==> texts(lines@)
                == Seq::<Seq<char>>::empty() || exists|now_ms: u64|
                texts(lines@) == #[trigger] url_lines(
                    resource_type@,
                    query@,
                    query.spec_bytes(),
                    from@,
                    to@,
                    site@,
                    now_ms,
                ),
    {
        if !self.enabled {
            return self.datadog_url_lines(resource_type, query, from, to, site, 0);
        }
        if is_digit_string(from) && is_digit_string(to) {
            let lines = self.datadog_url_lines(resource_type, query, from, to, site, 0);
            proof {
                assert forall|now_ms: u64|
                    texts(lines@) == #[trigger] url_lines(
                        resource_type@,
                        query@,
                        query.spec_bytes(),
                        from@,
                        to@,
                        site@,
                        now_ms,
                    ) by {
                    lemma_digit_times_ignore_clock(
                        resource_type@,
                        query@,
                        query.spec_bytes(),
                        from@,
                        to@,
                        site@,
                        0,
                        now_ms,
                    );
                }
            }
            return lines;
        }
        match unix_now_millis() {
            Ok(now_ms) => self.datadog_url_lines(resource_type, query, from, to, site, now_ms),
            Err(_) => {
                let lines: Vec<String> = Vec::new();
                assert(texts(lines@) =~= Seq::<Seq<char>>::empty());
                lines
            },
        }
    }
}

impl Default for VerboseLogger {
    fn default() -> (logger: Self)
        ensures
            !logger.enabled(),
    {
        VerboseLogger::new(false)
    }
}

} // verus!
