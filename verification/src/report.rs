use vstd::prelude::*;

use crate::text::{decimal, lemma_decimal_reads_back, reads_as, u64_to_decimal};

verus! {

/// The memory figures of the host, in kilobytes.
#[derive(Debug, Clone, Copy, PartialEq, Eq)]
pub struct RamInfo {
    pub total: u64,
    pub libre: u64,
    pub uso: u64,
}

/// The summary line of the host's memory that the monitor prints.
pub open spec fn ram_summary_text(ram: RamInfo) -> Seq<char> {
    "RAM Total: "@ + decimal(ram.total as nat) + " Kb, RAM Libre: "@ + decimal(ram.libre as nat)
        + " Kb, RAM Uso: "@ + decimal(ram.uso as nat) + " Kb"@
}

/// The log entry that the monitor sends about the host's memory, stamped with
/// `timestamp`.
pub open spec fn ram_log_text(timestamp: Seq<char>, ram: RamInfo) -> Seq<char> {
    "["@ + timestamp + "] Información de la RAM: Total: "@ + decimal(ram.total as nat)
        + " Kb, Libre: "@ + decimal(ram.libre as nat) + " Kb, Uso: "@ + decimal(ram.uso as nat)
        + " Kb"@
}

/// Whether `s` is the summary layout filled with the figures `total`, `libre`
/// and `uso` (as text).
pub open spec fn summary_with_figures(s: Seq<char>, total: Seq<char>, libre: Seq<char>, uso: Seq<char>) -> bool {
    s == "RAM Total: "@ + total + " Kb, RAM Libre: "@ + libre + " Kb, RAM Uso: "@ + uso + " Kb"@
}

/// Whether `s` is the log layout stamped with `timestamp` and filled with the
/// figures `total`, `libre` and `uso` (as text).
pub open spec fn log_with_figures(
    s: Seq<char>,
    timestamp: Seq<char>,
    total: Seq<char>,
    libre: Seq<char>,
    uso: Seq<char>,
) -> bool {
    s == "["@ + timestamp + "] Información de la RAM: Total: "@ + total + " Kb, Libre: "@ + libre
        + " Kb, Uso: "@ + uso + " Kb"@
}

/// The summary line shows the host's memory figures in their own places,
/// whatever their sizes: the number after `RAM Total: ` reads back as the
/// total, the one after `RAM Libre: ` as the free memory and the one after
/// `RAM Uso: ` as the used memory, each in its usual decimal writing.
pub proof fn lemma_ram_summary_reads_back(ram: RamInfo)
    ensures
        exists|total: Seq<char>, libre: Seq<char>, uso: Seq<char>|
            #[trigger] summary_with_figures(ram_summary_text(ram), total, libre, uso) && reads_as(
                total,
                ram.total as int,
            ) && reads_as(libre, ram.libre as int) && reads_as(uso, ram.uso as int),
{
    lemma_decimal_reads_back(ram.total as nat);
    lemma_decimal_reads_back(ram.libre as nat);
    lemma_decimal_reads_back(ram.uso as nat);
    assert(summary_with_figures(
        ram_summary_text(ram),
        decimal(ram.total as nat),
        decimal(ram.libre as nat),
        decimal(ram.uso as nat),
    ));
}

/// The log entry carries the timestamp it is given, between brackets, and the
/// host's memory figures in their own places, whatever their sizes: the number
/// after `Total: ` reads back as the total, the one after `Libre: ` as the free
/// memory and the one after `Uso: ` as the used memory.
pub proof fn lemma_ram_log_reads_back(timestamp: Seq<char>, ram: RamInfo)
    ensures
        exists|total: Seq<char>, libre: Seq<char>, uso: Seq<char>|
            #[trigger] log_with_figures(ram_log_text(timestamp, ram), timestamp, total, libre, uso)
                && reads_as(total, ram.total as int) && reads_as(libre, ram.libre as int) && reads_as(
                uso,
                ram.uso as int,
            ),
{
    lemma_decimal_reads_back(ram.total as nat);
    lemma_decimal_reads_back(ram.libre as nat);
    lemma_decimal_reads_back(ram.uso as nat);
    assert(log_with_figures(
        ram_log_text(timestamp, ram),
        timestamp,
        decimal(ram.total as nat),
        decimal(ram.libre as nat),
        decimal(ram.uso as nat),
    ));
}

/// Whether `c` is an ASCII decimal digit.
pub open spec fn is_digit(c: char) -> bool {
    '0' <= c <= '9'
}

/// Whether the characters of `s` from `from` to `to` are all digits.
pub open spec fn digits_between(s: Seq<char>, from: int, to: int) -> bool {
    forall|i: int| from <= i < to ==> #[trigger] is_digit(s[i])
}

/// Whether the first `p` characters of `s` are a year as RFC 3339 text holds
/// it: four digits, or a sign and at least four digits for years outside
/// 0 to 9999.
pub open spec fn rfc3339_year(s: Seq<char>, p: int) -> bool {
    ||| p == 4 && digits_between(s, 0, 4)
    ||| p >= 5 && (s[0] == '+' || s[0] == '-') && digits_between(s, 1, p)
}

/// Whether `s` is laid out as a UTC date and time in RFC 3339 text with a year
/// of `p` characters and a fraction of seconds of `f` characters.
pub open spec fn rfc3339_layout(s: Seq<char>, p: int, f: int) -> bool {
    &&& rfc3339_year(s, p)
    &&& f == 0 || f == 4 || f == 7 || f == 10
    &&& s.len() == p + 15 + f + 6
    &&& s[p] == '-' && digits_between(s, p + 1, p + 3)
    &&& s[p + 3] == '-' && digits_between(s, p + 4, p + 6)
    &&& s[p + 6] == 'T' && digits_between(s, p + 7, p + 9)
    &&& s[p + 9] == ':' && digits_between(s, p + 10, p + 12)
    &&& s[p + 12] == ':' && digits_between(s, p + 13, p + 15)
    &&& f > 0 ==> s[p + 15] == '.' && digits_between(s, p + 16, p + 15 + f)
    &&& s.subrange(p + 15 + f, s.len() as int) == "+00:00"@
}

/// Whether `s` is a date and time in UTC written as chrono writes RFC 3339:
/// `YYYY-MM-DDTHH:MM:SS`, then no fraction or `.` and three, six or nine
/// digits, then the offset `+00:00`.
pub open spec fn is_utc_rfc3339(s: Seq<char>) -> bool {
    exists|p: int, f: int| #[trigger] rfc3339_layout(s, p, f)
}

/// The RFC 3339 text in UTC of the instant `secs` seconds and `nanos`
/// nanoseconds after the Unix epoch, as chrono writes it, or `None` where
/// chrono cannot represent that instant.
pub uninterp spec fn utc_rfc3339_text(secs: i64, nanos: u32) -> Option<Seq<char>>;

/// `chrono::DateTime::<Utc>::from_timestamp(secs, nanos)` followed by
/// `to_rfc3339` on the result. The text is named by [`utc_rfc3339_text`]: it
/// is a function of the two numbers alone. Stated of it: it has the shape of
/// [`is_utc_rfc3339`] (two digits for each field, a fraction of seconds only
/// when it is not zero, the offset written `+00:00` since chrono is not asked
/// for `Z`); and chrono gives a text for every instant from 1970 to the end of
/// 9999 with fewer than a billion nanoseconds. The exact range chrono accepts
/// beyond that is left unsaid. Both calls stand in this one item because the
/// `DateTime` type between them cannot be declared to Verus (its `TimeZone`
/// bound is refused). Neither call panics.
#[verifier::external_body]
fn utc_rfc3339(secs: i64, nanos: u32) -> (text: Option<String>)
    ensures
        match text {
            Some(t) => utc_rfc3339_text(secs, nanos) == Some(t@),
            None => utc_rfc3339_text(secs, nanos) is None,
        },
        text matches Some(t) ==> is_utc_rfc3339(t@),
        0 <= secs <= 253_402_300_799 && nanos < 1_000_000_000 ==> text is Some,
{
    match chrono::DateTime::from_timestamp(secs, nanos) {
        Some(time) => Some(time.to_rfc3339()),
        None => None,
    }
}

/// The summary line of the host's memory.
pub fn ram_summary_line(ram: &RamInfo) -> (line: String)
    ensures
        line@ == ram_summary_text(*ram),
{
    let mut line = "RAM Total: ".to_owned();
    line.append(u64_to_decimal(ram.total).as_str());
    line.append(" Kb, RAM Libre: ");
    line.append(u64_to_decimal(ram.libre).as_str());
    line.append(" Kb, RAM Uso: ");
    line.append(u64_to_decimal(ram.uso).as_str());
    line.append(" Kb");
    line
}

/// The log entry about the host's memory, stamped with `timestamp`.
pub fn ram_log_message(timestamp: &str, ram: &RamInfo) -> (line: String)
    ensures
        line@ == ram_log_text(timestamp@, *ram),
{
    let mut line = "[".to_owned();
    line.append(timestamp);
    line.append("] Información de la RAM: Total: ");
    line.append(u64_to_decimal(ram.total).as_str());
    line.append(" Kb, Libre: ");
    line.append(u64_to_decimal(ram.libre).as_str());
    line.append(" Kb, Uso: ");
    line.append(u64_to_decimal(ram.uso).as_str());
    line.append(" Kb");
    line
}

/// The log entry about the host's memory, stamped with the instant `secs`
/// seconds and `nanos` nanoseconds after the Unix epoch, written in UTC; `None`
/// where that instant has no RFC 3339 text.
pub fn ram_log_entry(ram: &RamInfo, secs: i64, nanos: u32) -> (line: Option<String>)
    ensures
        match utc_rfc3339_text(secs, nanos) {
            Some(ts) => line matches Some(l) && l@ == ram_log_text(ts, *ram),
            None => line is None,
        },
        line matches Some(l) ==> exists|ts: Seq<char>| is_utc_rfc3339(ts) && l@ == ram_log_text(ts, *ram),
        0 <= secs <= 253_402_300_799 && nanos < 1_000_000_000 ==> line is Some,
{
    match utc_rfc3339(secs, nanos) {
        Some(stamp) => Some(ram_log_message(stamp.as_str(), ram)),
        None => None,
    }
}

/// Whether an HTTP status code reports success, that is lies in `200..=299`.
pub fn status_is_success(code: u16) -> (ok: bool)
    ensures
        ok == (200 <= code <= 299),
{
    200 <= code && code <= 299
}

} // verus!
