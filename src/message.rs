use vstd::prelude::*;
use vstd::string::StringExecFns;
use crate::percent::Percent;

verus! {

/// The last second, counted from the Unix epoch, that the calendar can hold
/// (the end of the year 262142).
pub const LATEST_DATE_SECS: u64 = 8_210_266_876_799;

/// The RFC 3339 text of the UTC instant `secs` seconds after the Unix epoch.
pub uninterp spec fn rfc3339_text(secs: u64) -> Seq<char>;

/// Relies on chrono's `DateTime::<Utc>::from_timestamp`, which gives `None`
/// exactly past the calendar's last second, and `DateTime::to_rfc3339`, whose
/// text depends on the instant alone.
#[verifier::external_body]
fn rfc3339_of(secs: u64) -> (r: Option<String>)
    requires
        secs <= i64::MAX,
    ensures
        r is Some <==> secs <= LATEST_DATE_SECS,
        r matches Some(s) ==> s@ == rfc3339_text(secs),
{
    chrono::DateTime::<chrono::Utc>::from_timestamp(secs as i64, 0).map(|t| t.to_rfc3339())
}

/// The character of a decimal digit.
pub open spec fn digit_char(d: nat) -> char {
    seq!['0', '1', '2', '3', '4', '5', '6', '7', '8', '9'][d as int]
}

/// `n` in decimal, without leading zeros.
pub open spec fn decimal(n: nat) -> Seq<char>
    decreases n,
{
    if n < 10 {
        seq![digit_char(n)]
    } else {
        decimal(n / 10).push(digit_char(n % 10))
    }
}

/// A count of tenths written with one decimal (`755` is `75.5`).
pub open spec fn one_decimal(t: int) -> Seq<char> {
    decimal((t / 10) as nat) + seq!['.'] + decimal((t % 10) as nat)
}

/// What an alert says of a start time: "?" when it is unknown (0) or past
/// the calendar's end.
pub open spec fn started_view(start_secs: u64) -> Seq<char> {
    if start_secs == 0 || start_secs > LATEST_DATE_SECS {
        seq!['?']
    } else {
        rfc3339_text(start_secs)
    }
}

fn digit_str(d: u64) -> (r: &'static str)
    requires
        d < 10,
    ensures
        r@ == seq![digit_char(d as nat)],
{
    proof {
        reveal_strlit("0");
        reveal_strlit("1");
        reveal_strlit("2");
        reveal_strlit("3");
        reveal_strlit("4");
        reveal_strlit("5");
        reveal_strlit("6");
        reveal_strlit("7");
        reveal_strlit("8");
        reveal_strlit("9");
    }
    let r = if d == 0 {
        "0"
    } else if d == 1 {
        "1"
    } else if d == 2 {
        "2"
    } else if d == 3 {
        "3"
    } else if d == 4 {
        "4"
    } else if d == 5 {
        "5"
    } else if d == 6 {
        "6"
    } else if d == 7 {
        "7"
    } else if d == 8 {
        "8"
    } else {
        "9"
    };
    assert(r@ =~= seq![digit_char(d as nat)]);
    r
}

/// `n` in decimal.
pub fn decimal_text(n: u128) -> (r: String)
    ensures
        r@ == decimal(n as nat),
    decreases n,
{
    if n < 10 {
        String::from_str(digit_str(n as u64))
    } else {
        let mut s = decimal_text(n / 10);
        s.append(digit_str((n % 10) as u64));
        assert(s@ =~= decimal(n as nat));
        s
    }
}

/// A percentage with one decimal, rounded to the nearest tenth, an exact half
/// to the even one.
pub fn tenths_text(p: Percent) -> (r: String)
    requires
        p.wf(),
    ensures
        r@ == one_decimal(p.tenths()),
{
    let (whole, digit) = p.tenths_parts();
    let mut s = decimal_text(whole);
    proof {
        reveal_strlit(".");
    }
    s.append(".");
    let f = decimal_text(digit);
    s.append(f.as_str());
    assert(s@ =~= one_decimal(p.tenths()));
    s
}

/// The start time as an alert shows it.
pub fn started_text(start_secs: u64) -> (r: String)
    ensures
        r@ == started_view(start_secs),
{
    proof {
        reveal_strlit("?");
    }
    if start_secs == 0 || start_secs > LATEST_DATE_SECS {
        let r = String::from_str("?");
        assert(r@ =~= seq!['?']);
        r
    } else {
        match rfc3339_of(start_secs) {
            Some(t) => t,
            None => {
                let r = String::from_str("?");
                assert(r@ =~= seq!['?']);
                r
            },
        }
    }
}

/// What an alert reports about one process.
#[derive(Clone, Debug)]
pub struct ProcessInfo {
    pub name: String,
    pub pid: u64,
    /// CPU usage in percent.
    pub cpu: Percent,
    /// The command line, or the name where it could not be read.
    pub cmdline: String,
    /// Start time in seconds since the Unix epoch; 0 when unknown.
    pub start_secs: u64,
}

/// The alert text: the threshold, then the process's name, pid, usage, start
/// time and command line, one per line.
pub open spec fn alert_view(
    threshold: Percent,
    name: Seq<char>,
    pid: u64,
    cpu: Percent,
    started: Seq<char>,
    cmdline: Seq<char>,
) -> Seq<char> {
    "⚠ Процесс использует >"@ + one_decimal(threshold.tenths()) + "% CPU\nName: "@ + name + "\nPID: "@
        + decimal(pid as nat) + "\nCPU: "@ + one_decimal(cpu.tenths()) + "%\nStarted: "@ + started
        + "\nCmd: "@ + cmdline
}

/// The alert text for `info` over `threshold`, with `started` for its
/// start time.
pub open spec fn message_view(info: ProcessInfo, threshold: Percent, started: Seq<char>) -> Seq<char> {
    alert_view(threshold, info.name@, info.pid, info.cpu, started, info.cmdline@)
}

/// The alert text, given the start time already rendered.
pub fn compose_message(info: &ProcessInfo, threshold: Percent, started: &str) -> (r: String)
    requires
        info.cpu.wf(),
        threshold.wf(),
    ensures
        r@ == message_view(*info, threshold, started@),
{
    let mut s = String::from_str("⚠ Процесс использует >");
    let t = tenths_text(threshold);
    s.append(t.as_str());
    s.append("% CPU\nName: ");
    s.append(info.name.as_str());
    s.append("\nPID: ");
    let p = decimal_text(info.pid as u128);
    s.append(p.as_str());
    s.append("\nCPU: ");
    let c = tenths_text(info.cpu);
    s.append(c.as_str());
    s.append("%\nStarted: ");
    s.append(started);
    s.append("\nCmd: ");
    s.append(info.cmdline.as_str());
    assert(s@ =~= message_view(*info, threshold, started@));
    s
}

/// The alert text for `info` over `threshold`.
pub fn format_message(info: &ProcessInfo, threshold: Percent) -> (r: String)
    requires
        info.cpu.wf(),
        threshold.wf(),
    ensures
        r@ == message_view(*info, threshold, started_view(info.start_secs)),
{
    let started = started_text(info.start_secs);
    compose_message(info, threshold, started.as_str())
}

} // verus!
