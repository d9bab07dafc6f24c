//! The command line: parsing what the user typed, the on-demand process
//! query, and the lines shown in reply.

use vstd::prelude::*;
use crate::text::{bytes_to_human, human_bytes, decimal, push_decimal, digit_char};

verus! {

/// What `str::trim` leaves of a string.
pub uninterp spec fn trim_of(s: Seq<char>) -> Seq<char>;

/// Relies on `str::trim`: the text without leading and trailing white space,
/// which depends on the characters alone.
#[verifier::external_body]
fn trimmed(s: &str) -> (r: String)
    ensures
        r@ == trim_of(s@),
{
    s.trim().to_string()
}

/// A command typed on the command line.
#[derive(Debug, PartialEq, Eq)]
pub enum Command {
    /// Nothing was typed.
    Empty,
    /// `help` or `?`.
    Help,
    /// `p <pid>` or `P <pid>`.
    ShowProcess(u64),
    /// `p` followed by something that is not a process identifier.
    InvalidPid,
    /// Anything else, as typed.
    Unknown(String),
}

/// The value of a string of decimal digits.
pub open spec fn digits_value(s: Seq<char>) -> nat
    decreases s.len(),
{
    if s.len() == 0 {
        0
    } else {
        (digits_value(s.drop_last()) * 10 + ((s.last() as u32) - ('0' as u32))) as nat
    }
}

pub open spec fn is_digit(c: char) -> bool {
    '0' <= c && c <= '9'
}

pub open spec fn all_digits(s: Seq<char>) -> bool {
    forall|i: int| 0 <= i < s.len() ==> is_digit(#[trigger] s[i])
}

/// The unsigned integer that `s` spells: an optional `+`, then one or more
/// decimal digits, of a value that fits in 64 bits.
pub open spec fn parsed_unsigned(s: Seq<char>) -> Option<u64> {
    let d = if s.len() > 0 && s[0] == '+' {
        s.drop_first()
    } else {
        s
    };
    if d.len() > 0 && all_digits(d) && digits_value(d) <= u64::MAX {
        Some(digits_value(d) as u64)
    } else {
        None
    }
}

proof fn lemma_digits_value_grows(s: Seq<char>, i: int)
    requires
        0 <= i <= s.len(),
        all_digits(s),
    ensures
        digits_value(s.take(i)) <= digits_value(s),
    decreases s.len(),
{
    if i < s.len() {
        assert(s.drop_last().take(i) =~= s.take(i));
        lemma_digits_value_grows(s.drop_last(), i);
    } else {
        assert(s.take(i) =~= s);
    }
}

/// Reads an unsigned integer: an optional `+` and decimal digits.
pub fn parse_unsigned(s: &str) -> (r: Option<u64>)
    ensures
        r == parsed_unsigned(s@),
{
    let n = s.unicode_len();
    let mut i: usize = 0;
    if n > 0 && s.get_char(0) == '+' {
        i = 1;
    }
    let ghost start = i as int;
    let ghost d = s@.subrange(start, n as int);
    assert(d =~= if s@.len() > 0 && s@[0] == '+' { s@.drop_first() } else { s@ });
    if i == n {
        return None;
    }
    let mut v: u64 = 0;
    while i < n
        invariant
            n == s@.len(),
            0 <= start <= i <= n,
            d == s@.subrange(start, n as int),
            d.len() == n - start,
            d == (if s@.len() > 0 && s@[0] == '+' {
                s@.drop_first()
            } else {
                s@
            }),
            d.len() > 0,
            all_digits(d.take(i - start)),
            v as nat == digits_value(d.take(i - start)),
        decreases n - i,
    {
        let c = s.get_char(i);
        let ghost k = i - start;
        assert(d[k] == c);
        assert(d.take(k + 1).drop_last() =~= d.take(k));
        if c < '0' || c > '9' {
            assert(!all_digits(d));
            return None;
        }
        let digit = (c as u32 - '0' as u32) as u64;
        if v > (u64::MAX - digit) / 10 {
            proof {
                assert(digits_value(d.take(k + 1)) > u64::MAX) by (nonlinear_arith)
                    requires
                        digits_value(d.take(k + 1)) == v as nat * 10 + digit,
                        v > (u64::MAX - digit) / 10,
                        digit <= 9,
                ;
                if all_digits(d) {
                    lemma_digits_value_grows(d, k + 1);
                }
            }
            return None;
        }
        assert(v * 10 + digit <= u64::MAX) by (nonlinear_arith)
            requires
                v <= (u64::MAX - digit) / 10,
                digit <= 9,
        ;
        v = v * 10 + digit;
        i = i + 1;
        assert(all_digits(d.take(i - start)));
    }
    assert(d.take(i - start) =~= d);
    Some(v)
}

/// The command that the trimmed text `cmd` stands for.
pub open spec fn is_command_of(c: Command, cmd: Seq<char>) -> bool {
    if cmd.len() >= 2 && (cmd[0] == 'p' || cmd[0] == 'P') && cmd[1] == ' ' {
        match parsed_unsigned(trim_of(cmd.subrange(2, cmd.len() as int))) {
            Some(pid) => c == Command::ShowProcess(pid),
            None => c == Command::InvalidPid,
        }
    } else if cmd == "help"@ || cmd == "?"@ {
        c == Command::Help
    } else if cmd.len() == 0 {
        c == Command::Empty
    } else {
        c matches Command::Unknown(t) && t@ == cmd
    }
}

/// The command that the already trimmed text `cmd` stands for.
pub fn parse_trimmed_command(cmd: &str) -> (r: Command)
    ensures
        is_command_of(r, cmd@),
{
    let n = cmd.unicode_len();
    if n >= 2 {
        let c0 = cmd.get_char(0);
        let c1 = cmd.get_char(1);
        if (c0 == 'p' || c0 == 'P') && c1 == ' ' {
            let rest = trimmed(cmd.substring_char(2, n));
            return match parse_unsigned(rest.as_str()) {
                Some(pid) => Command::ShowProcess(pid),
                None => Command::InvalidPid,
            };
        }
    }
    let owned = String::from_str(cmd);
    let help = String::from_str("help");
    let question = String::from_str("?");
    if owned == help || owned == question {
        Command::Help
    } else if n == 0 {
        Command::Empty
    } else {
        Command::Unknown(owned)
    }
}

/// The command that the typed text `input` stands for, once trimmed.
pub fn parse_command(input: &str) -> (r: Command)
    ensures
        is_command_of(r, trim_of(input@)),
{
    let cmd = trimmed(input);
    parse_trimmed_command(cmd.as_str())
}

/// What the on-demand query reports of one process.
#[derive(Debug)]
pub struct ProcessDetail {
    pub name: String,
    pub status: String,
    pub cpu_usage_centi: u64,
    pub memory: u64,
    pub virtual_memory: u64,
    pub run_time: u64,
    pub disk_read_total: u64,
    pub disk_written_total: u64,
    pub cwd: Option<String>,
    pub exe: Option<String>,
}

/// The process asked for does not exist.
#[derive(Debug, PartialEq, Eq, Structural)]
pub struct NotFound {
    pub pid: u64,
}

/// What a query for `pid` returns when the probe found `found`.
pub open spec fn lookup_result(pid: u64, found: Option<ProcessDetail>) -> Result<ProcessDetail, NotFound> {
    match found {
        Some(d) => Ok(d),
        None => Err(NotFound { pid }),
    }
}

/// Looks up `pid` through `lookup`, which refreshes a probe of its own and
/// reads the process from it. The shared telemetry state is not involved.
pub fn query_process<F: FnOnce(u64) -> Option<ProcessDetail>>(pid: u64, lookup: F) -> (r: Result<ProcessDetail, NotFound>)
    requires
        lookup.requires((pid,)),
    ensures
        exists|found: Option<ProcessDetail>| {
            &&& #[trigger] lookup.ensures((pid,), found)
            &&& r == lookup_result(pid, found)
        },
{
    let found = lookup(pid);
    let ghost g = found;
    assert(lookup.ensures((pid,), g));
    match found {
        Some(d) => Ok(d),
        None => Err(NotFound { pid }),
    }
}

/// A quantity in hundredths, with two decimal places.
pub open spec fn centi_text(c: nat) -> Seq<char> {
    decimal(c / 100) + seq!['.', digit_char((c % 100) / 10), digit_char(c % 10)]
}

fn push_centi(s: &mut String, c: u64)
    ensures
        final(s)@ == old(s)@ + centi_text(c as nat),
{
    push_decimal(s, (c / 100) as u128);
    s.append(".");
    push_decimal(s, ((c % 100) / 10) as u128);
    push_decimal(s, (c % 10) as u128);
    proof {
        reveal_strlit(".");
        assert(decimal(((c % 100) / 10) as nat) == seq![digit_char(((c % 100) / 10) as nat)]);
        assert(decimal((c % 10) as nat) == seq![digit_char((c % 10) as nat)]);
    }
    assert(final(s)@ =~= old(s)@ + centi_text(c as nat));
}

/// The lines that describe a process found by the query.
pub open spec fn detail_text(pid: u64, d: ProcessDetail) -> Seq<Seq<char>> {
    let head = seq![
        "Process Details for PID "@ + decimal(pid as nat) + ":"@,
        "  Name: "@ + d.name@,
        "  Status: "@ + d.status@,
        "  CPU Usage: "@ + centi_text(d.cpu_usage_centi as nat) + "%"@,
        "  Memory: "@ + human_bytes(d.memory as nat),
        "  Virtual Memory: "@ + human_bytes(d.virtual_memory as nat),
        "  Runtime: "@ + decimal(d.run_time as nat) + " seconds"@,
        "  Disk Read: "@ + human_bytes(d.disk_read_total as nat),
        "  Disk Write: "@ + human_bytes(d.disk_written_total as nat),
    ];
    let with_cwd = match d.cwd {
        Some(p) => head.push("  CWD: "@ + p@),
        None => head,
    };
    match d.exe {
        Some(p) => with_cwd.push("  Executable: "@ + p@),
        None => with_cwd,
    }
}

/// The views of a list of strings.
pub open spec fn views(v: Seq<String>) -> Seq<Seq<char>> {
    v.map_values(|s: String| s@)
}

fn labelled(label: &str, value: &str) -> (r: String)
    ensures
        r@ == label@ + value@,
{
    let mut s = String::from_str(label);
    s.append(value);
    s
}

/// The lines that describe process `pid`, found by the query as `d`.
pub fn detail_lines(pid: u64, d: &ProcessDetail) -> (r: Vec<String>)
    ensures
        views(r@) == detail_text(pid, *d),
{
    let mut lines: Vec<String> = Vec::new();
    let mut s = String::from_str("Process Details for PID ");
    push_decimal(&mut s, pid as u128);
    s.append(":");
    lines.push(s);
    lines.push(labelled("  Name: ", d.name.as_str()));
    lines.push(labelled("  Status: ", d.status.as_str()));
    let mut s = String::from_str("  CPU Usage: ");
    push_centi(&mut s, d.cpu_usage_centi);
    s.append("%");
    lines.push(s);
    lines.push(labelled("  Memory: ", bytes_to_human(d.memory).as_str()));
    lines.push(labelled("  Virtual Memory: ", bytes_to_human(d.virtual_memory).as_str()));
    let mut s = String::from_str("  Runtime: ");
    push_decimal(&mut s, d.run_time as u128);
    s.append(" seconds");
    lines.push(s);
    lines.push(labelled("  Disk Read: ", bytes_to_human(d.disk_read_total).as_str()));
    lines.push(labelled("  Disk Write: ", bytes_to_human(d.disk_written_total).as_str()));
    match &d.cwd {
        Some(p) => lines.push(labelled("  CWD: ", p.as_str())),
        None => {},
    }
    match &d.exe {
        Some(p) => lines.push(labelled("  Executable: ", p.as_str())),
        None => {},
    }
    assert(views(lines@) =~= detail_text(pid, *d));
    lines
}

/// The lines of the help text.
pub open spec fn help_text() -> Seq<Seq<char>> {
    seq![
        "Available commands:"@,
        "  p <PID> - Show detailed process information"@,
        "  help or ? - Show this help message"@,
        "  Press ESC to exit command mode"@,
    ]
}

/// The lines that answer a query for `pid`.
pub open spec fn query_text(pid: u64, r: Result<ProcessDetail, NotFound>) -> Seq<Seq<char>> {
    match r {
        Ok(d) => detail_text(pid, d),
        Err(nf) => seq!["Process with PID "@ + decimal(nf.pid as nat) + " not found"@],
    }
}

/// The lines shown in reply to command `c`; `found` is what the query
/// returned where `c` asks for a process.
pub open spec fn reply_text(c: Command, found: Result<ProcessDetail, NotFound>) -> Seq<Seq<char>> {
    match c {
        Command::Empty => Seq::empty(),
        Command::Help => help_text(),
        Command::ShowProcess(pid) => query_text(pid, found),
        Command::InvalidPid => seq!["Invalid PID format. Usage: p <PID>"@],
        Command::Unknown(t) => seq![
            "Unknown command: '"@ + t@ + "'. Type 'help' for available commands."@,
        ],
    }
}

/// The help text.
pub fn help_lines() -> (r: Vec<String>)
    ensures
        views(r@) == help_text(),
{
    let mut r: Vec<String> = Vec::new();
    r.push(String::from_str("Available commands:"));
    r.push(String::from_str("  p <PID> - Show detailed process information"));
    r.push(String::from_str("  help or ? - Show this help message"));
    r.push(String::from_str("  Press ESC to exit command mode"));
    assert(views(r@) =~= help_text());
    r
}

/// The lines that answer a query for `pid` that returned `found`.
pub fn query_lines(pid: u64, found: &Result<ProcessDetail, NotFound>) -> (r: Vec<String>)
    ensures
        views(r@) == query_text(pid, *found),
{
    match found {
        Ok(d) => detail_lines(pid, d),
        Err(nf) => {
            let mut s = String::from_str("Process with PID ");
            push_decimal(&mut s, nf.pid as u128);
            s.append(" not found");
            let mut r: Vec<String> = Vec::new();
            r.push(s);
            assert(views(r@) =~= query_text(pid, *found));
            r
        },
    }
}

/// The lines shown in reply to command `c`. Only a process query calls
/// `lookup`, with the identifier asked for.
pub fn reply_lines<F: FnOnce(u64) -> Option<ProcessDetail>>(c: &Command, lookup: F) -> (r: Vec<String>)
    requires
        *c matches Command::ShowProcess(pid) ==> lookup.requires((pid,)),
    ensures
        *c matches Command::ShowProcess(pid) ==> exists|found: Option<ProcessDetail>| {
            &&& #[trigger] lookup.ensures((pid,), found)
            &&& views(r@) == reply_text(*c, lookup_result(pid, found))
        },
        !(c is ShowProcess) ==> views(r@) == reply_text(*c, Err(NotFound { pid: 0 })),
{
    match c {
        Command::Empty => {
            let r: Vec<String> = Vec::new();
            assert(views(r@) =~= Seq::<Seq<char>>::empty());
            r
        },
        Command::Help => help_lines(),
        Command::ShowProcess(pid) => {
            let found = query_process(*pid, lookup);
            query_lines(*pid, &found)
        },
        Command::InvalidPid => {
            let mut r: Vec<String> = Vec::new();
            r.push(String::from_str("Invalid PID format. Usage: p <PID>"));
            assert(views(r@) =~= reply_text(*c, Err(NotFound { pid: 0 })));
            r
        },
        Command::Unknown(t) => {
            let mut s = String::from_str("Unknown command: '");
            s.append(t.as_str());
            s.append("'. Type 'help' for available commands.");
            let mut r: Vec<String> = Vec::new();
            r.push(s);
            assert(views(r@) =~= reply_text(*c, Err(NotFound { pid: 0 })));
            r
        },
    }
}

} // verus!
