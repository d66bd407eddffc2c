//! Which log records reach the log box of the launcher window, and how they are
//! written and colored there.

use vstd::prelude::*;
use crate::text::{join_str, chars_of, string_of, contains, is_prefix, str_contains, starts_with};

verus! {

/// The level of a log record, most severe first.
#[derive(Debug, Clone, Copy, PartialEq, Eq, Structural)]
pub enum LogLevel {
    Error,
    Warn,
    Info,
    Debug,
    Trace,
}

/// The rank of a level: 1 for errors up to 5 for traces.
pub open spec fn rank(l: LogLevel) -> int {
    match l {
        LogLevel::Error => 1,
        LogLevel::Warn => 2,
        LogLevel::Info => 3,
        LogLevel::Debug => 4,
        LogLevel::Trace => 5,
    }
}

/// The log box shows records of level `Info` and more severe ones.
pub fn enabled(level: LogLevel) -> (r: bool)
    ensures
        r == (rank(level) <= rank(LogLevel::Info)),
{
    match level {
        LogLevel::Error | LogLevel::Warn | LogLevel::Info => true,
        _ => false,
    }
}

/// Modules whose records never reach the log box: their paths hold one of these.
pub open spec fn blacklisted_module(path: Seq<char>) -> bool {
    ||| contains(path, "gfx_backend_"@)
    ||| contains(path, "winit"@)
    ||| contains(path, "wgpu_"@)
    ||| contains(path, "iced_"@)
    ||| contains(path, "ureq::unit"@)
}

/// Whether a record from the module `module` may reach the log box: records
/// without a module path may, others unless their module is blacklisted.
pub fn should_log(module: Option<&str>) -> (r: bool)
    ensures
        r == (match module {
            Some(p) => !blacklisted_module(p@),
            None => true,
        }),
{
    match module {
        None => true,
        Some(p) => !(str_contains(p, "gfx_backend_") || str_contains(p, "winit") || str_contains(
            p,
            "wgpu_",
        ) || str_contains(p, "iced_") || str_contains(p, "ureq::unit")),
    }
}

/// Whether a record reaches the log box at all.
pub fn accepts(level: LogLevel, module: Option<&str>) -> (r: bool)
    ensures
        r == (rank(level) <= rank(LogLevel::Info) && match module {
            Some(p) => !blacklisted_module(p@),
            None => true,
        }),
{
    enabled(level) && should_log(module)
}

/// The name of a level as the log writes it.
pub open spec fn level_name_spec(l: LogLevel) -> Seq<char> {
    match l {
        LogLevel::Error => "ERROR"@,
        LogLevel::Warn => "WARN"@,
        LogLevel::Info => "INFO"@,
        LogLevel::Debug => "DEBUG"@,
        LogLevel::Trace => "TRACE"@,
    }
}

pub fn level_name(l: LogLevel) -> (r: &'static str)
    ensures
        r@ == level_name_spec(l),
{
    match l {
        LogLevel::Error => "ERROR",
        LogLevel::Warn => "WARN",
        LogLevel::Info => "INFO",
        LogLevel::Debug => "DEBUG",
        LogLevel::Trace => "TRACE",
    }
}

/// `s` followed by spaces up to `width` characters (`{:<width}`).
pub open spec fn pad_right(s: Seq<char>, width: nat) -> Seq<char> {
    if s.len() >= width {
        s
    } else {
        s + Seq::new((width - s.len()) as nat, |i: int| ' ')
    }
}

fn pad_right_exec(s: &str, width: usize) -> (r: String)
    ensures
        r@ == pad_right(s@, width as nat),
{
    let mut c = chars_of(s);
    let n = c.len();
    while c.len() < width
        invariant
            n == s@.len(),
            n <= c.len(),
            c@.subrange(0, n as int) == s@,
            forall|i: int| n <= i < c.len() ==> c@[i] == ' ',
            n < width ==> c.len() <= width,
            n >= width ==> c.len() == n,
        decreases width - c.len(),
    {
        c.push(' ');
        assert(c@.subrange(0, n as int) =~= c@.drop_last().subrange(0, n as int));
    }
    if n < width {
        assert(c@ =~= s@ + Seq::new((width - n) as nat, |i: int| ' '));
    } else {
        assert(c@.subrange(0, n as int) =~= c@);
    }
    string_of(&c)
}

/// A line of the log box: the level padded to seven characters, the module path in
/// brackets (`unknown` where there is none), and the message.
pub open spec fn log_line_spec(level: LogLevel, module: Option<Seq<char>>, message: Seq<char>) -> Seq<char> {
    pad_right(level_name_spec(level), 7) + " ["@ + (match module {
        Some(p) => p,
        None => "unknown"@,
    }) + "] "@ + message
}

pub fn log_line(level: LogLevel, module: Option<&str>, message: &str) -> (r: String)
    ensures
        r@ == log_line_spec(
            level,
            match module {
                Some(p) => Some(p@),
                None => None,
            },
            message@,
        ),
{
    let lvl = pad_right_exec(level_name(level), 7);
    let a = join_str(lvl.as_str(), " [");
    let module = match module {
        Some(p) => p,
        None => "unknown",
    };
    let b = join_str(a.as_str(), module);
    let c = join_str(b.as_str(), "] ");
    join_str(c.as_str(), message)
}

/// How a line of the log box is colored.
#[derive(Debug, Clone, Copy, PartialEq, Eq, Structural)]
pub enum LogStyle {
    Warning,
    Error,
    Plain,
}

/// Warnings and errors are highlighted, by the start of the line.
pub fn log_style(line: &str) -> (r: LogStyle)
    ensures
        r == (if is_prefix("WARN"@, line@) {
            LogStyle::Warning
        } else if is_prefix("ERROR"@, line@) {
            LogStyle::Error
        } else {
            LogStyle::Plain
        }),
{
    if starts_with(line, "WARN") {
        LogStyle::Warning
    } else if starts_with(line, "ERROR") {
        LogStyle::Error
    } else {
        LogStyle::Plain
    }
}

/// Lines written by [`log_line`] are colored by their level.
pub proof fn lemma_line_style_follows_level(level: LogLevel, module: Option<Seq<char>>, message: Seq<char>)
    ensures
        level == LogLevel::Warn ==> is_prefix("WARN"@, log_line_spec(level, module, message)),
        level == LogLevel::Error ==> is_prefix("ERROR"@, log_line_spec(level, module, message)),
{
    reveal_strlit("WARN");
    reveal_strlit("ERROR");
    let line = log_line_spec(level, module, message);
    let name = level_name_spec(level);
    let padded = pad_right(name, 7);
    assert(line =~= padded + (" ["@ + (match module {
        Some(p) => p,
        None => "unknown"@,
    }) + "] "@ + message));
    assert(padded.subrange(0, name.len() as int) =~= name);
    assert(line.subrange(0, name.len() as int) =~= name);
}

} // verus!
