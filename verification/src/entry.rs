//! A log entry as the viewer holds it: the message as received and a lower-cased search copy.
use vstd::prelude::*;

use crate::logger::{self, Level, Module};
use crate::logger::{level_name, module_name};
use crate::text::{ascii_lower, ascii_upper, digit_char, push_decimal, to_ascii_lowercase};

verus! {

/// A log entry in the viewer.
#[derive(Debug)]
pub struct Entry {
    /// The message as it was logged, for display.
    pub msg: String,
    /// The logged entry, whose message is the lower-cased search copy.
    pub raw: logger::Entry,
}

impl Entry {
    /// Turns a logged entry into a viewer entry: the display message is the message as logged,
    /// and the raw entry keeps module, level and timestamp with its message lower-cased.
    pub fn from(entry: logger::Entry) -> (r: Self)
        ensures
            r.msg@ == entry.message@,
            r.raw.module == entry.module,
            r.raw.level == entry.level,
            r.raw.timestamp_ms == entry.timestamp_ms,
            r.raw.message@ == ascii_lower(entry.message@),
    {
        let search_index = to_ascii_lowercase(entry.message.as_str());
        Entry {
            msg: entry.message,
            raw: logger::Entry {
                module: entry.module,
                level: entry.level,
                timestamp_ms: entry.timestamp_ms,
                message: search_index,
            },
        }
    }
}

/// The label of a level in the viewer's level column.
pub open spec fn spec_level_label(l: Level) -> Seq<char> {
    match l {
        Level::Info => "INFO"@,
        Level::Warning => "WARNING"@,
        Level::Error => "ERROR"@,
        Level::Fatal => "FATAL"@,
        Level::Shutdown => "SHUTDOWN"@,
    }
}

/// The label of a module in the viewer's module column.
pub open spec fn spec_module_label(m: Module) -> Seq<char> {
    match m {
        Module::Api => "Api"@,
        Module::Database => "Database"@,
        Module::Server => "Server"@,
        Module::Asset => "Asset"@,
        Module::Storage => "Storage"@,
        Module::Logger => "Logger"@,
        Module::Ledger => "Ledger"@,
    }
}

/// The level column names each level: its label is the level's declared name in upper case, so
/// distinct levels get distinct labels.
pub proof fn lemma_level_label_names()
    ensures
        forall|l: Level| #[trigger] spec_level_label(l) == ascii_upper(level_name(l)),
        forall|a: Level, b: Level| spec_level_label(a) == spec_level_label(b) ==> a == b,
{
    reveal_strlit("Info");
    reveal_strlit("Warning");
    reveal_strlit("Error");
    reveal_strlit("Fatal");
    reveal_strlit("Shutdown");
    reveal_strlit("INFO");
    reveal_strlit("WARNING");
    reveal_strlit("ERROR");
    reveal_strlit("FATAL");
    reveal_strlit("SHUTDOWN");
    assert(ascii_upper(level_name(Level::Info)) =~= spec_level_label(Level::Info));
    assert(ascii_upper(level_name(Level::Warning)) =~= spec_level_label(Level::Warning));
    assert(ascii_upper(level_name(Level::Error)) =~= spec_level_label(Level::Error));
    assert(ascii_upper(level_name(Level::Fatal)) =~= spec_level_label(Level::Fatal));
    assert(ascii_upper(level_name(Level::Shutdown)) =~= spec_level_label(Level::Shutdown));
    assert forall|a: Level, b: Level| spec_level_label(a) == spec_level_label(b) implies a == b by {
        if a != b {
            assert(spec_level_label(a).len() != spec_level_label(b).len() || spec_level_label(a)[0]
                != spec_level_label(b)[0] || spec_level_label(a)[1] != spec_level_label(b)[1]);
        }
    }
}

/// Computes `spec_level_label`.
pub fn level_label(l: Level) -> (r: &'static str)
    ensures
        r@ == spec_level_label(l),
        r@ == ascii_upper(level_name(l)),
{
    proof {
        lemma_level_label_names();
        assert(spec_level_label(l) == ascii_upper(level_name(l)));
    }
    match l {
        Level::Info => "INFO",
        Level::Warning => "WARNING",
        Level::Error => "ERROR",
        Level::Fatal => "FATAL",
        Level::Shutdown => "SHUTDOWN",
    }
}

/// Computes `spec_module_label`.
pub fn module_label(m: Module) -> (r: &'static str)
    ensures
        r@ == spec_module_label(m),
        r@ == module_name(m),
{
    match m {
        Module::Api => "Api",
        Module::Database => "Database",
        Module::Server => "Server",
        Module::Asset => "Asset",
        Module::Storage => "Storage",
        Module::Logger => "Logger",
        Module::Ledger => "Ledger",
    }
}

/// A number below one hundred as exactly two decimal digits.
pub open spec fn two_digits(n: nat) -> Seq<char> {
    seq![digit_char(n / 10), digit_char(n % 10)]
}

/// The time column's label: `HH:MM:SS`, each part two digits.
pub open spec fn spec_clock_label(hour: nat, minute: nat, second: nat) -> Seq<char> {
    two_digits(hour) + seq![':'] + two_digits(minute) + seq![':'] + two_digits(second)
}

/// Appends a number below one hundred as two digits.
fn push_two_digits(s: &mut String, n: u32)
    requires
        n < 100,
    ensures
        final(s)@ == old(s)@ + two_digits(n as nat),
{
    push_decimal(s, (n / 10) as u64);
    push_decimal(s, (n % 10) as u64);
    proof {
        reveal_with_fuel(crate::text::decimal, 2);
    }
}

/// Formats a time of day for the time column.
pub fn clock_label(hour: u32, minute: u32, second: u32) -> (r: String)
    requires
        hour < 24,
        minute < 60,
        second < 60,
    ensures
        r@ == spec_clock_label(hour as nat, minute as nat, second as nat),
{
    let mut r = String::new();
    push_two_digits(&mut r, hour);
    r.push(':');
    push_two_digits(&mut r, minute);
    r.push(':');
    push_two_digits(&mut r, second);
    r
}

} // verus!
