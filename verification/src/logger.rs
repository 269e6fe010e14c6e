//! Structured log entries, their wire form, and the decisions of the logging service.
use chrono::Datelike;
use vstd::prelude::*;
use vstd::utf8::encode_utf8;

use crate::text::{decimal, push_decimal, push_signed_decimal, push_str, signed_decimal};

verus! {

/// The severity level of a log entry.
#[derive(Debug, Clone, Copy, PartialEq, Eq, Structural)]
pub enum Level {
    /// Routine informational events.
    Info,
    /// Abnormal but non-fatal events.
    Warning,
    /// Unexpected failures affecting a single request.
    Error,
    /// Critical failures: the server may be in an unrecoverable state.
    Fatal,
    /// Sentinel that stops the logging service.
    Shutdown,
}

/// The server subsystem that produced a log entry.
#[derive(Debug, Clone, Copy, PartialEq, Eq, Structural)]
pub enum Module {
    /// Server lifecycle.
    Server,
    /// Database layer.
    Database,
    /// Storage layer.
    Storage,
    /// Asset domain.
    Asset,
    /// HTTP layer.
    Api,
    /// Sync ledger.
    Ledger,
    /// The logging service itself.
    Logger,
}

/// A single structured log event.
#[derive(Debug)]
pub struct Entry {
    /// The subsystem that generated this entry.
    pub module: Module,
    /// The severity of this entry.
    pub level: Level,
    /// Unix epoch timestamp in milliseconds.
    pub timestamp_ms: i64,
    /// The human-readable message.
    pub message: String,
}

/// The name of a level as written in its declaration.
pub open spec fn level_name(l: Level) -> Seq<char> {
    match l {
        Level::Info => "Info"@,
        Level::Warning => "Warning"@,
        Level::Error => "Error"@,
        Level::Fatal => "Fatal"@,
        Level::Shutdown => "Shutdown"@,
    }
}

/// The name of a module as written in its declaration.
pub open spec fn module_name(m: Module) -> Seq<char> {
    match m {
        Module::Server => "Server"@,
        Module::Database => "Database"@,
        Module::Storage => "Storage"@,
        Module::Asset => "Asset"@,
        Module::Api => "Api"@,
        Module::Ledger => "Ledger"@,
        Module::Logger => "Logger"@,
    }
}

/// The position of a level in the wire encoding (declaration order).
pub open spec fn level_index(l: Level) -> u32 {
    match l {
        Level::Info => 0,
        Level::Warning => 1,
        Level::Error => 2,
        Level::Fatal => 3,
        Level::Shutdown => 4,
    }
}

/// The position of a module in the wire encoding (declaration order).
pub open spec fn module_index(m: Module) -> u32 {
    match m {
        Module::Server => 0,
        Module::Database => 1,
        Module::Storage => 2,
        Module::Asset => 3,
        Module::Api => 4,
        Module::Ledger => 5,
        Module::Logger => 6,
    }
}

/// The level at a wire position, if the position names one.
pub open spec fn level_at(i: u32) -> Option<Level> {
    if i == 0 {
        Some(Level::Info)
    } else if i == 1 {
        Some(Level::Warning)
    } else if i == 2 {
        Some(Level::Error)
    } else if i == 3 {
        Some(Level::Fatal)
    } else if i == 4 {
        Some(Level::Shutdown)
    } else {
        None
    }
}

/// The module at a wire position, if the position names one.
pub open spec fn module_at(i: u32) -> Option<Module> {
    if i == 0 {
        Some(Module::Server)
    } else if i == 1 {
        Some(Module::Database)
    } else if i == 2 {
        Some(Module::Storage)
    } else if i == 3 {
        Some(Module::Asset)
    } else if i == 4 {
        Some(Module::Api)
    } else if i == 5 {
        Some(Module::Ledger)
    } else if i == 6 {
        Some(Module::Logger)
    } else {
        None
    }
}

/// Decodes a level from its wire position.
pub fn level_from_index(i: u32) -> (r: Option<Level>)
    ensures
        r == level_at(i),
{
    if i == 0 {
        Some(Level::Info)
    } else if i == 1 {
        Some(Level::Warning)
    } else if i == 2 {
        Some(Level::Error)
    } else if i == 3 {
        Some(Level::Fatal)
    } else if i == 4 {
        Some(Level::Shutdown)
    } else {
        None
    }
}

/// Decodes a module from its wire position.
pub fn module_from_index(i: u32) -> (r: Option<Module>)
    ensures
        r == module_at(i),
{
    if i == 0 {
        Some(Module::Server)
    } else if i == 1 {
        Some(Module::Database)
    } else if i == 2 {
        Some(Module::Storage)
    } else if i == 3 {
        Some(Module::Asset)
    } else if i == 4 {
        Some(Module::Api)
    } else if i == 5 {
        Some(Module::Ledger)
    } else if i == 6 {
        Some(Module::Logger)
    } else {
        None
    }
}

/// Encodes a level as its wire position.
pub fn level_to_index(l: Level) -> (r: u32)
    ensures
        r == level_index(l),
{
    match l {
        Level::Info => 0,
        Level::Warning => 1,
        Level::Error => 2,
        Level::Fatal => 3,
        Level::Shutdown => 4,
    }
}

/// Encodes a module as its wire position.
pub fn module_to_index(m: Module) -> (r: u32)
    ensures
        r == module_index(m),
{
    match m {
        Module::Server => 0,
        Module::Database => 1,
        Module::Storage => 2,
        Module::Asset => 3,
        Module::Api => 4,
        Module::Ledger => 5,
        Module::Logger => 6,
    }
}

/// Levels and modules travel as their declaration positions, which is what the derived encoder of
/// the server writes: `Info`, `Warning`, `Error`, `Fatal`, `Shutdown` are 0 to 4, in order of
/// increasing severity, and `Server`, `Database`, `Storage`, `Asset`, `Api`, `Ledger`, `Logger` are
/// 0 to 6. Other positions name nothing, and reading a position back gives the variant written.
pub proof fn lemma_wire_positions()
    ensures
        level_index(Level::Info) == 0,
        level_index(Level::Warning) == 1,
        level_index(Level::Error) == 2,
        level_index(Level::Fatal) == 3,
        level_index(Level::Shutdown) == 4,
        module_index(Module::Server) == 0,
        module_index(Module::Database) == 1,
        module_index(Module::Storage) == 2,
        module_index(Module::Asset) == 3,
        module_index(Module::Api) == 4,
        module_index(Module::Ledger) == 5,
        module_index(Module::Logger) == 6,
        forall|l: Level| #[trigger] level_at(level_index(l)) == Some(l),
        forall|m: Module| #[trigger] module_at(module_index(m)) == Some(m),
        forall|i: u32| #[trigger] level_at(i) is Some <==> i < 5,
        forall|i: u32| #[trigger] module_at(i) is Some <==> i < 7,
        forall|i: u32| #[trigger] level_at(i) matches Some(l) ==> level_index(l) == i,
        forall|i: u32| #[trigger] module_at(i) matches Some(m) ==> module_index(m) == i,
{
}

/// The most bytes the entry decoder may claim for one entry: the eight of the message's length
/// prefix plus the message's UTF-8 bytes. A longer declared message is refused before anything
/// is allocated for it.
pub const ENTRY_DECODE_LIMIT: usize = 16_777_216;

/// Whether a message is short enough for the entry decoder's limit.
pub open spec fn message_decodable(message: Seq<char>) -> bool {
    encode_utf8(message).len() + 8 <= ENTRY_DECODE_LIMIT
}

/// What bincode's standard configuration, limited to `ENTRY_DECODE_LIMIT` claimed bytes, decodes
/// from the front of `bytes` when it reads the four fields of an entry in order (module position,
/// level position, timestamp, message): the four values and the number of bytes consumed, or
/// `None` when the bytes do not hold them or the declared message passes the limit.
pub uninterp spec fn bincode_entry_fields(bytes: Seq<u8>) -> Option<(u32, u32, i64, Seq<char>, nat)>;

/// What bincode's standard configuration encodes for the four fields of an entry.
pub uninterp spec fn bincode_entry_bytes(module: u32, level: u32, timestamp_ms: i64, message: Seq<char>) -> Seq<u8>;

/// Calls `bincode_next::decode_from_slice` with the standard configuration limited to
/// `ENTRY_DECODE_LIMIT` bytes on the tuple of the four entry fields, reading `bytes` from position
/// `start`. The limit makes an oversized length prefix an error instead of an allocation. The result
/// is the name `bincode_entry_fields` of the bytes read; the decoder reads at least one byte for
/// each of the four fields and never more than the slice holds.
#[verifier::external_body]
fn decode_entry_fields(bytes: &[u8], start: usize) -> (r: Option<(u32, u32, i64, String, usize)>)
    requires
        start <= bytes@.len(),
    ensures
        r is Some <==> bincode_entry_fields(bytes@.skip(start as int)) is Some,
        r matches Some(t) ==> bincode_entry_fields(bytes@.skip(start as int)) == Some((t.0, t.1, t.2, t.3@, t.4 as nat)),
        r matches Some(t) ==> 4 <= t.4 <= bytes@.len() - start,
{
    match bincode_next::decode_from_slice::<(u32, u32, i64, String), _>(
        &bytes[start..],
        bincode_next::config::standard().with_limit::<ENTRY_DECODE_LIMIT>(),
    ) {
        Ok(((m, l, t, s), n)) => Some((m, l, t, s, n)),
        Err(_) => None,
    }
}

/// Calls `bincode_next::encode_to_vec` with the standard configuration on the tuple of the four
/// entry fields. The bytes are the name `bincode_entry_bytes` of the fields, and decoding them back
/// (followed by any further bytes) yields the same fields and consumes exactly them. Every field is
/// written as a variable-length integer (the message behind its length), and each such integer
/// takes at least one byte. The standard configuration has no size limit and no fingerprint, and
/// it writes into a growing vector whose writes never fail, so the error arm is never taken. The
/// decoder claims eight bytes for the message's length and one per message byte (the integers
/// claim none), so the bytes decode back whenever the message is within the decoder's limit.
#[verifier::external_body]
fn encode_entry_fields(module: u32, level: u32, timestamp_ms: i64, message: &str) -> (r: Vec<u8>)
    ensures
        r@ == bincode_entry_bytes(module, level, timestamp_ms, message@),
        r@.len() >= 4,
        message_decodable(message@) ==> forall|rest: Seq<u8>| #[trigger] bincode_entry_fields(r@ + rest)
            == Some((module, level, timestamp_ms, message@, r@.len())),
{
    bincode_next::encode_to_vec((module, level, timestamp_ms, message), bincode_next::config::standard())
        .unwrap_or_default()
}

/// The abstract value of an entry: module, level, timestamp and message characters.
pub open spec fn entry_view(e: &Entry) -> (Module, Level, i64, Seq<char>) {
    (e.module, e.level, e.timestamp_ms, e.message@)
}

/// The entry that the bytes at the front of `bytes` encode, with the number of bytes it takes.
pub open spec fn spec_decode_entry(bytes: Seq<u8>) -> Option<((Module, Level, i64, Seq<char>), nat)> {
    match bincode_entry_fields(bytes) {
        Some(t) => {
            if module_at(t.0) is Some && level_at(t.1) is Some {
                Some(((module_at(t.0)->0, level_at(t.1)->0, t.2, t.3), t.4))
            } else {
                None
            }
        },
        None => None,
    }
}

/// Decodes one entry from `bytes` at position `start`, returning it with the number of bytes it
/// took. Fails when bincode cannot read the fields or a variant position names no level or module.
pub fn decode_entry(bytes: &[u8], start: usize) -> (r: Option<(Entry, usize)>)
    requires
        start <= bytes@.len(),
    ensures
        r is Some <==> spec_decode_entry(bytes@.skip(start as int)) is Some,
        r matches Some(p) ==> spec_decode_entry(bytes@.skip(start as int)) == Some((entry_view(&p.0), p.1 as nat)),
        r matches Some(p) ==> 4 <= p.1 <= bytes@.len() - start,
{
    match decode_entry_fields(bytes, start) {
        Some((m, l, t, s, n)) => {
            match (module_from_index(m), level_from_index(l)) {
                (Some(module), Some(level)) => Some((Entry { module, level, timestamp_ms: t, message: s }, n)),
                _ => None,
            }
        },
        None => None,
    }
}

/// Encodes an entry in the on-disk wire form: when the message is within the decoder's limit,
/// decoding the bytes (with anything after them) gives the entry back and consumes exactly them.
pub fn encode_entry(e: &Entry) -> (r: Vec<u8>)
    ensures
        r@ == bincode_entry_bytes(module_index(e.module), level_index(e.level), e.timestamp_ms, e.message@),
        r@.len() >= 4,
        message_decodable(e.message@) ==> encodes(r@, entry_view(e)),
{
    let m = module_to_index(e.module);
    let l = level_to_index(e.level);
    let r = encode_entry_fields(m, l, e.timestamp_ms, e.message.as_str());
    proof {
        if message_decodable(e.message@) {
            assert forall|rest: Seq<u8>| #[trigger] spec_decode_entry(r@ + rest) == Some((entry_view(e), r@.len()))
                by {
                assert(bincode_entry_fields(r@ + rest) == Some((m, l, e.timestamp_ms, e.message@, r@.len())));
            }
        }
    }
    r
}

/// The entries that `bytes` holds when it is read as a back-to-back sequence of encoded entries
/// with nothing left over, or `None` when some part of it does not decode.
pub open spec fn decode_stream(bytes: Seq<u8>) -> Option<Seq<(Module, Level, i64, Seq<char>)>>
    decreases bytes.len(),
{
    if bytes.len() == 0 {
        Some(Seq::empty())
    } else {
        match spec_decode_entry(bytes) {
            Some(p) => {
                if 1 <= p.1 <= bytes.len() {
                    match decode_stream(bytes.skip(p.1 as int)) {
                        Some(rest) => Some(seq![p.0] + rest),
                        None => None,
                    }
                } else {
                    None
                }
            },
            None => None,
        }
    }
}

/// The bytes of several encodings laid back to back, first to last.
pub open spec fn concat_all(bs: Seq<Seq<u8>>) -> Seq<u8>
    decreases bs.len(),
{
    if bs.len() == 0 {
        Seq::empty()
    } else {
        bs[0] + concat_all(bs.drop_first())
    }
}

/// Whether `b` is an encoding of the entry `v` as `encode_entry` produces one: at least four
/// bytes, and decoding them, whatever follows, gives `v` back and consumes exactly them.
pub open spec fn encodes(b: Seq<u8>, v: (Module, Level, i64, Seq<char>)) -> bool {
    &&& b.len() >= 4
    &&& forall|rest: Seq<u8>| #[trigger] spec_decode_entry(b + rest) == Some((v, b.len()))
}

/// A log file written as the encodings of entries one after another reads back as exactly those
/// entries, in the same order.
pub proof fn lemma_stream_of_encodings(es: Seq<(Module, Level, i64, Seq<char>)>, bs: Seq<Seq<u8>>)
    requires
        es.len() == bs.len(),
        forall|i: int| 0 <= i < bs.len() ==> encodes(#[trigger] bs[i], es[i]),
    ensures
        decode_stream(concat_all(bs)) == Some(es),
    decreases bs.len(),
{
    if bs.len() == 0 {
        assert(es =~= Seq::<(Module, Level, i64, Seq<char>)>::empty());
    } else {
        let tail = concat_all(bs.drop_first());
        assert forall|i: int| 0 <= i < bs.drop_first().len() implies encodes(
            #[trigger] bs.drop_first()[i], es.drop_first()[i]) by {
            assert(encodes(bs[i + 1], es[i + 1]));
        }
        lemma_stream_of_encodings(es.drop_first(), bs.drop_first());
        assert(encodes(bs[0], es[0]));
        let whole = bs[0] + tail;
        assert(spec_decode_entry(bs[0] + tail) == Some((es[0], bs[0].len())));
        assert(whole.skip(bs[0].len() as int) =~= tail);
        assert(seq![es[0]] + es.drop_first() =~= es);
    }
}

/// The proleptic Gregorian date (year, month, day) of day `z`, counted from 1970-01-01 as day 0:
/// the count is split into 400-year eras of 146097 days, the year within the era is found from
/// the day within it, and the year is taken to start on March 1 so that leap days come last.
pub open spec fn civil_from_days(z0: int) -> (int, int, int) {
    let z = z0 + 719468;
    let era = z / 146097;
    let doe = z - era * 146097;
    let yoe = (doe - doe / 1460 + doe / 36524 - doe / 146096) / 365;
    let doy = doe - (365 * yoe + yoe / 4 - yoe / 100);
    let mp = (5 * doy + 2) / 153;
    let d = doy - (153 * mp + 2) / 5 + 1;
    let m = if mp < 10 {
        mp + 3
    } else {
        mp - 9
    };
    (yoe + era * 400 + if m <= 2 {
        1int
    } else {
        0int
    }, m, d)
}

/// The UTC calendar date of a millisecond timestamp: the date of the day the timestamp falls in
/// (rounding toward the past), or `None` when its year lies outside chrono's range of dates,
/// -262143 to 262142.
pub open spec fn utc_date(ms: i64) -> Option<(i32, u32, u32)> {
    let c = civil_from_days(ms as int / 86_400_000);
    if -262143 <= c.0 <= 262142 {
        Some((c.0 as i32, c.1 as u32, c.2 as u32))
    } else {
        None
    }
}

/// Calls `chrono::DateTime::from_timestamp_millis` and reads the year, month and day of the result
/// (`Datelike::year`, `month`, `day`). Chrono takes the day as the timestamp divided by a day's
/// milliseconds rounding toward the past, counts it in the proleptic Gregorian calendar, and gives
/// `None` exactly when the year falls outside `NaiveDate::MIN..=NaiveDate::MAX` (whole years
/// -262143 to 262142); months are `1..=12` and days `1..=31`.
#[verifier::external_body]
fn utc_date_of_millis(ms: i64) -> (r: Option<(i32, u32, u32)>)
    ensures
        r == utc_date(ms),
        r matches Some(t) ==> 1 <= t.1 <= 12 && 1 <= t.2 <= 31,
{
    chrono::DateTime::from_timestamp_millis(ms).map(|t| (t.year(), t.month(), t.day()))
}

/// A date, or the Unix epoch date when there is none.
pub open spec fn date_or_epoch(d: Option<(i32, u32, u32)>) -> (i32, u32, u32) {
    match d {
        Some(t) => t,
        None => (1970, 1, 1),
    }
}

/// The file name of the daily log for a date: `log_Y-M-D.bin`, numbers in plain decimal.
pub open spec fn log_file_name(date: (i32, u32, u32)) -> Seq<char> {
    "log_"@ + signed_decimal(date.0 as int) + seq!['-'] + decimal(date.1 as nat) + seq!['-']
        + decimal(date.2 as nat) + ".bin"@
}

/// The file name of the daily log that holds entries stamped `time_stamp_millis`.
/// A timestamp that chrono cannot represent falls back to the Unix epoch date.
pub fn format_date_time(time_stamp_millis: i64) -> (r: String)
    ensures
        r@ == log_file_name(date_or_epoch(utc_date(time_stamp_millis))),
{
    let date = match utc_date_of_millis(time_stamp_millis) {
        Some(t) => t,
        None => (1970i32, 1u32, 1u32),
    };
    let mut r = String::new();
    push_str(&mut r, "log_");
    push_signed_decimal(&mut r, date.0 as i64);
    r.push('-');
    push_decimal(&mut r, date.1 as u64);
    r.push('-');
    push_decimal(&mut r, date.2 as u64);
    push_str(&mut r, ".bin");
    r
}

/// The number of milliseconds in one calendar day.
pub const DAY_MILLIS: i64 = 86_400_000;

/// The day number of a timestamp: the timestamp divided by a day's milliseconds, rounded toward zero.
pub open spec fn day_of(ts: i64) -> int {
    if ts >= 0 {
        ts as int / DAY_MILLIS as int
    } else {
        -((-(ts as int)) / DAY_MILLIS as int)
    }
}

/// Computes `day_of` for a timestamp.
pub fn day_index(ts: i64) -> (d: i64)
    ensures
        d == day_of(ts),
{
    if ts >= 0 {
        let u: u64 = ts as u64;
        (u / 86_400_000u64) as i64
    } else {
        let u: u64 = ((-(ts + 1)) as u64) + 1;
        let q: u64 = u / 86_400_000u64;
        assert(q <= u);
        let pos: i64 = q as i64;
        -pos
    }
}


/// The day the logging service's open log file belongs to.
#[derive(Debug)]
pub struct DailyLog {
    /// The day number (see `day_of`) of the open log file.
    pub today: i64,
}

/// What the logging service does with one entry: open another daily file first when the entry
/// belongs to another day, write the encoded bytes, and stop after a shutdown entry.
#[derive(Debug)]
pub struct CommitPlan {
    /// The daily file to open (and switch to) before writing, with its day number.
    pub new_file: Option<(String, i64)>,
    /// The encoded entry to write.
    pub disk_bytes: Vec<u8>,
    /// Whether the service stops after this entry.
    pub stop: bool,
}

impl DailyLog {
    /// The state of a service started at `now_ms`, with the name of the file to open.
    pub fn start(now_ms: i64) -> (r: (DailyLog, String))
        ensures
            r.0.today == day_of(now_ms),
            r.1@ == log_file_name(date_or_epoch(utc_date(now_ms))),
    {
        (DailyLog { today: day_index(now_ms) }, format_date_time(now_ms))
    }

    /// What to do with an entry: rotate to the entry's daily file when its day differs from the
    /// open file's, encode it, and stop after it when it is the shutdown sentinel.
    pub fn plan(&self, entry: &Entry) -> (p: CommitPlan)
        ensures
            day_of(entry.timestamp_ms) == self.today ==> p.new_file is None,
            day_of(entry.timestamp_ms) != self.today ==> (match p.new_file {
                Some(f) => f.0@ == log_file_name(date_or_epoch(utc_date(entry.timestamp_ms))) && f.1
                    == day_of(entry.timestamp_ms),
                None => false,
            }),
            p.disk_bytes@ == bincode_entry_bytes(module_index(entry.module), level_index(
                entry.level), entry.timestamp_ms, entry.message@),
            message_decodable(entry.message@) ==> encodes(p.disk_bytes@, entry_view(entry)),
            p.stop == (entry.level == Level::Shutdown),
    {
        let day = day_index(entry.timestamp_ms);
        let new_file = if day != self.today {
            Some((format_date_time(entry.timestamp_ms), day))
        } else {
            None
        };
        let stop = match entry.level {
            Level::Shutdown => true,
            _ => false,
        };
        CommitPlan { new_file, disk_bytes: encode_entry(entry), stop }
    }

    /// Records that the daily file of day `day` is now the open one.
    pub fn rotated(&mut self, day: i64)
        ensures
            final(self).today == day,
    {
        self.today = day;
    }
}

} // verus!
