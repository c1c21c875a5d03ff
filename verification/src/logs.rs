//! The log buffer: a bounded in-memory ring of log lines, its queries, and
//! the retention rule that says which daily log files have expired. Writing
//! lines to files and deleting files is the caller's business.

use vstd::prelude::*;

use chrono::Datelike;

use crate::clock::{new_uuid, now_rfc3339, uuid_shaped};
use crate::constants::LOG_MEMORY_LIMIT;
use crate::net::{parse_i64, parsed_i64};
use crate::paging::{count_i64, page, sort_desc, sorted_desc, str_less, take_page, SortKey};
use crate::text::{ascii_lower_seq, chars_of, contains, contains_sub, last_index, last_index_of, lemma_last_index_of, lower_ascii, str_eq, string_from_range};
use crate::types::{level_name, level_rank, LogEntry, LogFilter, LogLevel};

verus! {

// ======================== outside computations ========================

/// Name for the text `str::to_lowercase` makes of `s` (full Unicode lower-casing).
pub uninterp spec fn lowercase(s: Seq<char>) -> Seq<char>;

/// `str::to_lowercase`; its result is named [`lowercase`].
#[verifier::external_body]
fn to_lower(s: &str) -> (r: String)
    ensures
        r@ == lowercase(s@),
{
    s.to_lowercase()
}

/// Name for the date, as (year, month, day), that
/// `chrono::NaiveDate::parse_from_str(s, fmt)` reads from `s`, or `None` when
/// it rejects `s`.
pub uninterp spec fn parsed_date(s: Seq<char>, fmt: Seq<char>) -> Option<(i32, u32, u32)>;

/// `chrono::NaiveDate::parse_from_str`, the date taken apart into year,
/// month and day; its result is named [`parsed_date`].
#[verifier::external_body]
fn parse_date(s: &str, fmt: &str) -> (r: Option<(i32, u32, u32)>)
    ensures
        r == parsed_date(s@, fmt@),
{
    match chrono::NaiveDate::parse_from_str(s, fmt) {
        Ok(d) => Some((d.year(), d.month(), d.day())),
        Err(_) => None,
    }
}

/// Largest number of days `chrono::Duration::days` accepts (it panics beyond:
/// the duration must stay within `i64::MAX` milliseconds).
pub const MAX_DELTA_DAYS: i64 = 106_751_991_167;

/// Name for the date `days` days before (year, month, day) as
/// `chrono::NaiveDate::checked_sub_signed` computes it; `None` when the date
/// is not a calendar date or the result is out of range.
pub uninterp spec fn date_minus_days(y: i32, m: u32, d: u32, days: i64) -> Option<(i32, u32, u32)>;

/// `NaiveDate::from_ymd_opt(..)` then `checked_sub_signed(Duration::days(days))`,
/// taken apart again; its result is named [`date_minus_days`].
#[verifier::external_body]
fn sub_days(date: (i32, u32, u32), days: i64) -> (r: Option<(i32, u32, u32)>)
    requires
        -MAX_DELTA_DAYS <= days <= MAX_DELTA_DAYS,
    ensures
        r == date_minus_days(date.0, date.1, date.2, days),
{
    match chrono::NaiveDate::from_ymd_opt(date.0, date.1, date.2) {
        Some(t) => match t.checked_sub_signed(chrono::Duration::days(days)) {
            Some(c) => Some((c.year(), c.month(), c.day())),
            None => None,
        },
        None => None,
    }
}

// ======================== levels ========================

/// Rank of a level (`Debug` 0 up to `Error` 3).
pub fn rank(l: LogLevel) -> (r: u8)
    ensures
        r == level_rank(l),
{
    match l {
        LogLevel::Debug => 0,
        LogLevel::Info => 1,
        LogLevel::Warn => 2,
        LogLevel::Error => 3,
    }
}

/// Numeric value of a level name for storage queries: the position of
/// `level` in `DEBUG, INFO, WARN, ERROR`, or 0 for any other text.
pub open spec fn level_num_spec(level: Seq<char>) -> int {
    if level == level_name(LogLevel::Debug) {
        0
    } else if level == level_name(LogLevel::Info) {
        1
    } else if level == level_name(LogLevel::Warn) {
        2
    } else if level == level_name(LogLevel::Error) {
        3
    } else {
        0
    }
}

/// Numeric value of a level name (see [`level_num_spec`]).
pub fn level_num(level: &str) -> (r: i64)
    ensures
        r == level_num_spec(level@),
{
    if str_eq(level, LogLevel::Debug.as_str()) {
        0
    } else if str_eq(level, LogLevel::Info.as_str()) {
        1
    } else if str_eq(level, LogLevel::Warn.as_str()) {
        2
    } else if str_eq(level, LogLevel::Error.as_str()) {
        3
    } else {
        0
    }
}

// ======================== filtering ========================

/// A log line passes a filter: the service matches, the level is at least the
/// minimum, and the keyword occurs, ignoring case, in the message or the
/// service id.
pub open spec fn passes(e: LogEntry, f: LogFilter) -> bool {
    &&& match f.server_id {
        Some(sid) => e.server_id matches Some(s) && s@ == sid@,
        None => true,
    }
    &&& match f.level {
        Some(l) => level_rank(e.level) >= level_rank(l),
        None => true,
    }
    &&& match f.keyword {
        Some(k) => contains_sub(lowercase(e.message@), lowercase(k@)) || (e.server_id matches Some(s)
            && contains_sub(lowercase(s@), lowercase(k@))),
        None => true,
    }
}

/// The lines of `s` that pass `f`, in order.
pub open spec fn filter_log(s: Seq<LogEntry>, f: LogFilter) -> Seq<LogEntry>
    decreases s.len(),
{
    if s.len() == 0 {
        s
    } else {
        let r = filter_log(s.drop_last(), f);
        if passes(s.last(), f) {
            r.push(s.last())
        } else {
            r
        }
    }
}

/// The buffer after appending `e`: the newest `cap` lines are kept.
pub open spec fn ring_push(s: Seq<LogEntry>, e: LogEntry, cap: int) -> Seq<LogEntry> {
    let t = s.push(e);
    if t.len() > cap {
        t.subrange(t.len() - cap, t.len() as int)
    } else {
        t
    }
}

/// The last `n` lines of `s` (all of them when there are fewer).
pub open spec fn last_n(s: Seq<LogEntry>, n: int) -> Seq<LogEntry> {
    if s.len() <= n {
        s
    } else {
        s.subrange(s.len() - n, s.len() as int)
    }
}

fn entry_passes(e: &LogEntry, f: &LogFilter, kw_lower: &Option<String>) -> (r: bool)
    requires
        match f.keyword {
            Some(k) => kw_lower matches Some(l) && l@ == lowercase(k@),
            None => kw_lower is None,
        },
    ensures
        r == passes(*e, *f),
{
    let server_ok = match &f.server_id {
        Some(sid) => match &e.server_id {
            Some(s) => str_eq(s.as_str(), sid.as_str()),
            None => false,
        },
        None => true,
    };
    let level_ok = match f.level {
        Some(l) => rank(e.level) >= rank(l),
        None => true,
    };
    let kw_ok = match kw_lower {
        Some(k) => {
            let m = to_lower(e.message.as_str());
            if contains(m.as_str(), k.as_str()) {
                true
            } else {
                match &e.server_id {
                    Some(s) => {
                        let sl = to_lower(s.as_str());
                        contains(sl.as_str(), k.as_str())
                    },
                    None => false,
                }
            }
        },
        None => true,
    };
    server_ok && level_ok && kw_ok
}

// ======================== retention ========================

/// The format of daily log file names (without extension).
pub open spec fn ymd_format() -> Seq<char> {
    seq!['%', 'Y', '-', '%', 'm', '-', '%', 'd']
}

/// The extension of daily log files.
pub open spec fn log_ext() -> Seq<char> {
    seq!['l', 'o', 'g']
}

/// Stem and extension of a file name, as `Path::file_stem` and
/// `Path::extension` split it: at the last `.`, unless the name has none or
/// begins with its only `.`.
pub open spec fn stem_ext(name: Seq<char>) -> (Seq<char>, Option<Seq<char>>) {
    match last_index_of(name, '.') {
        Some(p) => if p == 0 {
            (name, None)
        } else {
            (name.subrange(0, p), Some(name.subrange(p + 1, name.len() as int)))
        },
        None => (name, None),
    }
}

/// Calendar order of (year, month, day) dates.
pub open spec fn date_before(a: (i32, u32, u32), b: (i32, u32, u32)) -> bool {
    a.0 < b.0 || (a.0 == b.0 && (a.1 < b.1 || (a.1 == b.1 && a.2 < b.2)))
}

/// A file name denotes an expired daily log: `YYYY-MM-DD.log` with a date
/// before `cutoff`.
pub open spec fn expired_log(name: Seq<char>, cutoff: (i32, u32, u32)) -> bool {
    &&& stem_ext(name).1 == Some(log_ext())
    &&& match parsed_date(stem_ext(name).0, ymd_format()) {
        Some(d) => date_before(d, cutoff),
        None => false,
    }
}

/// The expired daily logs among `names`, in order.
pub open spec fn expired_names(names: Seq<String>, cutoff: (i32, u32, u32)) -> Seq<String>
    decreases names.len(),
{
    if names.len() == 0 {
        names
    } else {
        let r = expired_names(names.drop_last(), cutoff);
        if expired_log(names.last()@, cutoff) {
            r.push(names.last())
        } else {
            r
        }
    }
}

/// The day count handed to the date arithmetic: `retention_days as i64`.
pub open spec fn days_arg(retention_days: u64) -> int {
    if retention_days <= i64::MAX {
        retention_days as int
    } else {
        retention_days - 0x1_0000_0000_0000_0000
    }
}

fn days_as_i64(retention_days: u64) -> (r: i64)
    ensures
        r == days_arg(retention_days),
{
    if retention_days <= 0x7fff_ffff_ffff_ffff {
        retention_days as i64
    } else {
        let below: u64 = 0xffff_ffff_ffff_ffff - retention_days;
        -(below as i64) - 1
    }
}

/// Stem and extension of a file name (see [`stem_ext`]).
pub fn split_file_name(name: &str) -> (r: (String, Option<String>))
    ensures
        r.0@ == stem_ext(name@).0,
        match r.1 {
            Some(x) => stem_ext(name@).1 == Some(x@),
            None => stem_ext(name@).1 is None,
        },
{
    let v = chars_of(name);
    proof {
        lemma_last_index_of(name@, '.');
    }
    match last_index(&v, '.') {
        Some(p) => {
            if p == 0 {
                (string_from_range(&v, 0, v.len()), None)
            } else {
                (string_from_range(&v, 0, p), Some(string_from_range(&v, p + 1, v.len())))
            }
        },
        None => {
            let s = string_from_range(&v, 0, v.len());
            assert(v@.subrange(0, v@.len() as int) =~= v@);
            (s, None)
        },
    }
}

fn is_expired_log(name: &str, cutoff: (i32, u32, u32)) -> (r: bool)
    ensures
        r == expired_log(name@, cutoff),
{
    let (stem, ext) = split_file_name(name);
    proof {
        reveal_strlit("log");
        reveal_strlit("%Y-%m-%d");
        assert("log"@ =~= log_ext());
        assert("%Y-%m-%d"@ =~= ymd_format());
    }
    let ext_ok = match &ext {
        Some(x) => str_eq(x.as_str(), "log"),
        None => false,
    };
    if !ext_ok {
        return false;
    }
    match parse_date(stem.as_str(), "%Y-%m-%d") {
        Some(d) => d.0 < cutoff.0 || (d.0 == cutoff.0 && (d.1 < cutoff.1 || (d.1 == cutoff.1 && d.2 < cutoff.2))),
        None => false,
    }
}


// ======================== stored lines ========================

impl SortKey for LogEntry {
    open spec fn primary(&self) -> Seq<char> {
        self.timestamp@
    }

    open spec fn secondary(&self) -> Seq<char> {
        self.id@
    }

    fn key_less(&self, other: &Self) -> (r: bool) {
        str_less(self.timestamp.as_str(), other.timestamp.as_str()) || (str_eq(
            self.timestamp.as_str(),
            other.timestamp.as_str(),
        ) && str_less(self.id.as_str(), other.id.as_str()))
    }
}

/// A stored line passes a filter as the storage query decides it: the
/// service matches, the level is at least the minimum, and the keyword,
/// lower-cased, occurs in the ASCII-lower-cased message or service id (an
/// absent service id counting as empty).
pub open spec fn stored_passes(e: LogEntry, f: LogFilter) -> bool {
    &&& match f.server_id {
        Some(sid) => e.server_id matches Some(s) && s@ == sid@,
        None => true,
    }
    &&& match f.level {
        Some(l) => level_rank(e.level) >= level_rank(l),
        None => true,
    }
    &&& match f.keyword {
        Some(k) => contains_sub(ascii_lower_seq(e.message@), lowercase(k@)) || contains_sub(
            ascii_lower_seq(
                match e.server_id {
                    Some(s) => s@,
                    None => Seq::empty(),
                },
            ),
            lowercase(k@),
        ),
        None => true,
    }
}

/// The page a request for stored lines asks for: the `limit` parameter
/// (100 when missing or not a number) kept within `1..=1000`, and the
/// `offset` parameter (0 when missing or not a number) at least 0.
pub open spec fn window_spec(limit: Option<Seq<char>>, offset: Option<Seq<char>>) -> (int, int) {
    let l = match limit {
        Some(t) => match parsed_i64(t) {
            Some(n) => n,
            None => 100,
        },
        None => 100,
    };
    let o = match offset {
        Some(t) => match parsed_i64(t) {
            Some(n) => n,
            None => 0,
        },
        None => 0,
    };
    (if l < 1 { 1 } else if l > 1000 { 1000 } else { l }, if o < 0 { 0 } else { o })
}

/// The page of a request for stored lines (see [`window_spec`]).
pub fn persisted_window(limit: Option<&str>, offset: Option<&str>) -> (r: (i64, i64))
    ensures
        (r.0 as int, r.1 as int) == window_spec(
            match limit {
                Some(t) => Some(t@),
                None => None,
            },
            match offset {
                Some(t) => Some(t@),
                None => None,
            },
        ),
{
    let l: i64 = match limit {
        Some(t) => match parse_i64(t) {
            Some(n) => n,
            None => 100,
        },
        None => 100,
    };
    let o: i64 = match offset {
        Some(t) => match parse_i64(t) {
            Some(n) => n,
            None => 0,
        },
        None => 0,
    };
    let l = if l < 1 { 1 } else if l > 1000 { 1000 } else { l };
    let o = if o < 0 { 0 } else { o };
    (l, o)
}

/// The stored lines that pass a filter, in storage order.
pub open spec fn stored_filter(s: Seq<LogEntry>, f: LogFilter) -> Seq<LogEntry>
    decreases s.len(),
{
    if s.len() == 0 {
        s
    } else {
        let r = stored_filter(s.drop_last(), f);
        if stored_passes(s.last(), f) {
            r.push(s.last())
        } else {
            r
        }
    }
}

fn stored_entry_passes(e: &LogEntry, f: &LogFilter, kw_lower: &Option<String>) -> (r: bool)
    requires
        match f.keyword {
            Some(k) => kw_lower matches Some(l) && l@ == lowercase(k@),
            None => kw_lower is None,
        },
    ensures
        r == stored_passes(*e, *f),
{
    let server_ok = match &f.server_id {
        Some(sid) => match &e.server_id {
            Some(s) => str_eq(s.as_str(), sid.as_str()),
            None => false,
        },
        None => true,
    };
    let level_ok = match f.level {
        Some(l) => rank(e.level) >= rank(l),
        None => true,
    };
    let kw_ok = match kw_lower {
        Some(k) => {
            let m = lower_ascii(e.message.as_str());
            let s = match &e.server_id {
                Some(s) => lower_ascii(s.as_str()),
                None => {
                    assert(ascii_lower_seq(Seq::<char>::empty()) =~= Seq::<char>::empty());
                    String::new()
                },
            };
            contains(m.as_str(), k.as_str()) || contains(s.as_str(), k.as_str())
        },
        None => true,
    };
    server_ok && level_ok && kw_ok
}

// ======================== the buffer ========================

/// The in-memory log buffer.
pub struct LogManager {
    entries: Vec<LogEntry>,
    max_memory: usize,
    log_dir: String,
}

impl View for LogManager {
    type V = Seq<LogEntry>;

    /// The buffered lines, oldest first.
    closed spec fn view(&self) -> Seq<LogEntry> {
        self.entries@
    }
}

impl LogManager {
    /// Well-formed: the capacity is [`LOG_MEMORY_LIMIT`] and is respected.
    pub closed spec fn wf(&self) -> bool {
        &&& self.max_memory == LOG_MEMORY_LIMIT
        &&& self.entries@.len() <= LOG_MEMORY_LIMIT
    }

    /// The directory of the daily log files.
    pub closed spec fn dir(&self) -> Seq<char> {
        self.log_dir@
    }

    /// An empty buffer whose files go to `log_dir`.
    pub fn new(log_dir: String) -> (r: Self)
        ensures
            r.wf(),
            r@ == Seq::<LogEntry>::empty(),
            r.dir() == log_dir@,
    {
        LogManager { entries: Vec::new(), max_memory: LOG_MEMORY_LIMIT, log_dir }
    }

    /// The directory of the daily log files.
    pub fn log_dir(&self) -> (r: &String)
        ensures
            r@ == self.dir(),
    {
        &self.log_dir
    }

    /// Buffers a line, filling in a missing id and a missing timestamp, and
    /// returns it as stored (for the caller to write out and publish). The
    /// oldest lines beyond the capacity are dropped.
    pub fn add_entry(&mut self, entry: LogEntry) -> (r: LogEntry)
        requires
            old(self).wf(),
        ensures
            final(self).wf(),
            final(self).dir() == old(self).dir(),
            r == (LogEntry { id: r.id, timestamp: r.timestamp, ..entry }),
            if entry.id@.len() == 0 { uuid_shaped(r.id@) } else { r.id == entry.id },
            if entry.timestamp@.len() == 0 { r.timestamp@.len() > 0 } else { r.timestamp == entry.timestamp },
            final(self)@ == ring_push(old(self)@, r, LOG_MEMORY_LIMIT as int),
    {
        let mut entry = entry;
        if entry.id.as_str().is_empty() {
            entry.id = new_uuid();
        }
        if entry.timestamp.as_str().is_empty() {
            entry.timestamp = now_rfc3339();
        }
        self.entries.push(entry.clone());
        if self.entries.len() > self.max_memory {
            let ghost t = self.entries@;
            self.entries.remove(0);
            assert(self.entries@ =~= t.subrange(t.len() - LOG_MEMORY_LIMIT, t.len() as int));
        }
        entry
    }

    /// The buffered lines that pass `filter`, oldest first.
    pub fn get_entries(&self, filter: &LogFilter) -> (r: Vec<LogEntry>)
        ensures
            r@ == filter_log(self@, *filter),
    {
        let kw_lower = match &filter.keyword {
            Some(k) => Some(to_lower(k.as_str())),
            None => None,
        };
        let mut out: Vec<LogEntry> = Vec::new();
        let mut i: usize = 0;
        while i < self.entries.len()
            invariant
                i <= self.entries@.len(),
                match filter.keyword {
                    Some(k) => kw_lower matches Some(l) && l@ == lowercase(k@),
                    None => kw_lower is None,
                },
                out@ == filter_log(self.entries@.take(i as int), *filter),
            decreases self.entries.len() - i,
        {
            let e = &self.entries[i];
            proof {
                assert(self.entries@.take(i + 1).drop_last() =~= self.entries@.take(i as int));
                assert(self.entries@.take(i + 1).last() == self.entries@[i as int]);
            }
            if entry_passes(e, filter, &kw_lower) {
                out.push(e.clone());
            }
            i += 1;
        }
        proof {
            assert(self.entries@.take(self.entries@.len() as int) =~= self.entries@);
        }
        out
    }

    /// The newest `n` lines (all of them when there are fewer), oldest first.
    pub fn get_entries_last(&self, n: usize) -> (r: Vec<LogEntry>)
        ensures
            r@ == last_n(self@, n as int),
    {
        let len = self.entries.len();
        let from = if len <= n { 0 } else { len - n };
        let mut out: Vec<LogEntry> = Vec::new();
        let mut i = from;
        while i < len
            invariant
                from <= i <= len,
                len == self.entries@.len(),
                out@ == self.entries@.subrange(from as int, i as int),
            decreases len - i,
        {
            out.push(self.entries[i].clone());
            proof {
                assert(self.entries@.subrange(from as int, i + 1) =~= self.entries@.subrange(
                    from as int,
                    i as int,
                ).push(self.entries@[i as int]));
            }
            i += 1;
        }
        proof {
            assert(self.entries@.subrange(0, len as int) =~= self.entries@);
        }
        out
    }

    /// The history query over the stored lines (every line ever logged, in
    /// storage order): how many pass `filter`, and the page `limit` /
    /// `offset` selects of them newest first (by timestamp, then id).
    pub fn query_persisted(stored: &Vec<LogEntry>, filter: &LogFilter, limit: i64, offset: i64) -> (r: (
        i64,
        Vec<LogEntry>,
    ))
        ensures
            r.0 == (if stored_filter(stored@, *filter).len() <= i64::MAX {
                stored_filter(stored@, *filter).len() as int
            } else {
                i64::MAX as int
            }),
            exists|s: Seq<LogEntry>| {
                &&& sorted_desc(s)
                &&& s.to_multiset() == stored_filter(stored@, *filter).to_multiset()
                &&& r.1@ == page(s, limit, offset)
            },
    {
        let kw_lower = match &filter.keyword {
            Some(k) => Some(to_lower(k.as_str())),
            None => None,
        };
        let mut matching: Vec<LogEntry> = Vec::new();
        let mut i: usize = 0;
        while i < stored.len()
            invariant
                i <= stored@.len(),
                match filter.keyword {
                    Some(k) => kw_lower matches Some(l) && l@ == lowercase(k@),
                    None => kw_lower is None,
                },
                matching@ == stored_filter(stored@.take(i as int), *filter),
            decreases stored.len() - i,
        {
            proof {
                assert(stored@.take(i + 1).drop_last() =~= stored@.take(i as int));
                assert(stored@.take(i + 1).last() == stored@[i as int]);
            }
            if stored_entry_passes(&stored[i], filter, &kw_lower) {
                matching.push(stored[i].clone());
            }
            i += 1;
        }
        proof {
            assert(stored@.take(stored@.len() as int) =~= stored@);
        }
        let total = count_i64(matching.len());
        let sorted = sort_desc(matching);
        (total, take_page(sorted, limit, offset))
    }

    /// Empties the buffer (the log files are kept).
    pub fn clear_entries(&mut self)
        requires
            old(self).wf(),
        ensures
            final(self).wf(),
            final(self).dir() == old(self).dir(),
            final(self)@ == Seq::<LogEntry>::empty(),
    {
        self.entries.clear();
    }

    /// The retention rule: which of `file_names` (the names in the log
    /// directory) are daily logs older than `retention_days` days before
    /// `today` (year, month, day) and are to be deleted. None when the cutoff
    /// date cannot be computed.
    pub fn cleanup_old(&self, retention_days: u64, today: (i32, u32, u32), file_names: &Vec<String>) -> (r: Vec<String>)
        requires
            -MAX_DELTA_DAYS <= days_arg(retention_days) <= MAX_DELTA_DAYS,
        ensures
            match date_minus_days(today.0, today.1, today.2, days_arg(retention_days) as i64) {
                Some(cutoff) => r@ == expired_names(file_names@, cutoff),
                None => r@.len() == 0,
            },
    {
        let days = days_as_i64(retention_days);
        let cutoff = match sub_days(today, days) {
            Some(c) => c,
            None => return Vec::new(),
        };
        let mut out: Vec<String> = Vec::new();
        let mut i: usize = 0;
        while i < file_names.len()
            invariant
                i <= file_names@.len(),
                out@ == expired_names(file_names@.take(i as int), cutoff),
            decreases file_names.len() - i,
        {
            proof {
                assert(file_names@.take(i + 1).drop_last() =~= file_names@.take(i as int));
                assert(file_names@.take(i + 1).last() == file_names@[i as int]);
            }
            if is_expired_log(file_names[i].as_str(), cutoff) {
                out.push(file_names[i].clone());
            }
            i += 1;
        }
        proof {
            assert(file_names@.take(file_names@.len() as int) =~= file_names@);
        }
        out
    }
}

// ======================== laws ========================

/// The buffer never holds more than its capacity, always ends with the line
/// just added, and drops nothing while there is room.
pub proof fn law_ring_bounded(s: Seq<LogEntry>, e: LogEntry, cap: int)
    requires
        0 < cap,
        s.len() <= cap,
    ensures
        ring_push(s, e, cap).len() <= cap,
        ring_push(s, e, cap).last() == e,
        s.len() < cap ==> ring_push(s, e, cap) == s.push(e),
        s.len() == cap ==> ring_push(s, e, cap) == s.drop_first().push(e),
{
    if s.len() == cap {
        assert(s.push(e).subrange(1, cap + 1) =~= s.drop_first().push(e));
    }
}

/// An empty filter lets every line through.
pub proof fn law_empty_filter_keeps_all(s: Seq<LogEntry>, f: LogFilter)
    requires
        f.server_id is None,
        f.level is None,
        f.keyword is None,
    ensures
        filter_log(s, f) == s,
    decreases s.len(),
{
    if s.len() > 0 {
        law_empty_filter_keeps_all(s.drop_last(), f);
        assert(s.drop_last().push(s.last()) =~= s);
    }
}

/// Every line a filter keeps passes it, and a filter never adds lines.
pub proof fn law_filtered_lines_pass(s: Seq<LogEntry>, f: LogFilter)
    ensures
        forall|i: int| 0 <= i < filter_log(s, f).len() ==> passes(#[trigger] filter_log(s, f)[i], f),
        filter_log(s, f).len() <= s.len(),
    decreases s.len(),
{
    if s.len() > 0 {
        law_filtered_lines_pass(s.drop_last(), f);
    }
}

/// Whether a line at level `e` is at least as severe as `l`, in the order
/// `Debug < Info < Warn < Error`, written out case by case.
pub open spec fn at_least(e: LogLevel, l: LogLevel) -> bool {
    ||| l == LogLevel::Debug
    ||| e == l
    ||| e == LogLevel::Error
    ||| (l == LogLevel::Info && e == LogLevel::Warn)
}

/// A filter on the level alone.
pub open spec fn level_only(l: LogLevel) -> LogFilter {
    LogFilter { server_id: None, level: Some(l), keyword: None }
}

/// The level of a filter is a minimum that includes itself: a line passes a
/// filter on level `l` alone, in memory and in storage, exactly when its
/// level is `l` or more severe; so a line always passes a filter on its own
/// level, and an `Error` line passes every level filter.
pub proof fn law_level_is_an_inclusive_minimum(e: LogEntry, l: LogLevel)
    ensures
        passes(e, level_only(l)) <==> at_least(e.level, l),
        stored_passes(e, level_only(l)) <==> at_least(e.level, l),
        passes(e, level_only(e.level)),
        stored_passes(e, level_only(e.level)),
        e.level == LogLevel::Error ==> passes(e, level_only(l)),
{
}

/// Cleanup deletes exactly the expired daily logs: every name it picks is
/// one of the directory's names and an expired log, and every expired log
/// of the directory is picked.
pub proof fn law_cleanup_exactly_expired(names: Seq<String>, cutoff: (i32, u32, u32))
    ensures
        forall|k: int| 0 <= k < expired_names(names, cutoff).len() ==> names.contains(#[trigger] expired_names(names, cutoff)[k])
            && expired_log(expired_names(names, cutoff)[k]@, cutoff),
        forall|i: int| 0 <= i < names.len() && #[trigger] expired_log(names[i]@, cutoff) ==> expired_names(names, cutoff).contains(
            names[i],
        ),
    decreases names.len(),
{
    if names.len() > 0 {
        let init = names.drop_last();
        law_cleanup_exactly_expired(init, cutoff);
        let r0 = expired_names(init, cutoff);
        let r = expired_names(names, cutoff);
        assert forall|k: int| 0 <= k < r.len() implies names.contains(#[trigger] r[k]) && expired_log(r[k]@, cutoff) by {
            if k < r0.len() {
                assert(r[k] == r0[k]);
                let j = choose|j: int| 0 <= j < init.len() && init[j] == r0[k];
                assert(names[j] == init[j]);
            } else {
                assert(r[k] == names.last());
                assert(names[names.len() - 1] == names.last());
            }
        }
        assert forall|i: int| 0 <= i < names.len() && #[trigger] expired_log(names[i]@, cutoff) implies r.contains(names[i]) by {
            if i < names.len() - 1 {
                assert(names[i] == init[i]);
                assert(r0.contains(init[i]));
                let k = choose|k: int| 0 <= k < r0.len() && r0[k] == init[i];
                assert(r[k] == r0[k]);
            } else {
                assert(names[i] == names.last());
                assert(r[r.len() - 1] == names.last());
            }
        }
    }
}

/// A line appended to the store can be read back: a query whose filter the
/// line passes, starting at the first line and not limited below the number
/// of matches, lists it.
pub proof fn law_stored_line_is_found(before: Seq<LogEntry>, e: LogEntry, f: LogFilter, limit: i64, offset: i64, s: Seq<LogEntry>)
    requires
        stored_passes(e, f),
        offset <= 0,
        limit < 0 || limit >= stored_filter(before.push(e), f).len(),
        s.to_multiset() == stored_filter(before.push(e), f).to_multiset(),
    ensures
        page(s, limit, offset).contains(e),
{
    broadcast use vstd::seq_lib::group_to_multiset_ensures;

    let m = stored_filter(before.push(e), f);
    assert(before.push(e).drop_last() =~= before);
    assert(m == stored_filter(before, f).push(e));
    assert(m[m.len() - 1] == e);
    assert(m.contains(e));
    assert(m.to_multiset().count(e) > 0);
    assert(s.contains(e));
    assert(s.len() == m.len()) by {
        assert(s.to_multiset().len() == m.to_multiset().len());
    }
    assert(page(s, limit, offset) =~= s);
}

/// The in-memory filter misses nothing: every buffered line that passes the
/// filter is listed.
pub proof fn law_filter_is_complete(s: Seq<LogEntry>, f: LogFilter)
    ensures
        forall|i: int| 0 <= i < s.len() && #[trigger] passes(s[i], f) ==> filter_log(s, f).contains(s[i]),
    decreases s.len(),
{
    if s.len() > 0 {
        let init = s.drop_last();
        law_filter_is_complete(init, f);
        let r0 = filter_log(init, f);
        let r = filter_log(s, f);
        assert forall|i: int| 0 <= i < s.len() && #[trigger] passes(s[i], f) implies r.contains(s[i]) by {
            if i < s.len() - 1 {
                assert(s[i] == init[i]);
                assert(r0.contains(init[i]));
                let k = choose|k: int| 0 <= k < r0.len() && r0[k] == init[i];
                assert(r[k] == r0[k]);
            } else {
                assert(r[r.len() - 1] == s.last());
            }
        }
    }
}

} // verus!
