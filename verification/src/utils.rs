//! Helpers for the front-ends: how to write a time span, which unit fits a
//! size, and where the code stands in a chat message.

use vstd::prelude::*;
use crate::text::{decimal, push_decimal, push_text, text_of};

verus! {

/// Which parts of a time span to write, and how.
#[derive(Debug, Clone, Copy)]
pub struct TimeFormatOptions {
    pub include_days: bool,
    pub include_hours: bool,
    pub include_minutes: bool,
    pub include_seconds: bool,
    /// `d`, `h`, `m`, `s` in place of the full words.
    pub short_units: bool,
    /// The largest number of parts to write; zero for no bound.
    pub max_units: usize,
}

impl TimeFormatOptions {
    /// All four parts, with full words.
    pub open spec fn standard() -> TimeFormatOptions {
        TimeFormatOptions {
            include_days: true,
            include_hours: true,
            include_minutes: true,
            include_seconds: true,
            short_units: false,
            max_units: 4,
        }
    }
}

impl Default for TimeFormatOptions {
    fn default() -> (out: TimeFormatOptions)
        ensures
            out == TimeFormatOptions::standard(),
    {
        TimeFormatOptions {
            include_days: true,
            include_hours: true,
            include_minutes: true,
            include_seconds: true,
            short_units: false,
            max_units: 4,
        }
    }
}

/// How to write temperatures.
#[derive(Debug, Clone, Copy)]
pub struct TemperatureOptions {
    pub precision: usize,
    pub include_all: bool,
    pub use_fahrenheit: bool,
    pub include_labels: bool,
}

impl Default for TemperatureOptions {
    fn default() -> (out: TemperatureOptions)
        ensures
            out.precision == 1,
            !out.include_all,
            !out.use_fahrenheit,
            out.include_labels,
    {
        TemperatureOptions {
            precision: 1,
            include_all: false,
            use_fahrenheit: false,
            include_labels: true,
        }
    }
}

/// The unit in which to write a size.
#[derive(Debug, Clone, Copy, PartialEq, Eq, Structural)]
pub enum SizeUnit {
    /// The largest unit of which the size holds at least one.
    Auto,
    Bytes,
    KB,
    MB,
    GB,
    TB,
}

/// How to draw a progress bar.
#[derive(Debug, Clone)]
pub struct ProgressBarOptions {
    pub width: usize,
    pub fill_char: char,
    pub empty_char: char,
    pub show_percentage: bool,
    pub show_values: bool,
    pub value_precision: usize,
    pub percentage_precision: usize,
    pub unit: String,
}

impl Default for ProgressBarOptions {
    fn default() -> (out: ProgressBarOptions)
        ensures
            out.width == 20,
            out.fill_char == '█',
            out.empty_char == '░',
            out.show_percentage,
            out.show_values,
            out.value_precision == 1,
            out.percentage_precision == 1,
            out.unit@ == "GB"@,
    {
        ProgressBarOptions {
            width: 20,
            fill_char: '█',
            empty_char: '░',
            show_percentage: true,
            show_values: true,
            value_precision: 1,
            percentage_precision: 1,
            unit: "GB".to_owned(),
        }
    }
}

/// How to write a duration.
#[derive(Debug, Clone, Copy, PartialEq, Eq, Structural)]
pub enum DurationFormat {
    /// The format that fits the length of the duration.
    Auto,
    Milliseconds,
    Seconds,
    MinutesSeconds,
    HoursMinutesSeconds,
}

/// One part of a time span: `1 unit`, or the number and the unit in the
/// plural.
pub open spec fn time_part(value: nat, unit: Seq<char>) -> Seq<char> {
    if value == 1 {
        seq!['1', ' '] + unit
    } else {
        decimal(value) + seq![' '] + unit + seq!['s']
    }
}

/// The word for a unit of time.
pub open spec fn unit_word(short: bool, letter: Seq<char>, word: Seq<char>) -> Seq<char> {
    if short {
        letter
    } else {
        word
    }
}

/// The parts of a time span of `seconds` seconds that the options ask
/// for, before the bound on their number: days and hours where there are
/// any, minutes and seconds where there are any or nothing was written
/// yet.
pub open spec fn uptime_parts(seconds: nat, options: TimeFormatOptions) -> Seq<Seq<char>> {
    let days = seconds / 86400;
    let hours = (seconds % 86400) / 3600;
    let minutes = (seconds % 3600) / 60;
    let rest = seconds % 60;
    let short = options.short_units;
    let first: Seq<Seq<char>> = if options.include_days && days > 0 {
        seq![time_part(days, unit_word(short, "d"@, "day"@))]
    } else {
        seq![]
    };
    let second = if options.include_hours && hours > 0 {
        first.push(time_part(hours, unit_word(short, "h"@, "hour"@)))
    } else {
        first
    };
    let third = if options.include_minutes && (minutes > 0 || second.len() == 0) {
        second.push(time_part(minutes, unit_word(short, "m"@, "minute"@)))
    } else {
        second
    };
    if options.include_seconds && (rest > 0 || third.len() == 0) {
        third.push(time_part(rest, unit_word(short, "s"@, "second"@)))
    } else {
        third
    }
}

/// The first `count` of `parts`, with `, ` between them.
pub open spec fn joined(parts: Seq<Seq<char>>, count: nat) -> Seq<char>
    decreases count,
{
    if count == 0 || count > parts.len() {
        Seq::empty()
    } else if count == 1 {
        parts[0]
    } else {
        joined(parts, (count - 1) as nat) + seq![',', ' '] + parts[count - 1]
    }
}

/// How many of `available` parts the bound `max_units` lets through.
pub open spec fn bounded(available: nat, max_units: usize) -> nat {
    if max_units > 0 && max_units < available {
        max_units as nat
    } else {
        available
    }
}

/// The text for a time span of `seconds` seconds.
pub open spec fn uptime_text(seconds: nat, options: TimeFormatOptions) -> Seq<char> {
    let parts = uptime_parts(seconds, options);
    joined(parts, bounded(parts.len(), options.max_units))
}

fn format_time_part(value: u64, unit: &str) -> (out: String)
    ensures
        out@ == time_part(value as nat, unit@),
{
    let mut out = String::new();
    if value == 1 {
        out.push('1');
        out.push(' ');
        push_text(&mut out, unit);
        assert(out@ =~= seq!['1', ' '] + unit@);
    } else {
        push_decimal(&mut out, value);
        out.push(' ');
        push_text(&mut out, unit);
        out.push('s');
        assert(out@ =~= decimal(value as nat) + seq![' '] + unit@ + seq!['s']);
    }
    out
}

fn word<'a>(short: bool, letter: &'a str, full: &'a str) -> (out: &'a str)
    ensures
        out@ == unit_word(short, letter@, full@),
{
    if short {
        letter
    } else {
        full
    }
}

/// The views of a list of texts.
pub open spec fn views(list: Seq<String>) -> Seq<Seq<char>> {
    Seq::new(list.len(), |i: int| list[i]@)
}

fn note(parts: &mut Vec<String>, part: String)
    ensures
        views(final(parts)@) == views(old(parts)@).push(part@),
{
    parts.push(part);
    assert(views(parts@) =~= views(old(parts)@).push(part@));
}

/// Writes a time span of `seconds` seconds as days, hours, minutes and
/// seconds, as far as `options` ask for them.
pub fn format_uptime(seconds: u64, options: Option<TimeFormatOptions>) -> (out: String)
    ensures
        out@ == uptime_text(
            seconds as nat,
            match options {
                Some(o) => o,
                None => TimeFormatOptions::standard(),
            },
        ),
{
    let opts = match options {
        Some(o) => o,
        None => TimeFormatOptions::default(),
    };
    let days = seconds / 86400;
    let hours = (seconds % 86400) / 3600;
    let minutes = (seconds % 3600) / 60;
    let rest = seconds % 60;
    let mut parts: Vec<String> = Vec::new();
    assert(views(parts@) =~= seq![]);
    if opts.include_days && days > 0 {
        note(&mut parts, format_time_part(days, word(opts.short_units, "d", "day")));
    }
    if opts.include_hours && hours > 0 {
        note(&mut parts, format_time_part(hours, word(opts.short_units, "h", "hour")));
    }
    if opts.include_minutes && (minutes > 0 || parts.len() == 0) {
        note(&mut parts, format_time_part(minutes, word(opts.short_units, "m", "minute")));
    }
    if opts.include_seconds && (rest > 0 || parts.len() == 0) {
        note(&mut parts, format_time_part(rest, word(opts.short_units, "s", "second")));
    }
    assert(views(parts@) == uptime_parts(seconds as nat, opts));
    let count = if opts.max_units > 0 && opts.max_units < parts.len() {
        opts.max_units
    } else {
        parts.len()
    };
    let mut out = String::new();
    let mut i: usize = 0;
    while i < count
        invariant
            i <= count <= parts.len(),
            out@ == joined(views(parts@), i as nat),
        decreases count - i,
    {
        if i > 0 {
            out.push(',');
            out.push(' ');
        }
        push_text(&mut out, parts[i].as_str());
        i += 1;
        assert(out@ =~= joined(views(parts@), i as nat));
    }
    out
}

/// The unit in which a size of `size` bytes is written: the unit asked
/// for, or, for `Auto` and where none is asked for, the largest unit of
/// which the size holds at least one.
pub open spec fn fitting_unit(size: u64, unit: Option<SizeUnit>) -> SizeUnit {
    match unit {
        Some(SizeUnit::Bytes) => SizeUnit::Bytes,
        Some(SizeUnit::KB) => SizeUnit::KB,
        Some(SizeUnit::MB) => SizeUnit::MB,
        Some(SizeUnit::GB) => SizeUnit::GB,
        Some(SizeUnit::TB) => SizeUnit::TB,
        _ => if size >= 0x100_0000_0000 {
            SizeUnit::TB
        } else if size >= 0x4000_0000 {
            SizeUnit::GB
        } else if size >= 0x10_0000 {
            SizeUnit::MB
        } else if size >= 0x400 {
            SizeUnit::KB
        } else {
            SizeUnit::Bytes
        },
    }
}

/// The unit in which to write a size of `size` bytes.
pub fn size_unit(size: u64, unit: Option<SizeUnit>) -> (out: SizeUnit)
    ensures
        out == fitting_unit(size, unit),
        out != SizeUnit::Auto,
{
    match unit {
        Some(SizeUnit::Bytes) => SizeUnit::Bytes,
        Some(SizeUnit::KB) => SizeUnit::KB,
        Some(SizeUnit::MB) => SizeUnit::MB,
        Some(SizeUnit::GB) => SizeUnit::GB,
        Some(SizeUnit::TB) => SizeUnit::TB,
        _ => {
            if size >= 0x100_0000_0000 {
                SizeUnit::TB
            } else if size >= 0x4000_0000 {
                SizeUnit::GB
            } else if size >= 0x10_0000 {
                SizeUnit::MB
            } else if size >= 0x400 {
                SizeUnit::KB
            } else {
                SizeUnit::Bytes
            }
        },
    }
}

/// The number of bytes in one `unit`; one for `Bytes` and `Auto`.
pub fn unit_bytes(unit: SizeUnit) -> (out: u64)
    ensures
        out == match unit {
            SizeUnit::KB => 0x400u64,
            SizeUnit::MB => 0x10_0000u64,
            SizeUnit::GB => 0x4000_0000u64,
            SizeUnit::TB => 0x100_0000_0000u64,
            _ => 1u64,
        },
{
    match unit {
        SizeUnit::KB => 0x400,
        SizeUnit::MB => 0x10_0000,
        SizeUnit::GB => 0x4000_0000,
        SizeUnit::TB => 0x100_0000_0000,
        _ => 1,
    }
}

/// The format in which a duration of `ms` milliseconds is written: the
/// format asked for, or, for `Auto` and where none is asked for, the
/// format that fits the length.
pub open spec fn fitting_format(ms: u128, format: Option<DurationFormat>) -> DurationFormat {
    match format {
        Some(DurationFormat::Milliseconds) => DurationFormat::Milliseconds,
        Some(DurationFormat::Seconds) => DurationFormat::Seconds,
        Some(DurationFormat::MinutesSeconds) => DurationFormat::MinutesSeconds,
        Some(DurationFormat::HoursMinutesSeconds) => DurationFormat::HoursMinutesSeconds,
        _ => if ms < 1000 {
            DurationFormat::Milliseconds
        } else if ms < 60000 {
            DurationFormat::Seconds
        } else if ms < 3600000 {
            DurationFormat::MinutesSeconds
        } else {
            DurationFormat::HoursMinutesSeconds
        },
    }
}

/// The format in which to write a duration of `ms` milliseconds.
pub fn duration_format(ms: u128, format: Option<DurationFormat>) -> (out: DurationFormat)
    ensures
        out == fitting_format(ms, format),
        out != DurationFormat::Auto,
{
    match format {
        Some(DurationFormat::Milliseconds) => DurationFormat::Milliseconds,
        Some(DurationFormat::Seconds) => DurationFormat::Seconds,
        Some(DurationFormat::MinutesSeconds) => DurationFormat::MinutesSeconds,
        Some(DurationFormat::HoursMinutesSeconds) => DurationFormat::HoursMinutesSeconds,
        _ => {
            if ms < 1000 {
                DurationFormat::Milliseconds
            } else if ms < 60000 {
                DurationFormat::Seconds
            } else if ms < 3600000 {
                DurationFormat::MinutesSeconds
            } else {
                DurationFormat::HoursMinutesSeconds
            }
        },
    }
}

/// Whether the characters of `s` at `at` are those of `mark`.
pub open spec fn stands_at(s: Seq<char>, at: int, mark: Seq<char>) -> bool {
    0 <= at && at + mark.len() <= s.len() && s.subrange(at, at + mark.len()) == mark
}

/// How far behind `from` the first `mark` in `s` stands: the number of
/// positions to pass over, or the number of positions left where there is
/// no `mark`.
pub open spec fn distance(s: Seq<char>, from: int, mark: Seq<char>) -> nat
    decreases s.len() - from,
{
    if from < 0 || from >= s.len() || stands_at(s, from, mark) {
        0
    } else {
        1 + distance(s, from + 1, mark)
    }
}

/// Where the first `mark` in `s` at or behind `from` stands, if there is one.
pub open spec fn found(s: Seq<char>, from: int, mark: Seq<char>) -> Option<int> {
    let at = from + distance(s, from, mark);
    if stands_at(s, at, mark) {
        Some(at)
    } else {
        None
    }
}

/// The three backticks that fence a block of code.
pub open spec fn fence() -> Seq<char> {
    seq!['`', '`', '`']
}

/// The code between fences in `s`: what stands between the first fence,
/// or the end of the line that the first fence begins where there is one,
/// and the next fence.
pub open spec fn fenced(s: Seq<char>) -> Option<Seq<char>> {
    match found(s, 0, fence()) {
        Some(start) => {
            let from = match found(s, start + 3, seq!['\n']) {
                Some(line_end) => line_end + 1,
                None => start + 3,
            };
            match found(s, from, fence()) {
                Some(end) => Some(s.subrange(from, end)),
                None => None,
            }
        },
        None => None,
    }
}

/// The code between two single backticks in `s`.
pub open spec fn inlined(s: Seq<char>) -> Option<Seq<char>> {
    match found(s, 0, seq!['`']) {
        Some(start) => match found(s, start + 1, seq!['`']) {
            Some(end) => Some(s.subrange(start + 1, end)),
            None => None,
        },
        None => None,
    }
}

/// The code in the message `s`: the fenced code where there is any, else
/// the code between single backticks.
pub open spec fn code_of(s: Seq<char>) -> Option<Seq<char>> {
    if fenced(s) is Some {
        fenced(s)
    } else {
        inlined(s)
    }
}

fn matches_at(chars: &Vec<char>, at: usize, mark: &Vec<char>) -> (out: bool)
    requires
        at <= chars.len(),
    ensures
        out == stands_at(chars@, at as int, mark@),
{
    if mark.len() > chars.len() - at {
        return false;
    }
    let mut i: usize = 0;
    while i < mark.len()
        invariant
            i <= mark.len(),
            at + mark.len() <= chars.len(),
            forall|j: int| 0 <= j < i ==> chars@[at + j] == mark@[j],
        decreases mark.len() - i,
    {
        if chars[at + i] != mark[i] {
            assert(chars@.subrange(at as int, at + mark.len())[i as int] != mark@[i as int]);
            return false;
        }
        i += 1;
    }
    assert(chars@.subrange(at as int, at + mark.len()) =~= mark@);
    true
}

/// Where the first `mark` in `chars` at or behind `from` stands, if there
/// is one.
pub fn find_in(chars: &Vec<char>, from: usize, mark: &Vec<char>) -> (out: Option<usize>)
    requires
        from <= chars.len(),
    ensures
        match out {
            Some(at) => found(chars@, from as int, mark@) == Some(at as int) && from <= at
                && at + mark.len() <= chars.len(),
            None => found(chars@, from as int, mark@) is None,
        },
{
    let mut i: usize = from;
    while i < chars.len()
        invariant
            from <= i <= chars.len(),
            distance(chars@, from as int, mark@) == (i - from) + distance(
                chars@,
                i as int,
                mark@,
            ),
        decreases chars.len() - i,
    {
        if matches_at(chars, i, mark) {
            return Some(i);
        }
        i += 1;
    }
    if matches_at(chars, i, mark) {
        Some(i)
    } else {
        None
    }
}

/// The code in the chat message `content`: what stands between fences of
/// three backticks, behind the line of the first fence, or else what
/// stands between two single backticks.
pub fn extract_code_from_message(content: &str) -> (out: Option<String>)
    ensures
        match out {
            Some(code) => code_of(content@) == Some(code@),
            None => code_of(content@) is None,
        },
{
    let chars = crate::text::chars_of(content);
    let mut fence_mark: Vec<char> = Vec::new();
    fence_mark.push('`');
    fence_mark.push('`');
    fence_mark.push('`');
    assert(fence_mark@ =~= fence());
    let mut tick: Vec<char> = Vec::new();
    tick.push('`');
    assert(tick@ =~= seq!['`']);
    let mut line_break: Vec<char> = Vec::new();
    line_break.push('\n');
    assert(line_break@ =~= seq!['\n']);
    match find_in(&chars, 0, &fence_mark) {
        Some(start) => {
            let from = match find_in(&chars, start + 3, &line_break) {
                Some(line_end) => line_end + 1,
                None => start + 3,
            };
            match find_in(&chars, from, &fence_mark) {
                Some(end) => {
                    return Some(text_of(&chars, from, end));
                },
                None => {},
            }
        },
        None => {},
    }
    match find_in(&chars, 0, &tick) {
        Some(start) => match find_in(&chars, start + 1, &tick) {
            Some(end) => Some(text_of(&chars, start + 1, end)),
            None => None,
        },
        None => None,
    }
}

} // verus!
