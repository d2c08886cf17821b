//! Lines of a running game's log: Minecraft's `§` colour codes, the XML
//! events that newer versions print, and how a line is shown in a terminal.
use vstd::prelude::*;

use colored::Colorize;

use crate::text::{
    chars_of, contains_exec, contains_seq, find_exec, find_first, i64_value, parse_i64,
    push_all, push_str_chars, replace_all, replace_all_exec, starts_with, starts_with_exec,
    string_of, trim, trim_bounds,
};

verus! {

/// One XML log event (a `log4j:Event` element).
pub struct LogEvent {
    /// The Java class that logged the message.
    pub logger: String,
    /// Milliseconds since the UNIX epoch, as text.
    pub timestamp: String,
    pub level: String,
    pub thread: String,
    pub message: Option<String>,
    pub throwable: Option<String>,
}

/// A line of log output: an XML event, a plain message, or a line from
/// the error stream.
pub enum LogLine {
    Info(LogEvent),
    Message(String),
    Error(String),
}

/// Why reading a game's log stopped.
pub enum ReadError {
    Io(String),
    IoError(String),
    Json(String),
}

pub open spec fn read_error_text(e: ReadError) -> Seq<char> {
    "while reading the game log:\n"@ + match e {
        ReadError::Io(m) => m@,
        ReadError::IoError(m) => m@,
        ReadError::Json(m) => m@,
    }
}

impl ReadError {
    /// The error as the launcher shows it.
    pub fn message(&self) -> (res: String)
        ensures
            res@ == read_error_text(*self),
    {
        let mut out = chars_of("while reading the game log:\n");
        match self {
            ReadError::Io(m) => push_str_chars(&mut out, m.as_str()),
            ReadError::IoError(m) => push_str_chars(&mut out, m.as_str()),
            ReadError::Json(m) => push_str_chars(&mut out, m.as_str()),
        }
        string_of(out.as_slice())
    }
}

/// The terminal escape sequence that a `§` code stands for, if any.
pub open spec fn color_code(f: char) -> Option<Seq<char>> {
    if f == '0' { Some("\x1b[30m"@) }
    else if f == '1' { Some("\x1b[34m"@) }
    else if f == '2' { Some("\x1b[32m"@) }
    else if f == '3' { Some("\x1b[36m"@) }
    else if f == '4' { Some("\x1b[31m"@) }
    else if f == '5' { Some("\x1b[35m"@) }
    else if f == '6' { Some("\x1b[33m"@) }
    else if f == '7' { Some("\x1b[37m"@) }
    else if f == '8' { Some("\x1b[90m"@) }
    else if f == '9' { Some("\x1b[94m"@) }
    else if f == 'a' { Some("\x1b[92m"@) }
    else if f == 'b' { Some("\x1b[96m"@) }
    else if f == 'c' { Some("\x1b[91m"@) }
    else if f == 'd' { Some("\x1b[95m"@) }
    else if f == 'e' { Some("\x1b[93m"@) }
    else if f == 'f' { Some("\x1b[97m"@) }
    else if f == 'l' { Some("\x1b[1m"@) }
    else if f == 'm' { Some("\x1b[9m"@) }
    else if f == 'n' { Some("\x1b[4m"@) }
    else if f == 'o' { Some("\x1b[3m"@) }
    else if f == 'r' { Some("\x1b[0m"@) }
    else { None }
}

fn color_code_exec(f: char) -> (r: Option<&'static str>)
    ensures
        match r {
            Some(s) => color_code(f) == Some(s@),
            None => color_code(f) is None,
        },
{
    match f {
        '0' => Some("\x1b[30m"),
        '1' => Some("\x1b[34m"),
        '2' => Some("\x1b[32m"),
        '3' => Some("\x1b[36m"),
        '4' => Some("\x1b[31m"),
        '5' => Some("\x1b[35m"),
        '6' => Some("\x1b[33m"),
        '7' => Some("\x1b[37m"),
        '8' => Some("\x1b[90m"),
        '9' => Some("\x1b[94m"),
        'a' => Some("\x1b[92m"),
        'b' => Some("\x1b[96m"),
        'c' => Some("\x1b[91m"),
        'd' => Some("\x1b[95m"),
        'e' => Some("\x1b[93m"),
        'f' => Some("\x1b[97m"),
        'l' => Some("\x1b[1m"),
        'm' => Some("\x1b[9m"),
        'n' => Some("\x1b[4m"),
        'o' => Some("\x1b[3m"),
        'r' => Some("\x1b[0m"),
        _ => None,
    }
}

/// `s` with every known `§` code replaced by its escape sequence; an
/// unknown code is kept as it is, and a `§` at the very end is dropped.
pub open spec fn colored_body(s: Seq<char>) -> Seq<char>
    decreases s.len(),
{
    if s.len() == 0 {
        seq![]
    } else if s[0] == '§' {
        if s.len() == 1 {
            seq![]
        } else {
            (match color_code(s[1]) {
                Some(c) => c,
                None => seq!['§', s[1]],
            }) + colored_body(s.skip(2))
        }
    } else {
        seq![s[0]] + colored_body(s.skip(1))
    }
}

/// A chat-formatted message for a terminal: its `§` codes turned into
/// escape sequences, then a reset.
pub open spec fn colored(s: Seq<char>) -> Seq<char> {
    colored_body(s) + "\x1b[0m"@
}

proof fn lemma_code_prefix(f: char, t: Seq<char>)
    ensures
        colored(seq!['§', f] + t) == (match color_code(f) {
            Some(c) => c,
            None => seq!['§', f],
        }) + colored(t),
{
    let s = seq!['§', f] + t;
    assert(s.skip(2) =~= t);
    assert(s[0] == '§' && s[1] == f);
    let head = match color_code(f) {
        Some(c) => c,
        None => seq!['§', f],
    };
    assert(colored(s) =~= head + colored(t));
}

proof fn lemma_plain_body(t: Seq<char>)
    requires
        !t.contains('§'),
    ensures
        colored_body(t) == t,
    decreases t.len(),
{
    if t.len() > 0 {
        assert(t[0] != '§');
        assert(!t.skip(1).contains('§')) by {
            if t.skip(1).contains('§') {
                let j = choose|j: int| 0 <= j < t.skip(1).len() && t.skip(1)[j] == '§';
                assert(t[j + 1] == '§');
            }
        }
        lemma_plain_body(t.skip(1));
        assert(seq![t[0]] + t.skip(1) =~= t);
    }
}

/// A message without `§` comes out as it is, followed by a reset.
pub proof fn lemma_plain_message(t: Seq<char>)
    requires
        !t.contains('§'),
    ensures
        colored(t) == t + "\x1b[0m"@,
{
    lemma_plain_body(t);
}

/// Each of Minecraft's formatting codes turns into its terminal escape
/// sequence wherever it starts a message, whatever follows: the colours
/// `0`-`9` and `a`-`f` (black, dark blue, dark green, dark aqua, dark red,
/// dark purple, gold, grey, dark grey, blue, green, aqua, red, light
/// purple, yellow, white), then bold `l`, strikethrough `m`, underline
/// `n`, italic `o` and reset `r`.
pub proof fn lemma_format_codes(t: Seq<char>)
    ensures
        colored(seq!['§', '0'] + t) == "\x1b[30m"@ + colored(t),
        colored(seq!['§', '1'] + t) == "\x1b[34m"@ + colored(t),
        colored(seq!['§', '2'] + t) == "\x1b[32m"@ + colored(t),
        colored(seq!['§', '3'] + t) == "\x1b[36m"@ + colored(t),
        colored(seq!['§', '4'] + t) == "\x1b[31m"@ + colored(t),
        colored(seq!['§', '5'] + t) == "\x1b[35m"@ + colored(t),
        colored(seq!['§', '6'] + t) == "\x1b[33m"@ + colored(t),
        colored(seq!['§', '7'] + t) == "\x1b[37m"@ + colored(t),
        colored(seq!['§', '8'] + t) == "\x1b[90m"@ + colored(t),
        colored(seq!['§', '9'] + t) == "\x1b[94m"@ + colored(t),
        colored(seq!['§', 'a'] + t) == "\x1b[92m"@ + colored(t),
        colored(seq!['§', 'b'] + t) == "\x1b[96m"@ + colored(t),
        colored(seq!['§', 'c'] + t) == "\x1b[91m"@ + colored(t),
        colored(seq!['§', 'd'] + t) == "\x1b[95m"@ + colored(t),
        colored(seq!['§', 'e'] + t) == "\x1b[93m"@ + colored(t),
        colored(seq!['§', 'f'] + t) == "\x1b[97m"@ + colored(t),
        colored(seq!['§', 'l'] + t) == "\x1b[1m"@ + colored(t),
        colored(seq!['§', 'm'] + t) == "\x1b[9m"@ + colored(t),
        colored(seq!['§', 'n'] + t) == "\x1b[4m"@ + colored(t),
        colored(seq!['§', 'o'] + t) == "\x1b[3m"@ + colored(t),
        colored(seq!['§', 'r'] + t) == "\x1b[0m"@ + colored(t),
{
    lemma_code_prefix('0', t);
    lemma_code_prefix('1', t);
    lemma_code_prefix('2', t);
    lemma_code_prefix('3', t);
    lemma_code_prefix('4', t);
    lemma_code_prefix('5', t);
    lemma_code_prefix('6', t);
    lemma_code_prefix('7', t);
    lemma_code_prefix('8', t);
    lemma_code_prefix('9', t);
    lemma_code_prefix('a', t);
    lemma_code_prefix('b', t);
    lemma_code_prefix('c', t);
    lemma_code_prefix('d', t);
    lemma_code_prefix('e', t);
    lemma_code_prefix('f', t);
    lemma_code_prefix('l', t);
    lemma_code_prefix('m', t);
    lemma_code_prefix('n', t);
    lemma_code_prefix('o', t);
    lemma_code_prefix('r', t);
}

/// Turns Minecraft's `§` formatting codes into terminal escape sequences
/// and resets the formatting at the end.
pub fn parse_color(msg: &str) -> (res: String)
    ensures
        res@ == colored(msg@),
{
    let v = chars_of(msg);
    let mut out: Vec<char> = Vec::new();
    let mut i: usize = 0;
    assert(v@.skip(0) =~= v@);
    while i < v.len()
        invariant
            i <= v@.len(),
            v@ == msg@,
            out@ + colored_body(v@.skip(i as int)) == colored_body(v@),
        decreases v@.len() - i,
    {
        let ghost rest = v@.skip(i as int);
        let c = v[i];
        assert(rest[0] == c);
        if c == '§' {
            if i + 1 >= v.len() {
                assert(rest.len() == 1);
                assert(v@.skip(v@.len() as int) =~= seq![]);
                i = v.len();
            } else {
                let f = v[i + 1];
                assert(rest[1] == f);
                assert(rest.skip(2) =~= v@.skip(i + 2));
                let ghost before = out@;
                match color_code_exec(f) {
                    Some(code) => {
                        push_str_chars(&mut out, code);
                    },
                    None => {
                        out.push('§');
                        out.push(f);
                        assert(out@ =~= before + seq!['§', f]);
                    },
                }
                assert(out@ + colored_body(v@.skip(i + 2)) =~= before + colored_body(rest));
                i = i + 2;
            }
        } else {
            assert(rest.skip(1) =~= v@.skip(i + 1));
            let ghost before = out@;
            out.push(c);
            assert(out@ + colored_body(v@.skip(i + 1)) =~= before + colored_body(rest));
            i = i + 1;
        }
    }
    assert(v@.skip(i as int) =~= seq![]);
    push_str_chars(&mut out, "\x1b[0m");
    string_of(out.as_slice())
}

/// `s` in the style whose SGR parameters are `code`, the way `colored`
/// renders a styled string: the style, the text with the style put back
/// after every reset it holds, then a reset.
#[verifier::opaque]
pub open spec fn painted(s: Seq<char>, code: Seq<char>) -> Seq<char> {
    let style = "\x1b["@ + code + "m"@;
    style + replace_all(s, "\x1b[0m"@, "\x1b[0m"@ + style) + "\x1b[0m"@
}

/// `s` painted when `on`, else left as it is.
pub open spec fn shade(s: Seq<char>, code: Seq<char>, on: bool) -> Seq<char> {
    if on {
        painted(s, code)
    } else {
        s
    }
}

/// `colored`'s `bright_red`, as text. Whether `colored` paints at all
/// depends on the process's variables (`CLICOLOR`, `NO_COLOR`), on a terminal or on an
/// override set at run time, so this claims only that the text comes back
/// either as it was or painted bright red (SGR 91).
#[verifier::external_body]
fn bright_red_text(s: &str) -> (res: String)
    ensures
        res@ == s@ || res@ == painted(s@, "91"@),
{
    s.bright_red().to_string()
}

/// `colored`'s `bright_black`, as text: the text as it was, or painted
/// bright black (SGR 90); which one depends on the process's variables
/// and terminal.
#[verifier::external_body]
fn bright_black_text(s: &str) -> (res: String)
    ensures
        res@ == s@ || res@ == painted(s@, "90"@),
{
    s.bright_black().to_string()
}

/// `colored`'s `bright_black` then `underline`, as text: the text as it
/// was, or painted underlined bright black (SGR 4;90); which one depends on
/// the process's variables and terminal.
#[verifier::external_body]
fn bright_black_underlined_text(s: &str) -> (res: String)
    ensures
        res@ == s@ || res@ == painted(s@, "4;90"@),
{
    s.bright_black().underline().to_string()
}

/// Whether the launcher runs on Windows (the one platform whose path
/// separator is `\`).
fn on_windows() -> bool {
    crate::fabric::main_separator() == '\\'
}

/// A clock reading as `%H:%M:%S` writes one.
pub open spec fn is_clock(t: Seq<char>) -> bool {
    &&& t.len() == 8
    &&& t[2] == ':'
    &&& t[5] == ':'
    &&& forall|i: int| 0 <= i < 8 && i != 2 && i != 5 ==> crate::text::is_digit(#[trigger] t[i])
}

/// Whether `chrono::DateTime::from_timestamp` places a count of seconds
/// and nanoseconds: the date must fall within chrono's years -262143 to
/// 262142, and the nanoseconds must stay under a billion, or under two
/// billion on the last second of a minute (a leap second).
pub open spec fn chrono_places(secs: int, nanos: int) -> bool {
    &&& -8_334_601_228_800 <= secs <= 8_210_266_876_799
    &&& (nanos < 1_000_000_000 || (nanos < 2_000_000_000 && secs % 60 == 59))
}

/// `chrono::DateTime::from_timestamp(secs, nanos)`, moved to the local time
/// zone and formatted `%H:%M:%S`. Whether there is a reading is what
/// `from_timestamp` decides (`chrono_places`); the reading itself depends
/// on the machine's time zone, so only its shape is claimed.
#[verifier::external_body]
fn local_clock(secs: i64, nanos: u32) -> (res: Option<String>)
    ensures
        res is Some <==> chrono_places(secs as int, nanos as int),
        res matches Some(t) ==> is_clock(t@),
{
    let utc = chrono::DateTime::from_timestamp(secs, nanos)?;
    Some(utc.with_timezone(&chrono::Local).format("%H:%M:%S").to_string())
}

/// What a message of an event shows: its `§` codes turned into escape
/// sequences, except on Windows.
pub open spec fn message_text(message: Option<String>, windows: bool) -> Seq<char> {
    match message {
        Some(m) => if windows { m@ } else { colored(m@) },
        None => seq![],
    }
}

pub open spec fn caused_by(throwable: Option<String>) -> Seq<char> {
    match throwable {
        Some(t) => "\nCaused by "@ + t@ + "\n"@,
        None => seq![],
    }
}

/// An event for a terminal, given the time shown and which of its five
/// styled pieces (the brackets and the level) came out painted.
pub open spec fn event_colored(
    e: LogEvent,
    date: Seq<char>,
    f: (bool, bool, bool, bool, bool),
    windows: bool,
) -> Seq<char> {
    shade("["@, "90"@, f.0) + shade(e.level@, "4;90"@, f.1) + shade("]"@, "90"@, f.2) + " "@
        + shade("["@, "90"@, f.3) + date + shade("]"@, "90"@, f.4) + " "@
        + message_text(e.message, windows) + caused_by(e.throwable)
}

/// An event as plain text, given the time shown.
pub open spec fn event_plain(e: LogEvent, date: Seq<char>) -> Seq<char> {
    "["@ + e.level@ + "] ["@ + date + "] "@ + (match e.message {
        Some(m) => m@,
        None => seq![],
    }) + "\n"@ + (match e.throwable {
        Some(t) => "Caused by "@ + t@ + "\n"@,
        None => seq![],
    })
}

/// Whether a millisecond timestamp has a clock reading: the whole
/// seconds and the remainder (cut as Rust's `/` and `%` cut a negative
/// number) are a time that `chrono` places. A negative count that is not a
/// whole second never is: its negative remainder becomes a nanosecond
/// count of over three billion.
pub open spec fn clock_placeable(t: int) -> bool {
    if t >= 0 {
        chrono_places(t / 1000, (t % 1000) * 1_000_000)
    } else {
        (-t) % 1000 == 0 && chrono_places(-((-t) / 1000), 0)
    }
}

/// Whether an event's timestamp is a number of milliseconds with a clock
/// reading.
pub open spec fn has_clock_time(e: LogEvent) -> bool {
    i64_value(e.timestamp@) matches Some(t) && clock_placeable(t)
}

/// The time an event shows: a clock reading (`HH:MM:SS`) when its
/// timestamp has one, else the raw timestamp.
pub open spec fn shown_time(e: LogEvent, date: Seq<char>) -> bool {
    if has_clock_time(e) {
        is_clock(date)
    } else {
        date == e.timestamp@
    }
}

fn push_piece(out: &mut Vec<char>, s: String)
    ensures
        final(out)@ == old(out)@ + s@,
{
    push_str_chars(out, s.as_str());
}

impl LogEvent {
    /// The event's time of day as `HH:MM:SS` in the local time zone, when
    /// the timestamp is a number of milliseconds that `chrono` can place (a
    /// negative one that is not a whole second is refused).
    pub fn get_time(&self) -> (res: Option<String>)
        ensures
            res is Some <==> has_clock_time(*self),
            res matches Some(c) ==> is_clock(c@),
    {
        let time = match parse_i64(self.timestamp.as_str()) {
            Some(t) => t,
            None => {
                return None;
            },
        };
        if time >= 0 {
            let seconds = time / 1000;
            let milliseconds = time % 1000;
            let nanoseconds = (milliseconds * 1_000_000) as u32;
            local_clock(seconds, nanoseconds)
        } else {
            let magnitude: u64 = if time == i64::MIN {
                9223372036854775808
            } else {
                (-time) as u64
            };
            let seconds = -((magnitude / 1000) as i64);
            let milliseconds = magnitude % 1000;
            // A negative remainder times a million, cut to 32 bits.
            let nanoseconds: u32 = if milliseconds == 0 {
                0
            } else {
                (4294967296 - milliseconds * 1_000_000) as u32
            };
            local_clock(seconds, nanoseconds)
        }
    }

    /// The event for a terminal, showing `date` as its time; on Windows
    /// (`windows`) its message keeps its `§` codes.
    pub fn print_color_at(&self, date: &str, windows: bool) -> (res: String)
        ensures
            exists|f: (bool, bool, bool, bool, bool)|
                res@ == #[trigger] event_colored(*self, date@, f, windows),
    {
        let b0 = bright_black_text("[");
        let lv = bright_black_underlined_text(self.level.as_str());
        let b1 = bright_black_text("]");
        let b2 = bright_black_text("[");
        let b3 = bright_black_text("]");
        let ghost f = (b0@ != "["@, lv@ != self.level@, b1@ != "]"@, b2@ != "["@, b3@ != "]"@);
        let ghost head = shade("["@, "90"@, f.0) + shade(self.level@, "4;90"@, f.1) + shade("]"@, "90"@, f.2) + " "@
            + shade("["@, "90"@, f.3) + date@ + shade("]"@, "90"@, f.4) + " "@;
        let mut out: Vec<char> = Vec::new();
        push_piece(&mut out, b0);
        push_piece(&mut out, lv);
        push_piece(&mut out, b1);
        push_str_chars(&mut out, " ");
        push_piece(&mut out, b2);
        push_str_chars(&mut out, date);
        push_piece(&mut out, b3);
        push_str_chars(&mut out, " ");
        assert(out@ == head);
        match &self.message {
            Some(m) => {
                if windows {
                    push_str_chars(&mut out, m.as_str());
                } else {
                    let c = parse_color(m.as_str());
                    push_piece(&mut out, c);
                }
            },
            None => {
                assert(out@ =~= head + message_text(self.message, windows));
            },
        }
        assert(out@ == head + message_text(self.message, windows));
        let ghost body = out@;
        match &self.throwable {
            Some(t) => {
                push_str_chars(&mut out, "\nCaused by ");
                push_str_chars(&mut out, t.as_str());
                push_str_chars(&mut out, "\n");
                assert(out@ =~= body + caused_by(self.throwable));
            },
            None => {
                assert(out@ =~= body + caused_by(self.throwable));
            },
        }
        let res = string_of(out.as_slice());
        assert(res@ =~= event_colored(*self, date@, f, windows));
        res
    }

    /// The event for a terminal on Windows (`windows`) or elsewhere: its
    /// level, its time of day (the raw timestamp when there is none) and
    /// its message, with the `Caused by` line of its throwable.
    pub fn print_color_on(&self, windows: bool) -> (res: String)
        ensures
            exists|d: Seq<char>, f: (bool, bool, bool, bool, bool)|
                shown_time(*self, d) && res@ == #[trigger] event_colored(*self, d, f, windows),
    {
        let date = match self.get_time() {
            Some(t) => t,
            None => self.timestamp.clone(),
        };
        assert(shown_time(*self, date@));
        let res = self.print_color_at(date.as_str(), windows);
        let ghost f = choose|f: (bool, bool, bool, bool, bool)| res@ == #[trigger] event_colored(*self, date@, f, windows);
        assert(shown_time(*self, date@) && res@ == event_colored(*self, date@, f, windows));
        res
    }

    /// The event for a terminal on the platform the launcher runs on.
    pub fn print_color(&self) -> (res: String)
        ensures
            exists|d: Seq<char>, f: (bool, bool, bool, bool, bool), w: bool|
                shown_time(*self, d) && res@ == #[trigger] event_colored(*self, d, f, w),
    {
        self.print_color_on(on_windows())
    }

    /// The event as plain text, showing `date` as its time.
    pub fn display_at(&self, date: &str) -> (res: String)
        ensures
            res@ == event_plain(*self, date@),
    {
        let mut out = chars_of("[");
        push_str_chars(&mut out, self.level.as_str());
        push_str_chars(&mut out, "] [");
        push_str_chars(&mut out, date);
        push_str_chars(&mut out, "] ");
        match &self.message {
            Some(m) => push_str_chars(&mut out, m.as_str()),
            None => {},
        }
        push_str_chars(&mut out, "\n");
        match &self.throwable {
            Some(t) => {
                push_str_chars(&mut out, "Caused by ");
                push_str_chars(&mut out, t.as_str());
                push_str_chars(&mut out, "\n");
            },
            None => {},
        }
        let res = string_of(out.as_slice());
        assert(res@ =~= event_plain(*self, date@));
        res
    }

    /// The event as plain text: `[level] [time] message`, then the
    /// `Caused by` line of its throwable.
    pub fn to_display_string(&self) -> (res: String)
        ensures
            exists|d: Seq<char>| shown_time(*self, d) && res@ == #[trigger] event_plain(*self, d),
    {
        let date = match self.get_time() {
            Some(t) => t,
            None => self.timestamp.clone(),
        };
        self.display_at(date.as_str())
    }
}

/// A line for a terminal on Windows (`windows`) or elsewhere: on Windows
/// an event as plain text and an error line as it is; elsewhere an event
/// in colour and an error line in bright red (when colours are on); a
/// message always as it is.
pub open spec fn colored_line(line: LogLine, windows: bool, res: Seq<char>) -> bool {
    match line {
        LogLine::Info(e) => if windows {
            exists|d: Seq<char>| shown_time(e, d) && res == #[trigger] event_plain(e, d)
        } else {
            exists|d: Seq<char>, f: (bool, bool, bool, bool, bool)|
                shown_time(e, d) && res == #[trigger] event_colored(e, d, f, false)
        },
        LogLine::Message(m) => res == m@,
        LogLine::Error(m) => if windows {
            res == m@
        } else {
            res == m@ || res == painted(m@, "91"@)
        },
    }
}

impl LogLine {
    /// The line for a terminal on Windows (`windows`) or elsewhere.
    pub fn print_colored_on(&self, windows: bool) -> (res: String)
        ensures
            colored_line(*self, windows, res@),
    {
        match self {
            LogLine::Info(e) => {
                if windows {
                    e.to_display_string()
                } else {
                    e.print_color_on(false)
                }
            },
            LogLine::Message(m) => m.clone(),
            LogLine::Error(m) => {
                if windows {
                    m.clone()
                } else {
                    bright_red_text(m.as_str())
                }
            },
        }
    }

    /// The line for a terminal on the platform the launcher runs on: an
    /// event in colour, a message as it is, an error line in bright red
    /// (on Windows events are plain and errors uncoloured).
    pub fn print_colored(&self) -> (res: String)
        ensures
            exists|w: bool| #[trigger] colored_line(*self, w, res@),
    {
        let w = on_windows();
        let res = self.print_colored_on(w);
        assert(colored_line(*self, w, res@));
        res
    }

    /// The line as plain text.
    pub fn to_display_string(&self) -> (res: String)
        ensures
            match self {
                LogLine::Info(e) => exists|d: Seq<char>| shown_time(*e, d) && res@ == #[trigger] event_plain(*e, d),
                LogLine::Message(m) => res@ == m@,
                LogLine::Error(m) => res@ == m@,
            },
    {
        match self {
            LogLine::Info(e) => e.to_display_string(),
            LogLine::Message(m) => m.clone(),
            LogLine::Error(m) => m.clone(),
        }
    }
}

/// Whether a line is passed on: every line but an event whose message
/// carries a session ID.
pub open spec fn passes_filter(line: LogLine) -> bool {
    match line {
        LogLine::Info(e) => match e.message {
            Some(m) => !contains_seq(m@, "Session ID is "@),
            None => true,
        },
        _ => true,
    }
}

/// Whether a log line may be passed on: events whose message holds a
/// session ID are held back.
pub fn should_send(line: &LogLine) -> (b: bool)
    ensures
        b == passes_filter(*line),
{
    match line {
        LogLine::Info(e) => match &e.message {
            Some(m) => {
                let v = chars_of(m.as_str());
                let p = chars_of("Session ID is ");
                !contains_exec(v.as_slice(), p.as_slice())
            },
            None => true,
        },
        _ => true,
    }
}

/// A complete XML event cut out of the log: the text to parse as an
/// event, and any other output that came before it.
pub struct XmlFrame {
    pub leading: Option<String>,
    pub text: String,
}

/// The collected lines with the `log4j:` prefix taken off the tags.
pub open spec fn xml_normalized(s: Seq<char>) -> Seq<char> {
    replace_all(replace_all(s, "<log4j:"@, "<"@), "</log4j:"@, "</"@)
}

/// What the framing gives for a completed event: the text from the first
/// `<Event` on, and what came before it when that is more than whitespace.
pub open spec fn frame_of(xml: Seq<char>) -> (Option<Seq<char>>, Seq<char>) {
    match find_first(xml, "<Event"@) {
        Some(start) => if start > 0 {
            (if trim(xml.take(start)).len() > 0 { Some(trim(xml.take(start))) } else { None }, xml.skip(start))
        } else {
            (None, xml)
        },
        None => (None, xml),
    }
}

/// Adds one line of XML log output to `cache`. When the line closes an
/// event, gives back the event's text (the `log4j:` prefix taken off its
/// tags) and any other output that came before the event; the cache is
/// left as it is for the caller to clear once the event has been read.
pub fn xml_feed(cache: &mut String, line: &str) -> (r: Option<XmlFrame>)
    ensures
        final(cache)@ == old(cache)@ + line@,
        starts_with(line@, "  </log4j:Event>"@) <==> r is Some,
        r matches Some(fr) ==> ({
            let fs = frame_of(xml_normalized(old(cache)@ + line@));
            &&& fr.text@ == fs.1
            &&& match fr.leading {
                Some(l) => fs.0 == Some(l@),
                None => fs.0 is None,
            }
        }),
{
    let lv = chars_of(line);
    let end_tag = chars_of("  </log4j:Event>");
    let closes = starts_with_exec(lv.as_slice(), end_tag.as_slice());
    let mut all = chars_of(cache.as_str());
    push_all(&mut all, lv.as_slice());
    *cache = string_of(all.as_slice());
    if !closes {
        return None;
    }
    let a = chars_of("<log4j:");
    let b = chars_of("<");
    let c = chars_of("</log4j:");
    let d = chars_of("</");
    let step = replace_all_exec(all.as_slice(), a.as_slice(), b.as_slice());
    let xml = replace_all_exec(step.as_slice(), c.as_slice(), d.as_slice());
    let ev = chars_of("<Event");
    match find_exec(xml.as_slice(), ev.as_slice()) {
        Some(start) => {
            if start > 0 {
                let head = &xml.as_slice()[0..start];
                let (i, j) = trim_bounds(head);
                assert(xml@.take(start as int) =~= head@);
                let leading = if i < j {
                    Some(string_of(&head[i..j]))
                } else {
                    None
                };
                Some(XmlFrame { leading, text: string_of(&xml.as_slice()[start..xml.len()]) })
            } else {
                Some(XmlFrame { leading: None, text: string_of(xml.as_slice()) })
            }
        },
        None => Some(XmlFrame { leading: None, text: string_of(xml.as_slice()) }),
    }
}

/// Whether every character of `s` is ASCII.
pub open spec fn all_ascii(s: Seq<char>) -> bool {
    forall|i: int| 0 <= i < s.len() ==> (#[trigger] s[i]) as u32 <= 127
}

/// `any_ascii::any_ascii`: the ASCII transliteration of a text.
pub uninterp spec fn transliterated(s: Seq<char>) -> Seq<char>;

/// `any_ascii::any_ascii`. Its result is named; the crate documents that
/// every character of the result is ASCII and that ASCII input is left
/// unchanged.
#[verifier::external_body]
fn any_ascii_text(s: &str) -> (res: String)
    ensures
        res@ == transliterated(s@),
        all_ascii(res@),
        all_ascii(s@) ==> res@ == s@,
{
    any_ascii::any_ascii(s)
}

/// An event's text with everything outside ASCII transliterated, for a
/// second attempt at reading it.
pub fn xml_ascii_fallback(text: &str) -> (res: String)
    ensures
        res@ == transliterated(text@),
        all_ascii(res@),
{
    any_ascii_text(text)
}

/// Whether a failed event is to be reported: only the first failure is,
/// so that a broken log cannot flood the launcher's own log.
pub fn report_parse_failure(has_errored: &mut bool) -> (report: bool)
    ensures
        report == !*old(has_errored),
        *final(has_errored),
{
    let report = !*has_errored;
    *has_errored = true;
    report
}

} // verus!
