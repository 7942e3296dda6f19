//! The serial command channel: the grammar of one command line, and the
//! parser that gathers bytes into lines.
//!
//! A line ends at a carriage return or a line feed. It holds an angle
//! from 0 to 180, bare or after one of the words `servo`, `angle`, `s`,
//! `a`.

use crate::command::{angle_of, AngleCommand};
use crate::text::{
    decimal, decode_text, has_prefix, is_digit, lemma_decimal, lemma_parse_decimal,
    lemma_parse_rejects, lemma_trim_is_identity, lemma_trim_skips_space, parse_u8,
    parse_u8_range, span, starts_with, to_chars, trim, trim_range,
};
use vstd::prelude::*;
use vstd::string::*;
use vstd::utf8::{decode_utf8, valid_utf8};

verus! {

/// Number of bytes that the line buffer spans. The last place stays free,
/// so a line holds one byte less.
pub const LINE_CAPACITY: usize = 64;

/// Pause before the next look at an idle serial line, in milliseconds.
pub const SERIAL_IDLE_MS: u64 = 10;

/// A parsed number as an angle: accepted where it is at most 180.
pub open spec fn accepted(value: Option<u8>) -> Option<u8> {
    match value {
        Some(angle) => if angle <= 180 {
            Some(angle)
        } else {
            None
        },
        None => None,
    }
}

/// The angle that `text` holds after `prefix`: what is left once the
/// prefix is taken off and the rest is trimmed. Nothing where `text` does
/// not begin with `prefix`.
pub open spec fn prefixed_angle(text: Seq<char>, prefix: Seq<char>) -> Option<u8> {
    if has_prefix(text, prefix) {
        accepted(parse_u8(trim(text.skip(prefix.len() as int))))
    } else {
        None
    }
}

/// `a` where it holds something, else `b`.
pub open spec fn or_else(a: Option<u8>, b: Option<u8>) -> Option<u8> {
    if a is Some {
        a
    } else {
        b
    }
}

/// The angle that a command line holds: the trimmed line read as a bare
/// number, or else as a number after `servo `, `angle `, `s `, `a `, `s`
/// or `a`, tried in this order.
pub open spec fn command_angle(input: Seq<char>) -> Option<u8> {
    let text = trim(input);
    or_else(
        accepted(parse_u8(text)),
        or_else(
            prefixed_angle(text, "servo "@),
            or_else(
                prefixed_angle(text, "angle "@),
                or_else(
                    prefixed_angle(text, "s "@),
                    or_else(
                        prefixed_angle(text, "a "@),
                        or_else(prefixed_angle(text, "s"@), prefixed_angle(text, "a"@)),
                    ),
                ),
            ),
        ),
    )
}

/// The angle in `start..end` of `chars`, read as a bare number.
pub fn accepted_angle_in(chars: &[char], start: usize, end: usize) -> (r: Option<u8>)
    requires
        start <= end <= chars@.len(),
    ensures
        r == accepted(parse_u8(span(chars@, start as int, end as int))),
{
    match parse_u8_range(chars, start, end) {
        Some(angle) => if angle <= 180 {
            Some(angle)
        } else {
            None
        },
        None => None,
    }
}

/// The angle in `start..end` of `chars`, read as a number after `prefix`.
pub fn prefixed_angle_in(chars: &[char], start: usize, end: usize, prefix: &str) -> (r: Option<u8>)
    requires
        start <= end <= chars@.len(),
    ensures
        r == prefixed_angle(span(chars@, start as int, end as int), prefix@),
{
    if !starts_with(chars, start, end, prefix) {
        return None;
    }
    let skip = prefix.unicode_len();
    assert(span(chars@, start as int, end as int).skip(skip as int) =~= span(
        chars@,
        start + skip,
        end as int,
    ));
    let (from, to) = trim_range(chars, start + skip, end);
    accepted_angle_in(chars, from, to)
}

/// Parses a servo command such as `90`, `servo 90`, `angle 90`, `s90` or
/// `a 90`.
pub fn parse_servo_command(input: &str) -> (r: Option<u8>)
    ensures
        r == command_angle(input@),
        r matches Some(angle) ==> angle <= 180,
{
    let chars = to_chars(input);
    let all = chars.as_slice();
    assert(span(all@, 0, all@.len() as int) =~= input@);
    let (start, end) = trim_range(all, 0, all.len());
    if let Some(angle) = accepted_angle_in(all, start, end) {
        return Some(angle);
    }
    if let Some(angle) = prefixed_angle_in(all, start, end, "servo ") {
        return Some(angle);
    }
    if let Some(angle) = prefixed_angle_in(all, start, end, "angle ") {
        return Some(angle);
    }
    if let Some(angle) = prefixed_angle_in(all, start, end, "s ") {
        return Some(angle);
    }
    if let Some(angle) = prefixed_angle_in(all, start, end, "a ") {
        return Some(angle);
    }
    if let Some(angle) = prefixed_angle_in(all, start, end, "s") {
        return Some(angle);
    }
    prefixed_angle_in(all, start, end, "a")
}

/// Whether `input` is empty or white space only.
pub fn is_blank(input: &str) -> (b: bool)
    ensures
        b == (trim(input@).len() == 0),
{
    let chars = to_chars(input);
    let all = chars.as_slice();
    assert(span(all@, 0, all@.len() as int) =~= input@);
    let (start, end) = trim_range(all, 0, all.len());
    start == end
}

/// What the serial line is seen to do.
#[derive(Clone, Copy, Debug, PartialEq, Eq, Structural)]
pub enum SerialEvent {
    /// No byte is ready.
    Idle,
    /// A byte was read.
    Byte(u8),
    /// The read failed or returned nothing.
    ReadFailed,
}

/// What to do after a serial event.
#[derive(Debug, PartialEq, Eq)]
pub struct SerialStep {
    /// The byte to echo back, if one was read.
    pub echo: Option<u8>,
    /// A line ended: move the terminal to a new line.
    pub line_ended: bool,
    /// The command to publish, if the line held one.
    pub command: Option<AngleCommand>,
    /// The line to report as an unknown command, if it held text but no
    /// command.
    pub unknown: Option<String>,
    /// How long to yield before the next look at the line, in
    /// milliseconds, where nothing is ready.
    pub yield_ms: Option<u64>,
}

/// Whether `byte` ends a line: carriage return or line feed.
pub open spec fn is_terminator(byte: u8) -> bool {
    byte == 0x0d || byte == 0x0a
}

/// The text of a finished line, where it has any: a line that is empty or
/// not well-formed UTF-8 has none.
pub open spec fn line_text(line: Seq<u8>) -> Option<Seq<char>> {
    if line.len() > 0 && valid_utf8(line) {
        Some(decode_utf8(line))
    } else {
        None
    }
}

/// The angle that a finished line commands, if any.
pub open spec fn line_command(line: Seq<u8>) -> Option<u8> {
    match line_text(line) {
        Some(text) => command_angle(text),
        None => None,
    }
}

/// The text that a finished line is reported with as an unknown command:
/// the line itself, where it holds more than white space and no command.
pub open spec fn line_unknown(line: Seq<u8>) -> Option<Seq<char>> {
    match line_text(line) {
        Some(text) => if command_angle(text) is None && trim(text).len() > 0 {
            Some(text)
        } else {
            None
        },
        None => None,
    }
}

/// The buffered line after an event: a terminator empties it, any other
/// byte is added while fewer than 63 are held and dropped otherwise.
pub open spec fn line_after(line: Seq<u8>, event: SerialEvent) -> Seq<u8> {
    match event {
        SerialEvent::Byte(byte) => if is_terminator(byte) {
            Seq::empty()
        } else if line.len() < 63 {
            line.push(byte)
        } else {
            line
        },
        _ => line,
    }
}

/// The line that an event finishes, if it finishes one.
pub open spec fn line_finished(line: Seq<u8>, event: SerialEvent) -> Option<Seq<u8>> {
    match event {
        SerialEvent::Byte(byte) => if is_terminator(byte) {
            Some(line)
        } else {
            None
        },
        _ => None,
    }
}

/// The serial line parser: the bytes of the line that is being received.
#[derive(Debug, PartialEq, Eq)]
pub struct SerialLineParser {
    line: Vec<u8>,
}

impl View for SerialLineParser {
    type V = Seq<u8>;

    closed spec fn view(&self) -> Seq<u8> {
        self.line@
    }
}

impl SerialLineParser {
    /// The line held fits the buffer, with its last place free.
    pub open spec fn wf(&self) -> bool {
        self@.len() < 64
    }

    /// A parser with an empty line.
    pub fn new() -> (parser: Self)
        ensures
            parser@ == Seq::<u8>::empty(),
            parser.wf(),
    {
        SerialLineParser { line: Vec::new() }
    }

    /// Number of bytes held of the line that is being received.
    pub fn buffered(&self) -> (n: usize)
        ensures
            n == self@.len(),
    {
        self.line.len()
    }

    /// Takes one event of the serial line and returns what to do. Every
    /// byte read is echoed. A terminator ends the line: the line is
    /// parsed, the buffer is emptied whatever the line held, and the next
    /// line starts afresh. Where nothing is ready the caller is told to
    /// yield.
    pub fn step(&mut self, event: SerialEvent) -> (step: SerialStep)
        ensures
            final(self)@ == line_after(old(self)@, event),
            old(self).wf() ==> final(self).wf(),
            step.echo == match event {
                SerialEvent::Byte(byte) => Some(byte),
                _ => None,
            },
            step.line_ended == line_finished(old(self)@, event) is Some,
            step.yield_ms == match event {
                SerialEvent::Idle => Some(10u64),
                _ => None,
            },
            match line_finished(old(self)@, event) {
                Some(line) => {
                    &&& angle_of(step.command) == match line_command(line) {
                        Some(angle) => Some(angle as int),
                        None => None,
                    }
                    &&& match step.unknown {
                        Some(text) => line_unknown(line) == Some(text@),
                        None => line_unknown(line) is None,
                    }
                },
                None => step.command is None && step.unknown is None,
            },
    {
        let mut step = SerialStep {
            echo: None,
            line_ended: false,
            command: None,
            unknown: None,
            yield_ms: None,
        };
        match event {
            SerialEvent::Idle => {
                step.yield_ms = Some(SERIAL_IDLE_MS);
            },
            SerialEvent::ReadFailed => {},
            SerialEvent::Byte(byte) => {
                step.echo = Some(byte);
                if byte == 0x0d || byte == 0x0a {
                    step.line_ended = true;
                    if self.line.len() > 0 {
                        if let Some(text) = decode_text(self.line.as_slice()) {
                            match parse_servo_command(text) {
                                Some(angle) => {
                                    step.command = AngleCommand::new(angle);
                                },
                                None => {
                                    if !is_blank(text) {
                                        step.unknown = Some(String::from_str(text));
                                    }
                                },
                            }
                        }
                    }
                    self.line.clear();
                } else if self.line.len() < LINE_CAPACITY - 1 {
                    self.line.push(byte);
                }
            },
        }
        step
    }
}

/// Whatever was received before it, a terminator leaves the parser as new:
/// what follows is parsed as if nothing had come before, also after a line
/// that was too long for the buffer.
pub proof fn lemma_terminator_resets(line: Seq<u8>, byte: u8)
    requires
        is_terminator(byte),
    ensures
        line_after(line, SerialEvent::Byte(byte)) == Seq::<u8>::empty(),
{
}

/// The buffer never grows beyond 63 bytes, and bytes that arrive while it
/// is full change nothing.
pub proof fn lemma_line_is_bounded(line: Seq<u8>, event: SerialEvent)
    requires
        line.len() <= 63,
    ensures
        line_after(line, event).len() <= 63,
        line.len() == 63 && line_finished(line, event) is None ==> line_after(line, event) == line,
{
}

/// Whether `prefix` is one of the six words that may stand before the
/// angle.
pub open spec fn is_command_prefix(prefix: Seq<char>) -> bool {
    ||| prefix == "servo "@
    ||| prefix == "angle "@
    ||| prefix == "s "@
    ||| prefix == "a "@
    ||| prefix == "s"@
    ||| prefix == "a"@
}

/// A line that begins with `servo ` or `angle ` is read through that
/// word alone: it does not begin with the letter and a blank, and what
/// follows its first letter is no number.
proof fn lemma_long_word_hides_letter(text: Seq<char>)
    ensures
        has_prefix(text, "servo "@) ==> prefixed_angle(text, "s"@) is None && !has_prefix(
            text,
            "s "@,
        ),
        has_prefix(text, "angle "@) ==> prefixed_angle(text, "a"@) is None && !has_prefix(
            text,
            "a "@,
        ),
{
    reveal_strlit("servo ");
    reveal_strlit("angle ");
    reveal_strlit("s ");
    reveal_strlit("a ");
    reveal_strlit("s");
    reveal_strlit("a");
    if has_prefix(text, "servo "@) {
        assert(text.subrange(0, 6)[1] == 'e');
        assert(text.subrange(0, 6)[0] == 's');
        if has_prefix(text, "s "@) {
            assert(text.subrange(0, 2)[1] == ' ');
        }
        assert(text.subrange(0, 1) =~= "s"@);
        lemma_parse_rejects(text.skip(1));
    }
    if has_prefix(text, "angle "@) {
        assert(text.subrange(0, 6)[1] == 'n');
        assert(text.subrange(0, 6)[0] == 'a');
        if has_prefix(text, "a "@) {
            assert(text.subrange(0, 2)[1] == ' ');
        }
        assert(text.subrange(0, 1) =~= "a"@);
        lemma_parse_rejects(text.skip(1));
    }
}

/// The letter alone and the letter with a blank after it read the same
/// angle from a line that begins with both.
proof fn lemma_blank_after_letter(text: Seq<char>)
    ensures
        has_prefix(text, "s "@) ==> prefixed_angle(text, "s"@) == prefixed_angle(text, "s "@),
        has_prefix(text, "a "@) ==> prefixed_angle(text, "a"@) == prefixed_angle(text, "a "@),
{
    reveal_strlit("s ");
    reveal_strlit("a ");
    reveal_strlit("s");
    reveal_strlit("a");
    if has_prefix(text, "s "@) {
        assert(text.subrange(0, 2)[0] == 's' && text.subrange(0, 2)[1] == ' ');
        assert(text.subrange(0, 1) =~= "s"@);
        assert(text.skip(1).skip(1) =~= text.skip(2));
        lemma_trim_skips_space(text.skip(1));
    }
    if has_prefix(text, "a "@) {
        assert(text.subrange(0, 2)[0] == 'a' && text.subrange(0, 2)[1] == ' ');
        assert(text.subrange(0, 1) =~= "a"@);
        assert(text.skip(1).skip(1) =~= text.skip(2));
        lemma_trim_skips_space(text.skip(1));
    }
}

/// A line that begins with one of the six words is no bare number, and it
/// begins with words of one letter only: `s` or `a`.
proof fn lemma_prefix_letters(text: Seq<char>)
    ensures
        has_prefix(text, "servo "@) || has_prefix(text, "s "@) || has_prefix(text, "s"@) ==> {
            &&& text.len() > 0 && text[0] == 's'
            &&& parse_u8(text) is None
            &&& !has_prefix(text, "angle "@) && !has_prefix(text, "a "@) && !has_prefix(
                text,
                "a"@,
            )
        },
        has_prefix(text, "angle "@) || has_prefix(text, "a "@) || has_prefix(text, "a"@) ==> {
            &&& text.len() > 0 && text[0] == 'a'
            &&& parse_u8(text) is None
            &&& !has_prefix(text, "servo "@) && !has_prefix(text, "s "@) && !has_prefix(
                text,
                "s"@,
            )
        },
{
    reveal_strlit("servo ");
    reveal_strlit("angle ");
    reveal_strlit("s ");
    reveal_strlit("a ");
    reveal_strlit("s");
    reveal_strlit("a");
    if has_prefix(text, "servo "@) {
        assert(text.subrange(0, 6)[0] == 's');
    }
    if has_prefix(text, "s "@) {
        assert(text.subrange(0, 2)[0] == 's');
    }
    if has_prefix(text, "s"@) {
        assert(text.subrange(0, 1)[0] == 's');
    }
    if has_prefix(text, "angle "@) {
        assert(text.subrange(0, 6)[0] == 'a');
    }
    if has_prefix(text, "a "@) {
        assert(text.subrange(0, 2)[0] == 'a');
    }
    if has_prefix(text, "a"@) {
        assert(text.subrange(0, 1)[0] == 'a');
    }
    if text.len() > 0 && (text[0] == 's' || text[0] == 'a') {
        lemma_parse_rejects(text);
    }
}

/// The order in which the prefixes are tried does not matter: where the
/// trimmed line, with any one of the six prefixes taken off, holds an
/// accepted angle, that angle is the command.
pub proof fn lemma_any_prefix_suffices(input: Seq<char>, prefix: Seq<char>)
    requires
        is_command_prefix(prefix),
        prefixed_angle(trim(input), prefix) is Some,
    ensures
        command_angle(input) == prefixed_angle(trim(input), prefix),
{
    let text = trim(input);
    lemma_prefix_letters(text);
    lemma_long_word_hides_letter(text);
    lemma_blank_after_letter(text);
}

/// Every accepted format is accepted: an angle from 0 to 180 written in
/// base ten, bare or after any one of the six prefixes, is the command.
pub proof fn lemma_command_formats(angle: nat, prefix: Seq<char>)
    requires
        angle <= 180,
        is_command_prefix(prefix) || prefix.len() == 0,
    ensures
        command_angle(prefix + decimal(angle)) == Some(angle as u8),
{
    reveal_strlit("servo ");
    reveal_strlit("angle ");
    reveal_strlit("s ");
    reveal_strlit("a ");
    reveal_strlit("s");
    reveal_strlit("a");
    let digits = decimal(angle);
    lemma_decimal(angle);
    lemma_parse_decimal(angle);
    assert(is_digit(digits[0]) && is_digit(digits.last()));
    lemma_trim_is_identity(digits);
    let line = prefix + digits;
    assert(line.last() == digits.last());
    lemma_trim_is_identity(line);
    if prefix.len() == 0 {
        assert(line =~= digits);
    } else {
        assert(line.subrange(0, prefix.len() as int) =~= prefix);
        assert(line.skip(prefix.len() as int) =~= digits);
        lemma_any_prefix_suffices(line, prefix);
    }
}

} // verus!
