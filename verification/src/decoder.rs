//! Decoding of raw terminal input into key events.
//!
//! The decoding itself is termion's. Its parser aborts on some input: on a
//! mouse report or a numbered sequence that is cut short or holds a field
//! that is no number, and on a character beyond ASCII that is cut short.
//! `decodable` says which bytes are safe to hand to it; the control loop
//! takes all others as malformed. The numbers it accepts are plain digits;
//! a sign before them is not accepted, though the parser would take a `+`.

use vstd::prelude::*;
use vstd::slice::{slice_subrange, slice_to_vec};
use vstd::utf8::valid_utf8;
use crate::keys::KeyEvent;
use crate::text::text_of;

verus! {

/// The byte that opens an escape sequence.
pub const ESC: u8 = 0x1B;

/// `[`, which after the escape byte opens a control sequence.
pub const BRACKET: u8 = 0x5B;

/// `<`, which opens an xterm mouse report.
pub const ANGLE: u8 = 0x3C;

/// `;`, which parts the fields of a control sequence.
pub const SEMICOLON: u8 = 0x3B;

/// `M`, which opens an X10 mouse report and ends the other mouse reports.
pub const UPPER_M: u8 = 0x4D;

/// `m`, which ends an xterm mouse report.
pub const LOWER_M: u8 = 0x6D;

/// `~`, which ends the sequence of a special key.
pub const TILDE: u8 = 0x7E;

/// The digit `0`; the other digits follow it.
pub const ZERO: u8 = 0x30;

/// The bytes that close a stretch of a control sequence.
#[derive(Copy, Clone, PartialEq, Eq, Structural, Debug)]
pub enum Mark {
    /// `;`, which parts the fields of a sequence.
    Separator,
    /// A byte from 64 to 126, which ends a numbered sequence.
    Final,
    /// `M` or `m`, which ends an xterm mouse report.
    ReportEnd,
}

impl Mark {
    /// Whether `byte` is a mark of this kind.
    pub open spec fn marks(self, byte: u8) -> bool {
        match self {
            Mark::Separator => byte == SEMICOLON,
            Mark::Final => 64 <= byte <= 126,
            Mark::ReportEnd => byte == UPPER_M || byte == LOWER_M,
        }
    }

    /// Computes `marks`.
    pub fn is_mark(self, byte: u8) -> (yes: bool)
        ensures
            yes == self.marks(byte),
    {
        match self {
            Mark::Separator => byte == SEMICOLON,
            Mark::Final => 64 <= byte && byte <= 126,
            Mark::ReportEnd => byte == UPPER_M || byte == LOWER_M,
        }
    }
}

/// The number of bytes of `s` from index `from` on that come before the
/// next mark, or before the end where no mark follows.
pub open spec fn stretch(s: Seq<u8>, from: int, mark: Mark) -> nat
    decreases s.len() - from,
{
    if 0 <= from < s.len() && !mark.marks(s[from]) {
        1 + stretch(s, from + 1, mark)
    } else {
        0
    }
}

/// Finds the next mark at or after `from`: the index of the mark, or the
/// length of `s` where there is none.
pub fn find_mark(s: &[u8], from: usize, mark: Mark) -> (at: usize)
    requires
        from <= s@.len(),
    ensures
        at == from + stretch(s@, from as int, mark),
        from <= at <= s@.len(),
{
    let mut at: usize = from;
    while at < s.len() && !mark.is_mark(s[at])
        invariant
            from <= at <= s@.len(),
            from + stretch(s@, from as int, mark) == at + stretch(s@, at as int, mark),
        decreases s@.len() - at,
    {
        at = at + 1;
    }
    at
}

/// Whether `byte` is a decimal digit.
pub open spec fn is_digit(byte: u8) -> bool {
    ZERO <= byte <= ZERO + 9
}

/// The number that the digits of `field` spell, read in base ten.
pub open spec fn number(field: Seq<u8>) -> int
    decreases field.len(),
{
    if field.len() == 0 {
        0
    } else {
        10 * number(field.drop_last()) + (field.last() - ZERO)
    }
}

/// Whether `field` is one or more digits that spell a number up to `max`.
pub open spec fn is_number(field: Seq<u8>, max: int) -> bool {
    &&& field.len() >= 1
    &&& forall|i: int| 0 <= i < field.len() ==> is_digit(#[trigger] field[i])
    &&& number(field) <= max
}

/// Among digits, a longer field spells no smaller a number than its start.
pub proof fn lemma_number_grows(field: Seq<u8>, k: int)
    requires
        0 <= k <= field.len(),
        forall|i: int| 0 <= i < field.len() ==> is_digit(#[trigger] field[i]),
    ensures
        0 <= number(field.take(k)) <= number(field),
    decreases field.len(),
{
    if k == field.len() && k > 0 {
        assert(field.take(k) =~= field);
        lemma_number_grows(field.drop_last(), k - 1);
    } else if k < field.len() {
        assert(field.drop_last().take(k) =~= field.take(k));
        lemma_number_grows(field.drop_last(), k);
    }
}

/// Tests whether the bytes of `s` from `from` up to `to` are a number up
/// to `max`.
pub fn field_is_number(s: &[u8], from: usize, to: usize, max: u32) -> (yes: bool)
    requires
        from <= to <= s@.len(),
        max <= 0xFFFF,
    ensures
        yes == is_number(s@.subrange(from as int, to as int), max as int),
{
    let ghost field = s@.subrange(from as int, to as int);
    if from == to {
        return false;
    }
    let mut value: u32 = 0;
    let mut at: usize = from;
    while at < to
        invariant
            from <= at <= to <= s@.len(),
            max <= 0xFFFF,
            field == s@.subrange(from as int, to as int),
            forall|i: int| 0 <= i < at - from ==> is_digit(#[trigger] field[i]),
            value == number(field.take(at - from)),
            value <= max,
        decreases to - at,
    {
        let byte: u8 = s[at];
        assert(byte == field[at - from]);
        if byte < ZERO || byte > ZERO + 9 {
            return false;
        }
        let next: u32 = value * 10 + (byte - ZERO) as u32;
        proof {
            let longer = field.take(at - from + 1);
            assert(longer.drop_last() =~= field.take(at - from));
        }
        if next > max {
            proof {
                if forall|i: int| 0 <= i < field.len() ==> is_digit(#[trigger] field[i]) {
                    lemma_number_grows(field, at - from + 1);
                }
            }
            return false;
        }
        value = next;
        at = at + 1;
    }
    proof {
        assert(field.take(at - from) =~= field);
    }
    true
}

/// Whether the first `count` fields of `s`, counted from the field that
/// starts at `from`, exist and are numbers up to `max`. Fields are parted
/// by `;`.
pub open spec fn leading_numbers(s: Seq<u8>, from: int, count: nat, max: int) -> bool
    decreases count,
{
    let end = from + stretch(s, from, Mark::Separator);
    count == 0 || (is_number(s.subrange(from, end), max) && (count == 1 || (end < s.len()
        && leading_numbers(s, end + 1, (count - 1) as nat, max))))
}

/// Whether every field of `s`, from the field that starts at `from` on, is
/// a number up to `max`. Fields are parted by `;`.
pub open spec fn all_numbers(s: Seq<u8>, from: int, max: int) -> bool
    decreases s.len() - from,
{
    let end = from + stretch(s, from, Mark::Separator);
    is_number(s.subrange(from, end), max) && (end < s.len() ==> all_numbers(s, end + 1, max))
}

/// Tests whether `s` starts with `count` fields that are numbers up to
/// `max`.
pub fn starts_with_numbers(s: &[u8], count: usize, max: u32) -> (yes: bool)
    requires
        max <= 0xFFFF,
    ensures
        yes == leading_numbers(s@, 0, count as nat, max as int),
{
    let mut from: usize = 0;
    let mut left: usize = count;
    while left > 0
        invariant
            from <= s@.len(),
            max <= 0xFFFF,
            leading_numbers(s@, 0, count as nat, max as int) == leading_numbers(
                s@,
                from as int,
                left as nat,
                max as int,
            ),
        decreases left,
    {
        let end: usize = find_mark(s, from, Mark::Separator);
        if !field_is_number(s, from, end, max) {
            return false;
        }
        if left == 1 {
            return true;
        }
        if end == s.len() {
            return false;
        }
        from = end + 1;
        left = left - 1;
    }
    true
}

/// Tests whether `s` is made of fields that are all numbers up to `max`.
pub fn only_numbers(s: &[u8], max: u32) -> (yes: bool)
    requires
        max <= 0xFFFF,
    ensures
        yes == all_numbers(s@, 0, max as int),
{
    let mut from: usize = 0;
    loop
        invariant
            from <= s@.len(),
            max <= 0xFFFF,
            all_numbers(s@, 0, max as int) == all_numbers(s@, from as int, max as int),
        decreases s@.len() - from,
    {
        let end: usize = find_mark(s, from, Mark::Separator);
        if !field_is_number(s, from, end, max) {
            return false;
        }
        if end == s.len() {
            return true;
        }
        from = end + 1;
    }
}

/// Whether a character that starts with the byte `first` is settled by the
/// bytes of `tail`: `first` is ASCII, or one of the first three bytes of
/// `tail` completes a well-formed character, or `tail` holds three bytes to
/// show that none does.
pub open spec fn char_completes(first: u8, tail: Seq<u8>) -> bool {
    ||| first < 0x80
    ||| tail.len() >= 3
    ||| (tail.len() >= 1 && valid_utf8(seq![first] + tail.take(1)))
    ||| (tail.len() >= 2 && valid_utf8(seq![first] + tail.take(2)))
}

/// Computes `char_completes`.
pub fn completes_char(first: u8, tail: &[u8]) -> (yes: bool)
    ensures
        yes == char_completes(first, tail@),
{
    if first < 0x80 || tail.len() >= 3 {
        return true;
    }
    if tail.len() >= 1 {
        let mut probe: Vec<u8> = Vec::new();
        probe.push(first);
        probe.push(tail[0]);
        assert(probe@ =~= seq![first] + tail@.take(1));
        if text_of(probe).is_some() {
            return true;
        }
    }
    if tail.len() >= 2 {
        let mut probe: Vec<u8> = Vec::new();
        probe.push(first);
        probe.push(tail[0]);
        probe.push(tail[1]);
        assert(probe@ =~= seq![first] + tail@.take(2));
        if text_of(probe).is_some() {
            return true;
        }
    }
    false
}

/// Whether an xterm mouse report, `ESC [ <` and what follows in `rest`
/// after the escape byte, is complete and well-formed: an `M` or `m` ends
/// it, and what stands between is text that starts with three numbers of
/// up to 16 bits.
pub open spec fn report_well_formed(rest: Seq<u8>) -> bool {
    let end = 2 + stretch(rest, 2, Mark::ReportEnd) as int;
    &&& end < rest.len()
    &&& valid_utf8(rest.subrange(2, end))
    &&& leading_numbers(rest.subrange(2, end), 0, 3, 0xFFFF)
}

/// Whether a numbered sequence, `ESC [`, a digit and what follows in
/// `rest` after the escape byte, is complete and well-formed: a byte from
/// 64 to 126 ends it; before a closing `~` stand numbers of up to 8 bits,
/// before a closing `M` three or more numbers of up to 16 bits.
pub open spec fn numbered_well_formed(rest: Seq<u8>) -> bool {
    let end = 2 + stretch(rest, 2, Mark::Final) as int;
    let fields = rest.subrange(1, end);
    &&& end < rest.len()
    &&& (rest[end] == TILDE ==> all_numbers(fields, 0, 0xFF))
    &&& (rest[end] == UPPER_M ==> all_numbers(fields, 0, 0xFFFF) && leading_numbers(
        fields,
        0,
        3,
        0xFFFF,
    ))
}

/// Whether a control sequence, `ESC [` and what follows in `rest` after
/// the escape byte, is one that the decoder takes: an X10 mouse report has
/// its three bytes, the first of them outside 128 to 159; an xterm mouse
/// report and a numbered sequence are complete and well-formed; any other
/// sequence is taken as it is.
pub open spec fn control_sequence_sound(rest: Seq<u8>) -> bool {
    if rest.len() < 2 {
        true
    } else if rest[1] == UPPER_M {
        rest.len() >= 5 && !(128 <= rest[2] <= 159)
    } else if rest[1] == ANGLE {
        report_well_formed(rest)
    } else if is_digit(rest[1]) {
        numbered_well_formed(rest)
    } else {
        true
    }
}

/// Whether the event that starts with the byte `item` and goes on in
/// `rest` is one that the decoder takes without aborting: a character is
/// settled by the bytes at hand, alone or after the escape byte, and a
/// control sequence is sound. The decoder may still refuse such bytes, but
/// it returns.
pub open spec fn decodable(item: u8, rest: Seq<u8>) -> bool {
    if item != ESC {
        char_completes(item, rest)
    } else if rest.len() == 0 {
        true
    } else if rest[0] == BRACKET {
        control_sequence_sound(rest)
    } else {
        char_completes(rest[0], rest.skip(1))
    }
}

/// Computes `report_well_formed`.
fn check_report(rest: &[u8]) -> (yes: bool)
    requires
        rest@.len() >= 2,
    ensures
        yes == report_well_formed(rest@),
{
    let end: usize = find_mark(rest, 2, Mark::ReportEnd);
    if end == rest.len() {
        return false;
    }
    let body = slice_subrange(rest, 2, end);
    starts_with_numbers(body, 3, 0xFFFF) && text_of(slice_to_vec(body)).is_some()
}

/// Computes `numbered_well_formed`.
fn check_numbered(rest: &[u8]) -> (yes: bool)
    requires
        rest@.len() >= 2,
    ensures
        yes == numbered_well_formed(rest@),
{
    let end: usize = find_mark(rest, 2, Mark::Final);
    if end == rest.len() {
        return false;
    }
    let fields = slice_subrange(rest, 1, end);
    if rest[end] == TILDE {
        only_numbers(fields, 0xFF)
    } else if rest[end] == UPPER_M {
        only_numbers(fields, 0xFFFF) && starts_with_numbers(fields, 3, 0xFFFF)
    } else {
        true
    }
}

/// Computes `decodable`.
pub fn is_decodable(item: u8, rest: &[u8]) -> (yes: bool)
    ensures
        yes == decodable(item, rest@),
{
    if item != ESC {
        completes_char(item, rest)
    } else if rest.len() == 0 {
        true
    } else if rest[0] != BRACKET {
        completes_char(rest[0], slice_subrange(rest, 1, rest.len()))
    } else if rest.len() < 2 {
        true
    } else if rest[1] == UPPER_M {
        rest.len() >= 5 && !(128 <= rest[2] && rest[2] <= 159)
    } else if rest[1] == ANGLE {
        check_report(rest)
    } else if ZERO <= rest[1] && rest[1] <= ZERO + 9 {
        check_numbered(rest)
    } else {
        true
    }
}

/// Whether `byte` is a printable ASCII character or the space.
pub open spec fn is_plain(byte: u8) -> bool {
    0x20 <= byte <= 0x7E
}

/// What termion's `parse_event` makes of the event that starts with the
/// byte `item` and goes on in `rest`: the event, or `None` where the bytes
/// are refused, and the number of bytes of `rest` that are left unread.
pub uninterp spec fn parsed_event(item: u8, rest: Seq<u8>) -> (Option<KeyEvent>, nat);

/// Decodes one event through `termion::event::parse_event`, which is given
/// `item` and an iterator over `rest`.
///
/// Trusted, not proved: on bytes that are `decodable` the call returns, and
/// what it returns depends on the bytes alone; the iterator is never
/// advanced past its end; a printable ASCII byte is the character key of
/// that byte and leaves the iterator untouched. A character key is handed
/// on with its character, every other key as `OtherKey`, every other event
/// as `NotKey`, an error as `None`.
#[verifier::external_body]
fn parse_event(item: u8, rest: &[u8]) -> (parsed: (Option<KeyEvent>, usize))
    requires
        decodable(item, rest@),
    ensures
        parsed.0 == parsed_event(item, rest@).0,
        parsed.1 == parsed_event(item, rest@).1,
        parsed.1 <= rest@.len(),
        is_plain(item) ==> parsed.0 == Some(KeyEvent::Char(item as char)) && parsed.1
            == rest@.len(),
{
    let mut bytes = rest.iter().map(|byte| Ok(*byte));
    let event = match termion::event::parse_event(Ok(item), &mut bytes) {
        Ok(termion::event::Event::Key(termion::event::Key::Char(c))) => Some(KeyEvent::Char(c)),
        Ok(termion::event::Event::Key(_)) => Some(KeyEvent::OtherKey),
        Ok(_) => Some(KeyEvent::NotKey),
        Err(_) => None,
    };
    (event, bytes.len())
}

/// The first event of a non-empty `input` and the number of bytes that
/// encode it, or `None` where the input does not start with an event: its
/// start is not decodable, or the decoder refuses it.
pub open spec fn first_event(input: Seq<u8>) -> Option<(KeyEvent, int)> {
    let rest = input.skip(1);
    let parsed = parsed_event(input[0], rest);
    if decodable(input[0], rest) && parsed.0 is Some && parsed.1 <= rest.len() {
        Some((parsed.0->0, input.len() - parsed.1))
    } else {
        None
    }
}

/// What a batch of input decodes to.
pub struct Decoding {
    /// The events, in the order of their bytes, up to the first stretch of
    /// bytes that is no event.
    pub events: Seq<KeyEvent>,
    /// Whether the whole input was events.
    pub complete: bool,
}

/// The events of `input`, decoded one after the other from its start.
pub open spec fn decoded(input: Seq<u8>) -> Decoding
    decreases input.len(),
{
    if input.len() == 0 {
        Decoding { events: Seq::empty(), complete: true }
    } else {
        match first_event(input) {
            Some((event, used)) => {
                let later = decoded(input.skip(used));
                Decoding { events: seq![event] + later.events, complete: later.complete }
            },
            None => Decoding { events: Seq::empty(), complete: false },
        }
    }
}

/// The keys that plain text types: one character key for each byte.
pub open spec fn typed(input: Seq<u8>) -> Seq<KeyEvent> {
    Seq::new(input.len(), |i: int| KeyEvent::Char(input[i] as char))
}

/// Whether every byte of `input` is printable ASCII.
pub open spec fn all_plain(input: Seq<u8>) -> bool {
    forall|i: int| 0 <= i < input.len() ==> is_plain(#[trigger] input[i])
}

/// Decodes the first event of `input`: the event and the number of bytes
/// that encode it. Where the input starts with a printable ASCII byte, the
/// event is the character key of that byte.
pub fn next_event(input: &[u8]) -> (found: Option<(KeyEvent, usize)>)
    requires
        input@.len() > 0,
    ensures
        found matches Some((event, used)) ==> first_event(input@) == Some((event, used as int))
            && 1 <= used <= input@.len(),
        found is None ==> first_event(input@) is None,
        is_plain(input@[0]) ==> found == Some((KeyEvent::Char(input@[0] as char), 1usize)),
{
    let item: u8 = input[0];
    let rest = slice_subrange(input, 1, input.len());
    if !is_decodable(item, rest) {
        return None;
    }
    let (event, left) = parse_event(item, rest);
    match event {
        Some(event) => Some((event, input.len() - left)),
        None => None,
    }
}

} // verus!
