//! The frame that shows the session to the operator.
//!
//! The escape sequences are termion's; the frame is put together here.

use vstd::prelude::*;
use crate::direction::MoveDirection;

verus! {

/// The line that tells the operator how to leave.
pub const HELP: &'static str = "Press ~ to exit";

/// The character of a decimal digit.
pub open spec fn digit(d: nat) -> char {
    (0x30 + d) as char
}

/// The decimal numeral of `n`, without sign or padding.
pub open spec fn decimal(n: nat) -> Seq<char>
    decreases n,
{
    if n < 10 {
        seq![digit(n)]
    } else {
        decimal(n / 10).push(digit(n % 10))
    }
}

/// The sequence that clears the whole screen.
pub open spec fn clear_sequence() -> Seq<char> {
    "\x1B[2J"@
}

/// The sequence that moves the cursor to a column and a row, both counted
/// from 1.
pub open spec fn goto_sequence(column: u16, row: u16) -> Seq<char> {
    "\x1B["@ + decimal(row as nat) + ";"@ + decimal(column as nat) + "H"@
}

/// The sequence that switches to bold text.
pub open spec fn bold_sequence() -> Seq<char> {
    "\x1B[1m"@
}

/// The sequence that switches to a white foreground.
pub open spec fn white_sequence() -> Seq<char> {
    "\x1B[38;5;7m"@
}

/// The sequence that switches back to the terminal's own background.
pub open spec fn plain_background_sequence() -> Seq<char> {
    "\x1B[49m"@
}

/// One line of the frame: `text` at the start of `row`, bold and white on
/// the terminal's own background.
pub open spec fn line(row: u16, text: Seq<char>) -> Seq<char> {
    goto_sequence(1, row) + bold_sequence() + white_sequence() + plain_background_sequence()
        + text
}

/// The whole frame: the screen is cleared, the first line tells how to
/// leave, the second names the direction in force.
pub open spec fn frame(direction: MoveDirection) -> Seq<char> {
    clear_sequence() + line(1, HELP@) + line(2, direction.label())
}

/// Formats `termion::clear::All`.
///
/// Trusted, not proved: its `Display` writes the sequence `ESC [ 2 J`.
#[verifier::external_body]
fn clear_all() -> (text: String)
    ensures
        text@ == clear_sequence(),
{
    format!("{}", termion::clear::All)
}

/// Formats `termion::cursor::Goto` of a column and a row.
///
/// Trusted, not proved: its `Display` writes `ESC [`, the row, `;`, the
/// column and `H`, both numbers in decimal. Where both are 0 it may
/// panic, so they are asked to be 1 or more.
#[verifier::external_body]
fn goto(column: u16, row: u16) -> (text: String)
    requires
        column >= 1,
        row >= 1,
    ensures
        text@ == goto_sequence(column, row),
{
    format!("{}", termion::cursor::Goto(column, row))
}

/// Formats `termion::style::Bold`.
///
/// Trusted, not proved: its `Display` writes the sequence `ESC [ 1 m`.
#[verifier::external_body]
fn bold() -> (text: String)
    ensures
        text@ == bold_sequence(),
{
    format!("{}", termion::style::Bold)
}

/// Formats `termion::color::Fg` of `termion::color::White`.
///
/// Trusted, not proved: its `Display` writes the sequence
/// `ESC [ 3 8 ; 5 ; 7 m`.
#[verifier::external_body]
fn white_foreground() -> (text: String)
    ensures
        text@ == white_sequence(),
{
    format!("{}", termion::color::Fg(termion::color::White))
}

/// Formats `termion::color::Bg` of `termion::color::Reset`.
///
/// Trusted, not proved: its `Display` writes the sequence `ESC [ 4 9 m`.
#[verifier::external_body]
fn plain_background() -> (text: String)
    ensures
        text@ == plain_background_sequence(),
{
    format!("{}", termion::color::Bg(termion::color::Reset))
}

/// Adds one line to a frame.
fn draw_line(frame: &mut String, row: u16, text: &str)
    requires
        row >= 1,
    ensures
        final(frame)@ == old(frame)@ + line(row, text@),
{
    frame.append(goto(1, row).as_str());
    frame.append(bold().as_str());
    frame.append(white_foreground().as_str());
    frame.append(plain_background().as_str());
    frame.append(text);
}

/// Draws the frame for a direction.
pub fn draw(direction: MoveDirection) -> (text: String)
    ensures
        text@ == frame(direction),
{
    let mut text = clear_all();
    draw_line(&mut text, 1, HELP);
    draw_line(&mut text, 2, direction.name());
    text
}

} // verus!
