//! The session of the remote control and its control loop.

use vstd::prelude::*;
use vstd::slice::slice_subrange;
use crate::decoder::{all_plain, decoded, next_event, typed};
use crate::direction::MoveDirection;
use crate::keys::{command_of, interpret, key_of, Command, KeyEvent, EXIT_KEY};
use crate::screen::{draw, frame};

verus! {

/// The state of a session, as the contracts speak of it.
pub struct Session {
    /// Host of the remote device.
    pub host: Seq<char>,
    /// Port of the remote device.
    pub port: u16,
    /// True until the exit key is hit.
    pub running: bool,
    /// True while a redraw is owed.
    pub dirty: bool,
    /// The direction in force.
    pub direction: MoveDirection,
    /// The latest message that came in from the device, if any came.
    pub last_message: Option<Seq<char>>,
}

impl Session {
    /// The session as it starts: running, stopped, nothing received, and a
    /// first redraw owed.
    pub open spec fn initial(host: Seq<char>, port: u16) -> Session {
        Session {
            host,
            port,
            running: true,
            dirty: true,
            direction: MoveDirection::Stop,
            last_message: None,
        }
    }

    /// The session after one key event. A steering key toggles its
    /// direction and asks for a redraw, the exit key ends the session,
    /// anything else changes nothing. A session that has ended takes no
    /// event.
    pub open spec fn press(self, event: KeyEvent) -> Session {
        if !self.running {
            self
        } else {
            match command_of(event) {
                Command::Move(pressed) => Session {
                    direction: self.direction.toggle(pressed),
                    dirty: true,
                    ..self
                },
                Command::Exit => Session { running: false, ..self },
                Command::Ignore => self,
            }
        }
    }

    /// The byte that goes out to the device on a key event: the code of
    /// the new direction where the event changes the direction, nothing
    /// otherwise.
    pub open spec fn announced(self, event: KeyEvent) -> Option<u8> {
        if self.running && command_of(event) is Move {
            Some(self.press(event).direction.code())
        } else {
            None
        }
    }

    /// The session after a sequence of key events, taken in order.
    pub open spec fn after(self, events: Seq<KeyEvent>) -> Session
        decreases events.len(),
    {
        if events.len() == 0 {
            self
        } else {
            self.press(events[0]).after(events.skip(1))
        }
    }

    /// The bytes that go out to the device over a sequence of key events,
    /// one datagram each, in order.
    pub open spec fn sent(self, events: Seq<KeyEvent>) -> Seq<u8>
        decreases events.len(),
    {
        if events.len() == 0 {
            Seq::empty()
        } else {
            let later = self.press(events[0]).sent(events.skip(1));
            match self.announced(events[0]) {
                Some(code) => seq![code] + later,
                None => later,
            }
        }
    }

    /// The session after a redraw: nothing is owed any more.
    pub open spec fn presented(self) -> Session {
        Session { dirty: false, ..self }
    }

    /// The session after the messages that came in from the device were
    /// taken: the latest of them is kept.
    pub open spec fn informed(self, messages: Seq<Seq<char>>) -> Session {
        if messages.len() == 0 {
            self
        } else {
            Session { last_message: Some(messages.last()), ..self }
        }
    }
}

/// Taking a first event and then the others is taking them all.
pub proof fn lemma_first_then_rest(s: Session, first: KeyEvent, others: Seq<KeyEvent>)
    ensures
        s.after(seq![first] + others) == s.press(first).after(others),
        s.sent(seq![first] + others) == match s.announced(first) {
            Some(code) => seq![code] + s.press(first).sent(others),
            None => s.press(first).sent(others),
        },
{
    let all = seq![first] + others;
    assert(all.skip(1) =~= others);
}

/// A session that has ended stays as it is and sends nothing, whatever
/// comes in.
pub proof fn lemma_ended(s: Session, events: Seq<KeyEvent>)
    requires
        !s.running,
    ensures
        s.after(events) == s,
        s.sent(events) == Seq::<u8>::empty(),
    decreases events.len(),
{
    if events.len() > 0 {
        lemma_ended(s, events.skip(1));
    }
}

/// From a running session that is stopped, the key of a direction leads to
/// that direction and sends its code; the same key again leads back to
/// `Stop` and sends 0. Both times a redraw is owed.
pub proof fn law_toggle(s: Session, direction: MoveDirection, key: char)
    requires
        s.running,
        s.direction == MoveDirection::Stop,
        key_of(direction) == Some(key),
    ensures
        s.press(KeyEvent::Char(key)).direction == direction,
        s.press(KeyEvent::Char(key)).dirty,
        s.announced(KeyEvent::Char(key)) == Some(direction.code()),
        s.press(KeyEvent::Char(key)).press(KeyEvent::Char(key)).direction == MoveDirection::Stop,
        s.press(KeyEvent::Char(key)).press(KeyEvent::Char(key)).dirty,
        s.press(KeyEvent::Char(key)).announced(KeyEvent::Char(key)) == Some(0u8),
{
}

/// In a running session, the key of one direction and then the key of
/// another lead to the second direction at once, whatever was in force
/// before and without a stop in between.
pub proof fn law_takeover(
    s: Session,
    first: MoveDirection,
    first_key: char,
    second: MoveDirection,
    second_key: char,
)
    requires
        s.running,
        key_of(first) == Some(first_key),
        key_of(second) == Some(second_key),
        first != second,
    ensures
        s.press(KeyEvent::Char(first_key)).press(KeyEvent::Char(second_key)).direction == second,
        s.press(KeyEvent::Char(first_key)).announced(KeyEvent::Char(second_key)) == Some(
            second.code(),
        ),
        s.after(seq![KeyEvent::Char(first_key), KeyEvent::Char(second_key)]).direction == second,
{
    let a = KeyEvent::Char(first_key);
    let b = KeyEvent::Char(second_key);
    lemma_first_then_rest(s, a, seq![b]);
    lemma_first_then_rest(s.press(a), b, Seq::empty());
    assert(seq![a] + seq![b] =~= seq![a, b]);
}

/// Every steering key changes the direction, sends the code of the new
/// direction and asks for a redraw; every event that is neither a steering
/// key nor the exit key leaves the session as it is and sends nothing.
pub proof fn law_only_steering_acts(s: Session, event: KeyEvent)
    requires
        s.running,
    ensures
        command_of(event) is Move ==> s.press(event).direction != s.direction && s.press(
            event,
        ).dirty && s.announced(event) == Some(s.press(event).direction.code()),
        command_of(event) is Ignore ==> s.press(event) == s && s.announced(event) is None,
        command_of(event) is Exit ==> s.press(event).direction == s.direction && s.press(
            event,
        ).dirty == s.dirty && s.announced(event) is None,
{
}

/// The exit key ends a running session, and the end is final: a session
/// that has ended takes no event, sends nothing and never runs again, and
/// a session that still runs after some events was running before them.
pub proof fn law_exit_is_final(s: Session, events: Seq<KeyEvent>)
    ensures
        s.running ==> s.press(KeyEvent::Char(EXIT_KEY)) == (Session { running: false, ..s }),
        !s.running ==> s.after(events) == s && s.sent(events) == Seq::<u8>::empty(),
        s.after(events).running ==> s.running,
        !s.after(seq![KeyEvent::Char(EXIT_KEY)] + events).running,
        s.after(seq![KeyEvent::Char(EXIT_KEY)] + events) == s.press(KeyEvent::Char(EXIT_KEY)),
        s.sent(seq![KeyEvent::Char(EXIT_KEY)] + events) == Seq::<u8>::empty(),
{
    let exit = KeyEvent::Char(EXIT_KEY);
    if !s.running {
        lemma_ended(s, events);
    }
    lemma_first_then_rest(s, exit, events);
    lemma_ended(s.press(exit), events);
}

/// A redraw is owed from the start; a redraw settles it; and in a session
/// that runs, the next steering key owes one again.
pub proof fn law_redraw_cycle(host: Seq<char>, port: u16, s: Session, event: KeyEvent)
    ensures
        Session::initial(host, port).dirty,
        !s.presented().dirty,
        s.running && command_of(event) is Move ==> s.presented().press(event).dirty,
        s.presented().running == s.running && s.presented().direction == s.direction,
{
}

/// What one batch of input has led to.
pub struct Report {
    /// The bytes to send to the device, one datagram each, in order.
    pub sent: Vec<u8>,
    /// Whether the batch was given up at bytes that are no event.
    pub malformed: bool,
}

/// What one pass of the control loop has led to.
pub struct Turn {
    /// The bytes to send to the device, one datagram each, in order.
    pub sent: Vec<u8>,
    /// Whether the input was given up at bytes that are no event.
    pub malformed: bool,
    /// The frame to write to the terminal, where a redraw was owed.
    pub frame: Option<String>,
}

/// A session of the remote control: where the device is, whether the
/// session still runs, whether the screen is out of date, and the direction
/// in force.
pub struct KennyControl {
    server_address: (String, u16),
    running: bool,
    dirty: bool,
    direction: MoveDirection,
    last_message: Option<String>,
}

impl View for KennyControl {
    type V = Session;

    closed spec fn view(&self) -> Session {
        Session {
            host: self.server_address.0@,
            port: self.server_address.1,
            running: self.running,
            dirty: self.dirty,
            direction: self.direction,
            last_message: match self.last_message {
                Some(message) => Some(message@),
                None => None,
            },
        }
    }
}

impl KennyControl {
    /// Starts a session with the device at the given address.
    pub fn new(ip_address: String, port: u16) -> (control: KennyControl)
        ensures
            control@ == Session::initial(ip_address@, port),
    {
        KennyControl {
            server_address: (ip_address, port),
            running: true,
            dirty: true,
            direction: MoveDirection::Stop,
            last_message: None,
        }
    }

    /// Takes one key event: toggles the direction, ends the session, or
    /// does nothing. Returns the byte to send to the device where the
    /// direction has changed.
    pub fn press(&mut self, event: KeyEvent) -> (sent: Option<u8>)
        ensures
            final(self)@ == old(self)@.press(event),
            sent == old(self)@.announced(event),
    {
        if !self.running {
            return None;
        }
        match interpret(event) {
            Command::Move(pressed) => {
                self.direction = self.direction.toggled(pressed);
                self.dirty = true;
                Some(self.send_direction())
            },
            Command::Exit => {
                self.running = false;
                None
            },
            Command::Ignore => None,
        }
    }

    /// Whether the session still runs.
    pub fn is_running(&self) -> (running: bool)
        ensures
            running == self@.running,
    {
        self.running
    }

    /// Whether a redraw is owed.
    pub fn is_dirty(&self) -> (dirty: bool)
        ensures
            dirty == self@.dirty,
    {
        self.dirty
    }

    /// The direction in force.
    pub fn direction(&self) -> (direction: MoveDirection)
        ensures
            direction == self@.direction,
    {
        self.direction
    }

    /// Host of the remote device.
    pub fn host(&self) -> (host: &str)
        ensures
            host@ == self@.host,
    {
        self.server_address.0.as_str()
    }

    /// Port of the remote device.
    pub fn port(&self) -> (port: u16)
        ensures
            port == self@.port,
    {
        self.server_address.1
    }

    /// The latest message that came in from the device, if any came.
    pub fn last_message(&self) -> (message: Option<&str>)
        ensures
            message is Some == self@.last_message is Some,
            message matches Some(text) ==> Some(text@) == self@.last_message,
    {
        match &self.last_message {
            Some(text) => Some(text.as_str()),
            None => None,
        }
    }

    /// The payload of the datagram that tells the device the direction in
    /// force: the one byte of its code.
    pub fn send_direction(&self) -> (payload: u8)
        ensures
            payload == self@.direction.code(),
    {
        self.direction.to_u8()
    }

    /// Takes a batch of raw terminal input: decodes it event by event and
    /// takes each event in turn, until the input is used up, the exit key
    /// is hit, or bytes come up that are no event. What follows the exit
    /// key is left alone, and so is every batch that comes after it. Input
    /// that is all printable ASCII is taken as the keys it types.
    pub fn handle_events(&mut self, input: &[u8]) -> (report: Report)
        ensures
            !old(self)@.running ==> final(self)@ == old(self)@ && report.sent@.len() == 0
                && !report.malformed,
            final(self)@ == old(self)@.after(decoded(input@).events),
            report.sent@ == old(self)@.sent(decoded(input@).events),
            report.malformed == (!decoded(input@).complete && final(self)@.running),
            all_plain(input@) ==> final(self)@ == old(self)@.after(typed(input@)),
            all_plain(input@) ==> report.sent@ == old(self)@.sent(typed(input@)),
            all_plain(input@) ==> !report.malformed,
    {
        let ghost start = self@;
        let ghost whole = decoded(input@);
        let mut sent: Vec<u8> = Vec::new();
        let mut pos: usize = 0;
        assert(input@.skip(0) =~= input@);
        while pos < input.len() && self.running
            invariant
                pos <= input@.len(),
                start == old(self)@,
                whole == decoded(input@),
                !start.running ==> self@ == start && sent@.len() == 0,
                start.after(whole.events) == self@.after(decoded(input@.skip(pos as int)).events),
                start.sent(whole.events) == sent@ + self@.sent(
                    decoded(input@.skip(pos as int)).events,
                ),
                (!whole.complete && start.after(whole.events).running) == (!decoded(
                    input@.skip(pos as int),
                ).complete && self@.after(decoded(input@.skip(pos as int)).events).running),
                all_plain(input@) ==> start.after(typed(input@)) == self@.after(
                    typed(input@.skip(pos as int)),
                ),
                all_plain(input@) ==> start.sent(typed(input@)) == sent@ + self@.sent(
                    typed(input@.skip(pos as int)),
                ),
            decreases input@.len() - pos,
        {
            let tail = slice_subrange(input, pos, input.len());
            let ghost before = self@;
            match next_event(tail) {
                None => {
                    return Report { sent, malformed: true };
                },
                Some((event, used)) => {
                    let announced = self.press(event);
                    if let Some(code) = announced {
                        sent.push(code);
                    }
                    proof {
                        let later = input@.skip(pos + used);
                        assert(tail@.skip(used as int) =~= later);
                        lemma_first_then_rest(before, event, decoded(later).events);
                        if all_plain(input@) {
                            assert(typed(tail@) =~= seq![event] + typed(later));
                            lemma_first_then_rest(before, event, typed(later));
                        }
                    }
                    pos = pos + used;
                },
            }
        }
        proof {
            let left = input@.skip(pos as int);
            if !self@.running {
                lemma_ended(self@, decoded(left).events);
                lemma_ended(self@, typed(left));
            }
        }
        Report { sent, malformed: false }
    }

    /// Redraws: settles the redraw that was owed and returns the frame to
    /// write to the terminal. The debt is settled before the frame is made,
    /// so that a change that comes while the frame is written asks for a
    /// redraw of its own.
    pub fn present(&mut self) -> (text: String)
        ensures
            final(self)@ == old(self)@.presented(),
            text@ == frame(old(self)@.direction),
    {
        self.dirty = false;
        draw(self.direction)
    }

    /// Takes the messages that have come in from the device since the last
    /// pass. The latest is kept as the device's last word; none of them
    /// touches the direction, the screen or the run of the session.
    pub fn receive(&mut self, messages: Vec<String>)
        ensures
            final(self)@ == old(self)@.informed(messages@.map_values(|m: String| m@)),
    {
        let mut messages = messages;
        match messages.pop() {
            Some(latest) => {
                self.last_message = Some(latest);
            },
            None => {},
        }
    }

    /// One pass of the control loop: the input that was polled is taken,
    /// then the messages that came in, then the screen is redrawn where a
    /// redraw is owed. A session that has ended does nothing.
    pub fn run(&mut self, input: &[u8], messages: Vec<String>) -> (turn: Turn)
        ensures
            !old(self)@.running ==> final(self)@ == old(self)@ && turn.sent@.len() == 0
                && !turn.malformed && turn.frame is None,
            old(self)@.running ==> ({
                let events = decoded(input@).events;
                let handled = old(self)@.after(events).informed(
                    messages@.map_values(|m: String| m@),
                );
                &&& final(self)@ == if handled.dirty {
                    handled.presented()
                } else {
                    handled
                }
                &&& turn.sent@ == old(self)@.sent(events)
                &&& turn.malformed == (!decoded(input@).complete && handled.running)
                &&& turn.frame is Some == handled.dirty
                &&& turn.frame matches Some(text) ==> text@ == frame(handled.direction)
            }),
    {
        if !self.running {
            return Turn { sent: Vec::new(), malformed: false, frame: None };
        }
        let report = self.handle_events(input);
        self.receive(messages);
        let frame = if self.dirty {
            Some(self.present())
        } else {
            None
        };
        Turn { sent: report.sent, malformed: report.malformed, frame }
    }
}

} // verus!
