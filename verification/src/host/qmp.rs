//! The QEMU Machine Protocol: what is sent, and what is made of each line that comes back.
//!
//! QMP is line-delimited JSON. The server sends a greeting, the client answers it with
//! `qmp_capabilities`, and then commands and replies alternate, with asynchronous events between
//! them. An event that arrives while a reply is awaited is kept and handed out later, in order: a
//! job reports its progress through events, and they can arrive before the reply to the command
//! that started it.
use crate::host::input::KeyEvent;
use crate::json;
use crate::text;
use std::collections::VecDeque;
use vstd::prelude::*;
use vstd::string::*;

verus! {

/// How many seconds an ordinary command may wait for its reply.
pub const DEFAULT_QMP_TIMEOUT: u64 = 10;

/// How many milliseconds the guest is given to apply a pointer move before the next event.
pub const POINTER_SETTLE: u64 = 60;

/// How many seconds a screen dump in a named format may take.
pub const SCREENDUMP_TIMEOUT: u64 = 30;

/// The event that reports a finished screen dump.
pub const SCREENDUMP_EVENT: &'static str = "SCREENSHOT_COMPLETED";

// ---------------------------------------------------------------------------
// Messages
// ---------------------------------------------------------------------------

/// Why a line is not a message, where `value` is what the line holds as JSON.
pub open spec fn line_fault(line: Seq<char>, value: Option<Seq<char>>) -> Option<Seq<char>> {
    if text::is_blank(line) {
        Some("QMP closed the connection"@)
    } else if value is None {
        Some("parsing a QMP message: "@ + line)
    } else {
        None
    }
}

/// Check that a line is a message, where `value` is what the line holds as JSON.
pub fn check_line(line: &str, value: &Option<String>) -> (r: Result<(), String>)
    ensures
        match (r, line_fault(line@, text::opt_view(*value))) {
            (Ok(()), None) => true,
            (Err(e), Some(why)) => e@ == why,
            _ => false,
        },
{
    if text::blank(line) {
        return Err(text::own("QMP closed the connection"));
    }
    match value {
        Some(_) => Ok(()),
        None => Err(text::cat2("parsing a QMP message: ", line)),
    }
}

/// Why a first line is not a greeting, where `value` is what it holds as JSON and `version` is what
/// that has under `QMP`.
pub open spec fn greeting_fault(
    line: Seq<char>,
    value: Option<Seq<char>>,
    version: Option<Seq<char>>,
) -> Option<Seq<char>> {
    match line_fault(line, value) {
        Some(why) => Some(why),
        None => if version is None {
            Some("unexpected QMP greeting: "@ + value.unwrap())
        } else {
            None
        },
    }
}

/// Check that a first line is a greeting, where `value` is what it holds as JSON and `version` is
/// what that has under `QMP`.
pub fn check_greeting(line: &str, value: &Option<String>, version: &Option<String>) -> (r: Result<
    (),
    String,
>)
    ensures
        match (r, greeting_fault(line@, text::opt_view(*value), text::opt_view(*version))) {
            (Ok(()), None) => true,
            (Err(e), Some(why)) => e@ == why,
            _ => false,
        },
{
    match check_line(line, value) {
        Err(e) => Err(e),
        Ok(()) => match version {
            Some(_) => Ok(()),
            None => match value {
                Some(shown) => Err(text::cat2("unexpected QMP greeting: ", shown.as_str())),
                None => Ok(()),
            },
        },
    }
}

/// What a message is to a caller that awaits the reply to a command.
#[derive(Debug, PartialEq, Eq)]
pub enum Message {
    /// The command failed, and why.
    Refused {
        /// What the caller is told.
        why: String,
    },
    /// The command's result.
    Reply,
    /// Something else: an event, to be kept.
    Event,
}

/// What a message is to a caller that awaits the reply to `command`, where `error` is what it has
/// under `error` and `returned` says whether it has anything under `return`.
pub open spec fn is_message(
    m: Message,
    command: Seq<char>,
    error: Option<Seq<char>>,
    returned: bool,
) -> bool {
    match error {
        Some(err) => m matches Message::Refused { why } && why@ == "QMP error for '"@ + command
            + "': "@ + err,
        None => if returned {
            m is Reply
        } else {
            m is Event
        },
    }
}

/// Tell what a message is, where `error` is what it has under `error` and `returned` says whether
/// it has anything under `return`.
pub fn classify(command: &str, error: &Option<String>, returned: bool) -> (r: Message)
    ensures
        is_message(r, command@, text::opt_view(*error), returned),
{
    match error {
        Some(err) => Message::Refused {
            why: text::cat4("QMP error for '", command, "': ", err.as_str()),
        },
        None => if returned {
            Message::Reply
        } else {
            Message::Event
        },
    }
}

/// One attempt to read a line from the connection.
#[derive(Debug, PartialEq, Eq)]
pub enum Read {
    /// A line arrived.
    Line(String),
    /// Nothing arrived in the time allowed.
    TimedOut,
    /// The read failed, and how.
    Failed(String),
}

/// A failure that only says that nothing has arrived yet.
pub open spec fn is_patience(why: Seq<char>) -> bool {
    text::holds(why, "timed out"@) || text::holds(why, "WouldBlock"@)
}

/// Whether a failure only says that nothing has arrived yet.
fn patience(why: &str) -> (r: bool)
    ensures
        r == is_patience(why@),
{
    text::includes(why, "timed out") || text::includes(why, "WouldBlock")
}

/// Why a read for an event is a failure, where `value` is what a line that arrived holds as JSON.
/// A timeout is none: an event that has not happened yet is the normal case. A line that arrived and
/// is no message is one, whatever it says.
pub open spec fn read_fault(read: Read, value: Option<Seq<char>>) -> Option<Seq<char>> {
    match read {
        Read::Line(line) => line_fault(line@, value),
        Read::TimedOut => None,
        Read::Failed(why) => if is_patience(why@) {
            None
        } else {
            Some(why@)
        },
    }
}

/// The event that a read brought, where `value` is what a line that arrived holds as JSON and
/// `event` is what that has under `event`. A message that is no event is not handed out.
pub open spec fn read_event(
    read: Read,
    value: Option<Seq<char>>,
    event: Option<Seq<char>>,
) -> Option<Seq<char>> {
    match read {
        Read::Line(line) => if line_fault(line@, value) is None && event is Some {
            Some(line@)
        } else {
            None
        },
        _ => None,
    }
}

/// What a read for an event brought, where `value` is what a line that arrived holds as JSON and
/// `event` is what that has under `event`.
pub fn event_in(read: Read, value: &Option<String>, event: &Option<String>) -> (r: Result<
    Option<String>,
    String,
>)
    ensures
        match (r, read_fault(read, text::opt_view(*value))) {
            (Ok(found), None) => text::opt_view(found) == read_event(
                read,
                text::opt_view(*value),
                text::opt_view(*event),
            ),
            (Err(e), Some(why)) => e@ == why,
            _ => false,
        },
{
    match read {
        Read::Line(line) => match check_line(line.as_str(), value) {
            Ok(()) => match event {
                Some(_) => Ok(Some(line)),
                None => Ok(None),
            },
            Err(why) => Err(why),
        },
        Read::TimedOut => Ok(None),
        Read::Failed(why) => if patience(why.as_str()) {
            Ok(None)
        } else {
            Err(why)
        },
    }
}

// ---------------------------------------------------------------------------
// The conversation
// ---------------------------------------------------------------------------

/// A line that is a message, and neither a failure nor a result.
pub open spec fn is_event(line: Seq<char>) -> bool {
    &&& line_fault(line, json::value_at(line, ""@)) is None
    &&& json::value_at(line, "/error"@) is None
    &&& json::value_at(line, "/return"@) is None
}

/// The events kept once a line has arrived while a reply is awaited.
pub open spec fn kept_with(kept: Seq<Seq<char>>, line: Seq<char>) -> Seq<Seq<char>> {
    if is_event(line) {
        kept.push(line)
    } else {
        kept
    }
}

/// The events kept once lines have arrived, one after the other, while replies are awaited.
pub open spec fn kept_after(kept: Seq<Seq<char>>, lines: Seq<Seq<char>>) -> Seq<Seq<char>>
    decreases lines.len(),
{
    if lines.len() == 0 {
        kept
    } else {
        kept_with(kept_after(kept, lines.drop_last()), lines.last())
    }
}

/// A QMP conversation.
#[derive(Debug)]
pub struct Qmp {
    /// Events read while a reply was awaited.
    pending_events: VecDeque<String>,
}

impl Qmp {
    /// The events kept, the one to be handed out first at the front.
    pub closed spec fn view(&self) -> Seq<Seq<char>> {
        text::views(self.pending_events@)
    }

    /// Begin a conversation with the line that the server greets with.
    pub fn connect(greeting: &str) -> (r: Result<Qmp, String>)
        ensures
            match (
                r,
                greeting_fault(
                    greeting@,
                    json::value_at(greeting@, ""@),
                    json::value_at(greeting@, "/QMP"@),
                ),
            ) {
                (Ok(qmp), None) => qmp@ == Seq::<Seq<char>>::empty(),
                (Err(e), Some(why)) => e@ == why,
                _ => false,
            },
    {
        let value = json::read_value(greeting, "");
        let version = json::read_value(greeting, "/QMP");
        match check_greeting(greeting, &value, &version) {
            Err(e) => Err(e),
            Ok(()) => Ok(Qmp { pending_events: VecDeque::new() }),
        }
    }

    /// The line that runs a command with arguments that are JSON already, or without any.
    pub open spec fn command_line(command: Seq<char>, arguments: Option<Seq<char>>) -> Seq<char> {
        let execute = json::member("execute"@, json::quoted(command));
        match arguments {
            Some(a) => json::object2(json::member("arguments"@, a), execute) + "\n"@,
            None => json::object1(execute) + "\n"@,
        }
    }

    /// The line that runs a command with arguments that are JSON already, or without any.
    pub fn execute(command: &str, arguments: Option<&str>) -> (r: String)
        ensures
            r@ == Self::command_line(
                command@,
                match arguments {
                    Some(a) => Some(a@),
                    None => None,
                },
            ),
    {
        let name = json::quote(command);
        let execute = json::write_member("execute", name.as_str());
        let payload = match arguments {
            Some(a) => {
                let member = json::write_member("arguments", a);
                json::write_object2(member.as_str(), execute.as_str())
            },
            None => json::write_object1(execute.as_str()),
        };
        text::cat2(payload.as_str(), "\n")
    }

    /// Take a line that arrived while the reply to `command` is awaited. The line comes back when
    /// it is the reply. An event is kept, and nothing comes back.
    pub fn received(&mut self, command: &str, line: String) -> (r: Result<Option<String>, String>)
        ensures
            final(self)@ == kept_with(old(self)@, line@),
            match line_fault(line@, json::value_at(line@, ""@)) {
                Some(why) => r matches Err(e) && e@ == why,
                None => match json::value_at(line@, "/error"@) {
                    Some(err) => r matches Err(e) && e@ == "QMP error for '"@ + command@ + "': "@
                        + err,
                    None => r == Ok::<Option<String>, String>(
                        if json::value_at(line@, "/return"@) is Some {
                            Some(line)
                        } else {
                            None
                        },
                    ),
                },
            },
    {
        let value = json::read_value(line.as_str(), "");
        match check_line(line.as_str(), &value) {
            Err(e) => Err(e),
            Ok(()) => {
                let error = json::read_value(line.as_str(), "/error");
                let result = json::read_value(line.as_str(), "/return");
                match classify(command, &error, result.is_some()) {
                    Message::Refused { why } => Err(why),
                    Message::Reply => Ok(Some(line)),
                    Message::Event => {
                        proof {
                            text::views_push(self.pending_events@, line);
                        }
                        self.pending_events.push_back(line);
                        Ok(None)
                    },
                }
            },
        }
    }

    /// The event that was kept first, which is kept no longer.
    pub fn queued_event(&mut self) -> (r: Option<String>)
        ensures
            match r {
                Some(line) => old(self)@.len() > 0 && line@ == old(self)@[0] && final(self)@ == old(
                    self,
                )@.skip(1),
                None => old(self)@.len() == 0 && final(self)@ == old(self)@,
            },
    {
        let r = self.pending_events.pop_front();
        proof {
            assert(text::views(old(self).pending_events@).len() == old(self).pending_events@.len());
            if r is Some {
                assert(text::views(self.pending_events@) == text::views(
                    old(self).pending_events@,
                ).skip(1));
            }
        }
        r
    }

    /// The event that a read brought. A timeout and a message that is no event bring none.
    pub fn next_event(read: Read) -> (r: Result<Option<String>, String>)
        ensures
            ({
                let value = match read {
                    Read::Line(line) => json::value_at(line@, ""@),
                    _ => None,
                };
                let event = match read {
                    Read::Line(line) => json::value_at(line@, "/event"@),
                    _ => None,
                };
                match (r, read_fault(read, value)) {
                    (Ok(found), None) => text::opt_view(found) == read_event(read, value, event),
                    (Err(e), Some(why)) => e@ == why,
                    _ => false,
                }
            }),
    {
        let (value, event) = match &read {
            Read::Line(line) => (
                json::read_value(line.as_str(), ""),
                json::read_value(line.as_str(), "/event"),
            ),
            _ => (None, None),
        };
        event_in(read, &value, &event)
    }

    /// Whether a message is the event with the given name.
    pub fn names_event(line: &str, name: &str) -> (r: bool)
        ensures
            r == (json::text_at(line@, "/event"@) == Some(name@)),
    {
        match json::read_text(line, "/event") {
            Some(event) => text::same(event.as_str(), name),
            None => false,
        }
    }

    /// What a caller is told when an event did not arrive in time.
    pub fn event_overdue(name: &str) -> (r: String)
        ensures
            r@ == "timed out waiting for the QMP event '"@ + name@ + "'"@,
    {
        text::cat3("timed out waiting for the QMP event '", name, "'")
    }

    /// Whether the event that ends a screendump may still be waited for after so many nanoseconds;
    /// what the caller is told otherwise.
    pub fn event_in_time(name: &str, elapsed: u128) -> (r: Result<(), String>)
        ensures
            r is Ok <==> elapsed < SCREENDUMP_TIMEOUT * 1_000_000_000,
            r is Ok <==> elapsed < 30_000_000_000,
            r matches Err(e) ==> e@ == "timed out waiting for the QMP event '"@ + name@ + "'"@,
    {
        if elapsed < SCREENDUMP_TIMEOUT as u128 * 1_000_000_000 {
            Ok(())
        } else {
            Err(Self::event_overdue(name))
        }
    }

    /// The arguments of `screendump`. Without a format QEMU chooses one, which is PPM.
    pub open spec fn screendump_arguments(
        destination: Seq<char>,
        format: Option<Seq<char>>,
    ) -> Seq<char> {
        let filename = json::member("filename"@, json::quoted(destination));
        match format {
            Some(f) => json::object2(filename, json::member("format"@, json::quoted(f))),
            None => json::object1(filename),
        }
    }

    /// The arguments of `screendump`. With a format the dump is written later than the reply comes,
    /// so the caller has to await [`SCREENDUMP_EVENT`].
    pub fn screendump(destination: &str, format: Option<&str>) -> (r: String)
        ensures
            r@ == Self::screendump_arguments(
                destination@,
                match format {
                    Some(f) => Some(f@),
                    None => None,
                },
            ),
    {
        let path = json::quote(destination);
        let filename = json::write_member("filename", path.as_str());
        match format {
            Some(f) => {
                let name = json::quote(f);
                let member = json::write_member("format", name.as_str());
                json::write_object2(filename.as_str(), member.as_str())
            },
            None => json::write_object1(filename.as_str()),
        }
    }

    /// The arguments that deliver one key event.
    pub open spec fn key_request(modifiers: Seq<Seq<char>>, key: Seq<char>, down: bool) -> Seq<char> {
        input_arguments(key_events(modifiers, key, down))
    }

    /// The arguments that deliver one key event.
    pub fn send_key_event(event: &KeyEvent) -> (r: String)
        ensures
            r@ == input_arguments(key_events(text::views(event.modifiers@), event.key@, event.down)),
            r@ == Self::key_request(text::views(event.modifiers@), event.key@, event.down),
    {
        let mut keys = text::copy_strings(&event.modifiers);
        proof {
            text::views_push(keys@, event.key);
        }
        keys.push(event.key.clone());
        let events = if event.down {
            press_all(&keys)
        } else {
            release_all(&keys)
        };
        write_input_arguments(&events)
    }

    /// The arguments that press a chord, where it has a key.
    pub open spec fn chord_request(keys: Seq<Seq<char>>) -> Option<Seq<char>> {
        if keys.len() == 0 {
            None
        } else {
            Some(input_arguments(chord_events(keys)))
        }
    }

    /// The arguments that press a chord: every key but the last is held across the last.
    pub fn send_chord(keys: &Vec<String>) -> (r: Result<String, String>)
        ensures
            match r {
                Ok(arguments) => keys@.len() > 0 && arguments@ == input_arguments(
                    chord_events(text::views(keys@)),
                ),
                Err(e) => keys@.len() == 0 && e@ == "a chord needs at least one key"@,
            },
            match (r, Self::chord_request(text::views(keys@))) {
                (Ok(arguments), Some(expected)) => arguments@ == expected,
                (Err(_), None) => true,
                _ => false,
            },
    {
        if keys.len() == 0 {
            return Err(text::own("a chord needs at least one key"));
        }
        let mut events = press_all(keys);
        let mut releases = release_all(keys);
        let ghost presses = event_views(events@);
        let ghost expected = chord_events(text::views(keys@));
        proof {
            assert(event_views(events@ + releases@) == event_views(events@) + event_views(
                releases@,
            ));
            assert(event_views(events@) + event_views(releases@) == expected);
        }
        events.append(&mut releases);
        Ok(write_input_arguments(&events))
    }

    /// Whether a position can be mapped onto a screen of this size.
    pub open spec fn is_mappable(width: u32, height: u32) -> bool {
        width > 0 && height > 0
    }

    /// The arguments that move the pointer to a position on a screen of the given size.
    pub open spec fn move_request(x: int, y: int, width: int, height: int) -> Seq<char> {
        input_arguments(pointer_events(x, y, width, height))
    }

    /// The arguments that move the pointer to a position on a screen of the given size.
    pub fn send_pointer_move(x: i32, y: i32, width: u32, height: u32) -> (r: Result<String, String>)
        ensures
            match r {
                Ok(arguments) => width > 0 && height > 0 && arguments@ == input_arguments(
                    pointer_events(x as int, y as int, width as int, height as int),
                ),
                Err(e) => (width == 0 || height == 0) && e@ == "the guest reports a "@
                    + text::decimal(width as nat) + "x"@ + text::decimal(height as nat)
                    + " screen; cannot map a coordinate onto it"@,
            },
            r is Ok <==> Self::is_mappable(width, height),
            r matches Ok(arguments) ==> arguments@ == Self::move_request(
                x as int,
                y as int,
                width as int,
                height as int,
            ),
    {
        if width == 0 || height == 0 {
            let w = text::to_decimal(width as u64);
            let h = text::to_decimal(height as u64);
            return Err(
                text::cat5(
                    "the guest reports a ",
                    w.as_str(),
                    "x",
                    h.as_str(),
                    " screen; cannot map a coordinate onto it",
                ),
            );
        }
        let mut events: Vec<HardwareEvent> = Vec::new();
        events.push(HardwareEvent::Axis { axis: text::own("x"), value: scale(x, width) });
        events.push(HardwareEvent::Axis { axis: text::own("y"), value: scale(y, height) });
        assert(event_views(events@) == pointer_events(
            x as int,
            y as int,
            width as int,
            height as int,
        ));
        Ok(write_input_arguments(&events))
    }

    /// The arguments that press or release a mouse button, where there is one of that name.
    pub open spec fn button_request(button: Seq<char>, down: bool) -> Option<Seq<char>> {
        if is_button(button) {
            Some(input_arguments(seq![HardwareEventView::Button { button, down }]))
        } else {
            None
        }
    }

    /// The arguments that press or release a mouse button.
    pub fn send_pointer_button(button: &str, down: bool) -> (r: Result<String, String>)
        ensures
            match r {
                Ok(arguments) => is_button(button@) && arguments@ == input_arguments(
                    seq![HardwareEventView::Button { button: button@, down }],
                ),
                Err(e) => !is_button(button@) && e@ == "unknown mouse button "@ + text::debug_text(
                    button@,
                ) + "; use left, right or middle"@,
            },
            match (r, Self::button_request(button@, down)) {
                (Ok(arguments), Some(expected)) => arguments@ == expected,
                (Err(_), None) => true,
                _ => false,
            },
    {
        if !(text::same(button, "left") || text::same(button, "right") || text::same(
            button,
            "middle",
        )) {
            let shown = text::format_debug_text(button);
            return Err(
                text::cat3("unknown mouse button ", shown.as_str(), "; use left, right or middle"),
            );
        }
        let mut events: Vec<HardwareEvent> = Vec::new();
        events.push(HardwareEvent::Button { button: text::own(button), down });
        assert(event_views(events@) == seq![HardwareEventView::Button { button: button@, down }]);
        Ok(write_input_arguments(&events))
    }

    /// The size of the guest's screen, as a dump of it shows. A screen without area is refused,
    /// because a coordinate cannot be mapped onto it.
    pub fn query_screen_size(width: u32, height: u32) -> (r: Result<(u32, u32), String>)
        ensures
            match r {
                Ok(size) => width > 0 && height > 0 && size == (width, height),
                Err(e) => (width == 0 || height == 0) && e@ == "the guest framebuffer reports "@
                    + text::decimal(width as nat) + "x"@ + text::decimal(height as nat)
                    + "; a coordinate cannot be mapped"@,
            },
            r is Ok <==> Self::is_mappable(width, height),
    {
        if width == 0 || height == 0 {
            let w = text::to_decimal(width as u64);
            let h = text::to_decimal(height as u64);
            return Err(
                text::cat5(
                    "the guest framebuffer reports ",
                    w.as_str(),
                    "x",
                    h.as_str(),
                    "; a coordinate cannot be mapped",
                ),
            );
        }
        Ok((width, height))
    }
}

// ---------------------------------------------------------------------------
// Hardware events
// ---------------------------------------------------------------------------

/// One event of an emulated input device.
#[derive(Debug, PartialEq, Eq)]
pub enum HardwareEvent {
    /// A key goes down or comes up.
    Key {
        /// The key's code.
        key: String,
        /// Down, or up.
        down: bool,
    },
    /// The pointer moves along an axis of the tablet.
    Axis {
        /// `x` or `y`.
        axis: String,
        /// The position, on the axis' own scale.
        value: u32,
    },
    /// A mouse button goes down or comes up.
    Button {
        /// The button's name.
        button: String,
        /// Down, or up.
        down: bool,
    },
}

/// What a hardware event holds.
pub enum HardwareEventView {
    /// A key goes down or comes up.
    Key {
        /// The key's code.
        key: Seq<char>,
        /// Down, or up.
        down: bool,
    },
    /// The pointer moves along an axis of the tablet.
    Axis {
        /// `x` or `y`.
        axis: Seq<char>,
        /// The position, on the axis' own scale.
        value: nat,
    },
    /// A mouse button goes down or comes up.
    Button {
        /// The button's name.
        button: Seq<char>,
        /// Down, or up.
        down: bool,
    },
}

impl HardwareEvent {
    /// What this event holds.
    pub open spec fn view(&self) -> HardwareEventView {
        match self {
            HardwareEvent::Key { key, down } => HardwareEventView::Key { key: key@, down: *down },
            HardwareEvent::Axis { axis, value } => HardwareEventView::Axis {
                axis: axis@,
                value: *value as nat,
            },
            HardwareEvent::Button { button, down } => HardwareEventView::Button {
                button: button@,
                down: *down,
            },
        }
    }
}

/// What each event of a list holds.
pub open spec fn event_views(events: Seq<HardwareEvent>) -> Seq<HardwareEventView> {
    events.map_values(|e: HardwareEvent| e@)
}

/// A key that goes down.
pub open spec fn press(key: Seq<char>) -> HardwareEventView {
    HardwareEventView::Key { key, down: true }
}

/// A key that comes up.
pub open spec fn release(key: Seq<char>) -> HardwareEventView {
    HardwareEventView::Key { key, down: false }
}

/// Keys that go down one after the other.
pub open spec fn presses(keys: Seq<Seq<char>>) -> Seq<HardwareEventView> {
    Seq::new(keys.len(), |i: int| press(keys[i]))
}

/// Keys that come up, the last one first.
pub open spec fn releases(keys: Seq<Seq<char>>) -> Seq<HardwareEventView> {
    Seq::new(keys.len(), |i: int| release(keys[keys.len() - 1 - i]))
}

/// The events of a key that is pressed or released with modifiers: they go down before the key, in
/// order, and come up after it, in reverse.
pub open spec fn key_events(modifiers: Seq<Seq<char>>, key: Seq<char>, down: bool) -> Seq<
    HardwareEventView,
> {
    if down {
        presses(modifiers.push(key))
    } else {
        releases(modifiers.push(key))
    }
}

/// The events of a chord: all keys go down in order, and come up in reverse.
pub open spec fn chord_events(keys: Seq<Seq<char>>) -> Seq<HardwareEventView> {
    presses(keys) + releases(keys)
}

/// The names of the mouse buttons.
pub open spec fn is_button(name: Seq<char>) -> bool {
    name == "left"@ || name == "right"@ || name == "middle"@
}

/// The largest position on an axis of the tablet.
pub const AXIS_MAX: u32 = 0x7fff;

/// A pixel position on the scale of an axis that spans `size` pixels, kept on the axis.
pub open spec fn scaled(position: int, size: int) -> int {
    if position <= 0 {
        0
    } else if position * AXIS_MAX / size > AXIS_MAX {
        AXIS_MAX as int
    } else {
        position * AXIS_MAX / size
    }
}

/// The events that move the pointer to a position on a screen.
pub open spec fn pointer_events(x: int, y: int, width: int, height: int) -> Seq<HardwareEventView> {
    seq![
        HardwareEventView::Axis { axis: "x"@, value: scaled(x, width) as nat },
        HardwareEventView::Axis { axis: "y"@, value: scaled(y, height) as nat },
    ]
}

/// How an event is written. The members of an object stand in the order of their names.
pub open spec fn event_json(e: HardwareEventView) -> Seq<char> {
    match e {
        HardwareEventView::Key { key, down } => json::object2(
            json::member(
                "data"@,
                json::object2(
                    json::member("down"@, json::truth(down)),
                    json::member(
                        "key"@,
                        json::object2(
                            json::member("data"@, json::quoted(key)),
                            json::member("type"@, json::quoted("qcode"@)),
                        ),
                    ),
                ),
            ),
            json::member("type"@, json::quoted("key"@)),
        ),
        HardwareEventView::Axis { axis, value } => json::object2(
            json::member(
                "data"@,
                json::object2(
                    json::member("axis"@, json::quoted(axis)),
                    json::member("value"@, text::decimal(value)),
                ),
            ),
            json::member("type"@, json::quoted("abs"@)),
        ),
        HardwareEventView::Button { button, down } => json::object2(
            json::member(
                "data"@,
                json::object2(
                    json::member("button"@, json::quoted(button)),
                    json::member("down"@, json::truth(down)),
                ),
            ),
            json::member("type"@, json::quoted("btn"@)),
        ),
    }
}

/// The arguments of `input-send-event`.
pub open spec fn input_arguments(events: Seq<HardwareEventView>) -> Seq<char> {
    json::object1(
        json::member(
            "events"@,
            json::list(events.map_values(|e: HardwareEventView| event_json(e))),
        ),
    )
}

/// A pixel position on the scale of an axis.
fn scale(position: i32, size: u32) -> (r: u32)
    requires
        size > 0,
    ensures
        r == scaled(position as int, size as int),
{
    if position <= 0 {
        return 0;
    }
    let pixel: u64 = position as u64;
    assert(pixel * AXIS_MAX <= 0x7fff_ffff * 0x7fff);
    let wide: u64 = pixel * AXIS_MAX as u64;
    let on_axis: u64 = wide / size as u64;
    if on_axis > AXIS_MAX as u64 {
        AXIS_MAX
    } else {
        on_axis as u32
    }
}

/// Press keys one after the other.
fn press_all(keys: &Vec<String>) -> (r: Vec<HardwareEvent>)
    ensures
        event_views(r@) == presses(text::views(keys@)),
{
    let ghost expected = presses(text::views(keys@));
    let mut out: Vec<HardwareEvent> = Vec::new();
    let mut i: usize = 0;
    while i < keys.len()
        invariant
            i <= keys.len(),
            expected == presses(text::views(keys@)),
            event_views(out@) == expected.take(i as int),
        decreases keys.len() - i,
    {
        let event = HardwareEvent::Key { key: keys[i].clone(), down: true };
        proof {
            assert(event@ == expected[i as int]);
            assert(event_views(out@.push(event)) == event_views(out@).push(event@));
            assert(expected.take(i + 1) == expected.take(i as int).push(expected[i as int]));
        }
        out.push(event);
        i += 1;
    }
    assert(expected.take(keys@.len() as int) == expected);
    out
}

/// Release keys, the last one first.
fn release_all(keys: &Vec<String>) -> (r: Vec<HardwareEvent>)
    ensures
        event_views(r@) == releases(text::views(keys@)),
{
    let ghost expected = releases(text::views(keys@));
    let mut out: Vec<HardwareEvent> = Vec::new();
    let mut i: usize = keys.len();
    while i > 0
        invariant
            i <= keys.len(),
            expected == releases(text::views(keys@)),
            event_views(out@) == expected.take(keys.len() - i),
        decreases i,
    {
        i -= 1;
        let event = HardwareEvent::Key { key: keys[i].clone(), down: false };
        proof {
            let done = keys.len() - 1 - i;
            assert(event@ == expected[done]);
            assert(event_views(out@.push(event)) == event_views(out@).push(event@));
            assert(expected.take(done + 1) == expected.take(done).push(expected[done]));
        }
        out.push(event);
    }
    assert(expected.take(keys@.len() as int) == expected);
    out
}

/// Write an event.
fn write_event(e: &HardwareEvent) -> (r: String)
    ensures
        r@ == event_json(e@),
{
    match e {
        HardwareEvent::Key { key, down } => {
            let code = json::quote(key.as_str());
            let qcode = json::quote("qcode");
            let data = json::write_member("data", code.as_str());
            let kind = json::write_member("type", qcode.as_str());
            let inner = json::write_object2(data.as_str(), kind.as_str());
            let truth = json::write_truth(*down);
            let state = json::write_member("down", truth.as_str());
            let named = json::write_member("key", inner.as_str());
            let body = json::write_object2(state.as_str(), named.as_str());
            write_typed(body.as_str(), "key")
        },
        HardwareEvent::Axis { axis, value } => {
            let name = json::quote(axis.as_str());
            let number = text::to_decimal(*value as u64);
            let along = json::write_member("axis", name.as_str());
            let position = json::write_member("value", number.as_str());
            let body = json::write_object2(along.as_str(), position.as_str());
            write_typed(body.as_str(), "abs")
        },
        HardwareEvent::Button { button, down } => {
            let name = json::quote(button.as_str());
            let truth = json::write_truth(*down);
            let which = json::write_member("button", name.as_str());
            let state = json::write_member("down", truth.as_str());
            let body = json::write_object2(which.as_str(), state.as_str());
            write_typed(body.as_str(), "btn")
        },
    }
}

/// Write an event's data and type.
fn write_typed(data: &str, kind: &str) -> (r: String)
    ensures
        r@ == json::object2(
            json::member("data"@, data@),
            json::member("type"@, json::quoted(kind@)),
        ),
{
    let name = json::quote(kind);
    let body = json::write_member("data", data);
    let typed = json::write_member("type", name.as_str());
    json::write_object2(body.as_str(), typed.as_str())
}

/// Write the arguments of `input-send-event`.
fn write_input_arguments(events: &Vec<HardwareEvent>) -> (r: String)
    ensures
        r@ == input_arguments(event_views(events@)),
{
    let ghost expected = event_views(events@).map_values(|e: HardwareEventView| event_json(e));
    let mut written: Vec<String> = Vec::new();
    let mut i: usize = 0;
    while i < events.len()
        invariant
            i <= events.len(),
            expected == event_views(events@).map_values(|e: HardwareEventView| event_json(e)),
            text::views(written@) == expected.take(i as int),
        decreases events.len() - i,
    {
        let one = write_event(&events[i]);
        proof {
            assert(one@ == expected[i as int]);
            text::views_push(written@, one);
            assert(expected.take(i + 1) == expected.take(i as int).push(expected[i as int]));
        }
        written.push(one);
        i += 1;
    }
    assert(expected.take(events@.len() as int) == expected);
    let list = json::write_list(&written);
    let member = json::write_member("events", list.as_str());
    json::write_object1(member.as_str())
}

// ---------------------------------------------------------------------------
// Laws
// ---------------------------------------------------------------------------

/// A chord is well nested: each key goes down once and comes up once, and a key that went down
/// before another comes up after it. So everything but the last key is held across the last.
pub proof fn chords_are_nested(keys: Seq<Seq<char>>, i: int)
    requires
        0 <= i < keys.len(),
    ensures
        chord_events(keys).len() == 2 * keys.len(),
        chord_events(keys)[i] == press(keys[i]),
        chord_events(keys)[2 * keys.len() - 1 - i] == release(keys[i]),
{
}

/// Pressing a key with modifiers and then releasing it is the chord of the modifiers and the key:
/// nothing stays held.
pub proof fn press_and_release_is_a_chord(modifiers: Seq<Seq<char>>, key: Seq<char>)
    ensures
        key_events(modifiers, key, true) + key_events(modifiers, key, false) == chord_events(
            modifiers.push(key),
        ),
{
}

/// A pointer position is on the axis, whatever pixel it is made of.
pub proof fn pointer_stays_on_the_axis(position: int, size: int)
    requires
        size > 0,
    ensures
        0 <= scaled(position, size) <= AXIS_MAX,
{
    if position > 0 {
        assert(position * AXIS_MAX / size >= 0) by (nonlinear_arith)
            requires
                position > 0,
                size > 0,
        ;
    }
}

/// A pixel further along lands no earlier on the axis.
pub proof fn pointer_keeps_the_order(a: int, b: int, size: int)
    requires
        size > 0,
        a <= b,
    ensures
        scaled(a, size) <= scaled(b, size),
{
    pointer_stays_on_the_axis(b, size);
    if a > 0 {
        assert(a * AXIS_MAX <= b * AXIS_MAX);
        vstd::arithmetic::div_mod::lemma_div_is_ordered(a * AXIS_MAX, b * AXIS_MAX, size);
    }
}

/// No event is lost, and none overtakes another: after any lines that arrived while replies were
/// awaited, what is kept is what was kept before them and then every event among them, in order.
pub proof fn every_event_is_kept(kept: Seq<Seq<char>>, lines: Seq<Seq<char>>)
    ensures
        kept_after(kept, lines) == kept + lines.filter(|line: Seq<char>| is_event(line)),
    decreases lines.len(),
{
    reveal(Seq::filter);
    if lines.len() > 0 {
        every_event_is_kept(kept, lines.drop_last());
    }
}

/// The pointer lands where it was aimed: a pixel of the screen lies within the step of the axis that
/// it is sent as, with the axis running from 0 to 0x7fff over the whole screen. What lies before the
/// screen is sent as its start, and what lies past it as its end.
pub proof fn pointer_aims_at_the_pixel(position: int, size: int)
    requires
        size > 0,
    ensures
        position <= 0 ==> scaled(position, size) == 0,
        0 <= position <= size ==> scaled(position, size) * size <= position * 0x7fff < (scaled(
            position,
            size,
        ) + 1) * size,
        position >= size ==> scaled(position, size) == 0x7fff,
{
    let wide = position * 0x7fff;
    let v = wide / size;
    vstd::arithmetic::div_mod::lemma_fundamental_div_mod(wide, size);
    let rest = wide % size;
    assert(0 <= rest < size);
    assert(v * size <= wide < (v + 1) * size) by (nonlinear_arith)
        requires
            wide == size * v + rest,
            0 <= rest < size,
    ;
    if position == 0 {
        assert(0 * size <= 0 < (0 + 1) * size) by (nonlinear_arith)
            requires
                size > 0,
        ;
    }
    if 0 < position <= size {
        assert(v <= 0x7fff) by (nonlinear_arith)
            requires
                v * size <= position * 0x7fff,
                0 < position <= size,
        ;
    }
    if position >= size {
        assert(v >= 0x7fff) by (nonlinear_arith)
            requires
                position * 0x7fff < (v + 1) * size,
                0 < size <= position,
        ;
    }
}

/// On a screen of at most 0x7fff pixels, two pixels are never sent as the same position, and the
/// position that is sent stands for the pixel it was made of, to within one.
pub proof fn pixels_are_told_apart(a: int, b: int, size: int)
    requires
        0 < size <= 0x7fff,
        0 <= a <= size,
        0 <= b <= size,
    ensures
        a < b ==> scaled(a, size) < scaled(b, size),
        a != b ==> scaled(a, size) != scaled(b, size),
        a - 1 <= scaled(a, size) * size / 0x7fff <= a,
{
    pointer_aims_at_the_pixel(a, size);
    pointer_aims_at_the_pixel(b, size);
    let v = scaled(a, size);
    let w = scaled(b, size);
    if a < b {
        assert(v < w) by (nonlinear_arith)
            requires
                v * size <= a * 0x7fff,
                b * 0x7fff < (w + 1) * size,
                a + 1 <= b,
                0 < size <= 0x7fff,
        ;
    }
    if b < a {
        assert(w < v) by (nonlinear_arith)
            requires
                w * size <= b * 0x7fff,
                a * 0x7fff < (v + 1) * size,
                b + 1 <= a,
                0 < size <= 0x7fff,
        ;
    }
    let back = v * size;
    assert((v + 1) * size == v * size + size) by (nonlinear_arith);
    assert(a * 0x7fff - 0x7fff < back <= a * 0x7fff);
}

/// A move of the pointer is one position along `x`, made of the column and the width, and one along
/// `y`, made of the row and the height. Each lands where it was aimed, and neither depends on the
/// other.
pub proof fn pointer_moves_along_both_axes(x: int, y: int, width: int, height: int)
    requires
        width > 0,
        height > 0,
        0 <= x <= width,
        0 <= y <= height,
    ensures
        ({
            let events = pointer_events(x, y, width, height);
            &&& events.len() == 2
            &&& events[0] matches HardwareEventView::Axis { axis, value } && axis == "x"@ && value
                * width <= x * 0x7fff < (value + 1) * width
            &&& events[1] matches HardwareEventView::Axis { axis, value } && axis == "y"@ && value
                * height <= y * 0x7fff < (value + 1) * height
        }),
{
    pointer_aims_at_the_pixel(x, width);
    pointer_aims_at_the_pixel(y, height);
    pointer_stays_on_the_axis(x, width);
    pointer_stays_on_the_axis(y, height);
}

/// The arguments that carry events name them once and in order, in a list.
pub proof fn events_are_sent_in_order(events: Seq<HardwareEventView>)
    ensures
        input_arguments(events) == "{\"events\":["@ + text::joined(
            events.map_values(|e: HardwareEventView| event_json(e)),
            ","@,
        ) + "]}"@,
{
    reveal_strlit("{\"events\":[");
    reveal_strlit("]}");
    reveal_strlit("events");
    reveal_strlit(":");
    reveal_strlit("{");
    reveal_strlit("}");
    reveal_strlit("[");
    reveal_strlit("]");
    json::plain_texts_are_quoted_as_they_are("events"@);
    let inner = text::joined(events.map_values(|e: HardwareEventView| event_json(e)), ","@);
    assert(input_arguments(events) =~= "{\"events\":["@ + inner + "]}"@);
}

/// How a key that goes down or comes up is written, letter for letter, of a code that needs no
/// escape.
#[verifier::spinoff_prover]
#[verifier::rlimit(40)]
pub proof fn key_events_say_what_happens(code: Seq<char>, down: bool)
    requires
        forall|i: int|
            0 <= i < code.len() ==> #[trigger] code[i] != '"' && code[i] != '\\' && code[i] as int
                >= 32,
    ensures
        event_json(HardwareEventView::Key { key: code, down }) == "{\"data\":{\"down\":"@ + (if down {
            "true"@
        } else {
            "false"@
        }) + ",\"key\":{\"data\":\""@ + code + "\",\"type\":\"qcode\"}},\"type\":\"key\"}"@,
{
    reveal_strlit("{");
    reveal_strlit("}");
    reveal_strlit(",");
    reveal_strlit("data");
    reveal_strlit("down");
    reveal_strlit("key");
    reveal_strlit("type");
    reveal_strlit("qcode");
    reveal_strlit("{\"data\":{\"down\":");
    reveal_strlit(",\"key\":{\"data\":\"");
    reveal_strlit("\",\"type\":\"qcode\"}},\"type\":\"key\"}");
    json::plain_texts_are_quoted_as_they_are(code);
    json::plain_texts_are_quoted_as_they_are("qcode"@);
    json::plain_texts_are_quoted_as_they_are("key"@);
    let truth = json::truth(down);
    let coded = json::member("data"@, json::quoted(code));
    let kind = json::member("type"@, json::quoted("qcode"@));
    json::plain_members_are_named("data"@, json::quoted(code));
    json::plain_members_are_named("type"@, json::quoted("qcode"@));
    let inner = json::object2(coded, kind);
    assert(inner =~= seq!['{', '"', 'd', 'a', 't', 'a', '"', ':', '"'] + code
        + "\",\"type\":\"qcode\"}},\"type\":\"key\"}"@.take(17));
    json::plain_members_are_named("down"@, truth);
    json::plain_members_are_named("key"@, inner);
    let body = json::object2(json::member("down"@, truth), json::member("key"@, inner));
    json::plain_members_are_named("data"@, body);
    json::plain_members_are_named("type"@, json::quoted("key"@));
    assert(event_json(HardwareEventView::Key { key: code, down }) =~= "{\"data\":{\"down\":"@ + truth
        + ",\"key\":{\"data\":\""@ + code + "\",\"type\":\"qcode\"}},\"type\":\"key\"}"@);
}

/// How a button that goes down or comes up is written, letter for letter, of a name that needs no
/// escape.
#[verifier::spinoff_prover]
#[verifier::rlimit(40)]
pub proof fn button_events_say_what_happens(name: Seq<char>, down: bool)
    requires
        forall|i: int|
            0 <= i < name.len() ==> #[trigger] name[i] != '"' && name[i] != '\\' && name[i] as int
                >= 32,
    ensures
        event_json(HardwareEventView::Button { button: name, down })
            == "{\"data\":{\"button\":\""@ + name + "\",\"down\":"@ + (if down {
            "true"@
        } else {
            "false"@
        }) + "},\"type\":\"btn\"}"@,
{
    reveal_strlit("{");
    reveal_strlit("}");
    reveal_strlit(",");
    reveal_strlit("data");
    reveal_strlit("down");
    reveal_strlit("button");
    reveal_strlit("type");
    reveal_strlit("btn");
    reveal_strlit("{\"data\":{\"button\":\"");
    reveal_strlit("\",\"down\":");
    reveal_strlit("},\"type\":\"btn\"}");
    json::plain_texts_are_quoted_as_they_are(name);
    json::plain_texts_are_quoted_as_they_are("btn"@);
    let truth = json::truth(down);
    json::plain_members_are_named("button"@, json::quoted(name));
    json::plain_members_are_named("down"@, truth);
    let body = json::object2(
        json::member("button"@, json::quoted(name)),
        json::member("down"@, truth),
    );
    json::plain_members_are_named("data"@, body);
    json::plain_members_are_named("type"@, json::quoted("btn"@));
    assert(event_json(HardwareEventView::Button { button: name, down })
        =~= "{\"data\":{\"button\":\""@ + name + "\",\"down\":"@ + truth
        + "},\"type\":\"btn\"}"@);
}

/// How a position on an axis is written, letter for letter: as a decimal number, and as an absolute
/// one.
#[verifier::spinoff_prover]
#[verifier::rlimit(40)]
pub proof fn positions_are_absolute(name: Seq<char>, value: nat)
    requires
        forall|i: int|
            0 <= i < name.len() ==> #[trigger] name[i] != '"' && name[i] != '\\' && name[i] as int
                >= 32,
    ensures
        event_json(HardwareEventView::Axis { axis: name, value }) == "{\"data\":{\"axis\":\""@ + name
            + "\",\"value\":"@ + text::decimal(value) + "},\"type\":\"abs\"}"@,
{
    reveal_strlit("{");
    reveal_strlit("}");
    reveal_strlit(",");
    reveal_strlit("data");
    reveal_strlit("axis");
    reveal_strlit("value");
    reveal_strlit("type");
    reveal_strlit("abs");
    reveal_strlit("{\"data\":{\"axis\":\"");
    reveal_strlit("\",\"value\":");
    reveal_strlit("},\"type\":\"abs\"}");
    json::plain_texts_are_quoted_as_they_are(name);
    json::plain_texts_are_quoted_as_they_are("abs"@);
    let number = text::decimal(value);
    json::plain_members_are_named("axis"@, json::quoted(name));
    json::plain_members_are_named("value"@, number);
    let body = json::object2(
        json::member("axis"@, json::quoted(name)),
        json::member("value"@, number),
    );
    json::plain_members_are_named("data"@, body);
    json::plain_members_are_named("type"@, json::quoted("abs"@));
    assert(event_json(HardwareEventView::Axis { axis: name, value })
        =~= "{\"data\":{\"axis\":\""@ + name + "\",\"value\":"@ + number
        + "},\"type\":\"abs\"}"@);
}

/// How a command is sent, letter for letter, of a name that needs no escape: one line, with the
/// arguments as they are where there are any.
#[verifier::spinoff_prover]
pub proof fn commands_are_one_line(command: Seq<char>, arguments: Seq<char>)
    requires
        forall|i: int|
            0 <= i < command.len() ==> #[trigger] command[i] != '"' && command[i] != '\\'
                && command[i] as int >= 32,
    ensures
        Qmp::command_line(command, None) == "{\"execute\":\""@ + command + "\"}\n"@,
        Qmp::command_line(command, Some(arguments)) == "{\"arguments\":"@ + arguments
            + ",\"execute\":\""@ + command + "\"}\n"@,
{
    reveal_strlit("{");
    reveal_strlit("}");
    reveal_strlit(",");
    reveal_strlit("\n");
    reveal_strlit("execute");
    reveal_strlit("arguments");
    reveal_strlit("{\"execute\":\"");
    reveal_strlit("\"}\n");
    reveal_strlit("{\"arguments\":");
    reveal_strlit(",\"execute\":\"");
    json::plain_texts_are_quoted_as_they_are(command);
    json::plain_members_are_named("execute"@, json::quoted(command));
    json::plain_members_are_named("arguments"@, arguments);
    assert(Qmp::command_line(command, None) =~= "{\"execute\":\""@ + command + "\"}\n"@);
    assert(Qmp::command_line(command, Some(arguments)) =~= "{\"arguments\":"@ + arguments
        + ",\"execute\":\""@ + command + "\"}\n"@);
}

/// How a screen dump is asked for, letter for letter, of a path that needs no escape: into the file
/// that was named, and in the format that was named where one was.
#[verifier::spinoff_prover]
pub proof fn dumps_go_to_the_file_named(destination: Seq<char>, format: Seq<char>)
    requires
        forall|i: int|
            0 <= i < destination.len() ==> #[trigger] destination[i] != '"' && destination[i] != '\\'
                && destination[i] as int >= 32,
        forall|i: int|
            0 <= i < format.len() ==> #[trigger] format[i] != '"' && format[i] != '\\' && format[i] as int
                >= 32,
    ensures
        Qmp::screendump_arguments(destination, None) == "{\"filename\":\""@ + destination + "\"}"@,
        Qmp::screendump_arguments(destination, Some(format)) == "{\"filename\":\""@ + destination
            + "\",\"format\":\""@ + format + "\"}"@,
{
    reveal_strlit("{");
    reveal_strlit("}");
    reveal_strlit(",");
    reveal_strlit("filename");
    reveal_strlit("format");
    reveal_strlit("{\"filename\":\"");
    reveal_strlit("\"}");
    reveal_strlit("\",\"format\":\"");
    json::plain_texts_are_quoted_as_they_are(destination);
    json::plain_texts_are_quoted_as_they_are(format);
    json::plain_members_are_named("filename"@, json::quoted(destination));
    json::plain_members_are_named("format"@, json::quoted(format));
    assert(Qmp::screendump_arguments(destination, None) =~= "{\"filename\":\""@ + destination
        + "\"}"@);
    assert(Qmp::screendump_arguments(destination, Some(format)) =~= "{\"filename\":\""@ + destination
        + "\",\"format\":\""@ + format + "\"}"@);
}

/// A message that carries an error is a refusal whatever else it carries, and the refusal quotes the
/// error. Only a message without one is a result, and only where it returns something.
pub proof fn refusals_are_never_results(
    m: Message,
    command: Seq<char>,
    error: Option<Seq<char>>,
    returned: bool,
)
    requires
        is_message(m, command, error, returned),
    ensures
        m is Reply <==> error is None && returned,
        m is Event <==> error is None && !returned,
        m matches Message::Refused { why } ==> error is Some && why@ == "QMP error for '"@ + command
            + "': "@ + error->Some_0,
{
}

/// Waiting for an event that has not happened is no failure and brings none. A line that is JSON
/// brings itself exactly where it names an event, and a line that is not JSON is a failure.
pub proof fn waiting_brings_events_only(
    line: String,
    why: String,
    value: Option<Seq<char>>,
    event: Option<Seq<char>>,
)
    ensures
        read_fault(Read::TimedOut, value) is None,
        read_event(Read::TimedOut, value, event) is None,
        read_fault(Read::Failed(why), value) == (if text::holds(why@, "timed out"@) || text::holds(
            why@,
            "WouldBlock"@,
        ) {
            None
        } else {
            Some(why@)
        }),
        read_event(Read::Failed(why), value, event) is None,
        !text::is_blank(line@) && value is Some ==> read_fault(Read::Line(line), value) is None
            && read_event(Read::Line(line), value, event) == (if event is Some {
            Some(line@)
        } else {
            None
        }),
        text::is_blank(line@) || value is None ==> read_fault(Read::Line(line), value) is Some
            && read_event(Read::Line(line), value, event) is None,
{
}

/// A conversation is begun only by a line that is JSON and states a version, and whatever else is said
/// in its place is told.
pub proof fn only_greetings_begin(
    line: Seq<char>,
    value: Option<Seq<char>>,
    version: Option<Seq<char>>,
)
    ensures
        greeting_fault(line, value, version) is None <==> !text::is_blank(line) && value is Some
            && version is Some,
        text::is_blank(line) ==> greeting_fault(line, value, version) == Some(
            "QMP closed the connection"@,
        ),
        !text::is_blank(line) && value is None ==> greeting_fault(line, value, version) == Some(
            "parsing a QMP message: "@ + line,
        ),
        !text::is_blank(line) && value is Some && version is None ==> greeting_fault(
            line,
            value,
            version,
        ) == Some("unexpected QMP greeting: "@ + value->Some_0),
{
}

/// What is kept for later while a reply is awaited: a message with neither an error nor a result, at
/// the end of what is kept. Nothing else changes what is kept.
pub proof fn only_events_are_kept(kept: Seq<Seq<char>>, line: Seq<char>)
    ensures
        kept_with(kept, line) == kept.push(line) || kept_with(kept, line) == kept,
        kept_with(kept, line) == kept.push(line) <==> !text::is_blank(line) && json::value_at(
            line,
            ""@,
        ) is Some && json::value_at(line, "/error"@) is None && json::value_at(
            line,
            "/return"@,
        ) is None,
{
    assert(kept.push(line).len() != kept.len());
}

/// While keys go down none comes up, and the other way round: a chord is first every key going down,
/// in the order given, and then every key coming up, the last one first. With modifiers, the key is
/// the last to go down and the first to come up.
pub proof fn keys_go_down_before_they_come_up(keys: Seq<Seq<char>>, key: Seq<char>, i: int)
    requires
        0 <= i < keys.len(),
    ensures
        chord_events(keys).len() == 2 * keys.len(),
        chord_events(keys)[i] == (HardwareEventView::Key { key: keys[i], down: true }),
        chord_events(keys)[2 * keys.len() - 1 - i] == (HardwareEventView::Key {
            key: keys[i],
            down: false,
        }),
        key_events(keys, key, true).len() == keys.len() + 1,
        key_events(keys, key, true)[i] == (HardwareEventView::Key { key: keys[i], down: true }),
        key_events(keys, key, true).last() == (HardwareEventView::Key { key, down: true }),
        key_events(keys, key, false).len() == keys.len() + 1,
        key_events(keys, key, false)[0] == (HardwareEventView::Key { key, down: false }),
        key_events(keys, key, false)[keys.len() - i] == (HardwareEventView::Key {
            key: keys[i],
            down: false,
        }),
{
}

/// A button is taken exactly where it is called left, right or middle.
pub proof fn there_are_three_buttons(name: Seq<char>)
    ensures
        is_button(name) <==> name == "left"@ || name == "right"@ || name == "middle"@,
        "left"@ != "right"@ && "left"@ != "middle"@ && "right"@ != "middle"@,
{
    reveal_strlit("left");
    reveal_strlit("right");
    reveal_strlit("middle");
    assert("left"@.len() == 4 && "right"@.len() == 5 && "middle"@.len() == 6);
}

/// A position is mapped exactly onto a screen with both a width and a height.
pub proof fn positions_need_an_area(width: u32, height: u32)
    ensures
        Qmp::is_mappable(width, height) <==> width * height > 0,
{
    assert(width * height > 0 <==> width > 0 && height > 0) by (nonlinear_arith)
        requires
            width >= 0,
            height >= 0,
    ;
}

/// How long QEMU is waited for: ten seconds for an ordinary reply and thirty for a screen dump, of
/// which an event of its own tells the end. A pointer move is given 60 milliseconds to take effect.
pub proof fn waits_are_this_long()
    ensures
        DEFAULT_QMP_TIMEOUT == 10,
        SCREENDUMP_TIMEOUT == 30,
        DEFAULT_QMP_TIMEOUT < SCREENDUMP_TIMEOUT,
        POINTER_SETTLE == 60,
        SCREENDUMP_EVENT@ == "SCREENSHOT_COMPLETED"@,
{
}

/// Pressing a button is sent as one event that says which button and that it goes down, and releasing
/// it as one that says that it comes up, letter for letter. No other name is sent at all.
#[verifier::spinoff_prover]
pub proof fn buttons_are_sent_as_asked(button: Seq<char>, down: bool)
    ensures
        Qmp::button_request(button, down) is Some <==> button == "left"@ || button == "right"@
            || button == "middle"@,
        Qmp::button_request(button, down) matches Some(arguments) ==> arguments == "{\"events\":["@
            + ("{\"data\":{\"button\":\""@ + button + "\",\"down\":"@ + (if down {
            "true"@
        } else {
            "false"@
        }) + "},\"type\":\"btn\"}"@) + "]}"@,
{
    reveal_strlit("left");
    reveal_strlit("right");
    reveal_strlit("middle");
    if is_button(button) {
        let event = HardwareEventView::Button { button, down };
        events_are_sent_in_order(seq![event]);
        button_events_say_what_happens(button, down);
        one_event(event);
    }
}

proof fn one_event(event: HardwareEventView)
    ensures
        text::joined(
            seq![event].map_values(|e: HardwareEventView| event_json(e)),
            ","@,
        ) == event_json(event),
{
    let written = seq![event].map_values(|e: HardwareEventView| event_json(e));
    assert(written.len() == 1 && written[0] == event_json(event));
}

proof fn two_events(first: HardwareEventView, second: HardwareEventView)
    ensures
        text::joined(
            seq![first, second].map_values(|e: HardwareEventView| event_json(e)),
            ","@,
        ) == event_json(first) + ","@ + event_json(second),
{
    let written = seq![first, second].map_values(|e: HardwareEventView| event_json(e));
    assert(written.len() == 2 && written[0] == event_json(first) && written[1] == event_json(
        second,
    ));
    assert(written.drop_last() =~= seq![event_json(first)]);
    assert(text::joined(written.drop_last(), ","@) == event_json(first));
}

/// A move of the pointer is sent as a position along `x` and one along `y`, letter for letter, and each
/// is the one of the pixel that was aimed at.
#[verifier::spinoff_prover]
pub proof fn moves_are_sent_as_aimed(x: int, y: int, width: int, height: int)
    requires
        width > 0,
        height > 0,
        0 <= x <= width,
        0 <= y <= height,
    ensures
        exists|along: nat, down: nat|
            {
                &&& along * width <= x * 0x7fff < (along + 1) * width
                &&& down * height <= y * 0x7fff < (down + 1) * height
                &&& Qmp::move_request(x, y, width, height) == "{\"events\":["@ + ((
                "{\"data\":{\"axis\":\""@ + "x"@ + "\",\"value\":"@ + #[trigger] text::decimal(
                    along,
                ) + "},\"type\":\"abs\"}"@) + ","@ + ("{\"data\":{\"axis\":\""@ + "y"@
                    + "\",\"value\":"@ + #[trigger] text::decimal(down) + "},\"type\":\"abs\"}"@))
                    + "]}"@
            },
{
    reveal_strlit("x");
    reveal_strlit("y");
    pointer_moves_along_both_axes(x, y, width, height);
    let events = pointer_events(x, y, width, height);
    let along = scaled(x, width) as nat;
    let down = scaled(y, height) as nat;
    let first = HardwareEventView::Axis { axis: "x"@, value: along };
    let second = HardwareEventView::Axis { axis: "y"@, value: down };
    assert(events =~= seq![first, second]);
    events_are_sent_in_order(events);
    positions_are_absolute("x"@, along);
    positions_are_absolute("y"@, down);
    two_events(first, second);
    assert(text::decimal(along) == text::decimal(along) && text::decimal(down) == text::decimal(
        down,
    ));
}

/// A key without modifiers is sent as one event, down or up as it was asked, letter for letter. With a
/// modifier, that goes down before the key and comes up after it.
#[verifier::spinoff_prover]
pub proof fn keys_are_sent_as_asked(modifier: Seq<char>, key: Seq<char>, down: bool)
    requires
        forall|i: int|
            0 <= i < key.len() ==> #[trigger] key[i] != '"' && key[i] != '\\' && key[i] as int >= 32,
    ensures
        Qmp::key_request(Seq::empty(), key, down) == "{\"events\":["@ + ("{\"data\":{\"down\":"@ + (
        if down {
            "true"@
        } else {
            "false"@
        }) + ",\"key\":{\"data\":\""@ + key + "\",\"type\":\"qcode\"}},\"type\":\"key\"}"@)
            + "]}"@,
        Qmp::key_request(seq![modifier], key, true) == input_arguments(
            seq![
                HardwareEventView::Key { key: modifier, down: true },
                HardwareEventView::Key { key, down: true },
            ],
        ),
        Qmp::key_request(seq![modifier], key, false) == input_arguments(
            seq![
                HardwareEventView::Key { key, down: false },
                HardwareEventView::Key { key: modifier, down: false },
            ],
        ),
{
    let event = HardwareEventView::Key { key, down };
    let none = Seq::<Seq<char>>::empty();
    assert(none.push(key) =~= seq![key]);
    assert(key_events(none, key, down) =~= seq![event]);
    events_are_sent_in_order(seq![event]);
    key_events_say_what_happens(key, down);
    one_event(event);
    assert(key_events(seq![modifier], key, true) =~= seq![
        HardwareEventView::Key { key: modifier, down: true },
        HardwareEventView::Key { key, down: true },
    ]);
    assert(key_events(seq![modifier], key, false) =~= seq![
        HardwareEventView::Key { key, down: false },
        HardwareEventView::Key { key: modifier, down: false },
    ]);
}

/// A chord is sent exactly where it has a key, as one request in which every key goes down in the
/// order given and then comes up in the opposite order.
pub proof fn chords_are_sent_whole(keys: Seq<Seq<char>>)
    ensures
        Qmp::chord_request(keys) is Some <==> keys.len() > 0,
        Qmp::chord_request(keys) matches Some(arguments) ==> arguments == input_arguments(
            Seq::new(
                2 * keys.len(),
                |i: int|
                    if i < keys.len() {
                        HardwareEventView::Key { key: keys[i], down: true }
                    } else {
                        HardwareEventView::Key {
                            key: keys[2 * keys.len() - 1 - i],
                            down: false,
                        }
                    },
            ),
        ),
{
    let expected = Seq::new(
        2 * keys.len(),
        |i: int|
            if i < keys.len() {
                HardwareEventView::Key { key: keys[i], down: true }
            } else {
                HardwareEventView::Key { key: keys[2 * keys.len() - 1 - i], down: false }
            },
    );
    assert(chord_events(keys) =~= expected);
}

} // verus!
