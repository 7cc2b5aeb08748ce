//! The `log` command: a session that listens to one input port and shows
//! each message that arrives, until the user ends it.
//!
//! The session itself does no outside work. `run` is told what came of the
//! last request and answers with what to print and what to do next.

use crate::common::{
    asks, choice, menu, needs_answer, only_port_notice, only_port_text, port_index, port_menu,
    ChooseError,
};
use crate::decimal::{append_decimal, decimal};
use vstd::prelude::*;
use vstd::string::*;

verus! {

/// The name under which the MIDI client is created.
pub const CLIENT_NAME: &'static str = "midir reading input";

/// The name that the connection to the chosen port is given.
pub const CONNECTION_NAME: &'static str = "midir-read-input";

/// How far a session has come.
#[derive(Clone, Copy, Debug, PartialEq, Eq, Structural)]
pub enum Stage {
    /// Nothing has been asked for yet.
    Idle,
    /// The MIDI client is being created.
    Opening,
    /// The input ports are being listed.
    Listing,
    /// The user is choosing among `count` ports.
    Asking { count: usize },
    /// The connection to the chosen port is being opened.
    Connecting,
    /// The connection is open; a line from the user will close it.
    Listening,
    /// The session is over.
    Done,
}

/// What came of the last request.
#[derive(Debug, PartialEq, Eq)]
pub enum Event {
    /// The program has started.
    Start,
    /// The MIDI client exists.
    Ready,
    /// The input ports were listed; these are their names, in the order of
    /// the listing.
    Ports(Vec<String>),
    /// The user entered a line.
    Line(String),
    /// The connection is open; this is the name of its port.
    Connected(String),
    /// The request failed, with this message.
    Failed(String),
}

/// An `Event` as contracts see it.
pub enum EventView {
    Start,
    Ready,
    Ports(Seq<Seq<char>>),
    Line(Seq<char>),
    Connected(Seq<char>),
    Failed(Seq<char>),
}

impl View for Event {
    type V = EventView;

    open spec fn view(&self) -> EventView {
        match self {
            Event::Start => EventView::Start,
            Event::Ready => EventView::Ready,
            Event::Ports(names) => EventView::Ports(names.deep_view()),
            Event::Line(text) => EventView::Line(text@),
            Event::Connected(name) => EventView::Connected(name@),
            Event::Failed(message) => EventView::Failed(message@),
        }
    }
}

/// What the session wants done next.
#[derive(Clone, Copy, Debug, PartialEq, Eq, Structural)]
pub enum Request {
    /// Create the MIDI client, named `CLIENT_NAME`, with nothing filtered out.
    OpenClient,
    /// List the input ports and their names.
    ListPorts,
    /// Read a line from the user.
    ReadLine,
    /// Open a connection, named `CONNECTION_NAME`, to the port with this
    /// number in the listing, and print each message that arrives on it as
    /// `message_line` gives it.
    Connect { port: usize },
    /// Close the connection, if there is one, and end the program.
    Quit,
}

/// One answer of the session: a text to print as it is, and then a request.
#[derive(Debug, PartialEq, Eq)]
pub struct Action {
    pub say: String,
    pub request: Request,
}

/// An `Action` as contracts see it.
pub struct ActionView {
    pub say: Seq<char>,
    pub request: Request,
}

impl View for Action {
    type V = ActionView;

    open spec fn view(&self) -> ActionView {
        ActionView { say: self.say@, request: self.request }
    }
}

/// What the user reads when the session ends on a failure with the message
/// `message`.
pub open spec fn error_report(message: Seq<char>) -> Seq<char> {
    "Error: "@ + message + "\n"@
}

/// What the user reads before the connection is opened.
pub open spec fn opening_notice() -> Seq<char> {
    "\nOpening connection\n"@
}

/// What the user reads once the connection to the port named `name` is open.
pub open spec fn listening_notice(name: Seq<char>) -> Seq<char> {
    "Connection open, reading input from '"@ + name + "' (press enter to exit) ...\n"@
}

/// What the user reads when the connection is closed.
pub open spec fn closing_notice() -> Seq<char> {
    "Closing connection\n"@
}

/// The numerals of `bytes`, with a comma and a blank between one and the next.
pub open spec fn byte_list(bytes: Seq<u8>) -> Seq<char>
    decreases bytes.len(),
{
    if bytes.len() == 0 {
        Seq::empty()
    } else if bytes.len() == 1 {
        decimal(bytes[0] as nat)
    } else {
        byte_list(bytes.drop_last()) + ", "@ + decimal(bytes.last() as nat)
    }
}

/// The line that shows one message: the time stamp, the bytes in square
/// brackets, and how many bytes there are.
pub open spec fn message_text(stamp: u64, bytes: Seq<u8>) -> Seq<char> {
    decimal(stamp as nat) + ": ["@ + byte_list(bytes) + "] (len = "@ + decimal(bytes.len())
        + ")\n"@
}

/// Whether a session at `stage` is waiting for `event`. A failure can come
/// wherever a request is out.
pub open spec fn awaited(stage: Stage, event: EventView) -> bool {
    match stage {
        Stage::Idle => event is Start,
        Stage::Opening => event is Ready || event is Failed,
        Stage::Listing => event is Ports || event is Failed,
        Stage::Asking { .. } => event is Line || event is Failed,
        Stage::Connecting => event is Connected || event is Failed,
        Stage::Listening => event is Line || event is Failed,
        Stage::Done => false,
    }
}

/// How a session goes on once it is settled which port to take, `chosen`:
/// it opens the connection to the port, or ends on the error. `intro` is
/// printed before the notice of the opening.
pub open spec fn settled(chosen: Result<usize, ChooseError>, intro: Seq<char>) -> (
    Stage,
    ActionView,
) {
    match chosen {
        Ok(port) => (
            Stage::Connecting,
            ActionView { say: intro + opening_notice(), request: Request::Connect { port } },
        ),
        Err(e) => (Stage::Done, ActionView { say: error_report(e.text()), request: Request::Quit }),
    }
}

/// The stage that a session at `stage` comes to on `event`, and its answer.
pub open spec fn next(stage: Stage, event: EventView) -> (Stage, ActionView)
    recommends
        awaited(stage, event),
{
    match event {
        EventView::Start => (
            Stage::Opening,
            ActionView { say: Seq::empty(), request: Request::OpenClient },
        ),
        EventView::Ready => (
            Stage::Listing,
            ActionView { say: Seq::empty(), request: Request::ListPorts },
        ),
        EventView::Ports(names) => if asks(names.len()) {
            (
                Stage::Asking { count: names.len() as usize },
                ActionView { say: menu(names), request: Request::ReadLine },
            )
        } else {
            settled(
                choice(names.len(), Seq::empty()),
                if names.len() == 1 {
                    only_port_notice(names[0])
                } else {
                    Seq::empty()
                },
            )
        },
        EventView::Line(text) => match stage {
            Stage::Asking { count } => settled(choice(count as nat, text), Seq::empty()),
            _ => (Stage::Done, ActionView { say: closing_notice(), request: Request::Quit }),
        },
        EventView::Connected(name) => (
            Stage::Listening,
            ActionView { say: listening_notice(name), request: Request::ReadLine },
        ),
        EventView::Failed(message) => (
            Stage::Done,
            ActionView { say: error_report(message), request: Request::Quit },
        ),
    }
}

/// How many events a session at `stage` can take at most before it is over.
pub open spec fn remaining(stage: Stage) -> nat {
    match stage {
        Stage::Idle => 6,
        Stage::Opening => 5,
        Stage::Listing => 4,
        Stage::Asking { .. } => 3,
        Stage::Connecting => 2,
        Stage::Listening => 1,
        Stage::Done => 0,
    }
}

/// Whether a session that has come to `stage` has `request` out.
pub open spec fn fits(stage: Stage, request: Request) -> bool {
    match stage {
        Stage::Idle => false,
        Stage::Opening => request is OpenClient,
        Stage::Listing => request is ListPorts,
        Stage::Asking { .. } => request is ReadLine,
        Stage::Connecting => request is Connect,
        Stage::Listening => request is ReadLine,
        Stage::Done => request is Quit,
    }
}

/// Every step brings a session nearer to its end: none takes more than six
/// events, and one that is over takes no more.
pub proof fn lemma_run_advances(stage: Stage, event: EventView)
    requires
        awaited(stage, event),
    ensures
        remaining(next(stage, event).0) < remaining(stage),
{
}

/// The request of every answer is the one that the stage reached waits on. So
/// a session ends exactly when it asks to quit, and asks for a line exactly
/// when it goes on to wait for one.
pub proof fn lemma_request_fits(stage: Stage, event: EventView)
    requires
        awaited(stage, event),
    ensures
        fits(next(stage, event).0, next(stage, event).1.request),
{
}

/// A failure ends a session wherever it comes, and the user reads its
/// message.
pub proof fn lemma_failure_ends(stage: Stage, message: Seq<char>)
    requires
        stage != Stage::Idle,
        stage != Stage::Done,
    ensures
        awaited(stage, EventView::Failed(message)),
        next(stage, EventView::Failed(message)) == (
            Stage::Done,
            ActionView { say: error_report(message), request: Request::Quit },
        ),
{
}

/// The user is asked only after a listing of at least two ports, and is asked
/// to choose among as many ports as were listed.
pub proof fn lemma_asks_among_listed(stage: Stage, event: EventView)
    requires
        awaited(stage, event),
        next(stage, event).0 is Asking,
        event matches EventView::Ports(names) ==> names.len() <= usize::MAX,
    ensures
        stage is Listing,
        event matches EventView::Ports(names) && names.len() >= 2 && next(stage, event).0
            == (Stage::Asking { count: names.len() as usize }),
{
}

/// A connection is asked for only to a port of the listing: to the only port
/// there is, or to one of those that the user was asked to choose among.
pub proof fn lemma_connects_listed_port(stage: Stage, event: EventView)
    requires
        awaited(stage, event),
        next(stage, event).1.request is Connect,
    ensures
        match stage {
            Stage::Listing => event matches EventView::Ports(names) && names.len() == 1 && next(
                stage,
                event,
            ).1.request == (Request::Connect { port: 0 }),
            Stage::Asking { count } => next(stage, event).1.request->port < count,
            _ => false,
        },
{
}

/// The line that shows the message `message`, which came with the time stamp
/// `stamp`.
pub fn message_line(stamp: u64, message: &[u8]) -> (r: String)
    ensures
        r@ == message_text(stamp, message@),
{
    let mut out = String::new();
    append_decimal(&mut out, stamp);
    out.append(": [");
    let ghost head = out@;
    let mut i: usize = 0;
    assert(message@.take(0) =~= Seq::<u8>::empty());
    while i < message.len()
        invariant
            i <= message.len(),
            head == decimal(stamp as nat) + ": ["@,
            out@ == head + byte_list(message@.take(i as int)),
        decreases message.len() - i,
    {
        if i > 0 {
            out.append(", ");
        }
        append_decimal(&mut out, message[i] as u64);
        proof {
            let upto = message@.take(i + 1);
            assert(upto.drop_last() =~= message@.take(i as int));
            assert(out@ =~= head + byte_list(upto));
        }
        i = i + 1;
    }
    assert(message@.take(i as int) =~= message@);
    out.append("] (len = ");
    append_decimal(&mut out, message.len() as u64);
    out.append(")\n");
    out
}

/// The text that reports the failure `message`.
pub fn error_text(message: &str) -> (r: String)
    ensures
        r@ == error_report(message@),
{
    let mut out = String::from_str("Error: ");
    out.append(message);
    out.append("\n");
    out
}

/// Goes on once it is settled which port to take.
fn settle(chosen: Result<usize, ChooseError>, intro: String) -> (r: (Stage, Action))
    ensures
        (r.0, r.1@) == settled(chosen, intro@),
{
    match chosen {
        Ok(port) => {
            let mut say = intro;
            say.append("\nOpening connection\n");
            (Stage::Connecting, Action { say, request: Request::Connect { port } })
        },
        Err(e) => {
            let message = e.message();
            (Stage::Done, Action { say: error_text(message.as_str()), request: Request::Quit })
        },
    }
}

/// Takes a session at `stage` one step further: `event` is what came of its
/// last request, and the result is the stage it comes to and its answer. An
/// event that the session is not waiting for gets no answer.
pub fn run(stage: Stage, event: Event) -> (r: Option<(Stage, Action)>)
    ensures
        r is Some <==> awaited(stage, event@),
        r matches Some(step) ==> (step.0, step.1@) == next(stage, event@),
{
    match (stage, event) {
        (Stage::Idle, Event::Start) => Some(
            (Stage::Opening, Action { say: String::new(), request: Request::OpenClient }),
        ),
        (Stage::Opening, Event::Ready) => Some(
            (Stage::Listing, Action { say: String::new(), request: Request::ListPorts }),
        ),
        (Stage::Listing, Event::Ports(names)) => {
            let count = names.len();
            if needs_answer(count) {
                Some(
                    (
                        Stage::Asking { count },
                        Action { say: port_menu(&names), request: Request::ReadLine },
                    ),
                )
            } else {
                let intro = if count == 1 {
                    only_port_text(names[0].as_str())
                } else {
                    String::new()
                };
                Some(settle(port_index(count, ""), intro))
            }
        },
        (Stage::Asking { count }, Event::Line(text)) => Some(
            settle(port_index(count, text.as_str()), String::new()),
        ),
        (Stage::Connecting, Event::Connected(name)) => {
            let mut say = String::from_str("Connection open, reading input from '");
            say.append(name.as_str());
            say.append("' (press enter to exit) ...\n");
            Some((Stage::Listening, Action { say, request: Request::ReadLine }))
        },
        (Stage::Listening, Event::Line(_)) => Some(
            (
                Stage::Done,
                Action { say: String::from_str("Closing connection\n"), request: Request::Quit },
            ),
        ),
        (Stage::Opening, Event::Failed(message))
        | (Stage::Listing, Event::Failed(message))
        | (Stage::Asking { .. }, Event::Failed(message))
        | (Stage::Connecting, Event::Failed(message))
        | (Stage::Listening, Event::Failed(message)) => Some(
            (Stage::Done, Action { say: error_text(message.as_str()), request: Request::Quit }),
        ),
        _ => None,
    }
}

} // verus!
