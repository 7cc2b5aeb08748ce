use midilog::cmd::log::{error_text, message_line, run, Action, Event, Request, Stage};

fn step(stage: Stage, event: Event) -> (Stage, String, Request) {
    let (next, Action { say, request }) = run(stage, event).unwrap();
    (next, say, request)
}

fn names(list: &[&str]) -> Vec<String> {
    list.iter().map(|n| n.to_string()).collect()
}

#[test]
fn a_message_is_shown_with_stamp_bytes_and_length() {
    assert_eq!(message_line(1234, &[144, 60, 127]), "1234: [144, 60, 127] (len = 3)\n");
    assert_eq!(message_line(0, &[248]), "0: [248] (len = 1)\n");
}

#[test]
fn a_message_without_bytes_is_shown_with_empty_brackets() {
    assert_eq!(message_line(5, &[]), "5: [] (len = 0)\n");
}

#[test]
fn a_message_line_reads_as_the_standard_formatting() {
    let long: Vec<u8> = (0..=255u8).collect();
    let samples: [(u64, &[u8]); 5] = [
        (0, &[]),
        (1, &[0]),
        (u64::MAX, &[255, 0, 9, 10, 99, 100]),
        (1_000_000, &[0xF0, 0x7E, 0x7F, 0x06, 0x01, 0xF7]),
        (77, &long),
    ];
    for (stamp, message) in samples {
        assert_eq!(
            message_line(stamp, message),
            format!("{}: {:?} (len = {})\n", stamp, message, message.len())
        );
    }
}

#[test]
fn an_error_is_reported_on_one_line() {
    assert_eq!(error_text("no input port found"), "Error: no input port found\n");
    assert_eq!(error_text(""), "Error: \n");
}

#[test]
fn a_session_starts_by_creating_the_client() {
    assert_eq!(
        step(Stage::Idle, Event::Start),
        (Stage::Opening, String::new(), Request::OpenClient)
    );
    assert_eq!(
        step(Stage::Opening, Event::Ready),
        (Stage::Listing, String::new(), Request::ListPorts)
    );
}

#[test]
fn a_session_without_ports_ends_on_an_error() {
    assert_eq!(
        step(Stage::Listing, Event::Ports(Vec::new())),
        (Stage::Done, String::from("Error: no input port found\n"), Request::Quit)
    );
}

#[test]
fn a_session_with_one_port_takes_it_without_asking() {
    assert_eq!(
        step(Stage::Listing, Event::Ports(names(&["Keystation"]))),
        (
            Stage::Connecting,
            String::from(
                "Choosing the only available input port: Keystation\n\nOpening connection\n"
            ),
            Request::Connect { port: 0 }
        )
    );
}

#[test]
fn a_session_with_several_ports_asks() {
    assert_eq!(
        step(Stage::Listing, Event::Ports(names(&["Through", "Keystation"]))),
        (
            Stage::Asking { count: 2 },
            String::from(
                "\nAvailable input ports:\n0: Through\n1: Keystation\nPlease select input port: "
            ),
            Request::ReadLine
        )
    );
}

#[test]
fn a_valid_answer_opens_the_connection() {
    assert_eq!(
        step(Stage::Asking { count: 2 }, Event::Line(String::from("1\n"))),
        (
            Stage::Connecting,
            String::from("\nOpening connection\n"),
            Request::Connect { port: 1 }
        )
    );
}

#[test]
fn an_answer_out_of_range_ends_the_session() {
    assert_eq!(
        step(Stage::Asking { count: 2 }, Event::Line(String::from("2\n"))),
        (Stage::Done, String::from("Error: invalid input port selected\n"), Request::Quit)
    );
}

#[test]
fn an_answer_that_is_no_number_ends_the_session() {
    assert_eq!(
        step(Stage::Asking { count: 2 }, Event::Line(String::from("first\n"))),
        (Stage::Done, String::from("Error: invalid digit found in string\n"), Request::Quit)
    );
    assert_eq!(
        step(Stage::Asking { count: 2 }, Event::Line(String::from("\n"))),
        (
            Stage::Done,
            String::from("Error: cannot parse integer from empty string\n"),
            Request::Quit
        )
    );
}

#[test]
fn an_open_connection_waits_for_a_line() {
    assert_eq!(
        step(Stage::Connecting, Event::Connected(String::from("Keystation"))),
        (
            Stage::Listening,
            String::from(
                "Connection open, reading input from 'Keystation' (press enter to exit) ...\n"
            ),
            Request::ReadLine
        )
    );
}

#[test]
fn any_line_closes_the_connection() {
    for line in ["\n", "", "quit\n"] {
        assert_eq!(
            step(Stage::Listening, Event::Line(String::from(line))),
            (Stage::Done, String::from("Closing connection\n"), Request::Quit)
        );
    }
}

#[test]
fn a_failure_ends_the_session_wherever_it_comes() {
    let stages = [
        Stage::Opening,
        Stage::Listing,
        Stage::Asking { count: 3 },
        Stage::Connecting,
        Stage::Listening,
    ];
    for stage in stages {
        assert_eq!(
            step(stage, Event::Failed(String::from("MIDI support could not be initialized"))),
            (
                Stage::Done,
                String::from("Error: MIDI support could not be initialized\n"),
                Request::Quit
            )
        );
    }
}

#[test]
fn an_event_that_is_not_awaited_gets_no_answer() {
    assert_eq!(run(Stage::Idle, Event::Ready), None);
    assert_eq!(run(Stage::Idle, Event::Failed(String::from("x"))), None);
    assert_eq!(run(Stage::Opening, Event::Start), None);
    assert_eq!(run(Stage::Opening, Event::Line(String::from("1\n"))), None);
    assert_eq!(run(Stage::Listing, Event::Connected(String::from("a"))), None);
    assert_eq!(run(Stage::Asking { count: 2 }, Event::Ports(Vec::new())), None);
    assert_eq!(run(Stage::Connecting, Event::Line(String::new())), None);
    assert_eq!(run(Stage::Listening, Event::Connected(String::from("a"))), None);
}

#[test]
fn a_finished_session_takes_no_more_events() {
    assert_eq!(run(Stage::Done, Event::Start), None);
    assert_eq!(run(Stage::Done, Event::Ready), None);
    assert_eq!(run(Stage::Done, Event::Ports(names(&["a"]))), None);
    assert_eq!(run(Stage::Done, Event::Line(String::new())), None);
    assert_eq!(run(Stage::Done, Event::Connected(String::new())), None);
    assert_eq!(run(Stage::Done, Event::Failed(String::new())), None);
}

#[test]
fn a_whole_session_with_a_choice() {
    let script = vec![
        Event::Start,
        Event::Ready,
        Event::Ports(names(&["Through", "Keystation", "Launchpad"])),
        Event::Line(String::from(" 2\n")),
        Event::Connected(String::from("Launchpad")),
        Event::Line(String::from("\n")),
    ];
    let mut stage = Stage::Idle;
    let mut printed = String::new();
    let mut requests = Vec::new();
    for event in script {
        let (next, say, request) = step(stage, event);
        stage = next;
        printed.push_str(&say);
        requests.push(request);
    }
    assert_eq!(stage, Stage::Done);
    assert_eq!(
        requests,
        vec![
            Request::OpenClient,
            Request::ListPorts,
            Request::ReadLine,
            Request::Connect { port: 2 },
            Request::ReadLine,
            Request::Quit,
        ]
    );
    assert_eq!(
        printed,
        "\nAvailable input ports:\n0: Through\n1: Keystation\n2: Launchpad\n\
         Please select input port: \nOpening connection\n\
         Connection open, reading input from 'Launchpad' (press enter to exit) ...\n\
         Closing connection\n"
    );
}

#[test]
fn a_whole_session_with_one_port() {
    let script = vec![
        Event::Start,
        Event::Ready,
        Event::Ports(names(&["Keystation"])),
        Event::Connected(String::from("Keystation")),
        Event::Line(String::from("\n")),
    ];
    let mut stage = Stage::Idle;
    let mut printed = String::new();
    for event in script {
        let (next, say, _) = step(stage, event);
        stage = next;
        printed.push_str(&say);
    }
    assert_eq!(stage, Stage::Done);
    assert_eq!(
        printed,
        "Choosing the only available input port: Keystation\n\nOpening connection\n\
         Connection open, reading input from 'Keystation' (press enter to exit) ...\n\
         Closing connection\n"
    );
}
