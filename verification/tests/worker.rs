use chat_relay::address::Address;
use chat_relay::event::Event;
use chat_relay::worker::{Command, Phase, Signal, Worker, READ_LIMIT};

fn here() -> Address {
    Address::V6 { ip: 1, port: 1337, flowinfo: 0, scope_id: 0 }
}

fn at(phase: Phase<u8>) -> Worker<u8> {
    Worker { address: here(), phase }
}

fn named(reply: &[u8]) -> String {
    let (_, event) = at(Phase::AwaitingName { output_channel: 5 }).advance(Signal::Read { bytes: reply });
    match event {
        Some(Event::Connected { display_name, .. }) => display_name,
        _ => panic!("the read after the prompt announces the client"),
    }
}

fn heard(bytes: &[u8]) -> String {
    let (_, event) = at(Phase::Relaying).advance(Signal::Read { bytes });
    match event {
        Some(Event::TextReceived { content, .. }) => content,
        _ => panic!("a read of some bytes is a message"),
    }
}

#[test]
fn fresh_worker_asks_for_the_prompt() {
    let worker = Worker::new(here(), 5u8);
    assert_eq!(worker, at(Phase::Greeting { output_channel: 5 }));
    assert_eq!(worker.command(), Command::Write { text: "Enter your name: " });
}

#[test]
fn commands_by_phase() {
    assert_eq!(
        at(Phase::AwaitingName { output_channel: 5 }).command(),
        Command::Read { limit: 1024 }
    );
    assert_eq!(at(Phase::Relaying).command(), Command::Read { limit: 1024 });
    assert_eq!(at(Phase::Stopped).command(), Command::Stop);
}

#[test]
fn prompt_written_leads_to_the_name() {
    let (next, event) = Worker::new(here(), 5u8).advance(Signal::Written);
    assert_eq!(next, at(Phase::AwaitingName { output_channel: 5 }));
    assert_eq!(event, None);
}

#[test]
fn failed_prompt_ends_the_worker_silently() {
    let (next, event) = Worker::new(here(), 5u8).advance(Signal::WriteFailed);
    assert_eq!(next, at(Phase::Stopped));
    assert_eq!(event, None);
}

#[test]
fn failed_name_read_ends_the_worker_silently() {
    let (next, event) = at(Phase::AwaitingName { output_channel: 5 }).advance(Signal::ReadFailed);
    assert_eq!(next, at(Phase::Stopped));
    assert_eq!(event, None);
}

#[test]
fn name_read_announces_the_client() {
    let (next, event) =
        at(Phase::AwaitingName { output_channel: 5 }).advance(Signal::Read { bytes: b"alice\n" });
    assert_eq!(next, at(Phase::Relaying));
    assert_eq!(
        event,
        Some(Event::Connected {
            address: here(),
            display_name: String::from("alice"),
            output_channel: 5
        })
    );
}

#[test]
fn name_loses_only_its_trailing_newlines() {
    assert_eq!(named(b"alice"), "alice");
    assert_eq!(named(b"alice\n"), "alice");
    assert_eq!(named(b"alice\n\n\n"), "alice");
    assert_eq!(named(b"al\nice\n"), "al\nice");
    assert_eq!(named(b"\nalice"), "\nalice");
    assert_eq!(named(b"alice\r\n"), "alice\r");
    assert_eq!(named(b" alice \n"), " alice ");
}

#[test]
fn name_may_be_empty() {
    assert_eq!(named(b""), "");
    assert_eq!(named(b"\n"), "");
    assert_eq!(named(b"\n\n"), "");
}

#[test]
fn name_is_decoded_leniently() {
    assert_eq!(named(b"zo\xc3\xab\n"), "zoë");
    assert_eq!(named(b"a\xffb\n"), "a\u{fffd}b");
    assert_eq!(named(b"\xff\n"), "\u{fffd}");
}

#[test]
fn read_limit_is_one_kibibyte() {
    assert_eq!(READ_LIMIT, 1024);
}

#[test]
fn name_of_a_full_read() {
    let reply = [b'x'; 1024];
    assert_eq!(named(&reply), "x".repeat(1024));
    let reply = [b'\n'; 1024];
    assert_eq!(named(&reply), "");
}

#[test]
fn read_of_bytes_is_a_message() {
    let (next, event) = at(Phase::Relaying).advance(Signal::Read { bytes: b"hello\n" });
    assert_eq!(next, at(Phase::Relaying));
    assert_eq!(
        event,
        Some(Event::TextReceived { address: here(), content: String::from("hello\n") })
    );
}

#[test]
fn message_keeps_what_was_sent() {
    assert_eq!(heard(b"\n"), "\n");
    assert_eq!(heard(b"  \n"), "  \n");
    assert_eq!(heard(b"a\nb\n\n"), "a\nb\n\n");
    assert_eq!(heard(b"no newline"), "no newline");
    assert_eq!(heard(b"\0"), "\0");
}

#[test]
fn message_is_decoded_leniently() {
    assert_eq!(heard(b"hi\xff"), "hi\u{fffd}");
    assert_eq!(heard(b"\xe2\x9c\x93 ok\n"), "✓ ok\n");
    assert_eq!(heard(b"\xe2\x9c"), "\u{fffd}");
    assert_eq!(heard(b"\xc0\xaf"), "\u{fffd}\u{fffd}");
}

#[test]
fn read_of_nothing_is_the_end() {
    let (next, event) = at(Phase::Relaying).advance(Signal::Read { bytes: b"" });
    assert_eq!(next, at(Phase::Stopped));
    assert_eq!(event, Some(Event::Disconnected { address: here() }));
}

#[test]
fn failed_read_is_passed_over() {
    let (next, event) = at(Phase::Relaying).advance(Signal::ReadFailed);
    assert_eq!(next, at(Phase::Relaying));
    assert_eq!(event, None);
    let (next, event) = next.advance(Signal::Read { bytes: b"still here\n" });
    assert_eq!(next, at(Phase::Relaying));
    assert_eq!(
        event,
        Some(Event::TextReceived { address: here(), content: String::from("still here\n") })
    );
}

#[test]
fn stopped_worker_stays_stopped() {
    let signals = [
        Signal::Written,
        Signal::WriteFailed,
        Signal::Read { bytes: b"x" },
        Signal::Read { bytes: b"" },
        Signal::ReadFailed,
    ];
    for signal in signals {
        let (next, event) = at(Phase::Stopped).advance(signal);
        assert_eq!(next, at(Phase::Stopped));
        assert_eq!(event, None);
    }
}

#[test]
fn signal_that_answers_nothing_is_ignored() {
    for signal in [Signal::Read { bytes: b"alice\n" }, Signal::ReadFailed] {
        let (next, event) = Worker::new(here(), 5u8).advance(signal);
        assert_eq!(next, at(Phase::Greeting { output_channel: 5 }));
        assert_eq!(event, None);
    }
    for signal in [Signal::Written, Signal::WriteFailed] {
        let (next, event) = at(Phase::AwaitingName { output_channel: 5 }).advance(signal);
        assert_eq!(next, at(Phase::AwaitingName { output_channel: 5 }));
        assert_eq!(event, None);
        let (next, event) = at(Phase::Relaying).advance(Signal::Written);
        assert_eq!(next, at(Phase::Relaying));
        assert_eq!(event, None);
    }
}

#[test]
fn empty_reply_to_the_prompt_still_announces() {
    let (next, event) =
        at(Phase::AwaitingName { output_channel: 5 }).advance(Signal::Read { bytes: b"" });
    assert_eq!(next, at(Phase::Relaying));
    assert_eq!(
        event,
        Some(Event::Connected { address: here(), display_name: String::new(), output_channel: 5 })
    );
    let (next, event) = next.advance(Signal::Read { bytes: b"" });
    assert_eq!(next, at(Phase::Stopped));
    assert_eq!(event, Some(Event::Disconnected { address: here() }));
}

#[test]
fn worker_events_come_in_order() {
    let mut worker = Worker::new(here(), 5u8);
    let mut events = Vec::new();
    let signals = [
        Signal::Written,
        Signal::Read { bytes: b"alice\n" },
        Signal::Read { bytes: b"one\n" },
        Signal::ReadFailed,
        Signal::Read { bytes: b"two\n" },
        Signal::Read { bytes: b"" },
        Signal::Read { bytes: b"late\n" },
        Signal::Read { bytes: b"" },
    ];
    for signal in signals {
        let (next, event) = worker.advance(signal);
        worker = next;
        events.extend(event);
    }
    assert_eq!(worker, at(Phase::Stopped));
    assert_eq!(
        events,
        vec![
            Event::Connected {
                address: here(),
                display_name: String::from("alice"),
                output_channel: 5
            },
            Event::TextReceived { address: here(), content: String::from("one\n") },
            Event::TextReceived { address: here(), content: String::from("two\n") },
            Event::Disconnected { address: here() },
        ]
    );
}
