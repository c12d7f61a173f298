use led_blinker::led::{LedCommand, LedController, TaskStep};
use led_blinker::poll::PollError;
use led_blinker::stream::StreamEvent;
use led_blinker::supervisor::{
    digest_item, synthesize_id, wait_for_source, BlinkDecision, StreamChange, StreamSource,
    Supervisor, WaitDecision, SOURCE_RETRY_SECS, STREAM_RESTART_SECS, SYNTHETIC_IDS,
};
use led_blinker::tracker::NotificationTracker;
use std::collections::hash_map::DefaultHasher;
use std::hash::{Hash, Hasher};

const NOTIFY_HEADER: &str = "method call time=1.0 sender=:1.42 -> destination=:1.7 serial=9 path=/org/freedesktop/Notifications; interface=org.freedesktop.Notifications; member=Notify";
const CLOSED_HEADER: &str = "signal time=2.0 sender=:1.7 -> destination=(null destination) serial=31 path=/org/freedesktop/Notifications; interface=org.freedesktop.Notifications; member=NotificationClosed";

fn source(patterns: &[&str], case_insensitive: bool) -> StreamSource {
    let patterns = patterns.iter().map(|s| s.to_string()).collect();
    StreamSource::new(NotificationTracker::new(patterns, case_insensitive).expect("patterns compile"))
}

/// The digest of the three texts and the time, hashed one after the other.
fn hashed(origin: &str, title: &str, body: &str, arrival_micros: u128) -> u64 {
    let mut hasher = DefaultHasher::new();
    origin.hash(&mut hasher);
    title.hash(&mut hasher);
    body.hash(&mut hasher);
    arrival_micros.hash(&mut hasher);
    hasher.finish()
}

fn complete(origin: &str, title: &str, body: &str) -> StreamEvent {
    StreamEvent::ItemComplete {
        origin: origin.to_string(),
        title: title.to_string(),
        body: body.to_string(),
    }
}

fn blinking() -> Supervisor {
    Supervisor { currently_blinking: true }
}

#[test]
fn waits_are_fixed() {
    assert_eq!(SOURCE_RETRY_SECS, 10);
    assert_eq!(STREAM_RESTART_SECS, 5);
    assert_eq!(wait_for_source(true), WaitDecision::Proceed);
    assert_eq!(wait_for_source(false), WaitDecision::RetryAfter { secs: 10 });
}

#[test]
fn made_up_identifier_is_the_low_half_reduced() {
    assert_eq!(SYNTHETIC_IDS, 1_000_000);
    assert_eq!(synthesize_id(0), 0);
    assert_eq!(synthesize_id(999_999), 999_999);
    assert_eq!(synthesize_id(1_000_000), 0);
    assert_eq!(synthesize_id(0x1_0000_0000 + 1_234_567), 234_567);
    assert_eq!(synthesize_id(0xFFFF_FFFF), 967_295);
    assert_eq!(synthesize_id(u64::MAX), 967_295);
    assert_eq!(synthesize_id(0xDEAD_BEEF_0000_002A), 42);
    for digest in [1u64, 77, 1 << 40, u64::MAX - 5, 0x0123_4567_89AB_CDEF] {
        assert_eq!(synthesize_id(digest), (digest as u32) % 1_000_000);
        assert!(synthesize_id(digest) < SYNTHETIC_IDS);
    }
}

#[test]
fn condition_decides_between_start_stop_and_keep() {
    let idle = Supervisor::new();
    assert!(!idle.currently_blinking);
    assert_eq!(idle.on_condition(true), BlinkDecision::Start);
    assert_eq!(idle.on_condition(false), BlinkDecision::Keep);
    assert_eq!(blinking().on_condition(true), BlinkDecision::Keep);
    assert_eq!(blinking().on_condition(false), BlinkDecision::Stop);
}

#[test]
fn change_decides_for_matches_and_clears() {
    let idle = Supervisor::new();
    assert_eq!(idle.on_change(StreamChange::Added { id: 1, matched: true }), BlinkDecision::Start);
    assert_eq!(idle.on_change(StreamChange::Added { id: 1, matched: false }), BlinkDecision::Keep);
    assert_eq!(idle.on_change(StreamChange::Cleared), BlinkDecision::Keep);
    assert_eq!(idle.on_change(StreamChange::Unchanged), BlinkDecision::Keep);
    assert_eq!(blinking().on_change(StreamChange::Added { id: 1, matched: true }), BlinkDecision::Keep);
    assert_eq!(blinking().on_change(StreamChange::Added { id: 1, matched: false }), BlinkDecision::Keep);
    assert_eq!(blinking().on_change(StreamChange::Cleared), BlinkDecision::Stop);
    assert_eq!(blinking().on_change(StreamChange::Unchanged), BlinkDecision::Keep);
}

#[test]
fn probe_decides_by_its_count_and_keeps_on_failure() {
    let idle = Supervisor::new();
    assert_eq!(idle.on_probe(&Ok(3)), BlinkDecision::Start);
    assert_eq!(idle.on_probe(&Ok(0)), BlinkDecision::Keep);
    assert_eq!(blinking().on_probe(&Ok(1)), BlinkDecision::Keep);
    assert_eq!(blinking().on_probe(&Ok(0)), BlinkDecision::Stop);
    for error in [PollError::Unavailable, PollError::RequestFailed { status: 500 }, PollError::Malformed] {
        assert_eq!(idle.on_probe(&Err(error)), BlinkDecision::Keep);
        assert_eq!(blinking().on_probe(&Err(error)), BlinkDecision::Keep);
    }
}

#[test]
fn unavailable_source_stops_the_blink() {
    assert_eq!(Supervisor::new().on_source_unavailable(), BlinkDecision::Keep);
    assert_eq!(blinking().on_source_unavailable(), BlinkDecision::Stop);
}

#[test]
fn confirm_follows_what_was_carried_out() {
    let mut s = Supervisor::new();
    s.confirm(BlinkDecision::Start, false);
    assert!(!s.currently_blinking);
    assert_eq!(s.on_condition(true), BlinkDecision::Start);
    s.confirm(BlinkDecision::Start, true);
    assert!(s.currently_blinking);
    assert_eq!(s.on_condition(true), BlinkDecision::Keep);
    s.confirm(BlinkDecision::Keep, true);
    assert!(s.currently_blinking);
    s.confirm(BlinkDecision::Stop, false);
    assert!(s.currently_blinking);
    s.confirm(BlinkDecision::Stop, true);
    assert!(!s.currently_blinking);
    assert_eq!(s.on_condition(false), BlinkDecision::Keep);
}

#[test]
fn digest_is_the_hash_of_texts_and_time() {
    let cases: [(&str, &str, &str, u128); 6] = [
        ("", "", "", 0),
        ("mail", "URGENT: action needed", "", 1_700_000_000_123_456),
        ("a", "bc", "", 5),
        ("ab", "c", "", 5),
        ("caf\u{e9}", "\u{1F600}", "line\nbreak", u128::MAX),
        ("x", "y", "z", 1 << 64),
    ];
    for (origin, title, body, at) in cases {
        assert_eq!(digest_item(origin, title, body, at), hashed(origin, title, body, at));
    }
    assert!(digest_item("a", "bc", "", 5) != digest_item("ab", "c", "", 5));
    assert!(digest_item("a", "b", "c", 5) != digest_item("a", "b", "c", 6));
}

#[test]
fn stream_source_records_complete_and_closed_items() {
    let mut src = source(&["urgent"], true);
    assert!(!src.has_match());
    assert_eq!(src.record(&StreamEvent::NewItemStarted, 5), StreamChange::Unchanged);
    let field = StreamEvent::FieldExtracted {
        slot: led_blinker::stream::Slot::Title,
        value: "urgent".to_string(),
    };
    assert_eq!(src.record(&field, 5), StreamChange::Unchanged);
    assert_eq!(src.tracker().len(), 0);

    let urgent = complete("mail", "URGENT: action needed", "");
    let urgent_id = synthesize_id(hashed("mail", "URGENT: action needed", "", 1_000));
    assert_eq!(src.record(&urgent, 1_000), StreamChange::Added { id: urgent_id, matched: true });
    assert_eq!(src.count_matches(), 1);

    let calm = complete("chat", "hello", "nothing pressing");
    let calm_id = synthesize_id(hashed("chat", "hello", "nothing pressing", 2_000));
    assert_eq!(src.record(&calm, 2_000), StreamChange::Added { id: calm_id, matched: false });
    assert_eq!(src.count_matches(), 1);
    assert_eq!(src.tracker().len(), if calm_id == urgent_id { 1 } else { 2 });

    assert_eq!(src.record(&urgent, 1_000), StreamChange::Added { id: urgent_id, matched: true });
    assert_eq!(src.count_matches(), 1);

    assert_eq!(src.record(&StreamEvent::ItemClosed { raw_id: 9 }, 3_000), StreamChange::Cleared);
    assert_eq!(src.tracker().len(), 0);
    assert!(!src.has_match());
}

#[test]
fn stream_source_restart_keeps_the_items() {
    let mut src = source(&["x"], false);
    for line in [NOTIFY_HEADER, "   string \"x\"", "   string \"\"", "   string \"t\"", "   string \"b\""] {
        for event in src.feed_line(line) {
            src.record(&event, 3);
        }
    }
    assert_eq!(src.count_matches(), 1);
    src.feed_line(NOTIFY_HEADER);
    src.feed_line("   string \"half\"");
    src.restart();
    assert_eq!(src.count_matches(), 1);
    assert!(src.feed_line("   string \"\"").is_empty());
    assert!(src.feed_line("   uint32 4").is_empty());
}

#[test]
fn urgent_notification_ends_with_the_device_on() {
    let mut src = source(&["urgent"], true);
    let mut supervisor = Supervisor::new();
    let (mut led, first) = LedController::new("/sys/class/leds/x/brightness".to_string(), 500);
    let mut device = vec![match first {
        LedCommand::Write { on } => on,
        other => panic!("unexpected command {:?}", other),
    }];
    let mut task = None;
    let lines = [
        NOTIFY_HEADER,
        "   string \"mail\"",
        "   uint32 0",
        "   string \"\"",
        "   string \"URGENT: action needed\"",
        "   string \"\"",
    ];
    for (n, line) in lines.iter().enumerate() {
        for event in src.feed_line(line) {
            let change = src.record(&event, n as u128);
            let decision = supervisor.on_change(change);
            if decision == BlinkDecision::Start {
                for command in led.start_blinking() {
                    match command {
                        LedCommand::Launch { task: launched } => task = Some(launched),
                        other => panic!("unexpected command {:?}", other),
                    }
                }
            }
            supervisor.confirm(decision, true);
        }
    }
    assert_eq!(src.count_matches(), 1);
    assert!(supervisor.currently_blinking);
    assert!(led.is_blinking());
    let mut task = task.expect("a task was launched");
    match task.step(led.is_cancelled(task.generation)) {
        TaskStep::Toggle { on, .. } => device.push(on),
        other => panic!("unexpected step {:?}", other),
    }
    assert_eq!(device, vec![false, true]);

    for line in [CLOSED_HEADER, "   uint32 1"] {
        for event in src.feed_line(line) {
            let change = src.record(&event, 0);
            let decision = supervisor.on_change(change);
            assert_eq!(decision, BlinkDecision::Stop);
            for command in led.stop_blinking() {
                if let LedCommand::Write { on } = command {
                    device.push(on);
                }
            }
            supervisor.confirm(decision, true);
        }
    }
    assert_eq!(device.last(), Some(&false));
    assert!(!supervisor.currently_blinking);
    assert_eq!(supervisor.on_condition(src.has_match()), BlinkDecision::Keep);
    assert_eq!(task.step(led.is_cancelled(task.generation)), TaskStep::Finish);

    let decision = supervisor.on_condition(true);
    assert_eq!(decision, BlinkDecision::Start);
    let commands = led.start_blinking();
    supervisor.confirm(decision, true);
    let mut next = match commands[0] {
        LedCommand::Launch { task } => task,
        other => panic!("unexpected command {:?}", other),
    };
    match next.step(led.is_cancelled(next.generation)) {
        TaskStep::Toggle { on, .. } => device.push(on),
        other => panic!("unexpected step {:?}", other),
    }
    assert_eq!(device.last(), Some(&true));
    assert_eq!(src.tracker().len(), 0);
}
