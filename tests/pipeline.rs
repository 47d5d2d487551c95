use murasaki::config::{TransformConfig, VoiceVoxConfig};
use murasaki::event::{Event, EventKind};
use murasaki::metadata::ProfileMetadata;
use murasaki::narrator::{connect_message, metadata_from_events, select_metadata, Narrator, Step};
use murasaki::subscription::{dedup_contacts, subscription_plan};
use murasaki::transformer::Transformer;
use murasaki::tts::{SayAction, SayEvent, SayState, TTS};

fn narrator(following: bool) -> Narrator {
    let t = Transformer::new(&TransformConfig {
        url_alternative_text: "URL省略".to_string(),
        max_length: 100,
        ellipsis_text: "…".to_string(),
        read_name: true,
    });
    Narrator::new(t, 300, 60, following, vec![9, 9])
}

fn event(kind: EventKind, author: u8, created_at: u64, content: &str) -> Event {
    Event { author: vec![author], kind, created_at, content: content.to_string() }
}

fn say(max_retry: u64, failures_before_success: Option<u64>) -> (SayAction, u64, u64) {
    let tts = TTS::new(&VoiceVoxConfig { url: "http://localhost:50021".to_string(), max_retry });
    let mut s = tts.begin_say();
    let mut action = s.step(SayEvent::QueryReady);
    let mut synth_calls: u64 = 0;
    let mut enqueues: u64 = 0;
    while action == SayAction::Synthesize {
        synth_calls += 1;
        let ok = matches!(failures_before_success, Some(n) if synth_calls > n);
        action = s.step(if ok { SayEvent::AttemptDecoded } else { SayEvent::AttemptFailed });
        if action == SayAction::Enqueue {
            enqueues += 1;
        }
    }
    assert_eq!(s.attempts, synth_calls);
    (action, synth_calls, enqueues)
}

#[test]
fn success_on_last_allowed_attempt() {
    assert_eq!(say(3, Some(2)), (SayAction::Enqueue, 3, 1));
    assert_eq!(say(3, Some(0)), (SayAction::Enqueue, 1, 1));
}

#[test]
fn permanent_failure_stops_at_budget() {
    assert_eq!(say(4, None), (SayAction::FailRetryLimit, 4, 0));
    assert_eq!(say(0, None), (SayAction::FailRetryLimit, 0, 0));
}

#[test]
fn query_failure_is_not_retried() {
    let mut s = SayState { max_retry: 5, attempts: 0 };
    assert_eq!(s.step(SayEvent::QueryFailed), SayAction::FailQuery);
    assert_eq!(s.attempts, 0);
}

#[test]
fn old_events_are_skipped() {
    let mut n = narrator(false);
    assert!(matches!(n.handle_event(&event(EventKind::TextNote, 1, 100, "hi"), 161), Step::SkipOld));
    assert!(matches!(n.handle_event(&event(EventKind::Reaction, 1, 100, "+"), 161), Step::SkipOld));
    assert!(matches!(n.handle_event(&event(EventKind::TextNote, 1, 100, "hi"), 160), Step::FetchMetadata));
    assert!(!n.is_old(200, 100));
}

#[test]
fn second_event_of_author_is_a_cache_hit() {
    let mut n = narrator(false);
    let e1 = event(EventKind::TextNote, 5, 1000, "one");
    let e2 = event(EventKind::TextNote, 5, 1001, "two");
    let mut fetches = 0;
    for (e, now) in [(&e1, 1000u64), (&e2, 1001u64)] {
        let text = match n.handle_event(e, now) {
            Step::FetchMetadata => {
                fetches += 1;
                let md = ProfileMetadata { display_name: Some("Eve".to_string()), name: None };
                n.narrate(e, Some(md), now)
            }
            Step::Speak(s) => s,
            _ => panic!("unexpected step"),
        };
        assert!(text.starts_with("Eveさん、"));
    }
    assert_eq!(fetches, 1);
}

#[test]
fn failed_fetch_narrates_without_name() {
    let mut n = narrator(false);
    let e = event(EventKind::TextNote, 5, 1000, "one");
    assert_eq!(n.narrate(&e, None, 1000), "one");
    assert!(matches!(n.handle_event(&e, 1000), Step::FetchMetadata));
}

#[test]
fn contact_list_of_self_resubscribes_in_following_mode() {
    let mut f = narrator(true);
    let own = Event { author: vec![9, 9], kind: EventKind::ContactList, created_at: 0, content: String::new() };
    assert!(matches!(f.handle_event(&own, 10_000), Step::Resubscribe));
    let other = event(EventKind::ContactList, 3, 0, "");
    assert!(matches!(f.handle_event(&other, 10_000), Step::Ignore));
    let mut u = narrator(false);
    assert!(matches!(u.handle_event(&own, 10_000), Step::Ignore));
    assert!(matches!(u.handle_event(&event(EventKind::Other, 1, 0, ""), 0), Step::Ignore));
}

#[test]
fn first_matching_metadata_event_is_selected() {
    let events = vec![
        event(EventKind::TextNote, 1, 0, ""),
        event(EventKind::Metadata, 2, 0, ""),
        event(EventKind::Metadata, 1, 0, "{}"),
        event(EventKind::Metadata, 1, 0, ""),
    ];
    assert_eq!(select_metadata(&events, &vec![1]), Some(2));
    assert_eq!(select_metadata(&events, &vec![3]), None);
}

#[test]
fn connect_message_names_mode() {
    assert_eq!(connect_message(true), "接続しました。フォロイングモードです。");
    assert_eq!(connect_message(false), "接続しました。ユニバースモードです。");
}

#[test]
fn contacts_are_deduplicated() {
    let d = dedup_contacts(&vec![vec![1], vec![2], vec![1], vec![3], vec![2]]);
    assert_eq!(d, vec![vec![1], vec![2], vec![3]]);
}

#[test]
fn plans_follow_mode() {
    let contacts = vec![vec![1], vec![1]];
    let universe = subscription_plan(&None, false, &contacts);
    assert_eq!(universe.len(), 1);
    assert_eq!(universe[0].kinds, vec![EventKind::TextNote]);
    let following = subscription_plan(&Some(vec![9]), true, &contacts);
    assert_eq!(following.len(), 2);
    assert_eq!(following[0].authors, Some(vec![vec![1]]));
    assert_eq!(following[1].mentions, Some(vec![9]));
    assert_eq!(following[1].kinds, vec![EventKind::TextNote, EventKind::Reaction, EventKind::ContactList]);
}

#[test]
fn metadata_is_parsed_from_first_matching_event() {
    let events = vec![
        event(EventKind::Metadata, 2, 0, "{\"name\":\"other\"}"),
        event(EventKind::Metadata, 1, 0, "{\"display_name\":\"Alice\",\"name\":\"alice\"}"),
        event(EventKind::Metadata, 1, 0, "{\"name\":\"later\"}"),
    ];
    let md = metadata_from_events(&events, &vec![1]).unwrap();
    assert_eq!(md.display_name, Some("Alice".to_string()));
    assert_eq!(md.name, Some("alice".to_string()));
    assert!(metadata_from_events(&events, &vec![3]).is_none());
}

#[test]
fn unparsable_metadata_gives_nothing() {
    let events = vec![event(EventKind::Metadata, 1, 0, "not json"), event(EventKind::Metadata, 1, 0, "{}")];
    assert!(metadata_from_events(&events, &vec![1]).is_none());
}

#[test]
fn newest_metadata_event_is_selected() {
    let events = vec![
        event(EventKind::Metadata, 1, 10, "{\"name\":\"old\"}"),
        event(EventKind::Metadata, 1, 30, "{\"name\":\"newest\"}"),
        event(EventKind::Metadata, 2, 99, "{\"name\":\"other\"}"),
        event(EventKind::Metadata, 1, 30, "{\"name\":\"tie\"}"),
        event(EventKind::Metadata, 1, 20, "{\"name\":\"middle\"}"),
    ];
    assert_eq!(select_metadata(&events, &vec![1]), Some(1));
    let md = metadata_from_events(&events, &vec![1]).unwrap();
    assert_eq!(md.name, Some("newest".to_string()));
}
