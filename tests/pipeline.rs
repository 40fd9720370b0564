use twitch_filter::aggregator::Aggregator;
use twitch_filter::batch::plan;
use twitch_filter::catalog::{unique_channels, Credentials, ResolutionError};
use twitch_filter::filter::{filter_chat, message_if_matched, FilterError, Message, RegexFilter};
use twitch_filter::run::{credentials_from, plan_run, require_category, select_source, RunError, Source};
use twitch_filter::watcher::{
    backoff_delay, join_targets, ChannelWatcher, ReconnectPolicy, SessionEvent, TerminationReason,
    WatcherAction, WatcherState,
};

fn channels(n: usize) -> Vec<String> {
    (0..n).map(|i| format!("chan{}", i)).collect()
}

fn policy() -> ReconnectPolicy {
    ReconnectPolicy { max_attempts: 3, base_delay_ms: 500, max_delay_ms: 1500 }
}

fn chat(channel: &str, sender: Option<&str>, text: &str) -> SessionEvent {
    SessionEvent::Chat {
        channel: channel.to_string(),
        sender: sender.map(|s| s.to_string()),
        text: text.to_string(),
    }
}

#[test]
fn plan_sizes_and_order() {
    let list = channels(250);
    let batches = plan(&list, 100);
    assert_eq!(batches.len(), 3);
    assert_eq!(batches.iter().map(|b| b.len()).collect::<Vec<_>>(), vec![100, 100, 50]);
    assert_eq!(batches.concat(), list);
    assert_eq!(batches[2][0], "chan200");
}

#[test]
fn plan_exact_multiple_has_no_empty_batch() {
    let list = channels(200);
    let batches = plan(&list, 100);
    assert_eq!(batches.len(), 2);
    assert!(batches.iter().all(|b| b.len() == 100));
}

#[test]
fn plan_edge_cases() {
    assert!(plan(&Vec::new(), 5).is_empty());
    let one = plan(&channels(1), 100);
    assert_eq!(one, vec![channels(1)]);
    let singles = plan(&channels(3), 1);
    assert_eq!(singles, vec![vec!["chan0".to_string()], vec!["chan1".to_string()], vec!["chan2".to_string()]]);
    let seven = plan(&channels(7), 3);
    assert_eq!(seven.iter().map(|b| b.len()).collect::<Vec<_>>(), vec![3, 3, 1]);
}

#[test]
fn plan_is_deterministic() {
    let list = channels(123);
    assert_eq!(plan(&list, 10), plan(&list, 10));
}

#[test]
fn filter_keeps_only_matching_text() {
    let filter = RegexFilter::new("https://.+").unwrap();
    let hit = filter_chat(
        &filter,
        "#chan".to_string(),
        Some("bob".to_string()),
        "check this out https://example.com".to_string(),
    );
    let m = hit.expect("a matching line gives a message");
    assert_eq!(m.channel, "#chan");
    assert_eq!(m.nickname, "bob");
    assert_eq!(m.msg, "check this out https://example.com");
    let miss = filter_chat(&filter, "#chan".to_string(), None, "hello everyone".to_string());
    assert!(miss.is_none());
}

#[test]
fn filter_rejects_bad_pattern() {
    assert_eq!(RegexFilter::new("foo(bar").err(), Some(FilterError::InvalidPattern));
    let f = RegexFilter::new("a+b").unwrap();
    assert_eq!(f.pattern(), "a+b");
    assert!(f.matches("xxaab"));
    assert!(!f.matches("ba"));
}

#[test]
fn unknown_sender_and_line_format() {
    let m = message_if_matched(true, "#c".to_string(), None, "hi".to_string()).unwrap();
    assert_eq!(m.nickname, "unknown");
    assert_eq!(m.to_string(), "#c | unknown: hi");
    assert!(message_if_matched(false, "#c".to_string(), None, "hi".to_string()).is_none());
    let line = Message { channel: "#a".to_string(), nickname: "n".to_string(), msg: "t".to_string() };
    assert_eq!(line.to_string(), "#a | n: t");
}

#[test]
fn join_targets_prefix_channels() {
    let targets = join_targets(&vec!["a".to_string(), "bc".to_string()]);
    assert_eq!(targets, vec!["#a".to_string(), "#bc".to_string()]);
    assert!(join_targets(&Vec::new()).is_empty());
}

#[test]
fn backoff_doubles_up_to_the_cap() {
    let p = policy();
    assert_eq!(backoff_delay(p, 0), 500);
    assert_eq!(backoff_delay(p, 1), 1000);
    assert_eq!(backoff_delay(p, 2), 1500);
    assert_eq!(backoff_delay(p, 10), 1500);
    let big = ReconnectPolicy { max_attempts: 1, base_delay_ms: u64::MAX, max_delay_ms: u64::MAX };
    assert_eq!(backoff_delay(big, 5), u64::MAX);
    let low = ReconnectPolicy { max_attempts: 1, base_delay_ms: 10, max_delay_ms: 3 };
    assert_eq!(backoff_delay(low, 0), 3);
}

#[test]
fn watcher_reads_filters_and_forwards() {
    let filter = RegexFilter::new("https://.+").unwrap();
    let mut w = ChannelWatcher::new(policy());
    assert!(matches!(w.start(), WatcherAction::Open));
    assert!(matches!(w.step(&filter, SessionEvent::Connected), WatcherAction::Receive));
    assert_eq!(w.state, WatcherState::Reading);
    assert!(matches!(w.step(&filter, chat("#a", Some("x"), "hello everyone")), WatcherAction::Receive));
    assert!(matches!(w.step(&filter, SessionEvent::Ignorable), WatcherAction::Receive));
    match w.step(&filter, chat("#a", Some("x"), "see https://example.com")) {
        WatcherAction::Forward(m) => assert_eq!(m.to_string(), "#a | x: see https://example.com"),
        _ => panic!("expected a forward"),
    }
    assert_eq!(w.state, WatcherState::Forwarding);
    assert!(matches!(w.step(&filter, SessionEvent::Delivered), WatcherAction::Receive));
    assert!(matches!(
        w.step(&filter, SessionEvent::QueueClosed),
        WatcherAction::Stop(TerminationReason::UnexpectedEvent)
    ));
}

#[test]
fn watcher_reconnects_with_backoff_then_gives_up() {
    let filter = RegexFilter::new("x").unwrap();
    let mut w = ChannelWatcher::new(policy());
    w.step(&filter, SessionEvent::Connected);
    assert!(matches!(w.step(&filter, SessionEvent::ReconnectDirective), WatcherAction::Reopen { delay_ms: 500 }));
    assert!(matches!(w.step(&filter, SessionEvent::Connected), WatcherAction::Receive));
    assert!(matches!(w.step(&filter, SessionEvent::TransportFailure), WatcherAction::Reopen { delay_ms: 500 }));
    assert!(matches!(w.step(&filter, SessionEvent::ConnectFailed), WatcherAction::Reopen { delay_ms: 1000 }));
    assert!(matches!(w.step(&filter, SessionEvent::JoinFailed), WatcherAction::Reopen { delay_ms: 1500 }));
    assert!(matches!(
        w.step(&filter, SessionEvent::TransportFailure),
        WatcherAction::Stop(TerminationReason::ReconnectExhausted)
    ));
    assert!(w.is_terminated());
    assert!(matches!(
        w.step(&filter, SessionEvent::Connected),
        WatcherAction::Stop(TerminationReason::ReconnectExhausted)
    ));
}

#[test]
fn watcher_terminal_failures() {
    let filter = RegexFilter::new("x").unwrap();
    let mut w = ChannelWatcher::new(policy());
    assert!(matches!(w.step(&filter, SessionEvent::ConnectFailed), WatcherAction::Stop(TerminationReason::ConnectFailed)));
    let mut w = ChannelWatcher::new(policy());
    assert!(matches!(w.step(&filter, SessionEvent::JoinFailed), WatcherAction::Stop(TerminationReason::JoinFailed)));
    let mut w = ChannelWatcher::new(policy());
    w.step(&filter, SessionEvent::Connected);
    assert!(matches!(w.step(&filter, SessionEvent::ParseFailure), WatcherAction::Stop(TerminationReason::ProtocolParseFailure)));
    let mut w = ChannelWatcher::new(policy());
    w.step(&filter, SessionEvent::Connected);
    assert!(matches!(w.step(&filter, SessionEvent::StreamEnded), WatcherAction::Stop(TerminationReason::StreamEnded)));
    let mut w = ChannelWatcher::new(policy());
    w.step(&filter, SessionEvent::Connected);
    w.step(&filter, chat("#a", None, "x"));
    assert!(matches!(w.step(&filter, SessionEvent::QueueClosed), WatcherAction::Stop(TerminationReason::QueueClosed)));
    let mut w = ChannelWatcher::new(ReconnectPolicy { max_attempts: 0, base_delay_ms: 1, max_delay_ms: 1 });
    w.step(&filter, SessionEvent::Connected);
    w.step(&filter, SessionEvent::TransportFailure);
    assert!(matches!(w.step(&filter, SessionEvent::ConnectFailed), WatcherAction::Stop(TerminationReason::ReconnectExhausted)));
}

#[test]
fn aggregator_emits_in_order_and_stops_on_close() {
    let mut agg = Aggregator::new();
    let m = |c: &str, t: &str| Message { channel: c.to_string(), nickname: "n".to_string(), msg: t.to_string() };
    assert_eq!(agg.on_receive(Some(m("#b", "2"))), Some("#b | n: 2".to_string()));
    assert_eq!(agg.on_receive(Some(m("#a", "1"))), Some("#a | n: 1".to_string()));
    assert!(!agg.is_finished());
    assert_eq!(agg.on_receive(None), None);
    assert!(agg.is_finished());
}

#[test]
fn end_to_end_three_watchers() {
    let list = channels(250);
    let batches = plan_run(&list, 100).unwrap();
    assert_eq!(batches.iter().map(|b| b.len()).collect::<Vec<_>>(), vec![100, 100, 50]);
    let filter = RegexFilter::new("https://.+").unwrap();
    let mut queue: Vec<Message> = Vec::new();
    for (i, batch) in batches.iter().enumerate() {
        let first = format!("#{}", batch[0]);
        let script = vec![
            SessionEvent::Connected,
            chat(&first, Some("u"), "hello everyone"),
            chat(&first, Some("u"), &format!("link https://site/{}", i)),
            SessionEvent::Delivered,
            chat(&first, Some("v"), "no link here"),
            SessionEvent::ParseFailure,
        ];
        let mut w = ChannelWatcher::new(policy());
        for event in script {
            if let WatcherAction::Forward(m) = w.step(&filter, event) {
                queue.push(m);
            }
        }
        assert!(w.is_terminated());
    }
    let mut agg = Aggregator::new();
    let mut out = Vec::new();
    let mut received = queue.into_iter();
    while let Some(line) = agg.on_receive(received.next()) {
        out.push(line);
    }
    assert!(agg.is_finished());
    assert_eq!(
        out,
        vec![
            "#chan0 | u: link https://site/0".to_string(),
            "#chan100 | u: link https://site/1".to_string(),
            "#chan200 | u: link https://site/2".to_string(),
        ]
    );
}

#[test]
fn run_decisions() {
    assert!(matches!(select_source(Some("Rust".to_string()), None), Ok(Source::Category(ref n)) if n == "Rust"));
    assert!(matches!(select_source(None, Some(vec!["a".to_string()])), Ok(Source::Channels(ref l)) if l.len() == 1));
    assert!(matches!(select_source(None, None), Err(RunError::BadArguments)));
    assert!(matches!(select_source(Some("x".to_string()), Some(Vec::new())), Err(RunError::BadArguments)));
    assert_eq!(plan_run(&channels(3), 0).err(), Some(RunError::InvalidBatchSize));
    assert_eq!(plan_run(&Vec::new(), 10).err(), Some(RunError::NoChannels));
    assert_eq!(require_category(Some("263490".to_string())), Ok("263490".to_string()));
    assert_eq!(require_category(None), Err(RunError::Resolution(ResolutionError::NotFound)));
    let c: Option<Credentials> = credentials_from(Some("id".to_string()), Some("tok".to_string()));
    let c = c.unwrap();
    assert_eq!((c.client_id.as_str(), c.access_token.as_str()), ("id", "tok"));
    assert!(credentials_from(Some("id".to_string()), None).is_none());
    assert_eq!(RunError::NoChannels.describe(), "No streams found");
    assert_eq!(RunError::Resolution(ResolutionError::NotFound).describe(), "Category not found");
    assert_eq!(RunError::BadArguments.describe(), "Bad arguments combination");
    assert_eq!(RunError::Resolution(ResolutionError::Unauthorized).describe(), "Unauthorized");
}

#[test]
fn plan_run_watches_each_channel_once() {
    let listed = vec!["a".to_string(), "B".to_string(), "a".to_string(), "b".to_string(), "c".to_string()];
    let batches = plan_run(&listed, 1).unwrap();
    assert_eq!(
        batches,
        vec![vec!["a".to_string()], vec!["b".to_string()], vec!["c".to_string()]]
    );
    let batches = plan_run(&listed, 2).unwrap();
    assert_eq!(batches, vec![vec!["a".to_string(), "b".to_string()], vec!["c".to_string()]]);
}

#[test]
fn unique_channels_lowers_and_drops_repeats() {
    let input = vec!["Zed".to_string(), "amy".to_string(), "ZED".to_string(), "Amy".to_string()];
    assert_eq!(unique_channels(&input), vec!["zed".to_string(), "amy".to_string()]);
    assert!(unique_channels(&Vec::new()).is_empty());
}
