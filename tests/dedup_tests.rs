use alertaemcena::agenda_cultural::api::AgendaCulturalAPI;
use alertaemcena::agenda_cultural::model::{Event, EventDetails, MonthBucket, Schedule};
use alertaemcena::api::{filter_new_events_by_thread, filter_unsent, get_sent_events};
use alertaemcena::calendar::CivilDate;
use alertaemcena::discord::api::{resolve_date_thread, DateThread, EventsThread};
use alertaemcena::discord::model::{ChannelMessage, EmbedInfo, ThreadInfo};

fn event(title: &str, link: &str) -> Event {
    Event::new(
        title.to_string(),
        EventDetails::new(String::new(), String::new(), String::new()),
        link.to_string(),
        Schedule::new(String::new(), String::new()),
        String::new(),
        vec![],
    )
}

fn posted(id: u64, url: Option<&str>) -> ChannelMessage {
    ChannelMessage {
        id,
        author_id: 900,
        regular: true,
        is_reply: false,
        pinned: false,
        content: String::new(),
        embeds: vec![EmbedInfo {
            title: None,
            url: url.map(|u| u.to_string()),
            description: None,
            fields: vec![],
        }],
    }
}

#[test]
fn should_read_events() {
    let histories = vec![
        vec![posted(1, Some("https://e/a")), posted(2, None)],
        vec![posted(3, Some("https://e/b"))],
    ];
    let sent = get_sent_events(&histories);
    assert_eq!(sent, vec!["https://e/a".to_string(), "https://e/b".to_string()]);
}

#[test]
fn new_candidates_all_pass() {
    let sent = vec!["https://e/a".to_string(), "https://e/b".to_string()];
    let candidates = vec![event("c", "https://e/c"), event("d", "https://e/d"), event("e", "https://e/e")];
    assert_eq!(filter_unsent(candidates, &sent).len(), 3);
}

#[test]
fn posted_candidates_are_dropped() {
    let sent = vec!["https://e/a".to_string(), "https://e/b".to_string()];
    let candidates = vec![event("a", "https://e/a"), event("c", "https://e/c"), event("b", "https://e/b")];
    let kept = filter_unsent(candidates, &sent);
    assert_eq!(kept.len(), 1);
    assert_eq!(kept[0].link, "https://e/c");
}

#[test]
fn api_should_filter_sent_events() {
    let month = CivilDate::from_ymd_opt(2023, 1, 1).unwrap();
    let buckets = vec![MonthBucket { month, events: vec![event("x", "https://e/x")] }];
    let result = filter_new_events_by_thread(buckets, &vec![EventsThread::new(77)], &vec![]);
    assert_eq!(result.len(), 1);
    assert_eq!(result[0].0.thread_id, 77);
    assert_eq!(result[0].1.len(), 1);
    let buckets = vec![MonthBucket { month, events: vec![event("x", "https://e/x")] }];
    let result = filter_new_events_by_thread(buckets, &vec![EventsThread::new(77)], &vec!["https://e/x".to_string()]);
    assert!(result[0].1.is_empty());
}

#[test]
fn end_to_end_event_is_posted_once() {
    let link = "https://example/nora-helmer";
    let today = CivilDate::from_ymd_opt(2025, 3, 1).unwrap();
    let start = CivilDate::from_ymd_opt(2025, 3, 15).unwrap();
    let mut threads: Vec<ThreadInfo> = vec![];
    let mut history: Vec<ChannelMessage> = vec![];

    let buckets = AgendaCulturalAPI::group_events_by_month(vec![(Some(start), event("Nora Helmer", link))], today);
    assert_eq!(buckets.len(), 1);
    let thread = match resolve_date_thread(&threads, &buckets[0].month) {
        DateThread::Create(name) => {
            assert_eq!(name, "Março 2025");
            threads.push(ThreadInfo { id: 501, name, parent_id: Some(1) });
            EventsThread::new(501)
        }
        DateThread::Existing(_) => panic!("the channel is empty"),
    };
    let sent = get_sent_events(&vec![history.clone()]);
    let new_events = filter_new_events_by_thread(buckets, &vec![thread], &sent);
    assert_eq!(new_events[0].1.len(), 1);
    for e in &new_events[0].1 {
        history.push(posted(1, Some(&e.link)));
    }

    let buckets = AgendaCulturalAPI::group_events_by_month(vec![(Some(start), event("Nora Helmer", link))], today);
    let again = match resolve_date_thread(&threads, &buckets[0].month) {
        DateThread::Existing(t) => t,
        DateThread::Create(_) => panic!("the channel exists"),
    };
    assert_eq!(again, thread);
    let sent = get_sent_events(&vec![history.clone()]);
    let new_events = filter_new_events_by_thread(buckets, &vec![again], &sent);
    assert!(new_events[0].1.is_empty());
    assert_eq!(history.len(), 1);
}
