use alertaemcena::agenda_cultural::api::AgendaCulturalAPI;
use alertaemcena::agenda_cultural::dto::{
    date_description_from, parse_start_date, EventResponse, ResponseEventTag, ResponseTitle,
    ResponseVenue,
};
use alertaemcena::agenda_cultural::model::{Category, Event, EventDetails, Schedule};
use alertaemcena::calendar::CivilDate;

fn date(year: i32, month: u32, day: u32) -> CivilDate {
    CivilDate::from_ymd_opt(year, month, day).unwrap()
}

fn titled(title: &str) -> Event {
    Event::new(
        title.to_string(),
        EventDetails::new(String::new(), String::new(), String::new()),
        String::new(),
        Schedule::new(String::new(), String::new()),
        String::new(),
        vec![],
    )
}

#[test]
fn when_a_date_spans_only_one_year_should_get_only_day_and_month() {
    let result = EventResponse::get_date_description("28 janeiro a 18 novembro 2025");
    assert_eq!(result, "28 janeiro a 18 novembro");
}

#[test]
fn when_a_date_spans_two_equal_years_should_get_both_day_month_and_year() {
    let result = EventResponse::get_date_description("2 março 2025 a 1 setembro 2025");
    assert_eq!(result, "2 março a 1 setembro");
}

#[test]
fn when_a_date_spans_two_different_years_should_get_both_day_month_and_year() {
    let result = EventResponse::get_date_description("2 novembro 2024 a 1 junho 2025");
    assert_eq!(result, "2 novembro 2024 a 1 junho 2025");
}

#[test]
fn when_a_date_has_only_one_day_should_get_day_and_month() {
    let result = EventResponse::get_date_description("3 maio 2025");
    assert_eq!(result, "3 maio");
}

#[test]
fn date_description_keeps_text_only_for_different_years() {
    let years = vec!["2024".to_string(), "2025".to_string()];
    assert_eq!(date_description_from("a 2024 b 2025", &years, "a b".to_string()), "a 2024 b 2025");
    let same = vec!["2025".to_string(), "2025".to_string()];
    assert_eq!(date_description_from("a 2025 b 2025", &same, "a b".to_string()), "a b");
    assert_eq!(date_description_from("", &vec![], "x".to_string()), "x");
}

#[test]
fn should_parse_event_by_date() {
    let february = date(2025, 2, 1);
    let march = date(2025, 3, 1);
    let today = date(2026, 10, 19);
    let events_per_month = AgendaCulturalAPI::group_events_by_month(
        vec![
            (Some(march), titled("Como sobreviver a um acontecimento")),
            (Some(february), titled("Sonho de uma noite de verão")),
            (Some(march), titled("Mães")),
        ],
        today,
    );

    assert_eq!(events_per_month.len(), 2);
    assert_eq!(events_per_month[0].month, february);
    assert_eq!(events_per_month[1].month, march);

    let february_events = &events_per_month[0].events;
    let march_events = &events_per_month[1].events;

    assert_eq!(february_events.len(), 1);
    assert_eq!(march_events.len(), 2);

    assert_eq!(february_events[0].title, "Sonho de uma noite de verão");
    assert_eq!(march_events[0].title, "Como sobreviver a um acontecimento");
    assert_eq!(march_events[1].title, "Mães");
}

#[test]
fn coming_months_are_all_listed_and_undated_events_go_to_this_month() {
    let today = date(2025, 11, 20);
    let buckets = AgendaCulturalAPI::group_events_by_month(
        vec![(Some(date(2026, 2, 14)), titled("Later")), (None, titled("Undated"))],
        today,
    );
    let months: Vec<CivilDate> = buckets.iter().map(|b| b.month).collect();
    assert_eq!(months, vec![date(2025, 11, 1), date(2025, 12, 1), date(2026, 1, 1), date(2026, 2, 1)]);
    assert_eq!(buckets[0].events[0].title, "Undated");
    assert!(buckets[1].events.is_empty());
    assert!(buckets[2].events.is_empty());
    assert_eq!(buckets[3].events[0].title, "Later");
    assert!(AgendaCulturalAPI::group_events_by_month(vec![], today).is_empty());
}

#[test]
fn start_dates_are_read_as_days() {
    assert_eq!(parse_start_date("2025-02-22"), Some(date(2025, 2, 22)));
    assert_eq!(parse_start_date(""), None);
    assert_eq!(parse_start_date("22 fevereiro"), None);
    assert_eq!(parse_start_date("2025-02-30"), None);
}

#[test]
fn response_becomes_an_event() {
    let response = EventResponse {
        title: ResponseTitle { rendered: "Galafoice".to_string() },
        subtitle: vec!["João ".to_string(), "Moreira".to_string()],
        description: vec!["Espetáculo".to_string()],
        featured_media_large: "https://www.agendalx.pt/galafoice.jpg".to_string(),
        link: "https://www.agendalx.pt/events/event/galafoice/".to_string(),
        string_dates: "22 fevereiro a 23 fevereiro 2025".to_string(),
        string_times: "sáb: 21h; dom: 17h".to_string(),
        start_date: Some(date(2025, 2, 22)),
        venue: vec![
            ("a".to_string(), ResponseVenue { name: String::new() }),
            ("teatro-iberico-2".to_string(), ResponseVenue { name: "Teatro Ibérico".to_string() }),
        ],
        tags: vec![
            ("criancas".to_string(), ResponseEventTag { name: "Crianças".to_string() }),
            ("gratuito".to_string(), ResponseEventTag { name: "gratuito".to_string() }),
        ],
    };
    let event = response.to_model("Descrição completa".to_string());
    assert_eq!(event.title, "Galafoice");
    assert_eq!(event.details.subtitle, "João Moreira");
    assert_eq!(event.details.description, "Descrição completa");
    assert_eq!(event.details.image_url, "https://www.agendalx.pt/galafoice.jpg");
    assert_eq!(event.link, "https://www.agendalx.pt/events/event/galafoice/");
    assert_eq!(event.occurring_at.dates, "22 fevereiro a 23 fevereiro");
    assert_eq!(event.occurring_at.times, "sáb: 21h; dom: 17h");
    assert_eq!(event.venue, "Teatro Ibérico");
    assert_eq!(event.tags, vec!["Crianças".to_string(), "gratuito".to_string()]);
    assert!(event.is_for_children);
}

#[test]
fn events_without_children_tag_are_not_for_children() {
    let event = Event::new(
        "Nora Helmer".to_string(),
        EventDetails::new(String::new(), String::new(), String::new()),
        "https://example/nora-helmer".to_string(),
        Schedule::new(String::new(), String::new()),
        "Teatro Aberto".to_string(),
        vec!["famílias".to_string(), "teatro".to_string()],
    );
    assert!(!event.is_for_children);
}

#[test]
fn full_description_is_read_from_the_page() {
    let page = r#"<html><body><div class="entry-container"><p>Uma&nbsp;peça</p><p class="meta">skip</p><p><em>Dois</em> atos</p></div></body></html>"#;
    assert_eq!(
        AgendaCulturalAPI::extract_full_description(page),
        Some("Uma peça\n\nDois atos".to_string())
    );
    assert_eq!(AgendaCulturalAPI::extract_full_description("<p>nothing</p>"), None);
}

#[test]
fn description_cleaning_strips_tags_and_spaces() {
    assert_eq!(AgendaCulturalAPI::clean_description("<b>a</b>&nbsp;b"), "a b");
    assert_eq!(AgendaCulturalAPI::clean_stripped_description("a&nbsp;&nbsp;b"), "a  b");
    assert_eq!(
        AgendaCulturalAPI::description_or_preview(None, &vec!["<p>Pre".to_string(), "view</p>".to_string()]),
        "Preview"
    );
    assert_eq!(
        AgendaCulturalAPI::description_or_preview(Some("Full".to_string()), &vec!["x".to_string()]),
        "Full"
    );
}

#[test]
fn event_id_is_read_from_the_short_link() {
    let page = r#"<html><head><link rel="shortlink" href="https://www.agendalx.pt/?p=208058" /></head><body></body></html>"#;
    assert_eq!(AgendaCulturalAPI::event_id_of_page(page), Some(208058));
    assert_eq!(AgendaCulturalAPI::event_id_of_page("<p>none</p>"), None);
    assert_eq!(AgendaCulturalAPI::event_id_from_shortlink("https://www.agendalx.pt/?p=12"), Some(12));
    assert_eq!(AgendaCulturalAPI::event_id_from_shortlink("https://www.agendalx.pt/?p=x"), None);
    assert_eq!(AgendaCulturalAPI::event_id_from_shortlink("https://other/?p=12"), None);
}

#[test]
fn events_query_names_page_size_and_category() {
    assert_eq!(
        AgendaCulturalAPI::events_query_url(Some(5), &Category::Teatro),
        "https://www.agendalx.pt/wp-json/agendalx/v1/events?per_page=5&categories=teatro&type=event"
    );
    assert_eq!(
        AgendaCulturalAPI::events_query_url(None, &Category::Artes),
        "https://www.agendalx.pt/wp-json/agendalx/v1/events?per_page=50000&categories=artes&type=event"
    );
}

#[test]
fn grouping_as_of_today_keeps_every_event() {
    let far = date(2999, 1, 5);
    let buckets = AgendaCulturalAPI::parse_events_by_date(vec![
        (Some(far), titled("Far")),
        (None, titled("Undated")),
    ]);
    assert!(buckets.len() >= 2);
    assert!(buckets.iter().all(|b| b.month.day == 1));
    let last = buckets.last().unwrap();
    assert_eq!(last.month, date(2999, 1, 1));
    assert_eq!(last.events[0].title, "Far");
    assert_eq!(buckets[0].events[0].title, "Undated");
    let total: usize = buckets.iter().map(|b| b.events.len()).sum();
    assert_eq!(total, 2);
}
