use alertaemcena::bol::{date_range_of, parse_date_parts, parse_month, Piece, PieceDateError};
use alertaemcena::calendar::CivilDate;

#[test]
fn month_abbreviations_are_read() {
    assert_eq!(parse_month("jan"), Some(1));
    assert_eq!(parse_month("set"), Some(9));
    assert_eq!(parse_month("dez"), Some(12));
    assert_eq!(parse_month("Jan"), None);
}

#[test]
fn session_dates_are_read() {
    assert_eq!(parse_date_parts("29", "fev", "2024"), Ok(CivilDate::from_ymd_opt(2024, 2, 29).unwrap()));
    assert_eq!(parse_date_parts("29", "fev", "2023"), Err(PieceDateError::NoSuchDay));
    assert_eq!(parse_date_parts("x", "fev", "2023"), Err(PieceDateError::InvalidDay));
    assert_eq!(parse_date_parts("1", "feb", "2023"), Err(PieceDateError::InvalidMonth));
    assert_eq!(parse_date_parts("1", "fev", "dois"), Err(PieceDateError::InvalidYear));
}

#[test]
fn date_ranges_come_from_one_or_two_sessions() {
    let a = CivilDate::from_ymd_opt(2025, 6, 1).unwrap();
    let b = CivilDate::from_ymd_opt(2025, 6, 9).unwrap();
    assert_eq!(date_range_of(&vec![a]), Some((a, a)));
    assert_eq!(date_range_of(&vec![a, b]), Some((a, b)));
    assert_eq!(date_range_of(&vec![]), None);
    assert_eq!(date_range_of(&vec![a, b, b]), None);
}

#[test]
fn piece_url_is_on_the_site() {
    let a = CivilDate::from_ymd_opt(2025, 6, 1).unwrap();
    let piece = Piece::new("Hamlet", "/Comprar/Bilhetes/1-hamlet", "https://img/h.jpg", (a, a));
    assert_eq!(piece.url, "https://www.bol.pt/Comprar/Bilhetes/1-hamlet");
    assert_eq!(piece.name, "Hamlet");
}
