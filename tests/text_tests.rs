use alertaemcena::calendar::CivilDate;
use alertaemcena::text::{lines, parse_i64, parse_u32, replace_all, split, split_once, starts_with, trim};

#[test]
fn lines_split_like_std() {
    for s in ["", "a", "a\n", "a\r\nb", "a\n\nb\n", "\r", "x\ry\n"] {
        let expected: Vec<String> = s.lines().map(|l| l.to_string()).collect();
        assert_eq!(lines(s), expected, "{:?}", s);
    }
}

#[test]
fn trim_and_replace_like_std() {
    for s in [" a ", "\u{3000}b\t", "", "  ", "x y"] {
        assert_eq!(trim(s), s.trim());
    }
    assert_eq!(replace_all("aaa", "aa", "b"), "aaa".replace("aa", "b"));
    assert_eq!(replace_all("a&nbsp;b&nbsp;", "&nbsp;", " "), "a b ");
    assert!(starts_with("**Voto:** x", "**Voto:** "));
    assert!(!starts_with("Voto", "**Voto:** "));
}

#[test]
fn integers_parse_like_std() {
    for s in ["0", "-0", "+5", "-", "", "9223372036854775807", "9223372036854775808", "-9223372036854775808", "12a"] {
        assert_eq!(parse_i64(s), s.parse::<i64>().ok(), "{:?}", s);
    }
    for s in ["4294967295", "4294967296", "+1", "-1"] {
        assert_eq!(parse_u32(s), s.parse::<u32>().ok(), "{:?}", s);
    }
}

#[test]
fn split_like_std() {
    for s in ["a;b", ";", "", "a;;b;"] {
        let expected: Vec<String> = s.split(';').map(|p| p.to_string()).collect();
        assert_eq!(split(s, ';'), expected);
    }
    assert_eq!(split_once("a:b:c", ':'), Some(("a".to_string(), "b:c".to_string())));
    assert_eq!(split_once("abc", ':'), None);
}

#[test]
fn dates_are_checked() {
    assert!(CivilDate::from_ymd_opt(2000, 2, 29).is_some());
    assert!(CivilDate::from_ymd_opt(1900, 2, 29).is_none());
    assert!(CivilDate::from_ymd_opt(2025, 4, 31).is_none());
    assert!(CivilDate::from_ymd_opt(2025, 13, 1).is_none());
    let d = CivilDate::from_ymd_opt(2025, 12, 31).unwrap();
    assert_eq!(d.next_month_start(), CivilDate::from_ymd_opt(2026, 1, 1));
}
