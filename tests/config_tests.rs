use alertaemcena::config::env_loader::{
    parse_bool_config, parse_i32_config, parse_voting_emojis_config, EmojiConfigError,
};
use alertaemcena::config::model::EmojiConfig;

#[test]
fn voting_emojis_are_read_in_order() {
    let emojis = parse_voting_emojis_config("one:1;two:2;three:3;four:4;five:-5").unwrap();
    let names: Vec<String> = emojis.iter().map(|e| e.name.clone()).collect();
    let ids: Vec<i64> = emojis.iter().map(|e| e.id).collect();
    assert_eq!(names, vec!["one", "two", "three", "four", "five"]);
    assert_eq!(ids, vec![1, 2, 3, 4, -5]);
}

#[test]
fn voting_emojis_must_be_five() {
    assert_eq!(parse_voting_emojis_config("one:1;two:2").err(), Some(EmojiConfigError::WrongCount));
    assert_eq!(
        parse_voting_emojis_config("a:1;b:2;c:3;d:4;e:5;f:6").err(),
        Some(EmojiConfigError::WrongCount)
    );
}

#[test]
fn voting_emojis_need_name_and_numeric_id() {
    assert_eq!(
        parse_voting_emojis_config("a:1;b2;c:3;d:4;e:5").err(),
        Some(EmojiConfigError::MissingSeparator)
    );
    assert_eq!(
        parse_voting_emojis_config("a:1;b:x2;c:3;d:4;e:5").err(),
        Some(EmojiConfigError::InvalidId("x2".to_string()))
    );
    assert_eq!(
        parse_voting_emojis_config("a:1;b:2;c:99999999999999999999;d:4;e:5").err(),
        Some(EmojiConfigError::InvalidId("99999999999999999999".to_string()))
    );
}

#[test]
fn emoji_is_written_as_markup() {
    let emoji = EmojiConfig { id: 1234567890123, name: "star".to_string() };
    assert_eq!(emoji.to_string(), "<:star:1234567890123>");
}

#[test]
fn bool_and_integer_settings() {
    assert_eq!(parse_bool_config("true"), Some(true));
    assert_eq!(parse_bool_config("false"), Some(false));
    assert_eq!(parse_bool_config("True"), None);
    assert_eq!(parse_i32_config("-12"), Some(-12));
    assert_eq!(parse_i32_config("+7"), Some(7));
    assert_eq!(parse_i32_config("2147483648"), None);
    assert_eq!(parse_i32_config("-2147483648"), Some(i32::MIN));
    assert_eq!(parse_i32_config(""), None);
}
