use mihomo_api::digits::usize_to_decimal;
use mihomo_api::parse_str;
use mihomo_api::uid::make_uid;
use mihomo_api::{get_now, get_uid};

#[test]
fn test_parse_value() {
    let test_1 = "upload=111; download=2222; total=3333; expire=444";
    let test_2 = "attachment; filename=Clash.yaml";

    assert_eq!(parse_str::<usize>(test_1, "upload=").unwrap(), 111);
    assert_eq!(parse_str::<usize>(test_1, "download=").unwrap(), 2222);
    assert_eq!(parse_str::<usize>(test_1, "total=").unwrap(), 3333);
    assert_eq!(parse_str::<usize>(test_1, "expire=").unwrap(), 444);
    assert_eq!(
        parse_str::<String>(test_2, "filename=").unwrap(),
        format!("Clash.yaml")
    );

    assert_eq!(parse_str::<usize>(test_1, "aaa="), None);
    assert_eq!(parse_str::<usize>(test_1, "upload1="), None);
    assert_eq!(parse_str::<usize>(test_1, "expire1="), None);
    assert_eq!(parse_str::<usize>(test_2, "attachment="), None);
}

#[test]
fn absent_key_is_not_found() {
    assert_eq!(parse_str::<usize>("plain text with no keys", "aaa="), None);
    assert_eq!(parse_str::<String>("", "k="), None);
}

#[test]
fn embedded_fragment_is_extracted() {
    let s = "noise before; k= 42 ;noise after";
    assert_eq!(parse_str::<usize>(s, "k=").unwrap(), 42);
    assert_eq!(parse_str::<String>(s, "k=").unwrap(), "42".to_string());
}

#[test]
fn remainder_without_semicolon_is_used_whole() {
    assert_eq!(
        parse_str::<String>("attachment; filename=Clash.yaml", "filename=").unwrap(),
        "Clash.yaml".to_string()
    );
    assert_eq!(parse_str::<usize>("total=99", "total=").unwrap(), 99);
}

#[test]
fn value_is_trimmed() {
    assert_eq!(parse_str::<usize>("a=  77  ; b=1", "a=").unwrap(), 77);
    assert_eq!(
        parse_str::<String>("name=\t hello world \t; rest", "name=").unwrap(),
        "hello world".to_string()
    );
}

#[test]
fn first_occurrence_wins() {
    assert_eq!(parse_str::<usize>("x=1; x=2; x=3", "x=").unwrap(), 1);
}

#[test]
fn empty_value_parses_per_type() {
    // an empty numeric value fails, an empty string value succeeds
    assert_eq!(parse_str::<usize>("key=;rest", "key="), None);
    assert_eq!(parse_str::<String>("key=;rest", "key=").unwrap(), String::new());
}

#[test]
fn unparseable_number_is_not_found() {
    assert_eq!(parse_str::<usize>("n=abc;", "n="), None);
    assert_eq!(parse_str::<usize>("n=12x;", "n="), None);
    assert_eq!(parse_str::<usize>("n=-5;", "n="), None);
    assert_eq!(
        parse_str::<usize>("n=99999999999999999999999999999999;", "n="),
        None
    );
}

#[test]
fn plus_sign_and_bounds() {
    assert_eq!(parse_str::<usize>("n=+123;", "n=").unwrap(), 123);
    assert_eq!(parse_str::<usize>("n=0;", "n=").unwrap(), 0);
    let max = format!("n={};", usize::MAX);
    assert_eq!(parse_str::<usize>(&max, "n=").unwrap(), usize::MAX);
}

#[test]
fn decimal_rendering_round_trips() {
    assert_eq!(usize_to_decimal(0), "0".to_string());
    assert_eq!(usize_to_decimal(7), "7".to_string());
    assert_eq!(usize_to_decimal(987654), "987654".to_string());
    assert_eq!(usize_to_decimal(usize::MAX), format!("{}", usize::MAX));
}

#[test]
fn uid_is_prefix_then_time() {
    assert_eq!(make_uid("id", 12345), "id12345".to_string());
    assert_eq!(make_uid("", 8), "8".to_string());

    let uid = get_uid("prefix-");
    assert!(uid.starts_with("prefix-"));
    let rest = &uid["prefix-".len()..];
    assert!(!rest.is_empty());
    assert!(rest.chars().all(|c| c.is_ascii_digit()));
}

#[test]
fn now_is_after_some_known_moment() {
    // well after 2020-01-01 on any sane clock
    assert!(get_now() > 1_577_836_800);
}
