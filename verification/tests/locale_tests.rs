use hoshi::{
    get_avatar_url, get_localizations_of, translate, u64_to_string, LocaleCatalog, LocaleTable,
    BASE_CDN_URL,
};

fn table() -> LocaleTable {
    LocaleTable {
        catalogs: vec![
            LocaleCatalog {
                locale: "en-US".to_string(),
                entries: vec![
                    ("command.ping.name".to_string(), "ping".to_string()),
                    ("command.ffmpeg.name".to_string(), "ffmpeg".to_string()),
                ],
            },
            LocaleCatalog {
                locale: "de".to_string(),
                entries: vec![("command.ping.name".to_string(), "ping-de".to_string())],
            },
        ],
        fallback: "en-US".to_string(),
    }
}

#[test]
fn translate_prefers_the_requested_locale() {
    let t = table();
    assert_eq!(translate(&t, "command.ping.name", "de"), "ping-de");
    assert_eq!(translate(&t, "command.ping.name", "en-US"), "ping");
}

#[test]
fn translate_falls_back_and_then_echoes_the_key() {
    let t = table();
    assert_eq!(translate(&t, "command.ffmpeg.name", "de"), "ffmpeg");
    assert_eq!(translate(&t, "missing.key", "de"), "missing.key");
    assert_eq!(translate(&t, "command.ping.name", "fr"), "ping");
}

#[test]
fn localizations_cover_every_locale_in_order() {
    let t = table();
    let all = get_localizations_of("command.ping.name", &t);
    assert_eq!(all.len(), 2);
    assert_eq!(all[0], ("en-US".to_string(), "ping".to_string()));
    assert_eq!(all[1], ("de".to_string(), "ping-de".to_string()));
}

#[test]
fn numbers_format_in_decimal() {
    assert_eq!(u64_to_string(0), "0");
    assert_eq!(u64_to_string(7), "7");
    assert_eq!(u64_to_string(1234567890), "1234567890");
    assert_eq!(u64_to_string(u64::MAX), "18446744073709551615");
}

#[test]
fn avatar_url_is_derived_from_id_and_hash() {
    let hash = Some("a1b2c3".to_string());
    let url = get_avatar_url(123456789012345678, &hash).unwrap();
    assert_eq!(
        url,
        format!("{BASE_CDN_URL}/avatars/123456789012345678/a1b2c3.png")
    );
    assert!(get_avatar_url(42, &None).is_none());
}
