use immich_describer::{determine_locale, locale_from_env_value, Message};

fn args(m: &Message) -> Vec<(String, String)> {
    m.args.iter().map(|a| (a.name.clone(), a.value.clone())).collect()
}

#[test]
fn env_value_with_territory_and_encoding() {
    assert_eq!(locale_from_env_value(Some("en_US.UTF-8")), "en");
}

#[test]
fn env_value_is_lower_cased() {
    assert_eq!(locale_from_env_value(Some("DE_de.ISO-8859-1")), "de");
}

#[test]
fn env_value_dot_before_underscore() {
    assert_eq!(locale_from_env_value(Some("fr.UTF-8_x")), "fr");
}

#[test]
fn env_value_plain() {
    assert_eq!(locale_from_env_value(Some("C")), "c");
}

#[test]
fn env_value_empty() {
    assert_eq!(locale_from_env_value(Some("")), "");
}

#[test]
fn no_env_value_means_english() {
    assert_eq!(locale_from_env_value(None), "en");
}

#[test]
fn user_language_wins_when_available() {
    let c = determine_locale("DE", "fr", &["en", "de", "fr"]);
    assert_eq!(c.locale, "de");
    assert!(c.warning.is_none());
}

#[test]
fn unavailable_user_language_warns_and_uses_system() {
    let c = determine_locale("it", "fr", &["en", "de", "fr"]);
    assert_eq!(c.locale, "fr");
    let w = c.warning.expect("warning");
    assert_eq!(w.key, "autodetect.locale_not_supported");
    assert_eq!(
        args(&w),
        vec![
            ("locale".to_string(), "it".to_string()),
            ("available".to_string(), "en, de, fr".to_string())
        ]
    );
}

#[test]
fn falls_back_to_english() {
    let c = determine_locale("", "pt", &["en", "de"]);
    assert_eq!(c.locale, "en");
    assert!(c.warning.is_none());
}

#[test]
fn system_locale_used_without_user_choice() {
    let c = determine_locale("", "de", &["en", "de"]);
    assert_eq!(c.locale, "de");
    assert!(c.warning.is_none());
}

#[test]
fn warning_with_no_locales_available() {
    let c = determine_locale("es", "es", &[]);
    assert_eq!(c.locale, "en");
    let w = c.warning.expect("warning");
    assert_eq!(
        args(&w),
        vec![
            ("locale".to_string(), "es".to_string()),
            ("available".to_string(), "".to_string())
        ]
    );
}
