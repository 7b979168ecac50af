use weckpilot::language::system_language;
use weckpilot::menu::{menu_for_language, menu_layout, MenuItemKind, APP_NAME};
use weckpilot::{menu_labels, normalize_language, parse_apple_languages};

#[test]
fn normalize_language_folgt_der_regel_des_frontends() {
    for deutsch in ["de", "de-DE", "DE-de", " de-AT ", "de_CH"] {
        assert_eq!(normalize_language(deutsch), "de", "{deutsch} ist Deutsch");
    }

    // Gegenprobe: alles andere faellt auf Englisch zurueck.
    for englisch in ["en", "en-US", "fr-FR", "", "nl"] {
        assert_eq!(normalize_language(englisch), "en", "{englisch} ist nicht Deutsch");
    }
}

#[test]
fn parse_apple_languages_nimmt_die_erste_sprache() {
    let deutsch = "(\n    \"de-DE\"\n)\n";
    assert_eq!(parse_apple_languages(deutsch), Some("de"));

    // macOS sortiert nach Vorrang, die erste Zeile entscheidet.
    let englisch_zuerst = "(\n    \"en-US\",\n    \"de-DE\"\n)\n";
    assert_eq!(parse_apple_languages(englisch_zuerst), Some("en"));

    // Gegenprobe: ohne Anfuehrungszeichen gibt es nichts zu lesen.
    assert_eq!(parse_apple_languages("(\n)\n"), None);
    assert_eq!(parse_apple_languages(""), None);
}

#[test]
fn menu_labels_nennt_das_produkt_und_nicht_das_executable() {
    for sprache in ["de", "en"] {
        let labels = menu_labels(sprache);

        for eintrag in [&labels.about, &labels.hide, &labels.quit] {
            assert!(
                eintrag.contains("WeckPilot"),
                "{sprache}: {eintrag:?} nennt das Produkt nicht"
            );
            assert!(
                !eintrag.ends_with(" app"),
                "{sprache}: {eintrag:?} traegt noch den Executable-Namen"
            );
        }
    }
}

#[test]
fn menu_labels_uebersetzt_jeden_eintrag() {
    let de = menu_labels("de");
    let en = menu_labels("en");

    assert_eq!(de.about, "Über WeckPilot");
    assert_eq!(en.about, "About WeckPilot");

    // Kein Eintrag darf in beiden Sprachen gleich bleiben, sonst waere
    // die Uebersetzung unvollstaendig.
    let paare: [(&str, &str, &str); 11] = [
        ("edit", de.edit, en.edit),
        ("undo", de.undo, en.undo),
        ("redo", de.redo, en.redo),
        ("cut", de.cut, en.cut),
        ("copy", de.copy, en.copy),
        ("paste", de.paste, en.paste),
        ("select_all", de.select_all, en.select_all),
        ("window", de.window, en.window),
        ("minimize", de.minimize, en.minimize),
        ("maximize", de.maximize, en.maximize),
        ("close", de.close, en.close),
    ];

    for (feld, deutsch, englisch) in paare {
        assert_ne!(deutsch, englisch, "{feld} ist nicht uebersetzt");
        assert!(!deutsch.is_empty() && !englisch.is_empty(), "{feld} ist leer");
    }
}

#[test]
fn normalize_language_trims_unicode_white_space() {
    assert_eq!(normalize_language("\u{3000}\tDe-ch\u{a0}"), "de");
    assert_eq!(normalize_language("\n d"), "en");
    assert_eq!(normalize_language("d e"), "en");
    assert_eq!(normalize_language("deutsch"), "de");
    assert_eq!(normalize_language("\u{200b}de"), "en");
}

#[test]
fn normalize_language_is_stable() {
    for tag in ["de-DE", "en-US", " DE ", "pt-BR", ""] {
        let once = normalize_language(tag);
        assert_eq!(normalize_language(once), once);
    }
}

#[test]
fn parse_apple_languages_skips_lines_without_a_quoted_tag() {
    assert_eq!(parse_apple_languages("(\n  \"unfinished\n  \"de-AT\"\n)"), Some("de"));
    assert_eq!(parse_apple_languages("\"en\"\r\n\"de\"\r\n"), Some("en"));
    assert_eq!(parse_apple_languages("  \" de-DE \",\n"), Some("de"));
    assert_eq!(parse_apple_languages("\"\"\n\"de\""), Some("en"));
    assert_eq!(parse_apple_languages("no quotes\nat all"), None);
}

#[test]
fn system_language_falls_back_to_english() {
    assert_eq!(system_language(None), "en");
    assert_eq!(system_language(Some(b"(\n)\n")), "en");
    assert_eq!(system_language(Some(b"(\n    \"de-DE\",\n    \"en-DE\"\n)\n")), "de");
    // Invalid UTF-8 is replaced, not refused.
    assert_eq!(system_language(Some(b"(\n  \"de\xff\"\n)")), "de");
}

#[test]
fn menu_layout_orders_the_three_menus() {
    let bar = menu_layout("de");
    assert_eq!(bar.len(), 3);
    assert_eq!(bar[0].title, APP_NAME);
    assert_eq!(bar[1].title, "Bearbeiten");
    assert_eq!(bar[2].title, "Fenster");
    let kinds: Vec<MenuItemKind> = bar[0].items.iter().map(|i| i.kind).collect();
    assert_eq!(
        kinds,
        vec![
            MenuItemKind::About,
            MenuItemKind::Separator,
            MenuItemKind::Hide,
            MenuItemKind::Separator,
            MenuItemKind::Quit
        ]
    );
    assert_eq!(bar[0].items[0].label.as_deref(), Some("Über WeckPilot"));
    assert_eq!(bar[0].items[1].label, None);
    assert_eq!(bar[1].items.len(), 7);
    assert_eq!(bar[1].items[6].kind, MenuItemKind::SelectAll);
    assert_eq!(bar[1].items[6].label.as_deref(), Some("Alles auswählen"));
    assert_eq!(bar[2].items.len(), 4);
    assert_eq!(bar[2].items[3].kind, MenuItemKind::CloseWindow);
    assert_eq!(bar[2].items[3].label.as_deref(), Some("Schließen"));
}

#[test]
fn menu_for_language_normalizes_the_tag() {
    let bar = menu_for_language(" DE-at");
    assert_eq!(bar[1].title, "Bearbeiten");
    let bar = menu_for_language("fr");
    assert_eq!(bar[1].title, "Edit");
    assert_eq!(bar[0].items[4].label.as_deref(), Some("Quit WeckPilot"));
    // Only the exact code "de" gives German labels.
    assert_eq!(menu_labels("DE").edit, "Edit");
}

#[test]
fn case_and_surrounding_white_space_do_not_matter() {
    for tag in ["de", "de-DE", "en-US", "fr", "", "dE", " x", "d"] {
        let code = normalize_language(tag);
        assert_eq!(normalize_language(&tag.to_ascii_uppercase()), code, "{tag:?}");
        assert_eq!(normalize_language(&format!(" \t{}\n", tag)), code, "{tag:?}");
    }
}

#[test]
fn quote_free_text_in_front_changes_nothing() {
    let list = "(\n    \"en-US\",\n    \"de-DE\"\n)\n";
    for prefix in ["", "junk", "a\nb\r\n", "\r", "line\n\n"] {
        assert_eq!(parse_apple_languages(&format!("{prefix}{list}")), parse_apple_languages(list), "{prefix:?}");
    }
    assert_eq!(parse_apple_languages("x\"de\""), Some("de"));
}

#[test]
fn appended_text_changes_nothing() {
    for s in ["\"de\"", "(\n \"de-DE\"\r", "\"en\"\n"] {
        let first = parse_apple_languages(s);
        assert!(first.is_some());
        for t in ["", "\n\"de\"", "\r\n", "x\"de\"", "\"", "\n"] {
            assert_eq!(parse_apple_languages(&format!("{s}{t}")), first, "{s:?} + {t:?}");
        }
    }
}

#[test]
fn about_panel_names_the_product() {
    let info = weckpilot::menu::about_info("1.2.3", "MIT");
    assert_eq!(info.name, "WeckPilot");
    assert_eq!(info.version, "1.2.3");
    assert_eq!(info.copyright, "Copyright © 2026 Norbert Jander");
    assert_eq!(info.credits, "MIT");
}
