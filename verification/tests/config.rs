use snip2text::config::{Config, Stored};
use snip2text::tray::{language_ids, make_icon, open_in_editor, tooltip, tray_menu, MenuEntry};

#[test]
fn default_settings() {
    let config = Config::default();
    assert_eq!(config.hotkey, "CTRL+ALT+KeyS");
    assert_eq!(config.ocr_language, "");
}

#[test]
fn settings_file_below_the_settings_directory() {
    let (dir, file) = Config::path(Some("C:\\Users\\me")).unwrap();
    assert_eq!(dir, "C:\\Users\\me");
    assert_eq!(file, vec!["snip2text".to_string(), "config.json".to_string()]);
    assert!(Config::path(None::<u8>).is_none());
}

#[test]
fn unreadable_settings_are_the_default_ones() {
    for stored in [Stored::NoPath, Stored::Unreadable, Stored::Malformed] {
        let config = Config::load(stored);
        assert_eq!(config.hotkey, "CTRL+ALT+KeyS");
        assert_eq!(config.ocr_language, "");
    }
}

#[test]
fn loading_gives_back_what_was_saved() {
    let config = Config { hotkey: "SHIFT+F9".to_string(), ocr_language: "de".to_string() };
    let plan = config.save(Some(3u8)).unwrap();
    assert_eq!(plan.base, 3);
    assert_eq!(plan.directory, vec!["snip2text".to_string()]);
    assert_eq!(plan.file, Config::path(Some(3u8)).unwrap().1);
    let loaded = Config::load(Stored::Read(plan.contents));
    assert_eq!(loaded.hotkey, "SHIFT+F9");
    assert_eq!(loaded.ocr_language, "de");
    assert!(config.save(None::<u8>).is_none());
}

#[test]
fn cloned_settings_are_equal() {
    let config = Config { hotkey: "F1".to_string(), ocr_language: "ko".to_string() };
    let copy = config.clone();
    assert_eq!((copy.hotkey, copy.ocr_language), ("F1".to_string(), "ko".to_string()));
}

#[test]
fn the_icon_is_one_square() {
    let icon = make_icon();
    assert_eq!((icon.width, icon.height), (32, 32));
    assert_eq!(icon.data.len(), 32 * 32 * 4);
    assert!(icon.data.chunks(4).all(|p| p == [32, 178, 170, 255]));
    assert_eq!(tooltip(), "snip2text — click or Ctrl+Alt+S to snip");
}

#[test]
fn the_menu_lists_languages_and_commands() {
    let languages = vec![
        ("Auto".to_string(), "".to_string()),
        ("English".to_string(), "en".to_string()),
    ];
    let menu = tray_menu(&languages);
    assert_eq!(
        menu,
        vec![
            MenuEntry::Submenu {
                title: "OCR Language".to_string(),
                items: vec!["Auto".to_string(), "English".to_string()],
            },
            MenuEntry::Separator,
            MenuEntry::Item("Configure".to_string()),
            MenuEntry::Separator,
            MenuEntry::Item("Quit".to_string()),
        ]
    );
}

#[test]
fn item_ids_pair_with_tags() {
    let languages = vec![
        ("Auto".to_string(), "".to_string()),
        ("English".to_string(), "en".to_string()),
    ];
    let ids = vec!["4".to_string(), "5".to_string(), "6".to_string()];
    assert_eq!(
        language_ids(&ids, &languages),
        vec![("4".to_string(), "".to_string()), ("5".to_string(), "en".to_string())]
    );
    assert_eq!(
        language_ids(&vec!["4".to_string()], &languages),
        vec![("4".to_string(), "".to_string())]
    );
}

#[test]
fn the_editor_is_started_by_the_interpreter() {
    assert_eq!(
        open_in_editor("C:\\a b\\config.json"),
        vec!["/c".to_string(), "start".to_string(), "".to_string(), "C:\\a b\\config.json".to_string()]
    );
}
