use global_hotkey::hotkey::HotKey;
use snip2text::app::{
    failure_message, monitor_captured, monitors_to_cover, App, Button, Failure, Motion, TrayEvent,
    UserAction, UserEvent, WindowAction, WindowEvent,
};
use snip2text::config::Config;
use snip2text::hotkey::is_activation;
use snip2text::ocr::available_languages;
use snip2text::selection::{Coord, Phase, Region};
use snip2text::text::{excerpt, is_blank};

const PRESS: WindowEvent =
    WindowEvent::MouseInput { state: Motion::Pressed, button: Button::Left };
const RELEASE: WindowEvent =
    WindowEvent::MouseInput { state: Motion::Released, button: Button::Left };
const ESCAPE: WindowEvent = WindowEvent::KeyboardInput { state: Motion::Pressed, escape: true };

fn at(pixel: u32) -> Coord {
    Coord { pixel: Some(pixel), zero: false }
}

fn moved(x: u32, y: u32) -> WindowEvent {
    WindowEvent::CursorMoved { x: at(x), y: at(y) }
}

/// A program with an overlay of 4 by 3 pixels in each of the given windows.
fn with_overlays(windows: &[u64]) -> App {
    let mut app = App::new(Config::default());
    for &window in windows {
        let background: Vec<u32> = (0..12u32).map(|i| (i / 4) << 16 | (i % 4)).collect();
        let pending = monitor_captured(4, 3, Ok(background)).unwrap();
        assert_eq!(app.window_created(pending, Ok(window)), None);
    }
    app
}

fn with_tray() -> App {
    let mut app = App::new(Config::default());
    let ids: Vec<String> = (100..111).map(|i| i.to_string()).collect();
    app.setup_tray("conf".to_string(), "quit".to_string(), &ids, &available_languages());
    app
}

#[test]
fn a_new_program_is_idle() {
    let app = App::new(Config::default());
    assert!(app.activate());
    assert!(app.overlays.is_empty());
    assert!(!app.ocr_busy);
    assert_eq!(app.hotkey, None);
    assert_eq!((app.id_configure, app.id_quit), (None, None));
    assert!(app.id_langs.is_empty());
}

#[test]
fn monitors_fall_back_to_the_primary_one() {
    assert_eq!(monitors_to_cover(vec![1, 2], Some(3)), vec![1, 2]);
    assert_eq!(monitors_to_cover(vec![], Some(3)), vec![3]);
    assert_eq!(monitors_to_cover(Vec::<u8>::new(), None), Vec::<u8>::new());
}

#[test]
fn a_monitor_that_fails_is_skipped() {
    let message = monitor_captured(4, 3, Err("no screen".to_string())).unwrap_err();
    assert_eq!(message, "capture failed: no screen");
    let mut app = with_overlays(&[1]);
    let pending = monitor_captured(1, 1, Ok(vec![0])).unwrap();
    assert_eq!(
        app.window_created(pending, Err("no window".to_string())),
        Some("window creation failed: no window".to_string())
    );
    assert_eq!(app.overlays.len(), 1);
}

#[test]
fn one_overlay_per_monitor_that_could_be_covered() {
    let failed = || Err("no".to_string());
    // The width of each monitor, which pixels it shows, and its window.
    let outcomes = vec![
        (2, Ok(vec![7, 8]), Ok(10)),
        (3, failed().map(|()| vec![]), Ok(11)),
        (1, Ok(vec![9]), failed().map(|()| 12)),
        (4, Ok(vec![1, 2, 3, 4]), Ok(13)),
    ];
    let mut app = App::new(Config::default());
    assert!(app.activate());
    let mut messages = Vec::new();
    for (width, captured, window) in monitors_to_cover(outcomes, None) {
        match monitor_captured(width, 1, captured) {
            Ok(pending) => messages.extend(app.window_created(pending, window)),
            Err(message) => messages.push(message),
        }
    }
    assert_eq!(messages, vec!["capture failed: no", "window creation failed: no"]);
    assert_eq!(app.overlays.len(), 2);
    for (o, (window, width, background)) in
        app.overlays.iter().zip([(10, 2, vec![7, 8]), (13, 4, vec![1, 2, 3, 4])])
    {
        assert_eq!((o.window, o.width, o.height), (window, width, 1));
        assert_eq!(o.background, background);
        assert_eq!(o.phase, Phase::Idle);
    }
    assert!(!app.ocr_busy);
}

#[test]
fn failure_messages() {
    assert_eq!(failure_message(Failure::Clipboard, "busy"), "Clipboard write failed: busy");
    assert_eq!(failure_message(Failure::Ocr, "x"), "OCR failed: x");
}

#[test]
fn a_drag_becomes_a_job() {
    let mut app = with_overlays(&[10, 20]);
    app.config.ocr_language = "fr".to_string();
    assert!(matches!(app.window_event(20, PRESS), WindowAction::Nothing));
    assert!(matches!(app.window_event(20, moved(3, 2)), WindowAction::RequestRedraw));
    assert!(matches!(app.window_event(20, moved(1, 1)), WindowAction::RequestRedraw));
    assert_eq!(app.overlays[0].phase, Phase::Idle);
    assert!(matches!(app.window_event(20, WindowEvent::RedrawRequested), WindowAction::Paint(1)));
    match app.window_event(20, RELEASE) {
        WindowAction::Recognise(job) => {
            assert_eq!((job.image.width, job.image.height), (2, 1));
            assert_eq!(job.image.data, vec![1, 0, 1, 255, 1, 0, 2, 255]);
            assert_eq!(job.language, "fr");
        }
        other => panic!("unexpected action {other:?}"),
    }
    assert!(app.overlays.is_empty());
    assert!(app.ocr_busy);
}

#[test]
fn a_click_cancels() {
    let mut app = with_overlays(&[10]);
    app.window_event(10, PRESS);
    assert!(matches!(app.window_event(10, RELEASE), WindowAction::Close));
    assert!(app.overlays.is_empty());
    assert!(!app.ocr_busy);
    let mut app = with_overlays(&[10]);
    app.window_event(10, PRESS);
    app.window_event(10, moved(1, 1));
    app.window_event(10, moved(3, 1));
    assert!(matches!(app.window_event(10, RELEASE), WindowAction::Close));
    assert!(!app.ocr_busy);
}

#[test]
fn a_release_without_a_press_does_nothing() {
    let mut app = with_overlays(&[10]);
    assert!(matches!(app.window_event(10, RELEASE), WindowAction::Nothing));
    assert!(matches!(app.window_event(10, moved(1, 1)), WindowAction::Nothing));
    assert_eq!(app.overlays.len(), 1);
}

#[test]
fn escape_closes_all_overlays() {
    let mut app = with_overlays(&[10, 20]);
    let up = WindowEvent::KeyboardInput { state: Motion::Released, escape: true };
    let other = WindowEvent::KeyboardInput { state: Motion::Pressed, escape: false };
    assert!(matches!(app.window_event(20, up), WindowAction::Nothing));
    assert!(matches!(app.window_event(20, other), WindowAction::Nothing));
    assert_eq!(app.overlays.len(), 2);
    assert!(matches!(app.window_event(20, ESCAPE), WindowAction::Close));
    assert!(app.overlays.is_empty());
}

#[test]
fn other_windows_and_buttons_are_ignored() {
    let mut app = with_overlays(&[10]);
    assert!(matches!(app.window_event(11, ESCAPE), WindowAction::Nothing));
    let right = WindowEvent::MouseInput { state: Motion::Pressed, button: Button::Right };
    assert!(matches!(app.window_event(10, right), WindowAction::Nothing));
    assert!(matches!(app.window_event(10, WindowEvent::Other), WindowAction::Nothing));
    assert_eq!(app.overlays.len(), 1);
    assert_eq!(app.overlays[0].phase, Phase::Idle);
}

#[test]
fn finish_selection_cuts_without_the_far_edge() {
    let mut app = with_overlays(&[10]);
    let job = app.finish_selection(0, Region { x1: 0, y1: 0, x2: 3, y2: 2 });
    assert_eq!((job.image.width, job.image.height), (3, 2));
    assert_eq!(job.image.get_pixel(2, 1), (1, 0, 2, 255));
    assert!(app.ocr_busy);
}

#[test]
fn one_selection_at_a_time() {
    let mut app = App::new(Config::default());
    assert!(matches!(app.user_event(UserEvent::HotkeyActivated), UserAction::Activate));
    let mut open = with_overlays(&[10]);
    assert!(matches!(open.user_event(UserEvent::HotkeyActivated), UserAction::Nothing));
    assert_eq!(open.overlays.len(), 1);
    app.ocr_busy = true;
    assert!(matches!(app.user_event(UserEvent::HotkeyActivated), UserAction::Nothing));
    assert!(matches!(
        app.user_event(UserEvent::OcrDone("text".to_string())),
        UserAction::CopyText(t) if t == "text"
    ));
    assert!(matches!(app.user_event(UserEvent::HotkeyActivated), UserAction::Activate));
}

#[test]
fn the_tray_icon_activates_on_release_of_the_left_button() {
    let mut app = App::new(Config::default());
    let click = |button, state| UserEvent::TrayEvent(TrayEvent::Click { button, state });
    let left_up = app.user_event(click(Button::Left, Motion::Released));
    assert!(matches!(left_up, UserAction::Activate));
    let left_down = app.user_event(click(Button::Left, Motion::Pressed));
    assert!(matches!(left_down, UserAction::Nothing));
    let right_up = app.user_event(click(Button::Right, Motion::Released));
    assert!(matches!(right_up, UserAction::Nothing));
    let other = app.user_event(UserEvent::TrayEvent(TrayEvent::Other));
    assert!(matches!(other, UserAction::Nothing));
}

#[test]
fn blank_text_is_not_copied() {
    let mut app = App::new(Config::default());
    app.ocr_busy = true;
    let action = app.user_event(UserEvent::OcrDone(" \t\r\n\u{A0}".to_string()));
    assert!(matches!(action, UserAction::Nothing));
    assert!(!app.ocr_busy);
    assert!(matches!(app.recognised("a".to_string(), true), UserAction::Nothing));
    let copied = app.recognised(" a ".to_string(), false);
    assert!(matches!(copied, UserAction::CopyText(t) if t == " a "));
    assert!(is_blank(""));
    assert!(is_blank(" \n"));
    assert!(!is_blank("  越"));
    for c in '\u{0}'..=char::MAX {
        let listed = matches!(
            c as u32,
            0x9..=0xD | 0x20 | 0x85 | 0xA0 | 0x1680 | 0x2000..=0x200A | 0x2028 | 0x2029 | 0x202F
                | 0x205F | 0x3000
        );
        assert_eq!(c.is_whitespace(), listed);
    }
}

#[test]
fn a_failed_recognition_is_shown() {
    let mut app = App::new(Config::default());
    app.ocr_busy = true;
    let action = app.user_event(UserEvent::OcrError("no engine".to_string()));
    assert!(matches!(action, UserAction::ShowError(m) if m == "OCR failed: no engine"));
    assert!(!app.ocr_busy);
}

#[test]
fn the_menu_commands() {
    let mut app = with_tray();
    let quit = app.user_event(UserEvent::MenuEvent("quit".to_string()));
    assert!(matches!(quit, UserAction::Exit));
    let configure = app.user_event(UserEvent::MenuEvent("conf".to_string()));
    assert!(matches!(configure, UserAction::Configure));
    let unknown = app.user_event(UserEvent::MenuEvent("111".to_string()));
    assert!(matches!(unknown, UserAction::Nothing));
    let mut bare = App::new(Config::default());
    let nothing = bare.user_event(UserEvent::MenuEvent("quit".to_string()));
    assert!(matches!(nothing, UserAction::Nothing));
}

#[test]
fn the_menu_sets_the_language_of_the_next_job() {
    let mut app = with_tray();
    assert_eq!(app.id_langs.len(), 11);
    let action = app.user_event(UserEvent::MenuEvent("102".to_string()));
    assert!(matches!(action, UserAction::SaveConfig));
    assert_eq!(app.config.ocr_language, "de");
    assert_eq!(app.config.hotkey, "CTRL+ALT+KeyS");
    let pending = monitor_captured(2, 2, Ok(vec![0; 4])).unwrap();
    app.window_created(pending, Ok(1));
    let job = app.finish_selection(0, Region { x1: 0, y1: 0, x2: 1, y2: 1 });
    assert_eq!(job.language, "de");
}

#[test]
fn the_configured_hotkey_replaces_the_registered_one() {
    let expected = "CTRL+ALT+KeyS".parse::<HotKey>().unwrap().id();
    let mut app = App::new(Config::default());
    let plan = app.register_hotkey();
    assert_eq!((plan.unregister, plan.register), (None, Some(expected)));
    app.hotkey_registered(expected, true);
    assert_eq!(app.hotkey, Some(expected));

    app.config.hotkey = "SHIFT+F9".to_string();
    let next = "SHIFT+F9".parse::<HotKey>().unwrap().id();
    assert_ne!(next, expected);
    let plan = app.register_hotkey();
    assert_eq!((plan.unregister, plan.register), (Some(expected), Some(next)));
    assert_eq!(app.hotkey, None);
    app.hotkey_registered(next, false);
    assert_eq!(app.hotkey, None);
}

#[test]
fn an_invalid_hotkey_registers_nothing() {
    let mut app = App::new(Config::default());
    app.hotkey = Some(3);
    for text in ["", "CTRL+", "KeyS+CTRL", "CTRL+ALT", "no such key"] {
        app.config.hotkey = text.to_string();
        assert_eq!(app.register_hotkey().register, None);
        assert_eq!(app.hotkey, None);
    }
    app.hotkey = Some(3);
    let plan = app.replace_hotkey(Some(8));
    assert_eq!((plan.unregister, plan.register), (Some(3), Some(8)));
}

#[test]
fn only_the_registered_hotkey_going_down_activates() {
    assert!(is_activation(Some(7), 7, true));
    assert!(!is_activation(Some(7), 7, false));
    assert!(!is_activation(Some(7), 8, true));
    assert!(!is_activation(None, 7, true));
}

#[test]
fn the_platform_dependent_modifier_is_accepted() {
    let mut app = App::new(Config::default());
    app.config.hotkey = "CmdOrCtrl+S".to_string();
    assert!(app.register_hotkey().register.is_some());
}

#[test]
fn open_overlays_keep_their_pictures() {
    let mut app = with_overlays(&[10, 20]);
    let before: Vec<Vec<u32>> = app.overlays.iter().map(|o| o.background.clone()).collect();
    app.window_event(10, PRESS);
    app.window_event(10, moved(2, 2));
    app.window_event(20, PRESS);
    let after: Vec<Vec<u32>> = app.overlays.iter().map(|o| o.background.clone()).collect();
    assert_eq!(before, after);
    assert_eq!(app.overlays[0].phase.selected(4, 3), Some(Region { x1: 2, y1: 2, x2: 2, y2: 2 }));
    assert_eq!(app.overlays[1].phase.selected(4, 3), Some(Region { x1: 0, y1: 0, x2: 0, y2: 0 }));
    assert_eq!((app.overlays[1].window, app.overlays[1].width, app.overlays[1].height), (20, 4, 3));
}

#[test]
fn while_busy_only_the_reply_counts() {
    let mut app = with_tray();
    app.ocr_busy = true;
    app.user_event(UserEvent::MenuEvent("103".to_string()));
    app.user_event(UserEvent::MenuEvent("conf".to_string()));
    app.user_event(UserEvent::HotkeyActivated);
    assert!(matches!(app.window_event(10, ESCAPE), WindowAction::Nothing));
    assert!(app.ocr_busy);
    assert!(!app.activate());
    app.user_event(UserEvent::OcrError("late".to_string()));
    assert!(app.activate());
}

#[test]
fn a_selection_may_end_at_the_edge() {
    let mut app = with_overlays(&[10, 20]);
    let job = app.finish_selection(0, Region { x1: 2, y1: 1, x2: 4, y2: 3 });
    assert_eq!((job.image.width, job.image.height), (2, 2));
    assert_eq!(
        job.image.data,
        vec![1, 0, 2, 255, 1, 0, 3, 255, 2, 0, 2, 255, 2, 0, 3, 255]
    );
    assert!(app.overlays.is_empty());
    assert!(app.ocr_busy);
}

#[test]
fn the_log_shows_whole_characters() {
    assert_eq!(excerpt(""), "");
    assert_eq!(excerpt("short"), "short");
    let ascii = "a".repeat(100);
    assert_eq!(excerpt(&ascii), &ascii[..80]);
    // Byte 80 is in the middle of the 27th character.
    let wide = "語".repeat(27);
    assert_eq!(excerpt(&wide), "語".repeat(26));
    let mixed = "語".repeat(26) + "ab" + "語";
    assert_eq!(excerpt(&mixed), &mixed[..80]);
    let exact = "é".repeat(40);
    assert_eq!(excerpt(&exact), exact);
}

#[test]
fn long_text_is_copied_whole() {
    let mut app = App::new(Config::default());
    let wide = "語".repeat(27);
    let action = app.user_event(UserEvent::OcrDone(wide.clone()));
    assert!(matches!(action, UserAction::CopyText(t) if t == wide));
}

#[test]
fn overlays_and_recognition_exclude_each_other() {
    let mut app = with_overlays(&[10, 20]);
    let events = [PRESS, moved(1, 1), moved(3, 2), RELEASE, PRESS, ESCAPE];
    for event in events {
        app.window_event(20, event);
        assert!(app.overlays.is_empty() || !app.ocr_busy);
        for o in &app.overlays {
            assert!(o.width > 0 && o.height > 0);
            assert_eq!(o.background.len(), (o.width * o.height) as usize);
        }
    }
    assert!(app.ocr_busy);
}
