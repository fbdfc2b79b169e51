//! What the program does on each event, in terms of the pixels of a drag, the characters of a text
//! and the ids of windows and menu items; and what the user sees and gets.

use crate::app::{
    are_to_cover, find_language, is_pending, is_window_message, lemma_find_language,
    lemma_find_window, menu_step, message_prefix, tray_step, user_step, window_step, App, Button,
    Failure, Motion, OcrJob, PendingOverlay, TrayEvent, UserAction, UserEvent, WindowAction,
    WindowEvent,
};
use crate::config::{
    is_loaded, is_path, is_save_plan, names, settings_directory, settings_file, Config, SavePlan,
    Stored,
};
use crate::hotkey::{activates, hotkey_id, is_hotkey_of, HotkeyPlan};
use crate::ocr::{are_languages, language_table};
use crate::overlay::{enough_background, is_drawn, shown};
use crate::pictures::{law_dimmed_digits, law_snippet_shows_its_place, lemma_index};
use crate::selection::{Coord, Phase, Region};
use crate::text::{blank, excerpt_limit, is_excerpt_cut, white_space};
use crate::tray::{are_language_ids, is_menu, opens, MenuEntry};
use vstd::prelude::*;
use vstd::utf8::*;

verus! {

/// Along one axis, a drag with these two coordinates runs between the pixels `a` and `b`. A
/// coordinate that is not a number gives way to the other one; where neither is one, both stand
/// for pixel 0.
pub open spec fn runs_between(start: Coord, end: Coord, a: u32, b: u32) -> bool {
    &&& start.pixel == Some(a) || start.pixel is None && a == b
    &&& end.pixel == Some(b) || end.pixel is None && a == b
    &&& start.pixel is None && end.pixel is None ==> a == 0
}

/// `low` and `high` are the pixels `a` and `b` in order, each at the last of `size` pixels where it
/// lies beyond it.
pub open spec fn are_ends(a: u32, b: u32, size: u32, low: u32, high: u32) -> bool {
    &&& low <= high < size
    &&& a < size && b < size ==> (low == a && high == b) || (low == b && high == a)
    &&& a < size <= b || b < size <= a ==> high == size - 1 && (low == a || low == b)
    &&& size <= a && size <= b ==> low == size - 1
}

/// A drag between two pixels of an overlay selects the rectangle with these two corners.
pub proof fn law_selection_joins_the_ends(
    sx: Coord,
    sy: Coord,
    cx: Coord,
    cy: Coord,
    a: u32,
    b: u32,
    c: u32,
    d: u32,
    width: u32,
    height: u32,
)
    requires
        sx.pixel == Some(a),
        sy.pixel == Some(b),
        cx.pixel == Some(c),
        cy.pixel == Some(d),
        a < width,
        c < width,
        b < height,
        d < height,
    ensures
        (Phase::Dragging { sx, sy, cx, cy }).selection(width, height) matches Some(r) && {
            &&& r.x1 <= r.x2
            &&& r.y1 <= r.y2
            &&& (r.x1 == a && r.x2 == c) || (r.x1 == c && r.x2 == a)
            &&& (r.y1 == b && r.y2 == d) || (r.y1 == d && r.y2 == b)
        },
{
}

/// Wherever a drag ends, its selection has the two ends as corners, each held within the overlay.
pub proof fn law_selection_is_held_within(
    sx: Coord,
    sy: Coord,
    cx: Coord,
    cy: Coord,
    a: u32,
    b: u32,
    c: u32,
    d: u32,
    width: u32,
    height: u32,
)
    requires
        runs_between(sx, cx, a, c),
        runs_between(sy, cy, b, d),
        0 < width,
        0 < height,
    ensures
        (Phase::Dragging { sx, sy, cx, cy }).selection(width, height) matches Some(r) && are_ends(
            a,
            c,
            width,
            r.x1,
            r.x2,
        ) && are_ends(b, d, height, r.y1, r.y2),
        Phase::Idle.selection(width, height) is None,
{
}

/// The frame of a drag begins at the lesser of its ends, wherever that is, and ends at the greater
/// one, held within the overlay.
pub proof fn law_frame_joins_the_ends(
    sx: Coord,
    sy: Coord,
    cx: Coord,
    cy: Coord,
    a: u32,
    b: u32,
    c: u32,
    d: u32,
    width: u32,
    height: u32,
)
    requires
        runs_between(sx, cx, a, c),
        runs_between(sy, cy, b, d),
        0 < width,
        0 < height,
    ensures
        (Phase::Dragging { sx, sy, cx, cy }).frame(width, height) matches Some(r) && r.x1 == (if a
            <= c {
            a
        } else {
            c
        }) && r.y1 == (if b <= d {
            b
        } else {
            d
        }) && r.x2 == (if a < width && c < width {
            if a <= c {
                c as int
            } else {
                a as int
            }
        } else {
            width - 1
        }) && r.y2 == (if b < height && d < height {
            if b <= d {
                d as int
            } else {
                b as int
            }
        } else {
            height - 1
        }),
        Phase::Idle.frame(width, height) is None,
{
}

/// On an overlay without columns or rows, a selection has its corners at 0 along that axis.
pub proof fn law_selection_of_nothing(phase: Phase, size: u32)
    requires
        phase is Dragging,
    ensures
        phase.selection(0, size) matches Some(r) && r.x1 == 0 && r.x2 == 0,
        phase.selection(size, 0) matches Some(r) && r.y1 == 0 && r.y2 == 0,
        phase.frame(0, size) matches Some(r) && r.x2 == 0,
        phase.frame(size, 0) matches Some(r) && r.y2 == 0,
{
}

/// A press starts a drag at the origin, and does nothing to a drag that is under way.
pub proof fn law_press_starts_a_drag(phase: Phase)
    ensures
        phase is Idle ==> (phase.pressed() matches Phase::Dragging { sx, sy, cx, cy } && sx.pixel
            == Some(0u32) && sx.zero && sy == sx && cx == sx && cy == sx),
        phase is Dragging ==> phase.pressed() == phase,
{
}

/// A drag follows the cursor. Its first corner stays where it is, but is set to the cursor too as
/// long as both its coordinates are exactly zero. Without a drag the cursor does nothing.
pub proof fn law_drag_follows_the_cursor(phase: Phase, x: Coord, y: Coord)
    ensures
        phase is Idle ==> phase.moved(x, y) is Idle,
        phase matches Phase::Dragging { sx, sy, cx: _, cy: _ } ==> {
            &&& phase.moved(x, y) matches Phase::Dragging { sx: ax, sy: ay, cx, cy }
            &&& cx == x
            &&& cy == y
            &&& sx.zero && sy.zero ==> ax == x && ay == y
            &&& !(sx.zero && sy.zero) ==> ax == sx && ay == sy
        },
{
}

/// Drawing while a drag is under way shows the screenshot unchanged strictly within the frame, a
/// white frame, and the screenshot at half its brightness outside.
pub proof fn law_drawn_drag(
    before: Seq<u32>,
    bg: Seq<u32>,
    w: u32,
    h: u32,
    sx: Coord,
    sy: Coord,
    cx: Coord,
    cy: Coord,
    a: u32,
    b: u32,
    c: u32,
    d: u32,
    after: Seq<u32>,
    x: int,
    y: int,
)
    requires
        runs_between(sx, cx, a, c),
        runs_between(sy, cy, b, d),
        is_drawn(before, bg, w, h, Phase::Dragging { sx, sy, cx, cy }, after),
        w * h <= before.len(),
        0 <= x < w,
        0 <= y < h,
    ensures
        ({
            let x1 = if a <= c {
                a
            } else {
                c
            };
            let y1 = if b <= d {
                b
            } else {
                d
            };
            let x2 = if a < w && c < w {
                a + c - x1
            } else {
                w - 1
            };
            let y2 = if b < h && d < h {
                b + d - y1
            } else {
                h - 1
            };
            let px = bg[y * w + x];
            let out = after[y * w + x];
            &&& x1 < x < x2 && y1 < y < y2 ==> out == px
            &&& x1 <= x <= x2 && y1 <= y <= y2 && (x == x1 || x == x2 || y == y1 || y == y2)
                ==> out == 0x00FFFFFF
            &&& !(x1 <= x <= x2 && y1 <= y <= y2) ==> {
                &&& out / 65536 == px / 65536 % 256 / 2
                &&& out / 256 % 256 == px / 256 % 256 / 2
                &&& out % 256 == px % 256 / 2
            }
        }),
{
    let i = y * w + x;
    lemma_index(w as int, h as int, x, y);
    law_dimmed_digits(bg[i]);
    law_frame_joins_the_ends(sx, sy, cx, cy, a, b, c, d, w, h);
    assert(after[i] == shown(bg[i], (Phase::Dragging { sx, sy, cx, cy }).frame(w, h), x, y));
}

/// Drawing without a drag shows the whole screenshot at half its brightness.
pub proof fn law_drawn_idle(
    before: Seq<u32>,
    bg: Seq<u32>,
    w: u32,
    h: u32,
    after: Seq<u32>,
    i: int,
)
    requires
        is_drawn(before, bg, w, h, Phase::Idle, after),
        0 <= i < before.len(),
    ensures
        i < bg.len() ==> {
            &&& after[i] / 65536 == bg[i] / 65536 % 256 / 2
            &&& after[i] / 256 % 256 == bg[i] / 256 % 256 / 2
            &&& after[i] % 256 == bg[i] % 256 / 2
        },
        i >= bg.len() ==> after[i] == before[i],
{
    if i < bg.len() {
        law_dimmed_digits(bg[i]);
        assert(after[i] == shown(bg[i], None, i % w as int, i / w as int));
    }
}

/// Drawing keeps the length of the buffer and what lies beyond the overlay.
pub proof fn law_drawing_stays_on_the_overlay(
    before: Seq<u32>,
    bg: Seq<u32>,
    w: u32,
    h: u32,
    phase: Phase,
    after: Seq<u32>,
    i: int,
)
    requires
        is_drawn(before, bg, w, h, phase, after),
    ensures
        after.len() == before.len(),
        w * h <= i < before.len() && bg.len() <= i ==> after[i] == before[i],
        phase is Dragging && w * h <= i < before.len() ==> after[i] == before[i],
{
}

/// A screenshot is background enough for any frame.
pub proof fn law_screenshot_is_enough_background(len: int, frame: Region, w: u32, h: u32)
    requires
        w * h <= len,
    ensures
        enough_background(len, frame, w, h),
{
}

/// Whether a character is white space: a space or a control character that separates words or
/// lines, by its code point.
pub open spec fn separates(c: char) -> bool {
    let u = c as u32;
    ||| u == 0x20
    ||| 0x9 <= u <= 0xD
    ||| u == 0x85
    ||| u == 0xA0
    ||| u == 0x1680
    ||| 0x2000 <= u <= 0x200A
    ||| u == 0x2028
    ||| u == 0x2029
    ||| u == 0x202F
    ||| u == 0x205F
    ||| u == 0x3000
}

/// A text with any character that is not white space is copied whole, wherever that character
/// stands and whatever surrounds it.
pub proof fn law_text_is_copied(
    before: App,
    text: String,
    after: App,
    action: UserAction,
    i: int,
)
    requires
        user_step(before, UserEvent::OcrDone(text), after, action),
        0 <= i < text@.len(),
        !separates(text@[i]),
    ensures
        action matches UserAction::CopyText(copy) && copy@ == text@,
        !after.ocr_busy,
        after == (App { ocr_busy: false, ..before }),
{
    assert(!white_space(text@[i]));
    assert(!blank(text@));
}

/// A text of white space alone, or of nothing, is not copied.
pub proof fn law_white_space_is_not_copied(
    before: App,
    text: String,
    after: App,
    action: UserAction,
)
    requires
        user_step(before, UserEvent::OcrDone(text), after, action),
        forall|i: int| 0 <= i < text@.len() ==> separates(#[trigger] text@[i]),
    ensures
        action is Nothing,
        after == (App { ocr_busy: false, ..before }),
{
    assert forall|i: int| 0 <= i < text@.len() implies white_space(#[trigger] text@[i]) by {
        assert(separates(text@[i]));
    }
    assert(blank(text@));
}

/// A text is blank if and only if each of its parts is.
pub proof fn law_blank_parts(head: Seq<char>, tail: Seq<char>)
    ensures
        blank(head + tail) <==> blank(head) && blank(tail),
        blank(Seq::<char>::empty()),
{
    if blank(head + tail) {
        assert forall|i: int| 0 <= i < head.len() implies white_space(#[trigger] head[i]) by {
            assert((head + tail)[i] == head[i]);
        }
        assert forall|i: int| 0 <= i < tail.len() implies white_space(#[trigger] tail[i]) by {
            assert((head + tail)[head.len() + i] == tail[i]);
        }
    }
}

/// Once a recognition ends, its text is copied whole if and only if it is not empty.
pub proof fn law_reply_is_copied(
    before: App,
    text: String,
    empty: bool,
    after: App,
    action: UserAction,
)
    requires
        after.recognised_from(before, text, empty, action),
    ensures
        !empty ==> (action matches UserAction::CopyText(copy) && copy@ == text@),
        empty ==> action is Nothing,
        after == (App { ocr_busy: false, ..before }),
{
}

/// A failed recognition is shown with its reason, and the next selection may start.
pub proof fn law_failure_is_shown(
    before: App,
    reason: String,
    after: App,
    action: UserAction,
)
    requires
        user_step(before, UserEvent::OcrError(reason), after, action),
    ensures
        action matches UserAction::ShowError(m) && m@ == "OCR failed: "@ + reason@,
        after == (App { ocr_busy: false, ..before }),
{
}

/// A message about a failure begins with what failed.
pub proof fn law_messages_say_what_failed(failure: Failure)
    ensures
        failure is Capture ==> message_prefix(failure) == "capture failed: "@,
        failure is Window ==> message_prefix(failure) == "window creation failed: "@,
        failure is Clipboard ==> message_prefix(failure) == "Clipboard write failed: "@,
        failure is Ocr ==> message_prefix(failure) == "OCR failed: "@,
{
}

/// The log shows a beginning of the text that ends between two characters, is as long as it can be
/// with at most 80 bytes, and is the whole text if that has no more.
pub proof fn law_excerpt_is_longest(text: Seq<char>, cut: int)
    requires
        is_excerpt_cut(encode_utf8(text), cut),
    ensures
        0 <= cut <= 80,
        cut <= encode_utf8(text).len(),
        is_char_boundary(encode_utf8(text), cut),
        encode_utf8(text).len() <= 80 ==> cut == encode_utf8(text).len(),
        forall|i: int|
            0 <= i <= 80 && i <= encode_utf8(text).len() && #[trigger] is_char_boundary(
                encode_utf8(text),
                i,
            ) ==> i <= cut,
{
    encode_utf8_valid_utf8(text);
    is_char_boundary_start_end_of_seq(encode_utf8(text));
    assert(excerpt_limit(encode_utf8(text)) <= 80);
}

/// The key combination, and a click of the left button on the tray icon when it comes up, open
/// overlays if and only if none are open and nothing is being recognised. No other event of the
/// icon does anything.
pub proof fn law_activation(before: App, event: UserEvent, after: App, action: UserAction)
    requires
        user_step(before, event, after, action),
        event is HotkeyActivated || event is TrayEvent,
    ensures
        after == before,
        action is Activate <==> {
            &&& before.overlays@.len() == 0
            &&& !before.ocr_busy
            &&& event is HotkeyActivated || event == UserEvent::TrayEvent(
                TrayEvent::Click { button: Button::Left, state: Motion::Released },
            )
        },
        action is Activate || action is Nothing,
{
}

/// The program asks for overlays in answer to nothing but the key combination and the tray icon.
pub proof fn law_only_requests_activate(
    before: App,
    event: UserEvent,
    after: App,
    action: UserAction,
)
    requires
        user_step(before, event, after, action),
    ensures
        action is Activate ==> event is HotkeyActivated || event is TrayEvent,
        action is CopyText ==> event is OcrDone,
        action is ShowError ==> event is OcrError,
        action is Exit || action is Configure || action is SaveConfig ==> event is MenuEvent,
        after.overlays == before.overlays,
        after.hotkey == before.hotkey,
        after.config.hotkey == before.config.hotkey,
{
}

/// Of the menu's items, the one for quitting ends the program, the one for the settings opens
/// them, and one of a language sets that language alone; where ids coincide, the earlier of these
/// counts. Any other id does nothing.
pub proof fn law_menu_by_ids(
    before: App,
    id: Seq<char>,
    after: App,
    action: UserAction,
    quit: bool,
    configure: bool,
    j: int,
)
    requires
        menu_step(before, id, after, action),
        quit <==> (before.id_quit matches Some(own) && own@ == id),
        configure <==> (before.id_configure matches Some(own) && own@ == id),
        0 <= j <= before.id_langs@.len(),
        forall|n: int| 0 <= n < j ==> (#[trigger] before.id_langs@[n]).0@ != id,
        j < before.id_langs@.len() ==> before.id_langs@[j].0@ == id,
    ensures
        quit ==> action is Exit && after == before,
        !quit && configure ==> action is Configure && after == before,
        !quit && !configure && j < before.id_langs@.len() ==> {
            &&& action is SaveConfig
            &&& after == (App { config: after.config, ..before })
            &&& after.config.ocr_language@ == before.id_langs@[j].1@
            &&& after.config.hotkey@ == before.config.hotkey@
        },
        !quit && !configure && j == before.id_langs@.len() ==> action is Nothing && after == before,
{
    lemma_find_language(before.id_langs@, id, j);
    assert(find_language(before.id_langs@, id) == if j < before.id_langs@.len() {
        Some(j)
    } else {
        None::<int>
    });
}

/// A menu event is the choice of the item with its id.
pub proof fn law_menu_event_is_a_choice(
    before: App,
    id: String,
    after: App,
    action: UserAction,
)
    requires
        user_step(before, UserEvent::MenuEvent(id), after, action),
    ensures
        menu_step(before, id@, after, action),
{
}

/// Setting up the tray takes in the ids of the commands, and for each language the id of its item
/// together with its tag; nothing else changes.
pub proof fn law_tray_takes_in_ids(
    before: App,
    configure: String,
    quit: String,
    item_ids: Seq<String>,
    languages: Seq<(String, String)>,
    after: App,
    i: int,
)
    requires
        tray_step(before, configure, quit, item_ids, languages, after),
        0 <= i,
    ensures
        after.id_configure == Some(configure),
        after.id_quit == Some(quit),
        i < after.id_langs@.len() <==> i < item_ids.len() && i < languages.len(),
        i < after.id_langs@.len() ==> after.id_langs@[i].0@ == item_ids[i]@
            && after.id_langs@[i].1@ == languages[i].1@,
        after.config == before.config,
        after.overlays == before.overlays,
        after.ocr_busy == before.ocr_busy,
        after.hotkey == before.hotkey,
{
    if i < after.id_langs@.len() {
        assert(after.id_langs@[i].0@ == item_ids[i]@);
    }
}

/// Ids and tags are paired in order, as long as there are both.
pub proof fn law_ids_are_paired_in_order(
    item_ids: Seq<String>,
    languages: Seq<(String, String)>,
    pairs: Seq<(String, String)>,
    i: int,
)
    requires
        are_language_ids(item_ids, languages, pairs),
        0 <= i,
    ensures
        i < pairs.len() <==> i < item_ids.len() && i < languages.len(),
        i < pairs.len() ==> pairs[i].0@ == item_ids[i]@ && pairs[i].1@ == languages[i].1@,
{
    if i < pairs.len() {
        assert(pairs[i].0@ == item_ids[i]@);
    }
}

/// The menu lists the languages by their names, in order, and then the two commands.
pub proof fn law_menu_lists_the_languages(
    languages: Seq<(String, String)>,
    menu: Seq<MenuEntry>,
    i: int,
)
    requires
        is_menu(languages, menu),
    ensures
        menu.len() == 5,
        menu[0] matches MenuEntry::Submenu { title, items } && title@ == "OCR Language"@
            && items@.len() == languages.len() && (0 <= i < languages.len() ==> items@[i]@
            == languages[i].0@),
        menu[1] is Separator,
        menu[2] matches MenuEntry::Item(label) && label@ == "Configure"@,
        menu[3] is Separator,
        menu[4] matches MenuEntry::Item(label) && label@ == "Quit"@,
{
}

/// The languages and their tags, the user's own first.
pub proof fn law_languages_by_name(languages: Seq<(String, String)>)
    requires
        are_languages(languages),
    ensures
        languages.len() == 11,
        languages[0].0@ == "Auto (System Language)"@ && languages[0].1@ == ""@,
        languages[1].0@ == "English"@ && languages[1].1@ == "en"@,
        languages[2].0@ == "German / Deutsch"@ && languages[2].1@ == "de"@,
        languages[3].0@ == "French / Français"@ && languages[3].1@ == "fr"@,
        languages[4].0@ == "Spanish / Español"@ && languages[4].1@ == "es"@,
        languages[5].0@ == "Chinese Simplified"@ && languages[5].1@ == "zh-Hans"@,
        languages[6].0@ == "Chinese Traditional"@ && languages[6].1@ == "zh-Hant"@,
        languages[7].0@ == "Japanese / 日本語"@ && languages[7].1@ == "ja"@,
        languages[8].0@ == "Korean / 한국어"@ && languages[8].1@ == "ko"@,
        languages[9].0@ == "Russian / Русский"@ && languages[9].1@ == "ru"@,
        languages[10].0@ == "Arabic / العربية"@ && languages[10].1@ == "ar"@,
{
    assert(language_table().len() == 11);
}

/// The command that opens a file names that very file last, after an empty title.
pub proof fn law_editor_gets_the_path(path: Seq<char>, args: Seq<String>)
    requires
        opens(path, args),
    ensures
        args.len() == 4,
        args[0]@ == "/c"@,
        args[1]@ == "start"@,
        args[2]@ == ""@,
        args.last()@ == path,
{
}

/// An event of a window that shows no overlay does nothing.
pub proof fn law_unknown_window_is_ignored(
    before: App,
    window: u64,
    event: WindowEvent,
    after: App,
    action: WindowAction,
)
    requires
        window_step(before, window, event, after, action),
        forall|j: int|
            0 <= j < before.overlays@.len() ==> (#[trigger] before.overlays@[j]).window != window,
    ensures
        after == before,
        action is Nothing,
{
    lemma_find_window(before.overlays@, window, before.overlays@.len() as int);
}

/// Overlay `i` is the first one that `window` shows.
pub open spec fn shows(app: App, window: u64, i: int) -> bool {
    &&& 0 <= i < app.overlays@.len()
    &&& app.overlays@[i].window == window
    &&& forall|j: int| 0 <= j < i ==> (#[trigger] app.overlays@[j]).window != window
}

/// The escape key closes all overlays when it goes down, and leaves all else as it is.
pub proof fn law_escape_closes(
    before: App,
    window: u64,
    i: int,
    event: WindowEvent,
    after: App,
    action: WindowAction,
)
    requires
        shows(before, window, i),
        event == (WindowEvent::KeyboardInput { state: Motion::Pressed, escape: true }),
        window_step(before, window, event, after, action),
    ensures
        action is Close,
        after.overlays@.len() == 0,
        after == (App { overlays: after.overlays, ..before }),
{
    lemma_find_window(before.overlays@, window, i);
}

/// The left button, when it goes down, starts a drag at the origin on its own overlay, unless one
/// is under way there, and changes nothing else.
pub proof fn law_press_is_a_drag(
    before: App,
    window: u64,
    i: int,
    event: WindowEvent,
    after: App,
    action: WindowAction,
    j: int,
)
    requires
        shows(before, window, i),
        event == (WindowEvent::MouseInput { state: Motion::Pressed, button: Button::Left }),
        window_step(before, window, event, after, action),
    ensures
        action is Nothing,
        after == (App { overlays: after.overlays, ..before }),
        after.overlays@.len() == before.overlays@.len(),
        0 <= j < before.overlays@.len() && (j != i || before.overlays@[i].phase is Dragging)
            ==> after.overlays@[j] == before.overlays@[j],
        before.overlays@[i].phase is Idle ==> (after.overlays@[i].phase matches Phase::Dragging {
            sx,
            sy,
            cx,
            cy,
        } && sx.pixel == Some(0u32) && sx.zero && sy == sx && cx == sx && cy == sx),
        after.overlays@[i].background == before.overlays@[i].background,
        after.overlays@[i].window == window,
        after.overlays@[i].width == before.overlays@[i].width,
        after.overlays@[i].height == before.overlays@[i].height,
{
    lemma_find_window(before.overlays@, window, i);
    law_press_starts_a_drag(before.overlays@[i].phase);
}

/// The cursor moves the drag on its own overlay and has it redrawn; without a drag it does nothing.
pub proof fn law_cursor_moves_the_drag(
    before: App,
    window: u64,
    i: int,
    x: Coord,
    y: Coord,
    after: App,
    action: WindowAction,
    j: int,
)
    requires
        shows(before, window, i),
        window_step(before, window, WindowEvent::CursorMoved { x, y }, after, action),
    ensures
        after == (App { overlays: after.overlays, ..before }),
        after.overlays@.len() == before.overlays@.len(),
        0 <= j < before.overlays@.len() && (j != i || before.overlays@[i].phase is Idle)
            ==> after.overlays@[j] == before.overlays@[j],
        before.overlays@[i].phase is Idle ==> action is Nothing,
        before.overlays@[i].phase matches Phase::Dragging { sx, sy, cx: _, cy: _ } ==> {
            &&& action is RequestRedraw
            &&& after.overlays@[i].phase matches Phase::Dragging { sx: ax, sy: ay, cx, cy }
            &&& cx == x
            &&& cy == y
            &&& sx.zero && sy.zero ==> ax == x && ay == y
            &&& !(sx.zero && sy.zero) ==> ax == sx && ay == sy
        },
        after.overlays@[i].background == before.overlays@[i].background,
        after.overlays@[i].window == window,
        after.overlays@[i].width == before.overlays@[i].width,
        after.overlays@[i].height == before.overlays@[i].height,
{
    lemma_find_window(before.overlays@, window, i);
    law_drag_follows_the_cursor(before.overlays@[i].phase, x, y);
}

/// The left button, when it comes up, ends the drag: the rectangle between its two ends, without
/// its last column and row, is recognised as the screenshot shows it and in the configured
/// language. A rectangle without width or height closes the overlays only.
pub proof fn law_release_snips_the_drag(
    before: App,
    window: u64,
    i: int,
    sx: Coord,
    sy: Coord,
    cx: Coord,
    cy: Coord,
    a: u32,
    b: u32,
    c: u32,
    d: u32,
    x1: u32,
    y1: u32,
    x2: u32,
    y2: u32,
    event: WindowEvent,
    after: App,
    action: WindowAction,
    u: int,
    v: int,
)
    requires
        shows(before, window, i),
        0 < before.overlays@[i].width,
        0 < before.overlays@[i].height,
        before.overlays@[i].phase == (Phase::Dragging { sx, sy, cx, cy }),
        runs_between(sx, cx, a, c),
        runs_between(sy, cy, b, d),
        are_ends(a, c, before.overlays@[i].width, x1, x2),
        are_ends(b, d, before.overlays@[i].height, y1, y2),
        event == (WindowEvent::MouseInput { state: Motion::Released, button: Button::Left }),
        window_step(before, window, event, after, action),
    ensures
        after == (App { overlays: after.overlays, ocr_busy: after.ocr_busy, ..before }),
        after.overlays@.len() == 0,
        x1 == x2 || y1 == y2 ==> action is Close && after.ocr_busy == before.ocr_busy,
        x1 < x2 && y1 < y2 ==> {
            &&& after.ocr_busy
            &&& action matches WindowAction::Recognise(job)
            &&& job.language@ == before.config.ocr_language@
            &&& job.image.width == x2 - x1
            &&& job.image.height == y2 - y1
            &&& job.image.data@.len() == 4 * ((x2 - x1) * (y2 - y1))
            &&& 0 <= u < x2 - x1 && 0 <= v < y2 - y1 ==> {
                let px = before.overlays@[i].background@[(y1 + v) * before.overlays@[i].width + (x1
                    + u)];
                let at = 4 * (v * (x2 - x1) + u);
                &&& job.image.data@[at] == px / 65536 % 256
                &&& job.image.data@[at + 1] == px / 256 % 256
                &&& job.image.data@[at + 2] == px % 256
                &&& job.image.data@[at + 3] == 255
            }
        },
{
    let overlay = before.overlays@[i];
    lemma_find_window(before.overlays@, window, i);
    law_selection_is_held_within(sx, sy, cx, cy, a, b, c, d, overlay.width, overlay.height);
    let region = Region { x1, y1, x2, y2 };
    assert(overlay.phase.selection(overlay.width, overlay.height) == Some(region));
    if x1 < x2 && y1 < y2 {
        if let WindowAction::Recognise(job) = action {
            law_snippet_shows_its_place(
                overlay.background@,
                overlay.width,
                x1,
                y1,
                (x2 - x1) as u32,
                (y2 - y1) as u32,
                job.image,
                u,
                v,
            );
        }
    }
}

/// A press, the cursor at one pixel and then at another, and a release snip the rectangle between
/// these two pixels out of the overlay's screenshot.
pub proof fn law_drag_snips_between_its_pixels(
    states: Seq<App>,
    window: u64,
    i: int,
    from: (Coord, Coord),
    to: (Coord, Coord),
    a: u32,
    b: u32,
    c: u32,
    d: u32,
    actions: Seq<WindowAction>,
    u: int,
    v: int,
)
    requires
        states.len() == 5,
        actions.len() == 4,
        shows(states[0], window, i),
        states[0].overlays@[i].phase is Idle,
        from.0.pixel == Some(a),
        from.1.pixel == Some(b),
        to.0.pixel == Some(c),
        to.1.pixel == Some(d),
        !(from.0.zero && from.1.zero),
        a < states[0].overlays@[i].width,
        c < states[0].overlays@[i].width,
        b < states[0].overlays@[i].height,
        d < states[0].overlays@[i].height,
        a != c,
        b != d,
        window_step(
            states[0],
            window,
            WindowEvent::MouseInput { state: Motion::Pressed, button: Button::Left },
            states[1],
            actions[0],
        ),
        window_step(
            states[1],
            window,
            WindowEvent::CursorMoved { x: from.0, y: from.1 },
            states[2],
            actions[1],
        ),
        window_step(
            states[2],
            window,
            WindowEvent::CursorMoved { x: to.0, y: to.1 },
            states[3],
            actions[2],
        ),
        window_step(
            states[3],
            window,
            WindowEvent::MouseInput { state: Motion::Released, button: Button::Left },
            states[4],
            actions[3],
        ),
    ensures
        actions[3] matches WindowAction::Recognise(job) && {
            let screen = states[0].overlays@[i];
            let left = if a < c {
                a
            } else {
                c
            };
            let top = if b < d {
                b
            } else {
                d
            };
            let w = a + c - 2 * left;
            let h = b + d - 2 * top;
            &&& job.image.width == w
            &&& job.image.height == h
            &&& job.language@ == states[0].config.ocr_language@
            &&& 0 <= u < w && 0 <= v < h ==> {
                let px = screen.background@[(top + v) * screen.width + (left + u)];
                let at = 4 * (v * w + u);
                &&& job.image.data@[at] == px / 65536 % 256
                &&& job.image.data@[at + 1] == px / 256 % 256
                &&& job.image.data@[at + 2] == px % 256
                &&& job.image.data@[at + 3] == 255
            }
        },
        states[4].ocr_busy,
        states[4].overlays@.len() == 0,
{
    let press = WindowEvent::MouseInput { state: Motion::Pressed, button: Button::Left };
    let release = WindowEvent::MouseInput { state: Motion::Released, button: Button::Left };
    assert forall|j: int| 0 <= j < i implies (#[trigger] states[1].overlays@[j]).window
        != window by {
        law_press_is_a_drag(states[0], window, i, press, states[1], actions[0], j);
        assert(states[0].overlays@[j].window != window);
    }
    law_press_is_a_drag(states[0], window, i, press, states[1], actions[0], i);
    assert forall|j: int| 0 <= j < i implies (#[trigger] states[2].overlays@[j]).window
        != window by {
        law_cursor_moves_the_drag(
            states[1],
            window,
            i,
            from.0,
            from.1,
            states[2],
            actions[1],
            j,
        );
        assert(states[1].overlays@[j].window != window);
    }
    law_cursor_moves_the_drag(states[1], window, i, from.0, from.1, states[2], actions[1], i);
    assert forall|j: int| 0 <= j < i implies (#[trigger] states[3].overlays@[j]).window
        != window by {
        law_cursor_moves_the_drag(states[2], window, i, to.0, to.1, states[3], actions[2], j);
        assert(states[2].overlays@[j].window != window);
    }
    law_cursor_moves_the_drag(states[2], window, i, to.0, to.1, states[3], actions[2], i);
    let x1 = if a < c {
        a
    } else {
        c
    };
    let x2 = if a < c {
        c
    } else {
        a
    };
    let y1 = if b < d {
        b
    } else {
        d
    };
    let y2 = if b < d {
        d
    } else {
        b
    };
    law_release_snips_the_drag(
        states[3],
        window,
        i,
        from.0,
        from.1,
        to.0,
        to.1,
        a,
        b,
        c,
        d,
        x1,
        y1,
        x2,
        y2,
        release,
        states[4],
        actions[3],
        u,
        v,
    );
}

/// A release without a drag, a key but escape going down, a button but the left one, and any event
/// that is not listed do nothing; a request to redraw has the window's own overlay drawn.
pub proof fn law_other_events_do_nothing(
    before: App,
    window: u64,
    i: int,
    event: WindowEvent,
    after: App,
    action: WindowAction,
)
    requires
        shows(before, window, i),
        window_step(before, window, event, after, action),
    ensures
        event is Other ==> after == before && action is Nothing,
        event is RedrawRequested ==> after == before && (action matches WindowAction::Paint(n) && n
            == i),
        event matches WindowEvent::KeyboardInput { state, escape } ==> (!escape || state is Released
            ==> after == before && action is Nothing),
        event matches WindowEvent::MouseInput { state, button } ==> (!(button is Left) || (
        state is Released && before.overlays@[i].phase is Idle) ==> after == before
            && action is Nothing),
{
    lemma_find_window(before.overlays@, window, i);
}

/// Finishing a selection cuts the region out of its own overlay and closes all of them.
pub proof fn law_finished_selection(
    before: App,
    i: int,
    region: Region,
    after: App,
    job: OcrJob,
    u: int,
    v: int,
)
    requires
        0 <= i < before.overlays@.len(),
        region.x1 <= region.x2,
        region.y1 <= region.y2,
        after.snipped_from(before, i, region, job),
    ensures
        after.ocr_busy,
        after.overlays@.len() == 0,
        after == (App { overlays: after.overlays, ocr_busy: true, ..before }),
        job.language@ == before.config.ocr_language@,
        job.image.width == region.x2 - region.x1,
        job.image.height == region.y2 - region.y1,
        0 <= u < region.x2 - region.x1 && 0 <= v < region.y2 - region.y1 ==> {
            let px = before.overlays@[i].background@[(region.y1 + v) * before.overlays@[i].width + (
            region.x1 + u)];
            let at = 4 * (v * (region.x2 - region.x1) + u);
            &&& job.image.data@[at] == px / 65536 % 256
            &&& job.image.data@[at + 1] == px / 256 % 256
            &&& job.image.data@[at + 2] == px % 256
            &&& job.image.data@[at + 3] == 255
        },
{
    law_snippet_shows_its_place(
        before.overlays@[i].background@,
        before.overlays@[i].width,
        region.x1,
        region.y1,
        (region.x2 - region.x1) as u32,
        (region.y2 - region.y1) as u32,
        job.image,
        u,
        v,
    );
}

/// Closing takes all overlays away and nothing else.
pub proof fn law_closing_leaves_the_rest(before: App, after: App)
    requires
        after.closed_from(before),
    ensures
        after.overlays@.len() == 0,
        after == (App { overlays: after.overlays, ..before }),
{
}

/// The available monitors are covered, in order; where there are none, the primary one is, if
/// there is one.
pub proof fn law_which_monitors_are_covered<M>(
    available: Seq<M>,
    primary: Option<M>,
    monitors: Seq<M>,
)
    requires
        are_to_cover(available, primary, monitors),
    ensures
        available.len() > 0 ==> monitors == available,
        available.len() == 0 ==> match primary {
            Some(m) => monitors.len() == 1 && monitors[0] == m,
            None => monitors.len() == 0,
        },
{
}

/// A captured monitor waits for a window with its own pixels and size; one that could not be
/// captured is reported with the reason.
pub proof fn law_captured_monitor_waits(
    width: u32,
    height: u32,
    captured: Result<Vec<u32>, String>,
    pending: Result<PendingOverlay, String>,
)
    requires
        is_pending(width, height, captured, pending),
    ensures
        captured matches Ok(pixels) ==> (pending matches Ok(p) && p.background@ == pixels@
            && p.width == width && p.height == height),
        captured matches Err(reason) ==> (pending matches Err(m) && m@ == "capture failed: "@
            + reason@),
{
}

/// A monitor with a window gets an idle overlay after the others; one without is reported with the
/// reason and changes nothing.
pub proof fn law_window_becomes_an_overlay(
    before: App,
    pending: PendingOverlay,
    window: Result<u64, String>,
    after: App,
    message: Option<String>,
)
    requires
        after.opened_from(before, pending, window),
        is_window_message(window, message),
    ensures
        window matches Ok(id) ==> {
            &&& message is None
            &&& after == (App { overlays: after.overlays, ..before })
            &&& after.overlays@.len() == before.overlays@.len() + 1
            &&& after.overlays@.drop_last() == before.overlays@
            &&& after.overlays@.last().window == id
            &&& after.overlays@.last().background@ == pending.background@
            &&& after.overlays@.last().width == pending.width
            &&& after.overlays@.last().height == pending.height
            &&& after.overlays@.last().phase is Idle
        },
        window matches Err(reason) ==> after == before && (message matches Some(m) && m@
            == "window creation failed: "@ + reason@),
{
    if window is Ok {
        assert(after.overlays@.drop_last() =~= before.overlays@);
    }
}

/// The program starts with the given settings and nothing open, registered or under way.
pub proof fn law_start(config: Config, app: App)
    requires
        app.is_new(config),
    ensures
        app.config == config,
        app.overlays@.len() == 0,
        !app.ocr_busy,
        app.hotkey is None,
        app.id_quit is None,
        app.id_configure is None,
        app.id_langs@.len() == 0,
        app.may_activate(),
        app.wf(),
{
}

/// The program is sound if and only if every overlay has a positive size and as many pixels as
/// that, and none is open while a snippet is being recognised.
pub proof fn law_soundness(app: App)
    ensures
        app.wf() <==> {
            &&& app.ocr_busy ==> app.overlays@.len() == 0
            &&& forall|i: int|
                0 <= i < app.overlays@.len() ==> {
                    let o = #[trigger] app.overlays@[i];
                    &&& 0 < o.width
                    &&& 0 < o.height
                    &&& o.background@.len() == o.width * o.height
                    &&& o.background@.len() <= 0xFFFF_FFFF
                    &&& 4 * o.background@.len() <= isize::MAX
                }
        },
{
    if app.wf() {
        assert forall|i: int| 0 <= i < app.overlays@.len() implies {
            let o = #[trigger] app.overlays@[i];
            &&& 0 < o.width
            &&& 0 < o.height
            &&& o.background@.len() == o.width * o.height
            &&& o.background@.len() <= 0xFFFF_FFFF
            &&& 4 * o.background@.len() <= isize::MAX
        } by {
            assert(app.overlays@[i].wf());
        }
    }
}

/// A captured monitor may get a window if and only if it has a positive size and as many pixels as
/// that.
pub proof fn law_pending_soundness(pending: PendingOverlay)
    ensures
        pending.wf() <==> {
            &&& 0 < pending.width
            &&& 0 < pending.height
            &&& pending.background@.len() == pending.width * pending.height
            &&& pending.background@.len() <= 0xFFFF_FFFF
            &&& 4 * pending.background@.len() <= isize::MAX
        },
{
}

/// The id of a key combination is that which the text stands for; a text that stands for none has
/// none. Only the letters `or` in a text let it depend on the system.
pub proof fn law_hotkey_is_that_of_the_text(text: Seq<char>, id: Option<u32>, macos: bool)
    requires
        is_hotkey_of(text, id),
    ensures
        id is Some == hotkey_id(text, macos) is Some,
        id == hotkey_id(text, true) || id == hotkey_id(text, false),
        (forall|i: int|
            0 <= i < text.len() - 1 ==> !((#[trigger] text[i] == 'o' || text[i] == 'O') && (text[i
                + 1] == 'r' || text[i + 1] == 'R'))) ==> id == hotkey_id(text, macos),
{
}

/// What was registered is what is given up next, and the new combination is asked for in its place.
pub proof fn law_hotkey_is_replaced(
    start: App,
    first: u32,
    ok: bool,
    registered: App,
    second: Option<u32>,
    plan: HotkeyPlan,
    end: App,
)
    requires
        registered.hotkey_registered_from(start, first, ok),
        end.hotkey_replaced_from(registered, second, plan),
    ensures
        ok ==> registered.hotkey == Some(first) && plan.unregister == Some(first),
        !ok ==> registered == start && plan.unregister == start.hotkey,
        plan.register == second,
        end.hotkey is None,
        registered == (App { hotkey: registered.hotkey, ..start }),
        end == (App { hotkey: None, ..start }),
{
}

/// A key event starts a selection if and only if a combination is registered, it is that one, and
/// it went down.
pub proof fn law_registered_hotkey_activates(own: u32, id: u32, pressed: bool)
    ensures
        activates(Some(own), id, pressed) <==> own == id && pressed,
        !activates(None, id, pressed),
{
}

/// The settings are kept in the file `config.json` of the directory `snip2text` below that of the
/// system, both when they are looked for and when they are saved, and nowhere without such a
/// directory. They are saved as they are.
pub proof fn law_where_settings_are_kept<D>(
    config: Config,
    config_dir: Option<D>,
    path: Option<(D, Vec<String>)>,
    plan: Option<SavePlan<D>>,
)
    requires
        is_path(config_dir, path),
        is_save_plan(config, config_dir, plan),
    ensures
        path is Some == config_dir is Some,
        plan is Some == config_dir is Some,
        config_dir matches Some(dir) ==> {
            &&& path matches Some((base, file))
            &&& base == dir
            &&& file@.len() == 2
            &&& file@[0]@ == "snip2text"@
            &&& file@[1]@ == "config.json"@
        },
        config_dir matches Some(dir) ==> {
            &&& plan matches Some(p)
            &&& p.base == dir
            &&& p.directory@.len() == 1
            &&& p.directory@[0]@ == "snip2text"@
            &&& p.file@.len() == 2
            &&& p.file@[0]@ == "snip2text"@
            &&& p.file@[1]@ == "config.json"@
            &&& p.contents.hotkey@ == config.hotkey@
            &&& p.contents.ocr_language@ == config.ocr_language@
        },
{
    if let Some((_, file)) = path {
        assert(names(file@).len() == file@.len());
        assert(settings_file().len() == 2);
        assert(names(file@)[0] == file@[0]@ && names(file@)[1] == file@[1]@);
    }
    if let Some(p) = plan {
        assert(names(p.file@).len() == p.file@.len());
        assert(names(p.directory@).len() == p.directory@.len());
        assert(settings_file().len() == 2 && settings_directory().len() == 1);
        assert(names(p.file@)[0] == p.file@[0]@ && names(p.file@)[1] == p.file@[1]@);
        assert(names(p.directory@)[0] == p.directory@[0]@);
    }
}

/// The stored settings are used where they could be read; else the combination is
/// `CTRL+ALT+KeyS` and the language that of the system.
pub proof fn law_which_settings_are_used(stored: Stored, config: Config)
    requires
        is_loaded(stored, config),
    ensures
        stored matches Stored::Read(found) ==> config.hotkey@ == found.hotkey@
            && config.ocr_language@ == found.ocr_language@,
        !(stored is Read) ==> config.hotkey@ == "CTRL+ALT+KeyS"@ && config.ocr_language@.len() == 0,
{
}

} // verus!
