//! What holds of the program as a whole.

use crate::app::{
    are_to_cover, find_language, find_window, is_id, is_pending, lemma_find_language,
    lemma_window_found, menu_step, tray_step, user_step, window_step, App, OcrJob, PendingOverlay,
    UserAction, UserEvent, WindowAction, WindowEvent,
};
use crate::brightness::{enlarges_exactly, law_scale_factor_is_least, lemma_quotient};
use crate::capture::{
    is_capture, is_extract, is_plan, lemma_region_index, opaque, region_in, source_index,
    CapturePlan,
};
use crate::config::Config;
use crate::ocr::{
    is_bitmap_of, is_engine_for, is_enlarged, is_toned, language_table, scale_factor, swapped,
    BitmapData, Engine,
};
use crate::overlay::{inside, is_screenshot, shown, Overlay};
use crate::pixel::{law_unpack_of_pack, packed};
use crate::raster::{fits, offset, rgba_at, RgbaImage};
use crate::selection::{clamped, greatest, least, Coord, Phase, Region};
use vstd::prelude::*;

verus! {

/// The phase after the cursor moved through the given positions.
pub open spec fn moved_through(phase: Phase, path: Seq<(Coord, Coord)>) -> Phase
    decreases path.len(),
{
    if path.len() == 0 {
        phase
    } else {
        moved_through(phase, path.drop_last()).moved(path.last().0, path.last().1)
    }
}

/// A selection has its corners in order and lies within its overlay.
pub proof fn law_selection_within_overlay(phase: Phase, width: u32, height: u32, region: Region)
    requires
        width > 0,
        height > 0,
        phase.selection(width, height) == Some(region),
    ensures
        region.x1 <= region.x2 < width,
        region.y1 <= region.y2 < height,
{
}

/// Dragging from one corner to the other selects the same as dragging back, and as dragging
/// between the other two corners.
pub proof fn law_selection_ignores_direction(
    sx: Coord,
    sy: Coord,
    cx: Coord,
    cy: Coord,
    width: u32,
    height: u32,
)
    ensures
        (Phase::Dragging { sx, sy, cx, cy }).selection(width, height) == (Phase::Dragging {
            sx: cx,
            sy: cy,
            cx: sx,
            cy: sy,
        }).selection(width, height),
        (Phase::Dragging { sx, sy, cx, cy }).selection(width, height) == (Phase::Dragging {
            sx: cx,
            sy,
            cx: sx,
            cy,
        }).selection(width, height),
        (Phase::Dragging { sx, sy, cx, cy }).selection(width, height) == (Phase::Dragging {
            sx,
            sy: cy,
            cx,
            cy: sy,
        }).selection(width, height),
{
}

/// After a press, the drag goes from the first position of the cursor to its last one,
/// whatever lies between, as long as the first one is not exactly the origin.
pub proof fn law_drag_joins_first_and_last(path: Seq<(Coord, Coord)>)
    requires
        path.len() > 0,
        !(path[0].0.zero && path[0].1.zero),
    ensures
        moved_through(Phase::Idle.pressed(), path) == (Phase::Dragging {
            sx: path[0].0,
            sy: path[0].1,
            cx: path.last().0,
            cy: path.last().1,
        }),
    decreases path.len(),
{
    if path.len() == 1 {
        assert(moved_through(Phase::Idle.pressed(), path.drop_last()) == Phase::Idle.pressed());
    } else {
        law_drag_joins_first_and_last(path.drop_last());
    }
}

/// A drag that does not lie beyond the right or lower edge is framed where it selects.
pub proof fn law_frame_is_selection(
    sx: Coord,
    sy: Coord,
    cx: Coord,
    cy: Coord,
    width: u32,
    height: u32,
)
    requires
        least(sx, cx) < width,
        least(sy, cy) < height,
    ensures
        ({
            let phase = Phase::Dragging { sx, sy, cx, cy };
            phase.frame(width, height) == phase.selection(width, height)
        }),
{
}

/// Every pixel of the snippet is shown within the frame, so none of it is dimmed.
pub proof fn law_snippet_is_framed(region: Region, x: int, y: int, bg: u32)
    requires
        0 <= x < region.x2 - region.x1,
        0 <= y < region.y2 - region.y1,
    ensures
        inside(region, region.x1 + x, region.y1 + y),
        shown(bg, Some(region), region.x1 + x, region.y1 + y) == bg || shown(
            bg,
            Some(region),
            region.x1 + x,
            region.y1 + y,
        ) == crate::pixel::WHITE,
{
}

/// The bitmap of a region that is captured and cut out, and not prepared further, has the very
/// blue, green and red bytes that the system captured, and is opaque.
pub proof fn law_cut_out_keeps_captured_bytes(
    raw: Seq<u8>,
    pixels: Seq<u32>,
    full_width: u32,
    rx: u32,
    ry: u32,
    rw: u32,
    rh: u32,
    img: RgbaImage,
    bitmap: BitmapData,
    x: int,
    y: int,
)
    requires
        is_capture(raw, pixels),
        region_in(pixels.len() as int, full_width, rx, ry, rw, rh),
        is_extract(pixels, full_width, rx, ry, rw, rh, img),
        is_bitmap_of(img, bitmap),
        0 <= x < rw,
        0 <= y < rh,
    ensures
        ({
            let at = 4 * source_index(full_width, rx, ry, x, y);
            rgba_at(bitmap.bgra@, offset(rw as int, x, y)) == (
                raw[at],
                raw[at + 1],
                raw[at + 2],
                255u8,
            )
        }),
{
    let i = source_index(full_width, rx, ry, x, y);
    lemma_region_index(pixels.len() as int, full_width, rx, ry, rw, rh, x, y);
    law_unpack_of_pack(raw[4 * i + 2], raw[4 * i + 1], raw[4 * i]);
    assert(pixels[i] == packed(raw[4 * i + 2], raw[4 * i + 1], raw[4 * i]));
    assert(img.contains(x, y));
    assert(img.pixel(x, y) == opaque(pixels[i]));
    assert(rgba_at(bitmap.bgra@, offset(img.width as int, x, y)) == swapped(img.pixel(x, y)));
}

/// The recogniser gets the captured region: each pixel of the prepared bitmap has the blue,
/// green and red bytes that the system captured for the pixel it enlarges, inverted where the
/// snippet is dark, and is opaque.
pub proof fn law_recogniser_gets_what_was_captured(
    raw: Seq<u8>,
    pixels: Seq<u32>,
    full_width: u32,
    rx: u32,
    ry: u32,
    rw: u32,
    rh: u32,
    img: RgbaImage,
    enlarged: RgbaImage,
    dark: bool,
    prepared: RgbaImage,
    bitmap: BitmapData,
    x: int,
    y: int,
)
    requires
        is_capture(raw, pixels),
        region_in(pixels.len() as int, full_width, rx, ry, rw, rh),
        is_extract(pixels, full_width, rx, ry, rw, rh, img),
        is_enlarged(img, enlarged),
        is_toned(enlarged, dark, prepared),
        is_bitmap_of(prepared, bitmap),
        enlarges_exactly(img) || scale_factor(rw as int, rh as int) == 1,
        0 < rw,
        0 < rh,
        prepared.contains(x, y),
    ensures
        ({
            let k = scale_factor(rw as int, rh as int);
            let at = 4 * source_index(full_width, rx, ry, x / k, y / k);
            rgba_at(bitmap.bgra@, offset(prepared.width as int, x, y)) == if dark {
                (
                    (255 - raw[at]) as u8,
                    (255 - raw[at + 1]) as u8,
                    (255 - raw[at + 2]) as u8,
                    255u8,
                )
            } else {
                (raw[at], raw[at + 1], raw[at + 2], 255u8)
            }
        }),
{
    let k = scale_factor(rw as int, rh as int);
    law_scale_factor_is_least(rw as int, rh as int);
    assert(enlarged.contains(x, y));
    lemma_quotient(x, k, rw as int);
    lemma_quotient(y, k, rh as int);
    let i = source_index(full_width, rx, ry, x / k, y / k);
    lemma_region_index(pixels.len() as int, full_width, rx, ry, rw, rh, x / k, y / k);
    law_unpack_of_pack(raw[4 * i + 2], raw[4 * i + 1], raw[4 * i]);
    assert(pixels[i] == packed(raw[4 * i + 2], raw[4 * i + 1], raw[4 * i]));
    assert(img.pixel(x / k, y / k) == opaque(pixels[i]));
    assert(enlarged.pixel(x, y) == img.pixel(x / k, y / k));
    assert(rgba_at(bitmap.bgra@, offset(prepared.width as int, x, y)) == swapped(
        prepared.pixel(x, y),
    ));
}

/// What is captured by plan is a screenshot of the size that was planned for.
pub proof fn law_planned_capture_is_screenshot(
    x: i32,
    y: i32,
    width: u32,
    height: u32,
    plan: CapturePlan,
    raw: Seq<u8>,
    pixels: Seq<u32>,
)
    requires
        width > 0,
        height > 0,
        width * height <= u32::MAX,
        fits(width as int, height as int),
        is_plan(x, y, width, height, plan),
        raw.len() == plan.buffer_len,
        is_capture(raw, pixels),
    ensures
        is_screenshot(pixels, width, height),
{
}

/// What became of covering one monitor: its size, its pixels or why there are none, and, where
/// there are, its window or why there is none.
pub struct Attempt<M> {
    pub monitor: M,
    pub width: u32,
    pub height: u32,
    pub captured: Result<Vec<u32>, String>,
    pub pending: Result<PendingOverlay, String>,
    pub window: Result<u64, String>,
}

/// The attempt takes `before` to `after`: the capture is reported, and then the window, unless
/// the capture failed.
pub open spec fn attempted<M>(before: App, attempt: Attempt<M>, after: App) -> bool {
    &&& is_pending(attempt.width, attempt.height, attempt.captured, attempt.pending)
    &&& match attempt.pending {
        Ok(pending) => after.opened_from(before, pending, attempt.window),
        Err(_) => after == before,
    }
}

/// Whether what an attempt captured, if anything, is a screenshot of the monitor's size.
pub open spec fn captures_screen<M>(attempt: Attempt<M>) -> bool {
    attempt.captured matches Ok(pixels) ==> is_screenshot(
        pixels@,
        attempt.width,
        attempt.height,
    )
}

/// Whether both the capture and the window of an attempt succeeded.
pub open spec fn succeeded<M>(attempt: Attempt<M>) -> bool {
    attempt.captured is Ok && attempt.window is Ok
}

/// The idle overlay of a monitor, with its own size, pixels and window.
pub open spec fn overlay_of<M>(attempt: Attempt<M>) -> Overlay {
    Overlay {
        window: attempt.window->Ok_0,
        background: attempt.captured->Ok_0,
        width: attempt.width,
        height: attempt.height,
        phase: Phase::Idle,
    }
}

/// The overlays of the attempts that succeeded, in order.
pub open spec fn overlays_of<M>(attempts: Seq<Attempt<M>>) -> Seq<Overlay>
    decreases attempts.len(),
{
    if attempts.len() == 0 {
        Seq::empty()
    } else if succeeded(attempts.last()) {
        overlays_of(attempts.drop_last()).push(overlay_of(attempts.last()))
    } else {
        overlays_of(attempts.drop_last())
    }
}

/// An activation that tries the monitors to cover one after the other ends with one overlay
/// for each monitor whose capture and window succeeded, in the order of the monitors, and with
/// all else as it was. Where all succeed, each monitor has its overlay; and where what was
/// captured are screenshots, the state stays sound.
pub proof fn law_one_overlay_per_monitor<M>(
    available: Seq<M>,
    primary: Option<M>,
    monitors: Seq<M>,
    attempts: Seq<Attempt<M>>,
    states: Seq<App>,
)
    requires
        are_to_cover(available, primary, monitors),
        attempts.len() == monitors.len(),
        forall|i: int|
            0 <= i < attempts.len() ==> (#[trigger] attempts[i]).monitor == monitors[i],
        states.len() == attempts.len() + 1,
        states[0].may_activate(),
        forall|i: int|
            0 <= i < attempts.len() ==> attempted(
                states[i],
                #[trigger] attempts[i],
                states[i + 1],
            ),
    ensures
        states.last() == (App { overlays: states.last().overlays, ..states[0] }),
        states.last().overlays@ == overlays_of(attempts),
        (forall|i: int| 0 <= i < attempts.len() ==> succeeded(#[trigger] attempts[i])) ==> {
            &&& states.last().overlays@.len() == monitors.len()
            &&& forall|i: int|
                0 <= i < monitors.len() ==> #[trigger] states.last().overlays@[i] == overlay_of(
                    attempts[i],
                )
        },
        (forall|i: int| 0 <= i < attempts.len() ==> captures_screen(#[trigger] attempts[i]))
            ==> states.last().wf(),
{
    lemma_attempts(attempts, states, attempts.len() as int);
    if forall|i: int| 0 <= i < attempts.len() ==> captures_screen(#[trigger] attempts[i]) {
        lemma_overlays_wf(attempts);
    }
    assert(attempts.take(attempts.len() as int) =~= attempts);
    if forall|i: int| 0 <= i < attempts.len() ==> succeeded(#[trigger] attempts[i]) {
        lemma_all_succeeded(attempts);
    }
}

/// The first `n` attempts of an activation leave the overlays of those that succeeded.
proof fn lemma_attempts<M>(attempts: Seq<Attempt<M>>, states: Seq<App>, n: int)
    requires
        states.len() == attempts.len() + 1,
        states[0].overlays@.len() == 0,
        forall|i: int|
            0 <= i < attempts.len() ==> attempted(
                states[i],
                #[trigger] attempts[i],
                states[i + 1],
            ),
        0 <= n <= attempts.len(),
    ensures
        states[n] == (App { overlays: states[n].overlays, ..states[0] }),
        states[n].overlays@ == overlays_of(attempts.take(n)),
    decreases n,
{
    if n > 0 {
        lemma_attempts(attempts, states, n - 1);
        assert(attempted(states[n - 1], attempts[n - 1], states[n]));
        assert(attempts.take(n).drop_last() =~= attempts.take(n - 1));
        assert(attempts.take(n).last() == attempts[n - 1]);
    } else {
        assert(states[0].overlays@ =~= overlays_of(attempts.take(0)));
    }
}

/// Where what was captured are screenshots, the overlays are sound.
proof fn lemma_overlays_wf<M>(attempts: Seq<Attempt<M>>)
    requires
        forall|i: int| 0 <= i < attempts.len() ==> captures_screen(#[trigger] attempts[i]),
    ensures
        forall|i: int|
            0 <= i < overlays_of(attempts).len() ==> (#[trigger] overlays_of(attempts)[i]).wf(),
    decreases attempts.len(),
{
    if attempts.len() > 0 {
        let rest = attempts.drop_last();
        assert forall|i: int| 0 <= i < rest.len() implies captures_screen(#[trigger] rest[i]) by {
            assert(rest[i] == attempts[i]);
        }
        lemma_overlays_wf(rest);
        assert(captures_screen(attempts[attempts.len() - 1]));
        assert forall|i: int| 0 <= i < overlays_of(attempts).len() implies (
        #[trigger] overlays_of(attempts)[i]).wf() by {
            if i < overlays_of(rest).len() {
                assert(overlays_of(rest)[i].wf());
            }
        }
    }
}

/// Where all attempts succeed, each has its overlay.
proof fn lemma_all_succeeded<M>(attempts: Seq<Attempt<M>>)
    requires
        forall|i: int| 0 <= i < attempts.len() ==> succeeded(#[trigger] attempts[i]),
    ensures
        overlays_of(attempts).len() == attempts.len(),
        forall|i: int|
            0 <= i < attempts.len() ==> #[trigger] overlays_of(attempts)[i] == overlay_of(
                attempts[i],
            ),
    decreases attempts.len(),
{
    if attempts.len() > 0 {
        let rest = attempts.drop_last();
        assert forall|i: int| 0 <= i < rest.len() implies succeeded(#[trigger] rest[i]) by {
            assert(rest[i] == attempts[i]);
        }
        lemma_all_succeeded(rest);
        assert(succeeded(attempts[attempts.len() - 1]));
        assert forall|i: int| 0 <= i < attempts.len() implies #[trigger] overlays_of(attempts)[i]
            == overlay_of(attempts[i]) by {
            if i < rest.len() {
                assert(overlays_of(rest)[i] == overlay_of(rest[i]));
            }
        }
    }
}

/// One call of a method that changes the state of the program, with what it was given and
/// what it returned.
pub enum Step {
    Window { window: u64, event: WindowEvent, action: WindowAction },
    User { event: UserEvent, action: UserAction },
    Menu { id: String, action: UserAction },
    Recognised,
    Opened { pending: PendingOverlay, window: Result<u64, String> },
    Closed,
    Snipped { idx: usize, region: Region, job: OcrJob },
    HotkeyReplaced,
    HotkeyRegistered { id: u32, ok: bool },
    TraySet {
        configure: String,
        quit: String,
        item_ids: Vec<String>,
        languages: Vec<(String, String)>,
    },
}

/// The call takes `before` to `after`, having been made where it may be made.
pub open spec fn takes(before: App, step: Step, after: App) -> bool {
    match step {
        Step::Window { window, event, action } => {
            window_step(before, window, event, after, action)
        },
        Step::User { event, action } => user_step(before, event, after, action),
        Step::Menu { id, action } => menu_step(before, id@, after, action),
        Step::Recognised => after == (App { ocr_busy: false, ..before }),
        Step::Opened { pending, window } => {
            !before.ocr_busy && pending.wf() && after.opened_from(before, pending, window)
        },
        Step::Closed => after.closed_from(before),
        Step::Snipped { idx, region, job } => after.snipped_from(before, idx as int, region, job),
        Step::HotkeyReplaced => after == (App { hotkey: None, ..before }),
        Step::HotkeyRegistered { id, ok } => after == if ok {
            App { hotkey: Some(id), ..before }
        } else {
            before
        },
        Step::TraySet { configure, quit, item_ids, languages } => {
            tray_step(before, configure, quit, item_ids@, languages@, after)
        },
    }
}

/// In every state that calls lead to from the start, overlays and a running recognition
/// exclude each other, and every overlay has a positive size and one background pixel for
/// each of its pixels.
pub proof fn law_every_state_is_sound(
    config: Config,
    states: Seq<App>,
    steps: Seq<Step>,
    n: int,
)
    requires
        states.len() == steps.len() + 1,
        states[0].is_new(config),
        forall|i: int|
            0 <= i < steps.len() ==> takes(states[i], #[trigger] steps[i], states[i + 1]),
        0 <= n < states.len(),
    ensures
        states[n].wf(),
        states[n].overlays@.len() == 0 || !states[n].ocr_busy,
        forall|j: int|
            0 <= j < states[n].overlays@.len() ==> {
                let overlay = #[trigger] states[n].overlays@[j];
                &&& overlay.width > 0
                &&& overlay.height > 0
                &&& overlay.background@.len() == overlay.width * overlay.height
            },
    decreases n,
{
    if n > 0 {
        law_every_state_is_sound(config, states, steps, n - 1);
        assert(takes(states[n - 1], steps[n - 1], states[n]));
        lemma_step_keeps_wf(states[n - 1], steps[n - 1], states[n]);
    }
    assert forall|j: int| 0 <= j < states[n].overlays@.len() implies {
        let overlay = #[trigger] states[n].overlays@[j];
        &&& overlay.width > 0
        &&& overlay.height > 0
        &&& overlay.background@.len() == overlay.width * overlay.height
    } by {
        assert(states[n].overlays@[j].wf());
    }
}

/// Every call keeps the state sound.
proof fn lemma_step_keeps_wf(before: App, step: Step, after: App)
    requires
        before.wf(),
        takes(before, step, after),
    ensures
        after.wf(),
{
    if let Step::Window { window, event, action } = step {
        lemma_window_found(before.overlays@, window);
        assert forall|j: int| 0 <= j < after.overlays@.len() implies (
        #[trigger] after.overlays@[j]).wf() by {
            assert(before.overlays@[j].wf());
        }
    }
}

/// While a snippet is being recognised, no event but the recogniser's reply ends that, and
/// no selection starts.
pub proof fn law_busy_until_reply(before: App, event: UserEvent, after: App, action: UserAction)
    requires
        before.ocr_busy,
        user_step(before, event, after, action),
        !(event is OcrDone),
        !(event is OcrError),
    ensures
        after.ocr_busy,
        !(action is Activate),
{
}

/// While a snippet is being recognised, no window shows an overlay, so no window event does
/// anything.
pub proof fn law_busy_ignores_windows(
    before: App,
    window: u64,
    event: WindowEvent,
    after: App,
    action: WindowAction,
)
    requires
        before.wf(),
        before.ocr_busy,
        window_step(before, window, event, after, action),
    ensures
        after == before,
        action is Nothing,
{
}

/// While overlays are open, no event opens more of them.
pub proof fn law_one_selection_at_a_time(
    before: App,
    event: UserEvent,
    after: App,
    action: UserAction,
)
    requires
        before.overlays@.len() > 0,
        user_step(before, event, after, action),
    ensures
        after.overlays == before.overlays,
        !(action is Activate),
{
}

/// As long as overlays are open they keep their windows, their sizes and what they show, and
/// an event of one window changes the selection on no other overlay.
pub proof fn law_overlays_keep_their_pictures(
    before: App,
    window: u64,
    event: WindowEvent,
    after: App,
    action: WindowAction,
    i: int,
)
    requires
        window_step(before, window, event, after, action),
        after.overlays@.len() > 0,
        0 <= i < before.overlays@.len(),
    ensures
        after.overlays@.len() == before.overlays@.len(),
        after.overlays@[i].window == before.overlays@[i].window,
        after.overlays@[i].background == before.overlays@[i].background,
        after.overlays@[i].width == before.overlays@[i].width,
        after.overlays@[i].height == before.overlays@[i].height,
        find_window(before.overlays@, window) != Some(i) ==> after.overlays@[i].phase
            == before.overlays@[i].phase,
{
    lemma_window_found(before.overlays@, window);
}

/// A snippet blocks the next selection until the recogniser replies, with a text or with an
/// error; then a selection may start again, with the settings as they were.
pub proof fn law_snip_cycle(
    start: App,
    window: u64,
    event: WindowEvent,
    waiting: App,
    job: OcrJob,
    reply: UserEvent,
    end: App,
    action: UserAction,
)
    requires
        window_step(start, window, event, waiting, WindowAction::Recognise(job)),
        reply is OcrDone || reply is OcrError,
        user_step(waiting, reply, end, action),
    ensures
        waiting.ocr_busy,
        !waiting.may_activate(),
        end.may_activate(),
        end.config == start.config,
{
}

/// With the tray set up and no two items of the menu sharing an id, each item does what it
/// stands for: the commands end the program and open the settings, and an item of the
/// submenu sets the language next to it.
pub proof fn law_menu_items_do_what_they_say(
    start: App,
    configure: String,
    quit: String,
    item_ids: Seq<String>,
    languages: Seq<(String, String)>,
    before: App,
    id: Seq<char>,
    after: App,
    action: UserAction,
    i: int,
)
    requires
        tray_step(start, configure, quit, item_ids, languages, before),
        menu_step(before, id, after, action),
        configure@ != quit@,
        forall|j: int|
            0 <= j < item_ids.len() ==> (#[trigger] item_ids[j])@ != configure@ && item_ids[j]@
                != quit@,
        forall|j: int, k: int|
            0 <= j < k < item_ids.len() ==> (#[trigger] item_ids[j])@ != (#[trigger] item_ids[k])@,
        0 <= i < item_ids.len(),
        i < languages.len(),
    ensures
        id == quit@ ==> action is Exit && after == before,
        id == configure@ ==> action is Configure && after == before,
        id == item_ids[i]@ ==> action is SaveConfig && after.config.ocr_language@
            == languages[i].1@ && after.config.hotkey == start.config.hotkey,
{
    if id == item_ids[i]@ {
        assert forall|j: int| 0 <= j < i implies (#[trigger] before.id_langs@[j]).0@ != id by {
            assert(before.id_langs@[j].0@ == item_ids[j]@);
        }
        assert(before.id_langs@[i].0@ == item_ids[i]@);
        lemma_find_language(before.id_langs@, id, i);
    }
}

/// Choosing a language in the menu changes that setting alone, and the next snippet is
/// recognised in that language.
pub proof fn law_chosen_language_is_used(
    before: App,
    id: Seq<char>,
    i: int,
    chosen: App,
    action: UserAction,
    later: App,
    window: u64,
    event: WindowEvent,
    end: App,
    job: OcrJob,
)
    requires
        !is_id(before.id_quit, id),
        !is_id(before.id_configure, id),
        find_language(before.id_langs@, id) == Some(i),
        menu_step(before, id, chosen, action),
        later.config == chosen.config,
        window_step(later, window, event, end, WindowAction::Recognise(job)),
    ensures
        action is SaveConfig,
        chosen.config.hotkey == before.config.hotkey,
        job.language@ == before.id_langs@[i].1@,
{
}

/// The first language of the menu is that of the default settings, and stands for the
/// languages of the user's profile.
pub proof fn law_default_language_is_automatic(config: Config, engine: Engine)
    requires
        config.is_default(),
        is_engine_for(config.ocr_language@, engine),
    ensures
        language_table()[0].1 == config.ocr_language@,
        engine is UserProfileLanguages,
{
    reveal_strlit("");
    assert(""@ =~= Seq::<char>::empty());
}

/// No two languages of the menu have the same tag.
pub proof fn law_language_tags_differ(i: int, j: int)
    requires
        0 <= i < j < language_table().len(),
    ensures
        language_table()[i].1 != language_table()[j].1,
{
    reveal_strlit("");
    reveal_strlit("en");
    reveal_strlit("de");
    reveal_strlit("fr");
    reveal_strlit("es");
    reveal_strlit("zh-Hans");
    reveal_strlit("zh-Hant");
    reveal_strlit("ja");
    reveal_strlit("ko");
    reveal_strlit("ru");
    reveal_strlit("ar");
    let a = language_table()[i].1;
    let b = language_table()[j].1;
    assert(a.len() != b.len() || a[0] != b[0] || a[1] != b[1] || a[6] != b[6]);
}

} // verus!
