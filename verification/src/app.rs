//! The state of the program and what it does on each event.

use crate::capture::{extract_rgba, is_extract, region_in, source_index};
use crate::config::Config;
use crate::hotkey::{is_hotkey_of, parse_hotkey, HotkeyPlan};
use crate::overlay::{is_screenshot, Overlay};
use crate::raster::{fits, RgbaImage};
use crate::selection::{Coord, Phase, Region};
use crate::text::{blank, is_blank};
use crate::tray::language_ids;
use vstd::prelude::*;
use vstd::string::*;

verus! {

/// A button of the mouse.
#[derive(Clone, Copy, Debug, PartialEq, Eq, Structural)]
pub enum Button {
    Left,
    Right,
    Middle,
    Other,
}

/// Whether a key or button went down or came up.
#[derive(Clone, Copy, Debug, PartialEq, Eq, Structural)]
pub enum Motion {
    Pressed,
    Released,
}

/// What happened to the window of an overlay.
#[derive(Clone, Copy, Debug, PartialEq, Eq, Structural)]
pub enum WindowEvent {
    /// A key; `escape` tells whether it is the escape key.
    KeyboardInput { state: Motion, escape: bool },
    MouseInput { state: Motion, button: Button },
    CursorMoved { x: Coord, y: Coord },
    RedrawRequested,
    Other,
}

/// A snippet to recognise and the tag of the language to recognise it in.
#[derive(Debug)]
pub struct OcrJob {
    pub image: RgbaImage,
    pub language: String,
}

/// What to do after an event of an overlay's window.
#[derive(Debug)]
pub enum WindowAction {
    Nothing,
    /// Close the windows of all overlays.
    Close,
    /// Have the window redrawn.
    RequestRedraw,
    /// Draw the overlay with this index.
    Paint(usize),
    /// Close the windows of all overlays and recognise the snippet.
    Recognise(OcrJob),
}

/// What happened to the tray icon.
#[derive(Clone, Copy, Debug, PartialEq, Eq, Structural)]
pub enum TrayEvent {
    Click { button: Button, state: Motion },
    Other,
}

/// What happened outside the overlays' windows.
#[derive(Debug)]
pub enum UserEvent {
    TrayEvent(TrayEvent),
    /// The menu item with this id was chosen.
    MenuEvent(String),
    HotkeyActivated,
    /// The recogniser found this text.
    OcrDone(String),
    /// The recogniser failed, and why.
    OcrError(String),
}

/// What to do after an event outside the overlays' windows.
#[derive(Debug)]
pub enum UserAction {
    Nothing,
    /// Open an overlay on each monitor.
    Activate,
    /// End the program.
    Exit,
    /// Save the settings and open them in an editor.
    Configure,
    /// Save the settings.
    SaveConfig,
    /// Put the text on the clipboard.
    CopyText(String),
    /// Show the message.
    ShowError(String),
}

/// What went wrong.
#[derive(Clone, Copy, Debug, PartialEq, Eq, Structural)]
pub enum Failure {
    Capture,
    Window,
    Clipboard,
    Ocr,
}

/// A monitor that was captured and whose overlay has no window yet.
#[derive(Debug)]
pub struct PendingOverlay {
    pub background: Vec<u32>,
    pub width: u32,
    pub height: u32,
}

/// The state of the program.
#[derive(Debug)]
pub struct App {
    pub config: Config,
    /// The id of the registered key combination.
    pub hotkey: Option<u32>,
    pub overlays: Vec<Overlay>,
    /// Whether a snippet is being recognised.
    pub ocr_busy: bool,
    /// The ids of the menu's commands.
    pub id_configure: Option<String>,
    pub id_quit: Option<String>,
    /// The ids of the submenu's items, each with its language tag.
    pub id_langs: Vec<(String, String)>,
}

/// What a message about a failure begins with.
pub open spec fn message_prefix(failure: Failure) -> Seq<char> {
    match failure {
        Failure::Capture => "capture failed: "@,
        Failure::Window => "window creation failed: "@,
        Failure::Clipboard => "Clipboard write failed: "@,
        Failure::Ocr => "OCR failed: "@,
    }
}

/// The message about a failure.
pub fn failure_message(failure: Failure, reason: &str) -> (message: String)
    ensures
        message@ == message_prefix(failure) + reason@,
{
    let mut message = match failure {
        Failure::Capture => "capture failed: ".to_string(),
        Failure::Window => "window creation failed: ".to_string(),
        Failure::Clipboard => "Clipboard write failed: ".to_string(),
        Failure::Ocr => "OCR failed: ".to_string(),
    };
    message.append(reason);
    message
}

/// `monitors` are those to cover: those that are available, or the primary one where none is.
pub open spec fn are_to_cover<M>(available: Seq<M>, primary: Option<M>, monitors: Seq<M>) -> bool {
    monitors == if available.len() > 0 {
        available
    } else {
        match primary {
            Some(m) => seq![m],
            None => seq![],
        }
    }
}

/// The monitors to cover: those that are available, or the primary one where none is.
pub fn monitors_to_cover<M>(available: Vec<M>, primary: Option<M>) -> (monitors: Vec<M>)
    ensures
        are_to_cover(available@, primary, monitors@),
{
    if available.len() == 0 {
        match primary {
            Some(m) => {
                let mut monitors: Vec<M> = Vec::new();
                monitors.push(m);
                assert(monitors@ =~= seq![m]);
                monitors
            },
            None => Vec::new(),
        }
    } else {
        available
    }
}

impl PendingOverlay {
    /// The background has one pixel for each pixel of the monitor.
    pub open spec fn wf(self) -> bool {
        is_screenshot(self.background@, self.width, self.height)
    }
}

/// `pending` is the overlay that needs a window, or the message about why there is none.
pub open spec fn is_pending(
    width: u32,
    height: u32,
    captured: Result<Vec<u32>, String>,
    pending: Result<PendingOverlay, String>,
) -> bool {
    match captured {
        Ok(background) => pending == Ok::<PendingOverlay, String>(
            PendingOverlay { background, width, height },
        ),
        Err(reason) => pending matches Err(m) && m@ == message_prefix(Failure::Capture) + reason@,
    }
}

/// Takes in the pixels of a monitor, or why it could not be captured. Returns the overlay
/// that now needs a window, or the message to show; a monitor that could not be captured
/// gets no window.
pub fn monitor_captured(width: u32, height: u32, captured: Result<Vec<u32>, String>) -> (pending:
    Result<PendingOverlay, String>)
    ensures
        is_pending(width, height, captured, pending),
{
    match captured {
        Ok(background) => Ok(PendingOverlay { background, width, height }),
        Err(reason) => Err(failure_message(Failure::Capture, reason.as_str())),
    }
}

/// `message` is the one to show about the window of a monitor: none where there is a window.
pub open spec fn is_window_message(window: Result<u64, String>, message: Option<String>) -> bool {
    match window {
        Ok(_) => message is None,
        Err(reason) => message matches Some(m) && m@ == message_prefix(Failure::Window) + reason@,
    }
}

/// The index of the first overlay whose window has the given id.
pub open spec fn find_window(overlays: Seq<Overlay>, window: u64) -> Option<int>
    decreases overlays.len(),
{
    if overlays.len() == 0 {
        None
    } else if overlays[0].window == window {
        Some(0)
    } else {
        match find_window(overlays.drop_first(), window) {
            Some(i) => Some(i + 1),
            None => None,
        }
    }
}

/// The index of the first pair whose id is the given one.
pub open spec fn find_language(langs: Seq<(String, String)>, id: Seq<char>) -> Option<int>
    decreases langs.len(),
{
    if langs.len() == 0 {
        None
    } else if langs[0].0@ == id {
        Some(0)
    } else {
        match find_language(langs.drop_first(), id) {
            Some(i) => Some(i + 1),
            None => None,
        }
    }
}

/// `find_window` is the least index at which the id stands.
pub proof fn lemma_find_window(overlays: Seq<Overlay>, window: u64, i: int)
    requires
        0 <= i <= overlays.len(),
        forall|j: int| 0 <= j < i ==> (#[trigger] overlays[j]).window != window,
        i < overlays.len() ==> overlays[i].window == window,
    ensures
        find_window(overlays, window) == if i < overlays.len() {
            Some(i)
        } else {
            None::<int>
        },
    decreases i,
{
    if 0 < i {
        let rest = overlays.drop_first();
        assert forall|j: int| 0 <= j < i - 1 implies (#[trigger] rest[j]).window != window by {
            assert(rest[j] == overlays[j + 1]);
        }
        lemma_find_window(rest, window, i - 1);
        assert(overlays[0].window != window);
    }
}

/// What `find_window` finds is an overlay, and it has the given window.
pub proof fn lemma_window_found(overlays: Seq<Overlay>, window: u64)
    ensures
        match find_window(overlays, window) {
            Some(i) => 0 <= i < overlays.len() && overlays[i].window == window,
            None => true,
        },
    decreases overlays.len(),
{
    if overlays.len() > 0 && overlays[0].window != window {
        lemma_window_found(overlays.drop_first(), window);
    }
}

/// `find_language` is the least index at which the id stands.
pub proof fn lemma_find_language(langs: Seq<(String, String)>, id: Seq<char>, i: int)
    requires
        0 <= i <= langs.len(),
        forall|j: int| 0 <= j < i ==> (#[trigger] langs[j]).0@ != id,
        i < langs.len() ==> langs[i].0@ == id,
    ensures
        find_language(langs, id) == if i < langs.len() {
            Some(i)
        } else {
            None::<int>
        },
    decreases i,
{
    if 0 < i {
        let rest = langs.drop_first();
        assert forall|j: int| 0 <= j < i - 1 implies (#[trigger] rest[j]).0@ != id by {
            assert(rest[j] == langs[j + 1]);
        }
        lemma_find_language(rest, id, i - 1);
        assert(langs[0].0@ != id);
    }
}

/// Whether an optional id is there and reads as given.
pub open spec fn is_id(id: Option<String>, text: Seq<char>) -> bool {
    id matches Some(own) && own@ == text
}

impl App {
    /// Each overlay has its background, and no overlay is open while a snippet is being
    /// recognised.
    pub open spec fn wf(self) -> bool {
        &&& forall|i: int| 0 <= i < self.overlays@.len() ==> (#[trigger] self.overlays@[i]).wf()
        &&& self.ocr_busy ==> self.overlays@.len() == 0
    }

    /// Whether a selection may start: none is under way, and nothing is being recognised.
    pub open spec fn may_activate(self) -> bool {
        self.overlays@.len() == 0 && !self.ocr_busy
    }

    /// `self` is the program at its start.
    pub open spec fn is_new(self, config: Config) -> bool {
        &&& self.config == config
        &&& self.hotkey is None
        &&& self.overlays@.len() == 0
        &&& !self.ocr_busy
        &&& self.id_configure is None
        &&& self.id_quit is None
        &&& self.id_langs@.len() == 0
    }

    /// `self` is `before` with an idle overlay for `pending` after the others, where there is
    /// a window for it.
    pub open spec fn opened_from(
        self,
        before: App,
        pending: PendingOverlay,
        window: Result<u64, String>,
    ) -> bool {
        match window {
            Ok(id) => {
                &&& self == (App { overlays: self.overlays, ..before })
                &&& self.overlays@ == before.overlays@.push(
                    Overlay {
                        window: id,
                        background: pending.background,
                        width: pending.width,
                        height: pending.height,
                        phase: Phase::Idle,
                    },
                )
            },
            Err(_) => self == before,
        }
    }

    /// `self` is `before` with all overlays closed.
    pub open spec fn closed_from(self, before: App) -> bool {
        &&& self == (App { overlays: self.overlays, ..before })
        &&& self.overlays@.len() == 0
    }

    /// `self` is `before` with the phase of overlay `i` set to `phase`.
    pub open spec fn phase_set_from(self, before: App, i: int, phase: Phase) -> bool {
        &&& self == (App { overlays: self.overlays, ..before })
        &&& self.overlays@ == before.overlays@.update(
            i,
            Overlay { phase, ..before.overlays@[i] },
        )
    }

    /// `self` is `before` with all overlays closed and `job` to be recognised, which is the
    /// region of overlay `i` and the configured language.
    pub open spec fn snipped_from(self, before: App, i: int, region: Region, job: OcrJob) -> bool {
        let overlay = before.overlays@[i];
        &&& self == (App { overlays: self.overlays, ocr_busy: true, ..before })
        &&& self.overlays@.len() == 0
        &&& is_extract(
            overlay.background@,
            overlay.width,
            region.x1,
            region.y1,
            (region.x2 - region.x1) as u32,
            (region.y2 - region.y1) as u32,
            job.image,
        )
        &&& job.language@ == before.config.ocr_language@
    }

    /// `self` is `before` with no key combination registered, and `plan` asks to take `parsed`
    /// in place of the one that was.
    pub open spec fn hotkey_replaced_from(
        self,
        before: App,
        parsed: Option<u32>,
        plan: HotkeyPlan,
    ) -> bool {
        &&& self == (App { hotkey: None, ..before })
        &&& plan == (HotkeyPlan { unregister: before.hotkey, register: parsed })
    }

    /// `self` is `before` with the key combination `id` registered, where it could be.
    pub open spec fn hotkey_registered_from(self, before: App, id: u32, ok: bool) -> bool {
        self == if ok {
            App { hotkey: Some(id), ..before }
        } else {
            before
        }
    }

    /// `self` is `before` with nothing being recognised any more, and `action` copies the text
    /// unless it is empty.
    pub open spec fn recognised_from(
        self,
        before: App,
        text: String,
        empty: bool,
        action: UserAction,
    ) -> bool {
        &&& self == (App { ocr_busy: false, ..before })
        &&& if empty {
            action is Nothing
        } else {
            action matches UserAction::CopyText(copy) && copy == text
        }
    }

    /// The program at its start.
    pub fn new(config: Config) -> (app: App)
        ensures
            app.wf(),
            app.is_new(config),
    {
        App {
            config,
            hotkey: None,
            overlays: Vec::new(),
            ocr_busy: false,
            id_configure: None,
            id_quit: None,
            id_langs: Vec::new(),
        }
    }

    /// Whether to open overlays now.
    pub fn activate(&self) -> (r: bool)
        ensures
            r == self.may_activate(),
    {
        self.overlays.len() == 0 && !self.ocr_busy
    }

    /// Takes in the window, or why there is none, for a monitor that was captured. Returns
    /// the message to show where there is none; the monitor then stays uncovered.
    pub fn window_created(&mut self, pending: PendingOverlay, window: Result<u64, String>) -> (
    message: Option<String>)
        requires
            old(self).wf(),
            !old(self).ocr_busy,
            pending.wf(),
        ensures
            final(self).wf(),
            final(self).opened_from(*old(self), pending, window),
            is_window_message(window, message),
    {
        match window {
            Ok(id) => {
                let PendingOverlay { background, width, height } = pending;
                self.overlays.push(
                    Overlay { window: id, background, width, height, phase: Phase::Idle },
                );
                None
            },
            Err(reason) => Some(failure_message(Failure::Window, reason.as_str())),
        }
    }

    /// Closes all overlays.
    pub fn close_overlays(&mut self)
        ensures
            final(self).closed_from(*old(self)),
    {
        self.overlays.clear();
    }

    /// Cuts the region out of overlay `idx`, without its last column and row, and closes all
    /// overlays.
    pub fn finish_selection(&mut self, idx: usize, region: Region) -> (job: OcrJob)
        requires
            old(self).wf(),
            idx < old(self).overlays@.len(),
            region.x1 <= region.x2 <= old(self).overlays@[idx as int].width,
            region.y1 <= region.y2 <= old(self).overlays@[idx as int].height,
        ensures
            final(self).wf(),
            final(self).snipped_from(*old(self), idx as int, region, job),
    {
        let overlay = &self.overlays[idx];
        let rw: u32 = region.x2 - region.x1;
        let rh: u32 = region.y2 - region.y1;
        proof {
            lemma_region_in_overlay(*overlay, region);
        }
        let image = extract_rgba(
            overlay.background.as_slice(),
            overlay.width,
            region.x1,
            region.y1,
            rw,
            rh,
        );
        let language = self.config.ocr_language.clone();
        self.ocr_busy = true;
        self.close_overlays();
        OcrJob { image, language }
    }

    /// Takes the configured key combination in place of the registered one.
    pub fn register_hotkey(&mut self) -> (plan: HotkeyPlan)
        ensures
            final(self).hotkey_replaced_from(*old(self), plan.register, plan),
            is_hotkey_of(old(self).config.hotkey@, plan.register),
    {
        let parsed = parse_hotkey(self.config.hotkey.as_str());
        self.replace_hotkey(parsed)
    }

    /// Takes a key combination, if there is one, in place of the registered one.
    pub fn replace_hotkey(&mut self, parsed: Option<u32>) -> (plan: HotkeyPlan)
        ensures
            final(self).hotkey_replaced_from(*old(self), parsed, plan),
    {
        let unregister = self.hotkey;
        self.hotkey = None;
        HotkeyPlan { unregister, register: parsed }
    }

    /// Takes in whether the system registered the key combination.
    pub fn hotkey_registered(&mut self, id: u32, ok: bool)
        ensures
            final(self).hotkey_registered_from(*old(self), id, ok),
    {
        if ok {
            self.hotkey = Some(id);
        }
    }

    /// Takes in the ids of the tray menu's items, those of the submenu in the order of the
    /// languages.
    pub fn setup_tray(
        &mut self,
        configure: String,
        quit: String,
        item_ids: &Vec<String>,
        languages: &Vec<(String, String)>,
    )
        ensures
            tray_step(*old(self), configure, quit, item_ids@, languages@, *final(self)),
    {
        self.id_configure = Some(configure);
        self.id_quit = Some(quit);
        self.id_langs = language_ids(item_ids, languages);
    }

    fn window_index(&self, window: u64) -> (idx: Option<usize>)
        ensures
            match idx {
                Some(i) => i < self.overlays@.len() && find_window(self.overlays@, window) == Some(
                    i as int,
                ),
                None => find_window(self.overlays@, window) is None,
            },
    {
        let mut i: usize = 0;
        while i < self.overlays.len()
            invariant
                i <= self.overlays@.len(),
                forall|j: int| 0 <= j < i ==> (#[trigger] self.overlays@[j]).window != window,
            decreases self.overlays@.len() - i,
        {
            if self.overlays[i].window == window {
                proof {
                    lemma_find_window(self.overlays@, window, i as int);
                }
                return Some(i);
            }
            i = i + 1;
        }
        proof {
            lemma_find_window(self.overlays@, window, i as int);
        }
        None
    }

    /// Handles an event of an overlay's window.
    pub fn window_event(&mut self, window: u64, event: WindowEvent) -> (action: WindowAction)
        requires
            old(self).wf(),
        ensures
            final(self).wf(),
            window_step(*old(self), window, event, *final(self), action),
    {
        let idx: usize = match self.window_index(window) {
            Some(i) => i,
            None => return WindowAction::Nothing,
        };
        match event {
            WindowEvent::KeyboardInput { state: Motion::Pressed, escape: true } => {
                self.close_overlays();
                WindowAction::Close
            },
            WindowEvent::MouseInput { state: Motion::Pressed, button: Button::Left } => {
                let phase = self.overlays[idx].phase.press();
                self.overlays[idx].phase = phase;
                WindowAction::Nothing
            },
            WindowEvent::CursorMoved { x, y } => {
                let (phase, needs_redraw) = self.overlays[idx].phase.drag_to(x, y);
                self.overlays[idx].phase = phase;
                if needs_redraw {
                    WindowAction::RequestRedraw
                } else {
                    WindowAction::Nothing
                }
            },
            WindowEvent::MouseInput { state: Motion::Released, button: Button::Left } => {
                let width: u32 = self.overlays[idx].width;
                let height: u32 = self.overlays[idx].height;
                match self.overlays[idx].phase.selected(width, height) {
                    None => WindowAction::Nothing,
                    Some(region) => {
                        if region.x2 > region.x1 && region.y2 > region.y1 {
                            WindowAction::Recognise(self.finish_selection(idx, region))
                        } else {
                            self.close_overlays();
                            WindowAction::Close
                        }
                    },
                }
            },
            WindowEvent::RedrawRequested => WindowAction::Paint(idx),
            _ => WindowAction::Nothing,
        }
    }

    fn language_index(&self, id: &String) -> (idx: Option<usize>)
        ensures
            match idx {
                Some(i) => i < self.id_langs@.len() && find_language(self.id_langs@, id@) == Some(
                    i as int,
                ),
                None => find_language(self.id_langs@, id@) is None,
            },
    {
        let mut i: usize = 0;
        while i < self.id_langs.len()
            invariant
                i <= self.id_langs@.len(),
                forall|j: int| 0 <= j < i ==> (#[trigger] self.id_langs@[j]).0@ != id@,
            decreases self.id_langs@.len() - i,
        {
            if self.id_langs[i].0 == *id {
                proof {
                    lemma_find_language(self.id_langs@, id@, i as int);
                }
                return Some(i);
            }
            i = i + 1;
        }
        proof {
            lemma_find_language(self.id_langs@, id@, i as int);
        }
        None
    }

    fn request_activation(&self) -> (action: UserAction)
        ensures
            if self.may_activate() {
                action is Activate
            } else {
                action is Nothing
            },
    {
        if self.activate() {
            UserAction::Activate
        } else {
            UserAction::Nothing
        }
    }

    /// Handles the choice of the menu item with the given id.
    pub fn menu_event(&mut self, id: &String) -> (action: UserAction)
        ensures
            menu_step(*old(self), id@, *final(self), action),
    {
        if has_id(&self.id_quit, id) {
            UserAction::Exit
        } else if has_id(&self.id_configure, id) {
            UserAction::Configure
        } else {
            match self.language_index(id) {
                Some(i) => {
                    self.config.ocr_language = self.id_langs[i].1.clone();
                    UserAction::SaveConfig
                },
                None => UserAction::Nothing,
            }
        }
    }

    /// Ends a recognition that found `text`; `empty` tells whether that is blank.
    pub fn recognised(&mut self, text: String, empty: bool) -> (action: UserAction)
        ensures
            final(self).recognised_from(*old(self), text, empty, action),
    {
        self.ocr_busy = false;
        if !empty {
            UserAction::CopyText(text)
        } else {
            UserAction::Nothing
        }
    }

    /// Handles an event outside the overlays' windows.
    pub fn user_event(&mut self, event: UserEvent) -> (action: UserAction)
        ensures
            old(self).wf() ==> final(self).wf(),
            user_step(*old(self), event, *final(self), action),
    {
        match event {
            UserEvent::HotkeyActivated => self.request_activation(),
            UserEvent::TrayEvent(
                TrayEvent::Click { button: Button::Left, state: Motion::Released },
            ) => self.request_activation(),
            UserEvent::MenuEvent(id) => self.menu_event(&id),
            UserEvent::OcrDone(text) => {
                let empty: bool = is_blank(text.as_str());
                self.recognised(text, empty)
            },
            UserEvent::OcrError(reason) => {
                self.ocr_busy = false;
                UserAction::ShowError(failure_message(Failure::Ocr, reason.as_str()))
            },
            _ => UserAction::Nothing,
        }
    }
}

/// Whether an optional id is there and equals `id`.
fn has_id(own: &Option<String>, id: &String) -> (r: bool)
    ensures
        r == is_id(*own, id@),
{
    match own {
        Some(text) => *text == *id,
        None => false,
    }
}

/// What setting up the tray makes of the program: the commands have their ids, and the
/// languages have those of the submenu's items, in order, as far as both reach.
pub open spec fn tray_step(
    before: App,
    configure: String,
    quit: String,
    item_ids: Seq<String>,
    languages: Seq<(String, String)>,
    after: App,
) -> bool {
    &&& after == (App {
        id_configure: Some(configure),
        id_quit: Some(quit),
        id_langs: after.id_langs,
        ..before
    })
    &&& after.id_langs@.len() == if item_ids.len() <= languages.len() {
        item_ids.len()
    } else {
        languages.len()
    }
    &&& forall|i: int|
        0 <= i < after.id_langs@.len() ==> (#[trigger] after.id_langs@[i]).0@ == item_ids[i]@
            && after.id_langs@[i].1@ == languages[i].1@
}

/// What the choice of the menu item `id` makes of the program: the command's action, or a
/// change of language.
pub open spec fn menu_step(before: App, id: Seq<char>, after: App, action: UserAction) -> bool {
    if is_id(before.id_quit, id) {
        after == before && action is Exit
    } else if is_id(before.id_configure, id) {
        after == before && action is Configure
    } else {
        match find_language(before.id_langs@, id) {
            Some(i) => {
                &&& after == (App { config: after.config, ..before })
                &&& after.config.hotkey == before.config.hotkey
                &&& after.config.ocr_language@ == before.id_langs@[i].1@
                &&& action is SaveConfig
            },
            None => after == before && action is Nothing,
        }
    }
}

/// What an event outside the overlays' windows makes of the program.
pub open spec fn user_step(before: App, event: UserEvent, after: App, action: UserAction) -> bool {
    match event {
        UserEvent::HotkeyActivated => activation_step(before, after, action),
        UserEvent::TrayEvent(
            TrayEvent::Click { button: Button::Left, state: Motion::Released },
        ) => activation_step(before, after, action),
        UserEvent::TrayEvent(_) => after == before && action is Nothing,
        UserEvent::MenuEvent(id) => menu_step(before, id@, after, action),
        UserEvent::OcrDone(text) => {
            &&& after == (App { ocr_busy: false, ..before })
            &&& if blank(text@) {
                action is Nothing
            } else {
                action matches UserAction::CopyText(copy) && copy == text
            }
        },
        UserEvent::OcrError(reason) => {
            &&& after == (App { ocr_busy: false, ..before })
            &&& action matches UserAction::ShowError(m) && m@ == message_prefix(Failure::Ocr)
                + reason@
        },
    }
}

/// What a request to start a selection makes of the program: overlays open if one may start.
pub open spec fn activation_step(before: App, after: App, action: UserAction) -> bool {
    &&& after == before
    &&& if before.may_activate() {
        action is Activate
    } else {
        action is Nothing
    }
}

/// What an event of the window `window` makes of the program: of one that shows no overlay,
/// nothing.
pub open spec fn window_step(
    before: App,
    window: u64,
    event: WindowEvent,
    after: App,
    action: WindowAction,
) -> bool {
    match find_window(before.overlays@, window) {
        None => after == before && action is Nothing,
        Some(i) => overlay_step(before, i, event, after, action),
    }
}

/// What an event of the window of overlay `i` makes of the program.
pub open spec fn overlay_step(
    before: App,
    i: int,
    event: WindowEvent,
    after: App,
    action: WindowAction,
) -> bool {
    let overlay = before.overlays@[i];
    match event {
        WindowEvent::KeyboardInput { state: Motion::Pressed, escape: true } => {
            after.closed_from(before) && action is Close
        },
        WindowEvent::MouseInput { state: Motion::Pressed, button: Button::Left } => {
            after.phase_set_from(before, i, overlay.phase.pressed()) && action is Nothing
        },
        WindowEvent::CursorMoved { x, y } => {
            &&& after.phase_set_from(before, i, overlay.phase.moved(x, y))
            &&& if overlay.phase is Dragging {
                action is RequestRedraw
            } else {
                action is Nothing
            }
        },
        WindowEvent::MouseInput { state: Motion::Released, button: Button::Left } => {
            match overlay.phase.selection(overlay.width, overlay.height) {
                None => after == before && action is Nothing,
                Some(region) => if region.x2 > region.x1 && region.y2 > region.y1 {
                    action matches WindowAction::Recognise(job) && after.snipped_from(
                        before,
                        i,
                        region,
                        job,
                    )
                } else {
                    after.closed_from(before) && action is Close
                },
            }
        },
        WindowEvent::RedrawRequested => {
            &&& after == before
            &&& action matches WindowAction::Paint(n) && n == i
        },
        _ => after == before && action is Nothing,
    }
}

/// A region within an overlay can be cut out of its background.
proof fn lemma_region_in_overlay(overlay: Overlay, region: Region)
    requires
        overlay.wf(),
        region.x1 <= region.x2 <= overlay.width,
        region.y1 <= region.y2 <= overlay.height,
    ensures
        fits(region.x2 - region.x1, region.y2 - region.y1),
        region_in(
            overlay.background@.len() as int,
            overlay.width,
            region.x1,
            region.y1,
            (region.x2 - region.x1) as u32,
            (region.y2 - region.y1) as u32,
        ),
{
    let w = overlay.width as int;
    let h = overlay.height as int;
    let rw = region.x2 - region.x1;
    let rh = region.y2 - region.y1;
    assert(rw * rh <= w * h) by (nonlinear_arith)
        requires
            0 <= rw <= w,
            0 <= rh <= h,
    ;
    if rw > 0 && rh > 0 {
        let y = region.y2 - 1;
        assert(region.y1 + (rh - 1) == y);
        assert(y * w + w <= h * w) by (nonlinear_arith)
            requires
                0 <= y < h,
                0 <= w,
        ;
        assert(h * w == w * h) by (nonlinear_arith);
        assert(source_index(overlay.width, region.x1, region.y1, rw - 1, rh - 1) == y * w + (
        region.x1 + rw - 1));
    }
}

} // verus!
