//! snip2text: drag out a rectangle on the screen and get the text in it on the clipboard.
//!
//! This crate holds what the program decides and computes: the state of the program and
//! its reaction to each event (`app`), the selection (`selection`) and its picture
//! (`overlay`, `pixel`), the way of a snippet from the screen to the text recogniser
//! (`capture`, `raster`, `ocr`), the settings (`config`), the key combination (`hotkey`),
//! the tray icon (`tray`) and recognised text (`text`). `laws` and `brightness` hold what
//! follows for the program as a whole and for the preparation of a snippet; `pictures` and
//! `reactions` say what each step does to bytes and pixels, and what the user sees and gets.

pub mod app;
pub mod brightness;
pub mod capture;
pub mod config;
pub mod hotkey;
pub mod laws;
pub mod ocr;
pub mod overlay;
pub mod pictures;
pub mod pixel;
pub mod raster;
pub mod reactions;
pub mod selection;
pub mod text;
pub mod tray;
