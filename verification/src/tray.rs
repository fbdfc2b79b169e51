//! The tray icon and its menu.

use crate::raster::{Rgba, RgbaImage};
use vstd::prelude::*;

verus! {

/// The width and height of the tray icon.
pub const ICON_SIDE: u32 = 32;

/// The colour of the tray icon: light sea green.
pub open spec fn icon_colour() -> Rgba {
    (32, 178, 170, 255)
}

/// `icon` is the tray icon: a square of one colour.
pub open spec fn is_icon(icon: RgbaImage) -> bool {
    &&& icon.wf()
    &&& icon.width == ICON_SIDE
    &&& icon.height == ICON_SIDE
    &&& forall|x: int, y: int| icon.contains(x, y) ==> #[trigger] icon.pixel(x, y) == icon_colour()
}

/// Draws the tray icon: a square of one colour.
pub fn make_icon() -> (icon: RgbaImage)
    ensures
        is_icon(icon),
{
    let mut icon = RgbaImage::new(ICON_SIDE, ICON_SIDE);
    let mut y: u32 = 0;
    while y < ICON_SIDE
        invariant
            y <= ICON_SIDE,
            icon.wf(),
            icon.width == ICON_SIDE,
            icon.height == ICON_SIDE,
            forall|i: int, j: int|
                0 <= i < ICON_SIDE && 0 <= j < y ==> #[trigger] icon.pixel(i, j) == icon_colour(),
        decreases ICON_SIDE - y,
    {
        let mut x: u32 = 0;
        while x < ICON_SIDE
            invariant
                x <= ICON_SIDE,
                y < ICON_SIDE,
                icon.wf(),
                icon.width == ICON_SIDE,
                icon.height == ICON_SIDE,
                forall|i: int, j: int|
                    0 <= i < ICON_SIDE && 0 <= j < y || 0 <= i < x && j == y
                        ==> #[trigger] icon.pixel(i, j) == icon_colour(),
            decreases ICON_SIDE - x,
        {
            icon.put_pixel(x, y, (32, 178, 170, 255));
            x = x + 1;
        }
        y = y + 1;
    }
    icon
}

/// The text that the tray icon shows under the cursor.
pub fn tooltip() -> (text: String)
    ensures
        text@ == "snip2text — click or Ctrl+Alt+S to snip"@,
{
    "snip2text — click or Ctrl+Alt+S to snip".to_string()
}

/// One entry of the tray menu.
#[derive(Debug, PartialEq, Eq)]
pub enum MenuEntry {
    /// A submenu with a title and items.
    Submenu { title: String, items: Vec<String> },
    Separator,
    Item(String),
}

/// `menu` is the tray menu: a submenu of the languages' display names, then the two commands.
pub open spec fn is_menu(languages: Seq<(String, String)>, menu: Seq<MenuEntry>) -> bool {
    &&& menu.len() == 5
    &&& menu[0] matches MenuEntry::Submenu { title, items } && title@ == "OCR Language"@
        && items@.len() == languages.len() && forall|i: int|
        0 <= i < items@.len() ==> (#[trigger] items@[i])@ == languages[i].0@
    &&& menu[1] is Separator
    &&& menu[2] matches MenuEntry::Item(label) && label@ == "Configure"@
    &&& menu[3] is Separator
    &&& menu[4] matches MenuEntry::Item(label) && label@ == "Quit"@
}

/// The tray menu: a submenu of the languages' display names, then the two commands.
pub fn tray_menu(languages: &Vec<(String, String)>) -> (menu: Vec<MenuEntry>)
    ensures
        is_menu(languages@, menu@),
{
    let mut items: Vec<String> = Vec::new();
    let mut n: usize = 0;
    while n < languages.len()
        invariant
            n <= languages@.len(),
            items@.len() == n,
            forall|i: int| 0 <= i < n ==> (#[trigger] items@[i])@ == languages@[i].0@,
        decreases languages@.len() - n,
    {
        items.push(languages[n].0.clone());
        n = n + 1;
    }
    vec![
        MenuEntry::Submenu { title: "OCR Language".to_string(), items },
        MenuEntry::Separator,
        MenuEntry::Item("Configure".to_string()),
        MenuEntry::Separator,
        MenuEntry::Item("Quit".to_string()),
    ]
}

/// `pairs` are the ids of the submenu's items with the languages' tags, in order, as far as both
/// reach.
pub open spec fn are_language_ids(
    item_ids: Seq<String>,
    languages: Seq<(String, String)>,
    pairs: Seq<(String, String)>,
) -> bool {
    &&& pairs.len() == if item_ids.len() <= languages.len() {
        item_ids.len()
    } else {
        languages.len()
    }
    &&& forall|i: int|
        0 <= i < pairs.len() ==> (#[trigger] pairs[i]).0@ == item_ids[i]@ && pairs[i].1@
            == languages[i].1@
}

/// Pairs the ids of the submenu's items with the languages' tags, in order, as far as both
/// reach.
pub fn language_ids(item_ids: &Vec<String>, languages: &Vec<(String, String)>) -> (pairs: Vec<
    (String, String),
>)
    ensures
        are_language_ids(item_ids@, languages@, pairs@),
{
    let mut pairs: Vec<(String, String)> = Vec::new();
    let mut n: usize = 0;
    while n < item_ids.len() && n < languages.len()
        invariant
            n <= item_ids@.len(),
            n <= languages@.len(),
            pairs@.len() == n,
            forall|i: int|
                0 <= i < n ==> (#[trigger] pairs@[i]).0@ == item_ids@[i]@ && pairs@[i].1@
                    == languages@[i].1@,
        decreases languages@.len() - n,
    {
        pairs.push((item_ids[n].clone(), languages[n].1.clone()));
        n = n + 1;
    }
    pairs
}

/// `args` make the command interpreter open the file at `path`; the empty one is the title of the
/// window.
pub open spec fn opens(path: Seq<char>, args: Seq<String>) -> bool {
    &&& args.len() == 4
    &&& args[0]@ == "/c"@
    &&& args[1]@ == "start"@
    &&& args[2]@ == ""@
    &&& args[3]@ == path
}

/// The arguments for the command interpreter that opens a file in the user's editor.
pub fn open_in_editor(path: &str) -> (args: Vec<String>)
    ensures
        opens(path@, args@),
{
    vec!["/c".to_string(), "start".to_string(), "".to_string(), path.to_string()]
}

} // verus!
