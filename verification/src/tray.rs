use vstd::prelude::*;
use crate::text::chars_of;

verus! {

pub const MAIN_WINDOW_TITLE: &'static str = "FzComputerAI — Computer Vision MCP Manager";

/// Commands the tray hands to the interface loop.
pub const TRAY_NONE: u8 = 0;
pub const TRAY_SHOW: u8 = 1;
pub const TRAY_QUIT: u8 = 2;
pub const TRAY_TOGGLE_ENGINE: u8 = 3;

/// Menu item identifiers.
pub const ID_SHOW: usize = 1001;
pub const ID_ENGINE: usize = 1002;
pub const ID_QUIT: usize = 1003;

/// Window messages the tray window reacts to.
pub const WM_LBUTTONUP: u32 = 0x0202;
pub const WM_LBUTTONDBLCLK: u32 = 0x0203;
pub const WM_RBUTTONUP: u32 = 0x0205;

// ───────────────────────── UTF-16 ─────────────────────────

/// One character in UTF-16: one unit in the basic plane, else a surrogate pair.
pub open spec fn utf16_of_char(c: char) -> Seq<u16> {
    let v = c as u32;
    if v < 0x10000 {
        seq![v as u16]
    } else {
        seq![(0xD800 + (v - 0x10000) / 1024) as u16, (0xDC00 + (v - 0x10000) % 1024) as u16]
    }
}

/// std's `str::encode_utf16`.
pub open spec fn utf16_of(s: Seq<char>) -> Seq<u16>
    decreases s.len(),
{
    if s.len() == 0 {
        seq![]
    } else {
        utf16_of(s.drop_last()) + utf16_of_char(s.last())
    }
}

fn push_utf16(out: &mut Vec<u16>, c: char)
    ensures
        final(out)@ == old(out)@ + utf16_of_char(c),
{
    let v = c as u32;
    if v < 0x10000 {
        out.push(v as u16);
    } else {
        assert(v <= 0x10FFFF) by {
            vstd::utf8::char_is_scalar(c);
        }
        out.push((0xD800 + (v - 0x10000) / 1024) as u16);
        out.push((0xDC00 + (v - 0x10000) % 1024) as u16);
    }
    assert(out@ =~= old(out)@ + utf16_of_char(c));
}

fn utf16(s: &str) -> (r: Vec<u16>)
    ensures
        r@ == utf16_of(s@),
{
    let c = chars_of(s);
    let mut out: Vec<u16> = Vec::new();
    let mut i: usize = 0;
    while i < c.len()
        invariant
            i <= c@.len(),
            c@ == s@,
            out@ == utf16_of(c@.take(i as int)),
        decreases c@.len() - i,
    {
        assert(c@.take(i + 1).drop_last() =~= c@.take(i as int));
        push_utf16(&mut out, c[i]);
        i = i + 1;
    }
    assert(c@.take(c@.len() as int) =~= c@);
    out
}

/// The text as a zero-terminated UTF-16 string for the Windows API.
pub fn wide(s: &str) -> (r: Vec<u16>)
    ensures
        r@ == utf16_of(s@).push(0),
{
    let mut r = utf16(s);
    r.push(0);
    r
}

/// The tooltip field: the first 127 UTF-16 units of the text, then a zero;
/// the units after the zero stay as they were.
pub open spec fn tip_after(old_tip: Seq<u16>, s: Seq<char>) -> Seq<u16> {
    let u = utf16_of(s);
    let n = if u.len() < 127 {
        u.len() as int
    } else {
        127
    };
    u.take(n) + seq![0u16] + old_tip.skip(n + 1)
}

pub fn fill_tip(dst: &mut [u16; 128], s: &str)
    ensures
        final(dst)@ == tip_after(old(dst)@, s@),
{
    let u = utf16(s);
    let n: usize = if u.len() < 127 {
        u.len()
    } else {
        127
    };
    let mut i: usize = 0;
    while i < n
        invariant
            i <= n <= 127,
            n <= u@.len(),
            dst@.len() == 128,
            forall|k: int| 0 <= k < i ==> #[trigger] dst@[k] == u@[k],
            forall|k: int| i <= k < 128 ==> #[trigger] dst@[k] == old(dst)@[k],
        decreases n - i,
    {
        dst[i] = u[i];
        i = i + 1;
    }
    dst[n] = 0;
    assert(dst@ =~= tip_after(old(dst)@, s@));
}

// ───────────────────────── what the tray window does ─────────────────────────

/// What a notification from the tray icon asks for.
#[derive(PartialEq, Eq, Structural, Clone, Copy, Debug)]
pub enum TrayReaction {
    /// Left click: bring the window back and hand `TRAY_SHOW` to the interface.
    Show,
    /// Right click: open the menu.
    Menu,
    Ignore,
}

/// The reaction to a tray notification (the event is the low word of `lparam`).
pub open spec fn reaction_spec(event: u32) -> TrayReaction {
    if event == WM_LBUTTONUP || event == WM_LBUTTONDBLCLK {
        TrayReaction::Show
    } else if event == WM_RBUTTONUP {
        TrayReaction::Menu
    } else {
        TrayReaction::Ignore
    }
}

pub fn tray_reaction(lparam: isize) -> (r: TrayReaction)
    ensures
        r == reaction_spec(((lparam as u32) & 0xFFFFu32)),
{
    let event = (lparam as u32) & 0xFFFF;
    if event == WM_LBUTTONUP || event == WM_LBUTTONDBLCLK {
        TrayReaction::Show
    } else if event == WM_RBUTTONUP {
        TrayReaction::Menu
    } else {
        TrayReaction::Ignore
    }
}

/// The command a menu item hands to the interface (`None` for another id).
pub open spec fn menu_command_spec(id: usize) -> Option<u8> {
    if id == ID_SHOW {
        Some(TRAY_SHOW)
    } else if id == ID_ENGINE {
        Some(TRAY_TOGGLE_ENGINE)
    } else if id == ID_QUIT {
        Some(TRAY_QUIT)
    } else {
        None
    }
}

/// The command of a `WM_COMMAND` (the item is the low word of `wparam`).
pub fn menu_command(wparam: usize) -> (r: Option<u8>)
    ensures
        r == menu_command_spec(wparam & 0xFFFF),
{
    let id = wparam & 0xFFFF;
    if id == ID_SHOW {
        Some(TRAY_SHOW)
    } else if id == ID_ENGINE {
        Some(TRAY_TOGGLE_ENGINE)
    } else if id == ID_QUIT {
        Some(TRAY_QUIT)
    } else {
        None
    }
}

} // verus!
