//! Keystroke capture logic: virtual-key naming, modifier prefixes, and
//! the debouncing scan step of the polling worker.
//!
//! The poller samples the global key state at a fixed interval; the pure
//! step here turns one pair of (previous, current) snapshots into the
//! events to record, edge-detecting press transitions and composing the
//! modifier prefix in the fixed order Ctrl, Shift, Alt, Win.

use vstd::prelude::*;
use crate::types::KeystrokeEvent;
use crate::escape::push_char;
use crate::numfmt::{dec_seq, digit_seq, u64_string};

verus! {

/// Virtual key code of the left mouse button.
pub const VK_LBUTTON: u32 = 1;
/// Virtual key code of the right mouse button.
pub const VK_RBUTTON: u32 = 2;
/// Virtual key code of the middle mouse button.
pub const VK_MBUTTON: u32 = 4;
/// Virtual key code of Shift.
pub const VK_SHIFT: u32 = 16;
/// Virtual key code of Ctrl.
pub const VK_CTRL: u32 = 17;
/// Virtual key code of Alt.
pub const VK_ALT: u32 = 18;
/// Virtual key code of the left Windows key.
pub const VK_LWIN: u32 = 91;
/// Virtual key code of the right Windows key.
pub const VK_RWIN: u32 = 92;

/// Whether `vk` is a modifier key (generic or sided Shift/Ctrl/Alt, or a
/// Windows key). Modifier-only presses are skipped; they show up as the
/// prefix of the next non-modifier press.
pub open spec fn is_modifier_spec(vk: u32) -> bool {
    vk == VK_SHIFT || vk == VK_CTRL || vk == VK_ALT || vk == VK_LWIN || vk == VK_RWIN
        || vk == 0xA0 || vk == 0xA1  // sided Shift
        || vk == 0xA2 || vk == 0xA3  // sided Ctrl
        || vk == 0xA4 || vk == 0xA5  // sided Alt
}

pub fn is_modifier(vk: u32) -> (r: bool)
    ensures
        r == is_modifier_spec(vk),
{
    match vk {
        VK_SHIFT | VK_CTRL | VK_ALT | VK_LWIN | VK_RWIN
        | 0xA0 | 0xA1 | 0xA2 | 0xA3 | 0xA4 | 0xA5 => true,
        _ => false,
    }
}

/// The modifier prefix in front of a key name, always in the order Ctrl,
/// Shift, Alt, Win, whatever the order the keys were pressed in.
pub open spec fn modifier_prefix_spec(ctrl: bool, shift: bool, alt: bool, win: bool) -> Seq<
    char,
> {
    (if ctrl {
        "Ctrl+"@
    } else {
        Seq::<char>::empty()
    }) + (if shift {
        "Shift+"@
    } else {
        Seq::<char>::empty()
    }) + (if alt {
        "Alt+"@
    } else {
        Seq::<char>::empty()
    }) + (if win {
        "Win+"@
    } else {
        Seq::<char>::empty()
    })
}

/// Build the modifier prefix from the current modifier states.
pub fn modifier_prefix(ctrl: bool, shift: bool, alt: bool, win: bool) -> (r: String)
    ensures
        r@ == modifier_prefix_spec(ctrl, shift, alt, win),
{
    let mut s = String::new();
    if ctrl {
        s.append("Ctrl+");
    }
    if shift {
        s.append("Shift+");
    }
    if alt {
        s.append("Alt+");
    }
    if win {
        s.append("Win+");
    }
    proof {
        assert(s@ =~= modifier_prefix_spec(ctrl, shift, alt, win));
    }
    s
}

/// The human-readable name of a virtual key; empty for keys that are not
/// displayed.
pub open spec fn vk_name_spec(vk: u32) -> Seq<char> {
    if vk == VK_LBUTTON {
        "Clic"@
    } else if vk == VK_RBUTTON {
        "Clic Droit"@
    } else if vk == VK_MBUTTON {
        "Clic Milieu"@
    } else if vk == 0x08 {
        "Backspace"@
    } else if vk == 0x09 {
        "Tab"@
    } else if vk == 0x0D {
        "Enter"@
    } else if vk == 0x14 {
        "CapsLock"@
    } else if vk == 0x1B {
        "Esc"@
    } else if vk == 0x20 {
        "Space"@
    } else if vk == 0x21 {
        "PgUp"@
    } else if vk == 0x22 {
        "PgDn"@
    } else if vk == 0x23 {
        "End"@
    } else if vk == 0x24 {
        "Home"@
    } else if vk == 0x25 {
        "\u{2190}"@
    } else if vk == 0x26 {
        "\u{2191}"@
    } else if vk == 0x27 {
        "\u{2192}"@
    } else if vk == 0x28 {
        "\u{2193}"@
    } else if vk == 0x2D {
        "Insert"@
    } else if vk == 0x2E {
        "Delete"@
    } else if 0x30 <= vk && vk <= 0x39 {
        digit_seq(vk - 0x30)
    } else if 0x41 <= vk && vk <= 0x5A {
        seq![((vk as u8) as char)]
    } else if 0x70 <= vk && vk <= 0x87 {
        "F"@ + dec_seq(vk - 0x6F)
    } else if 0x60 <= vk && vk <= 0x69 {
        "Num"@ + digit_seq(vk - 0x60)
    } else if vk == 0x6A {
        "*"@
    } else if vk == 0x6B {
        "+"@
    } else if vk == 0x6D {
        "-"@
    } else if vk == 0x6E {
        "."@
    } else if vk == 0x6F {
        "/"@
    } else if vk == 0xBA {
        ";"@
    } else if vk == 0xBB {
        "="@
    } else if vk == 0xBC {
        ","@
    } else if vk == 0xBD {
        "-"@
    } else if vk == 0xBE {
        "."@
    } else if vk == 0xBF {
        "/"@
    } else if vk == 0xC0 {
        "`"@
    } else if vk == 0xDB {
        "["@
    } else if vk == 0xDC {
        "\\"@
    } else if vk == 0xDD {
        "]"@
    } else if vk == 0xDE {
        "'"@
    } else if vk == 0x2C {
        "PrtSc"@
    } else if vk == 0x91 {
        "ScrollLock"@
    } else if vk == 0x13 {
        "Pause"@
    } else {
        Seq::<char>::empty()
    }
}

/// Convert a virtual key code to its display name; empty when the key has
/// none.
pub fn vk_to_name(vk: u32) -> (r: String)
    ensures
        r@ == vk_name_spec(vk),
{
    match vk {
        VK_LBUTTON => "Clic".to_owned(),
        VK_RBUTTON => "Clic Droit".to_owned(),
        VK_MBUTTON => "Clic Milieu".to_owned(),
        0x08 => "Backspace".to_owned(),
        0x09 => "Tab".to_owned(),
        0x0D => "Enter".to_owned(),
        0x14 => "CapsLock".to_owned(),
        0x1B => "Esc".to_owned(),
        0x20 => "Space".to_owned(),
        0x21 => "PgUp".to_owned(),
        0x22 => "PgDn".to_owned(),
        0x23 => "End".to_owned(),
        0x24 => "Home".to_owned(),
        0x25 => "\u{2190}".to_owned(),
        0x26 => "\u{2191}".to_owned(),
        0x27 => "\u{2192}".to_owned(),
        0x28 => "\u{2193}".to_owned(),
        0x2D => "Insert".to_owned(),
        0x2E => "Delete".to_owned(),
        0x30..=0x39 => u64_string((vk - 0x30) as u64),
        0x41..=0x5A => {
            let mut s = String::new();
            push_char(&mut s, (vk as u8) as char);
            proof {
                assert(s@ =~= seq![((vk as u8) as char)]);
            }
            s
        },
        0x70..=0x87 => {
            let r = "F".to_owned().concat(u64_string((vk - 0x6F) as u64).as_str());
            r
        },
        0x60..=0x69 => {
            let r = "Num".to_owned().concat(u64_string((vk - 0x60) as u64).as_str());
            r
        },
        0x6A => "*".to_owned(),
        0x6B => "+".to_owned(),
        0x6D => "-".to_owned(),
        0x6E => ".".to_owned(),
        0x6F => "/".to_owned(),
        0xBA => ";".to_owned(),
        0xBB => "=".to_owned(),
        0xBC => ",".to_owned(),
        0xBD => "-".to_owned(),
        0xBE => ".".to_owned(),
        0xBF => "/".to_owned(),
        0xC0 => "`".to_owned(),
        0xDB => "[".to_owned(),
        0xDC => "\\".to_owned(),
        0xDD => "]".to_owned(),
        0xDE => "'".to_owned(),
        0x2C => "PrtSc".to_owned(),
        0x91 => "ScrollLock".to_owned(),
        0x13 => "Pause".to_owned(),
        _ => String::new(),
    }
}

/// The key combo recorded when `vk` is pressed under the given modifier
/// states: the fixed-order prefix followed by the base key name.
pub open spec fn combo_spec(vk: u32, ctrl: bool, shift: bool, alt: bool, win: bool) -> Seq<
    char,
> {
    modifier_prefix_spec(ctrl, shift, alt, win) + vk_name_spec(vk)
}

/// The (timestamp, key combo) pairs one polling step appends, scanning
/// key codes below `upto`: a press edge (down now, up before) of a named
/// non-modifier key yields one pair.
pub open spec fn scan_pairs_spec(
    prev: Seq<bool>,
    now: Seq<bool>,
    ctrl: bool,
    shift: bool,
    alt: bool,
    win: bool,
    timestamp_ms: u64,
    upto: int,
) -> Seq<(u64, Seq<char>)>
    decreases upto,
{
    if upto <= 0 {
        Seq::<(u64, Seq<char>)>::empty()
    } else {
        let vk = (upto - 1) as u32;
        let head = scan_pairs_spec(prev, now, ctrl, shift, alt, win, timestamp_ms, upto - 1);
        if now[upto - 1] && !prev[upto - 1] && !is_modifier_spec(vk) && vk_name_spec(vk).len()
            != 0 {
            head.push((timestamp_ms, combo_spec(vk, ctrl, shift, alt, win)))
        } else {
            head
        }
    }
}

/// One debouncing step of the keystroke poller over snapshots of the 256
/// virtual-key states. Appends one event per fresh press of a named
/// non-modifier key, with the modifier prefix taken from the current
/// snapshot.
pub fn scan_step(prev: &Vec<bool>, now: &Vec<bool>, timestamp_ms: u64) -> (events: Vec<
    KeystrokeEvent,
>)
    requires
        prev@.len() == 256,
        now@.len() == 256,
    ensures
        ({
            let pairs = scan_pairs_spec(
                prev@,
                now@,
                now@[VK_CTRL as int],
                now@[VK_SHIFT as int],
                now@[VK_ALT as int],
                now@[VK_LWIN as int] || now@[VK_RWIN as int],
                timestamp_ms,
                256,
            );
            events@.len() == pairs.len() && forall|j: int|
                0 <= j < pairs.len() ==> (#[trigger] events@[j]).timestamp_ms == pairs[j].0
                    && events@[j].key_name@ == pairs[j].1
        }),
{
    let ctrl = now[VK_CTRL as usize];
    let shift = now[VK_SHIFT as usize];
    let alt = now[VK_ALT as usize];
    let win = now[VK_LWIN as usize] || now[VK_RWIN as usize];

    let mut events: Vec<KeystrokeEvent> = Vec::new();
    let mut vk: u32 = 0;
    while vk < 256
        invariant
            prev@.len() == 256,
            now@.len() == 256,
            vk <= 256,
            ctrl == now@[VK_CTRL as int],
            shift == now@[VK_SHIFT as int],
            alt == now@[VK_ALT as int],
            win == (now@[VK_LWIN as int] || now@[VK_RWIN as int]),
            ({
                let pairs = scan_pairs_spec(
                    prev@,
                    now@,
                    ctrl,
                    shift,
                    alt,
                    win,
                    timestamp_ms,
                    vk as int,
                );
                events@.len() == pairs.len() && forall|j: int|
                    0 <= j < pairs.len() ==> (#[trigger] events@[j]).timestamp_ms == pairs[j].0
                        && events@[j].key_name@ == pairs[j].1
            }),
        decreases 256 - vk,
    {
        let pressed = now[vk as usize];
        let was_pressed = prev[vk as usize];
        if pressed && !was_pressed && !is_modifier(vk) {
            let base = vk_to_name(vk);
            if base.as_str().unicode_len() != 0 {
                let prefix = modifier_prefix(ctrl, shift, alt, win);
                let key_name = prefix.concat(base.as_str());
                events.push(KeystrokeEvent { timestamp_ms, key_name });
            }
        }
        vk = vk + 1;
    }
    events
}

} // verus!
