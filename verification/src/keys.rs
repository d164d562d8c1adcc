//! Keyboard keys by their Win32 virtual-key codes: which of them can be
//! bound, how they are captured and how they are shown.

use vstd::prelude::*;

use crate::config::CharacterHotkey;
use crate::text::{
    decimal, digits_value, hex2, hex_value, law_hex_reads_back, lemma_decimal_digits, push_decimal,
    push_hex2,
};

verus! {

/// The three modifier keys that a hotkey can ask for.
#[derive(Debug, Clone, Copy, PartialEq, Eq, Structural)]
pub enum Modifier {
    Shift,
    Ctrl,
    Alt,
}

/// The modifier that a code stands for: the plain code or its left or right
/// variant.
pub open spec fn modifier_of(vk: u16) -> Option<Modifier> {
    if vk == 0x10 || vk == 0xA0 || vk == 0xA1 {
        Some(Modifier::Shift)
    } else if vk == 0x11 || vk == 0xA2 || vk == 0xA3 {
        Some(Modifier::Ctrl)
    } else if vk == 0x12 || vk == 0xA4 || vk == 0xA5 {
        Some(Modifier::Alt)
    } else {
        None
    }
}

/// The plain code of a modifier.
pub open spec fn plain_code(m: Modifier) -> u16 {
    match m {
        Modifier::Shift => 0x10,
        Modifier::Ctrl => 0x11,
        Modifier::Alt => 0x12,
    }
}

/// The modifier that a code stands for, if it stands for one.
pub fn modifier(vk: u16) -> (r: Option<Modifier>)
    ensures
        r == modifier_of(vk),
{
    match vk {
        0x10 | 0xA0 | 0xA1 => Some(Modifier::Shift),
        0x11 | 0xA2 | 0xA3 => Some(Modifier::Ctrl),
        0x12 | 0xA4 | 0xA5 => Some(Modifier::Alt),
        _ => None,
    }
}

/// Whether a code is a modifier key.
pub fn is_modifier_vk(vk: u16) -> (r: bool)
    ensures
        r == (modifier_of(vk) is Some),
{
    matches!(vk, 0x10 | 0x11 | 0x12 | 0xA0..=0xA5)
}

/// The code that a configuration stores for a modifier key: left and right
/// variants become the plain code, any other code stays.
pub open spec fn canonical(vk: u16) -> u16 {
    match modifier_of(vk) {
        Some(m) => plain_code(m),
        None => vk,
    }
}

/// The code that a configuration stores for a key.
pub fn canonical_modifier(vk: u16) -> (r: u16)
    ensures
        r == canonical(vk),
{
    match vk {
        0x10 | 0xA0 | 0xA1 => 0x10,
        0x11 | 0xA2 | 0xA3 => 0x11,
        0x12 | 0xA4 | 0xA5 => 0x12,
        other => other,
    }
}

/// Keys that a hotkey cannot have as its main key: Escape, which cancels a
/// capture; mouse buttons and the null-ish low codes; lock, input-method,
/// Windows and media keys, which the system rejects or fires by itself.
pub open spec fn unbindable(vk: u16) -> bool {
    ||| vk < 0x08
    ||| vk == 0x1B
    ||| vk == 0x14
    ||| vk == 0x90
    ||| vk == 0x91
    ||| 0x15 <= vk <= 0x1A
    ||| 0x1C <= vk <= 0x1F
    ||| 0x5B <= vk <= 0x5F
    ||| 0xA6 <= vk <= 0xB7
    ||| 0xE0 <= vk <= 0xFE
}

/// Whether a key can be the main key of a hotkey.
pub fn is_bindable_main_key(vk: u16) -> (r: bool)
    ensures
        r == !unbindable(vk),
{
    if vk == 0x1B || vk < 0x08 {
        return false;
    }
    !matches!(
        vk,
        0x14 | 0x90 | 0x91 | 0x15..=0x1A | 0x1C..=0x1F | 0x5B..=0x5F | 0xA6..=0xB7 | 0xE0..=0xFE
    )
}

/// What a capture caught.
#[derive(Debug, Clone, Copy, PartialEq, Eq, Structural)]
pub enum CapturedKey {
    /// A key that is no modifier, with the modifiers held at that moment.
    Main { vk: u16, ctrl: bool, shift: bool, alt: bool },
    /// A modifier, by its plain code.
    Modifier(u16),
}

/// Which keys were down at the last poll, and whether there was one since the
/// capture began.
pub struct CaptureBuffer {
    pub prev: [bool; 256],
    pub primed: bool,
}

/// A key is down when the highest bit of its state is set.
pub open spec fn down(raw: Seq<i16>, vk: int) -> bool {
    raw[vk] < 0
}

/// The key went down since the last poll.
pub open spec fn pressed(prev: Seq<bool>, raw: Seq<i16>, vk: int) -> bool {
    0 <= vk < 256 && !prev[vk] && down(raw, vk)
}

/// A key that can be bound went down since the last poll.
pub open spec fn main_pressed(prev: Seq<bool>, raw: Seq<i16>, vk: int) -> bool {
    pressed(prev, raw, vk) && modifier_of(vk as u16) is None && !unbindable(vk as u16)
}

/// A modifier went down since the last poll.
pub open spec fn modifier_pressed(prev: Seq<bool>, raw: Seq<i16>, vk: int) -> bool {
    pressed(prev, raw, vk) && modifier_of(vk as u16) is Some
}

/// Some key that stands for the modifier is down.
pub open spec fn modifier_down(raw: Seq<i16>, m: Modifier) -> bool {
    exists|vk: int| 0 <= vk < 256 && modifier_of(vk as u16) == Some(m) && #[trigger] down(raw, vk)
}

/// What a poll catches: the lowest bindable key that went down, with the
/// modifiers that are down; without one, the lowest modifier that went down.
pub open spec fn catches(prev: Seq<bool>, raw: Seq<i16>, caught: Option<CapturedKey>) -> bool {
    match caught {
        Some(CapturedKey::Main { vk, ctrl, shift, alt }) => {
            &&& main_pressed(prev, raw, vk as int)
            &&& forall|k: int| k < vk ==> !main_pressed(prev, raw, k)
            &&& ctrl == modifier_down(raw, Modifier::Ctrl)
            &&& shift == modifier_down(raw, Modifier::Shift)
            &&& alt == modifier_down(raw, Modifier::Alt)
        },
        Some(CapturedKey::Modifier(code)) => {
            &&& forall|k: int| !main_pressed(prev, raw, k)
            &&& exists|vk: int|
                #![trigger modifier_pressed(prev, raw, vk)]
                modifier_pressed(prev, raw, vk) && code == canonical(vk as u16) && (forall|k: int|
                    k < vk ==> !modifier_pressed(prev, raw, k))
        },
        None => {
            &&& forall|k: int| !main_pressed(prev, raw, k)
            &&& forall|k: int| !modifier_pressed(prev, raw, k)
        },
    }
}

/// The keys that are down, as the next poll will remember them.
pub open spec fn snapshot(raw: Seq<i16>) -> Seq<bool> {
    Seq::new(256, |vk: int| down(raw, vk))
}

impl CaptureBuffer {
    /// The buffer before any poll.
    pub fn new() -> (r: Self)
        ensures
            !r.primed,
            forall|vk: int| 0 <= vk < 256 ==> !#[trigger] r.prev@[vk],
    {
        CaptureBuffer { prev: [false; 256], primed: false }
    }

    /// Forgets every poll.
    pub fn reset(&mut self)
        ensures
            !final(self).primed,
            forall|vk: int| 0 <= vk < 256 ==> !#[trigger] final(self).prev@[vk],
    {
        self.prev = [false; 256];
        self.primed = false;
    }
}

/// One of three keys is down.
fn any_down(raw: &[i16; 256], a: usize, b: usize, c: usize) -> (r: bool)
    requires
        a < 256 && b < 256 && c < 256,
    ensures
        r == (down(raw@, a as int) || down(raw@, b as int) || down(raw@, c as int)),
{
    raw[a] < 0 || raw[b] < 0 || raw[c] < 0
}

/// Takes the state of every key and catches what went down since the last
/// poll. The first poll of a capture only remembers what is down, so that a
/// key held from before is never caught.
pub fn poll_capture(buf: &mut CaptureBuffer, raw: &[i16; 256]) -> (r: Option<CapturedKey>)
    ensures
        final(buf).primed,
        final(buf).prev@ == snapshot(raw@),
        !old(buf).primed ==> r is None,
        old(buf).primed ==> catches(old(buf).prev@, raw@, r),
        r matches Some(CapturedKey::Main { vk, ctrl, shift, alt }) ==> {
            &&& vk < 256 && raw@[vk as int] < 0 && !old(buf).prev@[vk as int]
            &&& ctrl == (raw@[0x11] < 0 || raw@[0xA2] < 0 || raw@[0xA3] < 0)
            &&& shift == (raw@[0x10] < 0 || raw@[0xA0] < 0 || raw@[0xA1] < 0)
            &&& alt == (raw@[0x12] < 0 || raw@[0xA4] < 0 || raw@[0xA5] < 0)
        },
        forall|vk: int| 0 <= vk < 256 ==> #[trigger] final(buf).prev@[vk] == (raw@[vk] < 0),
{
    let mut cur: [bool; 256] = [false; 256];
    let mut i: usize = 0;
    while i < 256
        invariant
            i <= 256,
            forall|k: int| 0 <= k < i ==> #[trigger] cur@[k] == down(raw@, k),
        decreases 256 - i,
    {
        cur[i] = raw[i] < 0;
        i = i + 1;
    }
    assert(cur@ =~= snapshot(raw@));
    if !buf.primed {
        buf.prev = cur;
        buf.primed = true;
        return None;
    }
    let mut result: Option<CapturedKey> = None;
    let mut vk: u16 = 0;
    let ghost prev = buf.prev@;
    let mut caught: bool = false;
    while vk < 256 && !caught
        invariant
            vk <= 256,
            prev == buf.prev@,
            cur@ == snapshot(raw@),
            !caught ==> (forall|k: int| k < vk ==> !main_pressed(prev, raw@, k)),
            !caught ==> match result {
                Some(CapturedKey::Modifier(code)) => exists|m: int|
                    #![trigger modifier_pressed(prev, raw@, m)]
                    modifier_pressed(prev, raw@, m) && code == canonical(m as u16) && (forall|
                        k: int,
                    | k < m ==> !modifier_pressed(prev, raw@, k)),
                Some(_) => false,
                None => forall|k: int| k < vk ==> !modifier_pressed(prev, raw@, k),
            },
            caught ==> result is Some && catches(prev, raw@, result),
        decreases 256 - vk + (if caught { 0int } else { 1int }),
    {
        let at: usize = vk as usize;
        let was_down: bool = buf.prev[at];
        let is_down: bool = cur[at];
        if !was_down && is_down {
            if is_modifier_vk(vk) {
                if result.is_none() {
                    assert(modifier_pressed(prev, raw@, vk as int));
                    result = Some(CapturedKey::Modifier(canonical_modifier(vk)));
                }
            } else if is_bindable_main_key(vk) {
                let ctrl: bool = any_down(raw, 0x11, 0xA2, 0xA3);
                let shift: bool = any_down(raw, 0x10, 0xA0, 0xA1);
                let alt: bool = any_down(raw, 0x12, 0xA4, 0xA5);
                assert(main_pressed(prev, raw@, vk as int));
                result = Some(CapturedKey::Main { vk, ctrl, shift, alt });
                caught = true;
            }
        }
        if !caught {
            vk = vk + 1;
        }
    }
    assert(!caught ==> (forall|k: int| main_pressed(prev, raw@, k) ==> k < vk));
    proof {
        if let Some(CapturedKey::Main { vk, ctrl, shift, alt }) = result {
            law_caught_keys_carry_the_held_modifiers(prev, raw@, vk, ctrl, shift, alt);
        }
    }
    buf.prev = cur;
    result
}

/// A key that was down at the last poll is not what the next poll catches:
/// only a press after the capture began counts.
pub proof fn law_held_keys_are_not_caught(prev: Seq<bool>, raw: Seq<i16>, caught: CapturedKey)
    requires
        prev.len() == 256,
        catches(prev, raw, Some(caught)),
    ensures
        match caught {
            CapturedKey::Main { vk, .. } => !prev[vk as int] && down(raw, vk as int),
            CapturedKey::Modifier(code) => exists|vk: int|
                0 <= vk < 256 && !#[trigger] prev[vk] && down(raw, vk) && canonical(vk as u16) == code,
        },
{
}

/// There is only one thing that a poll catches.
pub proof fn law_polls_catch_one_thing(
    prev: Seq<bool>,
    raw: Seq<i16>,
    a: Option<CapturedKey>,
    b: Option<CapturedKey>,
)
    requires
        catches(prev, raw, a),
        catches(prev, raw, b),
    ensures
        a == b,
{
}

/// Two polls that see the same keys: the second catches nothing.
pub proof fn law_still_keys_are_quiet(raw: Seq<i16>, caught: Option<CapturedKey>)
    requires
        raw.len() == 256,
        catches(snapshot(raw), raw, caught),
    ensures
        caught is None,
{
}

/// What a key is called on screen.
pub open spec fn label(vk: u16) -> Seq<char> {
    if 0x70 <= vk <= 0x87 {
        "F"@ + decimal((vk - 0x6F) as nat)
    } else if 0x30 <= vk <= 0x39 || 0x41 <= vk <= 0x5A {
        seq![vk as u8 as char]
    } else if 0x60 <= vk <= 0x69 {
        "Num "@ + decimal((vk - 0x60) as nat)
    } else {
        match vk {
            0x6A => "Num *"@,
            0x6B => "Num +"@,
            0x6D => "Num -"@,
            0x6E => "Num ."@,
            0x6F => "Num /"@,
            0x08 => "Backspace"@,
            0x09 => "Tab"@,
            0x0D => "Enter"@,
            0x10 | 0xA0 | 0xA1 => "Shift"@,
            0x11 | 0xA2 | 0xA3 => "Ctrl"@,
            0x12 | 0xA4 | 0xA5 => "Alt"@,
            0x1B => "Escape"@,
            0x20 => "Space"@,
            0x21 => "PgUp"@,
            0x22 => "PgDown"@,
            0x23 => "End"@,
            0x24 => "Home"@,
            0x25 => "Left"@,
            0x26 => "Up"@,
            0x27 => "Right"@,
            0x28 => "Down"@,
            0x2D => "Insert"@,
            0x2E => "Delete"@,
            0xBA => ";"@,
            0xBB => "="@,
            0xBC => ","@,
            0xBD => "-"@,
            0xBE => "."@,
            0xBF => "/"@,
            0xC0 => "`"@,
            0xDB => "["@,
            0xDC => "\\"@,
            0xDD => "]"@,
            0xDE => "'"@,
            _ => "VK 0x"@ + hex2(vk as nat),
        }
    }
}

/// The code of the key with a label of one character.
spec fn code_of_char(c: char) -> int {
    if c == ';' {
        0xBA
    } else if c == '=' {
        0xBB
    } else if c == ',' {
        0xBC
    } else if c == '-' {
        0xBD
    } else if c == '.' {
        0xBE
    } else if c == '/' {
        0xBF
    } else if c == '`' {
        0xC0
    } else if c == '[' {
        0xDB
    } else if c == '\\' {
        0xDC
    } else if c == ']' {
        0xDD
    } else if c == '\'' {
        0xDE
    } else {
        c as int
    }
}

/// The code of the key with a label that starts with `Num`, by the last
/// character of the label.
spec fn code_of_num(c: char) -> int {
    if c == '*' {
        0x6A
    } else if c == '+' {
        0x6B
    } else if c == '-' {
        0x6D
    } else if c == '.' {
        0x6E
    } else if c == '/' {
        0x6F
    } else {
        c as int - 48 + 0x60
    }
}

/// The code of the key with a label that is a word.
spec fn code_of_word(s: Seq<char>) -> int {
    match s[0] {
        'B' => 0x08,
        'T' => 0x09,
        'E' => if s.len() == 5 {
            0x0D
        } else if s.len() == 6 {
            0x1B
        } else {
            0x23
        },
        'S' => if s[1] == 'p' {
            0x20
        } else {
            0x10
        },
        'P' => if s.len() == 4 {
            0x21
        } else {
            0x22
        },
        'H' => 0x24,
        'L' => 0x25,
        'U' => 0x26,
        'R' => 0x27,
        'D' => if s[1] == 'o' {
            0x28
        } else {
            0x2E
        },
        'I' => 0x2D,
        'C' => 0x11,
        _ => 0x12,
    }
}

/// The code of the key with a label; of a modifier, the plain code.
spec fn code_of(s: Seq<char>) -> int {
    if s.len() == 1 {
        code_of_char(s[0])
    } else if s[0] == 'F' {
        0x6F + digits_value(s.skip(1)) as int
    } else if s[0] == 'N' {
        code_of_num(s[4])
    } else if s[0] == 'V' {
        hex_value(s.skip(5)) as int
    } else {
        code_of_word(s)
    }
}

proof fn lemma_code_of_char(vk: u16)
    requires
        0xBA <= vk <= 0xC0 || 0xDB <= vk <= 0xDE || 0x30 <= vk <= 0x39 || 0x41 <= vk <= 0x5A,
    ensures
        code_of(label(vk)) == vk,
        label(vk).len() > 0,
{
    reveal_strlit(";");
    reveal_strlit("=");
    reveal_strlit(",");
    reveal_strlit("-");
    reveal_strlit(".");
    reveal_strlit("/");
    reveal_strlit("`");
    reveal_strlit("[");
    reveal_strlit("\\");
    reveal_strlit("]");
    reveal_strlit("'");
}

proof fn lemma_code_of_num(vk: u16)
    requires
        0x60 <= vk <= 0x6B || 0x6D <= vk <= 0x6F,
    ensures
        code_of(label(vk)) == vk,
        label(vk).len() > 0,
{
    reveal_strlit("Num ");
    reveal_strlit("Num *");
    reveal_strlit("Num +");
    reveal_strlit("Num -");
    reveal_strlit("Num .");
    reveal_strlit("Num /");
    if vk <= 0x69 {
        assert(decimal((vk - 0x60) as nat).len() == 1);
        assert(label(vk)[4] == decimal((vk - 0x60) as nat)[0]);
    }
}

/// The key has a word for a label.
spec fn has_word(vk: u16) -> bool {
    ||| modifier_of(vk) is Some
    ||| vk == 0x08
    ||| vk == 0x09
    ||| vk == 0x0D
    ||| vk == 0x1B
    ||| 0x20 <= vk <= 0x28
    ||| vk == 0x2D
    ||| vk == 0x2E
}

proof fn lemma_code_of_word(vk: u16)
    requires
        has_word(vk),
    ensures
        code_of(label(vk)) == canonical(vk),
        label(vk).len() > 0,
{
    reveal_strlit("Backspace");
    reveal_strlit("Tab");
    reveal_strlit("Enter");
    reveal_strlit("Escape");
    reveal_strlit("Space");
    reveal_strlit("PgUp");
    reveal_strlit("PgDown");
    reveal_strlit("End");
    reveal_strlit("Home");
    reveal_strlit("Left");
    reveal_strlit("Up");
    reveal_strlit("Right");
    reveal_strlit("Down");
    reveal_strlit("Insert");
    reveal_strlit("Delete");
    reveal_strlit("Shift");
    reveal_strlit("Ctrl");
    reveal_strlit("Alt");
}

proof fn lemma_code_of(vk: u16)
    ensures
        code_of(label(vk)) == canonical(vk),
        label(vk).len() > 0,
{
    if 0x70 <= vk <= 0x87 {
        reveal_strlit("F");
        let n = (vk - 0x6F) as nat;
        lemma_decimal_digits(n);
        assert(label(vk).skip(1) =~= decimal(n));
    } else if 0xBA <= vk <= 0xC0 || 0xDB <= vk <= 0xDE || 0x30 <= vk <= 0x39 || 0x41 <= vk
        <= 0x5A {
        lemma_code_of_char(vk);
    } else if 0x60 <= vk <= 0x6B || 0x6D <= vk <= 0x6F {
        lemma_code_of_num(vk);
    } else if has_word(vk) {
        lemma_code_of_word(vk);
    } else {
        reveal_strlit("VK 0x");
        law_hex_reads_back(vk as nat);
        assert(label(vk) == "VK 0x"@ + hex2(vk as nat));
        assert(label(vk).skip(5) =~= hex2(vk as nat));
    }
}

/// Two keys share a label exactly when they are variants of one modifier or the
/// same key, and no label is empty.
pub proof fn law_labels_tell_keys_apart(a: u16, b: u16)
    ensures
        label(a) == label(b) <==> canonical(a) == canonical(b),
        label(a).len() > 0,
{
    lemma_code_of(a);
    lemma_code_of(b);
}

/// The name of a key that needs no number in it.
fn fixed_label(vk: u16) -> (r: Option<&'static str>)
    ensures
        match r {
            Some(s) => s@ == label(vk),
            None => 0x70 <= vk <= 0x87 || 0x30 <= vk <= 0x39 || 0x41 <= vk <= 0x5A || 0x60 <= vk
                <= 0x69 || label(vk) == "VK 0x"@ + hex2(vk as nat),
        },
{
    match vk {
        0x09 => Some("Tab"),
        0x20 => Some("Space"),
        0x0D => Some("Enter"),
        0x08 => Some("Backspace"),
        0x2D => Some("Insert"),
        0x2E => Some("Delete"),
        0x24 => Some("Home"),
        0x23 => Some("End"),
        0x21 => Some("PgUp"),
        0x22 => Some("PgDown"),
        0x1B => Some("Escape"),
        0x10 | 0xA0 | 0xA1 => Some("Shift"),
        0x11 | 0xA2 | 0xA3 => Some("Ctrl"),
        0x12 | 0xA4 | 0xA5 => Some("Alt"),
        0xC0 => Some("`"),
        0x6A => Some("Num *"),
        0x6B => Some("Num +"),
        0x6D => Some("Num -"),
        0x6E => Some("Num ."),
        0x6F => Some("Num /"),
        0x26 => Some("Up"),
        0x28 => Some("Down"),
        0x25 => Some("Left"),
        0x27 => Some("Right"),
        0xBA => Some(";"),
        0xBB => Some("="),
        0xBC => Some(","),
        0xBD => Some("-"),
        0xBE => Some("."),
        0xBF => Some("/"),
        0xDB => Some("["),
        0xDC => Some("\\"),
        0xDD => Some("]"),
        0xDE => Some("'"),
        _ => None,
    }
}

/// What a key is called on screen.
pub fn vk_to_label(vk: u16) -> (r: String)
    ensures
        r@ == label(vk),
{
    match fixed_label(vk) {
        Some(s) => s.to_owned(),
        None => {
            if 0x70 <= vk && vk <= 0x87 {
                let mut r: String = "F".to_owned();
                push_decimal(&mut r, (vk - 0x6F) as usize);
                r
            } else if (0x30 <= vk && vk <= 0x39) || (0x41 <= vk && vk <= 0x5A) {
                let mut r: String = String::new();
                r.push(vk as u8 as char);
                assert(r@ =~= seq![vk as u8 as char]);
                r
            } else if 0x60 <= vk && vk <= 0x69 {
                let mut r: String = "Num ".to_owned();
                push_decimal(&mut r, (vk - 0x60) as usize);
                r
            } else {
                let mut r: String = "VK 0x".to_owned();
                push_hex2(&mut r, vk);
                r
            }
        },
    }
}

/// A part of a hotkey's name that is there only if it is asked for.
pub open spec fn part(asked: bool, s: Seq<char>) -> Seq<char> {
    if asked {
        s
    } else {
        Seq::empty()
    }
}

/// What a hotkey is called on screen, such as `Ctrl+Shift+Num 1`.
pub open spec fn combination(hk: CharacterHotkey) -> Seq<char> {
    part(hk.ctrl, "Ctrl+"@) + part(hk.shift, "Shift+"@) + part(hk.alt, "Alt+"@) + label(hk.vk)
}

/// What a hotkey is called on screen.
pub fn hotkey_label(hk: &CharacterHotkey) -> (r: String)
    ensures
        r@ == combination(*hk),
{
    let mut r: String = String::new();
    if hk.ctrl {
        r.append("Ctrl+");
    }
    if hk.shift {
        r.append("Shift+");
    }
    if hk.alt {
        r.append("Alt+");
    }
    r.append(vk_to_label(hk.vk).as_str());
    assert(r@ =~= combination(*hk));
    r
}

/// Which modifier a code stands for, and the plain code of each modifier.
pub proof fn law_each_modifier_has_three_codes(vk: u16)
    ensures
        modifier_of(vk) == Some(Modifier::Shift) <==> (vk == 0x10 || vk == 0xA0 || vk == 0xA1),
        modifier_of(vk) == Some(Modifier::Ctrl) <==> (vk == 0x11 || vk == 0xA2 || vk == 0xA3),
        modifier_of(vk) == Some(Modifier::Alt) <==> (vk == 0x12 || vk == 0xA4 || vk == 0xA5),
        vk == 0xA0 || vk == 0xA1 ==> canonical(vk) == 0x10,
        vk == 0xA2 || vk == 0xA3 ==> canonical(vk) == 0x11,
        vk == 0xA4 || vk == 0xA5 ==> canonical(vk) == 0x12,
        !(0xA0 <= vk <= 0xA5) ==> canonical(vk) == vk,
{
}

/// A main key that a poll catches went down since the last poll, and carries
/// exactly the modifiers of which some key is down now. No lower code of a key
/// that can be bound went down.
pub proof fn law_caught_keys_carry_the_held_modifiers(
    prev: Seq<bool>,
    raw: Seq<i16>,
    vk: u16,
    ctrl: bool,
    shift: bool,
    alt: bool,
)
    requires
        catches(prev, raw, Some(CapturedKey::Main { vk, ctrl, shift, alt })),
    ensures
        ctrl == (raw[0x11] < 0 || raw[0xA2] < 0 || raw[0xA3] < 0),
        shift == (raw[0x10] < 0 || raw[0xA0] < 0 || raw[0xA1] < 0),
        alt == (raw[0x12] < 0 || raw[0xA4] < 0 || raw[0xA5] < 0),
        vk < 256,
        raw[vk as int] < 0,
        !prev[vk as int],
        !unbindable(vk),
        !(0x10 <= vk <= 0x12) && !(0xA0 <= vk <= 0xA5),
        forall|k: int|
            0 <= k < vk && !(0x10 <= k <= 0x12) && !(0xA0 <= k <= 0xA5) && !unbindable(k as u16)
                && #[trigger] raw[k] < 0 ==> prev[k],
{
    lemma_modifiers_down(raw);
    assert forall|k: int|
        0 <= k < vk && !(0x10 <= k <= 0x12) && !(0xA0 <= k <= 0xA5) && !unbindable(k as u16)
            && #[trigger] raw[k] < 0 implies prev[k] by {
        assert(!main_pressed(prev, raw, k));
    }
}

proof fn lemma_modifiers_down(raw: Seq<i16>)
    ensures
        modifier_down(raw, Modifier::Ctrl) == (raw[0x11] < 0 || raw[0xA2] < 0 || raw[0xA3] < 0),
        modifier_down(raw, Modifier::Shift) == (raw[0x10] < 0 || raw[0xA0] < 0 || raw[0xA1] < 0),
        modifier_down(raw, Modifier::Alt) == (raw[0x12] < 0 || raw[0xA4] < 0 || raw[0xA5] < 0),
{
    assert(down(raw, 0x10) == (raw[0x10] < 0));
    assert(down(raw, 0xA0) == (raw[0xA0] < 0));
    assert(down(raw, 0xA1) == (raw[0xA1] < 0));
    assert(down(raw, 0x11) == (raw[0x11] < 0));
    assert(down(raw, 0xA2) == (raw[0xA2] < 0));
    assert(down(raw, 0xA3) == (raw[0xA3] < 0));
    assert(down(raw, 0x12) == (raw[0x12] < 0));
    assert(down(raw, 0xA4) == (raw[0xA4] < 0));
    assert(down(raw, 0xA5) == (raw[0xA5] < 0));
}

/// A modifier is caught only when no key that can be bound went down, and by
/// the plain code of the lowest code of a modifier that went down. Nothing is
/// caught only when neither went down.
pub proof fn law_main_keys_come_before_modifiers(
    prev: Seq<bool>,
    raw: Seq<i16>,
    caught: Option<CapturedKey>,
)
    requires
        catches(prev, raw, caught),
        !(caught matches Some(CapturedKey::Main { .. })),
    ensures
        forall|k: int|
            0 <= k < 256 && !(0x10 <= k <= 0x12) && !(0xA0 <= k <= 0xA5) && !unbindable(k as u16)
                && #[trigger] raw[k] < 0 ==> prev[k],
        caught is None ==> forall|k: int|
            (0x10 <= k <= 0x12 || 0xA0 <= k <= 0xA5) && #[trigger] raw[k] < 0 ==> prev[k],
        caught matches Some(CapturedKey::Modifier(code)) ==> exists|vk: int|
            #![trigger raw[vk]]
            (0x10 <= vk <= 0x12 || 0xA0 <= vk <= 0xA5) && raw[vk] < 0 && !prev[vk] && code
                == canonical(vk as u16) && forall|k: int|
                k < vk && (0x10 <= k <= 0x12 || 0xA0 <= k <= 0xA5) && #[trigger] raw[k] < 0
                    ==> prev[k],
{
    assert forall|k: int|
        0 <= k < 256 && !(0x10 <= k <= 0x12) && !(0xA0 <= k <= 0xA5) && !unbindable(k as u16)
            && #[trigger] raw[k] < 0 implies prev[k] by {
        assert(!main_pressed(prev, raw, k));
    }
    if caught is None {
        assert forall|k: int|
            (0x10 <= k <= 0x12 || 0xA0 <= k <= 0xA5) && #[trigger] raw[k] < 0 implies prev[k] by {
            assert(!modifier_pressed(prev, raw, k));
        }
    }
    if let Some(CapturedKey::Modifier(code)) = caught {
        let vk = choose|vk: int|
            #![trigger modifier_pressed(prev, raw, vk)]
            modifier_pressed(prev, raw, vk) && code == canonical(vk as u16) && (forall|k: int|
                k < vk ==> !modifier_pressed(prev, raw, k));
        assert(raw[vk] < 0);
        assert forall|k: int|
            k < vk && (0x10 <= k <= 0x12 || 0xA0 <= k <= 0xA5) && #[trigger] raw[k]
                < 0 implies prev[k] by {
            assert(!modifier_pressed(prev, raw, k));
        }
    }
}

/// A poll remembers of each key whether the highest bit of its state is set.
pub proof fn law_polls_remember_what_is_down(raw: Seq<i16>, vk: int)
    requires
        0 <= vk < 256,
    ensures
        snapshot(raw).len() == 256,
        snapshot(raw)[vk] == (raw[vk] < 0),
{
}

/// Keys that no hotkey can have for its main key.
pub proof fn law_some_keys_cannot_be_bound(vk: u16)
    ensures
        vk < 0x08 || vk == 0x1B ==> unbindable(vk),
        vk == 0x14 || vk == 0x90 || vk == 0x91 ==> unbindable(vk),
        0x15 <= vk <= 0x1F || 0x5B <= vk <= 0x5F ==> unbindable(vk),
        0xA6 <= vk <= 0xB7 || 0xE0 <= vk <= 0xFE ==> unbindable(vk),
        0x08 <= vk <= 0x13 || 0x20 <= vk <= 0x5A || 0x60 <= vk <= 0x8F || 0x92 <= vk <= 0xA5
            || 0xB8 <= vk <= 0xDF || vk >= 0xFF ==> !unbindable(vk),
{
}

/// The label of a letter or digit is that character, and labels with a number
/// count it from the first key of their row.
pub proof fn law_labels_say_the_key(vk: u16)
    ensures
        0x30 <= vk <= 0x39 || 0x41 <= vk <= 0x5A ==> label(vk).len() == 1 && label(vk)[0] as int
            == vk,
        0x70 <= vk <= 0x87 ==> label(vk) == "F"@ + decimal((vk - 0x6F) as nat),
        0x60 <= vk <= 0x69 ==> label(vk) == "Num "@ + decimal((vk - 0x60) as nat),
        vk > 0xDE || 0xA6 <= vk <= 0xB9 || 0x88 <= vk <= 0x9F ==> label(vk) == "VK 0x"@ + hex2(
            vk as nat,
        ),
{
}

/// The label of a hotkey names its modifiers in the order Ctrl, Shift, Alt,
/// each with a plus behind it, and then the key.
pub proof fn law_combinations_name_their_parts(vk: u16)
    ensures
        forall|ctrl: bool, shift: bool, alt: bool|
            #[trigger] combination(CharacterHotkey { vk, ctrl, shift, alt }) == (if ctrl {
                "Ctrl+"@
            } else {
                Seq::empty()
            }) + (if shift {
                "Shift+"@
            } else {
                Seq::empty()
            }) + (if alt {
                "Alt+"@
            } else {
                Seq::empty()
            }) + label(vk),
{
}

/// What each key with a name of its own is called, and that every other key is
/// called by its code.
pub proof fn law_names_of_keys(vk: u16)
    ensures
        vk == 0x6A ==> label(vk) == "Num *"@,
        vk == 0x6B ==> label(vk) == "Num +"@,
        vk == 0x6D ==> label(vk) == "Num -"@,
        vk == 0x6E ==> label(vk) == "Num ."@,
        vk == 0x6F ==> label(vk) == "Num /"@,
        vk == 0x08 ==> label(vk) == "Backspace"@,
        vk == 0x09 ==> label(vk) == "Tab"@,
        vk == 0x0D ==> label(vk) == "Enter"@,
        vk == 0x10 || vk == 0xA0 || vk == 0xA1 ==> label(vk) == "Shift"@,
        vk == 0x11 || vk == 0xA2 || vk == 0xA3 ==> label(vk) == "Ctrl"@,
        vk == 0x12 || vk == 0xA4 || vk == 0xA5 ==> label(vk) == "Alt"@,
        vk == 0x1B ==> label(vk) == "Escape"@,
        vk == 0x20 ==> label(vk) == "Space"@,
        vk == 0x21 ==> label(vk) == "PgUp"@,
        vk == 0x22 ==> label(vk) == "PgDown"@,
        vk == 0x23 ==> label(vk) == "End"@,
        vk == 0x24 ==> label(vk) == "Home"@,
        vk == 0x25 ==> label(vk) == "Left"@,
        vk == 0x26 ==> label(vk) == "Up"@,
        vk == 0x27 ==> label(vk) == "Right"@,
        vk == 0x28 ==> label(vk) == "Down"@,
        vk == 0x2D ==> label(vk) == "Insert"@,
        vk == 0x2E ==> label(vk) == "Delete"@,
        vk == 0xBA ==> label(vk) == ";"@,
        vk == 0xBB ==> label(vk) == "="@,
        vk == 0xBC ==> label(vk) == ","@,
        vk == 0xBD ==> label(vk) == "-"@,
        vk == 0xBE ==> label(vk) == "."@,
        vk == 0xBF ==> label(vk) == "/"@,
        vk == 0xC0 ==> label(vk) == "`"@,
        vk == 0xDB ==> label(vk) == "["@,
        vk == 0xDC ==> label(vk) == "\\"@,
        vk == 0xDD ==> label(vk) == "]"@,
        vk == 0xDE ==> label(vk) == "'"@,
        vk <= 0x07 || 0x0A <= vk <= 0x0C || 0x0E <= vk <= 0x0F || 0x13 <= vk <= 0x1A
            || 0x1C <= vk <= 0x1F || 0x29 <= vk <= 0x2C || vk == 0x2F || 0x3A <= vk <= 0x40
            || 0x5B <= vk <= 0x5F || vk == 0x6C || 0x88 <= vk <= 0x9F || 0xA6 <= vk <= 0xB9
            || 0xC1 <= vk <= 0xDA || vk >= 0xDF ==> label(vk) == "VK 0x"@ + hex2(vk as nat),
{
}

} // verus!
