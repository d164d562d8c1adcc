//! The configuration panel without its drawing: what each edit does to the
//! settings, how a key is captured for a binding, and when the settings are
//! written to disk.

use vstd::prelude::*;

use crate::config::{
    live_part, roster, CharacterEntry, CharacterHotkey, CharacterModel, Config, ConfigModel,
    DisplayMode, LiveSettings,
};
use crate::keys::{
    catches, combination, hotkey_label, label, law_still_keys_are_quiet, poll_capture, snapshot,
    vk_to_label, CaptureBuffer, CapturedKey,
};
use crate::text::{same, trim, trimmed};

verus! {

/// How long the settings rest after an edit before they are written, in
/// nanoseconds: 300 milliseconds.
pub const AUTOSAVE_DEBOUNCE: u128 = 300_000_000;

/// Which binding waits for a key.
#[derive(Debug)]
pub enum CaptureTarget {
    ForwardKey,
    BackwardKey,
    ModifierKey,
    /// The hotkey of a character, by name, so that it stays with the character
    /// when the list is put in another order.
    Character(String),
}

/// Which binding waits for a key, by what a name says.
pub enum TargetModel {
    ForwardKey,
    BackwardKey,
    ModifierKey,
    Character(Seq<char>),
}

impl View for CaptureTarget {
    type V = TargetModel;

    open spec fn view(&self) -> TargetModel {
        match *self {
            CaptureTarget::ForwardKey => TargetModel::ForwardKey,
            CaptureTarget::BackwardKey => TargetModel::BackwardKey,
            CaptureTarget::ModifierKey => TargetModel::ModifierKey,
            CaptureTarget::Character(name) => TargetModel::Character(name@),
        }
    }
}

impl Clone for CaptureTarget {
    fn clone(&self) -> (r: Self)
        ensures
            r == *self,
    {
        match self {
            CaptureTarget::ForwardKey => CaptureTarget::ForwardKey,
            CaptureTarget::BackwardKey => CaptureTarget::BackwardKey,
            CaptureTarget::ModifierKey => CaptureTarget::ModifierKey,
            CaptureTarget::Character(name) => CaptureTarget::Character(name.clone()),
        }
    }
}

/// A binding that may wait for a key, by what a name says.
pub open spec fn target_of(target: Option<CaptureTarget>) -> Option<TargetModel> {
    match target {
        Some(t) => Some(t@),
        None => None,
    }
}

fn same_target(a: &CaptureTarget, b: &CaptureTarget) -> (r: bool)
    ensures
        r == (a@ == b@),
{
    match (a, b) {
        (CaptureTarget::ForwardKey, CaptureTarget::ForwardKey) => true,
        (CaptureTarget::BackwardKey, CaptureTarget::BackwardKey) => true,
        (CaptureTarget::ModifierKey, CaptureTarget::ModifierKey) => true,
        (CaptureTarget::Character(x), CaptureTarget::Character(y)) => same(x.as_str(), y.as_str()),
        _ => false,
    }
}

fn same_capture(a: &Option<CaptureTarget>, b: &Option<CaptureTarget>) -> (r: bool)
    ensures
        r == (target_of(*a) == target_of(*b)),
{
    match (a, b) {
        (None, None) => true,
        (Some(x), Some(y)) => same_target(x, y),
        _ => false,
    }
}

/// The panel.
pub struct ConfigPanel {
    pub config: Config,
    /// The text of the field in which a new character is typed.
    pub new_character_buffer: String,
    /// What the running previews go by.
    pub live: LiveSettings,
    /// The binding that waits for a key.
    pub capturing: Option<CaptureTarget>,
    /// The binding that waited when the capture was last looked at.
    pub last_capturing: Option<CaptureTarget>,
    pub capture_buf: CaptureBuffer,
    /// When the settings were last edited, while they are not written yet: in
    /// nanoseconds on a clock that never runs backwards.
    pub last_change: Option<u128>,
}

/// The panel, by what its texts and tables hold.
#[verifier::ext_equal]
pub struct PanelModel {
    pub config: ConfigModel,
    pub buffer: Seq<char>,
    pub live: LiveSettings,
    pub capturing: Option<TargetModel>,
    pub last_capturing: Option<TargetModel>,
    pub prev: Seq<bool>,
    pub primed: bool,
    pub last_change: Option<u128>,
}

impl View for ConfigPanel {
    type V = PanelModel;

    open spec fn view(&self) -> PanelModel {
        PanelModel {
            config: self.config@,
            buffer: self.new_character_buffer@,
            live: self.live,
            capturing: target_of(self.capturing),
            last_capturing: target_of(self.last_capturing),
            prev: self.capture_buf.prev@,
            primed: self.capture_buf.primed,
            last_change: self.last_change,
        }
    }
}

/// The previews go by the settings that the panel shows.
pub open spec fn in_step(m: PanelModel) -> bool {
    m.live == live_part(m.config)
}

/// No key is remembered.
pub open spec fn nothing_held() -> Seq<bool> {
    Seq::new(256, |i: int| false)
}

/// An edit at `now` that leaves the settings `config`.
pub open spec fn edited(m: PanelModel, config: ConfigModel, now: u128) -> PanelModel {
    PanelModel { config, last_change: Some(now), ..m }
}

/// A capture that is over with an edit.
pub open spec fn bound(m: PanelModel, config: ConfigModel, now: u128) -> PanelModel {
    PanelModel { capturing: None, ..edited(m, config, now) }
}

/// What a look at the keyboard catches: nothing on the first one of a capture.
pub open spec fn poll_catches(
    m: PanelModel,
    raw: Seq<i16>,
    caught: Option<CapturedKey>,
) -> bool {
    if m.primed {
        catches(m.prev, raw, caught)
    } else {
        caught is None
    }
}

/// The panel with the keys that are down remembered.
pub open spec fn polled(m: PanelModel, raw: Seq<i16>) -> PanelModel {
    PanelModel { prev: snapshot(raw), primed: true, ..m }
}

/// What a caught key does to the binding that waits for one. A binding that
/// wants a modifier takes nothing else, and the others wait for a main key.
pub open spec fn after_key(m: PanelModel, caught: Option<CapturedKey>, now: u128) -> PanelModel {
    match (m.capturing, caught) {
        (
            Some(TargetModel::ForwardKey),
            Some(CapturedKey::Main { vk, .. }),
        ) => bound(m, ConfigModel { forward_key: vk, ..m.config }, now),
        (
            Some(TargetModel::BackwardKey),
            Some(CapturedKey::Main { vk, .. }),
        ) => bound(m, ConfigModel { backward_key: vk, ..m.config }, now),
        (
            Some(TargetModel::Character(name)),
            Some(CapturedKey::Main { vk, ctrl, shift, alt }),
        ) => bound(
            m,
            ConfigModel {
                character_hotkeys: m.config.character_hotkeys.insert(
                    name,
                    CharacterHotkey { vk, ctrl, shift, alt },
                ),
                ..m.config
            },
            now,
        ),
        (
            Some(TargetModel::ModifierKey),
            Some(CapturedKey::Modifier(vk)),
        ) => bound(m, ConfigModel { modifier_key: Some(vk), ..m.config }, now),
        _ => m,
    }
}

/// A caught key and then, perhaps, Escape, which ends a capture.
pub open spec fn after_capture(
    m: PanelModel,
    caught: Option<CapturedKey>,
    escape: bool,
    now: u128,
) -> PanelModel {
    if m.capturing is Some && escape {
        PanelModel { capturing: None, ..after_key(m, caught, now) }
    } else {
        after_key(m, caught, now)
    }
}

/// What the beginning or the end of a capture asks for.
#[derive(Debug, Clone, Copy, PartialEq, Eq, Structural)]
pub enum CaptureEdge {
    /// Nothing began or ended.
    Still,
    /// A capture began: the system-wide hotkeys must pause.
    Began,
    /// A capture ended: write the settings if `save`, then let the
    /// system-wide hotkeys go on.
    Ended { save: bool },
}

/// What the capture asks for since it was last looked at.
pub open spec fn capture_edge(m: PanelModel) -> CaptureEdge {
    if m.last_capturing is None && m.capturing is Some {
        CaptureEdge::Began
    } else if m.last_capturing is Some && m.capturing is None {
        CaptureEdge::Ended { save: m.last_change is Some }
    } else {
        CaptureEdge::Still
    }
}

/// The panel once the capture was looked at.
pub open spec fn after_settling(m: PanelModel) -> PanelModel {
    match capture_edge(m) {
        CaptureEdge::Began => PanelModel {
            last_capturing: m.capturing,
            prev: nothing_held(),
            primed: false,
            ..m
        },
        CaptureEdge::Ended { .. } => PanelModel {
            last_capturing: m.capturing,
            last_change: None,
            ..m
        },
        CaptureEdge::Still => PanelModel { last_capturing: m.capturing, ..m },
    }
}

/// A click on the button of a binding: it begins to wait for a key, or stops
/// if it waited. A capture begins with no key remembered.
pub open spec fn after_toggle(m: PanelModel, target: TargetModel) -> PanelModel {
    if m.capturing == Some(target) {
        PanelModel { capturing: None, ..m }
    } else if m.capturing is None {
        PanelModel { capturing: Some(target), prev: nothing_held(), primed: false, ..m }
    } else {
        PanelModel { capturing: Some(target), ..m }
    }
}

impl ConfigPanel {
    /// The panel for a configuration.
    pub fn new(config: Config) -> (r: Self)
        ensures
            r@ == (PanelModel {
                config: config@,
                buffer: Seq::empty(),
                live: live_part(config@),
                capturing: None,
                last_capturing: None,
                prev: nothing_held(),
                primed: false,
                last_change: None,
            }),
    {
        let live: LiveSettings = LiveSettings::from_config(&config);
        let r = ConfigPanel {
            config,
            new_character_buffer: String::new(),
            live,
            capturing: None,
            last_capturing: None,
            capture_buf: CaptureBuffer::new(),
            last_change: None,
        };
        assert(r@.prev =~= nothing_held());
        r
    }

    /// Remembers that the settings were edited.
    fn touch(&mut self, now: u128)
        ensures
            final(self)@ == (PanelModel { last_change: Some(now), ..old(self)@ }),
            final(self).config == old(self).config,
            final(self).live == old(self).live,
    {
        self.last_change = Some(now);
    }

    /// Gives a caught key to the binding that waits for one; `escape` tells
    /// whether Escape was pressed.
    pub fn apply_capture(&mut self, caught: Option<CapturedKey>, escape: bool, now: u128)
        ensures
            final(self)@ == after_capture(old(self)@, caught, escape, now),
    {
        let target: Option<CaptureTarget> = match &self.capturing {
            Some(t) => Some(t.clone()),
            None => None,
        };
        if let Some(target) = target {
            match caught {
                Some(CapturedKey::Main { vk, ctrl, shift, alt }) => {
                    match target {
                        CaptureTarget::ForwardKey => {
                            self.config.forward_key = vk;
                            self.capturing = None;
                            self.touch(now);
                        },
                        CaptureTarget::BackwardKey => {
                            self.config.backward_key = vk;
                            self.capturing = None;
                            self.touch(now);
                        },
                        CaptureTarget::Character(name) => {
                            self.config.character_hotkeys.insert(
                                name,
                                CharacterHotkey { vk, ctrl, shift, alt },
                            );
                            self.capturing = None;
                            self.touch(now);
                        },
                        CaptureTarget::ModifierKey => {},
                    }
                },
                Some(CapturedKey::Modifier(vk)) => {
                    if let CaptureTarget::ModifierKey = target {
                        self.config.modifier_key = Some(vk);
                        self.capturing = None;
                        self.touch(now);
                    }
                },
                None => {},
            }
            if escape {
                self.capturing = None;
            }
        }
    }

    /// One look at the keyboard while a binding waits for a key; `raw` holds
    /// the state of every key. Without a waiting binding nothing happens.
    pub fn capture_tick(&mut self, raw: &[i16; 256], escape: bool, now: u128)
        ensures
            old(self)@.capturing is None ==> final(self)@ == old(self)@,
            old(self)@.capturing is Some ==> exists|caught: Option<CapturedKey>| #[trigger]
                poll_catches(old(self)@, raw@, caught) && final(self)@ == after_capture(
                    polled(old(self)@, raw@),
                    caught,
                    escape,
                    now,
                ),
    {
        if self.capturing.is_some() {
            let caught: Option<CapturedKey> = poll_capture(&mut self.capture_buf, raw);
            assert(poll_catches(old(self)@, raw@, caught));
            assert(self@ =~= polled(old(self)@, raw@));
            self.apply_capture(caught, escape, now);
        }
    }

    /// Looks whether a capture began or ended since the last look.
    pub fn settle_capture(&mut self) -> (r: CaptureEdge)
        ensures
            r == capture_edge(old(self)@),
            final(self)@ == after_settling(old(self)@),
    {
        let mut edge: CaptureEdge = CaptureEdge::Still;
        if !same_capture(&self.last_capturing, &self.capturing) {
            if self.last_capturing.is_none() && self.capturing.is_some() {
                self.capture_buf.reset();
                assert(self.capture_buf.prev@ =~= nothing_held());
                edge = CaptureEdge::Began;
            } else if self.last_capturing.is_some() && self.capturing.is_none() {
                edge = CaptureEdge::Ended { save: self.last_change.is_some() };
                self.last_change = None;
            }
            self.last_capturing = match &self.capturing {
                Some(t) => Some(t.clone()),
                None => None,
            };
        }
        edge
    }

    /// Whether the binding waits for a key.
    pub fn is_capturing(&self, target: &CaptureTarget) -> (r: bool)
        ensures
            r == (self@.capturing == Some(target@)),
    {
        match &self.capturing {
            Some(t) => same_target(t, target),
            None => false,
        }
    }

    /// A click on the button of a binding.
    pub fn toggle_capture(&mut self, target: &CaptureTarget)
        ensures
            final(self)@ == after_toggle(old(self)@, target@),
    {
        if self.is_capturing(target) {
            self.capturing = None;
        } else {
            if self.capturing.is_none() {
                self.capture_buf.reset();
                assert(self.capture_buf.prev@ =~= nothing_held());
            }
            self.capturing = Some(target.clone());
        }
    }

    /// The text on the button of a binding: its name, or a hint while it
    /// waits for a key.
    pub fn bind_text(&self, target: &CaptureTarget, name: String) -> (r: String)
        ensures
            r@ == if self@.capturing == Some(target@) {
                "[press key — Esc]"@
            } else {
                name@
            },
    {
        if self.is_capturing(target) {
            "[press key — Esc]".to_owned()
        } else {
            name
        }
    }
}

/// The panel once a setting was put to a value: an edit only if the value is
/// new.
pub open spec fn put(m: PanelModel, config: ConfigModel, now: u128) -> PanelModel {
    if config == m.config {
        m
    } else {
        edited(m, config, now)
    }
}

/// The panel once a way to show clients was chosen.
pub open spec fn after_display_mode(m: PanelModel, mode: DisplayMode, now: u128) -> PanelModel {
    if mode == m.config.display_mode {
        m
    } else {
        PanelModel {
            live: LiveSettings { display_mode: mode, ..m.live },
            ..edited(m, ConfigModel { display_mode: mode, ..m.config }, now)
        }
    }
}

/// The panel once places were locked or unlocked.
pub open spec fn after_lock(m: PanelModel, locked: bool, now: u128) -> PanelModel {
    if locked == m.config.positions_locked {
        m
    } else {
        PanelModel {
            live: LiveSettings { positions_locked: locked, ..m.live },
            ..edited(m, ConfigModel { positions_locked: locked, ..m.config }, now)
        }
    }
}

/// The panel once a size of previews was chosen.
pub open spec fn after_preview_size(
    m: PanelModel,
    width: u32,
    height: u32,
    now: u128,
) -> PanelModel {
    if width == m.config.preview_width && height == m.config.preview_height {
        m
    } else {
        PanelModel {
            live: LiveSettings { preview_width: width, preview_height: height, ..m.live },
            ..edited(
                m,
                ConfigModel { preview_width: width, preview_height: height, ..m.config },
                now,
            )
        }
    }
}

/// Edits of single settings.
impl ConfigPanel {
    /// Chooses how clients are shown.
    pub fn set_display_mode(&mut self, mode: DisplayMode, now: u128)
        ensures
            final(self)@ == after_display_mode(old(self)@, mode, now),
    {
        if mode != self.config.display_mode {
            self.config.display_mode = mode;
            self.touch(now);
            self.live.display_mode = mode;
        }
    }

    /// Locks or unlocks the places of previews and list.
    pub fn set_positions_locked(&mut self, locked: bool, now: u128)
        ensures
            final(self)@ == after_lock(old(self)@, locked, now),
    {
        if locked != self.config.positions_locked {
            self.config.positions_locked = locked;
            self.touch(now);
            self.live.positions_locked = locked;
        }
    }

    /// Sets the size of previews.
    pub fn set_preview_size(&mut self, width: u32, height: u32, now: u128)
        ensures
            final(self)@ == after_preview_size(old(self)@, width, height, now),
    {
        if width != self.config.preview_width || height != self.config.preview_height {
            self.config.preview_width = width;
            self.config.preview_height = height;
            self.touch(now);
            self.live.preview_width = width;
            self.live.preview_height = height;
        }
    }

    /// Turns keyboard cycling on or off.
    pub fn set_enable_keyboard(&mut self, on: bool, now: u128)
        ensures
            final(self)@ == put(
                old(self)@,
                ConfigModel { enable_keyboard_buttons: on, ..old(self)@.config },
                now,
            ),
    {
        if on != self.config.enable_keyboard_buttons {
            self.config.enable_keyboard_buttons = on;
            self.touch(now);
            assert(self@.config.enable_keyboard_buttons
                != old(self)@.config.enable_keyboard_buttons);
        }
    }

    /// Turns cycling by mouse side buttons on or off.
    pub fn set_enable_mouse(&mut self, on: bool, now: u128)
        ensures
            final(self)@ == put(
                old(self)@,
                ConfigModel { enable_mouse_buttons: on, ..old(self)@.config },
                now,
            ),
    {
        if on != self.config.enable_mouse_buttons {
            self.config.enable_mouse_buttons = on;
            self.touch(now);
            assert(self@.config.enable_mouse_buttons != old(self)@.config.enable_mouse_buttons);
        }
    }

    /// Turns previews on or off.
    pub fn set_show_previews(&mut self, on: bool, now: u128)
        ensures
            final(self)@ == put(
                old(self)@,
                ConfigModel { show_previews: on, ..old(self)@.config },
                now,
            ),
    {
        if on != self.config.show_previews {
            self.config.show_previews = on;
            self.touch(now);
            assert(self@.config.show_previews != old(self)@.config.show_previews);
        }
    }

    /// Asks for no extra key to cycle backward.
    pub fn clear_modifier(&mut self, now: u128)
        ensures
            final(self)@ == put(
                old(self)@,
                ConfigModel { modifier_key: None, ..old(self)@.config },
                now,
            ),
    {
        if self.config.modifier_key.is_some() {
            self.config.modifier_key = None;
            self.touch(now);
            assert(self@.config.modifier_key != old(self)@.config.modifier_key);
        }
    }

    /// The name of the extra key on its button.
    pub fn modifier_text(&self) -> (r: String)
        ensures
            r@ == match self.config.modifier_key {
                Some(vk) => label(vk),
                None => "None"@,
            },
    {
        match self.config.modifier_key {
            Some(vk) => vk_to_label(vk),
            None => "None".to_owned(),
        }
    }
}

/// What the timer for writing the settings asks for.
#[derive(Debug, Clone, Copy, PartialEq, Eq, Structural)]
pub enum Autosave {
    /// Everything is written.
    Idle,
    /// Write the settings now.
    Save,
    /// Look again after so many nanoseconds.
    Wait(u128),
}

/// How long ago `then` was.
pub open spec fn elapsed(then: u128, now: u128) -> int {
    if now >= then {
        now - then
    } else {
        0
    }
}

/// What is asked for at `now`, when the last edit that is not written yet was
/// made at `last_change`.
pub open spec fn autosave_at(last_change: Option<u128>, now: u128) -> Autosave {
    match last_change {
        None => Autosave::Idle,
        Some(then) => if elapsed(then, now) >= AUTOSAVE_DEBOUNCE {
            Autosave::Save
        } else {
            Autosave::Wait((AUTOSAVE_DEBOUNCE - elapsed(then, now)) as u128)
        },
    }
}

impl ConfigPanel {
    /// Decides whether the settings are written now: once they rested long
    /// enough after the last edit.
    pub fn autosave(&mut self, now: u128) -> (r: Autosave)
        ensures
            r == autosave_at(old(self)@.last_change, now),
            final(self)@ == if r == Autosave::Save {
                PanelModel { last_change: None, ..old(self)@ }
            } else {
                old(self)@
            },
    {
        match self.last_change {
            None => Autosave::Idle,
            Some(then) => {
                let rested: u128 = if now >= then {
                    now - then
                } else {
                    0
                };
                if rested >= AUTOSAVE_DEBOUNCE {
                    self.last_change = None;
                    Autosave::Save
                } else {
                    Autosave::Wait(AUTOSAVE_DEBOUNCE - rested)
                }
            },
        }
    }
}

/// No entry but the one at `idx` has the name.
pub open spec fn only_bearer(list: Seq<CharacterModel>, idx: int, name: Seq<char>) -> bool {
    forall|j: int| 0 <= j < list.len() && j != idx ==> (#[trigger] list[j]).name != name
}

/// The settings once the character at `idx` has another name. Its hotkey goes
/// with it, unless another character keeps the old name or the new name has a
/// hotkey already.
pub open spec fn renamed(c: ConfigModel, idx: int, name: Seq<char>) -> ConfigModel {
    let old_name = c.characters[idx].name;
    let keys = c.character_hotkeys;
    ConfigModel {
        characters: c.characters.update(
            idx,
            CharacterModel { name, in_cycle: c.characters[idx].in_cycle },
        ),
        character_hotkeys: if keys.contains_key(old_name) && !keys.contains_key(name)
            && only_bearer(c.characters, idx, old_name) {
            keys.remove(old_name).insert(name, keys[old_name])
        } else {
            keys
        },
        ..c
    }
}

/// The settings once the character at `idx` is in the cycle or not.
pub open spec fn with_in_cycle(c: ConfigModel, idx: int, in_cycle: bool) -> ConfigModel {
    ConfigModel {
        characters: c.characters.update(
            idx,
            CharacterModel { name: c.characters[idx].name, in_cycle },
        ),
        ..c
    }
}

/// The settings once two characters changed places.
pub open spec fn swapped(c: ConfigModel, a: int, b: int) -> ConfigModel {
    ConfigModel {
        characters: c.characters.update(a, c.characters[b]).update(b, c.characters[a]),
        ..c
    }
}

/// The settings without the character at `idx` and without its hotkey.
pub open spec fn without(c: ConfigModel, idx: int) -> ConfigModel {
    ConfigModel {
        characters: c.characters.remove(idx),
        character_hotkeys: c.character_hotkeys.remove(c.characters[idx].name),
        ..c
    }
}

/// The hotkey of a name; without one, no key and no modifiers.
pub open spec fn hotkey_for(c: ConfigModel, name: Seq<char>) -> CharacterHotkey {
    if c.character_hotkeys.contains_key(name) {
        c.character_hotkeys[name]
    } else {
        CharacterHotkey { vk: 0, ctrl: false, shift: false, alt: false }
    }
}

/// The panel once the modifiers of a character's hotkey were chosen. The main
/// key stays.
pub open spec fn after_modifiers(
    m: PanelModel,
    name: Seq<char>,
    ctrl: bool,
    shift: bool,
    alt: bool,
    now: u128,
) -> PanelModel {
    let current = hotkey_for(m.config, name);
    let next = CharacterHotkey { vk: current.vk, ctrl, shift, alt };
    if next == current {
        m
    } else {
        edited(
            m,
            ConfigModel {
                character_hotkeys: m.config.character_hotkeys.insert(name, next),
                ..m.config
            },
            now,
        )
    }
}

/// The panel once the typed character was added: white space around the name
/// goes, and a name of nothing else is not added.
pub open spec fn after_add(m: PanelModel, now: u128) -> PanelModel {
    if trimmed(m.buffer).len() == 0 {
        m
    } else {
        PanelModel {
            buffer: Seq::empty(),
            ..edited(
                m,
                ConfigModel {
                    characters: m.config.characters.push(
                        CharacterModel { name: trimmed(m.buffer), in_cycle: true },
                    ),
                    ..m.config
                },
                now,
            )
        }
    }
}

/// Edits of the list of characters.
impl ConfigPanel {
    /// Gives the character at `idx` another name.
    pub fn rename_character(&mut self, idx: usize, name: String, now: u128)
        requires
            idx < old(self).config.characters@.len(),
        ensures
            final(self)@ == if name@ == old(self)@.config.characters[idx as int].name {
                old(self)@
            } else {
                edited(old(self)@, renamed(old(self)@.config, idx as int, name@), now)
            },
    {
        let ghost before = self@.config;
        let old_name: String = self.config.characters[idx].name.clone();
        if old_name == name {
            return;
        }
        let shared: bool = self.name_is_shared(idx);
        if !shared && !self.config.character_hotkeys.contains_key(name.as_str()) {
            let moved: Option<CharacterHotkey> = self.config.character_hotkeys.remove(
                old_name.as_str(),
            );
            if let Some(hotkey) = moved {
                self.config.character_hotkeys.insert(name.clone(), hotkey);
            } else {
                assert(self@.config.character_hotkeys =~= before.character_hotkeys);
            }
        }
        let in_cycle: bool = self.config.characters[idx].in_cycle;
        let ghost list = self.config.characters@;
        self.config.characters.set(idx, CharacterEntry { name, in_cycle });
        self.touch(now);
        assert(roster(self.config.characters@) =~= roster(list).update(
            idx as int,
            CharacterModel { name: name@, in_cycle },
        ));
        assert(self@.config =~= renamed(before, idx as int, name@));
    }

    /// Whether another character has the name of the one at `idx`.
    fn name_is_shared(&self, idx: usize) -> (r: bool)
        requires
            idx < self.config.characters@.len(),
        ensures
            r == !only_bearer(
                self@.config.characters,
                idx as int,
                self@.config.characters[idx as int].name,
            ),
    {
        let mut j: usize = 0;
        while j < self.config.characters.len()
            invariant
                idx < self.config.characters@.len(),
                j <= self.config.characters@.len(),
                forall|k: int|
                    0 <= k < j && k != idx ==> (#[trigger] self@.config.characters[k]).name
                        != self@.config.characters[idx as int].name,
            decreases self.config.characters@.len() - j,
        {
            if j != idx && self.config.characters[j].name == self.config.characters[idx].name {
                assert(self@.config.characters[j as int].name
                    == self@.config.characters[idx as int].name);
                return true;
            }
            j = j + 1;
        }
        false
    }

    /// Puts the character at `idx` into the cycle or takes it out.
    pub fn set_in_cycle(&mut self, idx: usize, in_cycle: bool, now: u128)
        requires
            idx < old(self).config.characters@.len(),
        ensures
            final(self)@ == if in_cycle == old(self)@.config.characters[idx as int].in_cycle {
                old(self)@
            } else {
                edited(old(self)@, with_in_cycle(old(self)@.config, idx as int, in_cycle), now)
            },
    {
        if in_cycle != self.config.characters[idx].in_cycle {
            let ghost before = self@.config;
            let ghost list = self.config.characters@;
            let name: String = self.config.characters[idx].name.clone();
            self.config.characters.set(idx, CharacterEntry { name, in_cycle });
            self.touch(now);
            assert(roster(self.config.characters@) =~= roster(list).update(
                idx as int,
                CharacterModel { name: name@, in_cycle },
            ));
            assert(self@.config =~= with_in_cycle(before, idx as int, in_cycle));
        }
    }

    /// Lets two characters change places, where both places exist.
    pub fn swap_characters(&mut self, a: usize, b: usize, now: u128)
        requires
            a < old(self).config.characters@.len(),
        ensures
            final(self)@ == if b < old(self)@.config.characters.len() {
                edited(old(self)@, swapped(old(self)@.config, a as int, b as int), now)
            } else {
                old(self)@
            },
            b < old(self).config.characters@.len() ==> final(self).config.characters@ == old(
                self,
            ).config.characters@.update(a as int, old(self).config.characters@[b as int]).update(
                b as int,
                old(self).config.characters@[a as int],
            ),
    {
        if b < self.config.characters.len() {
            let ghost before = self@.config;
            let ghost list = self.config.characters@;
            let first: CharacterEntry = self.config.characters[a].clone();
            let second: CharacterEntry = self.config.characters[b].clone();
            self.config.characters.set(a, second);
            self.config.characters.set(b, first);
            self.touch(now);
            assert(roster(self.config.characters@) =~= roster(list).update(
                a as int,
                roster(list)[b as int],
            ).update(b as int, roster(list)[a as int]));
            assert(self@.config =~= swapped(before, a as int, b as int));
        }
    }

    /// Takes a character off the list, and its hotkey with it.
    pub fn remove_character(&mut self, idx: usize, now: u128)
        requires
            idx < old(self).config.characters@.len(),
        ensures
            final(self)@ == edited(old(self)@, without(old(self)@.config, idx as int), now),
    {
        let ghost before = self@.config;
        let ghost list = self.config.characters@;
        let removed: CharacterEntry = self.config.characters.remove(idx);
        let _ = self.config.character_hotkeys.remove(removed.name.as_str());
        self.touch(now);
        assert(roster(self.config.characters@) =~= roster(list).remove(idx as int));
        assert(self@.config =~= without(before, idx as int));
    }

    /// Adds the character whose name was typed.
    pub fn add_character(&mut self, now: u128)
        ensures
            final(self)@ == after_add(old(self)@, now),
    {
        let name: String = trim(self.new_character_buffer.as_str());
        if !name.as_str().is_empty() {
            let ghost before = self@;
            let ghost list = self.config.characters@;
            self.config.characters.push(CharacterEntry::new(name));
            self.new_character_buffer = String::new();
            self.touch(now);
            assert(roster(self.config.characters@) =~= roster(list).push(
                CharacterModel { name: name@, in_cycle: true },
            ));
            assert(self@ =~= after_add(before, now));
        }
    }

    /// Chooses the modifiers of a character's hotkey.
    pub fn set_hotkey_modifiers(
        &mut self,
        name: &str,
        ctrl: bool,
        shift: bool,
        alt: bool,
        now: u128,
    )
        ensures
            final(self)@ == after_modifiers(old(self)@, name@, ctrl, shift, alt, now),
    {
        let current: CharacterHotkey = match self.config.character_hotkeys.get(name) {
            Some(hotkey) => *hotkey,
            None => CharacterHotkey { vk: 0, ctrl: false, shift: false, alt: false },
        };
        let next: CharacterHotkey = CharacterHotkey { vk: current.vk, ctrl, shift, alt };
        if next != current {
            self.config.character_hotkeys.insert(name.to_owned(), next);
            self.touch(now);
        }
    }

    /// Takes the hotkey of a character away.
    pub fn clear_hotkey(&mut self, name: &str, now: u128)
        ensures
            final(self)@ == if old(self)@.config.character_hotkeys.contains_key(name@) {
                edited(
                    old(self)@,
                    ConfigModel {
                        character_hotkeys: old(self)@.config.character_hotkeys.remove(name@),
                        ..old(self)@.config
                    },
                    now,
                )
            } else {
                old(self)@
            },
    {
        if self.config.character_hotkeys.contains_key(name) {
            let _ = self.config.character_hotkeys.remove(name);
            self.touch(now);
        }
    }

    /// The name of a character's hotkey on its button. Modifiers alone are no
    /// hotkey yet.
    pub fn hotkey_text(&self, name: &str) -> (r: String)
        ensures
            r@ == if hotkey_for(self@.config, name@).vk != 0 {
                combination(hotkey_for(self@.config, name@))
            } else {
                "none"@
            },
    {
        match self.config.character_hotkeys.get(name) {
            Some(hotkey) => {
                if hotkey.vk != 0 {
                    hotkey_label(hotkey)
                } else {
                    "none".to_owned()
                }
            },
            None => "none".to_owned(),
        }
    }
}

/// While edits follow each other closely nothing is written, and after the time
/// that is asked for the settings are written unless there was another edit.
pub proof fn law_edits_are_written_once_they_rest(then: u128, now: u128)
    requires
        then <= now,
        then + AUTOSAVE_DEBOUNCE <= u128::MAX,
    ensures
        autosave_at(Some(then), now) == Autosave::Save <==> now >= then + AUTOSAVE_DEBOUNCE,
        autosave_at(Some(then), now) matches Autosave::Wait(rest) ==> now + rest <= u128::MAX
            && autosave_at(Some(then), (now + rest) as u128) == Autosave::Save,
{
}

/// What the previews go by is what the panel shows: at the start, and after
/// every edit if it was so before.
pub proof fn law_previews_follow_the_panel(
    m: PanelModel,
    config: ConfigModel,
    mode: DisplayMode,
    locked: bool,
    width: u32,
    height: u32,
    now: u128,
)
    requires
        in_step(m),
        live_part(config) == live_part(m.config),
    ensures
        in_step(after_display_mode(m, mode, now)),
        in_step(after_lock(m, locked, now)),
        in_step(after_preview_size(m, width, height, now)),
        in_step(edited(m, config, now)),
        in_step(put(m, config, now)),
{
}

/// Captures, the list of characters and their hotkeys leave alone what the
/// previews go by.
pub proof fn law_bindings_leave_previews_alone(
    m: PanelModel,
    caught: Option<CapturedKey>,
    escape: bool,
    target: TargetModel,
    idx: int,
    other: int,
    name: Seq<char>,
    flag: bool,
    now: u128,
)
    requires
        in_step(m),
    ensures
        in_step(after_capture(m, caught, escape, now)),
        in_step(after_settling(m)),
        in_step(after_toggle(m, target)),
        in_step(after_modifiers(m, name, flag, flag, flag, now)),
        in_step(after_add(m, now)),
        live_part(renamed(m.config, idx, name)) == m.live,
        live_part(with_in_cycle(m.config, idx, flag)) == m.live,
        live_part(swapped(m.config, idx, other)) == m.live,
        live_part(without(m.config, idx)) == m.live,
{
}

/// A key that is down when a capture begins binds nothing: the first look at
/// the keyboard only remembers it, and a later look does not catch it while
/// it stays down.
pub proof fn law_held_keys_bind_nothing(
    m: PanelModel,
    target: TargetModel,
    raw: Seq<i16>,
    caught: Option<CapturedKey>,
    now: u128,
)
    requires
        m.capturing is None,
        raw.len() == 256,
        poll_catches(after_toggle(m, target), raw, caught),
    ensures
        after_capture(polled(after_toggle(m, target), raw), caught, false, now) == polled(
            after_toggle(m, target),
            raw,
        ),
        forall|later: Option<CapturedKey>| #[trigger]
            poll_catches(polled(after_toggle(m, target), raw), raw, later) ==> later is None,
{
    assert forall|later: Option<CapturedKey>| #[trigger]
        poll_catches(polled(after_toggle(m, target), raw), raw, later) implies later is None by {
        if let Some(key) = later {
            law_still_keys_are_quiet(raw, later);
        }
    }
}

/// A binding that wants a modifier keeps waiting when a main key is pressed,
/// and the others keep waiting when a modifier is pressed.
pub proof fn law_captures_wait_for_their_kind(
    m: PanelModel,
    main: CapturedKey,
    modifier: CapturedKey,
    now: u128,
)
    requires
        m.capturing is Some,
        main is Main,
        modifier is Modifier,
    ensures
        m.capturing->0 is ModifierKey ==> after_key(m, Some(main), now) == m,
        !(m.capturing->0 is ModifierKey) ==> after_key(m, Some(modifier), now) == m,
{
}

/// Escape ends a capture without a binding.
pub proof fn law_escape_binds_nothing(m: PanelModel, now: u128)
    ensures
        after_capture(m, None, true, now) == (PanelModel { capturing: None, ..m }),
{
}

/// A second click on the button of a binding takes the first one back.
pub proof fn law_second_click_cancels(m: PanelModel, target: TargetModel)
    requires
        m.capturing is None,
    ensures
        after_toggle(after_toggle(m, target), target).capturing is None,
        after_toggle(after_toggle(m, target), target).config == m.config,
{
}

/// Hotkeys go by name: putting the list in another order changes none of
/// them, and putting it back gives the settings as they were.
pub proof fn law_hotkeys_survive_reordering(c: ConfigModel, a: int, b: int)
    requires
        0 <= a < c.characters.len(),
        0 <= b < c.characters.len(),
    ensures
        swapped(c, a, b).character_hotkeys == c.character_hotkeys,
        swapped(swapped(c, a, b), a, b) == c,
{
    assert(swapped(swapped(c, a, b), a, b) =~= c);
}

/// A hotkey goes with its character to a new name that has none, as long as
/// no other character keeps the old name.
pub proof fn law_hotkey_follows_rename(c: ConfigModel, idx: int, name: Seq<char>)
    requires
        0 <= idx < c.characters.len(),
        only_bearer(c.characters, idx, c.characters[idx].name),
        !c.character_hotkeys.contains_key(name),
    ensures
        hotkey_for(renamed(c, idx, name), name) == hotkey_for(c, c.characters[idx].name),
{
}

/// Removing a character leaves the hotkeys of all other names.
pub proof fn law_removal_keeps_other_hotkeys(c: ConfigModel, idx: int, name: Seq<char>)
    requires
        0 <= idx < c.characters.len(),
        name != c.characters[idx].name,
    ensures
        hotkey_for(without(c, idx), name) == hotkey_for(c, name),
        hotkey_for(without(c, idx), c.characters[idx].name).vk == 0,
{
}

/// Two characters that change places do so as they are, with name and place in
/// the cycle. Every other entry and every other setting stays.
pub proof fn law_characters_change_places_whole(c: ConfigModel, a: int, b: int, i: int)
    requires
        0 <= a < c.characters.len(),
        0 <= b < c.characters.len(),
        0 <= i < c.characters.len(),
    ensures
        swapped(c, a, b).characters.len() == c.characters.len(),
        swapped(c, a, b).characters[a].name == c.characters[b].name,
        swapped(c, a, b).characters[a].in_cycle == c.characters[b].in_cycle,
        swapped(c, a, b).characters[b].name == c.characters[a].name,
        swapped(c, a, b).characters[b].in_cycle == c.characters[a].in_cycle,
        i != a && i != b ==> swapped(c, a, b).characters[i] == c.characters[i],
        swapped(c, a, b) == (ConfigModel { characters: swapped(c, a, b).characters, ..c }),
{
}

/// A new name goes to the one character that is renamed. The order, the other
/// characters and who is in the cycle stay.
pub proof fn law_renaming_changes_one_name(c: ConfigModel, idx: int, name: Seq<char>, i: int)
    requires
        0 <= idx < c.characters.len(),
        0 <= i < c.characters.len(),
    ensures
        renamed(c, idx, name).characters.len() == c.characters.len(),
        renamed(c, idx, name).characters[idx].name == name,
        renamed(c, idx, name).characters[i].in_cycle == c.characters[i].in_cycle,
        i != idx ==> renamed(c, idx, name).characters[i].name == c.characters[i].name,
        renamed(c, idx, name) == (ConfigModel {
            characters: renamed(c, idx, name).characters,
            character_hotkeys: renamed(c, idx, name).character_hotkeys,
            ..c
        }),
{
}

/// A renamed character takes its hotkey along and leaves none behind, if it
/// alone had the old name and nobody has a hotkey under the new one. Otherwise
/// all hotkeys stay as they are.
pub proof fn law_renaming_moves_at_most_one_hotkey(
    c: ConfigModel,
    idx: int,
    name: Seq<char>,
    other: Seq<char>,
)
    requires
        0 <= idx < c.characters.len(),
        name != c.characters[idx].name,
    ensures
        other != name && other != c.characters[idx].name ==> (renamed(
            c,
            idx,
            name,
        ).character_hotkeys.contains_key(other) == c.character_hotkeys.contains_key(other) && (
        c.character_hotkeys.contains_key(other) ==> renamed(c, idx, name).character_hotkeys[other]
            == c.character_hotkeys[other])),
        c.character_hotkeys.contains_key(name) ==> renamed(c, idx, name).character_hotkeys
            == c.character_hotkeys,
        (exists|j: int|
            0 <= j < c.characters.len() && j != idx && (#[trigger] c.characters[j]).name
                == c.characters[idx].name) ==> renamed(c, idx, name).character_hotkeys
            == c.character_hotkeys,
        !c.character_hotkeys.contains_key(c.characters[idx].name) ==> renamed(
            c,
            idx,
            name,
        ).character_hotkeys == c.character_hotkeys,
        (forall|j: int|
            0 <= j < c.characters.len() && j != idx ==> (#[trigger] c.characters[j]).name
                != c.characters[idx].name) && !c.character_hotkeys.contains_key(name)
            && c.character_hotkeys.contains_key(c.characters[idx].name) ==> renamed(
            c,
            idx,
            name,
        ).character_hotkeys.contains_key(name) && renamed(c, idx, name).character_hotkeys[name]
            == c.character_hotkeys[c.characters[idx].name] && !renamed(
            c,
            idx,
            name,
        ).character_hotkeys.contains_key(c.characters[idx].name),
{
}

/// Putting a character into the cycle or taking it out changes that one flag.
pub proof fn law_the_cycle_changes_by_one_flag(c: ConfigModel, idx: int, in_cycle: bool, i: int)
    requires
        0 <= idx < c.characters.len(),
        0 <= i < c.characters.len(),
    ensures
        with_in_cycle(c, idx, in_cycle).characters.len() == c.characters.len(),
        with_in_cycle(c, idx, in_cycle).characters[i].name == c.characters[i].name,
        with_in_cycle(c, idx, in_cycle).characters[idx].in_cycle == in_cycle,
        i != idx ==> with_in_cycle(c, idx, in_cycle).characters[i].in_cycle
            == c.characters[i].in_cycle,
        with_in_cycle(c, idx, in_cycle) == (ConfigModel {
            characters: with_in_cycle(c, idx, in_cycle).characters,
            ..c
        }),
{
}

/// Removing a character closes the gap: those before it keep their place and
/// those behind it move up by one. The hotkey of its name goes and no other.
pub proof fn law_removal_closes_the_gap(c: ConfigModel, idx: int, i: int, other: Seq<char>)
    requires
        0 <= idx < c.characters.len(),
        0 <= i < c.characters.len(),
    ensures
        without(c, idx).characters.len() == c.characters.len() - 1,
        i < idx ==> without(c, idx).characters[i] == c.characters[i],
        i > idx ==> without(c, idx).characters[i - 1] == c.characters[i],
        !without(c, idx).character_hotkeys.contains_key(c.characters[idx].name),
        other != c.characters[idx].name ==> (without(c, idx).character_hotkeys.contains_key(other)
            == c.character_hotkeys.contains_key(other)),
        other != c.characters[idx].name && c.character_hotkeys.contains_key(other) ==> without(
            c,
            idx,
        ).character_hotkeys[other] == c.character_hotkeys[other],
        without(c, idx) == (ConfigModel {
            characters: without(c, idx).characters,
            character_hotkeys: without(c, idx).character_hotkeys,
            ..c
        }),
{
}

/// A typed name goes to the end of the list without the white space around it,
/// in the cycle, and the field is empty again. White space alone adds nobody.
pub proof fn law_added_characters_come_last(m: PanelModel, now: u128, i: int)
    requires
        0 <= i < m.config.characters.len(),
    ensures
        trimmed(m.buffer).len() == 0 ==> after_add(m, now) == m,
        trimmed(m.buffer).len() > 0 ==> after_add(m, now).config.characters.len()
            == m.config.characters.len() + 1 && after_add(m, now).config.characters[i]
            == m.config.characters[i],
        trimmed(m.buffer).len() > 0 ==> after_add(m, now).config.characters.last().name == trimmed(
            m.buffer,
        ) && after_add(m, now).config.characters.last().in_cycle,
        trimmed(m.buffer).len() > 0 ==> after_add(m, now).buffer.len() == 0 && after_add(
            m,
            now,
        ).last_change == Some(now),
        after_add(m, now).config == (ConfigModel {
            characters: after_add(m, now).config.characters,
            ..m.config
        }),
        after_add(m, now) == (PanelModel {
            config: after_add(m, now).config,
            buffer: after_add(m, now).buffer,
            last_change: after_add(m, now).last_change,
            ..m
        }),
{
}

/// The first character that is typed becomes the whole list.
pub proof fn law_the_first_added_character(m: PanelModel, now: u128)
    requires
        m.config.characters.len() == 0,
        trimmed(m.buffer).len() > 0,
    ensures
        after_add(m, now).config.characters.len() == 1,
        after_add(m, now).config.characters[0].name == trimmed(m.buffer),
        after_add(m, now).config.characters[0].in_cycle,
{
}

/// The modifiers that are chosen become those of the hotkey of that name, and
/// its main key stays. Nothing else changes, and nothing at all if they are
/// those it has.
pub proof fn law_chosen_modifiers_are_taken(
    m: PanelModel,
    name: Seq<char>,
    other: Seq<char>,
    ctrl: bool,
    shift: bool,
    alt: bool,
    now: u128,
)
    ensures
        hotkey_for(after_modifiers(m, name, ctrl, shift, alt, now).config, name).ctrl == ctrl,
        hotkey_for(after_modifiers(m, name, ctrl, shift, alt, now).config, name).shift == shift,
        hotkey_for(after_modifiers(m, name, ctrl, shift, alt, now).config, name).alt == alt,
        hotkey_for(after_modifiers(m, name, ctrl, shift, alt, now).config, name).vk == hotkey_for(
            m.config,
            name,
        ).vk,
        other != name ==> hotkey_for(after_modifiers(m, name, ctrl, shift, alt, now).config, other)
            == hotkey_for(m.config, other),
        hotkey_for(m.config, name).ctrl == ctrl && hotkey_for(m.config, name).shift == shift
            && hotkey_for(m.config, name).alt == alt ==> after_modifiers(
            m,
            name,
            ctrl,
            shift,
            alt,
            now,
        ) == m,
        hotkey_for(m.config, name).ctrl != ctrl || hotkey_for(m.config, name).shift != shift
            || hotkey_for(m.config, name).alt != alt ==> after_modifiers(
            m,
            name,
            ctrl,
            shift,
            alt,
            now,
        ).last_change == Some(now),
        after_modifiers(m, name, ctrl, shift, alt, now) == (PanelModel {
            config: ConfigModel {
                character_hotkeys: after_modifiers(
                    m,
                    name,
                    ctrl,
                    shift,
                    alt,
                    now,
                ).config.character_hotkeys,
                ..m.config
            },
            last_change: after_modifiers(m, name, ctrl, shift, alt, now).last_change,
            ..m
        }),
{
}

/// The hotkey of a name is the one in the table; a name that is not there has
/// neither key nor modifiers.
pub proof fn law_hotkeys_are_found_by_name(c: ConfigModel, name: Seq<char>)
    ensures
        c.character_hotkeys.contains_key(name) ==> hotkey_for(c, name)
            == c.character_hotkeys[name],
        !c.character_hotkeys.contains_key(name) ==> hotkey_for(c, name).vk == 0 && !hotkey_for(
            c,
            name,
        ).ctrl && !hotkey_for(c, name).shift && !hotkey_for(c, name).alt,
{
}

/// A main key that is caught becomes the key of the binding that waits: of
/// cycling forward, of cycling backward, or of one character with the held
/// modifiers. The capture is over and the settings count as edited.
pub proof fn law_a_main_key_goes_to_its_binding(
    m: PanelModel,
    vk: u16,
    ctrl: bool,
    shift: bool,
    alt: bool,
    now: u128,
    other: Seq<char>,
)
    ensures
        m.capturing == Some(TargetModel::ForwardKey) ==> after_key(
            m,
            Some(CapturedKey::Main { vk, ctrl, shift, alt }),
            now,
        ) == (PanelModel {
            config: ConfigModel { forward_key: vk, ..m.config },
            capturing: None,
            last_change: Some(now),
            ..m
        }),
        m.capturing == Some(TargetModel::BackwardKey) ==> after_key(
            m,
            Some(CapturedKey::Main { vk, ctrl, shift, alt }),
            now,
        ) == (PanelModel {
            config: ConfigModel { backward_key: vk, ..m.config },
            capturing: None,
            last_change: Some(now),
            ..m
        }),
        m.capturing matches Some(TargetModel::Character(name)) ==> {
            let after = after_key(m, Some(CapturedKey::Main { vk, ctrl, shift, alt }), now);
            &&& after.capturing is None
            &&& after.last_change == Some(now)
            &&& after.config.character_hotkeys.contains_key(name)
            &&& after.config.character_hotkeys[name] == CharacterHotkey { vk, ctrl, shift, alt }
            &&& other != name ==> (after.config.character_hotkeys.contains_key(other)
                == m.config.character_hotkeys.contains_key(other))
            &&& other != name && m.config.character_hotkeys.contains_key(other)
                ==> after.config.character_hotkeys[other] == m.config.character_hotkeys[other]
            &&& after == (PanelModel {
                config: ConfigModel {
                    character_hotkeys: after.config.character_hotkeys,
                    ..m.config
                },
                capturing: None,
                last_change: Some(now),
                ..m
            })
        },
{
}

/// A modifier that is caught becomes the extra key of cycling backward, if that
/// is what waits.
pub proof fn law_a_modifier_goes_to_its_binding(m: PanelModel, vk: u16, now: u128)
    requires
        m.capturing == Some(TargetModel::ModifierKey),
    ensures
        after_key(m, Some(CapturedKey::Modifier(vk)), now) == (PanelModel {
            config: ConfigModel { modifier_key: Some(vk), ..m.config },
            capturing: None,
            last_change: Some(now),
            ..m
        }),
{
}

/// Without a caught key or without a waiting binding nothing is bound.
pub proof fn law_nothing_is_bound_unasked(
    m: PanelModel,
    caught: Option<CapturedKey>,
    escape: bool,
    now: u128,
)
    ensures
        after_key(m, None, now) == m,
        m.capturing is None ==> after_key(m, caught, now) == m && after_capture(
            m,
            caught,
            escape,
            now,
        ) == m,
        after_capture(m, caught, false, now) == after_key(m, caught, now),
        escape ==> after_capture(m, caught, escape, now).capturing is None,
        after_capture(m, caught, escape, now).config == after_key(m, caught, now).config,
        after_capture(m, caught, escape, now).last_change == after_key(m, caught, now).last_change,
{
}

/// The first look of a capture catches nothing, and every later one catches
/// what went down since the look before. A look remembers what is down.
pub proof fn law_looks_go_by_the_look_before(
    m: PanelModel,
    raw: Seq<i16>,
    caught: Option<CapturedKey>,
    vk: int,
)
    requires
        0 <= vk < 256,
        poll_catches(m, raw, caught),
    ensures
        !m.primed ==> caught is None,
        m.primed ==> catches(m.prev, raw, caught),
        polled(m, raw).primed,
        polled(m, raw).prev.len() == 256,
        polled(m, raw).prev[vk] == (raw[vk] < 0),
        polled(m, raw) == (PanelModel { prev: polled(m, raw).prev, primed: true, ..m }),
{
}

/// A capture that began pauses the hotkeys and forgets what was down. One that
/// ended lets them go on, after the settings are written if they were edited.
pub proof fn law_captures_begin_and_end_once(m: PanelModel, vk: int)
    requires
        0 <= vk < 256,
    ensures
        capture_edge(m) == CaptureEdge::Began <==> m.last_capturing is None && m.capturing is Some,
        capture_edge(m) == (CaptureEdge::Ended { save: true }) <==> m.last_capturing is Some
            && m.capturing is None && m.last_change is Some,
        capture_edge(m) == (CaptureEdge::Ended { save: false }) <==> m.last_capturing is Some
            && m.capturing is None && m.last_change is None,
        after_settling(m).last_capturing == m.capturing,
        capture_edge(after_settling(m)) == CaptureEdge::Still,
        m.last_capturing is Some && m.capturing is None ==> after_settling(m) == (PanelModel {
            last_capturing: None,
            last_change: None,
            ..m
        }),
        m.last_capturing is None && m.capturing is Some ==> after_settling(m).prev.len() == 256
            && !after_settling(m).prev[vk] && after_settling(m) == (PanelModel {
            last_capturing: m.capturing,
            prev: after_settling(m).prev,
            primed: false,
            ..m
        }),
        (m.last_capturing is None) == (m.capturing is None) ==> after_settling(m) == (PanelModel {
            last_capturing: m.capturing,
            ..m
        }),
{
}

/// A click on the button of a binding makes that binding wait, or stops it if
/// it waited; only a capture that begins forgets what was down.
pub proof fn law_clicks_choose_what_waits(m: PanelModel, target: TargetModel, vk: int)
    requires
        0 <= vk < 256,
    ensures
        m.capturing == Some(target) ==> after_toggle(m, target) == (PanelModel {
            capturing: None,
            ..m
        }),
        m.capturing is Some && m.capturing != Some(target) ==> after_toggle(m, target) == (
        PanelModel { capturing: Some(target), ..m }),
        m.capturing is None ==> after_toggle(m, target).prev.len() == 256 && !after_toggle(
            m,
            target,
        ).prev[vk] && after_toggle(m, target) == (PanelModel {
            capturing: Some(target),
            prev: after_toggle(m, target).prev,
            primed: false,
            ..m
        }),
{
}

/// A setting that is put to the value it has is no edit. Any other value is
/// taken, and the settings count as edited at that time.
pub proof fn law_only_changes_are_edits(m: PanelModel, config: ConfigModel, now: u128)
    ensures
        edited(m, config, now).config == config,
        edited(m, config, now).last_change == Some(now),
        edited(m, config, now) == (PanelModel { config, last_change: Some(now), ..m }),
        bound(m, config, now) == (PanelModel {
            config,
            last_change: Some(now),
            capturing: None,
            ..m
        }),
        put(m, config, now).config == config,
        config == m.config ==> put(m, config, now).last_change == m.last_change,
        config != m.config ==> put(m, config, now).last_change == Some(now),
        put(m, config, now) == (PanelModel {
            config,
            last_change: put(m, config, now).last_change,
            ..m
        }),
{
}

/// The chosen way to show clients, lock and size of previews are set and take
/// effect at once, each without touching the others; what is set already is no
/// edit.
pub proof fn law_live_edits_take_effect(
    m: PanelModel,
    mode: DisplayMode,
    locked: bool,
    width: u32,
    height: u32,
    now: u128,
)
    ensures
        mode != m.config.display_mode ==> after_display_mode(m, mode, now) == (PanelModel {
            config: ConfigModel { display_mode: mode, ..m.config },
            live: LiveSettings { display_mode: mode, ..m.live },
            last_change: Some(now),
            ..m
        }),
        mode == m.config.display_mode ==> after_display_mode(m, mode, now) == m,
        locked != m.config.positions_locked ==> after_lock(m, locked, now) == (PanelModel {
            config: ConfigModel { positions_locked: locked, ..m.config },
            live: LiveSettings { positions_locked: locked, ..m.live },
            last_change: Some(now),
            ..m
        }),
        locked == m.config.positions_locked ==> after_lock(m, locked, now) == m,
        width != m.config.preview_width || height != m.config.preview_height
            ==> after_preview_size(m, width, height, now) == (PanelModel {
            config: ConfigModel { preview_width: width, preview_height: height, ..m.config },
            live: LiveSettings { preview_width: width, preview_height: height, ..m.live },
            last_change: Some(now),
            ..m
        }),
        width == m.config.preview_width && height == m.config.preview_height
            ==> after_preview_size(m, width, height, now) == m,
{
}

/// Settings are written when 300 milliseconds went by since the last edit, and
/// not before. A clock that stands before the edit counts as no time at all.
pub proof fn law_settings_rest_before_they_are_written(then: u128, now: u128)
    ensures
        autosave_at(None, now) == Autosave::Idle,
        now - then >= 300_000_000 ==> autosave_at(Some(then), now) == Autosave::Save,
        0 <= now - then < 300_000_000 ==> (autosave_at(Some(then), now) matches Autosave::Wait(
            rest,
        ) && rest == 300_000_000 - (now - then)),
        now < then ==> autosave_at(Some(then), now) == Autosave::Wait(300_000_000),
{
}

/// The model of the panel shows each of its parts as it is.
pub proof fn law_the_model_shows_the_panel(panel: ConfigPanel)
    ensures
        panel@.config == panel.config@,
        panel@.buffer == panel.new_character_buffer@,
        panel@.live == panel.live,
        panel@.prev == panel.capture_buf.prev@,
        panel@.primed == panel.capture_buf.primed,
        panel@.last_change == panel.last_change,
        panel.capturing is None <==> panel@.capturing is None,
        panel.last_capturing is None <==> panel@.last_capturing is None,
        panel.capturing == Some(CaptureTarget::ForwardKey) ==> panel@.capturing == Some(
            TargetModel::ForwardKey,
        ),
        panel.capturing == Some(CaptureTarget::BackwardKey) ==> panel@.capturing == Some(
            TargetModel::BackwardKey,
        ),
        panel.capturing == Some(CaptureTarget::ModifierKey) ==> panel@.capturing == Some(
            TargetModel::ModifierKey,
        ),
        panel.capturing matches Some(CaptureTarget::Character(name)) ==> panel@.capturing == Some(
            TargetModel::Character(name@),
        ),
        panel.last_capturing == panel.capturing ==> panel@.last_capturing == panel@.capturing,
{
}

/// A panel is in step when the previews go by its size, mode and lock.
pub proof fn law_in_step_means_the_same_settings(m: PanelModel)
    ensures
        in_step(m) <==> m.live.preview_width == m.config.preview_width && m.live.preview_height
            == m.config.preview_height && m.live.display_mode == m.config.display_mode
            && m.live.positions_locked == m.config.positions_locked,
{
}

} // verus!
