//! The settings of the tool: what they are, what they are by default, and how
//! they are kept on disk.

use std::path::PathBuf;
use vstd::prelude::*;

use crate::keys::{modifier, modifier_of, Modifier};
use crate::name_map::NameMap;
use crate::paths::{
    components, config_dir_in, config_dir_of, config_path_in, config_path_of, user_config_dir,
};

verus! {

/// A key that jumps to one character, with the modifiers that must be held. A
/// code of zero means that no key is chosen yet.
#[derive(Debug, Clone, Copy, PartialEq, Eq, Structural)]
pub struct CharacterHotkey {
    pub vk: u16,
    pub ctrl: bool,
    pub shift: bool,
    pub alt: bool,
}

/// A hotkey as it stands in a file. Older files name one modifier by its code
/// in `modifier`.
#[derive(Debug, Clone, Copy, PartialEq, Eq, Structural)]
pub struct RawHotkey {
    pub vk: u16,
    pub ctrl: bool,
    pub shift: bool,
    pub alt: bool,
    pub modifier: Option<u16>,
}

/// The file names the modifier, by its flag or by the older code.
pub open spec fn asks_for(raw: RawHotkey, flag: bool, m: Modifier) -> bool {
    flag || (raw.modifier is Some && modifier_of(raw.modifier->0) == Some(m))
}

/// The hotkey that an entry of a file describes. A code in `modifier` that is
/// no modifier counts for nothing.
pub open spec fn hotkey_of(raw: RawHotkey) -> CharacterHotkey {
    CharacterHotkey {
        vk: raw.vk,
        ctrl: asks_for(raw, raw.ctrl, Modifier::Ctrl),
        shift: asks_for(raw, raw.shift, Modifier::Shift),
        alt: asks_for(raw, raw.alt, Modifier::Alt),
    }
}

impl CharacterHotkey {
    /// The hotkey that an entry of a file describes.
    pub fn from_raw(raw: RawHotkey) -> (r: Self)
        ensures
            r == hotkey_of(raw),
    {
        let mut r: CharacterHotkey = CharacterHotkey {
            vk: raw.vk,
            ctrl: raw.ctrl,
            shift: raw.shift,
            alt: raw.alt,
        };
        if let Some(code) = raw.modifier {
            match modifier(code) {
                Some(Modifier::Shift) => {
                    r.shift = true;
                },
                Some(Modifier::Ctrl) => {
                    r.ctrl = true;
                },
                Some(Modifier::Alt) => {
                    r.alt = true;
                },
                None => {},
            }
        }
        r
    }

    /// The entry of a file for a hotkey.
    pub fn to_raw(&self) -> (r: RawHotkey)
        ensures
            hotkey_of(r) == *self,
            r.modifier is None,
    {
        RawHotkey {
            vk: self.vk,
            ctrl: self.ctrl,
            shift: self.shift,
            alt: self.alt,
            modifier: None,
        }
    }
}

/// One character of the cycle list. With `in_cycle` off it keeps its place
/// and its hotkey and is shown, but cycling steps over it.
#[derive(Debug, PartialEq, Eq)]
pub struct CharacterEntry {
    pub name: String,
    pub in_cycle: bool,
}

/// A character of the cycle list, by what its name says.
pub struct CharacterModel {
    pub name: Seq<char>,
    pub in_cycle: bool,
}

impl View for CharacterEntry {
    type V = CharacterModel;

    open spec fn view(&self) -> CharacterModel {
        CharacterModel { name: self.name@, in_cycle: self.in_cycle }
    }
}

/// A list of characters, by what their names say.
pub open spec fn roster(list: Seq<CharacterEntry>) -> Seq<CharacterModel> {
    Seq::new(list.len(), |i: int| list[i]@)
}

impl CharacterEntry {
    /// A character that takes part in cycling.
    pub fn new(name: String) -> (r: Self)
        ensures
            r.name == name,
            r.in_cycle,
    {
        CharacterEntry { name, in_cycle: default_true() }
    }
}

impl Clone for CharacterEntry {
    fn clone(&self) -> (r: Self)
        ensures
            r == *self,
    {
        CharacterEntry { name: self.name.clone(), in_cycle: self.in_cycle }
    }
}

/// A character as it stands in a file: a bare name, or a name and perhaps
/// whether it takes part in cycling.
#[derive(Debug)]
pub enum RawCharacter {
    Name(String),
    Entry { name: String, in_cycle: Option<bool> },
}

/// The character that an entry of a file describes. It takes part in cycling
/// unless the entry says otherwise.
pub open spec fn character_of(raw: RawCharacter) -> CharacterModel {
    match raw {
        RawCharacter::Name(name) => CharacterModel { name: name@, in_cycle: true },
        RawCharacter::Entry { name, in_cycle } => CharacterModel {
            name: name@,
            in_cycle: match in_cycle {
                Some(b) => b,
                None => true,
            },
        },
    }
}

/// The characters that the entries of a file describe, in their order.
pub open spec fn characters_of(raw: Seq<RawCharacter>) -> Seq<CharacterModel> {
    Seq::new(raw.len(), |i: int| character_of(raw[i]))
}

/// The characters that the entries of a file describe. Bare names and full
/// entries may be mixed.
pub fn characters_from_raw(raw: Vec<RawCharacter>) -> (r: Vec<CharacterEntry>)
    ensures
        roster(r@) == characters_of(raw@),
{
    let mut out: Vec<CharacterEntry> = Vec::new();
    for el in it: raw
        invariant
            it.seq() == raw@,
            roster(out@) == characters_of(raw@).take(it.index() as int),
    {
        let entry: CharacterEntry = match el {
            RawCharacter::Name(name) => CharacterEntry::new(name),
            RawCharacter::Entry { name, in_cycle } => CharacterEntry {
                name,
                in_cycle: match in_cycle {
                    Some(b) => b,
                    None => default_true(),
                },
            },
        };
        let ghost before = out@;
        out.push(entry);
        assert(roster(out@) =~= roster(before).push(character_of(el)));
        assert(characters_of(raw@).take(it.index() + 1) =~= characters_of(raw@).take(
            it.index() as int,
        ).push(character_of(el)));
    }
    assert(characters_of(raw@).take(raw@.len() as int) =~= characters_of(raw@));
    out
}

/// How the running clients are shown.
#[derive(Debug, Clone, Copy, PartialEq, Eq, Structural)]
pub enum DisplayMode {
    /// One live thumbnail window for each client.
    Previews,
    /// One window that lists the characters.
    List,
}

/// How the windows of clients are told from others.
#[derive(Debug, Clone, Copy, PartialEq, Eq, Structural)]
pub enum DetectionMode {
    /// By the window title.
    Title,
    /// By the file name of the program.
    Process,
}

/// Where nothing is said, a character takes part in cycling.
pub fn default_true() -> (r: bool)
    ensures
        r,
{
    true
}

/// Mouse side buttons are left alone.
pub fn default_enable_mouse() -> (r: bool)
    ensures
        !r,
{
    false
}

/// The forward side button.
pub fn default_forward_button() -> (r: u16)
    ensures
        r == 2,
{
    2
}

/// The backward side button.
pub fn default_backward_button() -> (r: u16)
    ensures
        r == 1,
{
    1
}

/// Keyboard cycling is on.
pub fn default_enable_keyboard() -> (r: bool)
    ensures
        r,
{
    true
}

/// F11.
pub fn default_forward_key() -> (r: u16)
    ensures
        r == 0x7A,
{
    0x7A
}

/// F10.
pub fn default_backward_key() -> (r: u16)
    ensures
        r == 0x79,
{
    0x79
}

/// Clients that lose the focus stay as they are.
pub fn default_minimize_inactive() -> (r: bool)
    ensures
        !r,
{
    false
}

/// Cycling backward asks for no extra key.
pub fn default_modifier_key() -> (r: Option<u16>)
    ensures
        r is None,
{
    None
}

/// Width of a preview in pixels.
pub fn default_preview_width() -> (r: u32)
    ensures
        r == 320,
{
    320
}

/// Height of a preview in pixels.
pub fn default_preview_height() -> (r: u32)
    ensures
        r == 180,
{
    180
}

/// Previews are shown.
pub fn default_show_previews() -> (r: bool)
    ensures
        r,
{
    true
}

/// Clients are shown as previews.
pub fn default_display_mode() -> (r: DisplayMode)
    ensures
        r == DisplayMode::Previews,
{
    DisplayMode::Previews
}

/// All settings.
#[derive(Debug)]
pub struct Config {
    pub display_width: u32,
    pub display_height: u32,
    pub panel_height: u32,
    pub eve_width: u32,
    pub eve_height: u32,
    pub enable_mouse_buttons: bool,
    pub forward_button: u16,
    pub backward_button: u16,
    pub enable_keyboard_buttons: bool,
    pub forward_key: u16,
    pub backward_key: u16,
    pub minimize_inactive: bool,
    pub modifier_key: Option<u16>,
    /// Width of every preview in pixels.
    pub preview_width: u32,
    /// Height of every preview in pixels.
    pub preview_height: u32,
    /// Without previews, clients are reached by hotkeys and commands only.
    pub show_previews: bool,
    /// The characters in the order in which cycling goes through them. An
    /// empty list leaves the order to the window manager.
    pub characters: Vec<CharacterEntry>,
    pub display_mode: DisplayMode,
    /// Previews and the list cannot be dragged.
    pub positions_locked: bool,
    /// The hotkey of each character, by name.
    pub character_hotkeys: NameMap<CharacterHotkey>,
}

/// All settings, by what their texts and tables hold.
#[verifier::ext_equal]
pub struct ConfigModel {
    pub display_width: u32,
    pub display_height: u32,
    pub panel_height: u32,
    pub eve_width: u32,
    pub eve_height: u32,
    pub enable_mouse_buttons: bool,
    pub forward_button: u16,
    pub backward_button: u16,
    pub enable_keyboard_buttons: bool,
    pub forward_key: u16,
    pub backward_key: u16,
    pub minimize_inactive: bool,
    pub modifier_key: Option<u16>,
    pub preview_width: u32,
    pub preview_height: u32,
    pub show_previews: bool,
    pub characters: Seq<CharacterModel>,
    pub display_mode: DisplayMode,
    pub positions_locked: bool,
    pub character_hotkeys: Map<Seq<char>, CharacterHotkey>,
}

impl View for Config {
    type V = ConfigModel;

    open spec fn view(&self) -> ConfigModel {
        ConfigModel {
            display_width: self.display_width,
            display_height: self.display_height,
            panel_height: self.panel_height,
            eve_width: self.eve_width,
            eve_height: self.eve_height,
            enable_mouse_buttons: self.enable_mouse_buttons,
            forward_button: self.forward_button,
            backward_button: self.backward_button,
            enable_keyboard_buttons: self.enable_keyboard_buttons,
            forward_key: self.forward_key,
            backward_key: self.backward_key,
            minimize_inactive: self.minimize_inactive,
            modifier_key: self.modifier_key,
            preview_width: self.preview_width,
            preview_height: self.preview_height,
            show_previews: self.show_previews,
            characters: roster(self.characters@),
            display_mode: self.display_mode,
            positions_locked: self.positions_locked,
            character_hotkeys: self.character_hotkeys@,
        }
    }
}

/// All settings as they stand in a file: each of them may be missing.
#[derive(Debug)]
pub struct RawConfig {
    pub display_width: Option<u32>,
    pub display_height: Option<u32>,
    pub panel_height: Option<u32>,
    pub eve_width: Option<u32>,
    pub eve_height: Option<u32>,
    pub enable_mouse_buttons: Option<bool>,
    pub forward_button: Option<u16>,
    pub backward_button: Option<u16>,
    pub enable_keyboard_buttons: Option<bool>,
    pub forward_key: Option<u16>,
    pub backward_key: Option<u16>,
    pub minimize_inactive: Option<bool>,
    pub modifier_key: Option<u16>,
    pub preview_width: Option<u32>,
    pub preview_height: Option<u32>,
    pub show_previews: Option<bool>,
    pub characters: Option<Vec<RawCharacter>>,
    pub display_mode: Option<DisplayMode>,
    pub positions_locked: Option<bool>,
    pub character_hotkeys: Option<Vec<(String, RawHotkey)>>,
}

/// A setting that every file must hold.
#[derive(Debug, Clone, Copy, PartialEq, Eq, Structural)]
pub enum Required {
    DisplayWidth,
    DisplayHeight,
    PanelHeight,
    EveWidth,
    EveHeight,
}

/// Why a file holds no configuration.
#[derive(Debug)]
pub enum ConfigError {
    /// The text could not be read as settings; the reason is that of the
    /// reader.
    Malformed(String),
    /// The first setting that is missing.
    Missing(Required),
}

/// A setting from a file, or its default where the file leaves it out.
pub open spec fn setting<T>(stored: Option<T>, default: T) -> T {
    match stored {
        Some(value) => value,
        None => default,
    }
}

/// The hotkeys that the entries of a file describe; a later entry for a name
/// replaces an earlier one.
pub open spec fn hotkeys_of(raw: Seq<(String, RawHotkey)>) -> Map<Seq<char>, CharacterHotkey>
    decreases raw.len(),
{
    if raw.len() == 0 {
        Map::empty()
    } else {
        hotkeys_of(raw.drop_last()).insert(raw.last().0@, hotkey_of(raw.last().1))
    }
}

/// The configuration that the settings of a file describe, if the required
/// ones are there.
pub open spec fn config_of(raw: RawConfig) -> Result<ConfigModel, Required> {
    if raw.display_width is None {
        Err(Required::DisplayWidth)
    } else if raw.display_height is None {
        Err(Required::DisplayHeight)
    } else if raw.panel_height is None {
        Err(Required::PanelHeight)
    } else if raw.eve_width is None {
        Err(Required::EveWidth)
    } else if raw.eve_height is None {
        Err(Required::EveHeight)
    } else {
        Ok(
            ConfigModel {
                display_width: raw.display_width->0,
                display_height: raw.display_height->0,
                panel_height: raw.panel_height->0,
                eve_width: raw.eve_width->0,
                eve_height: raw.eve_height->0,
                enable_mouse_buttons: setting(raw.enable_mouse_buttons, false),
                forward_button: setting(raw.forward_button, 2),
                backward_button: setting(raw.backward_button, 1),
                enable_keyboard_buttons: setting(raw.enable_keyboard_buttons, true),
                forward_key: setting(raw.forward_key, 0x7A),
                backward_key: setting(raw.backward_key, 0x79),
                minimize_inactive: setting(raw.minimize_inactive, false),
                modifier_key: raw.modifier_key,
                preview_width: setting(raw.preview_width, 320),
                preview_height: setting(raw.preview_height, 180),
                show_previews: setting(raw.show_previews, true),
                characters: match raw.characters {
                    Some(list) => characters_of(list@),
                    None => Seq::empty(),
                },
                display_mode: setting(raw.display_mode, DisplayMode::Previews),
                positions_locked: setting(raw.positions_locked, false),
                character_hotkeys: match raw.character_hotkeys {
                    Some(table) => hotkeys_of(table@),
                    None => Map::empty(),
                },
            },
        )
    }
}

/// The width of a client: 54 percent of the display, to the nearest pixel.
pub open spec fn client_width(display_width: u32) -> u32 {
    ((54 * display_width + 50) / 100) as u32
}

/// The settings for a display before anyone changed them.
pub open spec fn default_config(display_width: u32, display_height: u32) -> ConfigModel {
    ConfigModel {
        display_width,
        display_height,
        panel_height: 0,
        eve_width: client_width(display_width),
        eve_height: display_height,
        enable_mouse_buttons: false,
        forward_button: 2,
        backward_button: 1,
        enable_keyboard_buttons: true,
        forward_key: 0x7A,
        backward_key: 0x79,
        minimize_inactive: false,
        modifier_key: None,
        preview_width: 320,
        preview_height: 180,
        show_previews: true,
        characters: Seq::empty(),
        display_mode: DisplayMode::Previews,
        positions_locked: false,
        character_hotkeys: Map::empty(),
    }
}

/// The size of the display from what the system reports; without a report,
/// 1920 by 1080.
pub open spec fn display_size(width: i32, height: i32) -> (u32, u32) {
    if width > 0 && height > 0 {
        (width as u32, height as u32)
    } else {
        (1920, 1080)
    }
}

/// Hotkeys from the entries of a file.
fn hotkeys_from_raw(raw: Vec<(String, RawHotkey)>) -> (r: NameMap<CharacterHotkey>)
    ensures
        r@ == hotkeys_of(raw@),
{
    let mut out: NameMap<CharacterHotkey> = NameMap::new();
    assert(raw@.take(0) =~= Seq::empty());
    for el in it: raw
        invariant
            it.seq() == raw@,
            out@ == hotkeys_of(raw@.take(it.index() as int)),
    {
        let (name, hotkey): (String, RawHotkey) = el;
        out.insert(name, CharacterHotkey::from_raw(hotkey));
        assert(raw@.take(it.index() + 1).drop_last() =~= raw@.take(it.index() as int));
    }
    assert(raw@.take(raw@.len() as int) =~= raw@);
    out
}

/// Every setting is written out, in the form that is current.
pub open spec fn complete(raw: RawConfig) -> bool {
    &&& raw.enable_mouse_buttons is Some
    &&& raw.forward_button is Some
    &&& raw.backward_button is Some
    &&& raw.enable_keyboard_buttons is Some
    &&& raw.forward_key is Some
    &&& raw.backward_key is Some
    &&& raw.minimize_inactive is Some
    &&& raw.preview_width is Some
    &&& raw.preview_height is Some
    &&& raw.show_previews is Some
    &&& raw.display_mode is Some
    &&& raw.positions_locked is Some
    &&& raw.characters matches Some(list) && forall|i: int|
        0 <= i < list@.len() ==> ((#[trigger] list@[i]) matches RawCharacter::Entry { in_cycle, .. }
            && in_cycle is Some)
    &&& raw.character_hotkeys matches Some(table) && forall|i: int|
        0 <= i < table@.len() ==> (#[trigger] table@[i]).1.modifier is None
}

/// The entries of a file for a list of characters.
fn characters_to_raw(list: &Vec<CharacterEntry>) -> (r: Vec<RawCharacter>)
    ensures
        characters_of(r@) == roster(list@),
        forall|i: int|
            0 <= i < r@.len() ==> ((#[trigger] r@[i]) matches RawCharacter::Entry { in_cycle, .. }
                && in_cycle is Some),
{
    let mut out: Vec<RawCharacter> = Vec::new();
    let mut i: usize = 0;
    while i < list.len()
        invariant
            i <= list@.len(),
            out@.len() == i,
            forall|j: int|
                0 <= j < i ==> ((#[trigger] out@[j]) matches RawCharacter::Entry { in_cycle, .. }
                    && in_cycle is Some) && character_of(out@[j]) == list@[j]@,
        decreases list@.len() - i,
    {
        out.push(
            RawCharacter::Entry { name: list[i].name.clone(), in_cycle: Some(list[i].in_cycle) },
        );
        i = i + 1;
    }
    assert(characters_of(out@) =~= roster(list@));
    out
}

/// The entries of a file for the hotkeys of characters.
fn hotkeys_to_raw(table: &NameMap<CharacterHotkey>) -> (r: Vec<(String, RawHotkey)>)
    ensures
        hotkeys_of(r@) == table@,
        forall|i: int| 0 <= i < r@.len() ==> (#[trigger] r@[i]).1.modifier is None,
{
    let names: Vec<String> = table.names();
    let mut out: Vec<(String, RawHotkey)> = Vec::new();
    let mut i: usize = 0;
    assert(hotkeys_of(out@) =~= Map::empty());
    while i < names.len()
        invariant
            i <= names@.len(),
            out@.len() == i,
            forall|j: int, k: int|
                0 <= j < names@.len() && 0 <= k < names@.len() && (#[trigger] names@[j])@ == (
                #[trigger] names@[k])@ ==> j == k,
            forall|j: int| 0 <= j < names@.len() ==> table@.contains_key((#[trigger] names@[j])@),
            forall|j: int| 0 <= j < i ==> (#[trigger] out@[j]).1.modifier is None,
            forall|j: int| 0 <= j < i ==> hotkeys_of(out@).contains_key((#[trigger] names@[j])@),
            forall|name: Seq<char>| #[trigger]
                hotkeys_of(out@).contains_key(name) ==> table@.contains_key(name)
                    && hotkeys_of(out@)[name] == table@[name],
        decreases names@.len() - i,
    {
        let found: Option<&CharacterHotkey> = table.get(names[i].as_str());
        if let Some(hotkey) = found {
            let ghost before = out@;
            out.push((names[i].clone(), hotkey.to_raw()));
            assert(out@.drop_last() =~= before);
            assert(hotkeys_of(out@) == hotkeys_of(before).insert(names@[i as int]@, *hotkey));
        }
        i = i + 1;
    }
    assert(hotkeys_of(out@) =~= table@);
    out
}

/// A configuration, and whether it is new and has to be written.
#[derive(Debug)]
pub struct Loaded {
    pub config: Config,
    pub fresh: bool,
}

impl Config {
    /// The directory of the configuration on this machine.
    pub fn config_dir() -> (r: PathBuf)
        ensures
            exists|found: Option<PathBuf>| components(r) == #[trigger] config_dir_of(found),
    {
        config_dir_in(user_config_dir())
    }

    /// The file of the configuration on this machine.
    pub fn config_path() -> (r: PathBuf)
        ensures
            exists|found: Option<PathBuf>| components(r) == #[trigger] config_path_of(found),
    {
        config_path_in(user_config_dir())
    }

    /// The size of the display from what the system reports.
    pub fn detect_display_size(width: i32, height: i32) -> (r: (u32, u32))
        ensures
            r == display_size(width, height),
    {
        if width > 0 && height > 0 {
            (width as u32, height as u32)
        } else {
            (1920, 1080)
        }
    }

    /// The settings for a display before anyone changed them.
    pub fn build_default(display_width: u32, display_height: u32) -> (r: Self)
        ensures
            r@ == default_config(display_width, display_height),
    {
        let wide: u64 = display_width as u64;
        let r = Config {
            display_width,
            display_height,
            panel_height: 0,
            eve_width: ((54 * wide + 50) / 100) as u32,
            eve_height: display_height,
            enable_mouse_buttons: default_enable_mouse(),
            forward_button: default_forward_button(),
            backward_button: default_backward_button(),
            enable_keyboard_buttons: default_enable_keyboard(),
            forward_key: default_forward_key(),
            backward_key: default_backward_key(),
            minimize_inactive: default_minimize_inactive(),
            modifier_key: default_modifier_key(),
            preview_width: default_preview_width(),
            preview_height: default_preview_height(),
            show_previews: default_show_previews(),
            characters: Vec::new(),
            display_mode: default_display_mode(),
            positions_locked: false,
            character_hotkeys: NameMap::new(),
        };
        assert(r@ =~= default_config(display_width, display_height));
        r
    }

    /// The configuration that the settings of a file describe.
    pub fn from_raw(raw: RawConfig) -> (r: Result<Self, ConfigError>)
        ensures
            match r {
                Ok(c) => config_of(raw) == Ok::<ConfigModel, Required>(c@),
                Err(ConfigError::Missing(which)) => config_of(raw) == Err::<ConfigModel, Required>(which),
                Err(ConfigError::Malformed(_)) => false,
            },
            r matches Ok(c) ==> {
                &&& raw.display_width == Some(c.display_width)
                &&& raw.display_height == Some(c.display_height)
                &&& raw.panel_height == Some(c.panel_height)
                &&& raw.eve_width == Some(c.eve_width)
                &&& raw.eve_height == Some(c.eve_height)
                &&& raw.enable_mouse_buttons matches Some(v) ==> c.enable_mouse_buttons == v
                &&& raw.forward_button matches Some(v) ==> c.forward_button == v
                &&& raw.backward_button matches Some(v) ==> c.backward_button == v
                &&& raw.enable_keyboard_buttons matches Some(v) ==> c.enable_keyboard_buttons == v
                &&& raw.forward_key matches Some(v) ==> c.forward_key == v
                &&& raw.backward_key matches Some(v) ==> c.backward_key == v
                &&& raw.minimize_inactive matches Some(v) ==> c.minimize_inactive == v
                &&& raw.preview_width matches Some(v) ==> c.preview_width == v
                &&& raw.preview_height matches Some(v) ==> c.preview_height == v
                &&& raw.show_previews matches Some(v) ==> c.show_previews == v
                &&& raw.display_mode matches Some(v) ==> c.display_mode == v
                &&& raw.positions_locked matches Some(v) ==> c.positions_locked == v
                &&& raw.modifier_key == c.modifier_key
            },
    {
        let display_width: u32 = match raw.display_width {
            Some(n) => n,
            None => {
                return Err(ConfigError::Missing(Required::DisplayWidth));
            },
        };
        let display_height: u32 = match raw.display_height {
            Some(n) => n,
            None => {
                return Err(ConfigError::Missing(Required::DisplayHeight));
            },
        };
        let panel_height: u32 = match raw.panel_height {
            Some(n) => n,
            None => {
                return Err(ConfigError::Missing(Required::PanelHeight));
            },
        };
        let eve_width: u32 = match raw.eve_width {
            Some(n) => n,
            None => {
                return Err(ConfigError::Missing(Required::EveWidth));
            },
        };
        let eve_height: u32 = match raw.eve_height {
            Some(n) => n,
            None => {
                return Err(ConfigError::Missing(Required::EveHeight));
            },
        };
        let characters: Vec<CharacterEntry> = match raw.characters {
            Some(list) => characters_from_raw(list),
            None => Vec::new(),
        };
        let character_hotkeys: NameMap<CharacterHotkey> = match raw.character_hotkeys {
            Some(table) => hotkeys_from_raw(table),
            None => NameMap::new(),
        };
        let r = Config {
            display_width,
            display_height,
            panel_height,
            eve_width,
            eve_height,
            enable_mouse_buttons: raw.enable_mouse_buttons.unwrap_or(default_enable_mouse()),
            forward_button: raw.forward_button.unwrap_or(default_forward_button()),
            backward_button: raw.backward_button.unwrap_or(default_backward_button()),
            enable_keyboard_buttons: raw.enable_keyboard_buttons.unwrap_or(
                default_enable_keyboard(),
            ),
            forward_key: raw.forward_key.unwrap_or(default_forward_key()),
            backward_key: raw.backward_key.unwrap_or(default_backward_key()),
            minimize_inactive: raw.minimize_inactive.unwrap_or(default_minimize_inactive()),
            modifier_key: raw.modifier_key,
            preview_width: raw.preview_width.unwrap_or(default_preview_width()),
            preview_height: raw.preview_height.unwrap_or(default_preview_height()),
            show_previews: raw.show_previews.unwrap_or(default_show_previews()),
            characters,
            display_mode: raw.display_mode.unwrap_or(default_display_mode()),
            positions_locked: raw.positions_locked.unwrap_or(false),
            character_hotkeys,
        };
        assert(r@ =~= config_of(raw)->Ok_0);
        Ok(r)
    }

    /// The settings as they are written to the file: every one of them, in the
    /// form that is current.
    pub fn save(&self) -> (r: RawConfig)
        ensures
            config_of(r) == Ok::<ConfigModel, Required>(self@),
            complete(r),
            r.display_width == Some(self.display_width),
            r.display_height == Some(self.display_height),
            r.panel_height == Some(self.panel_height),
            r.eve_width == Some(self.eve_width),
            r.eve_height == Some(self.eve_height),
            r.enable_mouse_buttons == Some(self.enable_mouse_buttons),
            r.forward_button == Some(self.forward_button),
            r.backward_button == Some(self.backward_button),
            r.enable_keyboard_buttons == Some(self.enable_keyboard_buttons),
            r.forward_key == Some(self.forward_key),
            r.backward_key == Some(self.backward_key),
            r.minimize_inactive == Some(self.minimize_inactive),
            r.preview_width == Some(self.preview_width),
            r.preview_height == Some(self.preview_height),
            r.show_previews == Some(self.show_previews),
            r.display_mode == Some(self.display_mode),
            r.positions_locked == Some(self.positions_locked),
            r.modifier_key == self.modifier_key,
    {
        let r = RawConfig {
            display_width: Some(self.display_width),
            display_height: Some(self.display_height),
            panel_height: Some(self.panel_height),
            eve_width: Some(self.eve_width),
            eve_height: Some(self.eve_height),
            enable_mouse_buttons: Some(self.enable_mouse_buttons),
            forward_button: Some(self.forward_button),
            backward_button: Some(self.backward_button),
            enable_keyboard_buttons: Some(self.enable_keyboard_buttons),
            forward_key: Some(self.forward_key),
            backward_key: Some(self.backward_key),
            minimize_inactive: Some(self.minimize_inactive),
            modifier_key: self.modifier_key,
            preview_width: Some(self.preview_width),
            preview_height: Some(self.preview_height),
            show_previews: Some(self.show_previews),
            characters: Some(characters_to_raw(&self.characters)),
            display_mode: Some(self.display_mode),
            positions_locked: Some(self.positions_locked),
            character_hotkeys: Some(hotkeys_to_raw(&self.character_hotkeys)),
        };
        assert(config_of(r)->Ok_0 =~= self@);
        r
    }

    /// The settings that are written for a display before anyone changed them.
    pub fn save_default(width: i32, height: i32) -> (r: RawConfig)
        ensures
            config_of(r) == Ok::<ConfigModel, Required>(
                default_config(display_size(width, height).0, display_size(width, height).1),
            ),
            complete(r),
    {
        let (display_width, display_height): (u32, u32) = Self::detect_display_size(width, height);
        Self::build_default(display_width, display_height).save()
    }

    /// The configuration to work with. `stored` is what the file holds, where
    /// there is a file: its settings, or the reason why they cannot be read.
    /// Without a file it is the default for the display, which then has to be
    /// written.
    pub fn load(
        stored: Option<Result<RawConfig, String>>,
        width: i32,
        height: i32,
    ) -> (r: Result<Loaded, ConfigError>)
        ensures
            match stored {
                None => r is Ok && r->Ok_0.fresh && r->Ok_0.config@ == default_config(
                    display_size(width, height).0,
                    display_size(width, height).1,
                ),
                Some(Err(reason)) => r == Err::<Loaded, ConfigError>(ConfigError::Malformed(reason)),
                Some(Ok(raw)) => match config_of(raw) {
                    Ok(model) => r is Ok && !r->Ok_0.fresh && r->Ok_0.config@ == model,
                    Err(which) => r == Err::<Loaded, ConfigError>(ConfigError::Missing(which)),
                },
            },
    {
        match stored {
            None => {
                let (display_width, display_height): (u32, u32) = Self::detect_display_size(
                    width,
                    height,
                );
                Ok(
                    Loaded {
                        config: Self::build_default(display_width, display_height),
                        fresh: true,
                    },
                )
            },
            Some(Err(reason)) => Err(ConfigError::Malformed(reason)),
            Some(Ok(raw)) => {
                match Self::from_raw(raw) {
                    Ok(config) => Ok(Loaded { config, fresh: false }),
                    Err(e) => Err(e),
                }
            },
        }
    }

    /// The height of a client: the display without the panel.
    pub fn eve_height_adjusted(&self) -> (r: u32)
        requires
            self.panel_height <= self.display_height,
        ensures
            r == self.display_height - self.panel_height,
    {
        self.display_height - self.panel_height
    }
}

impl Clone for Config {
    fn clone(&self) -> (r: Self)
        ensures
            r@ == self@,
            r.characters@ == self.characters@,
    {
        let r = Config {
            display_width: self.display_width,
            display_height: self.display_height,
            panel_height: self.panel_height,
            eve_width: self.eve_width,
            eve_height: self.eve_height,
            enable_mouse_buttons: self.enable_mouse_buttons,
            forward_button: self.forward_button,
            backward_button: self.backward_button,
            enable_keyboard_buttons: self.enable_keyboard_buttons,
            forward_key: self.forward_key,
            backward_key: self.backward_key,
            minimize_inactive: self.minimize_inactive,
            modifier_key: self.modifier_key,
            preview_width: self.preview_width,
            preview_height: self.preview_height,
            show_previews: self.show_previews,
            characters: self.characters.clone(),
            display_mode: self.display_mode,
            positions_locked: self.positions_locked,
            character_hotkeys: self.character_hotkeys.clone(),
        };
        assert(r.characters@ =~= self.characters@);
        assert(r@ =~= self@);
        r
    }
}

/// Settings that take effect while they are being changed.
#[derive(Debug, Clone, Copy, PartialEq, Eq, Structural)]
pub struct LiveSettings {
    pub preview_width: u32,
    pub preview_height: u32,
    pub display_mode: DisplayMode,
    pub positions_locked: bool,
}

/// The part of a configuration that takes effect at once.
pub open spec fn live_part(c: ConfigModel) -> LiveSettings {
    LiveSettings {
        preview_width: c.preview_width,
        preview_height: c.preview_height,
        display_mode: c.display_mode,
        positions_locked: c.positions_locked,
    }
}

impl LiveSettings {
    /// The part of a configuration that takes effect at once.
    pub fn from_config(config: &Config) -> (r: Self)
        ensures
            r == live_part(config@),
    {
        LiveSettings {
            preview_width: config.preview_width,
            preview_height: config.preview_height,
            display_mode: config.display_mode,
            positions_locked: config.positions_locked,
        }
    }
}

/// A file that holds only what is required gives the default of every other
/// setting.
pub proof fn law_missing_settings_take_defaults(raw: RawConfig)
    requires
        raw.display_width is Some,
        raw.display_height is Some,
        raw.panel_height is Some,
        raw.eve_width is Some,
        raw.eve_height is Some,
        raw.enable_mouse_buttons is None,
        raw.forward_button is None,
        raw.backward_button is None,
        raw.enable_keyboard_buttons is None,
        raw.forward_key is None,
        raw.backward_key is None,
        raw.minimize_inactive is None,
        raw.modifier_key is None,
        raw.preview_width is None,
        raw.preview_height is None,
        raw.show_previews is None,
        raw.characters is None,
        raw.display_mode is None,
        raw.positions_locked is None,
        raw.character_hotkeys is None,
    ensures
        config_of(raw) == Ok::<ConfigModel, Required>(
            ConfigModel {
                panel_height: raw.panel_height->0,
                eve_width: raw.eve_width->0,
                eve_height: raw.eve_height->0,
                ..default_config(raw.display_width->0, raw.display_height->0)
            },
        ),
{
}

/// A list of bare names, as older files have it, puts every character into
/// the cycle, in the order of the list.
pub proof fn law_bare_names_take_part(raw: Seq<RawCharacter>, i: int)
    requires
        forall|j: int| 0 <= j < raw.len() ==> (#[trigger] raw[j]) is Name,
        0 <= i < raw.len(),
    ensures
        characters_of(raw).len() == raw.len(),
        characters_of(raw)[i].name == raw[i]->Name_0@,
        characters_of(raw)[i].in_cycle,
{
    assert(raw[i] is Name);
}

/// The older form of a hotkey, with one modifier by its code, means the same
/// as the form with flags.
pub proof fn law_older_hotkey_means_flags(vk: u16, code: u16)
    ensures
        hotkey_of(
            RawHotkey { vk, ctrl: false, shift: false, alt: false, modifier: Some(code) },
        ) == (CharacterHotkey {
            vk,
            ctrl: modifier_of(code) == Some(Modifier::Ctrl),
            shift: modifier_of(code) == Some(Modifier::Shift),
            alt: modifier_of(code) == Some(Modifier::Alt),
        }),
{
}

/// The width of a client is within half a pixel of 54 percent, and never more
/// than the display.
pub proof fn law_client_width_fits(display_width: u32)
    ensures
        -50 < 100 * client_width(display_width) - 54 * display_width <= 50,
        client_width(display_width) <= display_width,
{
}

/// Every setting of a file is read for that same setting, and a setting that
/// the file leaves out takes its own default.
pub proof fn law_each_setting_is_read_by_itself(raw: RawConfig, c: ConfigModel)
    requires
        config_of(raw) == Ok::<ConfigModel, Required>(c),
    ensures
        raw.display_width == Some(c.display_width),
        raw.display_height == Some(c.display_height),
        raw.panel_height == Some(c.panel_height),
        raw.eve_width == Some(c.eve_width),
        raw.eve_height == Some(c.eve_height),
        raw.enable_mouse_buttons matches Some(v) ==> c.enable_mouse_buttons == v,
        raw.enable_mouse_buttons is None ==> c.enable_mouse_buttons == false,
        raw.forward_button matches Some(v) ==> c.forward_button == v,
        raw.forward_button is None ==> c.forward_button == 2,
        raw.backward_button matches Some(v) ==> c.backward_button == v,
        raw.backward_button is None ==> c.backward_button == 1,
        raw.enable_keyboard_buttons matches Some(v) ==> c.enable_keyboard_buttons == v,
        raw.enable_keyboard_buttons is None ==> c.enable_keyboard_buttons == true,
        raw.forward_key matches Some(v) ==> c.forward_key == v,
        raw.forward_key is None ==> c.forward_key == 0x7A,
        raw.backward_key matches Some(v) ==> c.backward_key == v,
        raw.backward_key is None ==> c.backward_key == 0x79,
        raw.minimize_inactive matches Some(v) ==> c.minimize_inactive == v,
        raw.minimize_inactive is None ==> c.minimize_inactive == false,
        raw.preview_width matches Some(v) ==> c.preview_width == v,
        raw.preview_width is None ==> c.preview_width == 320,
        raw.preview_height matches Some(v) ==> c.preview_height == v,
        raw.preview_height is None ==> c.preview_height == 180,
        raw.show_previews matches Some(v) ==> c.show_previews == v,
        raw.show_previews is None ==> c.show_previews == true,
        raw.display_mode matches Some(v) ==> c.display_mode == v,
        raw.display_mode is None ==> c.display_mode == DisplayMode::Previews,
        raw.positions_locked matches Some(v) ==> c.positions_locked == v,
        raw.positions_locked is None ==> c.positions_locked == false,
        raw.modifier_key == c.modifier_key,
        raw.characters matches Some(list) ==> c.characters == characters_of(list@),
        raw.characters is None ==> c.characters.len() == 0,
        raw.character_hotkeys matches Some(table) ==> c.character_hotkeys == hotkeys_of(table@),
        raw.character_hotkeys is None ==> forall|name: Seq<char>| !(
        #[trigger] c.character_hotkeys.contains_key(name)),
{
}

/// A file is refused exactly when one of the five sizes is missing, and the
/// first of them in their order is the one that is named.
pub proof fn law_only_the_sizes_are_required(raw: RawConfig)
    ensures
        config_of(raw) is Ok <==> raw.display_width is Some && raw.display_height is Some
            && raw.panel_height is Some && raw.eve_width is Some && raw.eve_height is Some,
        raw.display_width is None ==> config_of(raw)
            == Err::<ConfigModel, Required>(Required::DisplayWidth),
        raw.display_width is Some && raw.display_height is None ==> config_of(raw)
            == Err::<ConfigModel, Required>(Required::DisplayHeight),
        raw.display_width is Some && raw.display_height is Some && raw.panel_height is None
            ==> config_of(raw) == Err::<ConfigModel, Required>(Required::PanelHeight),
        raw.display_width is Some && raw.display_height is Some && raw.panel_height is Some
            && raw.eve_width is None ==> config_of(raw)
            == Err::<ConfigModel, Required>(Required::EveWidth),
        raw.display_width is Some && raw.display_height is Some && raw.panel_height is Some
            && raw.eve_width is Some && raw.eve_height is None ==> config_of(raw)
            == Err::<ConfigModel, Required>(Required::EveHeight),
{
}

/// What a file says of a setting decides that setting: two files that agree on
/// it give the same value, whatever they say of all others.
pub proof fn law_settings_do_not_touch_each_other(one: RawConfig, two: RawConfig)
    requires
        config_of(one) is Ok,
        config_of(two) is Ok,
    ensures
        one.display_width == two.display_width ==> config_of(one)->Ok_0.display_width
            == config_of(two)->Ok_0.display_width,
        one.display_height == two.display_height ==> config_of(one)->Ok_0.display_height
            == config_of(two)->Ok_0.display_height,
        one.panel_height == two.panel_height ==> config_of(one)->Ok_0.panel_height
            == config_of(two)->Ok_0.panel_height,
        one.eve_width == two.eve_width ==> config_of(one)->Ok_0.eve_width
            == config_of(two)->Ok_0.eve_width,
        one.eve_height == two.eve_height ==> config_of(one)->Ok_0.eve_height
            == config_of(two)->Ok_0.eve_height,
        one.enable_mouse_buttons == two.enable_mouse_buttons
            ==> config_of(one)->Ok_0.enable_mouse_buttons
            == config_of(two)->Ok_0.enable_mouse_buttons,
        one.forward_button == two.forward_button ==> config_of(one)->Ok_0.forward_button
            == config_of(two)->Ok_0.forward_button,
        one.backward_button == two.backward_button ==> config_of(one)->Ok_0.backward_button
            == config_of(two)->Ok_0.backward_button,
        one.enable_keyboard_buttons == two.enable_keyboard_buttons
            ==> config_of(one)->Ok_0.enable_keyboard_buttons
            == config_of(two)->Ok_0.enable_keyboard_buttons,
        one.forward_key == two.forward_key ==> config_of(one)->Ok_0.forward_key
            == config_of(two)->Ok_0.forward_key,
        one.backward_key == two.backward_key ==> config_of(one)->Ok_0.backward_key
            == config_of(two)->Ok_0.backward_key,
        one.minimize_inactive == two.minimize_inactive ==> config_of(one)->Ok_0.minimize_inactive
            == config_of(two)->Ok_0.minimize_inactive,
        one.preview_width == two.preview_width ==> config_of(one)->Ok_0.preview_width
            == config_of(two)->Ok_0.preview_width,
        one.preview_height == two.preview_height ==> config_of(one)->Ok_0.preview_height
            == config_of(two)->Ok_0.preview_height,
        one.show_previews == two.show_previews ==> config_of(one)->Ok_0.show_previews
            == config_of(two)->Ok_0.show_previews,
        one.display_mode == two.display_mode ==> config_of(one)->Ok_0.display_mode
            == config_of(two)->Ok_0.display_mode,
        one.positions_locked == two.positions_locked ==> config_of(one)->Ok_0.positions_locked
            == config_of(two)->Ok_0.positions_locked,
        one.modifier_key == two.modifier_key ==> config_of(one)->Ok_0.modifier_key
            == config_of(two)->Ok_0.modifier_key,
{
}

/// The model of a configuration shows each setting as it is.
pub proof fn law_the_model_shows_each_setting(config: Config, i: int)
    ensures
        config@.display_width == config.display_width,
        config@.display_height == config.display_height,
        config@.panel_height == config.panel_height,
        config@.eve_width == config.eve_width,
        config@.eve_height == config.eve_height,
        config@.enable_mouse_buttons == config.enable_mouse_buttons,
        config@.forward_button == config.forward_button,
        config@.backward_button == config.backward_button,
        config@.enable_keyboard_buttons == config.enable_keyboard_buttons,
        config@.forward_key == config.forward_key,
        config@.backward_key == config.backward_key,
        config@.minimize_inactive == config.minimize_inactive,
        config@.preview_width == config.preview_width,
        config@.preview_height == config.preview_height,
        config@.show_previews == config.show_previews,
        config@.display_mode == config.display_mode,
        config@.positions_locked == config.positions_locked,
        config@.modifier_key == config.modifier_key,
        config@.character_hotkeys == config.character_hotkeys@,
        config@.characters.len() == config.characters@.len(),
        0 <= i < config.characters@.len() ==> config@.characters[i].name
            == config.characters@[i].name@ && config@.characters[i].in_cycle
            == config.characters@[i].in_cycle,
{
}

/// What each setting is before anyone changed it.
pub proof fn law_defaults(display_width: u32, display_height: u32)
    ensures
        default_config(display_width, display_height).display_width == display_width,
        default_config(display_width, display_height).display_height == display_height,
        default_config(display_width, display_height).panel_height == 0,
        default_config(display_width, display_height).eve_height == display_height,
        -50 < 100 * default_config(display_width, display_height).eve_width - 54 * display_width
            <= 50,
        default_config(display_width, display_height).enable_mouse_buttons == false,
        default_config(display_width, display_height).forward_button == 2,
        default_config(display_width, display_height).backward_button == 1,
        default_config(display_width, display_height).enable_keyboard_buttons == true,
        default_config(display_width, display_height).forward_key == 0x7A,
        default_config(display_width, display_height).backward_key == 0x79,
        default_config(display_width, display_height).minimize_inactive == false,
        default_config(display_width, display_height).preview_width == 320,
        default_config(display_width, display_height).preview_height == 180,
        default_config(display_width, display_height).show_previews == true,
        default_config(display_width, display_height).display_mode == DisplayMode::Previews,
        default_config(display_width, display_height).positions_locked == false,
        default_config(display_width, display_height).modifier_key is None,
        default_config(display_width, display_height).characters.len() == 0,
        forall|name: Seq<char>|
            !(#[trigger] default_config(
                display_width,
                display_height,
            ).character_hotkeys.contains_key(name)),
{
}

/// A hotkey of a file has the key of its entry, and each modifier that the
/// entry names by its flag or by one of its three codes.
pub proof fn law_hotkeys_have_the_modifiers_of_their_entry(raw: RawHotkey)
    ensures
        hotkey_of(raw).vk == raw.vk,
        hotkey_of(raw).ctrl == (raw.ctrl || raw.modifier == Some(0x11u16) || raw.modifier == Some(
            0xA2u16,
        ) || raw.modifier == Some(0xA3u16)),
        hotkey_of(raw).shift == (raw.shift || raw.modifier == Some(0x10u16) || raw.modifier == Some(
            0xA0u16,
        ) || raw.modifier == Some(0xA1u16)),
        hotkey_of(raw).alt == (raw.alt || raw.modifier == Some(0x12u16) || raw.modifier == Some(
            0xA4u16,
        ) || raw.modifier == Some(0xA5u16)),
{
}

/// The characters of a file come in its order, each with the name of its
/// entry, and in the cycle unless the entry says no.
pub proof fn law_characters_come_as_the_file_lists_them(raw: Seq<RawCharacter>, i: int)
    requires
        0 <= i < raw.len(),
    ensures
        characters_of(raw).len() == raw.len(),
        raw[i] matches RawCharacter::Name(name) ==> characters_of(raw)[i].name == name@
            && characters_of(raw)[i].in_cycle,
        raw[i] matches RawCharacter::Entry { name, in_cycle } ==> characters_of(raw)[i].name
            == name@ && (characters_of(raw)[i].in_cycle <==> in_cycle != Some(false)),
{
}

/// A list of characters holds the name and the flag of each of its entries.
pub proof fn law_rosters_hold_their_entries(list: Seq<CharacterEntry>, i: int)
    requires
        0 <= i < list.len(),
    ensures
        roster(list).len() == list.len(),
        roster(list)[i].name == list[i].name@,
        roster(list)[i].in_cycle == list[i].in_cycle,
{
}

/// Of the entries for one name the last one counts.
pub proof fn law_the_last_entry_of_a_name_counts(
    raw: Seq<(String, RawHotkey)>,
    name: Seq<char>,
    i: int,
)
    requires
        0 <= i < raw.len(),
        raw[i].0@ == name,
        forall|j: int| i < j < raw.len() ==> (#[trigger] raw[j]).0@ != name,
    ensures
        hotkeys_of(raw).contains_key(name),
        hotkeys_of(raw)[name] == hotkey_of(raw[i].1),
    decreases raw.len(),
{
    if i < raw.len() - 1 {
        assert(raw[raw.len() - 1].0@ != name);
        assert forall|j: int| i < j < raw.drop_last().len() implies (
        #[trigger] raw.drop_last()[j]).0@ != name by {
            assert(raw[j].0@ != name);
        }
        law_the_last_entry_of_a_name_counts(raw.drop_last(), name, i);
    }
}

/// A name without an entry has no hotkey.
pub proof fn law_names_without_an_entry_have_no_hotkey(
    raw: Seq<(String, RawHotkey)>,
    name: Seq<char>,
)
    requires
        forall|j: int| 0 <= j < raw.len() ==> (#[trigger] raw[j]).0@ != name,
    ensures
        !hotkeys_of(raw).contains_key(name),
    decreases raw.len(),
{
    if raw.len() > 0 {
        assert(raw[raw.len() - 1].0@ != name);
        assert forall|j: int| 0 <= j < raw.drop_last().len() implies (
        #[trigger] raw.drop_last()[j]).0@ != name by {
            assert(raw[j].0@ != name);
        }
        law_names_without_an_entry_have_no_hotkey(raw.drop_last(), name);
    }
}

/// A display is as large as the system says when it says so of both sides, and
/// 1920 by 1080 otherwise.
pub proof fn law_displays_are_as_reported(width: i32, height: i32)
    ensures
        width > 0 && height > 0 ==> display_size(width, height).0 == width && display_size(
            width,
            height,
        ).1 == height,
        width <= 0 || height <= 0 ==> display_size(width, height).0 == 1920 && display_size(
            width,
            height,
        ).1 == 1080,
{
}

/// What takes effect at once is the size of the previews, the display mode and
/// the lock, each as it is set.
pub proof fn law_live_settings_are_those_set(c: ConfigModel)
    ensures
        live_part(c).preview_width == c.preview_width,
        live_part(c).preview_height == c.preview_height,
        live_part(c).display_mode == c.display_mode,
        live_part(c).positions_locked == c.positions_locked,
{
}

/// A file that is complete holds every setting but the extra key, which may be
/// none, and every entry in the form that is current.
pub proof fn law_complete_files_hold_everything(raw: RawConfig, i: int)
    requires
        complete(raw),
    ensures
        raw.enable_mouse_buttons is Some,
        raw.forward_button is Some,
        raw.backward_button is Some,
        raw.enable_keyboard_buttons is Some,
        raw.forward_key is Some,
        raw.backward_key is Some,
        raw.minimize_inactive is Some,
        raw.preview_width is Some,
        raw.preview_height is Some,
        raw.show_previews is Some,
        raw.display_mode is Some,
        raw.positions_locked is Some,
        raw.characters is Some,
        raw.character_hotkeys is Some,
        0 <= i < raw.characters->0@.len() ==> (raw.characters->0@[i] matches RawCharacter::Entry {
            in_cycle,
            ..
        } && in_cycle is Some),
        0 <= i < raw.character_hotkeys->0@.len()
            ==> raw.character_hotkeys->0@[i].1.modifier is None,
{
}

} // verus!
