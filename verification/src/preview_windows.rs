//! The preview windows: where they stand, which of them there are, and what
//! changes about them while clients come, go and take the focus.

use std::path::PathBuf;
use vstd::prelude::*;

use crate::config::{Config, DisplayMode, LiveSettings};
use crate::cycle_state::{synced, CycleState};
use crate::geometry::{on_screen, position_on_screen, Screen};
use crate::name_map::NameMap;
use crate::painting::{list_height, list_window_height, ListMetrics};
use crate::paths::{components, positions_path_in, positions_path_of, user_config_dir};
use crate::text::{same, texts};
use crate::window_manager::{windows_of, EveWindow, WindowModel};

verus! {

/// The timer that lets the windows catch up with the clients, and how often it
/// fires, in milliseconds.
pub const RECONCILE_TIMER_ID: usize = 1;

pub const RECONCILE_INTERVAL_MS: u32 = 100;

/// Where the preview of each character was put, and where the client list was.
#[derive(Debug)]
pub struct PreviewPositions {
    pub positions: NameMap<(i32, i32)>,
    pub list_position: Option<(i32, i32)>,
}

/// Positions, by what the names say.
#[verifier::ext_equal]
pub struct PositionsModel {
    pub positions: Map<Seq<char>, (i32, i32)>,
    pub list_position: Option<(i32, i32)>,
}

impl View for PreviewPositions {
    type V = PositionsModel;

    open spec fn view(&self) -> PositionsModel {
        PositionsModel { positions: self.positions@, list_position: self.list_position }
    }
}

/// Positions as they stand in their file.
#[derive(Debug)]
pub struct RawPositions {
    pub positions: Option<Vec<(String, (i32, i32))>>,
    pub list_position: Option<(i32, i32)>,
}

/// The positions that the entries of a file describe; a later entry for a name
/// replaces an earlier one.
pub open spec fn places_of(entries: Seq<(String, (i32, i32))>) -> Map<Seq<char>, (i32, i32)>
    decreases entries.len(),
{
    if entries.len() == 0 {
        Map::empty()
    } else {
        places_of(entries.drop_last()).insert(entries.last().0@, entries.last().1)
    }
}

/// The positions that a file describes.
pub open spec fn positions_of(raw: RawPositions) -> PositionsModel {
    PositionsModel {
        positions: match raw.positions {
            Some(entries) => places_of(entries@),
            None => Map::empty(),
        },
        list_position: raw.list_position,
    }
}

/// No positions.
pub open spec fn no_positions() -> PositionsModel {
    PositionsModel { positions: Map::empty(), list_position: None }
}

impl Default for PreviewPositions {
    fn default() -> (r: Self)
        ensures
            r@ == no_positions(),
    {
        PreviewPositions { positions: NameMap::new(), list_position: None }
    }
}

impl PreviewPositions {
    /// The file of the positions on this machine.
    pub fn config_path() -> (r: PathBuf)
        ensures
            exists|found: Option<PathBuf>|
                components(r) == #[trigger] positions_path_of(found),
    {
        positions_path_in(user_config_dir())
    }

    /// The positions that a file holds. Without a file, or with one that cannot
    /// be understood, there are none.
    pub fn load(stored: Option<RawPositions>) -> (r: Self)
        ensures
            r@ == match stored {
                Some(raw) => positions_of(raw),
                None => no_positions(),
            },
    {
        match stored {
            Some(raw) => {
                let mut positions: NameMap<(i32, i32)> = NameMap::new();
                if let Some(entries) = raw.positions {
                    assert(entries@.take(0) =~= Seq::empty());
                    for el in it: entries
                        invariant
                            it.seq() == entries@,
                            positions@ == places_of(entries@.take(it.index() as int)),
                    {
                        let (name, place): (String, (i32, i32)) = el;
                        positions.insert(name, place);
                        assert(entries@.take(it.index() + 1).drop_last() =~= entries@.take(
                            it.index() as int,
                        ));
                    }
                    assert(entries@.take(entries@.len() as int) =~= entries@);
                }
                PreviewPositions { positions, list_position: raw.list_position }
            },
            None => PreviewPositions::default(),
        }
    }

    /// The positions as they are written to their file.
    pub fn save(&self) -> (r: RawPositions)
        ensures
            positions_of(r) == self@,
            r.positions is Some,
    {
        let names: Vec<String> = self.positions.names();
        let mut entries: Vec<(String, (i32, i32))> = Vec::new();
        let mut i: usize = 0;
        assert(places_of(entries@) =~= Map::empty());
        while i < names.len()
            invariant
                i <= names@.len(),
                forall|j: int|
                    0 <= j < names@.len() ==> self.positions@.contains_key((#[trigger] names@[j])@),
                forall|j: int| 0 <= j < i ==> places_of(entries@).contains_key((#[trigger] names@[j])@),
                forall|name: Seq<char>| #[trigger]
                    places_of(entries@).contains_key(name) ==> self.positions@.contains_key(name)
                        && places_of(entries@)[name] == self.positions@[name],
            decreases names@.len() - i,
        {
            let found: Option<&(i32, i32)> = self.positions.get(names[i].as_str());
            if let Some(place) = found {
                let ghost before = entries@;
                entries.push((names[i].clone(), *place));
                assert(entries@.drop_last() =~= before);
                assert(places_of(entries@) == places_of(before).insert(names@[i as int]@, *place));
            }
            i = i + 1;
        }
        assert(places_of(entries@) =~= self.positions@);
        RawPositions { positions: Some(entries), list_position: self.list_position }
    }

    /// Where the preview of a character was put.
    pub fn get(&self, name: &str) -> (r: Option<(i32, i32)>)
        ensures
            r == if self@.positions.contains_key(name@) {
                Some(self@.positions[name@])
            } else {
                None
            },
    {
        match self.positions.get(name) {
            Some(place) => Some(*place),
            None => None,
        }
    }

    /// Remembers where the preview of a character was put.
    pub fn set(&mut self, name: String, x: i32, y: i32)
        ensures
            final(self)@ == (PositionsModel {
                positions: old(self)@.positions.insert(name@, (x, y)),
                ..old(self)@
            }),
    {
        self.positions.insert(name, (x, y));
    }
}

/// What was remembered of one character is given back, and what was remembered
/// of others stays.
pub proof fn law_positions_are_remembered(
    before: PositionsModel,
    name: Seq<char>,
    x: i32,
    y: i32,
    other: Seq<char>,
)
    ensures
        ({
            let after = before.positions.insert(name, (x, y));
            &&& after.contains_key(name)
            &&& after[name] == (x, y)
            &&& other != name ==> after.contains_key(other) == before.positions.contains_key(other)
            &&& other != name && before.positions.contains_key(other) ==> after[other]
                == before.positions[other]
        }),
{
}

/// The place for the next preview that has none yet: down a diagonal, so that
/// new previews do not hide each other.
#[derive(Debug)]
pub struct Diagonal {
    offset: i32,
}

/// The offset after `offset` on the diagonal.
pub open spec fn next_offset(offset: int) -> int {
    (offset + 32) % 320
}

impl View for Diagonal {
    type V = int;

    closed spec fn view(&self) -> int {
        self.offset as int
    }
}

impl Diagonal {
    #[verifier::type_invariant]
    spec fn in_steps(self) -> bool {
        0 <= self.offset < 320 && self.offset % 32 == 0
    }

    fn new() -> (r: Self)
        ensures
            r@ == 0,
    {
        Diagonal { offset: 0 }
    }

    fn advance(&mut self) -> (r: i32)
        ensures
            r == old(self)@,
            0 <= r < 320,
            final(self)@ == next_offset(old(self)@),
    {
        proof {
            use_type_invariant(&*self);
        }
        let offset: i32 = self.offset;
        self.offset = (offset + 32) % 320;
        offset
    }
}

/// The offset after `steps` new previews.
pub open spec fn offset_after(offset: int, steps: nat) -> int
    decreases steps,
{
    if steps == 0 {
        offset
    } else {
        next_offset(offset_after(offset, (steps - 1) as nat))
    }
}

/// Ten new previews in a row all stand at different places; the eleventh stands
/// where the first did.
pub proof fn law_new_previews_do_not_stack(offset: int, a: nat, b: nat)
    requires
        0 <= offset < 320,
        a < b <= 10,
    ensures
        offset_after(offset, a) == offset_after(offset, b) <==> a == 0 && b == 10,
{
    lemma_offset_after(offset, a);
    lemma_offset_after(offset, b);
}

proof fn lemma_offset_after(offset: int, steps: nat)
    requires
        0 <= offset < 320,
    ensures
        offset_after(offset, steps) == (offset + 32 * steps) % 320,
    decreases steps,
{
    if steps > 0 {
        lemma_offset_after(offset, (steps - 1) as nat);
        vstd::arithmetic::div_mod::lemma_add_mod_noop(offset + 32 * (steps - 1), 32, 320);
    }
}

/// A preview: the window that it shows, and whether that has the focus.
#[derive(Debug, Clone, Copy, PartialEq, Eq, Structural)]
pub struct PreviewSlot {
    pub source_id: u32,
    pub is_active: bool,
}

/// The previews that there are, what was applied to them, and the client list.
#[derive(Debug)]
pub struct PreviewManager {
    previews: NameMap<PreviewSlot>,
    next_default: Diagonal,
    current_mode: DisplayMode,
    list_open: bool,
    active_id: u32,
    list_last_names: Vec<String>,
    current_show_names: bool,
    preview_width: u32,
    preview_height: u32,
}

/// A manager of previews, by what its texts say.
#[verifier::ext_equal]
pub struct ManagerModel {
    /// The preview of each character.
    pub previews: Map<Seq<char>, PreviewSlot>,
    /// The offset for the next preview without a place of its own.
    pub next_default: int,
    /// How the clients are shown.
    pub current_mode: DisplayMode,
    /// Whether the client list is there.
    pub list_open: bool,
    /// The window that had the focus last.
    pub active_id: u32,
    /// The names that the client list showed last.
    pub list_last_names: Seq<Seq<char>>,
    /// Whether nameplates are shown.
    pub current_show_names: bool,
    /// The size of the previews.
    pub preview_width: u32,
    pub preview_height: u32,
}

impl View for PreviewManager {
    type V = ManagerModel;

    closed spec fn view(&self) -> ManagerModel {
        ManagerModel {
            previews: self.previews@,
            next_default: self.next_default@,
            current_mode: self.current_mode,
            list_open: self.list_open,
            active_id: self.active_id,
            list_last_names: texts(self.list_last_names@),
            current_show_names: self.current_show_names,
            preview_width: self.preview_width,
            preview_height: self.preview_height,
        }
    }
}

/// Which windows go away when the clients are shown in another way.
#[derive(Debug, Clone, Copy, PartialEq, Eq, Structural)]
pub enum Teardown {
    Nothing,
    List,
    Previews,
}

/// Where a new preview stands.
#[derive(Debug, Clone, Copy, PartialEq, Eq, Structural)]
pub enum SpawnPlace {
    /// Where it was put before.
    Saved { x: i32, y: i32 },
    /// As far from the corner on both axes, in pixels at 96 dots per inch.
    Diagonal { distance: i32 },
}

/// What has to be done about the preview of a window.
#[derive(Debug, Clone, Copy, PartialEq, Eq, Structural)]
pub enum PreviewAction {
    /// Nothing.
    Keep,
    /// It has to be made.
    Create,
    /// It shows a window that is gone, and has to be made again.
    Rebind,
}

/// What a change of focus means for the windows.
#[derive(Debug)]
pub struct FocusChange {
    /// The previews that change, and whether each of them has the focus now.
    pub flipped: Vec<(String, bool)>,
    /// Whether the client list has to be painted again.
    pub repaint_list: bool,
}

/// What a look at the clients means for the client list.
#[derive(Debug, Clone, Copy, PartialEq, Eq, Structural)]
pub struct ListUpdate {
    /// Its new height, if that changes.
    pub resize: Option<i64>,
    /// Whether it has to be painted again.
    pub repaint: bool,
}

/// The windows that go away when the clients are shown in the way `target`.
pub open spec fn torn_down(current: DisplayMode, target: DisplayMode) -> Teardown {
    if target == current {
        Teardown::Nothing
    } else {
        match target {
            DisplayMode::Previews => Teardown::List,
            DisplayMode::List => Teardown::Previews,
        }
    }
}

/// The manager once the clients are shown in the way `target`.
pub open spec fn switched(m: ManagerModel, target: DisplayMode) -> ManagerModel {
    match torn_down(m.current_mode, target) {
        Teardown::Nothing => m,
        Teardown::List => ManagerModel { current_mode: target, list_open: false, ..m },
        Teardown::Previews => ManagerModel { current_mode: target, previews: Map::empty(), ..m },
    }
}

/// What the client list needs to show `names` after it showed `last`.
pub open spec fn list_update(
    last: Seq<Seq<char>>,
    names: Seq<Seq<char>>,
    current_height: int,
    m: ListMetrics,
) -> ListUpdate {
    let height = list_height(names.len() as int, m);
    ListUpdate {
        resize: if names != last && current_height != height {
            Some(height as i64)
        } else {
            None
        },
        repaint: names != last,
    }
}

/// Some window has the title.
pub open spec fn shown(windows: Seq<WindowModel>, name: Seq<char>) -> bool {
    exists|i: int| 0 <= i < windows.len() && (#[trigger] windows[i]).title == name
}

/// The previews whose client still runs.
pub open spec fn kept(
    previews: Map<Seq<char>, PreviewSlot>,
    windows: Seq<WindowModel>,
) -> Map<Seq<char>, PreviewSlot> {
    Map::new(
        |name: Seq<char>| previews.contains_key(name) && shown(windows, name),
        |name: Seq<char>| previews[name],
    )
}

/// What has to be done about the preview of a window.
pub open spec fn action_for(
    previews: Map<Seq<char>, PreviewSlot>,
    w: WindowModel,
) -> PreviewAction {
    if !previews.contains_key(w.title) {
        PreviewAction::Create
    } else if previews[w.title].source_id != w.id {
        PreviewAction::Rebind
    } else {
        PreviewAction::Keep
    }
}

/// The previews after what had to be done about a window was tried.
pub open spec fn after_window(
    previews: Map<Seq<char>, PreviewSlot>,
    w: WindowModel,
    made: bool,
) -> Map<Seq<char>, PreviewSlot> {
    if action_for(previews, w) == PreviewAction::Keep {
        previews
    } else if made {
        previews.insert(w.title, PreviewSlot { source_id: w.id, is_active: false })
    } else {
        previews.remove(w.title)
    }
}

/// The previews with the highlight on those that show the window `active_id`.
pub open spec fn highlighted(previews: Map<Seq<char>, PreviewSlot>, active_id: u32) -> Map<
    Seq<char>,
    PreviewSlot,
> {
    Map::new(
        |name: Seq<char>| previews.contains_key(name),
        |name: Seq<char>|
            PreviewSlot {
                source_id: previews[name].source_id,
                is_active: previews[name].source_id == active_id,
            },
    )
}

/// The highlight of a preview changes.
pub open spec fn flips(
    previews: Map<Seq<char>, PreviewSlot>,
    active_id: u32,
    name: Seq<char>,
) -> bool {
    previews.contains_key(name) && previews[name].is_active != (previews[name].source_id
        == active_id)
}

/// The titles of windows.
pub open spec fn titles(windows: Seq<WindowModel>) -> Seq<Seq<char>> {
    Seq::new(windows.len(), |i: int| windows[i].title)
}

/// The place that was remembered, if it can be seen.
pub open spec fn visible_place(place: Option<(i32, i32)>, screen: Screen) -> Option<(i32, i32)> {
    match place {
        Some(at) => if on_screen(at.0 as int, at.1 as int, screen) {
            Some(at)
        } else {
            None
        },
        None => None,
    }
}

/// The place that was remembered for a preview.
pub open spec fn remembered(m: PositionsModel, name: Seq<char>) -> Option<(i32, i32)> {
    if m.positions.contains_key(name) {
        Some(m.positions[name])
    } else {
        None
    }
}

fn keep_visible(place: Option<(i32, i32)>, screen: Screen) -> (r: Option<(i32, i32)>)
    ensures
        r == visible_place(place, screen),
{
    match place {
        Some(at) => if position_on_screen(at.0, at.1, screen) {
            Some(at)
        } else {
            None
        },
        None => None,
    }
}

/// Where the client list stands when it is opened: where it was put before, if
/// that can be seen.
pub fn list_spawn_position(positions: &PreviewPositions, screen: Screen) -> (r: (i32, i32))
    ensures
        r == match visible_place(positions@.list_position, screen) {
            Some(at) => at,
            None => (20i32, 20i32),
        },
{
    match keep_visible(positions.list_position, screen) {
        Some(at) => at,
        None => (20, 20),
    }
}

impl PreviewManager {
    /// No windows yet; the settings are those of the configuration and those
    /// that take effect at once.
    pub fn new(config: &Config, live: LiveSettings, show_names: bool) -> (r: Self)
        ensures
            r@ == (ManagerModel {
                previews: Map::empty(),
                next_default: 0,
                current_mode: live.display_mode,
                list_open: false,
                active_id: 0,
                list_last_names: Seq::empty(),
                current_show_names: show_names,
                preview_width: config@.preview_width,
                preview_height: config@.preview_height,
            }),
    {
        let r = PreviewManager {
            previews: NameMap::new(),
            next_default: Diagonal::new(),
            current_mode: live.display_mode,
            list_open: false,
            active_id: 0,
            list_last_names: Vec::new(),
            current_show_names: show_names,
            preview_width: config.preview_width,
            preview_height: config.preview_height,
        };
        assert(r@.list_last_names =~= Seq::empty());
        r
    }

    /// Shows the clients in another way. The windows of the way that is left go
    /// away.
    pub fn switch_mode(&mut self, target: DisplayMode) -> (r: Teardown)
        ensures
            r == torn_down(old(self)@.current_mode, target),
            final(self)@ == switched(old(self)@, target),
    {
        if target == self.current_mode {
            return Teardown::Nothing;
        }
        self.current_mode = target;
        match target {
            DisplayMode::Previews => {
                self.list_open = false;
                Teardown::List
            },
            DisplayMode::List => {
                self.previews = NameMap::new();
                Teardown::Previews
            },
        }
    }

    /// Takes over the size that is set. Gives the new size when it changed.
    pub fn apply_live_size(&mut self, live: LiveSettings) -> (r: Option<(i32, i32)>)
        ensures
            r == if live.preview_width == old(self)@.preview_width && live.preview_height == old(
                self,
            )@.preview_height {
                None
            } else {
                Some((live.preview_width as i32, live.preview_height as i32))
            },
            final(self)@ == (ManagerModel {
                preview_width: live.preview_width,
                preview_height: live.preview_height,
                ..old(self)@
            }),
    {
        if live.preview_width == self.preview_width && live.preview_height == self.preview_height {
            return None;
        }
        self.preview_width = live.preview_width;
        self.preview_height = live.preview_height;
        Some((live.preview_width as i32, live.preview_height as i32))
    }

    /// Takes over whether nameplates are shown. Gives the new setting when it
    /// changed.
    pub fn apply_live_show_names(&mut self, want: bool) -> (r: Option<bool>)
        ensures
            r == if want == old(self)@.current_show_names {
                None
            } else {
                Some(want)
            },
            final(self)@ == (ManagerModel { current_show_names: want, ..old(self)@ }),
    {
        if want == self.current_show_names {
            return None;
        }
        self.current_show_names = want;
        Some(want)
    }

    /// Lets go of the previews whose client no longer runs. Gives their names.
    pub fn retain_live(&mut self, windows: &Vec<EveWindow>) -> (r: Vec<String>)
        ensures
            final(self)@ == (ManagerModel {
                previews: kept(
                    old(self)@.previews,
                    windows_of(windows@),
                ),
                ..old(self)@
            }),
            forall|name: Seq<char>| #[trigger]
                texts(r@).contains(name) <==> old(self)@.previews.contains_key(name)
                    && !shown(windows_of(windows@), name),
            texts(r@).no_duplicates(),
    {
        let ghost all = windows_of(windows@);
        let ghost before = self.previews@;
        let ghost start = self@;
        let names: Vec<String> = self.previews.names();
        let mut gone: Vec<String> = Vec::new();
        let mut i: usize = 0;
        while i < names.len()
            invariant
                i <= names@.len(),
                all == windows_of(windows@),
                forall|j: int, k: int|
                    0 <= j < names@.len() && 0 <= k < names@.len() && (#[trigger] names@[j])@ == (
                    #[trigger] names@[k])@ ==> j == k,
                forall|j: int| 0 <= j < names@.len() ==> before.contains_key((#[trigger] names@[j])@),
                forall|name: Seq<char>| #[trigger]
                    before.contains_key(name) ==> exists|j: int|
                        0 <= j < names@.len() && (#[trigger] names@[j])@ == name,
                forall|name: Seq<char>| #[trigger]
                    self.previews@.contains_key(name) ==> before.contains_key(name)
                        && self.previews@[name] == before[name],
                forall|j: int|
                    i <= j < names@.len() ==> self.previews@.contains_key((#[trigger] names@[j])@),
                forall|j: int|
                    0 <= j < i ==> self.previews@.contains_key((#[trigger] names@[j])@) == shown(
                        all,
                        names@[j]@,
                    ),
                forall|g: int|
                    0 <= g < gone@.len() ==> before.contains_key((#[trigger] gone@[g])@) && !shown(
                        all,
                        gone@[g]@,
                    ) && !self.previews@.contains_key(gone@[g]@),
                forall|j: int|
                    0 <= j < i && !shown(all, (#[trigger] names@[j])@) ==> exists|g: int|
                        0 <= g < gone@.len() && (#[trigger] gone@[g])@ == names@[j]@,
                forall|g: int, h: int|
                    0 <= g < gone@.len() && 0 <= h < gone@.len() && (#[trigger] gone@[g])@ == (
                    #[trigger] gone@[h])@ ==> g == h,
                self@ == (ManagerModel { previews: self.previews@, ..start }),
            decreases names@.len() - i,
        {
            let ghost gone_before = gone@;
            if !is_shown(windows, names[i].as_str()) {
                self.previews.remove(names[i].as_str());
                gone.push(names[i].clone());
                proof {
                    let n = gone_before.len() as int;
                    assert(gone@[n]@ == names@[i as int]@);
                    assert forall|g: int| 0 <= g < gone@.len() implies before.contains_key(
                        (#[trigger] gone@[g])@,
                    ) && !shown(all, gone@[g]@) && !self.previews@.contains_key(gone@[g]@) by {
                        if g < n {
                            assert(gone@[g] == gone_before[g]);
                        }
                    }
                    assert forall|j: int| 0 <= j < i + 1 && !shown(
                        all,
                        (#[trigger] names@[j])@,
                    ) implies exists|g: int|
                        0 <= g < gone@.len() && (#[trigger] gone@[g])@ == names@[j]@ by {
                        if j < i {
                            let g = choose|g: int|
                                0 <= g < gone_before.len() && (#[trigger] gone_before[g])@
                                    == names@[j]@;
                            assert(gone@[g] == gone_before[g]);
                        } else {
                            assert(gone@[n]@ == names@[j]@);
                        }
                    }
                    assert forall|g: int, h: int|
                        0 <= g < gone@.len() && 0 <= h < gone@.len() && (#[trigger] gone@[g])@ == (
                        #[trigger] gone@[h])@ implies g == h by {
                        if g < n {
                            assert(gone@[g] == gone_before[g]);
                        }
                        if h < n {
                            assert(gone@[h] == gone_before[h]);
                        }
                    }
                }
            }
            i = i + 1;
        }
        proof {
            assert(self.previews@ =~= kept(before, all));
            let out = texts(gone@);
            assert forall|name: Seq<char>| #[trigger] out.contains(name) <==> before.contains_key(
                name,
            ) && !shown(all, name) by {
                if out.contains(name) {
                    let g = choose|g: int| 0 <= g < out.len() && out[g] == name;
                    assert(gone@[g]@ == name);
                }
                if before.contains_key(name) && !shown(all, name) {
                    let j = choose|j: int| 0 <= j < names@.len() && (#[trigger] names@[j])@ == name;
                    let g = choose|g: int|
                        0 <= g < gone@.len() && (#[trigger] gone@[g])@ == names@[j]@;
                    assert(out[g] == name);
                }
            }
            assert forall|g: int, h: int|
                0 <= g < out.len() && 0 <= h < out.len() && g != h implies out[g] != out[h] by {
                assert(out[g] == gone@[g]@);
                assert(out[h] == gone@[h]@);
            }
        }
        gone
    }

    /// What has to be done about the preview of a window.
    pub fn preview_action(&self, window: &EveWindow) -> (r: PreviewAction)
        ensures
            r == action_for(self@.previews, window@),
    {
        match self.previews.get(window.title.as_str()) {
            Some(slot) => if slot.source_id != window.id {
                PreviewAction::Rebind
            } else {
                PreviewAction::Keep
            },
            None => PreviewAction::Create,
        }
    }

    /// Takes note of how that went.
    pub fn settle_window(&mut self, window: &EveWindow, made: bool)
        ensures
            final(self)@ == (ManagerModel {
                previews: after_window(old(self)@.previews, window@, made),
                ..old(self)@
            }),
    {
        match self.preview_action(window) {
            PreviewAction::Keep => {},
            _ => {
                if made {
                    self.previews.insert(
                        window.title.clone(),
                        PreviewSlot { source_id: window.id, is_active: false },
                    );
                } else {
                    self.previews.remove(window.title.as_str());
                }
            },
        }
    }

    /// Where the preview of a character stands when it is made: where it was
    /// put before, if that can be seen, and otherwise next on the diagonal.
    pub fn spawn_position(
        &mut self,
        positions: &PreviewPositions,
        title: &str,
        screen: Screen,
    ) -> (r: SpawnPlace)
        ensures
            0 <= old(self)@.next_default < 320,
            match visible_place(remembered(positions@, title@), screen) {
                Some(at) => r == (SpawnPlace::Saved { x: at.0, y: at.1 }) && final(self)@ == old(
                    self,
                )@,
                None => r == (SpawnPlace::Diagonal {
                    distance: (10 + old(self)@.next_default) as i32,
                }) && final(self)@ == (ManagerModel {
                    next_default: next_offset(old(self)@.next_default),
                    ..old(self)@
                }),
            },
    {
        proof {
            use_type_invariant(&self.next_default);
        }
        match keep_visible(positions.get(title), screen) {
            Some(at) => SpawnPlace::Saved { x: at.0, y: at.1 },
            None => {
                let offset: i32 = self.next_default.advance();
                SpawnPlace::Diagonal { distance: 10 + offset }
            },
        }
    }

    /// Whether the client list has to be opened.
    pub fn needs_list(&self) -> (r: bool)
        ensures
            r == !self@.list_open,
    {
        !self.list_open
    }

    /// Takes note that the client list was opened.
    pub fn list_opened(&mut self)
        ensures
            final(self)@ == (ManagerModel { list_open: true, ..old(self)@ }),
    {
        self.list_open = true;
    }

    /// Lets the client list catch up with the clients, in the order in which it
    /// shows them. It changes only when they did.
    pub fn reconcile_list(
        &mut self,
        ordered: &Vec<EveWindow>,
        current_height: i64,
        metrics: &ListMetrics,
    ) -> (r: ListUpdate)
        requires
            ordered@.len() <= i32::MAX,
        ensures
            final(self)@ == (ManagerModel {
                list_last_names: titles(windows_of(ordered@)),
                ..old(self)@
            }),
            r == list_update(
                old(self)@.list_last_names,
                titles(windows_of(ordered@)),
                current_height as int,
                *metrics,
            ),
    {
        let mut names: Vec<String> = Vec::new();
        let mut i: usize = 0;
        while i < ordered.len()
            invariant
                i <= ordered@.len(),
                names@.len() == i,
                forall|j: int| 0 <= j < i ==> #[trigger] names@[j] == ordered@[j].title,
            decreases ordered@.len() - i,
        {
            names.push(ordered[i].title.clone());
            i = i + 1;
        }
        assert(texts(names@) =~= titles(windows_of(ordered@)));
        let repaint: bool = !same_texts(&names, &self.list_last_names);
        let height: i64 = list_window_height(ordered.len(), metrics);
        self.list_last_names = names;
        ListUpdate {
            resize: if repaint && current_height != height {
                Some(height)
            } else {
                None
            },
            repaint,
        }
    }

    /// Moves the highlight to the previews of the window that has the focus,
    /// and lets the cycle go on from there.
    pub fn update_active(&mut self, state: &mut CycleState, active_id: u32) -> (r: FocusChange)
        ensures
            final(state)@ == synced(old(state)@, active_id),
            final(self)@ == (ManagerModel {
                previews: highlighted(old(self)@.previews, active_id),
                active_id,
                ..old(self)@
            }),
            r.repaint_list == (old(self)@.active_id != active_id && old(self)@.list_open),
            forall|i: int|
                0 <= i < r.flipped@.len() ==> flips(
                    old(self)@.previews,
                    active_id,
                    (#[trigger] r.flipped@[i]).0@,
                ) && r.flipped@[i].1 == (old(self)@.previews[r.flipped@[i].0@].source_id
                    == active_id),
            forall|name: Seq<char>| #[trigger]
                flips(old(self)@.previews, active_id, name) ==> exists|i: int|
                    0 <= i < r.flipped@.len() && (#[trigger] r.flipped@[i]).0@ == name,
            forall|i: int, j: int|
                0 <= i < r.flipped@.len() && 0 <= j < r.flipped@.len() && (
                #[trigger] r.flipped@[i]).0@ == (#[trigger] r.flipped@[j]).0@ ==> i == j,
    {
        state.sync_with_active(active_id);
        let flipped: Vec<(String, bool)> = self.highlight(active_id);
        let repaint_list: bool = self.active_id != active_id && self.list_open;
        self.active_id = active_id;
        let r = FocusChange { flipped, repaint_list };
        assert forall|name: Seq<char>| #[trigger]
            flips(old(self)@.previews, active_id, name) implies exists|i: int|
            0 <= i < r.flipped@.len() && (#[trigger] r.flipped@[i]).0@ == name by {
            let i = choose|i: int| 0 <= i < flipped@.len() && (#[trigger] flipped@[i]).0@ == name;
            assert(r.flipped@[i].0@ == name);
        }
        r
    }

    fn highlight(&mut self, active_id: u32) -> (r: Vec<(String, bool)>)
        ensures
            final(self)@ == (ManagerModel {
                previews: highlighted(old(self)@.previews, active_id),
                ..old(self)@
            }),
            forall|i: int|
                0 <= i < r@.len() ==> flips(
                    old(self)@.previews,
                    active_id,
                    (#[trigger] r@[i]).0@,
                ) && r@[i].1 == (old(self)@.previews[r@[i].0@].source_id == active_id),
            forall|name: Seq<char>| #[trigger]
                flips(old(self)@.previews, active_id, name) ==> exists|i: int|
                    0 <= i < r@.len() && (#[trigger] r@[i]).0@ == name,
            forall|i: int, j: int|
                0 <= i < r@.len() && 0 <= j < r@.len() && (#[trigger] r@[i]).0@ == (
                #[trigger] r@[j]).0@ ==> i == j,
    {
        let ghost before = self.previews@;
        let ghost start = self@;
        let names: Vec<String> = self.previews.names();
        let mut flipped: Vec<(String, bool)> = Vec::new();
        let mut i: usize = 0;
        while i < names.len()
            invariant
                i <= names@.len(),
                forall|j: int, k: int|
                    0 <= j < names@.len() && 0 <= k < names@.len() && (#[trigger] names@[j])@ == (
                    #[trigger] names@[k])@ ==> j == k,
                forall|j: int| 0 <= j < names@.len() ==> before.contains_key((#[trigger] names@[j])@),
                self.previews@.dom() == before.dom(),
                forall|j: int|
                    i <= j < names@.len() ==> self.previews@[(#[trigger] names@[j])@]
                        == before[names@[j]@],
                forall|j: int|
                    0 <= j < i ==> self.previews@[(#[trigger] names@[j])@] == highlighted(
                        before,
                        active_id,
                    )[names@[j]@],
                forall|g: int|
                    0 <= g < flipped@.len() ==> flips(
                        before,
                        active_id,
                        (#[trigger] flipped@[g]).0@,
                    ) && flipped@[g].1 == (before[flipped@[g].0@].source_id == active_id),
                forall|g: int|
                    0 <= g < flipped@.len() ==> (exists|j: int|
                        0 <= j < i && (#[trigger] names@[j])@ == (#[trigger] flipped@[g]).0@),
                forall|j: int|
                    0 <= j < i && flips(before, active_id, (#[trigger] names@[j])@) ==> exists|
                        g: int,
                    |
                        0 <= g < flipped@.len() && (#[trigger] flipped@[g]).0@ == names@[j]@,
                forall|g: int, h: int|
                    0 <= g < flipped@.len() && 0 <= h < flipped@.len() && (
                    #[trigger] flipped@[g]).0@ == (#[trigger] flipped@[h]).0@ ==> g == h,
                self@ == (ManagerModel { previews: self.previews@, ..start }),
            decreases names@.len() - i,
        {
            let found: Option<&PreviewSlot> = self.previews.get(names[i].as_str());
            if let Some(slot) = found {
                let source_id: u32 = slot.source_id;
                let now_active: bool = source_id == active_id;
                if slot.is_active != now_active {
                    let ghost flipped_before = flipped@;
                    self.previews.insert(
                        names[i].clone(),
                        PreviewSlot { source_id, is_active: now_active },
                    );
                    flipped.push((names[i].clone(), now_active));
                    proof {
                        let n = flipped_before.len() as int;
                        assert(self.previews@.dom() =~= before.dom());
                        assert(flipped@[n].0@ == names@[i as int]@);
                        assert forall|g: int| 0 <= g < flipped@.len() implies exists|j: int|
                            0 <= j < i + 1 && (#[trigger] names@[j])@ == (
                            #[trigger] flipped@[g]).0@ by {
                            if g < n {
                                assert(flipped@[g] == flipped_before[g]);
                            } else {
                                assert(names@[i as int]@ == flipped@[g].0@);
                            }
                        }
                        assert forall|j: int|
                            0 <= j < i + 1 && flips(
                                before,
                                active_id,
                                (#[trigger] names@[j])@,
                            ) implies exists|g: int|
                            0 <= g < flipped@.len() && (#[trigger] flipped@[g]).0@
                                == names@[j]@ by {
                            if j < i {
                                let g = choose|g: int|
                                    0 <= g < flipped_before.len() && (
                                    #[trigger] flipped_before[g]).0@ == names@[j]@;
                                assert(flipped@[g] == flipped_before[g]);
                            } else {
                                assert(flipped@[n].0@ == names@[j]@);
                            }
                        }
                        assert forall|g: int, h: int|
                            0 <= g < flipped@.len() && 0 <= h < flipped@.len() && (
                            #[trigger] flipped@[g]).0@ == (
                            #[trigger] flipped@[h]).0@ implies g == h by {
                            if g < n {
                                assert(flipped@[g] == flipped_before[g]);
                            }
                            if h < n {
                                assert(flipped@[h] == flipped_before[h]);
                            }
                        }
                    }
                }
            }
            i = i + 1;
        }
        assert(self.previews@ =~= highlighted(before, active_id));
        flipped
    }

    /// Whether nameplates are shown.
    pub fn show_names(&self) -> (r: bool)
        ensures
            r == self@.current_show_names,
    {
        self.current_show_names
    }

    /// The window that had the focus last.
    pub fn active_id(&self) -> (r: u32)
        ensures
            r == self@.active_id,
    {
        self.active_id
    }

    /// The size of a new preview.
    pub fn preview_size(&self) -> (r: (i32, i32))
        ensures
            r == (self@.preview_width as i32, self@.preview_height as i32),
    {
        (self.preview_width as i32, self.preview_height as i32)
    }
}

/// Whether some window has the title.
fn is_shown(windows: &Vec<EveWindow>, name: &str) -> (r: bool)
    ensures
        r == shown(windows_of(windows@), name@),
{
    let ghost all = windows_of(windows@);
    let mut i: usize = 0;
    while i < windows.len()
        invariant
            i <= windows@.len(),
            all == windows_of(windows@),
            forall|j: int| 0 <= j < i ==> (#[trigger] all[j]).title != name@,
        decreases windows@.len() - i,
    {
        if same(windows[i].title.as_str(), name) {
            assert(all[i as int].title == name@);
            return true;
        }
        i = i + 1;
    }
    false
}

/// Whether two lists hold the same texts in the same order.
fn same_texts(a: &Vec<String>, b: &Vec<String>) -> (r: bool)
    ensures
        r == (texts(a@) == texts(b@)),
{
    let ghost x = texts(a@);
    let ghost y = texts(b@);
    if a.len() != b.len() {
        assert(x.len() != y.len());
        return false;
    }
    let mut i: usize = 0;
    while i < a.len()
        invariant
            i <= a@.len(),
            a@.len() == b@.len(),
            x == texts(a@),
            y == texts(b@),
            forall|j: int| 0 <= j < i ==> #[trigger] x[j] == y[j],
        decreases a@.len() - i,
    {
        if !same(a[i].as_str(), b[i].as_str()) {
            assert(x[i as int] != y[i as int]);
            return false;
        }
        i = i + 1;
    }
    assert(x =~= y);
    true
}

/// The previews after every window was looked at in turn and each preview that
/// was needed could be made.
pub open spec fn caught_up(
    previews: Map<Seq<char>, PreviewSlot>,
    windows: Seq<WindowModel>,
) -> Map<Seq<char>, PreviewSlot>
    decreases windows.len(),
{
    if windows.len() == 0 {
        previews
    } else {
        after_window(caught_up(previews, windows.drop_last()), windows.last(), true)
    }
}

proof fn lemma_caught_up(
    previews: Map<Seq<char>, PreviewSlot>,
    windows: Seq<WindowModel>,
    name: Seq<char>,
)
    ensures
        caught_up(previews, windows).contains_key(name) <==> previews.contains_key(name) || shown(
            windows,
            name,
        ),
        !shown(windows, name) && previews.contains_key(name) ==> caught_up(previews, windows)[name]
            == previews[name],
        (previews.contains_key(name) && forall|i: int|
            0 <= i < windows.len() && (#[trigger] windows[i]).title == name ==> windows[i].id
                == previews[name].source_id) ==> caught_up(previews, windows)[name]
            == previews[name],
    decreases windows.len(),
{
    if windows.len() > 0 {
        let rest = windows.drop_last();
        let w = windows.last();
        lemma_caught_up(previews, rest, name);
        assert(windows[windows.len() - 1] == w);
        assert(forall|i: int| 0 <= i < rest.len() ==> #[trigger] rest[i] == windows[i]);
        if shown(rest, name) {
            let i = choose|i: int| 0 <= i < rest.len() && (#[trigger] rest[i]).title == name;
            assert(windows[i].title == name);
        }
        if shown(windows, name) && w.title != name {
            let i = choose|i: int| 0 <= i < windows.len() && (#[trigger] windows[i]).title == name;
            assert(rest[i].title == name);
        }
    }
}

/// Once the previews caught up with the clients there is a preview for every
/// client and for nothing else, and it shows the client's window: the last one
/// found, where several have the same title.
pub proof fn law_previews_match_clients(
    previews: Map<Seq<char>, PreviewSlot>,
    windows: Seq<WindowModel>,
    name: Seq<char>,
)
    ensures
        ({
            let after = caught_up(kept(previews, windows), windows);
            &&& after.contains_key(name) <==> shown(windows, name)
            &&& forall|i: int|
                0 <= i < windows.len() && (#[trigger] windows[i]).title == name && (forall|j: int|
                    i < j < windows.len() ==> (#[trigger] windows[j]).title != name)
                    ==> after[name].source_id == windows[i].id
        }),
{
    let start = kept(previews, windows);
    lemma_caught_up(start, windows, name);
    assert forall|i: int|
        0 <= i < windows.len() && (#[trigger] windows[i]).title == name && (forall|j: int|
            i < j < windows.len() ==> (#[trigger] windows[j]).title != name) implies caught_up(
        start,
        windows,
    )[name].source_id == windows[i].id by {
        lemma_last_window(start, windows, name, i);
    }
}

proof fn lemma_last_window(
    previews: Map<Seq<char>, PreviewSlot>,
    windows: Seq<WindowModel>,
    name: Seq<char>,
    i: int,
)
    requires
        0 <= i < windows.len(),
        windows[i].title == name,
        forall|j: int| i < j < windows.len() ==> (#[trigger] windows[j]).title != name,
    ensures
        caught_up(previews, windows)[name].source_id == windows[i].id,
    decreases windows.len(),
{
    if i < windows.len() - 1 {
        let rest = windows.drop_last();
        assert(windows[windows.len() - 1].title != name);
        assert(forall|j: int| 0 <= j < rest.len() ==> #[trigger] rest[j] == windows[j]);
        lemma_last_window(previews, rest, name, i);
    }
}

/// A preview whose client still runs in the same window is left alone.
pub proof fn law_running_clients_keep_their_preview(
    previews: Map<Seq<char>, PreviewSlot>,
    windows: Seq<WindowModel>,
    name: Seq<char>,
)
    requires
        previews.contains_key(name),
        shown(windows, name),
        forall|i: int|
            0 <= i < windows.len() && (#[trigger] windows[i]).title == name ==> windows[i].id
                == previews[name].source_id,
    ensures
        caught_up(kept(previews, windows), windows)[name] == previews[name],
{
    assert(kept(previews, windows).contains_key(name));
    lemma_caught_up(kept(previews, windows), windows, name);
}

/// The highlight is on exactly the previews of the window that has the focus,
/// and setting it again changes nothing.
pub proof fn law_highlight_follows_focus(
    previews: Map<Seq<char>, PreviewSlot>,
    active_id: u32,
    name: Seq<char>,
)
    ensures
        previews.contains_key(name) ==> highlighted(previews, active_id)[name].is_active == (
        previews[name].source_id == active_id),
        !flips(highlighted(previews, active_id), active_id, name),
        highlighted(highlighted(previews, active_id), active_id) == highlighted(previews, active_id),
{
    assert(highlighted(highlighted(previews, active_id), active_id) =~= highlighted(
        previews,
        active_id,
    ));
}

/// Only the windows of the way in which the clients are shown are there.
pub open spec fn unmixed(m: ManagerModel) -> bool {
    match m.current_mode {
        DisplayMode::Previews => !m.list_open,
        DisplayMode::List => m.previews == Map::<Seq<char>, PreviewSlot>::empty(),
    }
}

/// Previews and the client list are never there together, however often the
/// clients are shown in another way.
pub proof fn law_modes_do_not_mix(m: ManagerModel, target: DisplayMode)
    requires
        unmixed(m),
    ensures
        unmixed(switched(m, target)),
        switched(m, target).current_mode == target,
{
}

/// A client list that shows the clients already is left alone.
pub proof fn law_unchanged_list_is_quiet(
    names: Seq<Seq<char>>,
    current_height: int,
    m: ListMetrics,
)
    ensures
        list_update(names, names, current_height, m) == (ListUpdate {
            resize: None,
            repaint: false,
        }),
{
}

/// Of the entries for one name the last one counts.
pub proof fn law_the_last_place_of_a_name_counts(
    entries: Seq<(String, (i32, i32))>,
    name: Seq<char>,
    i: int,
)
    requires
        0 <= i < entries.len(),
        entries[i].0@ == name,
        forall|j: int| i < j < entries.len() ==> (#[trigger] entries[j]).0@ != name,
    ensures
        places_of(entries).contains_key(name),
        places_of(entries)[name] == entries[i].1,
    decreases entries.len(),
{
    if i < entries.len() - 1 {
        let rest = entries.drop_last();
        assert(entries[entries.len() - 1].0@ != name);
        assert forall|j: int| i < j < rest.len() implies (#[trigger] rest[j]).0@ != name by {
            assert(entries[j].0@ != name);
        }
        law_the_last_place_of_a_name_counts(rest, name, i);
    }
}

/// A name without an entry has no place.
pub proof fn law_names_without_an_entry_have_no_place(
    entries: Seq<(String, (i32, i32))>,
    name: Seq<char>,
)
    requires
        forall|j: int| 0 <= j < entries.len() ==> (#[trigger] entries[j]).0@ != name,
    ensures
        !places_of(entries).contains_key(name),
    decreases entries.len(),
{
    if entries.len() > 0 {
        let rest = entries.drop_last();
        assert(entries[entries.len() - 1].0@ != name);
        assert forall|j: int| 0 <= j < rest.len() implies (#[trigger] rest[j]).0@ != name by {
            assert(entries[j].0@ != name);
        }
        law_names_without_an_entry_have_no_place(rest, name);
    }
}

/// A file gives the place of the client list and those of the previews, each
/// for itself; what it leaves out is not remembered.
pub proof fn law_files_give_each_place(raw: RawPositions, name: Seq<char>)
    ensures
        positions_of(raw).list_position == raw.list_position,
        raw.positions matches Some(entries) ==> positions_of(raw).positions == places_of(entries@),
        raw.positions is None ==> !positions_of(raw).positions.contains_key(name),
        !no_positions().positions.contains_key(name),
        no_positions().list_position is None,
{
}

/// The model of the positions shows them as they are.
pub proof fn law_the_model_shows_the_positions(p: PreviewPositions)
    ensures
        p@.positions == p.positions@,
        p@.list_position == p.list_position,
{
}

/// The place that is remembered for a name is the one in the table. It counts if
/// the desktop shows it, and there it stays as it is.
pub proof fn law_places_count_while_they_are_seen(
    m: PositionsModel,
    name: Seq<char>,
    screen: Screen,
    x: i32,
    y: i32,
)
    ensures
        remembered(m, name) == Some((x, y)) <==> m.positions.contains_key(name)
            && m.positions[name] == (x, y),
        remembered(m, name) is None <==> !m.positions.contains_key(name),
        visible_place(None, screen) is None,
        screen.x <= x < screen.x + screen.width && screen.y <= y < screen.y + screen.height
            ==> visible_place(Some((x, y)), screen) == Some((x, y)),
        !(screen.x <= x < screen.x + screen.width && screen.y <= y < screen.y + screen.height)
            ==> visible_place(Some((x, y)), screen) is None,
{
}

/// Each new preview stands 32 pixels farther down the diagonal than the one
/// before it, and after 320 pixels it starts over.
pub proof fn law_the_diagonal_goes_in_steps(offset: int, steps: nat)
    requires
        0 <= offset < 320,
    ensures
        offset + 32 < 320 ==> next_offset(offset) == offset + 32,
        offset + 32 >= 320 ==> next_offset(offset) == offset + 32 - 320,
        offset_after(offset, 0) == offset,
        offset_after(offset, steps + 1) == next_offset(offset_after(offset, steps)),
{
}

/// To show the clients in another way takes away what showed them before, and
/// nothing else changes. To show them as they are shown changes nothing.
pub proof fn law_another_way_takes_the_old_one_away(
    m: ManagerModel,
    target: DisplayMode,
    name: Seq<char>,
)
    ensures
        torn_down(target, target) == Teardown::Nothing,
        torn_down(DisplayMode::List, DisplayMode::Previews) == Teardown::List,
        torn_down(DisplayMode::Previews, DisplayMode::List) == Teardown::Previews,
        m.current_mode == target ==> switched(m, target) == m,
        m.current_mode == DisplayMode::List && target == DisplayMode::Previews ==> switched(
            m,
            target,
        ) == (ManagerModel { current_mode: DisplayMode::Previews, list_open: false, ..m }),
        m.current_mode == DisplayMode::Previews && target == DisplayMode::List ==> !switched(
            m,
            target,
        ).previews.contains_key(name) && switched(m, target) == (ManagerModel {
            current_mode: DisplayMode::List,
            previews: switched(m, target).previews,
            ..m
        }),
{
}

/// A list of other names is painted again, and made as high as they need if it
/// is not so already.
pub proof fn law_changed_lists_are_painted(
    last: Seq<Seq<char>>,
    names: Seq<Seq<char>>,
    current_height: int,
    m: ListMetrics,
)
    ensures
        list_update(last, names, current_height, m).repaint <==> last != names,
        last == names || current_height == list_height(names.len() as int, m) ==> list_update(
            last,
            names,
            current_height,
            m,
        ).resize is None,
        last != names && current_height != list_height(names.len() as int, m) ==> list_update(
            last,
            names,
            current_height,
            m,
        ).resize == Some(list_height(names.len() as int, m) as i64),
{
}

/// A preview stays exactly while some window has its name, and as it is.
pub proof fn law_previews_stay_with_their_clients(
    previews: Map<Seq<char>, PreviewSlot>,
    windows: Seq<WindowModel>,
    name: Seq<char>,
)
    ensures
        kept(previews, windows).contains_key(name) <==> previews.contains_key(name) && (exists|
            i: int,
        |
            0 <= i < windows.len() && (#[trigger] windows[i]).title == name),
        kept(previews, windows).contains_key(name) ==> kept(previews, windows)[name]
            == previews[name],
        shown(windows, name) <==> exists|i: int|
            0 <= i < windows.len() && (#[trigger] windows[i]).title == name,
{
}

/// A window without a preview of its name gets one, a preview of another window
/// is made again, and any other is left alone. A new preview shows the window
/// without the highlight; one that could not be made is not there. No other
/// preview changes.
pub proof fn law_windows_get_their_preview(
    previews: Map<Seq<char>, PreviewSlot>,
    w: WindowModel,
    made: bool,
    other: Seq<char>,
)
    ensures
        action_for(previews, w) == PreviewAction::Create <==> !previews.contains_key(w.title),
        action_for(previews, w) == PreviewAction::Rebind <==> previews.contains_key(w.title)
            && previews[w.title].source_id != w.id,
        action_for(previews, w) == PreviewAction::Keep <==> previews.contains_key(w.title)
            && previews[w.title].source_id == w.id,
        previews.contains_key(w.title) && previews[w.title].source_id == w.id ==> after_window(
            previews,
            w,
            made,
        ) == previews,
        !(previews.contains_key(w.title) && previews[w.title].source_id == w.id) ==> after_window(
            previews,
            w,
            made,
        ).contains_key(w.title) == made,
        !(previews.contains_key(w.title) && previews[w.title].source_id == w.id) && made
            ==> after_window(previews, w, made)[w.title].source_id == w.id && !after_window(
            previews,
            w,
            made,
        )[w.title].is_active,
        other != w.title ==> after_window(previews, w, made).contains_key(other)
            == previews.contains_key(other),
        other != w.title && previews.contains_key(other) ==> after_window(previews, w, made)[other]
            == previews[other],
{
}

/// The windows are looked at one after the other.
pub proof fn law_windows_are_looked_at_in_turn(
    previews: Map<Seq<char>, PreviewSlot>,
    windows: Seq<WindowModel>,
    w: WindowModel,
)
    ensures
        caught_up(previews, Seq::empty()) == previews,
        caught_up(previews, windows.push(w)) == after_window(
            caught_up(previews, windows),
            w,
            true,
        ),
{
    assert(windows.push(w).drop_last() =~= windows);
}

/// A change of focus leaves the previews and what they show, and touches only
/// their highlight, where that is not right already.
pub proof fn law_focus_changes_only_the_highlight(
    previews: Map<Seq<char>, PreviewSlot>,
    active_id: u32,
    name: Seq<char>,
)
    ensures
        highlighted(previews, active_id).contains_key(name) <==> previews.contains_key(name),
        previews.contains_key(name) ==> highlighted(previews, active_id)[name].source_id
            == previews[name].source_id && (highlighted(previews, active_id)[name].is_active
            <==> previews[name].source_id == active_id),
        flips(previews, active_id, name) <==> previews.contains_key(name) && highlighted(
            previews,
            active_id,
        )[name].is_active != previews[name].is_active,
{
}

/// The titles of windows come in the order of the windows.
pub proof fn law_titles_come_in_order(windows: Seq<WindowModel>, i: int)
    requires
        0 <= i < windows.len(),
    ensures
        titles(windows).len() == windows.len(),
        titles(windows)[i] == windows[i].title,
{
}

/// Without previews in the list, and without the list beside previews, the
/// windows do not mix.
pub proof fn law_what_does_not_mix(m: ManagerModel)
    ensures
        m.current_mode == DisplayMode::Previews ==> (unmixed(m) <==> !m.list_open),
        m.current_mode == DisplayMode::List ==> (unmixed(m) <==> forall|name: Seq<char>|
            !(#[trigger] m.previews.contains_key(name))),
{
    if forall|name: Seq<char>| !(#[trigger] m.previews.contains_key(name)) {
        assert(m.previews =~= Map::empty());
    }
}

} // verus!
