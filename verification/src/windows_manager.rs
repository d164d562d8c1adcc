//! Telling the windows of clients from all other windows, and bringing one of
//! them to the front.

use vstd::prelude::*;
use vstd::slice::slice_subrange;

use crate::config::DetectionMode;
use crate::paths::plain_name;
use crate::text::{
    contains, ends_with, law_texts_are_found_wherever_they_stand, law_trimmed_is_bare,
    law_trimming_and_lowering_commute, lower, lowered, occurs, skip, starts_with, texts,
    to_ascii_lowercase, to_chars, trim, trimmed, white,
};
use crate::window_manager::{windows_of, EveWindow, WindowModel};

verus! {

/// The number for detection by title.
pub const MODE_TITLE: u8 = 0;

/// The number for detection by program.
pub const MODE_PROCESS: u8 = 1;

/// The number that stands for a mode.
pub open spec fn mode_code(m: DetectionMode) -> u8 {
    match m {
        DetectionMode::Title => MODE_TITLE,
        DetectionMode::Process => MODE_PROCESS,
    }
}

/// The mode that a number stands for; any number but that of detection by
/// program means detection by title.
pub open spec fn mode_of(v: u8) -> DetectionMode {
    if v == MODE_PROCESS {
        DetectionMode::Process
    } else {
        DetectionMode::Title
    }
}

/// The number that stands for a mode.
pub fn mode_to_u8(m: DetectionMode) -> (r: u8)
    ensures
        r == mode_code(m),
{
    match m {
        DetectionMode::Title => MODE_TITLE,
        DetectionMode::Process => MODE_PROCESS,
    }
}

/// The mode that a number stands for.
pub fn mode_from_u8(v: u8) -> (r: DetectionMode)
    ensures
        r == mode_of(v),
{
    if v == MODE_PROCESS {
        DetectionMode::Process
    } else {
        DetectionMode::Title
    }
}

/// A mode comes back from its number.
pub proof fn law_mode_reads_back(m: DetectionMode)
    ensures
        mode_of(mode_code(m)) == m,
{
}

/// The file name of a program as it is compared: without white space around
/// it, in small letters, and with `.exe` at its end. Nothing stays nothing.
pub open spec fn exe_name(name: Seq<char>) -> Seq<char> {
    let bare = lowered(trimmed(name));
    if bare.len() == 0 || ".exe"@.is_suffix_of(bare) {
        bare
    } else {
        bare + ".exe"@
    }
}

/// The file names of programs as they are compared, without those that are
/// nothing.
pub open spec fn exe_names(names: Seq<Seq<char>>) -> Seq<Seq<char>>
    decreases names.len(),
{
    if names.len() == 0 {
        Seq::empty()
    } else if exe_name(names.last()).len() == 0 {
        exe_names(names.drop_last())
    } else {
        exe_names(names.drop_last()).push(exe_name(names.last()))
    }
}

/// The file name of a program as it is compared.
pub fn normalize_exe(name: &str) -> (r: String)
    ensures
        r@ == exe_name(name@),
{
    let mut bare: String = to_ascii_lowercase(trim(name).as_str());
    if !bare.as_str().is_empty() && !ends_with(bare.as_str(), ".exe") {
        bare.append(".exe");
    }
    bare
}

/// The file names of programs as they are compared, without those that are
/// nothing.
pub fn normalize_extras(extras: Vec<String>) -> (r: Vec<String>)
    ensures
        texts(r@) == exe_names(texts(extras@)),
{
    let mut out: Vec<String> = Vec::new();
    let mut i: usize = 0;
    let ghost all = texts(extras@);
    assert(all.take(0) =~= Seq::empty());
    assert(texts(out@) =~= Seq::empty());
    while i < extras.len()
        invariant
            i <= extras@.len(),
            all == texts(extras@),
            texts(out@) == exe_names(all.take(i as int)),
        decreases extras@.len() - i,
    {
        let name: String = normalize_exe(extras[i].as_str());
        assert(all.take(i + 1).drop_last() =~= all.take(i as int));
        assert(all.take(i + 1).last() == extras@[i as int]@);
        if !name.as_str().is_empty() {
            let ghost before = out@;
            out.push(name);
            assert(texts(out@) =~= texts(before).push(name@));
        }
        i = i + 1;
    }
    assert(all.take(all.len() as int) =~= all);
    out
}

/// What windows are looked for by: the mode, and programs that count beside
/// that of the game.
struct Detection {
    mode: u8,
    extras: Vec<String>,
}

/// What windows are looked for by, in words.
#[verifier::ext_equal]
pub struct DetectionModel {
    pub mode: DetectionMode,
    pub extras: Seq<Seq<char>>,
}

spec fn model_of(d: Detection) -> DetectionModel {
    DetectionModel { mode: mode_of(d.mode), extras: texts(d.extras@) }
}

/// What was asked for, in the form in which it is compared.
pub open spec fn asked_for(mode: DetectionMode, extras: Seq<Seq<char>>) -> DetectionModel {
    DetectionModel { mode, extras: exe_names(extras) }
}

/// The settings that handles stand for, one place for each that was made.
pub struct DetectionCells {
    cells: Vec<Detection>,
}

impl View for DetectionCells {
    type V = Seq<DetectionModel>;

    closed spec fn view(&self) -> Seq<DetectionModel> {
        Seq::new(self.cells@.len(), |i: int| model_of(self.cells@[i]))
    }
}

impl DetectionCells {
    /// No settings yet.
    pub fn new() -> (r: Self)
        ensures
            r@ == Seq::<DetectionModel>::empty(),
    {
        let r = DetectionCells { cells: Vec::new() };
        assert(r@ =~= Seq::empty());
        r
    }
}

/// A handle to settings that can be changed while a search goes on. All copies
/// of a handle stand for the same settings.
#[derive(Debug, Clone, Copy, PartialEq, Eq, Structural)]
pub struct DetectionConfig {
    cell: usize,
}

impl View for DetectionConfig {
    type V = int;

    closed spec fn view(&self) -> int {
        self.cell as int
    }
}

/// The handle is one to these settings.
pub open spec fn belongs(handle: DetectionConfig, cells: DetectionCells) -> bool {
    0 <= handle@ < cells@.len()
}

impl DetectionConfig {
    /// A handle to new settings: looks by `mode`, and for `extras` beside the
    /// program of the game.
    pub fn new(cells: &mut DetectionCells, mode: DetectionMode, extras: Vec<String>) -> (r: Self)
        ensures
            r@ == old(cells)@.len(),
            final(cells)@ == old(cells)@.push(asked_for(mode, texts(extras@))),
    {
        let cell: usize = cells.cells.len();
        cells.cells.push(Detection { mode: mode_to_u8(mode), extras: normalize_extras(extras) });
        assert(cells@ =~= old(cells)@.push(asked_for(mode, texts(extras@))));
        DetectionConfig { cell }
    }

    /// Whether the handle is one to these settings.
    pub fn belongs_to(&self, cells: &DetectionCells) -> (r: bool)
        ensures
            r == belongs(*self, *cells),
    {
        self.cell < cells.cells.len()
    }

    /// Looks by another mode and for other programs from now on, wherever a
    /// copy of the handle is used.
    pub fn update(&self, cells: &mut DetectionCells, mode: DetectionMode, extras: Vec<String>)
        requires
            belongs(*self, *old(cells)),
        ensures
            final(cells)@ == old(cells)@.update(self@, asked_for(mode, texts(extras@))),
    {
        let changed: Detection = Detection {
            mode: mode_to_u8(mode),
            extras: normalize_extras(extras),
        };
        cells.cells.set(self.cell, changed);
        assert(cells@ =~= old(cells)@.update(self@, asked_for(mode, texts(extras@))));
    }

    /// The mode.
    pub fn current_mode(&self, cells: &DetectionCells) -> (r: DetectionMode)
        requires
            belongs(*self, *cells),
        ensures
            r == cells@[self@].mode,
    {
        mode_from_u8(cells.cells[self.cell].mode)
    }

    /// A copy of the programs that count beside that of the game.
    pub fn extras_snapshot(&self, cells: &DetectionCells) -> (r: Vec<String>)
        requires
            belongs(*self, *cells),
        ensures
            texts(r@) == cells@[self@].extras,
    {
        let r: Vec<String> = cells.cells[self.cell].extras.clone();
        assert(texts(r@) =~= texts(cells.cells@[self@].extras@));
        r
    }
}

/// A change through one handle is seen through every copy of it, replaces what
/// was there before, and leaves the settings of other handles alone.
pub proof fn law_copies_of_a_handle_see_changes(
    cells: Seq<DetectionModel>,
    handle: DetectionConfig,
    copy: DetectionConfig,
    other: DetectionConfig,
    mode: DetectionMode,
    extras: Seq<Seq<char>>,
)
    requires
        0 <= handle@ < cells.len(),
        0 <= other@ < cells.len(),
        copy == handle,
        other@ != handle@,
    ensures
        cells.update(handle@, asked_for(mode, extras))[copy@] == asked_for(mode, extras),
        cells.update(handle@, asked_for(mode, extras))[other@] == cells[other@],
{
}

/// A new handle is none of those that were made before, and leaves their
/// settings alone.
pub proof fn law_new_handles_are_separate(
    cells: Seq<DetectionModel>,
    earlier: DetectionConfig,
    new: DetectionModel,
)
    requires
        0 <= earlier@ < cells.len(),
    ensures
        earlier@ != cells.len(),
        cells.push(new)[earlier@] == cells[earlier@],
        cells.push(new)[cells.len() as int] == new,
{
}

/// The search for windows of clients.
pub struct WindowsManager {
    detection: DetectionConfig,
}

impl WindowsManager {
    /// The handle to what windows are looked for by.
    pub closed spec fn detection(&self) -> DetectionConfig {
        self.detection
    }

    /// A search by `mode`, and for `extras` beside the program of the game.
    pub fn new(cells: &mut DetectionCells, mode: DetectionMode, extras: Vec<String>) -> (r: Self)
        ensures
            r.detection()@ == old(cells)@.len(),
            final(cells)@ == old(cells)@.push(asked_for(mode, texts(extras@))),
    {
        WindowsManager { detection: DetectionConfig::new(cells, mode, extras) }
    }

    /// A handle through which the search is changed while it goes on: the same
    /// one each time.
    pub fn detection_config(&self) -> (r: DetectionConfig)
        ensures
            r == self.detection(),
    {
        self.detection
    }
}

/// After a change through any handle that a search gave out, earlier or later,
/// the search goes by the change.
pub proof fn law_searches_go_by_their_handles(
    cells: Seq<DetectionModel>,
    search: WindowsManager,
    handle: DetectionConfig,
    mode: DetectionMode,
    extras: Seq<Seq<char>>,
    report: Seq<ScannedWindow>,
)
    requires
        0 <= search.detection()@ < cells.len(),
        handle == search.detection(),
    ensures
        clients(
            cells.update(handle@, asked_for(mode, extras))[search.detection()@],
            report,
        ) == clients(asked_for(mode, extras), report),
{
}

/// The number that a window is known by: the low half of its handle.
pub fn hwnd_to_id(handle: usize) -> (r: u32)
    ensures
        r == handle as u32,
        r as int == handle as int % 0x1_0000_0000,
{
    assert(handle as u32 as u64 == handle as u64 % 0x1_0000_0000) by (bit_vector);
    handle as u32
}

/// The handle of the window that a number stands for.
pub fn id_to_hwnd(id: u32) -> (r: usize)
    ensures
        r == id,
{
    id as usize
}

/// A window number leads to a handle that leads back to the number, and a
/// handle below 2^32, as the system gives them out, comes back from its
/// number.
pub proof fn law_window_numbers_read_back(id: u32, handle: usize)
    ensures
        (id as usize) as u32 == id,
        handle <= u32::MAX ==> (handle as u32) as usize == handle,
{
}

/// A window as the desktop reports it. The program is its file name, where
/// the desktop tells it.
#[derive(Debug)]
pub struct ScannedWindow {
    pub handle: usize,
    pub visible: bool,
    pub title: String,
    pub exe: Option<String>,
}

/// The window of a client bears the name of the game, and the launcher is
/// none.
pub open spec fn client_title(title: Seq<char>) -> bool {
    "EVE - "@.is_prefix_of(title) && !occurs(title, "Launcher"@)
}

/// A program whose windows are those of clients.
pub open spec fn client_program(exe: Option<String>, extras: Seq<Seq<char>>) -> bool {
    match exe {
        Some(name) => lowered(name@) == "exefile.exe"@ || extras.contains(lowered(name@)),
        None => false,
    }
}

/// The name that a window is shown under: its title without the name of the
/// game in front.
pub open spec fn shown_name(title: Seq<char>) -> Seq<char> {
    if "EVE - "@.is_prefix_of(title) {
        title.skip("EVE - "@.len() as int)
    } else {
        title
    }
}

/// The window is that of a client.
pub open spec fn is_client(d: DetectionModel, w: ScannedWindow) -> bool {
    &&& w.visible
    &&& w.title@.len() > 0
    &&& match d.mode {
        DetectionMode::Title => client_title(w.title@),
        DetectionMode::Process => client_program(w.exe, d.extras),
    }
}

/// The windows of clients among those that the desktop reports, in the order
/// of the report.
pub open spec fn clients(d: DetectionModel, report: Seq<ScannedWindow>) -> Seq<WindowModel>
    decreases report.len(),
{
    if report.len() == 0 {
        Seq::empty()
    } else {
        let w = report.last();
        let before = clients(d, report.drop_last());
        if is_client(d, w) {
            before.push(WindowModel { id: w.handle as u32, title: shown_name(w.title@) })
        } else {
            before
        }
    }
}

/// Whether a program counts as the game.
fn program_counts(name: &str, extras: &Vec<String>) -> (r: bool)
    ensures
        r == (lowered(name@) == "exefile.exe"@ || texts(extras@).contains(lowered(name@))),
{
    let small: String = to_ascii_lowercase(name);
    if small == "exefile.exe".to_owned() {
        return true;
    }
    let mut i: usize = 0;
    while i < extras.len()
        invariant
            i <= extras@.len(),
            small@ == lowered(name@),
            forall|j: int| 0 <= j < i ==> (#[trigger] extras@[j])@ != small@,
        decreases extras@.len() - i,
    {
        if extras[i] == small {
            assert(texts(extras@)[i as int] == small@);
            return true;
        }
        i = i + 1;
    }
    assert forall|j: int| 0 <= j < texts(extras@).len() implies texts(extras@)[j] != small@ by {
        assert(extras@[j]@ != small@);
    }
    false
}

/// The name that a window is shown under.
fn display_name(title: &str) -> (r: String)
    ensures
        r@ == shown_name(title@),
{
    if starts_with(title, "EVE - ") {
        proof {
            reveal_strlit("EVE - ");
        }
        skip(title, 6)
    } else {
        title.to_owned()
    }
}

impl WindowsManager {
    /// Whether the program of a window has to be asked for before the search
    /// can tell whether the window is that of a client.
    pub fn needs_program(&self, cells: &DetectionCells, visible: bool, title: &str) -> (r: bool)
        requires
            belongs(self.detection(), *cells),
        ensures
            r == (visible && title@.len() > 0 && cells@[self.detection()@].mode
                == DetectionMode::Process),
    {
        visible && !title.is_empty() && self.detection.current_mode(cells)
            == DetectionMode::Process
    }

    /// The windows of clients among those that the desktop reports.
    pub fn get_eve_windows(&self, cells: &DetectionCells, report: &Vec<ScannedWindow>) -> (r: Vec<
        EveWindow,
    >)
        requires
            belongs(self.detection(), *cells),
        ensures
            windows_of(r@) == clients(cells@[self.detection()@], report@),
    {
        let mode: DetectionMode = self.detection.current_mode(cells);
        let extras: Vec<String> = self.detection.extras_snapshot(cells);
        let ghost d = cells@[self.detection()@];
        let mut out: Vec<EveWindow> = Vec::new();
        let mut i: usize = 0;
        assert(report@.take(0) =~= Seq::empty());
        assert(windows_of(out@) =~= Seq::empty());
        while i < report.len()
            invariant
                i <= report@.len(),
                mode == d.mode,
                texts(extras@) == d.extras,
                windows_of(out@) == clients(d, report@.take(i as int)),
            decreases report@.len() - i,
        {
            let w: &ScannedWindow = &report[i];
            assert(report@.take(i + 1).drop_last() =~= report@.take(i as int));
            assert(report@.take(i + 1).last() == report@[i as int]);
            if w.visible && !w.title.as_str().is_empty() {
                let found: bool = match mode {
                    DetectionMode::Title => {
                        starts_with(w.title.as_str(), "EVE - ") && !contains(
                            w.title.as_str(),
                            "Launcher",
                        )
                    },
                    DetectionMode::Process => {
                        match &w.exe {
                            Some(name) => program_counts(name.as_str(), &extras),
                            None => false,
                        }
                    },
                };
                if found {
                    let ghost before = out@;
                    let window: EveWindow = EveWindow {
                        id: hwnd_to_id(w.handle),
                        title: display_name(w.title.as_str()),
                    };
                    out.push(window);
                    assert(windows_of(out@) =~= windows_of(before).push(window@));
                }
            }
            i = i + 1;
        }
        assert(report@.take(report@.len() as int) =~= report@);
        out
    }
}

/// How a program was typed does not matter: capital letters and white space
/// around the name make no difference, and a name that was brought to the form
/// in which it is compared stays as it is.
pub proof fn law_program_names_are_canonical(name: Seq<char>)
    ensures
        exe_name(lowered(name)) == exe_name(name),
        exe_name(trimmed(name)) == exe_name(name),
        exe_name(exe_name(name)) == exe_name(name),
        lowered(exe_name(name)) == exe_name(name),
        exe_name(name).len() > 0 ==> ".exe"@.is_suffix_of(exe_name(name)),
{
    law_trimming_and_lowering_commute(name);
    law_trimming_and_lowering_commute(trimmed(name));
    law_trimmed_is_bare(name);
    let bare = lowered(trimmed(name));
    let full = exe_name(name);
    reveal_strlit(".exe");
    let dot = ".exe"@;
    assert(lowered(full) =~= full) by {
        assert forall|i: int| 0 <= i < full.len() implies lower(full[i]) == full[i] by {
            if i < bare.len() {
                assert(lowered(bare)[i] == bare[i]);
                assert(full[i] == bare[i]);
            } else {
                assert(full[i] == dot[i - bare.len()]);
            }
        }
    }
    if full.len() > 0 {
        assert(bare.len() > 0);
        assert(white(bare.first()) == white(trimmed(name).first()));
        assert(white(bare.last()) == white(trimmed(name).last()));
        assert(full.first() == bare.first());
        assert(!white(full.last())) by {
            if full.len() > bare.len() {
                assert(full.last() == dot[3]);
            }
        }
        assert(dot.is_suffix_of(full)) by {
            if full.len() > bare.len() {
                assert(full.subrange(full.len() - 4, full.len() as int) =~= dot);
            }
        }
        assert(trimmed(full) == full);
    }
}

/// In the mode by title, a client appears under the part of its title after
/// the name of the game, and the launcher does not appear.
pub proof fn law_titles_name_clients(w: ScannedWindow, extras: Seq<Seq<char>>, name: Seq<char>)
    requires
        w.visible,
        w.title@ == "EVE - "@ + name,
    ensures
        clients(DetectionModel { mode: DetectionMode::Title, extras }, seq![w]) == if occurs(
            w.title@,
            "Launcher"@,
        ) {
            Seq::<WindowModel>::empty()
        } else {
            seq![WindowModel { id: w.handle as u32, title: name }]
        },
{
    reveal_strlit("EVE - ");
    let d = DetectionModel { mode: DetectionMode::Title, extras };
    assert(w.title@.subrange(0, 6) =~= "EVE - "@);
    assert(w.title@.skip(6) =~= name);
    assert(seq![w].drop_last() =~= Seq::empty());
    reveal_with_fuel(clients, 2);
    assert(seq![w].last() == w);
    if !occurs(w.title@, "Launcher"@) {
        assert(clients(d, seq![w]) =~= seq![WindowModel { id: w.handle as u32, title: name }]);
    }
}

/// In the mode by program, the game itself always counts, whatever else was
/// asked for, and so does every program that was asked for by any spelling of
/// its name.
pub proof fn law_programs_name_clients(
    w: ScannedWindow,
    asked: Seq<Seq<char>>,
    i: int,
    program: String,
)
    requires
        w.visible,
        w.title@.len() > 0,
        w.exe == Some(program),
        lowered(program@) == "exefile.exe"@ || (0 <= i < asked.len() && lowered(program@)
            == exe_name(asked[i]) && program@.len() > 0),
    ensures
        is_client(
            DetectionModel { mode: DetectionMode::Process, extras: exe_names(asked) },
            w,
        ),
{
    if lowered(program@) != "exefile.exe"@ {
        lemma_asked_is_listed(asked, i);
    }
}

proof fn lemma_asked_is_listed(asked: Seq<Seq<char>>, i: int)
    requires
        0 <= i < asked.len(),
        exe_name(asked[i]).len() > 0,
    ensures
        exe_names(asked).contains(exe_name(asked[i])),
    decreases asked.len(),
{
    let rest = exe_names(asked.drop_last());
    if i == asked.len() - 1 {
        assert(exe_names(asked)[rest.len() as int] == exe_name(asked[i]));
    } else {
        lemma_asked_is_listed(asked.drop_last(), i);
        let k = choose|k: int| 0 <= k < rest.len() && rest[k] == exe_name(asked[i]);
        assert(exe_names(asked)[k] == exe_name(asked[i]));
    }
}

/// The character with a number, where the number is that of one.
pub open spec fn character(number: u32) -> Option<char> {
    if number <= 0x10FFFF && !(0xD800 <= number <= 0xDFFF) {
        Some(number as char)
    } else {
        None
    }
}

/// `char::from_u32` of the standard library: the character with a number, where
/// the number is that of one.
pub assume_specification[ char::from_u32 ](i: u32) -> (r: Option<char>)
    ensures
        r == character(i),
;

/// The unit is the first half of a pair.
pub open spec fn first_half(unit: u16) -> bool {
    0xD800 <= unit <= 0xDBFF
}

/// The unit is the second half of a pair.
pub open spec fn second_half(unit: u16) -> bool {
    0xDC00 <= unit <= 0xDFFF
}

/// The number of the character that a pair of units stands for.
pub open spec fn paired(first: u16, second: u16) -> int {
    0x1_0000 + 0x400 * (first - 0xD800) + (second - 0xDC00)
}

/// The text that UTF-16 units stand for. A unit that is no half stands for a
/// character by itself, two halves that fit stand for one together, and a half
/// without the other gives the replacement character.
pub open spec fn utf16_text(units: Seq<u16>) -> Seq<char>
    decreases units.len(),
{
    if units.len() == 0 {
        Seq::empty()
    } else if first_half(units[0]) && units.len() > 1 && second_half(units[1]) {
        seq![paired(units[0], units[1]) as char] + utf16_text(units.skip(2))
    } else if first_half(units[0]) || second_half(units[0]) {
        seq!['\u{FFFD}'] + utf16_text(units.skip(1))
    } else {
        seq![units[0] as char] + utf16_text(units.skip(1))
    }
}

/// The text that UTF-16 units stand for.
fn decode_utf16(units: &[u16]) -> (r: String)
    ensures
        r@ == utf16_text(units@),
{
    let mut out: String = String::new();
    let mut i: usize = 0;
    let n: usize = units.len();
    assert(units@.skip(0) =~= units@);
    assert(out@ + utf16_text(units@.skip(0)) =~= utf16_text(units@));
    while i < n
        invariant
            i <= n,
            n == units@.len(),
            out@ + utf16_text(units@.skip(i as int)) == utf16_text(units@),
        decreases n - i,
    {
        let ghost rest = units@.skip(i as int);
        let ghost before = out@;
        let unit: u16 = units[i];
        let code: u32 = unit as u32;
        assert(rest[0] == unit);
        assert(rest.skip(1) =~= units@.skip(i + 1));
        let mut found: u32 = code;
        let mut taken: usize = 1;
        if 0xD800 <= code && code <= 0xDFFF {
            found = 0xFFFD;
            if code <= 0xDBFF && i + 1 < n {
                let next: u32 = units[i + 1] as u32;
                assert(rest[1] == units@[i + 1]);
                if 0xDC00 <= next && next <= 0xDFFF {
                    found = 0x1_0000 + 0x400 * (code - 0xD800) + (next - 0xDC00);
                    taken = 2;
                    assert(rest.skip(2) =~= units@.skip(i + 2));
                }
            }
        }
        let character: Option<char> = char::from_u32(found);
        if let Some(c) = character {
            out.push(c);
            assert(out@ =~= before + seq![c]);
            assert(utf16_text(rest) == seq![c] + utf16_text(units@.skip(i + taken)));
            assert(before + utf16_text(rest) =~= out@ + utf16_text(units@.skip(i + taken)));
        }
        i = i + taken;
    }
    assert(units@.skip(n as int) =~= Seq::empty());
    assert(out@ + utf16_text(units@.skip(n as int)) =~= out@);
    out
}

/// None of the units is one half of a pair.
pub open spec fn unpaired(units: Seq<u16>) -> bool {
    forall|i: int| 0 <= i < units.len() ==> !(0xD800 <= #[trigger] units[i] <= 0xDFFF)
}

/// Units of which none is one half of a pair are the characters of the text one
/// by one.
pub proof fn law_single_units_are_characters(units: Seq<u16>)
    requires
        unpaired(units),
    ensures
        utf16_text(units) == Seq::new(units.len(), |i: int| units[i] as char),
    decreases units.len(),
{
    if units.len() > 0 {
        let rest = units.skip(1);
        assert forall|i: int| 0 <= i < rest.len() implies !(0xD800 <= #[trigger] rest[i]
            <= 0xDFFF) by {
            assert(rest[i] == units[i + 1]);
        }
        law_single_units_are_characters(rest);
        assert(!(0xD800 <= units[0] <= 0xDFFF));
        assert(utf16_text(units) =~= Seq::new(units.len(), |i: int| units[i] as char));
    } else {
        assert(utf16_text(units) =~= Seq::new(units.len(), |i: int| units[i] as char));
    }
}

/// The title of a window. The desktop reported its length and then copied so
/// many units of it into `buf`; without a title or a copy it is empty.
pub fn read_window_title(len: i32, copied: i32, buf: &Vec<u16>) -> (r: String)
    requires
        copied <= buf@.len(),
    ensures
        r@ == if len <= 0 || copied <= 0 {
            Seq::empty()
        } else {
            utf16_text(buf@.take(copied as int))
        },
        len > 0 && copied > 0 && unpaired(buf@.take(copied as int)) ==> r@ == Seq::new(
            copied as nat,
            |i: int| buf@[i] as char,
        ),
{
    if len <= 0 || copied <= 0 {
        return String::new();
    }
    let n: usize = copied as usize;
    let units: &[u16] = slice_subrange(buf.as_slice(), 0, n);
    assert(units@ =~= buf@.take(copied as int));
    proof {
        if unpaired(units@) {
            law_single_units_are_characters(units@);
            assert(utf16_text(units@) =~= Seq::new(copied as nat, |i: int| buf@[i] as char));
        }
    }
    decode_utf16(units)
}

/// A string that may be there, by what it says.
pub open spec fn text_of(s: Option<String>) -> Option<Seq<char>> {
    match s {
        Some(text) => Some(text@),
        None => None,
    }
}

/// A directory on another machine, in the form `\\server\share` with whatever
/// follows below it.
pub open spec fn on_share(dir: Seq<char>) -> bool {
    exists|server: Seq<char>, share: Seq<char>, below: Seq<char>|
        #![trigger (server + "\\"@ + share + below)]
        dir == "\\\\"@ + (server + "\\"@ + share + below) && plain_name(server) && server != "?"@
            && plain_name(share) && (below.len() == 0 || below.first() == '\\')
}

/// A character that separates the components of a path on some system.
pub open spec fn separator(c: char) -> bool {
    c == '/' || c == '\\'
}

/// A directory on this machine: it does not start with two separators, or with
/// one and a question mark, as one on another machine or a device does.
pub open spec fn on_this_machine(dir: Seq<char>) -> bool {
    dir.len() == 0 || !separator(dir[0]) || (dir.len() > 1 && !separator(dir[1]) && dir[1] != '?')
}

/// `named` is the name of the file that a path leads to, as far as that is the
/// same on every system. An empty path leads to none, an ordinary component
/// alone is the name, and so is one behind a slash. One behind a backslash is
/// the name where a backslash separates components, and the end of the name
/// where it does not.
pub open spec fn names_file(path: Seq<char>, named: Option<Seq<char>>) -> bool {
    &&& path.len() == 0 ==> named is None
    &&& plain_name(path) ==> named == Some(path)
    &&& forall|dir: Seq<char>, last: Seq<char>|
        path == #[trigger] (dir + "/"@ + last) && plain_name(last) && on_this_machine(dir)
            ==> named == Some(last)
    &&& forall|dir: Seq<char>, last: Seq<char>|
        path == #[trigger] (dir + "\\"@ + last) && plain_name(last) && (on_this_machine(dir)
            || on_share(dir)) ==> named is Some && (named == Some(last) || (
        "\\"@ + last).is_suffix_of(named->0))
}

/// `Path::file_name` of the standard library, as text. A slash separates the
/// components of a path on every system; whether a backslash does depends on
/// the system, so of a component behind a backslash it is said that it is the
/// name or the end of it, and not which. Nothing is claimed of paths that end
/// in no ordinary component, or that lead to a device.
#[verifier::external_body]
fn file_name(path: &str) -> (r: Option<String>)
    ensures
        names_file(path@, text_of(r)),
{
    match std::path::Path::new(path).file_name() {
        Some(name) => name.to_str().map(str::to_owned),
        None => None,
    }
}

/// The part of a text behind its last backslash; all of it if it has none.
pub open spec fn behind_backslash(s: Seq<char>) -> Seq<char>
    decreases s.len(),
{
    if s.len() == 0 || s.last() == '\\' {
        Seq::empty()
    } else {
        behind_backslash(s.drop_last()).push(s.last())
    }
}

proof fn lemma_behind_backslash(s: Seq<char>, i: int)
    requires
        0 <= i <= s.len(),
        i == 0 || s[i - 1] == '\\',
        forall|j: int| i <= j < s.len() ==> #[trigger] s[j] != '\\',
    ensures
        behind_backslash(s) == s.skip(i),
    decreases s.len(),
{
    if i == s.len() {
        assert(s.skip(i) =~= Seq::empty());
    } else {
        lemma_behind_backslash(s.drop_last(), i);
        assert(s.last() != '\\');
        assert(s.drop_last().skip(i).push(s.last()) =~= s.skip(i));
    }
}

/// The part of a text behind its last backslash.
fn skip_backslashes(s: &str) -> (r: String)
    ensures
        r@ == behind_backslash(s@),
{
    let v: Vec<char> = to_chars(s);
    let n: usize = v.len();
    let mut i: usize = n;
    while i > 0 && v[i - 1] != '\\'
        invariant
            i <= n,
            n == v@.len(),
            forall|j: int| i <= j < n ==> #[trigger] v@[j] != '\\',
        decreases i,
    {
        i = i - 1;
    }
    proof {
        lemma_behind_backslash(s@, i as int);
    }
    skip(s, i)
}

/// The name of a program in small letters, given the file name of its path. A
/// backslash separates components wherever programs of the game run, so what
/// stands in front of one is no part of the name.
pub open spec fn program_name(named: Option<Seq<char>>) -> Option<Seq<char>> {
    match named {
        Some(name) => Some(lowered(behind_backslash(name))),
        None => None,
    }
}

/// The name of a program in small letters, given the file name of its path.
pub fn lowered_program(named: Option<String>) -> (r: Option<String>)
    ensures
        text_of(r) == program_name(text_of(named)),
{
    match named {
        Some(name) => Some(to_ascii_lowercase(skip_backslashes(name.as_str()).as_str())),
        None => None,
    }
}

/// `program` is the name of the program at a path: its last component in small
/// letters, behind whichever separator it stands.
pub open spec fn names_program(path: Seq<char>, program: Option<Seq<char>>) -> bool {
    &&& path.len() == 0 ==> program is None
    &&& plain_name(path) ==> program == Some(lowered(path))
    &&& forall|dir: Seq<char>, last: Seq<char>|
        path == #[trigger] (dir + "/"@ + last) && plain_name(last) && on_this_machine(dir)
            ==> program == Some(lowered(last))
    &&& forall|dir: Seq<char>, last: Seq<char>|
        path == #[trigger] (dir + "\\"@ + last) && plain_name(last) && (on_this_machine(dir)
            || on_share(dir)) ==> program == Some(lowered(last))
}

proof fn lemma_plain_stays(name: Seq<char>)
    requires
        plain_name(name),
    ensures
        behind_backslash(name) == name,
{
    assert forall|j: int| 0 <= j < name.len() implies #[trigger] name[j] != '\\' by {
        assert(name.contains(name[j]));
    }
    lemma_behind_backslash(name, 0);
    assert(name.skip(0) =~= name);
}

proof fn lemma_end_stays(name: Seq<char>, last: Seq<char>)
    requires
        plain_name(last),
        ("\\"@ + last).is_suffix_of(name),
    ensures
        behind_backslash(name) == last,
{
    reveal_strlit("\\");
    let end = "\\"@ + last;
    let i = name.len() - last.len();
    assert(name.subrange(i - 1, name.len() as int) == end);
    assert(name[i - 1] == end[0]);
    assert forall|j: int| i <= j < name.len() implies #[trigger] name[j] != '\\' by {
        assert(name[j] == end[j - i + 1]);
        assert(last.contains(last[j - i]));
    }
    lemma_behind_backslash(name, i);
    assert(name.skip(i) =~= last) by {
        assert forall|j: int| 0 <= j < last.len() implies name.skip(i)[j] == last[j] by {
            assert(name[i + j] == end[j + 1]);
        }
    }
}

/// Whatever the system takes for the file name of a path, the name of the
/// program at the path is its last component in small letters.
pub proof fn law_program_paths_name_one_program(path: Seq<char>, named: Option<Seq<char>>)
    requires
        names_file(path, named),
    ensures
        names_program(path, program_name(named)),
{
    if plain_name(path) {
        lemma_plain_stays(path);
    }
    assert forall|dir: Seq<char>, last: Seq<char>|
        path == #[trigger] (dir + "/"@ + last) && plain_name(last) && on_this_machine(
            dir,
        ) implies program_name(named) == Some(lowered(last)) by {
        lemma_plain_stays(last);
    }
    assert forall|dir: Seq<char>, last: Seq<char>|
        path == #[trigger] (dir + "\\"@ + last) && plain_name(last) && (on_this_machine(dir)
            || on_share(dir)) implies program_name(named) == Some(lowered(last)) by {
        if named == Some(last) {
            lemma_plain_stays(last);
        } else {
            lemma_end_stays(named->0, last);
        }
    }
}

/// The file name of the program that a window belongs to, in small letters.
/// The desktop wrote the first `size` units of `buf` for the path of the
/// program, if it told the path at all.
pub fn process_exe_filename(told: bool, size: u32, buf: &Vec<u16>) -> (r: Option<String>)
    requires
        told ==> size <= buf@.len(),
    ensures
        !told ==> r is None,
        told ==> names_program(utf16_text(buf@.take(size as int)), text_of(r)),
        told ==> exists|named: Option<Seq<char>>|
            #![trigger program_name(named)]
            names_file(utf16_text(buf@.take(size as int)), named) && text_of(r) == program_name(
                named,
            ),
{
    if !told {
        return None;
    }
    let n: usize = size as usize;
    let units: &[u16] = slice_subrange(buf.as_slice(), 0, n);
    assert(units@ =~= buf@.take(size as int));
    let path: String = decode_utf16(units);
    let named: Option<String> = file_name(path.as_str());
    proof {
        law_program_paths_name_one_program(path@, text_of(named));
    }
    lowered_program(named)
}

/// How a window is brought to the front.
#[derive(Debug, Clone, Copy, PartialEq, Eq, Structural)]
pub enum Activation {
    /// It is there already.
    Done,
    /// Ask for the focus, after the window was brought back if `restore`.
    Ask { restore: bool },
}

/// How a window is brought to the front: not at all when it has the focus, and
/// a minimized one is brought back first.
pub fn begin_activation(target: usize, foreground: usize, minimized: bool) -> (r: Activation)
    ensures
        r == if target == foreground {
            Activation::Done
        } else {
            Activation::Ask { restore: minimized }
        },
{
    if foreground == target {
        Activation::Done
    } else {
        Activation::Ask { restore: minimized }
    }
}

/// With which threads the input is shared for a moment when the desktop
/// refused the focus: that of the window and that of the window in front, each
/// if it exists and is not one that shares already. A thread number of zero
/// means that there is none.
pub fn input_to_share(current: u32, target: u32, foreground: u32) -> (r: (bool, bool))
    ensures
        r.0 == (target != 0 && target != current),
        r.1 == (foreground != 0 && foreground != current && foreground != target),
{
    (
        target != 0 && target != current,
        foreground != 0 && foreground != current && foreground != target,
    )
}

/// Which number stands for which mode.
pub proof fn law_modes_have_numbers(v: u8)
    ensures
        mode_code(DetectionMode::Title) == 0,
        mode_code(DetectionMode::Process) == 1,
        mode_of(v) == DetectionMode::Process <==> v == 1,
        mode_of(v) == DetectionMode::Title <==> v != 1,
{
}

/// A program is compared in small letters and without the white space around
/// its name, under its name with `.exe` unless it ends so already.
pub proof fn law_programs_are_compared_by_file_name(name: Seq<char>)
    ensures
        trimmed(name).len() == 0 ==> exe_name(name).len() == 0,
        trimmed(name).len() > 0 && ".exe"@.is_suffix_of(lowered(trimmed(name))) ==> exe_name(name)
            == lowered(trimmed(name)),
        trimmed(name).len() > 0 && !".exe"@.is_suffix_of(lowered(trimmed(name))) ==> exe_name(name)
            == lowered(trimmed(name)) + ".exe"@,
{
    reveal_strlit(".exe");
}

/// The programs that were asked for count in their order, without those whose
/// name is nothing. The mode is the one that was asked for.
pub proof fn law_asked_programs_are_kept_in_order(
    mode: DetectionMode,
    asked: Seq<Seq<char>>,
    name: Seq<char>,
)
    ensures
        asked_for(mode, asked).mode == mode,
        asked_for(mode, Seq::empty()).extras.len() == 0,
        trimmed(name).len() == 0 ==> asked_for(mode, asked.push(name)).extras == asked_for(
            mode,
            asked,
        ).extras,
        trimmed(name).len() > 0 ==> asked_for(mode, asked.push(name)).extras == asked_for(
            mode,
            asked,
        ).extras.push(exe_name(name)),
{
    law_programs_are_compared_by_file_name(name);
    assert(asked.push(name).drop_last() =~= asked);
}

proof fn lemma_listed_was_asked(asked: Seq<Seq<char>>, program: Seq<char>)
    requires
        exe_names(asked).contains(program),
    ensures
        program.len() > 0,
        exists|i: int| 0 <= i < asked.len() && exe_name(#[trigger] asked[i]) == program,
    decreases asked.len(),
{
    if asked.len() > 0 {
        let rest = asked.drop_last();
        if exe_name(asked.last()).len() > 0 && program == exe_name(asked.last()) {
            assert(exe_name(asked[asked.len() - 1]) == program);
        } else {
            let k = choose|k: int| 0 <= k < exe_names(asked).len() && exe_names(asked)[k]
                == program;
            assert(exe_names(rest)[k] == program);
            lemma_listed_was_asked(rest, program);
            let i = choose|i: int| 0 <= i < rest.len() && exe_name(#[trigger] rest[i]) == program;
            assert(exe_name(asked[i]) == program);
        }
    }
}

/// In the mode by program, a window counts exactly if it is visible, has a
/// title, and belongs to the program of the game or to one that was asked for.
/// What its title says does not matter.
pub proof fn law_only_asked_programs_are_clients(w: ScannedWindow, asked: Seq<Seq<char>>)
    ensures
        is_client(asked_for(DetectionMode::Process, asked), w) <==> w.visible && w.title@.len() > 0
            && (w.exe matches Some(program) && (lowered(program@) == "exefile.exe"@ || (exists|
            i: int,
        |
            0 <= i < asked.len() && exe_name(#[trigger] asked[i]).len() > 0 && exe_name(asked[i])
                == lowered(program@)))),
{
    if let Some(program) = w.exe {
        let small = lowered(program@);
        if exe_names(asked).contains(small) {
            lemma_listed_was_asked(asked, small);
        }
        if exists|i: int|
            0 <= i < asked.len() && exe_name(#[trigger] asked[i]).len() > 0 && exe_name(asked[i])
                == small {
            let i = choose|i: int|
                0 <= i < asked.len() && exe_name(#[trigger] asked[i]).len() > 0 && exe_name(
                    asked[i],
                ) == small;
            lemma_asked_is_listed(asked, i);
        }
    }
}

/// In the mode by program, the window of a program that is neither that of the
/// game nor asked for is no client, whatever its title says.
pub proof fn law_other_programs_are_no_clients(
    w: ScannedWindow,
    program: String,
    asked: Seq<Seq<char>>,
    report: Seq<ScannedWindow>,
)
    requires
        w.exe == Some(program),
        lowered(program@) != "exefile.exe"@,
        forall|i: int| 0 <= i < asked.len() ==> exe_name(#[trigger] asked[i]) != lowered(program@),
    ensures
        !is_client(asked_for(DetectionMode::Process, asked), w),
        clients(asked_for(DetectionMode::Process, asked), report.push(w)) == clients(
            asked_for(DetectionMode::Process, asked),
            report,
        ),
{
    law_only_asked_programs_are_clients(w, asked);
    assert(report.push(w).drop_last() =~= report);
}

/// In the mode by title, a window counts exactly if it is visible and its title
/// begins with the name of the game and does not speak of the launcher. Its
/// program does not matter, nor do the programs that were asked for.
pub proof fn law_only_titles_of_the_game_are_clients(w: ScannedWindow, asked: Seq<Seq<char>>)
    ensures
        is_client(asked_for(DetectionMode::Title, asked), w) <==> w.visible
            && "EVE - "@.is_prefix_of(w.title@) && !(exists|front: Seq<char>, back: Seq<char>|
            w.title@ == #[trigger] (front + "Launcher"@ + back)),
{
    reveal_strlit("EVE - ");
    if exists|front: Seq<char>, back: Seq<char>|
        w.title@ == #[trigger] (front + "Launcher"@ + back) {
        let (front, back) = choose|front: Seq<char>, back: Seq<char>|
            w.title@ == #[trigger] (front + "Launcher"@ + back);
        law_texts_are_found_wherever_they_stand(w.title@, "Launcher"@, front, back);
    }
    law_texts_are_found_wherever_they_stand(
        w.title@,
        "Launcher"@,
        Seq::empty(),
        Seq::empty(),
    );
}

/// A window is shown under what follows the name of the game in its title, and
/// under its whole title if that does not begin so.
pub proof fn law_names_follow_the_game(title: Seq<char>, name: Seq<char>)
    ensures
        shown_name("EVE - "@ + name) == name,
        !"EVE - "@.is_prefix_of(title) ==> shown_name(title) == title,
{
    reveal_strlit("EVE - ");
    let whole = "EVE - "@ + name;
    assert(whole.subrange(0, 6) =~= "EVE - "@);
    assert(whole.skip(6) =~= name);
}

/// The clients are the windows that count, in the order of the report, each
/// once, by the low half of its handle and the name it is shown under.
pub proof fn law_clients_come_in_the_order_of_the_report(
    d: DetectionModel,
    report: Seq<ScannedWindow>,
    w: ScannedWindow,
)
    ensures
        clients(d, Seq::empty()).len() == 0,
        !is_client(d, w) ==> clients(d, report.push(w)) == clients(d, report),
        is_client(d, w) ==> clients(d, report.push(w)).len() == clients(d, report).len() + 1
            && clients(d, report.push(w)).drop_last() == clients(d, report) && clients(
            d,
            report.push(w),
        ).last().id == w.handle as u32 && clients(d, report.push(w)).last().title == shown_name(
            w.title@,
        ),
{
    assert(report.push(w).drop_last() =~= report);
    if is_client(d, w) {
        assert(clients(d, report.push(w)).drop_last() =~= clients(d, report));
    }
}

/// UTF-16 units are read from the front: a unit that is no half is a character
/// by itself, two halves that fit are one together, and any other half is the
/// replacement character.
pub proof fn law_units_are_read_from_the_front(unit: u16, next: u16, rest: Seq<u16>)
    ensures
        utf16_text(Seq::empty()).len() == 0,
        !(0xD800 <= unit <= 0xDFFF) ==> utf16_text(seq![unit] + rest) == seq![unit as char]
            + utf16_text(rest),
        0xD800 <= unit <= 0xDBFF && 0xDC00 <= next <= 0xDFFF ==> utf16_text(
            seq![unit, next] + rest,
        ) == seq![(0x1_0000 + 0x400 * (unit - 0xD800) + (next - 0xDC00)) as char] + utf16_text(
            rest,
        ),
        0xDC00 <= unit <= 0xDFFF ==> utf16_text(seq![unit] + rest) == seq!['\u{FFFD}'] + utf16_text(
            rest,
        ),
        0xD800 <= unit <= 0xDBFF && (rest.len() == 0 || !(0xDC00 <= rest[0] <= 0xDFFF))
            ==> utf16_text(seq![unit] + rest) == seq!['\u{FFFD}'] + utf16_text(rest),
{
    assert((seq![unit] + rest).skip(1) =~= rest);
    assert((seq![unit, next] + rest).skip(2) =~= rest);
    if rest.len() > 0 {
        assert((seq![unit] + rest)[1] == rest[0]);
    }
    assert((seq![unit, next] + rest)[0] == unit);
    assert((seq![unit, next] + rest)[1] == next);
}

/// The name of a program is what stands behind the last backslash of its file
/// name, in small letters.
pub proof fn law_programs_stand_behind_the_last_backslash(dir: Seq<char>, last: Seq<char>)
    requires
        !last.contains('\\'),
    ensures
        program_name(None) is None,
        program_name(Some(last)) == Some(lowered(last)),
        program_name(Some(dir.push('\\') + last)) == Some(lowered(last)),
{
    let whole = dir.push('\\') + last;
    let i = dir.len() + 1;
    assert forall|j: int| 0 <= j < last.len() implies #[trigger] last[j] != '\\' by {
        assert(last.contains(last[j]));
    }
    assert forall|j: int| i <= j < whole.len() implies #[trigger] whole[j] != '\\' by {
        assert(whole[j] == last[j - i]);
    }
    assert(whole[i - 1] == '\\');
    lemma_behind_backslash(last, 0);
    assert(last.skip(0) =~= last);
    lemma_behind_backslash(whole, i as int);
    assert(whole.skip(i as int) =~= last);
}

/// The program at a path is its last component in small letters, on this machine
/// and on a share, behind a slash and behind a backslash.
pub proof fn law_programs_are_named_by_their_last_component(
    dir: Seq<char>,
    last: Seq<char>,
    program: Option<Seq<char>>,
)
    requires
        plain_name(last),
    ensures
        names_program(last, program) ==> program == Some(lowered(last)),
        on_this_machine(dir) && names_program(dir + "/"@ + last, program) ==> program == Some(
            lowered(last),
        ),
        (on_this_machine(dir) || on_share(dir)) && names_program(dir + "\\"@ + last, program)
            ==> program == Some(lowered(last)),
        names_program(Seq::empty(), program) ==> program is None,
{
}

/// A number stands for a character unless it is too large or stands for half of
/// a pair.
pub proof fn law_numbers_of_characters(number: u32)
    ensures
        character(number) is None <==> number > 0x10FFFF || 0xD800 <= number <= 0xDFFF,
        character(number) matches Some(c) ==> c as u32 == number,
{
}

/// A handle belongs to settings that have a place for it.
pub proof fn law_handles_have_a_place(handle: DetectionConfig, cells: DetectionCells)
    ensures
        belongs(handle, cells) <==> 0 <= handle@ < cells@.len(),
{
}

/// A string that may be there says what it says, if it is there.
pub proof fn law_texts_that_may_be_there(s: Option<String>)
    ensures
        s matches Some(text) ==> text_of(s) == Some(text@),
        s is None ==> text_of(s) is None,
{
}

} // verus!
