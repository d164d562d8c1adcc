//! Where the files of the tool are kept.

use std::path::PathBuf;
use vstd::prelude::*;

verus! {

/// `PathBuf` of the standard library, without a look at how it holds a path.
#[verifier::external_type_specification]
#[verifier::external_body]
pub struct ExPathBuf(PathBuf);

/// The components of a path, from the first to the last: the pieces of its text
/// between separators that are not empty, a drive being a piece of its own. A
/// server or a share is a piece like any other, and so is a dot.
pub uninterp spec fn components(path: PathBuf) -> Seq<Seq<char>>;

/// A text that is one ordinary component of a path on every system: it is not
/// empty, names no drive, holds no separator and is no relative step.
pub open spec fn plain_name(name: Seq<char>) -> bool {
    &&& name.len() > 0
    &&& !name.contains('/')
    &&& !name.contains('\\')
    &&& !name.contains(':')
    &&& name != "."@
    &&& name != ".."@
}

/// `PathBuf::push` of the standard library, for an ordinary component: the
/// component comes after those that the path had.
#[verifier::external_body]
fn push(path: &mut PathBuf, name: &str)
    requires
        plain_name(name@),
    ensures
        components(*final(path)) == components(*old(path)).push(name@),
{
    path.push(name);
}

/// `PathBuf::from` of the standard library, for the current directory: a path
/// of that one component.
#[verifier::external_body]
fn current_dir() -> (r: PathBuf)
    ensures
        components(r) == seq!["."@],
{
    PathBuf::from(".")
}

/// `dirs::config_dir`: the user's configuration directory, where the system
/// knows one. Which one it is depends on the environment, so nothing is
/// claimed of it.
#[verifier::external_body]
pub(crate) fn user_config_dir() -> (r: Option<PathBuf>) {
    dirs::config_dir()
}

/// `dirs::cache_dir`: the user's cache directory, where the system knows one.
/// Which one it is depends on the environment, so nothing is claimed of it.
#[verifier::external_body]
fn user_cache_dir() -> (r: Option<PathBuf>) {
    dirs::cache_dir()
}

/// The components of the directory to start from: the one that was found, or
/// the given components in its place.
pub open spec fn start(found: Option<PathBuf>, otherwise: Seq<Seq<char>>) -> Seq<Seq<char>> {
    match found {
        Some(path) => components(path),
        None => otherwise,
    }
}

/// The directory of the configuration, below the directory that the system
/// names for the user or else below the current one.
pub open spec fn config_dir_of(found: Option<PathBuf>) -> Seq<Seq<char>> {
    start(found, seq!["."@]).push("nicotine"@)
}

/// The file of the configuration.
pub open spec fn config_path_of(found: Option<PathBuf>) -> Seq<Seq<char>> {
    config_dir_of(found).push("config.toml"@)
}

/// The file that remembers where previews stand.
pub open spec fn positions_path_of(found: Option<PathBuf>) -> Seq<Seq<char>> {
    start(found, seq!["."@]).push("inari"@).push("preview_positions.toml"@)
}

/// The directory of short-lived files, below the user's cache directory or
/// else below the directory for temporary files.
pub open spec fn runtime_dir_of(found: Option<PathBuf>, temp: PathBuf) -> Seq<Seq<char>> {
    start(found, components(temp)).push("nicotine"@)
}

proof fn lemma_plain_names()
    ensures
        plain_name("nicotine"@),
        plain_name("config.toml"@),
        plain_name("inari"@),
        plain_name("preview_positions.toml"@),
        plain_name("nicotine-cycle.lock"@),
        plain_name("nicotine-index"@),
{
    reveal_strlit(".");
    reveal_strlit("..");
    reveal_strlit("nicotine");
    reveal_strlit("config.toml");
    reveal_strlit("inari");
    reveal_strlit("preview_positions.toml");
    reveal_strlit("nicotine-cycle.lock");
    reveal_strlit("nicotine-index");
    lemma_plain_text("nicotine"@);
    lemma_plain_text("config.toml"@);
    lemma_plain_text("inari"@);
    lemma_plain_text("preview_positions.toml"@);
    lemma_plain_text("nicotine-cycle.lock"@);
    lemma_plain_text("nicotine-index"@);
}

/// A text of more than two characters, none of which is special in a path, is
/// one ordinary component.
proof fn lemma_plain_text(name: Seq<char>)
    requires
        name.len() > 2,
        forall|i: int|
            0 <= i < name.len() ==> #[trigger] name[i] != '/' && name[i] != '\\' && name[i] != ':',
    ensures
        plain_name(name),
{
    reveal_strlit(".");
    reveal_strlit("..");
}

fn or_current(found: Option<PathBuf>) -> (r: PathBuf)
    ensures
        components(r) == start(found, seq!["."@]),
{
    match found {
        Some(path) => path,
        None => current_dir(),
    }
}

/// The directory of the configuration, given what the system names.
pub fn config_dir_in(found: Option<PathBuf>) -> (r: PathBuf)
    ensures
        components(r) == config_dir_of(found),
{
    proof {
        lemma_plain_names();
    }
    let mut path: PathBuf = or_current(found);
    push(&mut path, "nicotine");
    path
}

/// The file of the configuration, given what the system names.
pub fn config_path_in(found: Option<PathBuf>) -> (r: PathBuf)
    ensures
        components(r) == config_path_of(found),
{
    proof {
        lemma_plain_names();
    }
    let mut path: PathBuf = config_dir_in(found);
    push(&mut path, "config.toml");
    path
}

/// The file of the preview positions, given what the system names.
pub fn positions_path_in(found: Option<PathBuf>) -> (r: PathBuf)
    ensures
        components(r) == positions_path_of(found),
{
    proof {
        lemma_plain_names();
    }
    let mut path: PathBuf = or_current(found);
    push(&mut path, "inari");
    push(&mut path, "preview_positions.toml");
    path
}

/// The directory of short-lived files, given what the system names.
pub fn runtime_dir_in(found: Option<PathBuf>, temp: PathBuf) -> (r: PathBuf)
    ensures
        components(r) == runtime_dir_of(found, temp),
{
    proof {
        lemma_plain_names();
    }
    let mut path: PathBuf = match found {
        Some(path) => path,
        None => temp,
    };
    push(&mut path, "nicotine");
    path
}

/// The directory of short-lived files on this machine; `temp` is its directory
/// for temporary files.
pub fn runtime_dir(temp: PathBuf) -> (r: PathBuf)
    ensures
        exists|found: Option<PathBuf>| components(r) == #[trigger] runtime_dir_of(found, temp),
{
    runtime_dir_in(user_cache_dir(), temp)
}

/// The file that keeps two cycle commands from running at once.
pub open spec fn lock_file_of(found: Option<PathBuf>, temp: PathBuf) -> Seq<Seq<char>> {
    runtime_dir_of(found, temp).push("nicotine-cycle.lock"@)
}

/// The file that keeps the place in the cycle.
pub open spec fn index_file_of(found: Option<PathBuf>, temp: PathBuf) -> Seq<Seq<char>> {
    runtime_dir_of(found, temp).push("nicotine-index"@)
}

/// The file that keeps two cycle commands from running at once, given what the
/// system names.
pub fn lock_file_path_in(found: Option<PathBuf>, temp: PathBuf) -> (r: PathBuf)
    ensures
        components(r) == lock_file_of(found, temp),
{
    proof {
        lemma_plain_names();
    }
    let mut path: PathBuf = runtime_dir_in(found, temp);
    push(&mut path, "nicotine-cycle.lock");
    path
}

/// The file that keeps the place in the cycle, given what the system names.
pub fn index_file_path_in(found: Option<PathBuf>, temp: PathBuf) -> (r: PathBuf)
    ensures
        components(r) == index_file_of(found, temp),
{
    proof {
        lemma_plain_names();
    }
    let mut path: PathBuf = runtime_dir_in(found, temp);
    push(&mut path, "nicotine-index");
    path
}

/// The file that keeps two cycle commands from running at once, on this machine.
pub fn lock_file_path(temp: PathBuf) -> (r: PathBuf)
    ensures
        exists|found: Option<PathBuf>| components(r) == #[trigger] lock_file_of(found, temp),
{
    lock_file_path_in(user_cache_dir(), temp)
}

/// The file that keeps the place in the cycle, on this machine.
pub fn index_file_path(temp: PathBuf) -> (r: PathBuf)
    ensures
        exists|found: Option<PathBuf>| components(r) == #[trigger] index_file_of(found, temp),
{
    index_file_path_in(user_cache_dir(), temp)
}

/// The two short-lived files are different files of one directory, which is
/// named after the tool.
pub proof fn law_short_lived_files_share_a_directory(found: Option<PathBuf>, temp: PathBuf)
    ensures
        lock_file_of(found, temp).drop_last() == runtime_dir_of(found, temp),
        index_file_of(found, temp).drop_last() == runtime_dir_of(found, temp),
        runtime_dir_of(found, temp).last() == "nicotine"@,
        lock_file_of(found, temp).last() == "nicotine-cycle.lock"@,
        index_file_of(found, temp).last() == "nicotine-index"@,
        lock_file_of(found, temp) != index_file_of(found, temp),
{
    reveal_strlit("nicotine-cycle.lock");
    reveal_strlit("nicotine-index");
    let dir = runtime_dir_of(found, temp);
    assert(lock_file_of(found, temp).drop_last() =~= dir);
    assert(index_file_of(found, temp).drop_last() =~= dir);
    assert("nicotine-cycle.lock"@.len() != "nicotine-index"@.len());
}

/// Where each file is kept, below the directory that the system names or below
/// the one that stands in for it.
pub proof fn law_places_of_files(path: PathBuf, temp: PathBuf)
    ensures
        config_dir_of(Some(path)) == components(path) + seq!["nicotine"@],
        config_dir_of(None) == seq!["."@, "nicotine"@],
        config_path_of(Some(path)) == components(path) + seq!["nicotine"@, "config.toml"@],
        config_path_of(None) == seq!["."@, "nicotine"@, "config.toml"@],
        positions_path_of(Some(path)) == components(path) + seq![
            "inari"@,
            "preview_positions.toml"@,
        ],
        positions_path_of(None) == seq!["."@, "inari"@, "preview_positions.toml"@],
        runtime_dir_of(Some(path), temp) == components(path) + seq!["nicotine"@],
        runtime_dir_of(None, temp) == components(temp) + seq!["nicotine"@],
        lock_file_of(Some(path), temp) == components(path) + seq![
            "nicotine"@,
            "nicotine-cycle.lock"@,
        ],
        lock_file_of(None, temp) == components(temp) + seq!["nicotine"@, "nicotine-cycle.lock"@],
        index_file_of(Some(path), temp) == components(path) + seq!["nicotine"@, "nicotine-index"@],
        index_file_of(None, temp) == components(temp) + seq!["nicotine"@, "nicotine-index"@],
{
    assert(config_dir_of(Some(path)) =~= components(path) + seq!["nicotine"@]);
    assert(config_dir_of(None) =~= seq!["."@, "nicotine"@]);
    assert(config_path_of(Some(path)) =~= components(path) + seq!["nicotine"@, "config.toml"@]);
    assert(config_path_of(None) =~= seq!["."@, "nicotine"@, "config.toml"@]);
    assert(positions_path_of(Some(path)) =~= components(path) + seq![
        "inari"@,
        "preview_positions.toml"@,
    ]);
    assert(positions_path_of(None) =~= seq!["."@, "inari"@, "preview_positions.toml"@]);
    assert(lock_file_of(Some(path), temp) =~= components(path) + seq![
        "nicotine"@,
        "nicotine-cycle.lock"@,
    ]);
    assert(lock_file_of(None, temp) =~= components(temp) + seq![
        "nicotine"@,
        "nicotine-cycle.lock"@,
    ]);
    assert(index_file_of(Some(path), temp) =~= components(path) + seq![
        "nicotine"@,
        "nicotine-index"@,
    ]);
    assert(index_file_of(None, temp) =~= components(temp) + seq!["nicotine"@, "nicotine-index"@]);
}

} // verus!
