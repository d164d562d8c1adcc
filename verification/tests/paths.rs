use nicotine::config::Config;
use nicotine::paths::{
    config_dir_in, config_path_in, index_file_path, index_file_path_in, lock_file_path,
    lock_file_path_in, positions_path_in, runtime_dir, runtime_dir_in,
};
use nicotine::preview_windows::PreviewPositions;
use std::path::{Path, PathBuf};

#[test]
fn files_stand_below_the_directories_of_the_system() {
    let home = || Some(PathBuf::from("/home/u/.config"));
    assert_eq!(config_dir_in(home()), Path::new("/home/u/.config/nicotine"));
    assert_eq!(config_path_in(home()), Path::new("/home/u/.config/nicotine/config.toml"));
    assert_eq!(
        positions_path_in(home()),
        Path::new("/home/u/.config/inari/preview_positions.toml")
    );
    assert_eq!(
        runtime_dir_in(Some(PathBuf::from("/home/u/.cache")), PathBuf::from("/tmp")),
        Path::new("/home/u/.cache/nicotine")
    );
}

#[test]
fn without_such_directories_others_are_used() {
    assert_eq!(config_path_in(None), Path::new("./nicotine/config.toml"));
    assert_eq!(positions_path_in(None), Path::new("./inari/preview_positions.toml"));
    assert_eq!(runtime_dir_in(None, PathBuf::from("/tmp")), Path::new("/tmp/nicotine"));
}

#[test]
fn this_machine_has_all_of_them() {
    let temp = || PathBuf::from("/tmp");
    assert_eq!(Config::config_dir(), config_dir_in(dirs::config_dir()));
    assert_eq!(Config::config_path(), config_path_in(dirs::config_dir()));
    assert_eq!(PreviewPositions::config_path(), positions_path_in(dirs::config_dir()));
    assert_eq!(runtime_dir(temp()), runtime_dir_in(dirs::cache_dir(), temp()));
    assert_eq!(lock_file_path(temp()), runtime_dir(temp()).join("nicotine-cycle.lock"));
    assert_eq!(index_file_path(temp()), runtime_dir(temp()).join("nicotine-index"));
}

#[test]
fn short_lived_files_share_a_directory() {
    for found in [None, Some(PathBuf::from("/home/u/.cache"))] {
        let lock = lock_file_path_in(found.clone(), PathBuf::from("/tmp"));
        let index = index_file_path_in(found, PathBuf::from("/tmp"));
        assert_eq!(lock.parent(), index.parent());
        assert!(lock.parent().unwrap().ends_with("nicotine"));
        assert!(lock.ends_with("nicotine-cycle.lock"));
        assert!(index.ends_with("nicotine-index"));
        assert_ne!(lock, index);
    }
    let here = PathBuf::from("/tmp");
    assert_eq!(lock_file_path(here.clone()).parent(), index_file_path(here.clone()).parent());
    assert_eq!(lock_file_path(here.clone()), lock_file_path(here));
}
