use asset_manager::derive_asset_name;

#[test]
fn stem_simple() {
    assert_eq!(derive_asset_name("assets/hero.png"), Some("hero".to_string()));
}

#[test]
fn stem_nested_dirs() {
    assert_eq!(derive_asset_name("a/b/c.tar.gz"), Some("c.tar".to_string()));
}

#[test]
fn stem_no_directory() {
    assert_eq!(derive_asset_name("hero.png"), Some("hero".to_string()));
}

#[test]
fn stem_no_extension() {
    assert_eq!(derive_asset_name("dir/readme"), Some("readme".to_string()));
}

#[test]
fn stem_hidden_file() {
    assert_eq!(derive_asset_name("dir/.config"), Some(".config".to_string()));
}

#[test]
fn stem_dot_in_directory() {
    assert_eq!(derive_asset_name("dir.d/file"), Some("file".to_string()));
}

#[test]
fn stem_trailing_separator() {
    assert_eq!(derive_asset_name("dir/"), None);
}

#[test]
fn stem_empty_path() {
    assert_eq!(derive_asset_name(""), None);
}

#[test]
fn stem_sound_path() {
    assert_eq!(derive_asset_name("assets/sounds/boom.wav"), Some("boom".to_string()));
}

#[test]
fn stem_backslash_separator() {
    assert_eq!(derive_asset_name("dir\\hero.png"), Some("hero".to_string()));
}

#[test]
fn stem_mixed_separators() {
    assert_eq!(derive_asset_name("a\\b/c.png"), Some("c".to_string()));
}

#[test]
fn stem_trailing_backslash() {
    assert_eq!(derive_asset_name("dir\\"), None);
}

#[test]
fn stem_trailing_dot() {
    assert_eq!(derive_asset_name("a/name."), Some("name".to_string()));
}
