use asset_manager::AssetError;
use asset_manager::AssetManager;
use asset_manager::Image;
use asset_manager::LoadOutcome;

fn img(width: u16, height: u16) -> Image {
    Image { width, height, bytes: vec![0u8; 4 * (width as usize) * (height as usize)] }
}

fn loaded(name: &str, width: u16, height: u16) -> LoadOutcome<Image> {
    LoadOutcome::Loaded(name.to_string(), img(width, height))
}

#[test]
fn empty_manager_has_no_assets() {
    let m = AssetManager::empty();
    assert_eq!(m.image_count(), 0);
    assert_eq!(m.texture_count(), 0);
    assert_eq!(m.sound_count(), 0);
    assert!(m.get_image("hero").is_none());
    assert!(m.get_texture("hero").is_none());
    assert!(m.get_sound("boom").is_none());
}

#[test]
fn insert_and_get_image() {
    let mut m = AssetManager::empty();
    m.insert_image("hero".to_string(), img(8, 4));
    assert_eq!(m.image_count(), 1);
    let got = m.get_image("hero").expect("inserted image");
    assert_eq!(got.width, 8);
    assert_eq!(got.height, 4);
    assert_eq!(got.bytes.len(), 4 * 8 * 4);
    assert!(m.get_image("other").is_none());
}

#[test]
fn insert_overwrites_same_name() {
    let mut m = AssetManager::empty();
    m.insert_image("hero".to_string(), img(8, 4));
    m.insert_image("hero".to_string(), img(2, 2));
    assert_eq!(m.image_count(), 1);
    let got = m.get_image("hero").expect("inserted image");
    assert_eq!(got.width, 2);
    assert_eq!(got.height, 2);
}

#[test]
fn image_to_tex_missing_name_reports_not_found() {
    let mut m = AssetManager::empty();
    m.insert_image("present".to_string(), img(4, 4));
    let r = m.image_to_tex("absent");
    assert_eq!(r, Err(AssetError::NotFound));
    assert_eq!(m.image_count(), 1);
    assert_eq!(m.texture_count(), 0);
    assert!(m.get_image("present").is_some());
}

#[test]
fn tex_to_image_missing_name_reports_not_found() {
    let mut m = AssetManager::empty();
    m.insert_image("present".to_string(), img(4, 4));
    let r = m.tex_to_image("absent");
    assert_eq!(r, Err(AssetError::NotFound));
    assert_eq!(m.image_count(), 1);
    assert_eq!(m.texture_count(), 0);
}

#[test]
fn batch_load_fills_cache_completely() {
    let mut m = AssetManager::empty();
    let outcomes = vec![loaded("hero", 8, 8), loaded("wall", 16, 16), loaded("door", 4, 2)];
    let failed = m.apply_image_batch(outcomes);
    assert!(failed.is_empty());
    assert_eq!(m.image_count(), 3);
    assert_eq!(m.get_image("hero").unwrap().width, 8);
    assert_eq!(m.get_image("wall").unwrap().width, 16);
    assert_eq!(m.get_image("door").unwrap().height, 2);
}

#[test]
fn batch_load_isolates_failures() {
    let mut m = AssetManager::empty();
    let outcomes = vec![
        loaded("hero", 8, 8),
        LoadOutcome::Failed("assets/broken.png".to_string()),
        loaded("wall", 16, 16),
        LoadOutcome::Failed("assets/corrupt.png".to_string()),
    ];
    let failed = m.apply_image_batch(outcomes);
    assert_eq!(m.image_count(), 2);
    assert!(m.get_image("hero").is_some());
    assert!(m.get_image("wall").is_some());
    assert_eq!(
        failed,
        vec!["assets/broken.png".to_string(), "assets/corrupt.png".to_string()]
    );
}

#[test]
fn colliding_names_leave_single_entry() {
    let mut m = AssetManager::empty();
    let outcomes = vec![loaded("hero", 7, 7), loaded("hero", 9, 9)];
    let failed = m.apply_image_batch(outcomes);
    assert!(failed.is_empty());
    assert_eq!(m.image_count(), 1);
    let got = m.get_image("hero").expect("one surviving entry");
    assert!(got.width == 7 || got.width == 9);
}

#[test]
fn construction_paths_populate_identically() {
    let batch = || vec![loaded("hero", 8, 8), loaded("wall", 16, 16)];
    let (configured, diags) = AssetManager::new(None, Some(batch()), None);
    assert!(diags.is_empty());

    let mut stepwise = AssetManager::empty();
    let failed = stepwise.apply_image_batch(batch());
    assert!(failed.is_empty());

    assert_eq!(configured.image_count(), stepwise.image_count());
    assert_eq!(configured.texture_count(), stepwise.texture_count());
    assert_eq!(configured.sound_count(), stepwise.sound_count());
    for name in ["hero", "wall"] {
        let a = configured.get_image(name).expect("configured entry");
        let b = stepwise.get_image(name).expect("stepwise entry");
        assert_eq!(a.width, b.width);
        assert_eq!(a.height, b.height);
        assert_eq!(a.bytes, b.bytes);
    }
}

#[test]
fn absent_directories_load_nothing() {
    let (m, diags) = AssetManager::new(None, None, None);
    assert!(diags.is_empty());
    assert_eq!(m.image_count(), 0);
    assert_eq!(m.texture_count(), 0);
    assert_eq!(m.sound_count(), 0);
}

#[test]
fn sound_batch_failures_only_produce_diagnostics() {
    let mut m = AssetManager::empty();
    let outcomes: Vec<LoadOutcome<macroquad::audio::Sound>> = vec![
        LoadOutcome::Failed("assets/sounds/a.wav".to_string()),
        LoadOutcome::Failed("assets/sounds/b.wav".to_string()),
    ];
    let failed = m.apply_sound_batch(outcomes);
    assert_eq!(m.sound_count(), 0);
    assert_eq!(
        failed,
        vec!["assets/sounds/a.wav".to_string(), "assets/sounds/b.wav".to_string()]
    );
}

#[test]
fn derived_names_key_a_batch() {
    let mut m = AssetManager::empty();
    let mut outcomes = Vec::new();
    for path in ["assets/hero.png", "assets/tiles/wall.png"] {
        match asset_manager::derive_asset_name(path) {
            Some(name) => outcomes.push(LoadOutcome::Loaded(name, img(2, 2))),
            None => outcomes.push(LoadOutcome::Failed(path.to_string())),
        }
    }
    let failed = m.apply_image_batch(outcomes);
    assert!(failed.is_empty());
    assert_eq!(m.image_count(), 2);
    assert!(m.get_image("hero").is_some());
    assert!(m.get_image("wall").is_some());
}
