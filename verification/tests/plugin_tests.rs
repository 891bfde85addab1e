use eigeen_loader::error::Error;
use eigeen_loader::plugin::{ModuleObservation, PluginLoader, UnloadOutcome, version_warning};
use eigeen_loader::version::LoaderVersion;

fn well_formed(handle: u64) -> ModuleObservation {
    ModuleObservation::Loaded {
        handle,
        init: Some(0),
        version: Some(LoaderVersion { major: 1, minor: 0, patch: 0 }),
    }
}

#[test]
fn incompatible_major_version_is_rejected_and_not_activated() {
    let mut loader = PluginLoader::new();
    let obs = ModuleObservation::Loaded {
        handle: 7,
        init: Some(0),
        version: Some(LoaderVersion { major: 2, minor: 0, patch: 0 }),
    };
    let err = loader.load("modern", &obs).unwrap_err();
    assert!(matches!(
        err,
        Error::IncompatiblePluginRequiredVersion(v) if v.major == 2
    ));
    assert!(!loader.is_active("modern"));
    assert_eq!(loader.active_count(), 0);
}

#[test]
fn missing_version_query_is_accepted_with_a_warning() {
    let mut loader = PluginLoader::new();
    let obs = ModuleObservation::Loaded { handle: 9, init: Some(0), version: None };
    assert!(version_warning(&obs));
    loader.load("quiet", &obs).unwrap();
    assert!(loader.is_active("quiet"));
    // a module reporting an all-zero version is treated the same way
    let zero = ModuleObservation::Loaded {
        handle: 10,
        init: Some(0),
        version: Some(LoaderVersion { major: 0, minor: 0, patch: 0 }),
    };
    assert!(version_warning(&zero));
    loader.load("zeroed", &zero).unwrap();
    assert!(loader.is_active("zeroed"));
    assert!(!version_warning(&well_formed(1)));
}

#[test]
fn failing_init_reports_its_code() {
    let mut loader = PluginLoader::new();
    let obs = ModuleObservation::Loaded { handle: 3, init: Some(-2), version: None };
    let err = loader.load("broken", &obs).unwrap_err();
    assert!(matches!(err, Error::InitPlugin(-2)));
    assert!(!loader.is_active("broken"));
}

#[test]
fn missing_module_file_is_not_found() {
    let mut loader = PluginLoader::new();
    let err = loader.load("ghost", &ModuleObservation::Missing).unwrap_err();
    assert!(matches!(err, Error::PluginNotFound(name) if name == "ghost"));
}

#[test]
fn unload_without_uninit_entry_point_keeps_the_module_active() {
    let mut loader = PluginLoader::new();
    loader.load("sticky", &well_formed(4)).unwrap();
    let err = loader.unload("sticky", &UnloadOutcome::UninitMissing).unwrap_err();
    assert!(matches!(err, Error::UnloadPlugin));
    assert!(loader.is_active("sticky"));
    assert_eq!(loader.active_count(), 1);
}

#[test]
fn failing_uninit_or_unmap_leaves_bookkeeping_unchanged() {
    let mut loader = PluginLoader::new();
    loader.load("fragile", &well_formed(4)).unwrap();
    assert!(matches!(
        loader.unload("fragile", &UnloadOutcome::UninitFailed(3)),
        Err(Error::UnloadPlugin)
    ));
    assert!(loader.is_active("fragile"));
    assert!(matches!(
        loader.unload("fragile", &UnloadOutcome::UnmapFailed),
        Err(Error::UnloadPlugin)
    ));
    assert!(loader.is_active("fragile"));
}

#[test]
fn successful_unload_removes_the_module() {
    let mut loader = PluginLoader::new();
    loader.load("first", &well_formed(1)).unwrap();
    loader.load("second", &well_formed(2)).unwrap();
    loader.unload("first", &UnloadOutcome::Unloaded).unwrap();
    assert!(!loader.is_active("first"));
    assert!(loader.is_active("second"));
    assert_eq!(loader.active_count(), 1);
}

#[test]
fn unloading_an_unknown_name_is_not_found() {
    let mut loader = PluginLoader::new();
    let err = loader.unload("nobody", &UnloadOutcome::Unloaded).unwrap_err();
    assert!(matches!(err, Error::PluginNotFound(name) if name == "nobody"));
}

#[test]
fn auto_load_counts_attempts_and_successes_past_failures() {
    let mut loader = PluginLoader::new();
    let observations = vec![
        ("good".to_string(), well_formed(11)),
        (
            "failing".to_string(),
            ModuleObservation::Loaded { handle: 12, init: Some(1), version: None },
        ),
    ];
    let (attempted, succeeded) = loader.auto_load_plugins(&observations);
    assert_eq!(attempted, 2);
    assert_eq!(succeeded, 1);
    assert!(loader.is_active("good"));
    assert!(!loader.is_active("failing"));
}
