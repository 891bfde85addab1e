use eigeen_loader::error::{Error, WindowsError};
use eigeen_loader::plugin::ModuleObservation;
use eigeen_loader::registry::{init_core_extension, CoreAPI};
use eigeen_loader::version::LoaderVersion;

#[test]
fn capabilities_are_looked_up_by_name() {
    let mut api = CoreAPI::new();
    assert_eq!(api.get_function("d3d_initialize"), None);
    api.register_function("d3d_initialize", 0xDEAD_0001);
    assert_eq!(api.get_function("d3d_initialize"), Some(0xDEAD_0001));
    assert_eq!(api.get_function("other"), None);
}

#[test]
fn reregistering_a_name_rebinds_it_last_writer_wins() {
    let mut api = CoreAPI::new();
    api.register_function("render", 0x1111);
    api.register_function("render", 0x2222);
    assert_eq!(api.get_function("render"), Some(0x2222));
}

#[test]
fn extension_batch_counts_attempts_and_successes() {
    let mut api = CoreAPI::new();
    let observations = vec![
        (
            "overlay".to_string(),
            ModuleObservation::Loaded {
                handle: 21,
                init: Some(0),
                version: Some(LoaderVersion { major: 1, minor: 2, patch: 3 }),
            },
        ),
        (
            "stale".to_string(),
            ModuleObservation::Loaded {
                handle: 22,
                init: Some(0),
                version: Some(LoaderVersion { major: 3, minor: 0, patch: 0 }),
            },
        ),
        ("unreadable".to_string(), ModuleObservation::Missing),
    ];
    let (attempted, succeeded) = api.load_core_exts(&observations);
    assert_eq!(attempted, 3);
    assert_eq!(succeeded, 1);
    // capabilities registered before the batch are untouched
    api.register_function("probe", 0x42);
    assert_eq!(api.get_function("probe"), Some(0x42));
}

#[test]
fn a_failing_extension_reports_its_own_error() {
    let obs = ModuleObservation::Loaded { handle: 31, init: Some(9), version: None };
    let err = init_core_extension("overlay", &obs).unwrap_err();
    assert!(matches!(err, Error::InitCoreExtension(9)));
}

#[test]
fn a_module_the_platform_cannot_map_reports_the_platform_text() {
    let obs = ModuleObservation::LoadFailed(WindowsError::Raw("access denied".to_string()));
    let err = init_core_extension("blocked", &obs).unwrap_err();
    assert!(matches!(err, Error::Windows(WindowsError::Raw(msg)) if msg == "access denied"));
}
