use eigeen_loader::hook::{HookError, HookKind, HookTable};

#[test]
fn hooks_do_not_stack_on_one_target() {
    let mut table = HookTable::new();
    table.install(0x1400, HookKind::Replacement, 0x9000).unwrap();
    assert!(table.is_hooked(0x1400));
    let err = table.install(0x1400, HookKind::Observation, 0x9100).unwrap_err();
    assert!(matches!(err, HookError::AlreadyHooked));
    // the first hook is untouched
    assert_eq!(table.original(0x1400), Some(0x9000));
}

#[test]
fn only_replacement_hooks_answer_for_the_original() {
    let mut table = HookTable::new();
    table.install(0x2000, HookKind::Replacement, 0x9200).unwrap();
    table.install(0x3000, HookKind::Observation, 0x9300).unwrap();
    assert_eq!(table.original(0x2000), Some(0x9200));
    assert_eq!(table.original(0x3000), None);
    assert_eq!(table.original(0x4000), None);
}

#[test]
fn uninstall_frees_the_target_for_a_new_hook() {
    let mut table = HookTable::new();
    table.install(0x2000, HookKind::Replacement, 0x9200).unwrap();
    table.uninstall(0x2000).unwrap();
    assert!(!table.is_hooked(0x2000));
    table.install(0x2000, HookKind::Observation, 0x9400).unwrap();
    assert!(table.is_hooked(0x2000));
}

#[test]
fn uninstalling_an_unhooked_target_is_refused() {
    let mut table = HookTable::new();
    assert!(matches!(table.uninstall(0x7777), Err(HookError::NotHooked)));
}
