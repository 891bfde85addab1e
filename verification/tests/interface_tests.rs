use eigeen_loader::command::{do_load, do_unload, Command, CommandHandler};
use eigeen_loader::error::MemoryError;
use eigeen_loader::export::{code_of_scan_error, truncate_matches, AddressName, Code, SingletonName};
use eigeen_loader::get_version;
use eigeen_loader::logger::{Level, Logger};
use eigeen_loader::pattern::PatternError;
use eigeen_loader::plugin::{ModuleObservation, PluginLoader, UnloadOutcome};
use eigeen_loader::revision::{decode_revision_source, get_game_revision_int};
use eigeen_loader::strings::{to_wstring_bytes, to_wstring_bytes_with_nul};
use eigeen_loader::version::LoaderVersion;

#[test]
fn chat_commands_are_parsed() {
    assert!(matches!(CommandHandler::on_message("~ping"), Command::Ping));
    assert!(matches!(CommandHandler::on_message("~~ping"), Command::Ping));
    assert!(matches!(
        CommandHandler::on_message("~load my_plugin"),
        Command::Load(name) if name == "my_plugin"
    ));
    assert!(matches!(
        CommandHandler::on_message("~unload  my_plugin "),
        Command::Unload(name) if name == "my_plugin"
    ));
    assert!(matches!(CommandHandler::on_message("hello"), Command::Ignored));
    assert!(matches!(CommandHandler::on_message(""), Command::Ignored));
    assert!(matches!(CommandHandler::on_message("~load"), Command::Ignored));
    assert!(matches!(CommandHandler::on_message("~unload "), Command::Ignored));
    assert!(matches!(CommandHandler::on_message("~dance"), Command::Ignored));
}

#[test]
fn command_replies_match_the_outcome() {
    let mut loader = PluginLoader::new();
    let good = ModuleObservation::Loaded { handle: 1, init: Some(0), version: None };
    let msg = do_load(&mut loader, "tool", &good);
    assert_eq!(msg, "Loaded plugin: tool");
    assert!(loader.is_active("tool"));
    let msg = do_load(&mut loader, "ghost", &ModuleObservation::Missing);
    assert_eq!(msg, "Failed to load plugin: ghost");
    let msg = do_unload(&mut loader, "tool", &UnloadOutcome::Unloaded);
    assert_eq!(msg, "Unloaded plugin: tool");
    assert!(!loader.is_active("tool"));
    let msg = do_unload(&mut loader, "tool", &UnloadOutcome::Unloaded);
    assert_eq!(msg, "Failed to unload plugin: tool");
}

#[test]
fn wide_strings_encode_utf16() {
    assert_eq!(to_wstring_bytes("AB"), vec![0x41, 0x42]);
    assert_eq!(to_wstring_bytes_with_nul("AB"), vec![0x41, 0x42, 0]);
    // a character outside the basic plane becomes a surrogate pair
    assert_eq!(to_wstring_bytes("\u{1F600}"), vec![0xD83D, 0xDE00]);
    assert_eq!(to_wstring_bytes(""), Vec::<u16>::new());
}

#[test]
fn revision_text_parses_as_a_number() {
    assert_eq!(get_game_revision_int("421810"), Some(421810));
    assert_eq!(get_game_revision_int("+7"), Some(7));
    assert_eq!(get_game_revision_int("-5"), Some(-5));
    assert_eq!(get_game_revision_int("2147483647"), Some(i32::MAX));
    assert_eq!(get_game_revision_int("-2147483648"), Some(i32::MIN));
    assert_eq!(get_game_revision_int("2147483648"), None);
    assert_eq!(get_game_revision_int("99999999999"), None);
    assert_eq!(get_game_revision_int(""), None);
    assert_eq!(get_game_revision_int("12a"), None);
    assert_eq!(get_game_revision_int("+"), None);
}

#[test]
fn revision_prologue_decodes_only_the_expected_instruction() {
    // four bytes of prologue, then MOV reg, [rip+rel32] with rel32 = 0x10
    let window: Vec<u8> = vec![
        0x45, 0x33, 0xC0, 0x90, 0x48, 0x8B, 0x05, 0x10, 0x00, 0x00, 0x00, 0xC3,
    ];
    assert_eq!(decode_revision_source(0x14000_0000, &window), Some(0x14000_001B));
    // a negative displacement walks backwards
    let back: Vec<u8> = vec![
        0x45, 0x33, 0xC0, 0x90, 0x48, 0x8B, 0x05, 0xF0, 0xFF, 0xFF, 0xFF, 0xC3,
    ];
    assert_eq!(decode_revision_source(0x14000_0000, &back), Some(0x13FFF_FFFB));
    let wrong: Vec<u8> = vec![
        0x45, 0x33, 0xC0, 0x90, 0x49, 0x8B, 0x05, 0x10, 0x00, 0x00, 0x00, 0xC3,
    ];
    assert_eq!(decode_revision_source(0x14000_0000, &wrong), None);
    let short: Vec<u8> = vec![0x48, 0x8B];
    assert_eq!(decode_revision_source(0x14000_0000, &short), None);
}

#[test]
fn logger_filters_by_severity_and_prefixes_lines() {
    let mut logger = Logger::new("my_plugin");
    assert!(logger.enabled(Level::Debug));
    assert!(!logger.enabled(Level::Trace));
    assert_eq!(logger.log(Level::Info, "ready"), Some("[my_plugin] ready".to_string()));
    logger.set_max_level(Level::Warn);
    assert_eq!(logger.log(Level::Info, "ready"), None);
    assert_eq!(logger.log(Level::Error, "boom"), Some("[my_plugin] boom".to_string()));
    assert_eq!(Level::Error.as_u8(), 1);
    assert_eq!(Level::Trace.as_u8(), 5);
}

#[test]
fn interface_codes_cross_the_boundary_as_numbers() {
    assert_eq!(Code::Success.as_i32(), 0);
    assert_eq!(Code::InvalidUtf8String.as_i32(), 1);
    assert_eq!(Code::NotFound.as_i32(), 2);
    assert_eq!(Code::BadPattern.as_i32(), 3);
    assert_eq!(
        code_of_scan_error(&MemoryError::PatternScan(PatternError::MalformedToken)),
        Code::BadPattern
    );
    assert_eq!(code_of_scan_error(&MemoryError::NotFound), Code::NotFound);
}

#[test]
fn truncation_is_explicit_never_silent() {
    let matches: Vec<u64> = vec![10, 20, 30, 40, 50];
    let (kept, count) = truncate_matches(&matches, 2);
    assert_eq!(kept, vec![10, 20]);
    assert_eq!(count, 5);
    let (all, count) = truncate_matches(&matches, 8);
    assert_eq!(all, matches);
    assert_eq!(count, 5);
    let (none, count) = truncate_matches(&matches, 0);
    assert!(none.is_empty());
    assert_eq!(count, 5);
}

#[test]
fn the_runtime_version_has_major_one() {
    let v = get_version();
    assert_eq!(v, LoaderVersion { major: 1, minor: 0, patch: 0 });
    assert_eq!(LoaderVersion::default(), LoaderVersion { major: 0, minor: 0, patch: 0 });
}

#[test]
fn versions_format_as_three_dotted_parts() {
    assert_eq!(get_version().version_string(), "1.0.0");
    let v = LoaderVersion { major: 2, minor: 10, patch: 345 };
    assert_eq!(v.version_string(), "2.10.345");
    let odd = LoaderVersion { major: -1, minor: 0, patch: i32::MIN };
    assert_eq!(odd.version_string(), "-1.0.-2147483648");
}

#[test]
fn well_known_names_read_back_as_text() {
    assert_eq!(AddressName::c_system_ctor().as_str(), "cSystem:Ctor");
    assert_eq!(AddressName::core_mh_main_ctor().as_str(), "Core:MhMainCtor");
    assert_eq!(AddressName::core_game_revision().as_str(), "Core:GameRevision");
    assert_eq!(AddressName::chat_message_sent().as_str(), "Chat:MessageSent");
    assert_eq!(AddressName::chat_system_message().as_str(), "Chat:SystemMessage");
    assert_eq!(AddressName::core_after_mh_main_ctor().as_str(), "Core:AfterMhMainCtor");
    assert_eq!(SingletonName::chat().as_str(), "sChat");
    assert_eq!(SingletonName::quest().as_str(), "sQuest");
    assert_eq!(SingletonName::player().as_str(), "sPlayer");
    assert_eq!(SingletonName::wwise_bgm_manager().as_str(), "sWwiseBgmManager");
}
