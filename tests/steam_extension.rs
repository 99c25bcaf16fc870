use steam_extension::catalog::{insert_app, parse_app_manifest, scan_games_in_library};
use steam_extension::extension::{appid_param, parse_hook};
use steam_extension::number::{parse_u32, parse_u64, push_decimal};
use steam_extension::paths::{
    has_extension, install_candidates, join_path, locate_candidates, select_install_path,
};
use steam_extension::resolve::{
    choose_executable, executable_candidates, launch_game, needs_directory_scan,
};
use steam_extension::vdf::extract_vdf_value;
use steam_extension::{
    ExtensionError, ExtensionType, Hook, Platform, SteamApp, SteamExtension, SteamGame, SteamLibrary,
};

fn app(appid: u32, name: &str, install_dir: Option<&str>) -> SteamApp {
    SteamApp {
        appid,
        name: name.to_string(),
        install_dir: install_dir.map(|s| s.to_string()),
        size_on_disk: None,
        last_updated: None,
        launch_options: None,
    }
}

fn validation_message(e: ExtensionError) -> String {
    match e {
        ExtensionError::Validation(m) => m,
        other => panic!("expected a validation error, got {:?}", other),
    }
}

/// An extension whose install root is `root`, with one library holding `manifests`.
fn catalog(root: &str, manifests: &[&str]) -> SteamExtension {
    let mut ext = SteamExtension::new();
    ext.find_steam_install_path(&vec![Some(root.to_string())], &vec![true]).unwrap();
    ext.scan_steam_libraries(true).unwrap();
    let texts: Vec<String> = manifests.iter().map(|s| s.to_string()).collect();
    let apps = scan_games_in_library(&texts).unwrap();
    ext.set_library_apps(0, apps);
    ext
}

#[test]
fn it_works() {
    let extension = SteamExtension::new();
    assert_eq!(extension.get_id(), "steam_extension");
}

#[test]
fn new_extension_describes_itself() {
    let ext = SteamExtension::new();
    assert_eq!(ext.get_type(), ExtensionType::GameLibrary);
    let m = ext.get_manifest();
    assert_eq!(m.extension_type, ExtensionType::GameLibrary);
    assert_eq!(
        m.hooks.clone().unwrap(),
        vec!["scan_games".to_string(), "get_game_details".to_string(), "launch_game".to_string()]
    );
    assert_eq!(m.permissions, vec!["filesystem".to_string(), "native".to_string()]);
    assert!(ext.libraries.is_empty());
    assert!(ext.steam_install_path.is_none());
}

#[test]
fn extract_reads_value_after_key() {
    let text = "\"AppState\"\n{\n\t\"appid\"\t\t\"570\"\n\t\"name\"\t\t\"Dota 2\"\n}\n";
    assert_eq!(extract_vdf_value(text, "appid").unwrap(), "570");
    assert_eq!(extract_vdf_value(text, "name").unwrap(), "Dota 2");
}

#[test]
fn extract_first_matching_line_wins() {
    let text = "\"name\" \"first\"\n\"name\" \"second\"";
    assert_eq!(extract_vdf_value(text, "name").unwrap(), "first");
}

#[test]
fn extract_skips_line_without_value() {
    let text = "\"name\" \"unterminated\n\"name\" \"kept\"";
    assert_eq!(extract_vdf_value(text, "name").unwrap(), "kept");
    let text = "\"name\"\n\"other\" \"x\"";
    assert!(extract_vdf_value(text, "name").is_err());
}

#[test]
fn extract_key_must_be_quoted() {
    let text = "name \"plain\"\n\"names\" \"other\"";
    let e = extract_vdf_value(text, "name").unwrap_err();
    assert_eq!(validation_message(e), "Key name not found");
}

#[test]
fn extract_empty_value_and_crlf() {
    assert_eq!(extract_vdf_value("\"installdir\" \"\"\r\n", "installdir").unwrap(), "");
    assert_eq!(extract_vdf_value("  \"a\" \"b\"  \r\n\"c\" \"d\"\r\n", "c").unwrap(), "d");
}

#[test]
fn extract_is_repeatable() {
    let text = "\"appid\" \"42\"\n\"name\" \"Same\"";
    let first = extract_vdf_value(text, "name").unwrap();
    let second = extract_vdf_value(text, "name").unwrap();
    assert_eq!(first, second);
    assert_eq!(first, "Same");
}

#[test]
fn parse_minimal_manifest() {
    let app = parse_app_manifest("\"appid\" \"123\"\n\"name\" \"Example\"\n").unwrap();
    assert_eq!(app.appid, 123);
    assert_eq!(app.name, "Example");
    assert_eq!(app.install_dir, None);
    assert_eq!(app.size_on_disk, None);
    assert_eq!(app.last_updated, None);
    assert_eq!(app.launch_options, None);
}

#[test]
fn parse_full_manifest() {
    let text = "\"AppState\"\n{\n\"appid\" \"440\"\n\"name\" \"Team Fortress 2\"\n\"installdir\" \"Team Fortress 2\"\n\"SizeOnDisk\" \"26000000000\"\n}";
    let app = parse_app_manifest(text).unwrap();
    assert_eq!(app.appid, 440);
    assert_eq!(app.install_dir, Some("Team Fortress 2".to_string()));
    assert_eq!(app.size_on_disk, Some(26000000000));
}

#[test]
fn parse_bad_size_is_absent() {
    let app = parse_app_manifest("\"appid\" \"1\"\n\"name\" \"n\"\n\"SizeOnDisk\" \"big\"").unwrap();
    assert_eq!(app.size_on_disk, None);
}

#[test]
fn parse_non_numeric_appid_fails() {
    let e = parse_app_manifest("\"appid\" \"abc\"\n\"name\" \"Example\"").unwrap_err();
    assert_eq!(validation_message(e), "Invalid appid");
    let e = parse_app_manifest("\"appid\" \"4294967296\"\n\"name\" \"Example\"").unwrap_err();
    assert_eq!(validation_message(e), "Invalid appid");
}

#[test]
fn parse_missing_required_keys() {
    let e = parse_app_manifest("\"name\" \"Example\"").unwrap_err();
    assert_eq!(validation_message(e), "Key appid not found");
    let e = parse_app_manifest("\"appid\" \"x\"").unwrap_err();
    assert_eq!(validation_message(e), "Key name not found");
}

#[test]
fn scan_fails_on_bad_manifest() {
    let texts = vec![
        "\"appid\" \"1\"\n\"name\" \"Good\"".to_string(),
        "\"appid\" \"one\"\n\"name\" \"Bad\"".to_string(),
    ];
    let e = scan_games_in_library(&texts).unwrap_err();
    assert_eq!(validation_message(e), "Invalid appid");
}

#[test]
fn rescan_overwrites_same_appid() {
    let texts = vec![
        "\"appid\" \"7\"\n\"name\" \"Old\"".to_string(),
        "\"appid\" \"8\"\n\"name\" \"Other\"".to_string(),
        "\"appid\" \"7\"\n\"name\" \"New\"".to_string(),
    ];
    let apps = scan_games_in_library(&texts).unwrap();
    assert_eq!(apps.len(), 2);
    assert_eq!(apps[0].appid, 7);
    assert_eq!(apps[0].name, "New");
    assert_eq!(apps[1].name, "Other");
}

#[test]
fn insert_app_replaces_or_appends() {
    let mut apps = vec![app(1, "a", None)];
    insert_app(&mut apps, app(2, "b", None));
    insert_app(&mut apps, app(1, "c", None));
    assert_eq!(apps.len(), 2);
    assert_eq!(apps[0].name, "c");
    assert_eq!(apps[1].name, "b");
}

#[test]
fn number_parsing() {
    assert_eq!(parse_u32("123"), Some(123));
    assert_eq!(parse_u32("+5"), Some(5));
    assert_eq!(parse_u32("4294967295"), Some(4294967295));
    assert_eq!(parse_u32("4294967296"), None);
    assert_eq!(parse_u32(""), None);
    assert_eq!(parse_u32("+"), None);
    assert_eq!(parse_u32("-1"), None);
    assert_eq!(parse_u32(" 1"), None);
    assert_eq!(parse_u64("18446744073709551615"), Some(u64::MAX));
    assert_eq!(parse_u64("18446744073709551616"), None);
    let mut s = String::from("n=");
    push_decimal(&mut s, 0);
    push_decimal(&mut s, 4096);
    assert_eq!(s, "n=04096");
}

#[test]
fn path_joining_and_extensions() {
    assert_eq!(join_path("/a", "b"), "/a/b");
    assert_eq!(join_path("/a/", "b"), "/a/b");
    assert_eq!(join_path("", "b"), "b");
    assert_eq!(join_path("/a", ""), "/a/");
    assert!(has_extension("570.acf", "acf"));
    assert!(has_extension("a.b.acf", "acf"));
    assert!(!has_extension(".acf", "acf"));
    assert!(!has_extension("acf", "acf"));
    assert!(!has_extension("x.acf.bak", "acf"));
    assert!(has_extension("Game.exe", "exe"));
}

#[test]
fn candidates_expand_home() {
    let c = install_candidates(Platform::Linux, &Some("/home/u".to_string()));
    assert_eq!(
        c,
        vec![Some("/home/u/.steam/steam".to_string()), Some("/home/u/.local/share/Steam".to_string())]
    );
    let c = install_candidates(Platform::MacOs, &None);
    assert_eq!(c, vec![Some("/Applications/Steam.app/Contents/MacOS".to_string()), None]);
    let c = install_candidates(Platform::Windows, &None);
    assert_eq!(
        c,
        vec![
            Some("C:\\Program Files (x86)\\Steam".to_string()),
            Some("C:\\Program Files\\Steam".to_string())
        ]
    );
}

#[test]
fn located_candidates_are_expanded() {
    let c = locate_candidates(Platform::Linux);
    assert_eq!(c.len(), 2);
    if let Some(p) = &c[0] {
        assert!(p.ends_with("/.steam/steam"));
        assert!(!p.starts_with('~'));
    }
}

#[test]
fn probe_returns_first_existing() {
    let c = vec![Some("/one".to_string()), Some("/two".to_string()), Some("/three".to_string())];
    assert_eq!(select_install_path(&c, &vec![false, true, true]).unwrap(), "/two");
    match select_install_path(&c, &vec![false, false, false]) {
        Err(ExtensionError::NotFound(m)) => assert_eq!(m, "Steam installation not found"),
        other => panic!("unexpected {:?}", other),
    }
    let c = vec![Some("/one".to_string()), None];
    let e = select_install_path(&c, &vec![false, false]).unwrap_err();
    assert_eq!(validation_message(e), "Could not find home directory");
    assert_eq!(select_install_path(&c, &vec![true, false]).unwrap(), "/one");
}

#[test]
fn library_needs_install_path() {
    let mut ext = SteamExtension::new();
    let e = ext.scan_steam_libraries(true).unwrap_err();
    assert_eq!(validation_message(e), "Steam path not set");
    ext.find_steam_install_path(&vec![Some("/r".to_string())], &vec![true]).unwrap();
    ext.scan_steam_libraries(false).unwrap();
    assert!(ext.libraries.is_empty());
    ext.scan_steam_libraries(true).unwrap();
    assert_eq!(ext.library_paths(), vec!["/r/steamapps".to_string()]);
}

#[test]
fn failed_probe_leaves_path_unset() {
    let mut ext = SteamExtension::new();
    assert!(ext.find_steam_install_path(&vec![Some("/x".to_string())], &vec![false]).is_err());
    assert!(ext.steam_install_path.is_none());
}

#[test]
fn details_for_missing_appid_not_found() {
    let ext = catalog("/r", &["\"appid\" \"1\"\n\"name\" \"One\""]);
    match ext.get_game_details(2, None, false) {
        Err(ExtensionError::NotFound(m)) => assert_eq!(m, "Game with appid 2 not found"),
        other => panic!("unexpected {:?}", other),
    }
    assert!(matches!(ext.game_directory(2), Err(ExtensionError::NotFound(_))));
}

#[test]
fn details_working_dir_and_icon() {
    let ext = catalog("/r", &["\"appid\" \"1\"\n\"name\" \"One\"\n\"installdir\" \"one\""]);
    let g = ext.get_game_details(1, Some("/r/steamapps/common/one/game.exe".to_string()), true).unwrap();
    assert_eq!(g.app.name, "One");
    assert_eq!(g.working_dir, Some("/r/steamapps/common/one".to_string()));
    assert_eq!(g.executable, Some("/r/steamapps/common/one/game.exe".to_string()));
    assert_eq!(g.icon_path, Some("/r/appcache/librarycache/1_icon.jpg".to_string()));
    assert_eq!(g.launch_args, None);
    assert_eq!(g.banner_path, None);
    let g = ext.get_game_details(1, None, false).unwrap();
    assert_eq!(g.icon_path, None);
    assert_eq!(g.executable, None);
}

#[test]
fn details_without_install_dir_uses_common() {
    let ext = catalog("/r", &["\"appid\" \"5\"\n\"name\" \"Five\""]);
    assert_eq!(ext.game_directory(5).unwrap(), "/r/steamapps/common/");
    assert_eq!(ext.icon_candidate(5), Some("/r/appcache/librarycache/5_icon.jpg".to_string()));
}

#[test]
fn executable_search_order() {
    let c = executable_candidates("/g");
    assert_eq!(
        c,
        vec![
            "/g/game.exe".to_string(),
            "/g/Game.exe".to_string(),
            "/g/launch.exe".to_string(),
            "/g/start.exe".to_string()
        ]
    );
    assert_eq!(choose_executable(&c, &vec![false, true, false, true], None), Some("/g/Game.exe".to_string()));
    assert_eq!(
        choose_executable(&c, &vec![false; 4], Some("/g/other.exe".to_string())),
        Some("/g/other.exe".to_string())
    );
    assert_eq!(choose_executable(&c, &vec![false; 4], None), None);
}

#[test]
fn launch_without_executable_fails() {
    let g = SteamGame {
        app: app(1, "One", None),
        executable: None,
        working_dir: Some("/w".to_string()),
        launch_args: None,
        icon_path: None,
        banner_path: None,
    };
    let e = launch_game(&g).unwrap_err();
    assert_eq!(validation_message(e), "No executable found for game");
}

#[test]
fn launch_uses_working_dir_or_dot() {
    let mut g = SteamGame {
        app: app(1, "One", None),
        executable: Some("/w/game.exe".to_string()),
        working_dir: Some("/w".to_string()),
        launch_args: None,
        icon_path: None,
        banner_path: None,
    };
    let cmd = launch_game(&g).unwrap();
    assert_eq!(cmd.program, "/w/game.exe");
    assert_eq!(cmd.current_dir, "/w");
    g.working_dir = None;
    assert_eq!(launch_game(&g).unwrap().current_dir, ".");
}

#[test]
fn hooks_by_name() {
    assert_eq!(parse_hook("scan_games").unwrap(), Hook::ScanGames);
    assert_eq!(parse_hook("get_game_details").unwrap(), Hook::GetGameDetails);
    assert_eq!(parse_hook("launch_game").unwrap(), Hook::LaunchGame);
    let e = parse_hook("uninstall").unwrap_err();
    assert_eq!(validation_message(e), "Unknown hook: uninstall");
    assert_eq!(appid_param(Some(570)).unwrap(), 570);
    assert_eq!(appid_param(Some(4294967295)).unwrap(), 4294967295);
    match appid_param(Some(4294967296 + 123)) {
        Err(ExtensionError::NotFound(m)) => assert_eq!(m, "Game with appid 4294967419 not found"),
        other => panic!("unexpected {:?}", other),
    }
    let e = appid_param(None).unwrap_err();
    assert_eq!(validation_message(e), "appid parameter required");
}

#[test]
fn initialize_scenario_one_manifest() {
    let ext = catalog("R", &["\"appid\" \"123\" \"name\" \"Demo\" \"installdir\" \"demo\""]);
    let games = ext.scan_games();
    assert_eq!(games.len(), 1);
    assert_eq!(games[0].app.appid, 123);
    assert_eq!(games[0].app.name, "Demo");
    assert_eq!(games[0].executable, None);
    assert_eq!(games[0].working_dir, None);
    assert_eq!(games[0].icon_path, None);
    let g = ext.get_game_details(123, None, false).unwrap();
    assert_eq!(g.working_dir, Some("R/steamapps/common/demo".to_string()));
}

#[test]
fn scan_games_lists_every_library() {
    let mut ext = catalog("/r", &["\"appid\" \"1\"\n\"name\" \"A\"", "\"appid\" \"2\"\n\"name\" \"B\""]);
    ext.libraries.push(SteamLibrary { path: "/other".to_string(), apps: Vec::new() });
    let apps = scan_games_in_library(&vec!["\"appid\" \"3\"\n\"name\" \"C\"".to_string()]).unwrap();
    ext.set_library_apps(1, apps);
    let ids: Vec<u32> = ext.scan_games().iter().map(|g| g.app.appid).collect();
    assert_eq!(ids, vec![1, 2, 3]);
    let apps = scan_games_in_library(&vec!["\"appid\" \"9\"\n\"name\" \"Z\"".to_string()]).unwrap();
    ext.set_library_apps(0, apps);
    let ids: Vec<u32> = ext.scan_games().iter().map(|g| g.app.appid).collect();
    assert_eq!(ids, vec![9, 3]);
}

#[test]
fn rediscovery_replaces_libraries() {
    let mut ext = catalog("/r", &["\"appid\" \"1\"\n\"name\" \"A\""]);
    ext.scan_steam_libraries(true).unwrap();
    assert_eq!(ext.library_paths(), vec!["/r/steamapps".to_string()]);
    assert!(ext.scan_games().is_empty());
    ext.scan_steam_libraries(false).unwrap();
    assert!(ext.libraries.is_empty());
}

#[test]
fn scan_error_is_first_rejected_manifest() {
    let texts = vec![
        "\"appid\" \"1\"\n\"name\" \"Good\"".to_string(),
        "\"name\" \"No id\"".to_string(),
        "\"appid\" \"bad\"\n\"name\" \"Bad\"".to_string(),
    ];
    let e = scan_games_in_library(&texts).unwrap_err();
    assert_eq!(validation_message(e), "Key appid not found");
}

#[test]
fn probe_error_kinds() {
    let mut ext = SteamExtension::new();
    let c = install_candidates(Platform::Linux, &None);
    let e = ext.find_steam_install_path(&c, &vec![false, false]).unwrap_err();
    assert_eq!(validation_message(e), "Could not find home directory");
    let c = install_candidates(Platform::Linux, &Some("/h".to_string()));
    match ext.find_steam_install_path(&c, &vec![false, false]) {
        Err(ExtensionError::NotFound(_)) => {}
        other => panic!("unexpected {:?}", other),
    }
    assert!(ext.steam_install_path.is_none());
    ext.find_steam_install_path(&c, &vec![false, true]).unwrap();
    assert_eq!(ext.steam_install_path, Some("/h/.local/share/Steam".to_string()));
}

#[test]
fn descriptor_names_the_extension() {
    let ext = SteamExtension::new();
    let m = ext.get_manifest();
    assert_eq!(m.name, "Steam Game Library Extension");
    assert_eq!(m.version, "0.1.0");
    assert_eq!(m.entry_point, "arcadia_steam_extension");
    assert_eq!(m.provided_apis, vec!["steam_games".to_string(), "steam_launcher".to_string()]);
    assert_eq!(m.author, Some("Arcadia Team".to_string()));
}

#[test]
fn directory_scan_only_on_windows_when_nothing_found() {
    assert!(needs_directory_scan(Platform::Windows, &vec![false; 4]));
    assert!(!needs_directory_scan(Platform::Windows, &vec![false, false, true, false]));
    assert!(!needs_directory_scan(Platform::Linux, &vec![false; 4]));
    assert!(!needs_directory_scan(Platform::MacOs, &vec![false; 4]));
}
