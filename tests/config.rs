use boxedmino::config::{
    get_cli_config_flags, get_cli_repo_path, get_version_from_cli, try_unwrap_version_name,
    trimmed, white_space, CliInstruction, Config,
};

#[test]
fn fresh_settings() {
    let c = Config::new();
    assert!(c.sandboxed && c.clear_temp_dir && c.use_gui && c.use_cold_clear);
    assert!(!c.import_save_on_play && !c.repo_initialized);
    assert_eq!(c.game_repo_path, "");
    assert_eq!(c.cold_clear_version, "11.4.1");
    let d = Config::default();
    assert_eq!(d.cold_clear_version, "11.4.1");
}

#[test]
fn flags_switch_settings_in_order() {
    let mut c = Config::new();
    assert_eq!(c.apply_flags("sCIaA"), Ok(()));
    assert!(!c.sandboxed && c.clear_temp_dir && c.import_save_on_play && c.use_cold_clear);
    assert_eq!(c.apply_flags("ci"), Ok(()));
    assert!(!c.clear_temp_dir && !c.import_save_on_play);
    assert_eq!(c.apply_flags(""), Ok(()));
    assert!(!c.clear_temp_dir);
}

#[test]
fn white_space_around_flags_is_ignored() {
    let mut c = Config::new();
    assert_eq!(c.apply_flags("  sa\n"), Ok(()));
    assert!(!c.sandboxed && !c.use_cold_clear);
}

#[test]
fn an_unknown_flag_changes_nothing() {
    let mut c = Config::new();
    assert_eq!(c.apply_flags("sxA"), Err('x'));
    assert!(c.sandboxed);
    assert_eq!(c.apply_flags("s a"), Err(' '));
    assert!(c.sandboxed);
    assert_eq!(c.apply_flag_chars(" s"), Err(' '));
}

#[test]
fn command_line_values() {
    let run = Some(CliInstruction::Run {
        version: Some("V0.17.0".to_string()),
        repo_path: Some("/games/techmino".to_string()),
        flags: Some("Sc".to_string()),
    });
    assert_eq!(get_cli_config_flags(&run), Some("Sc".to_string()));
    assert_eq!(get_cli_repo_path(&run), Some("/games/techmino".to_string()));
    assert_eq!(get_version_from_cli(&run), Some("V0.17.0".to_string()));

    let list = Some(CliInstruction::ListVersions { repo_path: Some("/r".to_string()) });
    assert_eq!(get_cli_config_flags(&list), None);
    assert_eq!(get_cli_repo_path(&list), Some("/r".to_string()));
    assert_eq!(get_version_from_cli(&list), None);

    assert_eq!(get_cli_config_flags(&None), None);
    assert_eq!(get_cli_repo_path(&None), None);
    assert_eq!(get_version_from_cli(&None), None);
}

#[test]
fn commit_entries_give_their_hash() {
    assert_eq!(try_unwrap_version_name("[Commit 1a2b3c: Fix bug]"), "1a2b3c");
    assert_eq!(try_unwrap_version_name("[Commit 1a2b3c"), "1a2b3c");
    assert_eq!(try_unwrap_version_name("[Commit : x]"), "");
    assert_eq!(try_unwrap_version_name("[Commit é1:ü]"), "é1");
    assert_eq!(try_unwrap_version_name("V0.17.22"), "V0.17.22");
    assert_eq!(try_unwrap_version_name("[Commit"), "[Commit");
    assert_eq!(try_unwrap_version_name(""), "");
}

#[test]
fn unicode_white_space_is_trimmed() {
    let mut c = Config::new();
    assert_eq!(c.apply_flags("\u{3000}\tsI\u{a0}\u{2028}"), Ok(()));
    assert!(!c.sandboxed && c.import_save_on_play);
    assert_eq!(trimmed(" \u{85}a b\u{200a} "), "a b");
    assert_eq!(trimmed("\u{200b}a"), "\u{200b}a");
    assert_eq!(trimmed("   "), "");
    assert!(white_space('\u{1680}') && !white_space('x'));
}
