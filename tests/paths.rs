use boxedmino::paths::{
    get_cold_clear_download_path, get_conf_dir_path, get_config_path, get_normal_save_path,
    get_sandboxed_save_path,
};

#[test]
fn linux_paths() {
    let conf = get_conf_dir_path("linux", Some("/home/u"), None).unwrap();
    assert_eq!(conf, "/home/u/.local/share/Boxedmino");
    assert_eq!(get_config_path("linux", &conf), "/home/u/.local/share/Boxedmino/config.json");
    assert_eq!(
        get_cold_clear_download_path("linux", &conf, "11.4.2"),
        "/home/u/.local/share/Boxedmino/cold_clear/11.4.2.zip"
    );
    assert_eq!(
        get_sandboxed_save_path("linux", Some("/home/u"), None),
        Some("/home/u/.local/share/love/_tmp_boxedmino".to_string())
    );
    assert_eq!(
        get_normal_save_path("linux", Some("/home/u"), None),
        Some("/home/u/.local/share/love/Techmino".to_string())
    );
}

#[test]
fn macos_paths() {
    assert_eq!(
        get_conf_dir_path("macos", Some("/Users/u"), None),
        Some("/Users/u/Library/Application Support/Boxedmino".to_string())
    );
    assert_eq!(
        get_sandboxed_save_path("macos", Some("/Users/u"), None),
        Some("/Users/u/Library/Application Support/LOVE/_tmp_boxedmino".to_string())
    );
}

#[test]
fn windows_paths() {
    let conf = get_conf_dir_path("windows", None, Some("C:\\AppData")).unwrap();
    assert_eq!(conf, "C:\\AppData\\Boxedmino");
    assert_eq!(get_config_path("windows", &conf), "C:\\AppData\\Boxedmino\\config.json");
    assert_eq!(
        get_sandboxed_save_path("windows", None, Some("C:\\AppData\\")),
        Some("C:\\AppData\\LOVE\\_tmp_boxedmino".to_string())
    );
    assert_eq!(
        get_normal_save_path("windows", None, Some("C:\\AppData\\")),
        Some("C:\\AppData\\LOVE\\Techmino".to_string())
    );
}

#[test]
fn android_paths_need_no_base() {
    assert_eq!(
        get_conf_dir_path("android", None, None),
        Some("/data/data/org.f26_studio.Boxedmino".to_string())
    );
    assert_eq!(
        get_normal_save_path("android", None, None),
        Some("/data/data/org.love2d.android/Techmino".to_string())
    );
}

#[test]
fn missing_base_or_unsupported_system() {
    assert_eq!(get_conf_dir_path("linux", None, Some("x")), None);
    assert_eq!(get_conf_dir_path("windows", Some("/home/u"), None), None);
    assert_eq!(get_sandboxed_save_path("freebsd", Some("/home/u"), None), None);
    assert_eq!(get_normal_save_path("ios", Some("/home/u"), None), None);
}
