//! Where the launcher keeps its files on each operating system. The
//! operating system is named as `std::env::consts::OS` names it; the home
//! directory and `APPDATA` are read by the caller.
use crate::text::same_text;
use vstd::prelude::*;

verus! {

/// The path separator of an operating system.
pub open spec fn separator(os: Seq<char>) -> Seq<char> {
    if os == "windows"@ {
        "\\"@
    } else {
        "/"@
    }
}

/// `name` under the directory `base`.
pub open spec fn join(os: Seq<char>, base: Seq<char>, name: Seq<char>) -> Seq<char> {
    base + separator(os) + name
}

/// A path under the home directory, on macOS and Linux.
pub open spec fn under_home(os: Seq<char>, home: Option<Seq<char>>, mac: Seq<char>, linux: Seq<char>) -> Option<
    Seq<char>,
> {
    match home {
        Some(h) => if os == "macos"@ {
            Some(join(os, h, mac))
        } else if os == "linux"@ {
            Some(join(os, h, linux))
        } else {
            None
        },
        None => None,
    }
}

/// The launcher's own directory.
pub open spec fn conf_dir(os: Seq<char>, home: Option<Seq<char>>, appdata: Option<Seq<char>>) -> Option<
    Seq<char>,
> {
    if os == "android"@ {
        Some("/data/data/org.f26_studio.Boxedmino"@)
    } else if os == "windows"@ {
        match appdata {
            Some(a) => Some(join(os, a, "Boxedmino"@)),
            None => None,
        }
    } else {
        under_home(os, home, "Library/Application Support/Boxedmino"@, ".local/share/Boxedmino"@)
    }
}

/// The directory the sandboxed game saves to. On Windows the name is
/// appended to `APPDATA` as it stands.
pub open spec fn sandboxed_save_dir(
    os: Seq<char>,
    home: Option<Seq<char>>,
    appdata: Option<Seq<char>>,
) -> Option<Seq<char>> {
    if os == "android"@ {
        Some("/data/data/org.love2d.android/_tmp_boxedmino"@)
    } else if os == "windows"@ {
        match appdata {
            Some(a) => Some(a + "LOVE\\_tmp_boxedmino"@),
            None => None,
        }
    } else {
        under_home(
            os,
            home,
            "Library/Application Support/LOVE/_tmp_boxedmino"@,
            ".local/share/love/_tmp_boxedmino"@,
        )
    }
}

/// The directory the game saves to when it is not sandboxed. On Windows the
/// name is appended to `APPDATA` as it stands.
pub open spec fn normal_save_dir(
    os: Seq<char>,
    home: Option<Seq<char>>,
    appdata: Option<Seq<char>>,
) -> Option<Seq<char>> {
    if os == "android"@ {
        Some("/data/data/org.love2d.android/Techmino"@)
    } else if os == "windows"@ {
        match appdata {
            Some(a) => Some(a + "LOVE\\Techmino"@),
            None => None,
        }
    } else {
        under_home(
            os,
            home,
            "Library/Application Support/LOVE/Techmino"@,
            ".local/share/love/Techmino"@,
        )
    }
}

pub open spec fn opt_str_view(o: Option<&str>) -> Option<Seq<char>> {
    match o {
        Some(s) => Some(s@),
        None => None,
    }
}

pub open spec fn opt_string_view(o: Option<String>) -> Option<Seq<char>> {
    match o {
        Some(s) => Some(s@),
        None => None,
    }
}

fn sep(os: &str) -> (r: &'static str)
    ensures
        r@ == separator(os@),
{
    if same_text(os, "windows") {
        "\\"
    } else {
        "/"
    }
}

fn joined(os: &str, base: &str, name: &str) -> (r: String)
    ensures
        r@ == join(os@, base@, name@),
{
    let mut s = String::from_str(base);
    s.append(sep(os));
    s.append(name);
    s
}

fn placed_under_home(os: &str, home: Option<&str>, mac: &str, linux: &str) -> (r: Option<String>)
    ensures
        opt_string_view(r) == under_home(os@, opt_str_view(home), mac@, linux@),
{
    match home {
        Some(h) => if same_text(os, "macos") {
            Some(joined(os, h, mac))
        } else if same_text(os, "linux") {
            Some(joined(os, h, linux))
        } else {
            None
        },
        None => None,
    }
}

/// The launcher's own directory: `None` where the base directory it needs
/// is unknown or the system is not supported.
pub fn get_conf_dir_path(os: &str, home: Option<&str>, appdata: Option<&str>) -> (r: Option<String>)
    ensures
        opt_string_view(r) == conf_dir(os@, opt_str_view(home), opt_str_view(appdata)),
{
    if same_text(os, "android") {
        Some(String::from_str("/data/data/org.f26_studio.Boxedmino"))
    } else if same_text(os, "windows") {
        match appdata {
            Some(a) => Some(joined(os, a, "Boxedmino")),
            None => None,
        }
    } else {
        placed_under_home(os, home, "Library/Application Support/Boxedmino", ".local/share/Boxedmino")
    }
}

/// The sandboxed save directory: `None` where the base directory it needs
/// is unknown or the system is not supported.
pub fn get_sandboxed_save_path(os: &str, home: Option<&str>, appdata: Option<&str>) -> (r: Option<
    String,
>)
    ensures
        opt_string_view(r) == sandboxed_save_dir(os@, opt_str_view(home), opt_str_view(appdata)),
{
    if same_text(os, "android") {
        Some(String::from_str("/data/data/org.love2d.android/_tmp_boxedmino"))
    } else if same_text(os, "windows") {
        match appdata {
            Some(a) => {
                let mut s = String::from_str(a);
                s.append("LOVE\\_tmp_boxedmino");
                Some(s)
            },
            None => None,
        }
    } else {
        placed_under_home(
            os,
            home,
            "Library/Application Support/LOVE/_tmp_boxedmino",
            ".local/share/love/_tmp_boxedmino",
        )
    }
}

/// The normal save directory: `None` where the base directory it needs is
/// unknown or the system is not supported.
pub fn get_normal_save_path(os: &str, home: Option<&str>, appdata: Option<&str>) -> (r: Option<
    String,
>)
    ensures
        opt_string_view(r) == normal_save_dir(os@, opt_str_view(home), opt_str_view(appdata)),
{
    if same_text(os, "android") {
        Some(String::from_str("/data/data/org.love2d.android/Techmino"))
    } else if same_text(os, "windows") {
        match appdata {
            Some(a) => {
                let mut s = String::from_str(a);
                s.append("LOVE\\Techmino");
                Some(s)
            },
            None => None,
        }
    } else {
        placed_under_home(
            os,
            home,
            "Library/Application Support/LOVE/Techmino",
            ".local/share/love/Techmino",
        )
    }
}

/// The configuration file, in the launcher's directory `conf_dir`.
pub fn get_config_path(os: &str, conf_dir: &str) -> (r: String)
    ensures
        r@ == join(os@, conf_dir@, "config.json"@),
{
    joined(os, conf_dir, "config.json")
}

/// The cached archive of a version: `<version>.zip` in the `cold_clear`
/// directory under the launcher's directory `conf_dir`.
pub fn get_cold_clear_download_path(os: &str, conf_dir: &str, version: &str) -> (r: String)
    ensures
        r@ == join(os@, join(os@, conf_dir@, "cold_clear"@), version@ + ".zip"@),
{
    let dir = joined(os, conf_dir, "cold_clear");
    let mut file = String::from_str(version);
    file.append(".zip");
    joined(os, dir.as_str(), file.as_str())
}

} // verus!
