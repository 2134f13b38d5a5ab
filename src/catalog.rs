//! Which versions of the bundle exist, locally and remotely, and where each
//! one is downloaded from and cached.
use crate::json::{json_of, json_view, parse_json, Json, JsonView};
use crate::text::{chars_of, occurs_at, same_text};
use vstd::prelude::*;

verus! {

/// The index of published releases, a JSON array of objects. Only its
/// first page is read, so releases beyond it are not listed.
pub const COLD_CLEAR_RELEASES_API_URL: &'static str =
    "https://api.github.com/repos/26F-Studio/cold_clear_ai_love2d_wrapper/releases";

/// Why the catalog could not answer.
#[derive(Clone, Copy, Debug, PartialEq, Eq, Structural)]
pub enum CatalogError {
    /// The release index is not JSON.
    InvalidJson,
    /// The release index is JSON but not an array.
    NotAnArray,
    /// No bundle is published for the operating system.
    UnsupportedPlatform,
}

/// The present entries of `tags`, in order.
pub open spec fn present(tags: Seq<Option<Seq<char>>>) -> Seq<Seq<char>>
    decreases tags.len(),
{
    if tags.len() == 0 {
        Seq::empty()
    } else {
        let rest = present(tags.drop_last());
        match tags.last() {
            Some(t) => rest.push(t),
            None => rest,
        }
    }
}

pub open spec fn opt_view(o: Option<String>) -> Option<Seq<char>> {
    match o {
        Some(s) => Some(s@),
        None => None,
    }
}

/// The tags that releases carry, in the order of the index; a release
/// without a tag is skipped.
pub fn collect_tags(tags: Vec<Option<String>>) -> (r: Vec<String>)
    ensures
        r@.map_values(|s: String| s@) == present(tags@.map_values(|o: Option<String>| opt_view(o))),
{
    let ghost all = tags@.map_values(|o: Option<String>| opt_view(o));
    let mut r: Vec<String> = Vec::new();
    let mut i: usize = 0;
    let n = tags.len();
    while i < n
        invariant
            n == tags@.len(),
            i <= n,
            all == tags@.map_values(|o: Option<String>| opt_view(o)),
            r@.map_values(|s: String| s@) == present(all.subrange(0, i as int)),
        decreases n - i,
    {
        assert(all.subrange(0, i + 1).drop_last() =~= all.subrange(0, i as int));
        match &tags[i] {
            Some(t) => {
                r.push(t.clone());
            },
            None => {},
        }
        assert(r@.map_values(|s: String| s@) =~= present(all.subrange(0, i + 1)));
        i = i + 1;
    }
    assert(all.subrange(0, n as int) =~= all);
    r
}

/// The `tag_name` of a release: the member of that key of an object,
/// where it is a string; nothing otherwise.
pub open spec fn tag_of(j: JsonView) -> Option<Seq<char>> {
    match j {
        JsonView::Object(members) => if exists|i: int|
            0 <= i < members.len() && (#[trigger] members[i]).0 == "tag_name"@ {
            let i = choose|i: int|
                0 <= i < members.len() && (#[trigger] members[i]).0 == "tag_name"@ && forall|k: int|
                    0 <= k < i ==> (#[trigger] members[k]).0 != "tag_name"@;
            match members[i].1 {
                JsonView::String(s) => Some(s),
                _ => None,
            }
        } else {
            None
        },
        _ => None,
    }
}

/// The `tag_name` of a release, as `tag_of` defines it.
pub fn release_tag(release: &Json) -> (r: Option<String>)
    ensures
        opt_view(r) == tag_of(release@),
{
    match release {
        Json::Object(members) => {
            let ghost mv = release@->Object_0;
            assert(mv.len() == members@.len());
            let n = members.len();
            let mut i: usize = 0;
            while i < n
                invariant
                    n == members@.len(),
                    release@ == JsonView::Object(mv),
                    mv.len() == n,
                    forall|q: int| 0 <= q < n ==> #[trigger] mv[q] == (members@[q].0@, members@[q].1@),
                    i <= n,
                    forall|k: int| 0 <= k < i ==> (#[trigger] mv[k]).0 != "tag_name"@,
                decreases n - i,
            {
                if same_text(members[i].0.as_str(), "tag_name") {
                    assert(mv[i as int].0 == "tag_name"@);
                    let ghost first = choose|q: int|
                        0 <= q < mv.len() && (#[trigger] mv[q]).0 == "tag_name"@ && forall|k: int|
                            0 <= k < q ==> (#[trigger] mv[k]).0 != "tag_name"@;
                    assert(first == i) by {
                        if first < i {
                            assert(mv[first].0 != "tag_name"@);
                        } else if first > i {
                            assert(mv[i as int].0 != "tag_name"@);
                        }
                    }
                    let ghost v1 = mv[i as int].1;
                    assert(v1 == json_view(members@[i as int].1));
                    return match &members[i].1 {
                        Json::String(s) => {
                            assert(v1 == JsonView::String(s@));
                            Some(s.clone())
                        },
                        _ => {
                            assert(!(v1 is String));
                            None
                        },
                    };
                }
                i = i + 1;
            }
            None
        },
        _ => None,
    }
}

/// The tag of each release in a release index: `InvalidJson` where the text
/// is not JSON, `NotAnArray` where it is JSON but not an array, else the
/// `tag_name` strings of its elements in order, skipping elements without
/// one.
pub fn parse_release_tags(body: &str) -> (r: Result<Vec<String>, CatalogError>)
    ensures
        match json_of(body@) {
            None => r == Err::<Vec<String>, CatalogError>(CatalogError::InvalidJson),
            Some(JsonView::Array(items)) => r matches Ok(v) && v@.map_values(|s: String| s@)
                == present(items.map_values(|j: JsonView| tag_of(j))),
            Some(_) => r == Err::<Vec<String>, CatalogError>(CatalogError::NotAnArray),
        },
{
    let value = match parse_json(body) {
        Ok(v) => v,
        Err(_) => {
            return Err(CatalogError::InvalidJson);
        },
    };
    let ghost jv = value@;
    match value {
        Json::Array(items) => {
            let ghost iv = jv->Array_0;
            let mut tags: Vec<Option<String>> = Vec::new();
            let n = items.len();
            let mut i: usize = 0;
            while i < n
                invariant
                    n == items@.len(),
                    iv.len() == n,
                    forall|q: int| 0 <= q < n ==> #[trigger] iv[q] == items@[q]@,
                    i <= n,
                    tags@.len() == i,
                    tags@.map_values(|o: Option<String>| opt_view(o)) == iv.map_values(
                        |j: JsonView| tag_of(j),
                    ).subrange(0, i as int),
                decreases n - i,
            {
                let tag = release_tag(&items[i]);
                assert(opt_view(tag) == tag_of(iv[i as int]));
                let ghost before = tags@;
                tags.push(tag);
                assert(tags@ == before.push(tag));
                let ghost got = tags@.map_values(|o: Option<String>| opt_view(o));
                let ghost want = iv.map_values(|j: JsonView| tag_of(j));
                assert forall|k: int| 0 <= k < i + 1 implies #[trigger] got[k] == want[k] by {
                    if k < i {
                        assert(tags@[k] == before[k]);
                        assert(before.map_values(|o: Option<String>| opt_view(o))[k] == iv.map_values(
                            |j: JsonView| tag_of(j),
                        ).subrange(0, i as int)[k]);
                    }
                }
                assert(tags@.map_values(|o: Option<String>| opt_view(o)) =~= iv.map_values(
                    |j: JsonView| tag_of(j),
                ).subrange(0, i + 1));
                i = i + 1;
            }
            assert(iv.map_values(|j: JsonView| tag_of(j)).subrange(0, n as int) =~= iv.map_values(
                |j: JsonView| tag_of(j),
            ));
            Ok(collect_tags(tags))
        },
        _ => Err(CatalogError::NotAnArray),
    }
}

/// The asset file name published for an operating system, as Rust names
/// operating systems.
pub open spec fn asset_name(os: Seq<char>) -> Option<Seq<char>> {
    if os == "windows"@ {
        Some("Windows.zip"@)
    } else if os == "macos"@ {
        Some("macOS.zip"@)
    } else if os == "linux"@ {
        Some("Linux.zip"@)
    } else if os == "android"@ {
        Some("Android.zip"@)
    } else if os == "ios"@ {
        Some("iOS.zip"@)
    } else {
        None
    }
}

/// Where a version's asset is published.
pub open spec fn download_url(version: Seq<char>, asset: Seq<char>) -> Seq<char> {
    "https://github.com/26F-Studio/cold_clear_ai_love2d_wrapper/releases/download/"@ + version + "/"@
        + asset
}

fn asset_file_name(os: &str) -> (r: Option<&'static str>)
    ensures
        match r {
            Some(a) => asset_name(os@) == Some(a@),
            None => asset_name(os@) is None,
        },
{
    if same_text(os, "windows") {
        Some("Windows.zip")
    } else if same_text(os, "macos") {
        Some("macOS.zip")
    } else if same_text(os, "linux") {
        Some("Linux.zip")
    } else if same_text(os, "android") {
        Some("Android.zip")
    } else if same_text(os, "ios") {
        Some("iOS.zip")
    } else {
        None
    }
}

/// The URL of a version's bundle for the operating system `os` (as
/// `std::env::consts::OS` names it); `UnsupportedPlatform` for a system
/// without a published bundle.
pub fn get_cold_clear_download_url(version: &str, os: &str) -> (r: Result<String, CatalogError>)
    ensures
        match asset_name(os@) {
            Some(a) => r matches Ok(u) && u@ == download_url(version@, a),
            None => r == Err::<String, CatalogError>(CatalogError::UnsupportedPlatform),
        },
{
    match asset_file_name(os) {
        Some(asset) => {
            let mut url = String::from_str(
                "https://github.com/26F-Studio/cold_clear_ai_love2d_wrapper/releases/download/",
            );
            url.append(version);
            url.append("/");
            url.append(asset);
            Ok(url)
        },
        None => Err(CatalogError::UnsupportedPlatform),
    }
}

/// `s` ends with `suffix`.
pub open spec fn has_suffix(s: Seq<char>, suffix: Seq<char>) -> bool {
    s.len() >= suffix.len() && s.subrange(s.len() - suffix.len(), s.len() as int) == suffix
}

/// The version whose cached archive has this file name, if it is one.
pub open spec fn cached_version(name: Seq<char>) -> Option<Seq<char>> {
    if has_suffix(name, ".zip"@) {
        Some(name.subrange(0, name.len() - ".zip"@.len()))
    } else {
        None
    }
}

/// The versions among cache file names, in order.
pub open spec fn cached_versions(names: Seq<Seq<char>>) -> Seq<Seq<char>>
    decreases names.len(),
{
    if names.len() == 0 {
        Seq::empty()
    } else {
        let rest = cached_versions(names.drop_last());
        match cached_version(names.last()) {
            Some(v) => rest.push(v),
            None => rest,
        }
    }
}

fn version_of_file_name(name: &str) -> (r: Option<String>)
    ensures
        opt_view(r) == cached_version(name@),
{
    let c = chars_of(name);
    let suffix = chars_of(".zip");
    if suffix.len() > c.len() {
        return None;
    }
    let cut = c.len() - suffix.len();
    if occurs_at(&c, &suffix, cut) {
        Some(String::from_str(name.substring_char(0, cut)))
    } else {
        None
    }
}

/// The versions that are cached, given the names of the regular files in
/// the cache directory: each name that ends in `.zip`, without it, in
/// order.
pub fn get_available_offline_versions(file_names: &Vec<String>) -> (r: Vec<String>)
    ensures
        r@.map_values(|s: String| s@) == cached_versions(file_names@.map_values(|s: String| s@)),
{
    let ghost all = file_names@.map_values(|s: String| s@);
    let mut r: Vec<String> = Vec::new();
    let mut i: usize = 0;
    let n = file_names.len();
    while i < n
        invariant
            n == file_names@.len(),
            i <= n,
            all == file_names@.map_values(|s: String| s@),
            r@.map_values(|s: String| s@) == cached_versions(all.subrange(0, i as int)),
        decreases n - i,
    {
        assert(all.subrange(0, i + 1).drop_last() =~= all.subrange(0, i as int));
        match version_of_file_name(file_names[i].as_str()) {
            Some(v) => {
                r.push(v);
            },
            None => {},
        }
        assert(r@.map_values(|s: String| s@) =~= cached_versions(all.subrange(0, i + 1)));
        i = i + 1;
    }
    assert(all.subrange(0, n as int) =~= all);
    r
}

} // verus!
