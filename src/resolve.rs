//! Flattening a multi-platform archive: scoring a path for the running
//! architecture, and picking one file for each file name.
use crate::text::{chars_of, contains, contains_text, same_text};
use vstd::prelude::*;

verus! {

/// The processor architecture that the launcher runs on.
#[derive(Clone, Copy, Debug, PartialEq, Eq, Structural)]
pub enum Arch {
    X86_64,
    X86,
    Aarch64,
    Arm,
    Other,
}

/// The architecture that Rust names `name` (as `std::env::consts::ARCH`
/// does).
pub open spec fn arch_named(name: Seq<char>) -> Arch {
    if name == "x86_64"@ {
        Arch::X86_64
    } else if name == "x86"@ {
        Arch::X86
    } else if name == "aarch64"@ {
        Arch::Aarch64
    } else if name == "arm"@ {
        Arch::Arm
    } else {
        Arch::Other
    }
}

/// The architecture of a Rust architecture name; `Other` for one whose
/// builds no keyword names.
pub fn arch_of(name: &str) -> (r: Arch)
    ensures
        r == arch_named(name@),
{
    if same_text(name, "x86_64") {
        Arch::X86_64
    } else if same_text(name, "x86") {
        Arch::X86
    } else if same_text(name, "aarch64") {
        Arch::Aarch64
    } else if same_text(name, "arm") {
        Arch::Arm
    } else {
        Arch::Other
    }
}

/// The path names 64-bit x86.
pub open spec fn names_x86_64(p: Seq<char>) -> bool {
    contains(p, "x64"@) || contains(p, "amd64"@) || contains(p, "x86_64"@)
}

/// The path names 32-bit x86.
pub open spec fn names_x86(p: Seq<char>) -> bool {
    contains(p, "x86"@) || contains(p, "i386"@) || contains(p, "i686"@)
}

/// The path names 64-bit ARM.
pub open spec fn names_arm64(p: Seq<char>) -> bool {
    contains(p, "arm64"@) || contains(p, "aarch64"@)
}

/// The path names ARM, as a 64-bit ARM build sees it.
pub open spec fn names_other_arm(p: Seq<char>) -> bool {
    contains(p, "arm"@) || contains(p, "armhf"@) || contains(p, "armv7"@)
}

/// The path names 32-bit ARM.
pub open spec fn names_arm32(p: Seq<char>) -> bool {
    contains(p, "armeabi-v7a"@) || contains(p, "armv7"@) || contains(p, "arm32"@)
}

/// How well a path fits the architecture: 1 where it names the
/// architecture, -1 where it names a conflicting one, else 0. On 32-bit x86
/// a conflicting name is looked for first, since `x86` is part of `x86_64`.
pub open spec fn path_score(p: Seq<char>, arch: Arch) -> int {
    match arch {
        Arch::X86_64 => if names_x86_64(p) {
            1
        } else if names_x86(p) {
            -1
        } else {
            0
        },
        Arch::X86 => if names_x86_64(p) {
            -1
        } else if names_x86(p) {
            1
        } else {
            0
        },
        Arch::Aarch64 => if names_arm64(p) {
            1
        } else if names_other_arm(p) {
            -1
        } else {
            0
        },
        Arch::Arm => if names_arm32(p) {
            1
        } else if names_arm64(p) {
            -1
        } else {
            0
        },
        Arch::Other => 0,
    }
}

/// The score of a path for the architecture, as `path_score` defines it.
pub fn get_path_score(path: &str, arch: Arch) -> (r: i8)
    ensures
        r as int == path_score(path@, arch),
{
    let p = chars_of(path);
    let x86_64 = contains_text(&p, "x64") || contains_text(&p, "amd64") || contains_text(
        &p,
        "x86_64",
    );
    match arch {
        Arch::X86_64 => {
            if x86_64 {
                1
            } else if contains_text(&p, "x86") || contains_text(&p, "i386") || contains_text(
                &p,
                "i686",
            ) {
                -1
            } else {
                0
            }
        },
        Arch::X86 => {
            if x86_64 {
                -1
            } else if contains_text(&p, "x86") || contains_text(&p, "i386") || contains_text(
                &p,
                "i686",
            ) {
                1
            } else {
                0
            }
        },
        Arch::Aarch64 => {
            if contains_text(&p, "arm64") || contains_text(&p, "aarch64") {
                1
            } else if contains_text(&p, "arm") || contains_text(&p, "armhf") || contains_text(
                &p,
                "armv7",
            ) {
                -1
            } else {
                0
            }
        },
        Arch::Arm => {
            if contains_text(&p, "armeabi-v7a") || contains_text(&p, "armv7") || contains_text(
                &p,
                "arm32",
            ) {
                1
            } else if contains_text(&p, "arm64") || contains_text(&p, "aarch64") {
                -1
            } else {
                0
            }
        },
        Arch::Other => 0,
    }
}

/// A regular file found in the extracted archive: its bare file name and
/// its full path.
#[derive(Clone, Debug)]
pub struct ArchiveEntry {
    pub name: String,
    pub path: String,
}

/// The score of the entry at `i`.
#[verifier::opaque]
pub open spec fn entry_score(e: Seq<ArchiveEntry>, arch: Arch, i: int) -> int {
    path_score(e[i].path@, arch)
}

/// The entries at `i` and `j` share a file name.
pub open spec fn same_name(e: Seq<ArchiveEntry>, i: int, j: int) -> bool {
    e[i].name@ == e[j].name@
}

/// The entry at `i` is the one kept for its file name: every earlier entry
/// of that name scores lower, and no later one scores higher.
pub open spec fn is_winner(e: Seq<ArchiveEntry>, arch: Arch, i: int) -> bool {
    &&& 0 <= i < e.len()
    &&& forall|j: int|
        0 <= j < e.len() && j != i && #[trigger] same_name(e, i, j) ==> if j < i {
            entry_score(e, arch, j) < entry_score(e, arch, i)
        } else {
            entry_score(e, arch, j) <= entry_score(e, arch, i)
        }
}

/// The indices below `n` of the entries that are kept, in order.
pub open spec fn winners_upto(e: Seq<ArchiveEntry>, arch: Arch, n: int) -> Seq<int>
    decreases n,
{
    if n <= 0 {
        Seq::empty()
    } else {
        let w = winners_upto(e, arch, n - 1);
        if is_winner(e, arch, n - 1) {
            w.push(n - 1)
        } else {
            w
        }
    }
}

/// The indices of the entries that are kept, in traversal order.
pub open spec fn winners(e: Seq<ArchiveEntry>, arch: Arch) -> Seq<int> {
    winners_upto(e, arch, e.len() as int)
}

fn wins(entries: &Vec<ArchiveEntry>, scores: &Vec<i8>, arch: Arch, i: usize) -> (r: bool)
    requires
        i < entries@.len(),
        scores@.len() == entries@.len(),
        forall|q: int| 0 <= q < scores@.len() ==> scores@[q] as int == entry_score(entries@, arch, q),
    ensures
        r == is_winner(entries@, arch, i as int),
{
    let n = entries.len();
    let mut j: usize = 0;
    while j < n
        invariant
            n == entries@.len(),
            i < n,
            scores@.len() == n,
            forall|q: int| 0 <= q < n ==> scores@[q] as int == entry_score(entries@, arch, q),
            forall|q: int|
                0 <= q < j && q != i && #[trigger] same_name(entries@, i as int, q) ==> if q < i {
                    entry_score(entries@, arch, q) < entry_score(entries@, arch, i as int)
                } else {
                    entry_score(entries@, arch, q) <= entry_score(entries@, arch, i as int)
                },
        decreases n - j,
    {
        if j != i && entries[j].name == entries[i].name {
            assert(same_name(entries@, i as int, j as int));
            if j < i {
                if scores[j] >= scores[i] {
                    return false;
                }
            } else {
                if scores[j] > scores[i] {
                    return false;
                }
            }
        }
        j = j + 1;
    }
    true
}

/// Picks the files to move out of an extracted archive: for each file name,
/// the entry whose path scores highest for the architecture, the first of
/// them on a tie. The paths come in traversal order.
pub fn pick_files_to_move(entries: &Vec<ArchiveEntry>, arch: Arch) -> (r: Vec<String>)
    ensures
        r@.len() == winners(entries@, arch).len(),
        forall|k: int|
            0 <= k < r@.len() ==> #[trigger] r@[k]@ == entries@[winners(entries@, arch)[k]].path@,
{
    let n = entries.len();
    let mut scores: Vec<i8> = Vec::new();
    let mut i: usize = 0;
    while i < n
        invariant
            n == entries@.len(),
            i <= n,
            scores@.len() == i,
            forall|q: int| 0 <= q < i ==> scores@[q] as int == entry_score(entries@, arch, q),
        decreases n - i,
    {
        scores.push(get_path_score(entries[i].path.as_str(), arch));
        proof {
            reveal(entry_score);
        }
        i = i + 1;
    }
    let mut r: Vec<String> = Vec::new();
    let mut i: usize = 0;
    while i < n
        invariant
            n == entries@.len(),
            i <= n,
            scores@.len() == n,
            forall|q: int| 0 <= q < n ==> scores@[q] as int == entry_score(entries@, arch, q),
            r@.len() == winners_upto(entries@, arch, i as int).len(),
            forall|k: int|
                0 <= k < r@.len() ==> #[trigger] r@[k]@ == entries@[winners_upto(
                    entries@,
                    arch,
                    i as int,
                )[k]].path@,
        decreases n - i,
    {
        if wins(entries, &scores, arch, i) {
            r.push(entries[i].path.clone());
        }
        i = i + 1;
    }
    r
}

/// What `winners_upto` lists: exactly the kept entries below `n`, in
/// increasing order.
pub proof fn lemma_winners_upto(e: Seq<ArchiveEntry>, arch: Arch, n: int)
    requires
        0 <= n <= e.len(),
    ensures
        forall|k: int|
            0 <= k < winners_upto(e, arch, n).len() ==> 0 <= #[trigger] winners_upto(e, arch, n)[k]
                < n && is_winner(e, arch, winners_upto(e, arch, n)[k]),
        forall|k1: int, k2: int|
            0 <= k1 < k2 < winners_upto(e, arch, n).len() ==> #[trigger] winners_upto(e, arch, n)[k1]
                < #[trigger] winners_upto(e, arch, n)[k2],
        forall|w: int|
            0 <= w < n && #[trigger] is_winner(e, arch, w) ==> winners_upto(e, arch, n).contains(w),
    decreases n,
{
    if n > 0 {
        lemma_winners_upto(e, arch, n - 1);
        let prev = winners_upto(e, arch, n - 1);
        let cur = winners_upto(e, arch, n);
        assert forall|w: int| 0 <= w < n && #[trigger] is_winner(e, arch, w) implies cur.contains(
            w,
        ) by {
            if w < n - 1 {
                let k = choose|k: int| 0 <= k < prev.len() && prev[k] == w;
                assert(cur[k] == w);
            } else {
                assert(cur[prev.len() as int] == w);
            }
        }
    }
}

/// The entry at `m` is, among the entries below `n` named `nm`, one of the
/// highest score, and the first such.
pub open spec fn best_below(e: Seq<ArchiveEntry>, arch: Arch, nm: Seq<char>, n: int, m: int) -> bool {
    &&& 0 <= m < n
    &&& e[m].name@ == nm
    &&& forall|j: int|
        0 <= j < n && #[trigger] e[j].name@ == nm ==> entry_score(e, arch, j) <= entry_score(
            e,
            arch,
            m,
        ) && (j < m ==> entry_score(e, arch, j) < entry_score(e, arch, m))
}

proof fn lemma_best_below(e: Seq<ArchiveEntry>, arch: Arch, nm: Seq<char>, n: int, some: int) -> (m:
    int)
    requires
        0 <= some < n <= e.len(),
        e[some].name@ == nm,
    ensures
        best_below(e, arch, nm, n, m),
    decreases n,
{
    let last = n - 1;
    if exists|j: int| 0 <= j < last && #[trigger] e[j].name@ == nm {
        let some2 = choose|j: int| 0 <= j < last && #[trigger] e[j].name@ == nm;
        let m0 = lemma_best_below(e, arch, nm, last, some2);
        if e[last].name@ == nm && entry_score(e, arch, last) > entry_score(e, arch, m0) {
            assert forall|j: int| 0 <= j < n && #[trigger] e[j].name@ == nm implies entry_score(
                e,
                arch,
                j,
            ) <= entry_score(e, arch, last) && (j < last ==> entry_score(e, arch, j) < entry_score(
                e,
                arch,
                last,
            )) by {
                if j < last {
                    assert(best_below(e, arch, nm, last, m0));
                }
            }
            last
        } else {
            assert forall|j: int| 0 <= j < n && #[trigger] e[j].name@ == nm implies entry_score(
                e,
                arch,
                j,
            ) <= entry_score(e, arch, m0) && (j < m0 ==> entry_score(e, arch, j) < entry_score(
                e,
                arch,
                m0,
            )) by {
                if j < last {
                    assert(best_below(e, arch, nm, last, m0));
                }
            }
            m0
        }
    } else {
        assert forall|j: int| 0 <= j < n && #[trigger] e[j].name@ == nm implies j == last by {}
        last
    }
}

/// Flattening keeps exactly one entry of each file name found in the
/// archive. It scores at least as high as every other entry of that name,
/// and it comes before every other entry of that name with the same score.
pub proof fn lemma_one_winner_per_name(e: Seq<ArchiveEntry>, arch: Arch, i: int)
    requires
        0 <= i < e.len(),
    ensures
        exists|k: int|
            0 <= k < winners(e, arch).len() && same_name(e, #[trigger] winners(e, arch)[k], i),
        forall|k1: int, k2: int|
            0 <= k1 < winners(e, arch).len() && 0 <= k2 < winners(e, arch).len() && same_name(
                e,
                #[trigger] winners(e, arch)[k1],
                i,
            ) && same_name(e, #[trigger] winners(e, arch)[k2], i) ==> k1 == k2,
        forall|k: int, j: int|
            0 <= k < winners(e, arch).len() && 0 <= j < e.len() && same_name(
                e,
                #[trigger] winners(e, arch)[k],
                i,
            ) && #[trigger] same_name(e, j, i) ==> entry_score(e, arch, j) <= entry_score(
                e,
                arch,
                winners(e, arch)[k],
            ) && (entry_score(e, arch, j) == entry_score(e, arch, winners(e, arch)[k])
                ==> winners(e, arch)[k] <= j),
{
    let ws = winners(e, arch);
    let n = e.len() as int;
    lemma_winners_upto(e, arch, n);
    let nm = e[i].name@;
    let m = lemma_best_below(e, arch, nm, n, i);
    assert(is_winner(e, arch, m)) by {
        assert forall|j: int| 0 <= j < n && j != m && #[trigger] same_name(e, m, j) implies if j
            < m {
            entry_score(e, arch, j) < entry_score(e, arch, m)
        } else {
            entry_score(e, arch, j) <= entry_score(e, arch, m)
        } by {
            assert(e[j].name@ == nm);
        }
    }
    assert(ws.contains(m));
    let km = choose|k: int| 0 <= k < ws.len() && ws[k] == m;
    assert(same_name(e, ws[km], i));
    assert forall|k1: int, k2: int|
        0 <= k1 < ws.len() && 0 <= k2 < ws.len() && same_name(e, #[trigger] ws[k1], i) && same_name(
            e,
            #[trigger] ws[k2],
            i,
        ) implies k1 == k2 by {
        let w1 = ws[k1];
        let w2 = ws[k2];
        if k1 < k2 {
            assert(same_name(e, w2, w1));
            assert(same_name(e, w1, w2));
        } else if k2 < k1 {
            assert(same_name(e, w2, w1));
            assert(same_name(e, w1, w2));
        }
    }
    assert forall|k: int, j: int|
        0 <= k < ws.len() && 0 <= j < n && same_name(e, #[trigger] ws[k], i) && #[trigger] same_name(
            e,
            j,
            i,
        ) implies entry_score(e, arch, j) <= entry_score(e, arch, ws[k]) && (entry_score(e, arch, j)
        == entry_score(e, arch, ws[k]) ==> ws[k] <= j) by {
        let w = ws[k];
        if j != w {
            assert(same_name(e, w, j));
        }
    }
}

} // verus!
