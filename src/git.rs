//! What the launcher reads from the game's Git repository.
use crate::text::{chars_of, same_text};
use vstd::prelude::*;

verus! {

/// `done`, and `cur` after it unless `cur` is empty.
pub open spec fn push_nonempty(done: Seq<Seq<char>>, cur: Seq<char>) -> Seq<Seq<char>> {
    if cur.len() == 0 {
        done
    } else {
        done.push(cur)
    }
}

/// The lines of `s` that are complete, and the line being read.
pub open spec fn split_lines(s: Seq<char>) -> (Seq<Seq<char>>, Seq<char>)
    decreases s.len(),
{
    if s.len() == 0 {
        (Seq::empty(), Seq::empty())
    } else {
        let (done, cur) = split_lines(s.drop_last());
        if s.last() == '\n' {
            (push_nonempty(done, cur), Seq::empty())
        } else {
            (done, cur.push(s.last()))
        }
    }
}

/// The non-empty lines of `s`, split at each `\n`, in order.
pub open spec fn nonempty_lines(s: Seq<char>) -> Seq<Seq<char>> {
    push_nonempty(split_lines(s).0, split_lines(s).1)
}

/// The tags that `git tag` printed: one per non-empty line, in order.
pub fn parse_tag_list(output: &str) -> (r: Vec<String>)
    ensures
        r@.map_values(|s: String| s@) == nonempty_lines(output@),
{
    let c = chars_of(output);
    let n = c.len();
    let mut r: Vec<String> = Vec::new();
    let mut start: usize = 0;
    let mut i: usize = 0;
    while i < n
        invariant
            n == output@.len(),
            c@ == output@,
            start <= i <= n,
            split_lines(output@.subrange(0, i as int)) == (
                r@.map_values(|s: String| s@),
                output@.subrange(start as int, i as int),
            ),
        decreases n - i,
    {
        assert(output@.subrange(0, i + 1).drop_last() =~= output@.subrange(0, i as int));
        if c[i] == '\n' {
            if start < i {
                r.push(String::from_str(output.substring_char(start, i)));
            }
            start = i + 1;
            assert(r@.map_values(|s: String| s@) =~= split_lines(output@.subrange(0, i + 1)).0);
            assert(output@.subrange(start as int, i + 1) =~= Seq::<char>::empty());
        } else {
            assert(output@.subrange(start as int, i + 1) =~= output@.subrange(
                start as int,
                i as int,
            ).push(c@[i as int]));
        }
        i = i + 1;
    }
    assert(output@.subrange(0, n as int) =~= output@);
    if start < n {
        r.push(String::from_str(output.substring_char(start, n)));
    }
    assert(r@.map_values(|s: String| s@) =~= nonempty_lines(output@));
    r
}

/// The names hold `.git` and `conf.lua`.
pub open spec fn has_game_files(names: Seq<Seq<char>>) -> bool {
    names.contains(".git"@) && names.contains("conf.lua"@)
}

/// Whether a directory with these entry names is a game repository: it has
/// a `.git` entry and a `conf.lua` entry.
pub fn is_game_repo(names: &Vec<String>) -> (r: bool)
    ensures
        r == has_game_files(names@.map_values(|s: String| s@)),
{
    let ghost all = names@.map_values(|s: String| s@);
    let mut has_git = false;
    let mut has_conf = false;
    let mut i: usize = 0;
    let n = names.len();
    while i < n
        invariant
            n == names@.len(),
            i <= n,
            all == names@.map_values(|s: String| s@),
            has_git == exists|j: int| 0 <= j < i && all[j] == ".git"@,
            has_conf == exists|j: int| 0 <= j < i && all[j] == "conf.lua"@,
        decreases n - i,
    {
        if same_text(names[i].as_str(), ".git") {
            has_git = true;
        }
        if same_text(names[i].as_str(), "conf.lua") {
            has_conf = true;
        }
        assert(all[i as int] == names@[i as int]@);
        i = i + 1;
    }
    proof {
        if has_git {
            let j = choose|j: int| 0 <= j < n && all[j] == ".git"@;
            assert(all.contains(".git"@));
        }
        if has_conf {
            let j = choose|j: int| 0 <= j < n && all[j] == "conf.lua"@;
            assert(all.contains("conf.lua"@));
        }
    }
    has_git && has_conf
}

} // verus!
