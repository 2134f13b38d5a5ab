//! The launcher's settings, and what the command line asks of them.
use crate::text::{chars_of, occurs_at};
use vstd::prelude::*;

verus! {

/// The launcher's settings.
#[derive(Clone, Debug)]
pub struct Config {
    pub sandboxed: bool,
    pub clear_temp_dir: bool,
    pub import_save_on_play: bool,
    pub repo_initialized: bool,
    pub game_repo_path: String,
    pub use_gui: bool,
    pub use_cold_clear: bool,
    pub cold_clear_version: String,
}

/// What the command line asks for.
#[derive(Clone, Debug)]
pub enum CliInstruction {
    /// List the versions of the game.
    ListVersions { repo_path: Option<String> },
    /// Run the game.
    Run { version: Option<String>, repo_path: Option<String>, flags: Option<String> },
}

/// The four switches that flags set: sandboxed, clear the temporary
/// directory, import the save on play, use the AI.
pub struct Switches {
    pub sandboxed: bool,
    pub clear_temp_dir: bool,
    pub import_save_on_play: bool,
    pub use_cold_clear: bool,
}

pub open spec fn switches_of(c: Config) -> Switches {
    Switches {
        sandboxed: c.sandboxed,
        clear_temp_dir: c.clear_temp_dir,
        import_save_on_play: c.import_save_on_play,
        use_cold_clear: c.use_cold_clear,
    }
}

/// A flag character: a capital letter turns a switch on, a small one off.
pub open spec fn is_flag(c: char) -> bool {
    c == 's' || c == 'S' || c == 'c' || c == 'C' || c == 'i' || c == 'I' || c == 'a' || c == 'A'
}

pub open spec fn apply_flag(w: Switches, c: char) -> Switches {
    if c == 's' || c == 'S' {
        Switches { sandboxed: c == 'S', ..w }
    } else if c == 'c' || c == 'C' {
        Switches { clear_temp_dir: c == 'C', ..w }
    } else if c == 'i' || c == 'I' {
        Switches { import_save_on_play: c == 'I', ..w }
    } else if c == 'a' || c == 'A' {
        Switches { use_cold_clear: c == 'A', ..w }
    } else {
        w
    }
}

/// The switches after each flag of `s` in order.
pub open spec fn apply_flags_spec(w: Switches, s: Seq<char>) -> Switches
    decreases s.len(),
{
    if s.len() == 0 {
        w
    } else {
        apply_flag(apply_flags_spec(w, s.drop_last()), s.last())
    }
}

/// The index of the first character of `s` that is no flag, if any.
pub open spec fn first_non_flag(s: Seq<char>) -> Option<int> {
    if exists|i: int| 0 <= i < s.len() && !is_flag(#[trigger] s[i]) {
        Some(choose|i: int| 0 <= i < s.len() && !is_flag(#[trigger] s[i]) && forall|j: int| 0 <= j < i ==> is_flag(#[trigger] s[j]))
    } else {
        None
    }
}

/// A character of Unicode's White_Space property.
pub open spec fn is_white_space(c: char) -> bool {
    let n = c as u32;
    (0x9 <= n <= 0xd) || n == 0x20 || n == 0x85 || n == 0xa0 || n == 0x1680 || (0x2000 <= n
        <= 0x200a) || n == 0x2028 || n == 0x2029 || n == 0x202f || n == 0x205f || n == 0x3000
}

/// The text without its leading white space.
pub open spec fn trim_start(s: Seq<char>) -> Seq<char>
    decreases s.len(),
{
    if s.len() > 0 && is_white_space(s[0]) {
        trim_start(s.drop_first())
    } else {
        s
    }
}

/// The text without its trailing white space.
pub open spec fn trim_end(s: Seq<char>) -> Seq<char>
    decreases s.len(),
{
    if s.len() > 0 && is_white_space(s.last()) {
        trim_end(s.drop_last())
    } else {
        s
    }
}

/// The text without white space at either end, as `str::trim` gives it.
pub open spec fn trim_text(s: Seq<char>) -> Seq<char> {
    trim_end(trim_start(s))
}

/// Whether a character is white space, as `char::is_whitespace` says.
pub fn white_space(c: char) -> (r: bool)
    ensures
        r == is_white_space(c),
{
    let n = c as u32;
    (0x9 <= n && n <= 0xd) || n == 0x20 || n == 0x85 || n == 0xa0 || n == 0x1680 || (0x2000 <= n
        && n <= 0x200a) || n == 0x2028 || n == 0x2029 || n == 0x202f || n == 0x205f || n == 0x3000
}

/// The text without white space at either end.
pub fn trimmed(s: &str) -> (r: &str)
    ensures
        r@ == trim_text(s@),
{
    let n = s.unicode_len();
    assert(s@.subrange(0, n as int) =~= s@);
    let mut i: usize = 0;
    while i < n && white_space(s.get_char(i))
        invariant
            n == s@.len(),
            i <= n,
            trim_start(s@) == trim_start(s@.subrange(i as int, n as int)),
        decreases n - i,
    {
        assert(s@.subrange(i as int, n as int).drop_first() =~= s@.subrange(i + 1, n as int));
        i = i + 1;
    }
    assert(trim_start(s@.subrange(i as int, n as int)) == s@.subrange(i as int, n as int));
    assert(s@.subrange(i as int, n as int) == s@.subrange(i as int, s@.len() as int));
    let mut j: usize = n;
    while j > i && white_space(s.get_char(j - 1))
        invariant
            n == s@.len(),
            i <= j <= n,
            trim_end(s@.subrange(i as int, n as int)) == trim_end(s@.subrange(i as int, j as int)),
        decreases j - i,
    {
        assert(s@.subrange(i as int, j as int).drop_last() =~= s@.subrange(i as int, j - 1));
        j = j - 1;
    }
    assert(trim_end(s@.subrange(i as int, j as int)) == s@.subrange(i as int, j as int));
    s.substring_char(i, j)
}

impl Config {
    /// The settings of a fresh installation.
    pub fn new() -> (r: Config)
        ensures
            r.sandboxed,
            r.clear_temp_dir,
            !r.import_save_on_play,
            !r.repo_initialized,
            r.game_repo_path@ == ""@,
            r.use_gui,
            r.use_cold_clear,
            r.cold_clear_version@ == "11.4.1"@,
    {
        Config {
            sandboxed: true,
            clear_temp_dir: true,
            import_save_on_play: false,
            repo_initialized: false,
            game_repo_path: String::from_str(""),
            use_gui: true,
            use_cold_clear: true,
            cold_clear_version: String::from_str("11.4.1"),
        }
    }

    /// Sets the switches by each flag character of `flags` in turn (`S`,
    /// `C`, `I`, `A` on; `s`, `c`, `i`, `a` off). A character that is no
    /// flag is returned as the error, and then nothing is changed.
    pub fn apply_flag_chars(&mut self, flags: &str) -> (r: Result<(), char>)
        ensures
            match first_non_flag(flags@) {
                Some(i) => r == Err::<(), char>(flags@[i]) && *final(self) == *old(self),
                None => r is Ok && switches_of(*final(self)) == apply_flags_spec(
                    switches_of(*old(self)),
                    flags@,
                ) && final(self).repo_initialized == old(self).repo_initialized
                    && final(self).game_repo_path == old(self).game_repo_path
                    && final(self).use_gui == old(self).use_gui
                    && final(self).cold_clear_version == old(self).cold_clear_version,
            },
    {
        let n = flags.unicode_len();
        let mut sandboxed = self.sandboxed;
        let mut clear_temp_dir = self.clear_temp_dir;
        let mut import_save_on_play = self.import_save_on_play;
        let mut use_cold_clear = self.use_cold_clear;
        let ghost w0 = switches_of(*self);
        let mut i: usize = 0;
        while i < n
            invariant
                n == flags@.len(),
                i <= n,
                forall|j: int| 0 <= j < i ==> is_flag(#[trigger] flags@[j]),
                (Switches { sandboxed, clear_temp_dir, import_save_on_play, use_cold_clear })
                    == apply_flags_spec(w0, flags@.subrange(0, i as int)),
            decreases n - i,
        {
            let c = flags.get_char(i);
            assert(flags@.subrange(0, i + 1).drop_last() =~= flags@.subrange(0, i as int));
            if c == 's' || c == 'S' {
                sandboxed = c == 'S';
            } else if c == 'c' || c == 'C' {
                clear_temp_dir = c == 'C';
            } else if c == 'i' || c == 'I' {
                import_save_on_play = c == 'I';
            } else if c == 'a' || c == 'A' {
                use_cold_clear = c == 'A';
            } else {
                assert(first_non_flag(flags@) == Some(i as int)) by {
                    let k = choose|k: int|
                        0 <= k < flags@.len() && !is_flag(#[trigger] flags@[k]) && forall|j: int|
                            0 <= j < k ==> is_flag(#[trigger] flags@[j]);
                    if k < i {
                    } else if k > i {
                        assert(is_flag(flags@[i as int]));
                    }
                }
                return Err(c);
            }
            i = i + 1;
        }
        assert(flags@.subrange(0, n as int) =~= flags@);
        self.sandboxed = sandboxed;
        self.clear_temp_dir = clear_temp_dir;
        self.import_save_on_play = import_save_on_play;
        self.use_cold_clear = use_cold_clear;
        Ok(())
    }

    /// Sets the switches by the flags given on the command line, ignoring
    /// white space around them.
    pub fn apply_flags(&mut self, flags: &str) -> (r: Result<(), char>)
        ensures
            match first_non_flag(trim_text(flags@)) {
                Some(i) => r == Err::<(), char>(trim_text(flags@)[i]) && *final(self) == *old(self),
                None => r is Ok && switches_of(*final(self)) == apply_flags_spec(
                    switches_of(*old(self)),
                    trim_text(flags@),
                ) && final(self).repo_initialized == old(self).repo_initialized
                    && final(self).game_repo_path == old(self).game_repo_path
                    && final(self).use_gui == old(self).use_gui
                    && final(self).cold_clear_version == old(self).cold_clear_version,
            },
    {
        self.apply_flag_chars(trimmed(flags))
    }
}

impl Default for Config {
    /// The settings of a fresh installation, as `new` gives them.
    fn default() -> (r: Config)
        ensures
            r.sandboxed,
            r.clear_temp_dir,
            !r.import_save_on_play,
            !r.repo_initialized,
            r.game_repo_path@ == ""@,
            r.use_gui,
            r.use_cold_clear,
            r.cold_clear_version@ == "11.4.1"@,
    {
        Config::new()
    }
}

fn clone_opt(o: &Option<String>) -> (r: Option<String>)
    ensures
        r == *o,
{
    match o {
        Some(s) => Some(s.clone()),
        None => None,
    }
}

/// The configuration flags given with `run`, if any.
pub fn get_cli_config_flags(instruction: &Option<CliInstruction>) -> (r: Option<String>)
    ensures
        r == match instruction {
            Some(CliInstruction::Run { flags, .. }) => *flags,
            _ => None,
        },
{
    match instruction {
        Some(CliInstruction::Run { flags, .. }) => clone_opt(flags),
        _ => None,
    }
}

/// The game repository given on the command line, if any.
pub fn get_cli_repo_path(instruction: &Option<CliInstruction>) -> (r: Option<String>)
    ensures
        r == match instruction {
            Some(CliInstruction::Run { repo_path, .. }) => *repo_path,
            Some(CliInstruction::ListVersions { repo_path }) => *repo_path,
            None => None,
        },
{
    match instruction {
        Some(CliInstruction::Run { repo_path, .. }) => clone_opt(repo_path),
        Some(CliInstruction::ListVersions { repo_path }) => clone_opt(repo_path),
        None => None,
    }
}

/// The version given with `run`, if any.
pub fn get_version_from_cli(instruction: &Option<CliInstruction>) -> (r: Option<String>)
    ensures
        r == match instruction {
            Some(CliInstruction::Run { version, .. }) => *version,
            _ => None,
        },
{
    match instruction {
        Some(CliInstruction::Run { version, .. }) => clone_opt(version),
        _ => None,
    }
}

/// The index of the first `c` in `s`, or its length.
pub open spec fn find_char(s: Seq<char>, c: char) -> int {
    if exists|i: int| 0 <= i < s.len() && s[i] == c {
        choose|i: int| 0 <= i < s.len() && s[i] == c && forall|j: int| 0 <= j < i ==> s[j] != c
    } else {
        s.len() as int
    }
}

/// What a version list entry names: the hash inside `[Commit <hash>: ...]`,
/// else the entry itself.
pub open spec fn version_name(name: Seq<char>) -> Seq<char> {
    if name.len() >= 8 && name.subrange(0, 8) == "[Commit "@ {
        name.subrange(8, find_char(name, ':'))
    } else {
        name
    }
}

/// The commit hash of an entry written as `[Commit <hash>: <title>]`, up to
/// the first `:` (or the end); any other entry as it is.
pub fn try_unwrap_version_name(name: &str) -> (r: String)
    ensures
        r@ == version_name(name@),
{
    proof {
        reveal_strlit("[Commit ");
    }
    let c = chars_of(name);
    let prefix = chars_of("[Commit ");
    if c.len() >= 8 && occurs_at(&c, &prefix, 0) {
        let n = c.len();
        let mut end: usize = 0;
        while end < n && c[end] != ':'
            invariant
                n == name@.len(),
                c@ == name@,
                end <= n,
                forall|j: int| 0 <= j < end ==> name@[j] != ':',
            decreases n - end,
        {
            end = end + 1;
        }
        assert(find_char(name@, ':') == end) by {
            if end < n {
                let k = choose|k: int|
                    0 <= k < name@.len() && name@[k] == ':' && forall|j: int| 0 <= j < k ==> name@[j] != ':';
                assert(!(k < end));
                assert(!(k > end));
            }
        }
        assert(end >= 8) by {
            assert(name@.subrange(0, 8) == "[Commit "@);
            if end < 8 {
                assert(name@[end as int] == name@.subrange(0, 8)[end as int]);
            }
        }
        String::from_str(name.substring_char(8, end))
    } else {
        String::from_str(name)
    }
}

} // verus!
