//! Where the program keeps its files.
use vstd::prelude::*;

use crate::path::{
    a_parent_is_a_shorter_beginning, above, join_path, joined, parent_of, user_path,
};
use crate::text::{decimal, decimal_of, join2, join3};

pub use crate::path::expand_user_path_from;

verus! {

/// The files and directories of the program, all below one root.
pub struct AswitchPaths {
    pub root: String,
    pub plugins_dir: String,
    pub accounts_dir: String,
    pub usage_cache_dir: String,
    pub logs_dir: String,
    pub registry_file: String,
    pub lock_file: String,
    pub log_file: String,
}

/// Why a file or directory of the program cannot be used.
pub enum PathsError {
    HomeDirectoryUnavailable,
    OpenFile { path: String },
    CreateDirectory { path: String },
    LockFile { path: String },
    LockTimeout { path: String, timeout_ms: u64 },
}

/// The digits of `ms` thousandths behind a decimal point, without trailing zeros.
pub open spec fn thousandths(ms: nat) -> Seq<char> {
    if ms == 0 {
        ""@
    } else if ms % 100 == 0 {
        "."@ + decimal_of(ms / 100)
    } else if ms % 10 == 0 {
        (if ms < 100 {
            ".0"@
        } else {
            "."@
        }) + decimal_of(ms / 10)
    } else {
        (if ms < 10 {
            ".00"@
        } else if ms < 100 {
            ".0"@
        } else {
            "."@
        }) + decimal_of(ms)
    }
}

/// A duration of `ms` milliseconds in words: `5s`, `1.5s`, `50ms`.
pub open spec fn duration_text(ms: nat) -> Seq<char> {
    if ms == 0 {
        "0ns"@
    } else if ms < 1000 {
        decimal_of(ms) + "ms"@
    } else {
        decimal_of(ms / 1000) + thousandths(ms % 1000) + "s"@
    }
}

fn write_thousandths(ms: u64) -> (r: String)
    requires
        ms < 1000,
    ensures
        r@ == thousandths(ms as nat),
{
    if ms == 0 {
        "".to_owned()
    } else if ms % 100 == 0 {
        join2(".", decimal(ms / 100).as_str())
    } else if ms % 10 == 0 {
        join2(
            if ms < 100 {
                ".0"
            } else {
                "."
            },
            decimal(ms / 10).as_str(),
        )
    } else {
        join2(
            if ms < 10 {
                ".00"
            } else if ms < 100 {
                ".0"
            } else {
                "."
            },
            decimal(ms).as_str(),
        )
    }
}

/// A duration of `ms` milliseconds in words.
pub fn write_duration(ms: u64) -> (r: String)
    ensures
        r@ == duration_text(ms as nat),
{
    if ms == 0 {
        "0ns".to_owned()
    } else if ms < 1000 {
        join2(decimal(ms).as_str(), "ms")
    } else {
        join3(decimal(ms / 1000).as_str(), write_thousandths(ms % 1000).as_str(), "s")
    }
}

impl PathsError {
    pub open spec fn text(&self) -> Seq<char> {
        match *self {
            PathsError::HomeDirectoryUnavailable => "home directory is unavailable"@,
            PathsError::OpenFile { path } => "failed to open file "@ + path@,
            PathsError::CreateDirectory { path } => "failed to create directory "@ + path@,
            PathsError::LockFile { path } => "failed to lock file "@ + path@,
            PathsError::LockTimeout { path, timeout_ms } => "timed out after "@ + duration_text(
                timeout_ms as nat,
            ) + " waiting for lock file "@ + path@,
        }
    }

    /// The error in words.
    pub fn message(&self) -> (r: String)
        ensures
            r@ == self.text(),
    {
        match self {
            PathsError::HomeDirectoryUnavailable => "home directory is unavailable".to_owned(),
            PathsError::OpenFile { path } => join2("failed to open file ", path.as_str()),
            PathsError::CreateDirectory { path } => join2(
                "failed to create directory ",
                path.as_str(),
            ),
            PathsError::LockFile { path } => join2("failed to lock file ", path.as_str()),
            PathsError::LockTimeout { path, timeout_ms } => {
                let mut out = join3(
                    "timed out after ",
                    write_duration(*timeout_ms).as_str(),
                    " waiting for lock file ",
                );
                out.append(path.as_str());
                out
            },
        }
    }
}

impl AswitchPaths {
    /// Whether every path stands where it belongs below the root.
    pub open spec fn laid_out(&self) -> bool {
        &&& self.plugins_dir@ == joined(self.root@, "plugins"@)
        &&& self.accounts_dir@ == joined(self.root@, "accounts"@)
        &&& self.usage_cache_dir@ == joined(self.root@, "usage_cache"@)
        &&& self.logs_dir@ == joined(self.root@, "logs"@)
        &&& self.registry_file@ == joined(self.root@, "registry.json"@)
        &&& self.lock_file@ == joined(self.root@, ".lock"@)
        &&& self.log_file@ == joined(joined(self.root@, "logs"@), "aswitch.log"@)
    }

    /// The paths below `config_dir`, or below `.aswitch` in the home directory where none is given.
    pub fn resolve(config_dir: Option<String>, home_dir: Option<String>) -> (r: Result<
        AswitchPaths,
        PathsError,
    >)
        ensures
            match r {
                Ok(paths) => {
                    &&& paths.laid_out()
                    &&& match (config_dir, home_dir) {
                        (Some(dir), _) => paths.root@ == dir@,
                        (None, Some(home)) => paths.root@ == joined(home@, ".aswitch"@),
                        (None, None) => false,
                    }
                },
                Err(e) => e == PathsError::HomeDirectoryUnavailable && config_dir is None
                    && home_dir is None,
            },
    {
        let root = match config_dir {
            Some(dir) => dir,
            None => match home_dir {
                Some(home) => join_path(home.as_str(), ".aswitch"),
                None => {
                    return Err(PathsError::HomeDirectoryUnavailable);
                },
            },
        };
        let logs_dir = join_path(root.as_str(), "logs");
        Ok(
            AswitchPaths {
                plugins_dir: join_path(root.as_str(), "plugins"),
                accounts_dir: join_path(root.as_str(), "accounts"),
                usage_cache_dir: join_path(root.as_str(), "usage_cache"),
                registry_file: join_path(root.as_str(), "registry.json"),
                lock_file: join_path(root.as_str(), ".lock"),
                log_file: join_path(logs_dir.as_str(), "aswitch.log"),
                logs_dir,
                root,
            },
        )
    }

    /// The directories that have to exist, in the order in which they are made.
    pub open spec fn directories(&self) -> Seq<Seq<char>> {
        seq![
            self.root@,
            self.plugins_dir@,
            self.accounts_dir@,
            self.usage_cache_dir@,
            self.logs_dir@,
        ]
    }

    /// The directories that have to exist, in the order in which they are made.
    pub fn ensure(&self) -> (r: Vec<String>)
        ensures
            r.deep_view() == self.directories(),
    {
        let mut out: Vec<String> = Vec::new();
        out.push(self.root.clone());
        out.push(self.plugins_dir.clone());
        out.push(self.accounts_dir.clone());
        out.push(self.usage_cache_dir.clone());
        out.push(self.logs_dir.clone());
        assert(out.deep_view() == self.directories());
        out
    }

    /// Where the registry is written before it takes the place of the old one.
    pub open spec fn temp_path(&self, pid: u32) -> Seq<char> {
        joined(self.root@, "registry.json.tmp."@ + decimal_of(pid as nat))
    }

    /// Where the registry is written before it takes the place of the old one.
    pub fn registry_temp_path(&self, pid: u32) -> (r: String)
        ensures
            r@ == self.temp_path(pid),
    {
        let name = join2("registry.json.tmp.", decimal(pid as u64).as_str());
        join_path(self.root.as_str(), name.as_str())
    }

    /// Where a registry that cannot be read is kept.
    pub fn registry_backup_path(&self, timestamp: &str) -> (r: String)
        ensures
            r@ == joined(self.root@, "registry.json.bak."@ + timestamp@),
    {
        let name = join2("registry.json.bak.", timestamp);
        join_path(self.root.as_str(), name.as_str())
    }
}

// ---------------------------------------------------------------------------------------------
// Making the directories
// ---------------------------------------------------------------------------------------------
/// What is there once a directory was made, with those above it that were missing: what was there
/// before, the directory and those above it. The empty path stands for the directory that the
/// program runs in, which is never made.
pub open spec fn made(present: Set<Seq<char>>, dir: Seq<char>) -> Set<Seq<char>> {
    Set::new(
        |p: Seq<char>|
            present.contains(p) || (p.len() > 0 && (p == dir || above(dir).contains(p))),
    )
}

/// What is there once some directories were made, one after the other.
pub open spec fn all_made(present: Set<Seq<char>>, dirs: Seq<Seq<char>>) -> Set<Seq<char>>
    decreases dirs.len(),
{
    if dirs.len() == 0 {
        present
    } else {
        made(all_made(present, dirs.drop_last()), dirs.last())
    }
}

proof fn lemma_above(p: Seq<char>, dir: Seq<char>)
    requires
        above(p).contains(dir),
    ensures
        dir.len() < p.len(),
        p.take(dir.len() as int) == dir,
    decreases p.len(),
{
    a_parent_is_a_shorter_beginning(p);
    match parent_of(p) {
        Some(up) => {
            let i = choose|i: int| 0 <= i < above(p).len() && above(p)[i] == dir;
            if i > 0 {
                assert(above(up)[i - 1] == dir);
                lemma_above(up, dir);
                assert(up.take(dir.len() as int) == p.take(dir.len() as int));
            }
        },
        None => {},
    }
}

proof fn lemma_all_made(present: Set<Seq<char>>, dirs: Seq<Seq<char>>, p: Seq<char>)
    ensures
        all_made(present, dirs).contains(p) <==> present.contains(p) || (p.len() > 0 && exists|
            i: int,
        |
            0 <= i < dirs.len() && (p == #[trigger] dirs[i] || above(dirs[i]).contains(p))),
    decreases dirs.len(),
{
    if dirs.len() > 0 {
        let front = dirs.drop_last();
        lemma_all_made(present, front, p);
        assert(dirs.last() == dirs[dirs.len() - 1]);
        if exists|i: int|
            0 <= i < front.len() && (p == #[trigger] front[i] || above(front[i]).contains(p)) {
            let i = choose|i: int|
                0 <= i < front.len() && (p == #[trigger] front[i] || above(front[i]).contains(p));
            assert(front[i] == dirs[i]);
        }
        if exists|i: int|
            0 <= i < dirs.len() && (p == #[trigger] dirs[i] || above(dirs[i]).contains(p)) {
            let i = choose|i: int|
                0 <= i < dirs.len() && (p == #[trigger] dirs[i] || above(dirs[i]).contains(p));
            if i < front.len() {
                assert(front[i] == dirs[i]);
            }
        }
    }
}

/// A directory that is made, and one above it, begin the way one of the directories of the program
/// begins.
proof fn lemma_made_begins(paths: AswitchPaths, present: Set<Seq<char>>, p: Seq<char>)
    requires
        all_made(present, paths.directories()).contains(p),
        !present.contains(p),
    ensures
        exists|i: int|
            0 <= i < 5 && p.len() <= (#[trigger] paths.directories()[i]).len()
                && paths.directories()[i].take(p.len() as int) == p,
{
    let dirs = paths.directories();
    lemma_all_made(present, dirs, p);
    let i = choose|i: int|
        0 <= i < dirs.len() && (p == #[trigger] dirs[i] || above(dirs[i]).contains(p));
    if p == dirs[i] {
        assert(dirs[i].take(p.len() as int) == p);
    } else {
        lemma_above(dirs[i], p);
    }
}

proof fn lemma_files_are_not_made(paths: AswitchPaths, present: Set<Seq<char>>, file: Seq<char>)
    requires
        paths.laid_out(),
        file == paths.registry_file@ || file == paths.lock_file@ || file == paths.log_file@,
        all_made(present, paths.directories()).contains(file),
    ensures
        present.contains(file),
{
    if !present.contains(file) {
        lemma_made_begins(paths, present, file);
        let dirs = paths.directories();
        let i = choose|i: int|
            0 <= i < 5 && file.len() <= (#[trigger] dirs[i]).len() && dirs[i].take(
                file.len() as int,
            ) == file;
        reveal_strlit("plugins");
        reveal_strlit("accounts");
        reveal_strlit("usage_cache");
        reveal_strlit("logs");
        reveal_strlit("registry.json");
        reveal_strlit(".lock");
        reveal_strlit("aswitch.log");
        let n = joined(paths.root@, ""@).len() as int;
        reveal_strlit("");
        assert(paths.lock_file@[n] == '.');
        assert(file[n] == dirs[i].take(file.len() as int)[n]);
        assert(false);
    }
}

/// Once the directories of the program were made, those of them that are named are all there, with
/// all that was there before; the registry, the lock and the log are not made with them; and making
/// them again changes nothing.
pub proof fn directories_are_made_once(paths: AswitchPaths, present: Set<Seq<char>>)
    requires
        paths.laid_out(),
    ensures
        ({
            let once = all_made(present, paths.directories());
            &&& forall|i: int|
                0 <= i < 5 && paths.directories()[i].len() > 0 ==> once.contains(
                    #[trigger] paths.directories()[i],
                )
            &&& present.subset_of(once)
            &&& once.contains(paths.registry_file@) ==> present.contains(paths.registry_file@)
            &&& once.contains(paths.lock_file@) ==> present.contains(paths.lock_file@)
            &&& once.contains(paths.log_file@) ==> present.contains(paths.log_file@)
            &&& all_made(once, paths.directories()) == once
        }),
{
    let dirs = paths.directories();
    let once = all_made(present, dirs);
    assert forall|i: int| 0 <= i < 5 && dirs[i].len() > 0 implies once.contains(
        #[trigger] dirs[i],
    ) by {
        lemma_all_made(present, dirs, dirs[i]);
    }
    assert forall|p: Seq<char>| present.contains(p) implies once.contains(p) by {
        lemma_all_made(present, dirs, p);
    }
    if once.contains(paths.registry_file@) {
        lemma_files_are_not_made(paths, present, paths.registry_file@);
    }
    if once.contains(paths.lock_file@) {
        lemma_files_are_not_made(paths, present, paths.lock_file@);
    }
    if once.contains(paths.log_file@) {
        lemma_files_are_not_made(paths, present, paths.log_file@);
    }
    assert forall|p: Seq<char>| all_made(once, dirs).contains(p) <==> once.contains(p) by {
        lemma_all_made(once, dirs, p);
        lemma_all_made(present, dirs, p);
    }
    assert(all_made(once, dirs) =~= once);
}

/// `path` with a leading `~` standing for the home directory.
pub fn expand_user_path(path: &str, home_dir: Option<String>) -> (r: Result<String, PathsError>)
    ensures
        match home_dir {
            Some(home) => r is Ok && r->Ok_0@ == user_path(path@, home@),
            None => r == Err::<String, PathsError>(PathsError::HomeDirectoryUnavailable),
        },
{
    match home_dir {
        Some(home) => Ok(expand_user_path_from(path, home.as_str())),
        None => Err(PathsError::HomeDirectoryUnavailable),
    }
}

/// What came of one attempt to take the lock.
#[derive(Clone, Copy, Debug, PartialEq, Eq, Structural)]
pub enum LockAttempt {
    Taken,
    Busy,
    Failed,
}

/// What to do after an attempt to take the lock.
pub enum LockStep {
    Hold,
    Wait { ms: u64 },
    GiveUp(PathsError),
}

/// What to do after an attempt to take the lock: a busy lock is tried again every 50 ms until
/// `timeout_ms` have passed.
pub fn lock_step(paths: &AswitchPaths, attempt: LockAttempt, elapsed_ms: u64, timeout_ms: u64) -> (r:
    LockStep)
    ensures
        match attempt {
            LockAttempt::Taken => r == LockStep::Hold,
            LockAttempt::Busy => if elapsed_ms >= timeout_ms {
                r == LockStep::GiveUp(
                    PathsError::LockTimeout { path: paths.lock_file, timeout_ms },
                )
            } else {
                r == (LockStep::Wait { ms: 50 })
            },
            LockAttempt::Failed => r == LockStep::GiveUp(
                PathsError::LockFile { path: paths.lock_file },
            ),
        },
{
    match attempt {
        LockAttempt::Taken => LockStep::Hold,
        LockAttempt::Busy => if elapsed_ms >= timeout_ms {
            LockStep::GiveUp(PathsError::LockTimeout { path: paths.lock_file.clone(), timeout_ms })
        } else {
            LockStep::Wait { ms: 50 }
        },
        LockAttempt::Failed => LockStep::GiveUp(
            PathsError::LockFile { path: paths.lock_file.clone() },
        ),
    }
}

} // verus!
