//! Deciding what to watch before watching starts.
//!
//! For `watch`, the configuration comes from, in order of precedence:
//! the file named with `--config`; the nearest `.watchr.toml` found
//! from the working directory upwards; the inline flags, with the
//! default debounce time. A configuration is accepted once it has at
//! least one entry and every directory it names is a directory.
use vstd::prelude::*;

use crate::cli::{inline_entry, CliError, Commands};
use crate::config::{WatchrConfig, DEFAULT_DEBOUNCE_MS};
use crate::entry::{strings_view, WatchrEntry};
use crate::paths::path_is_dir;
use crate::resolver::{
    ancestor, config_candidate, find_config_file, first_present, found_by_search, is_search_chain,
    searched_until_found,
};

verus! {

broadcast use vstd::seq_lib::group_seq_properties;

/// Errors that stop `watch` before watching starts.
#[derive(Debug)]
pub enum SetupError {
    /// The inline flags were malformed.
    Cli(CliError),
    /// No watcher entry came from the configuration file, nor from the
    /// inline flags.
    NoWatcherEntriesProvided,
    /// A directory to watch does not exist or is not a directory.
    DirNotFound(String),
}

/// Where the configuration comes from.
#[derive(Debug)]
pub enum ConfigSource {
    /// A configuration file, to be read.
    File(String),
    /// A configuration built from the inline flags.
    Inline(WatchrConfig),
}

/// The `--config` path, where `watch` names one.
pub open spec fn explicit_config(command: Commands) -> Option<Seq<char>> {
    match command {
        Commands::Watch { config: Some(p), .. } => Some(p@),
        _ => None,
    }
}

/// The inline flags give a directory without a command, or the
/// reverse.
pub open spec fn inline_malformed(command: Commands) -> bool {
    match command {
        Commands::Watch { dir, cmd, .. } => dir.is_some() != cmd.is_some(),
        Commands::Init => false,
    }
}

/// The inline flags give both a directory and a command.
pub open spec fn inline_given(command: Commands) -> bool {
    match command {
        Commands::Watch { dir, cmd, .. } => dir.is_some() && cmd.is_some(),
        Commands::Init => false,
    }
}

/// `f` is where the configuration file would be in `cwd` or one of
/// its ancestors.
pub open spec fn is_config_candidate(cwd: Seq<char>, f: Seq<char>) -> bool {
    exists|k: nat| ancestor(cwd, k) is Some && f == config_candidate(#[trigger] ancestor(cwd, k)->0)
}

/// Chooses where the configuration comes from: a configuration file
/// where there is one, else the inline entry with the default
/// debounce time, else nothing can be watched.
pub fn choose_config_source(config_path: Option<String>, cli_entry: Option<WatchrEntry>) -> (res:
    Result<ConfigSource, SetupError>)
    ensures
        match config_path {
            Some(p) => res == Ok::<ConfigSource, SetupError>(ConfigSource::File(p)),
            None => match cli_entry {
                Some(e) => res matches Ok(ConfigSource::Inline(c)) && c.debounce_ms
                    == DEFAULT_DEBOUNCE_MS && c.entries@ == seq![e],
                None => res matches Err(SetupError::NoWatcherEntriesProvided),
            },
        },
{
    match config_path {
        Some(p) => Ok(ConfigSource::File(p)),
        None => match cli_entry {
            Some(e) => {
                let config = WatchrConfig { debounce_ms: DEFAULT_DEBOUNCE_MS, entries: vec![e] };
                assert(config.entries@ =~= seq![e]);
                Ok(ConfigSource::Inline(config))
            },
            None => Err(SetupError::NoWatcherEntriesProvided),
        },
    }
}

/// Works out where the configuration of `watch` comes from, searching
/// for `.watchr.toml` from `cwd` upwards where `--config` is not given.
///
/// Malformed inline flags are refused first. An explicit `--config`
/// wins; otherwise a configuration file found by the search wins over
/// the inline entry; without either, nothing can be watched. Whether
/// a file is found is up to the file system, so for that case the
/// contract says what holds of each outcome.
pub fn resolve_config_source(command: &Commands, cwd: &str) -> (res: Result<
    ConfigSource,
    SetupError,
>)
    ensures
        inline_malformed(*command) <==> res matches Err(SetupError::Cli(_)),
        !inline_malformed(*command) ==> match explicit_config(*command) {
            Some(p) => res matches Ok(ConfigSource::File(f)) && f@ == p,
            None => match res {
                Ok(ConfigSource::File(f)) => is_config_candidate(cwd@, f@),
                Ok(ConfigSource::Inline(c)) => {
                    &&& inline_given(*command)
                    &&& command matches Commands::Watch { dir: Some(d), ext, cmd: Some(x), .. }
                    &&& c.debounce_ms == DEFAULT_DEBOUNCE_MS
                    &&& c.entries@.len() == 1
                    &&& c.entries@[0]@ == inline_entry(d@, *ext, x@)
                },
                Err(e) => e is NoWatcherEntriesProvided && !inline_given(*command),
            },
        },
        !inline_malformed(*command) && explicit_config(*command) is None ==> exists|
            dirs: Seq<Seq<char>>,
            asked: Seq<bool>,
        |
            {
                &&& is_search_chain(cwd@, dirs)
                &&& #[trigger] searched_until_found(dirs.len(), asked)
                &&& source_by_search(dirs, asked, res)
            },
{
    let cli_entry = match command.to_entry() {
        Ok(entry) => entry,
        Err(e) => return Err(SetupError::Cli(e)),
    };
    let ghost mut search: (Seq<Seq<char>>, Seq<bool>) = (Seq::empty(), Seq::empty());
    let config_path = match command.config_path() {
        Some(p) => Some(p.to_owned()),
        None => {
            let found = find_config_file(cwd);
            proof {
                search = choose|dirs: Seq<Seq<char>>, asked: Seq<bool>|
                    {
                        &&& is_search_chain(cwd@, dirs)
                        &&& #[trigger] searched_until_found(dirs.len(), asked)
                        &&& found_by_search(dirs, asked, found)
                    };
            }
            match found {
                Ok(found) => {
                    proof {
                        lemma_found_is_candidate(cwd@, found@);
                    }
                    Some(found)
                },
                Err(_) => None,
            }
        },
    };
    let res = choose_config_source(config_path, cli_entry);
    proof {
        if explicit_config(*command) is None {
            assert(searched_until_found(search.0.len(), search.1));
            assert(source_by_search(search.0, search.1, res));
        }
    }
    res
}

/// What the search for a configuration file gives for `watch`: the
/// candidate of the directory where the search stopped on a `true`
/// answer; the inline entry, or nothing to watch, only where every
/// directory of the search was asked about and none holds the file.
pub open spec fn source_by_search(
    dirs: Seq<Seq<char>>,
    asked: Seq<bool>,
    res: Result<ConfigSource, SetupError>,
) -> bool {
    match res {
        Ok(ConfigSource::File(f)) => asked.len() > 0 && asked.last() && f@ == config_candidate(
            dirs[asked.len() - 1],
        ),
        _ => asked.len() == dirs.len() && forall|j: int| 0 <= j < asked.len() ==> !#[trigger] asked[j],
    }
}

/// What `find_config_file` returns is a candidate of the search.
proof fn lemma_found_is_candidate(cwd: Seq<char>, f: Seq<char>)
    requires
        exists|dirs: Seq<Seq<char>>, present: Seq<bool>|
            {
                &&& is_search_chain(cwd, dirs)
                &&& present.len() == dirs.len()
                &&& first_present(dirs.map_values(|d| config_candidate(d)), present) == Some(f)
            },
    ensures
        is_config_candidate(cwd, f),
{
    let (dirs, present) = choose|dirs: Seq<Seq<char>>, present: Seq<bool>|
        {
            &&& is_search_chain(cwd, dirs)
            &&& present.len() == dirs.len()
            &&& first_present(dirs.map_values(|d| config_candidate(d)), present) == Some(f)
        };
    let cands = dirs.map_values(|d| config_candidate(d));
    let i = lemma_first_present_index(cands, present, f);
    assert(ancestor(cwd, i as nat) == Some(dirs[i]));
    assert(f == config_candidate(ancestor(cwd, i as nat)->0));
}

/// The first present candidate is one of the candidates.
proof fn lemma_first_present_index(cands: Seq<Seq<char>>, present: Seq<bool>, f: Seq<char>) -> (i:
    int)
    requires
        first_present(cands, present) == Some(f),
    ensures
        0 <= i < cands.len(),
        cands[i] == f,
    decreases cands.len(),
{
    if present[0] {
        0
    } else {
        let j = lemma_first_present_index(cands.drop_first(), present.drop_first(), f);
        j + 1
    }
}

/// All directories of the entries, in order.
pub open spec fn all_dirs(entries: Seq<WatchrEntry>) -> Seq<Seq<char>> {
    entries.map_values(|e: WatchrEntry| strings_view(e.dirs@)).flatten()
}

/// The first directory that is not marked present, if any.
pub open spec fn first_missing(dirs: Seq<Seq<char>>, present: Seq<bool>) -> Option<Seq<char>>
    decreases dirs.len(),
{
    if dirs.len() == 0 || present.len() == 0 {
        None
    } else if !present[0] {
        Some(dirs[0])
    } else {
        first_missing(dirs.drop_first(), present.drop_first())
    }
}

proof fn lemma_first_missing_at(dirs: Seq<Seq<char>>, present: Seq<bool>, k: int)
    requires
        0 <= k < dirs.len(),
        k < present.len(),
        !present[k],
        forall|j: int| 0 <= j < k ==> present[j],
    ensures
        first_missing(dirs, present) == Some(dirs[k]),
    decreases k,
{
    if k > 0 {
        lemma_first_missing_at(dirs.drop_first(), present.drop_first(), k - 1);
    }
}

proof fn lemma_first_missing_none(dirs: Seq<Seq<char>>, present: Seq<bool>)
    requires
        forall|j: int| 0 <= j < present.len() ==> present[j],
    ensures
        first_missing(dirs, present) is None,
    decreases dirs.len(),
{
    if dirs.len() > 0 && present.len() > 0 {
        lemma_first_missing_none(dirs.drop_first(), present.drop_first());
    }
}

/// All directories of the entries, in order.
pub fn collect_dirs(entries: &Vec<WatchrEntry>) -> (dirs: Vec<String>)
    ensures
        strings_view(dirs@) == all_dirs(entries@),
{
    let ghost ev = entries@.map_values(|e: WatchrEntry| strings_view(e.dirs@));
    let mut dirs: Vec<String> = Vec::new();
    let n = entries.len();
    let mut i: usize = 0;
    while i < n
        invariant
            n == entries@.len(),
            ev == entries@.map_values(|e: WatchrEntry| strings_view(e.dirs@)),
            i <= n,
            strings_view(dirs@) == ev.take(i as int).flatten(),
        decreases n - i,
    {
        let entry_dirs = &entries[i].dirs;
        let m = entry_dirs.len();
        let ghost start = strings_view(dirs@);
        let mut j: usize = 0;
        while j < m
            invariant
                m == entry_dirs@.len(),
                j <= m,
                strings_view(dirs@) == start + strings_view(entry_dirs@).take(j as int),
            decreases m - j,
        {
            let ghost before = strings_view(dirs@);
            dirs.push(entry_dirs[j].clone());
            assert(strings_view(dirs@) =~= before.push(entry_dirs@[j as int]@));
            assert(strings_view(entry_dirs@).take(j + 1) =~= strings_view(entry_dirs@).take(
                j as int,
            ).push(entry_dirs@[j as int]@));
            j = j + 1;
        }
        assert(strings_view(entry_dirs@).take(m as int) =~= strings_view(entry_dirs@));
        assert(ev[i as int] == strings_view(entry_dirs@));
        assert(ev.take(i + 1) =~= ev.take(i as int).push(ev[i as int]));
        proof {
            ev.take(i as int).lemma_flatten_push(ev[i as int]);
        }
        i = i + 1;
    }
    assert(ev.take(n as int) =~= ev);
    dirs
}

/// Accepts a configuration only where it has an entry and every
/// directory it names is a directory.
///
/// With no entries the answer is
/// [`SetupError::NoWatcherEntriesProvided`]. Otherwise the directories
/// are checked in order, and the first that is not a directory is
/// refused with [`SetupError::DirNotFound`]. Whether a path is a
/// directory is asked of the file system, so the contract says what is
/// returned for the answers that came back.
pub fn validate_config(config: WatchrConfig) -> (res: Result<WatchrConfig, SetupError>)
    ensures
        config.entries@.len() == 0 ==> res matches Err(SetupError::NoWatcherEntriesProvided),
        config.entries@.len() > 0 ==> exists|present: Seq<bool>|
            {
                &&& present.len() == all_dirs(config.entries@).len()
                &&& match #[trigger] first_missing(all_dirs(config.entries@), present) {
                    Some(d) => res matches Err(SetupError::DirNotFound(x)) && x@ == d,
                    None => res == Ok::<WatchrConfig, SetupError>(config),
                }
            },
        config.entries@.len() > 0 ==> exists|asked: Seq<bool>|
            {
                &&& #[trigger] checked_until_missing(all_dirs(config.entries@).len(), asked)
                &&& checked_result(all_dirs(config.entries@), asked, config, res)
            },
{
    if config.entries.len() == 0 {
        return Err(SetupError::NoWatcherEntriesProvided);
    }
    let dirs = collect_dirs(&config.entries);
    let ghost dv = strings_view(dirs@);
    let mut answers: Vec<bool> = Vec::new();
    let n = dirs.len();
    let mut i: usize = 0;
    let mut all_dirs_so_far = true;
    while i < n && all_dirs_so_far
        invariant
            n == dirs@.len(),
            i <= n,
            answers@.len() == i,
            forall|j: int| 0 <= j < i - 1 ==> answers@[j],
            i > 0 ==> answers@[i - 1] == all_dirs_so_far,
            i == 0 ==> all_dirs_so_far,
        decreases n - i,
    {
        all_dirs_so_far = path_is_dir(dirs[i].as_str());
        answers.push(all_dirs_so_far);
        i = i + 1;
    }
    let missing = first_not_dir(&dirs, &answers);
    // the answers not asked for count as directories
    let ghost full = answers@ + Seq::new((n - answers@.len()) as nat, |j: int| true);
    proof {
        if !all_dirs_so_far {
            let k = i - 1;
            lemma_first_missing_at(dv, answers@, k as int);
            lemma_first_missing_at(dv, full, k as int);
        } else {
            lemma_first_missing_none(dv, answers@);
            lemma_first_missing_none(dv, full);
        }
        assert(checked_until_missing(dv.len(), answers@));
    }
    let res = match missing {
        Some(d) => Err(SetupError::DirNotFound(d)),
        None => Ok(config),
    };
    proof {
        if !all_dirs_so_far {
            assert(dv[i - 1] == dirs@[i - 1]@);
        }
        assert(checked_result(dv, answers@, config, res));
    }
    res
}

/// `asked` are the answers to "is this a directory?" for the
/// directories in order, from the first on, and the asking stopped only
/// at one that is not a directory, or at the end.
pub open spec fn checked_until_missing(n: nat, asked: Seq<bool>) -> bool {
    &&& asked.len() <= n
    &&& forall|j: int| 0 <= j < asked.len() - 1 ==> #[trigger] asked[j]
    &&& asked.len() < n ==> asked.len() > 0 && !asked.last()
}

/// What such a check gives: the directory where it stopped on a
/// `false` answer; the configuration unchanged only where every
/// directory was asked about and each is a directory.
pub open spec fn checked_result(
    dirs: Seq<Seq<char>>,
    asked: Seq<bool>,
    config: WatchrConfig,
    res: Result<WatchrConfig, SetupError>,
) -> bool {
    match res {
        Ok(c) => c == config && asked.len() == dirs.len() && forall|j: int|
            0 <= j < asked.len() ==> #[trigger] asked[j],
        Err(SetupError::DirNotFound(d)) => asked.len() > 0 && !asked.last() && d@ == dirs[asked.len()
            - 1],
        Err(_) => false,
    }
}

/// A configuration is accepted only once every directory it names,
/// across all its entries, was asked about and answered a directory;
/// where one is refused, it is the first answered not a directory, and
/// all before it were answered directories.
pub proof fn lemma_every_directory_checked(
    dirs: Seq<Seq<char>>,
    asked: Seq<bool>,
    config: WatchrConfig,
    res: Result<WatchrConfig, SetupError>,
)
    requires
        checked_until_missing(dirs.len(), asked),
        checked_result(dirs, asked, config, res),
    ensures
        res is Ok ==> forall|j: int| 0 <= j < dirs.len() ==> #[trigger] asked[j],
        res matches Err(SetupError::DirNotFound(d)) ==> exists|k: int|
            0 <= k < dirs.len() && !#[trigger] asked[k] && d@ == dirs[k] && forall|j: int|
                0 <= j < k ==> asked[j],
{
    if res matches Err(SetupError::DirNotFound(_)) {
        let k = asked.len() - 1;
        assert(!asked[k]);
    }
}

/// The first directory whose answer is `false`, given the answers for
/// the directories in order (there may be fewer answers than
/// directories: the rest were not asked).
pub fn first_not_dir(dirs: &Vec<String>, is_dir: &Vec<bool>) -> (res: Option<String>)
    ensures
        match res {
            Some(d) => first_missing(strings_view(dirs@), is_dir@) == Some(d@),
            None => first_missing(strings_view(dirs@), is_dir@) is None,
        },
{
    let ghost dv = strings_view(dirs@);
    let n = dirs.len();
    let mut i: usize = 0;
    while i < n && i < is_dir.len()
        invariant
            n == dirs@.len(),
            dv == strings_view(dirs@),
            i <= n,
            i <= is_dir@.len(),
            forall|j: int| 0 <= j < i ==> is_dir@[j],
        decreases n - i,
    {
        if !is_dir[i] {
            proof {
                lemma_first_missing_at(dv, is_dir@, i as int);
            }
            return Some(dirs[i].clone());
        }
        i = i + 1;
    }
    proof {
        lemma_first_missing_none_before(dv, is_dir@, i as int);
    }
    None
}

proof fn lemma_first_missing_none_before(dirs: Seq<Seq<char>>, present: Seq<bool>, k: int)
    requires
        0 <= k,
        k == dirs.len() || k == present.len(),
        k <= dirs.len(),
        k <= present.len(),
        forall|j: int| 0 <= j < k ==> present[j],
    ensures
        first_missing(dirs, present) is None,
    decreases k,
{
    if k > 0 {
        lemma_first_missing_none_before(dirs.drop_first(), present.drop_first(), k - 1);
    }
}

} // verus!
