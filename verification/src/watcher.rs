//! Decisions of the `watch` command: which batches of file events
//! trigger a command, and how the event loop reacts to what it
//! receives.
//!
//! Registering directories with the file-system notifier, the
//! channel between the notifier and the loop, the `Ctrl+C` handler
//! and running the commands are left to the program around the
//! library; each step of theirs goes through the functions here.
use vstd::prelude::*;

use crate::entry::{opt_strings_view, strings_view};
use crate::paths::{extension_of, path_extension, path_is_file};

verus! {

broadcast use vstd::seq_lib::group_seq_properties;

/// Events consumed by the event loop.
#[derive(Debug)]
pub enum WatchEvent {
    /// Execute `cmd`; `name` is the name of the watcher entry that
    /// triggered it, if it has one.
    Command { cmd: String, name: Option<String> },
    /// Terminate the event loop gracefully.
    Shutdown,
}

/// A batch of debounced file events: the paths that each event
/// concerns, or the messages of the errors that the notifier
/// reported instead.
pub type EventBatch = Result<Vec<Vec<String>>, Vec<String>>;

/// The paths of each event, as text.
pub open spec fn event_paths(events: Seq<Vec<String>>) -> Seq<Seq<Seq<char>>> {
    events.map_values(|e: Vec<String>| strings_view(e@))
}

/// All paths of a batch of events, in order.
pub open spec fn batch_paths(events: Seq<Vec<String>>) -> Seq<Seq<char>> {
    event_paths(events).flatten()
}

/// The extension of `path` is one of `exts`.
pub open spec fn extension_wanted(path: Seq<char>, exts: Seq<Seq<char>>) -> bool {
    extension_of(path) is Some && exts.contains(extension_of(path)->0)
}

/// Whether changes to `paths` trigger the command: always without an
/// extension filter; with one, where some path that is a file
/// (`is_file`, index by index) has one of the extensions.
pub open spec fn triggers(
    paths: Seq<Seq<char>>,
    is_file: Seq<bool>,
    exts: Option<Seq<Seq<char>>>,
) -> bool {
    match exts {
        None => true,
        Some(xs) => hits_any(paths, is_file, xs),
    }
}

/// Some path is a file and has one of the extensions `xs`.
pub open spec fn hits_any(paths: Seq<Seq<char>>, is_file: Seq<bool>, xs: Seq<Seq<char>>) -> bool {
    exists|i: int| #[trigger] path_hit(paths, is_file, xs, i)
}

/// Path `i` is a file and has one of the extensions `xs`.
pub open spec fn path_hit(paths: Seq<Seq<char>>, is_file: Seq<bool>, xs: Seq<Seq<char>>, i: int) -> bool {
    0 <= i < paths.len() && i < is_file.len() && is_file[i] && extension_wanted(paths[i], xs)
}

/// A file with a wanted extension triggers the command wherever it
/// stands in the batch, not only as the first path or the first file.
pub proof fn lemma_wanted_file_triggers(
    paths: Seq<Seq<char>>,
    is_file: Seq<bool>,
    xs: Seq<Seq<char>>,
    i: int,
    e: Seq<char>,
)
    requires
        0 <= i < paths.len(),
        i < is_file.len(),
        is_file[i],
        extension_of(paths[i]) == Some(e),
        xs.contains(e),
    ensures
        triggers(paths, is_file, Some(xs)),
{
    assert(path_hit(paths, is_file, xs, i));
}

/// The command is triggered only by a path that is a file and has one
/// of the wanted extensions.
pub proof fn lemma_trigger_needs_wanted_file(paths: Seq<Seq<char>>, is_file: Seq<bool>, xs: Seq<Seq<char>>)
    requires
        triggers(paths, is_file, Some(xs)),
    ensures
        exists|i: int|
            0 <= i < paths.len() && i < is_file.len() && is_file[i] && #[trigger] extension_of(
                paths[i],
            ) is Some && xs.contains(extension_of(paths[i])->0),
{
    let i = choose|i: int| #[trigger] path_hit(paths, is_file, xs, i);
    assert(extension_of(paths[i]) is Some);
}

/// `asked` are the answers to "is this path a file?" for the paths
/// in order, from the first on, and the asking stopped only at a path
/// that is a file with a wanted extension, or at the end.
pub open spec fn scanned_until_hit(paths: Seq<Seq<char>>, asked: Seq<bool>, xs: Seq<Seq<char>>) -> bool {
    &&& asked.len() <= paths.len()
    &&& forall|j: int| 0 <= j < asked.len() - 1 ==> !#[trigger] path_hit(paths, asked, xs, j)
    &&& asked.len() < paths.len() ==> asked.len() > 0 && path_hit(paths, asked, xs, asked.len() - 1)
}

/// In such a scan, a wanted file at any position asked about ends the
/// scan with a hit: the command is given.
pub proof fn lemma_scan_finds_any_wanted_file(
    paths: Seq<Seq<char>>,
    asked: Seq<bool>,
    xs: Seq<Seq<char>>,
    j: int,
)
    requires
        scanned_until_hit(paths, asked, xs),
        path_hit(paths, asked, xs, j),
    ensures
        asked.len() > 0 && path_hit(paths, asked, xs, asked.len() - 1),
{
}

/// Widening the extension filter never loses a trigger: where a batch
/// triggers the command under `xs`, it does under every filter that
/// holds all of `xs`.
pub proof fn lemma_wider_filter_keeps_trigger(
    paths: Seq<Seq<char>>,
    is_file: Seq<bool>,
    xs: Seq<Seq<char>>,
    ys: Seq<Seq<char>>,
)
    requires
        forall|e: Seq<char>| xs.contains(e) ==> ys.contains(e),
        triggers(paths, is_file, Some(xs)),
    ensures
        triggers(paths, is_file, Some(ys)),
{
    let i = choose|i: int| #[trigger] path_hit(paths, is_file, xs, i);
    let e = extension_of(paths[i])->0;
    assert(xs.contains(e));
    assert(ys.contains(e));
    assert(path_hit(paths, is_file, ys, i));
    assert(hits_any(paths, is_file, ys));
}

/// Whether `s` is one of `xs`.
pub fn contains_text(xs: &Vec<String>, s: &String) -> (found: bool)
    ensures
        found == strings_view(xs@).contains(s@),
{
    let n = xs.len();
    let mut i: usize = 0;
    while i < n
        invariant
            n == xs@.len(),
            i <= n,
            forall|j: int| 0 <= j < i ==> strings_view(xs@)[j] != s@,
        decreases n - i,
    {
        if xs[i].eq(s) {
            assert(strings_view(xs@)[i as int] == s@);
            return true;
        }
        i = i + 1;
    }
    false
}

/// Every extension in the filter holds a `.`, as `.rs` does. An
/// extension of a path never holds one, so such a filter never matches.
pub open spec fn all_dotted(exts: Seq<Seq<char>>) -> bool {
    forall|i: int| 0 <= i < exts.len() ==> (#[trigger] exts[i]).contains('.')
}

/// Whether a change to `path` triggers a command filtered on `exts`,
/// given whether `path` is a file.
pub fn path_triggers(path: &str, is_file: bool, exts: &Vec<String>) -> (b: bool)
    ensures
        b == (is_file && extension_wanted(path@, strings_view(exts@))),
        b ==> !extension_of(path@)->0.contains('.'),
{
    if !is_file {
        return false;
    }
    match path_extension(path) {
        Some(e) => contains_text(exts, &e),
        None => false,
    }
}

/// Whether a batch with the given paths triggers the command, given
/// for each path whether it is a file.
pub fn should_trigger(paths: &Vec<String>, is_file: &Vec<bool>, exts: &Option<Vec<String>>) -> (b:
    bool)
    ensures
        b == triggers(strings_view(paths@), is_file@, opt_strings_view(*exts)),
{
    match exts {
        None => true,
        Some(xs) => {
            let ghost pv = strings_view(paths@);
            let ghost xv = strings_view(xs@);
            let n = paths.len();
            let mut i: usize = 0;
            assert(opt_strings_view(*exts) == Some(xv));
            while i < n
                invariant
                    n == paths@.len(),
                    pv == strings_view(paths@),
                    xv == strings_view(xs@),
                    opt_strings_view(*exts) == Some(xv),
                    i <= n,
                    forall|j: int|
                        0 <= j < i ==> !(j < is_file@.len() && is_file@[j]
                            && #[trigger] extension_wanted(pv[j], xv)),
                decreases n - i,
            {
                if i < is_file.len() {
                    assert(pv[i as int] == paths@[i as int]@);
                    if path_triggers(paths[i].as_str(), is_file[i], xs) {
                        assert(path_hit(pv, is_file@, xv, i as int));
                        return true;
                    }
                }
                i = i + 1;
            }
            false
        },
    }
}

/// All paths of a batch of events, in order.
pub fn flatten_paths(events: &Vec<Vec<String>>) -> (paths: Vec<String>)
    ensures
        strings_view(paths@) == batch_paths(events@),
{
    let ghost ev = event_paths(events@);
    let mut paths: Vec<String> = Vec::new();
    let n = events.len();
    let mut i: usize = 0;
    while i < n
        invariant
            n == events@.len(),
            ev == event_paths(events@),
            i <= n,
            strings_view(paths@) == ev.take(i as int).flatten(),
        decreases n - i,
    {
        let event = &events[i];
        let m = event.len();
        let ghost start = strings_view(paths@);
        let mut j: usize = 0;
        while j < m
            invariant
                m == event@.len(),
                j <= m,
                strings_view(paths@) == start + strings_view(event@).take(j as int),
            decreases m - j,
        {
            let ghost before = strings_view(paths@);
            paths.push(event[j].clone());
            assert(strings_view(paths@) =~= before.push(event@[j as int]@));
            assert(strings_view(event@).take(j + 1) =~= strings_view(event@).take(j as int).push(
                event@[j as int]@,
            ));
            assert(strings_view(paths@) =~= start + strings_view(event@).take(j + 1));
            j = j + 1;
        }
        assert(strings_view(event@).take(m as int) =~= strings_view(event@));
        assert(ev.take(i + 1) =~= ev.take(i as int).push(ev[i as int]));
        proof {
            ev.take(i as int).lemma_flatten_push(ev[i as int]);
        }
        i = i + 1;
    }
    assert(ev.take(n as int) =~= ev);
    paths
}

/// Processes a batch of debounced file events for one watcher entry
/// and gives the event to send to the loop, if any.
///
/// An error batch gives nothing (the errors are the caller's to
/// report). Without an extension filter any batch gives the command.
/// With one, the paths are checked in order: the command is given as
/// soon as a path that is a file has one of the extensions. Whether a
/// path is a file is asked of the file system, so the contract says
/// what is returned for the answers that came back.
pub fn handle_events(
    result: EventBatch,
    name: Option<String>,
    exts: Option<Vec<String>>,
    command: String,
) -> (res: Option<WatchEvent>)
    ensures
        match result {
            Err(_) => res is None,
            Ok(events) => {
                &&& res is Some ==> res == Some(WatchEvent::Command { cmd: command, name: name })
                &&& (opt_strings_view(exts) matches Some(xv) && all_dotted(xv)) ==> res is None
                &&& opt_strings_view(exts) matches Some(xv) ==> exists|asked: Seq<bool>|
                    #[trigger] scanned_until_hit(batch_paths(events@), asked, xv) && (res is Some <==> (
                    asked.len() > 0 && path_hit(batch_paths(events@), asked, xv, asked.len() - 1)))
                &&& exists|is_file: Seq<bool>|
                    is_file.len() == batch_paths(events@).len() && (res is Some <==> triggers(
                        batch_paths(events@),
                        is_file,
                        opt_strings_view(exts),
                    ))
            },
        },
{
    match result {
        Err(_) => None,
        Ok(events) => {
            let paths = flatten_paths(&events);
            let ghost pv = strings_view(paths@);
            let mut answers: Vec<bool> = Vec::new();
            match &exts {
                None => {},
                Some(xs) => {
                    let ghost xv = strings_view(xs@);
                    let n = paths.len();
                    let mut i: usize = 0;
                    let mut hit = false;
                    while i < n && !hit
                        invariant
                            n == paths@.len(),
                            pv == strings_view(paths@),
                            xv == strings_view(xs@),
                            i <= n,
                            answers@.len() == i,
                            forall|j: int|
                                0 <= j < i ==> (answers@[j] && #[trigger] extension_wanted(pv[j], xv))
                                    ==> !extension_of(pv[j])->0.contains('.'),
                            forall|j: int| 0 <= j < i - 1 ==> !#[trigger] path_hit(pv, answers@, xv, j),
                            i > 0 ==> hit == path_hit(pv, answers@, xv, i - 1),
                            i == 0 ==> !hit,
                        decreases n - i,
                    {
                        let is_file = path_is_file(paths[i].as_str());
                        let ghost before = answers@;
                        answers.push(is_file);
                        assert(pv[i as int] == paths@[i as int]@);
                        assert forall|j: int| 0 <= j < i implies #[trigger] path_hit(pv, answers@, xv, j)
                            == path_hit(pv, before, xv, j) by {
                            assert(answers@[j] == before[j]);
                        }
                        hit = path_triggers(paths[i].as_str(), is_file, xs);
                        i = i + 1;
                    }
                    proof {
                        assert(scanned_until_hit(pv, answers@, xv));
                        if hits_any(pv, answers@, xv) {
                            let j = choose|j: int| #[trigger] path_hit(pv, answers@, xv, j);
                            assert(j == answers@.len() - 1);
                        }
                        if answers@.len() > 0 && path_hit(pv, answers@, xv, answers@.len() - 1) {
                            assert(hits_any(pv, answers@, xv));
                        }
                    }
                },
            }
            let triggered = should_trigger(&paths, &answers, &exts);
            // the paths not asked about count as not being files
            let ghost full = answers@ + Seq::new((pv.len() - answers@.len()) as nat, |j: int| false);
            proof {
                lemma_unasked_paths_do_not_trigger(pv, answers@, full, opt_strings_view(exts));
                if let Some(xv) = opt_strings_view(exts) {
                    if all_dotted(xv) && triggered {
                        let j = choose|j: int| #[trigger] path_hit(pv, answers@, xv, j);
                        let e = extension_of(pv[j])->0;
                        let k = choose|k: int| 0 <= k < xv.len() && xv[k] == e;
                        assert(xv[k].contains('.'));
                    }
                }
            }
            if triggered {
                Some(WatchEvent::Command { cmd: command, name })
            } else {
                None
            }
        },
    }
}

/// Answers marked `false` for paths that were not asked about change
/// nothing.
proof fn lemma_unasked_paths_do_not_trigger(
    paths: Seq<Seq<char>>,
    asked: Seq<bool>,
    full: Seq<bool>,
    exts: Option<Seq<Seq<char>>>,
)
    requires
        asked.len() <= paths.len(),
        full.len() == paths.len(),
        forall|j: int| 0 <= j < asked.len() ==> full[j] == asked[j],
        forall|j: int| asked.len() <= j < full.len() ==> !full[j],
    ensures
        triggers(paths, full, exts) == triggers(paths, asked, exts),
{
    if let Some(xs) = exts {
        assert forall|i: int| path_hit(paths, full, xs, i) == path_hit(paths, asked, xs, i) by {}
        if hits_any(paths, full, xs) {
            let i = choose|i: int| #[trigger] path_hit(paths, full, xs, i);
            assert(path_hit(paths, asked, xs, i));
        }
        if hits_any(paths, asked, xs) {
            let i = choose|i: int| #[trigger] path_hit(paths, asked, xs, i);
            assert(path_hit(paths, full, xs, i));
        }
    }
}

/// What the event loop does next.
#[derive(Debug)]
pub enum LoopAction {
    /// Run `cmd` through the shell and report its output under `name`.
    Run { cmd: String, name: Option<String> },
    /// Leave the loop: gracefully on a shutdown event (after printing
    /// [`SHUTDOWN_MESSAGE`]), silently where the channel was closed.
    Stop { graceful: bool },
}

/// Printed when the loop stops on a shutdown event.
pub const SHUTDOWN_MESSAGE: &'static str = "Shutting down gracefully...";

/// What the event loop does with what it received, `None` standing
/// for a closed channel: run a command, stop gracefully on a shutdown
/// event, stop silently on a closed channel.
pub open spec fn loop_action(received: Option<WatchEvent>) -> LoopAction {
    match received {
        Some(WatchEvent::Command { cmd, name }) => LoopAction::Run { cmd, name },
        Some(WatchEvent::Shutdown) => LoopAction::Stop { graceful: true },
        None => LoopAction::Stop { graceful: false },
    }
}

/// One step of the event loop: what to do with the event received,
/// `None` standing for a closed channel.
pub fn next_action(received: Option<WatchEvent>) -> (action: LoopAction)
    ensures
        action == loop_action(received),
{
    match received {
        Some(WatchEvent::Command { cmd, name }) => LoopAction::Run { cmd, name },
        Some(WatchEvent::Shutdown) => LoopAction::Stop { graceful: true },
        None => LoopAction::Stop { graceful: false },
    }
}

/// The actions the event loop takes when it receives `received` one
/// after another, taking [`next_action`] of each: up to and including
/// the first that stops it; nothing after that is read.
pub open spec fn loop_trace(received: Seq<Option<WatchEvent>>) -> Seq<LoopAction>
    decreases received.len(),
{
    if received.len() == 0 {
        Seq::empty()
    } else if loop_action(received[0]) is Stop {
        seq![loop_action(received[0])]
    } else {
        seq![loop_action(received[0])] + loop_trace(received.drop_first())
    }
}

/// What was received is a command.
pub open spec fn is_command(received: Option<WatchEvent>) -> bool {
    received matches Some(WatchEvent::Command { .. })
}

/// The event loop runs exactly the commands received before the first
/// shutdown event or closed channel, each once, in the order received
/// (the action for a command is to run it, under its entry's name),
/// and then stops: gracefully for a shutdown event, silently for a
/// closed channel; nothing after that is read. `k` is the position of
/// the first thing received that is not a command (the length, where
/// there is none).
pub proof fn lemma_event_loop(received: Seq<Option<WatchEvent>>, k: int)
    requires
        0 <= k <= received.len(),
        forall|j: int| 0 <= j < k ==> is_command(#[trigger] received[j]),
        k < received.len() ==> !is_command(received[k]),
    ensures
        loop_trace(received).len() == (if k < received.len() {
            k + 1
        } else {
            k
        }),
        forall|j: int|
            0 <= j < k ==> #[trigger] loop_trace(received)[j] == loop_action(received[j]),
        k < received.len() ==> loop_trace(received)[k] == loop_action(received[k]),
        k < received.len() ==> loop_trace(received)[k] is Stop,
    decreases k,
{
    if k > 0 {
        let rest = received.drop_first();
        assert forall|j: int| 0 <= j < k - 1 implies is_command(#[trigger] rest[j]) by {
            assert(rest[j] == received[j + 1]);
        }
        if k < received.len() {
            assert(rest[k - 1] == received[k]);
        }
        lemma_event_loop(rest, k - 1);
        assert(is_command(received[0]));
        let trace = loop_trace(received);
        assert(trace == seq![loop_action(received[0])] + loop_trace(rest));
        assert forall|j: int| 0 <= j < k implies #[trigger] trace[j] == loop_action(received[j]) by {
            if j > 0 {
                assert(rest[j - 1] == received[j]);
                assert(trace[j] == loop_trace(rest)[j - 1]);
            }
        }
        if k < received.len() {
            assert(trace[k] == loop_trace(rest)[k - 1]);
        }
    }
}

/// The program and arguments that run `cmd`: `sh -c cmd`, so that
/// shell syntax works in commands.
pub fn shell_command(cmd: &str) -> (invocation: (String, Vec<String>))
    ensures
        invocation.0@ == "sh"@,
        strings_view(invocation.1@) == seq!["-c"@, cmd@],
{
    let args = vec![String::from_str("-c"), String::from_str(cmd)];
    assert(strings_view(args@) =~= seq!["-c"@, cmd@]);
    (String::from_str("sh"), args)
}

} // verus!
