//! Starting and stopping a browser: everything but the system calls.

use vstd::prelude::*;

use crate::error::{Error, ErrorView};
use crate::text::{
    chars_of, concat, contains, find, find_chars, holds, is_white, lemma_contains_find,
    lemma_find_from, lemma_find_from_advance, lemma_trim_end_blanks, occurs_at, slice,
    string_views, trim, trim_start, trimmed,
};

verus! {

/// The argument that lets the browser pick a free debugging port.
pub const ANY_PORT_ARG: &'static str = "--remote-debugging-port=0";

/// The WebSocket URL that a line of the browser's error output announces.
pub open spec fn announced_url(line: Seq<char>) -> Option<Seq<char>> {
    if contains(line, "DevTools listening on"@) {
        match find(line, "ws://"@) {
            Some(at) => Some(trim(line.skip(at))),
            None => None,
        }
    } else {
        None
    }
}

/// The WebSocket URL that a line of the browser's error output announces.
pub fn devtools_url(line: &str) -> (r: Option<String>)
    ensures
        match r {
            Some(url) => announced_url(line@) == Some(url@),
            None => announced_url(line@) is None,
        },
{
    if !holds(line, "DevTools listening on") {
        return None;
    }
    let chars = chars_of(line);
    let start = chars_of("ws://");
    match find_chars(&chars, &start, 0) {
        Some(at) => {
            proof {
                lemma_find_from(line@, "ws://"@, 0);
            }
            let rest = slice(&chars, at, chars.len());
            assert(rest@ =~= line@.skip(at as int));
            Some(trimmed(rest.as_str()).to_string())
        },
        None => None,
    }
}

/// The arguments to start the browser with, the one for its port last.
pub fn with_any_port(args: &Vec<String>) -> (all: Vec<String>)
    ensures
        string_views(all@) == string_views(args@).push(ANY_PORT_ARG@),
        string_views(all@).last() == "--remote-debugging-port=0"@,
{
    let mut all: Vec<String> = Vec::new();
    let mut i: usize = 0;
    while i < args.len()
        invariant
            i <= args.len(),
            string_views(all@) == string_views(args@).take(i as int),
        decreases args.len() - i,
    {
        let ghost before = all@;
        all.push(args[i].clone());
        proof {
            assert(string_views(all@) =~= string_views(before).push(args@[i as int]@));
            assert(string_views(args@).take(i + 1) =~= string_views(args@).take(i as int).push(
                args@[i as int]@,
            ));
        }
        i = i + 1;
    }
    let ghost before = all@;
    all.push(ANY_PORT_ARG.to_string());
    assert(string_views(all@) =~= string_views(before).push(ANY_PORT_ARG@));
    assert(string_views(args@).take(args@.len() as int) =~= string_views(args@));
    all
}

/// The error of a browser that did not start.
pub fn spawn_failed(cause: &str) -> (e: Error)
    ensures
        e@ == ErrorView::Launch("Failed to launch Chrome: "@ + cause@),
{
    Error::Launch(concat("Failed to launch Chrome: ", cause))
}

/// The error of a browser whose error output cannot be read.
pub fn no_stderr() -> (e: Error)
    ensures
        e@ == ErrorView::Launch("No stderr from Chrome"@),
{
    Error::Launch("No stderr from Chrome".to_string())
}

/// The error of a browser that announced no URL.
pub fn no_url(cause: &str) -> (e: Error)
    ensures
        e@ == ErrorView::Launch("Failed waiting for Chrome DevTools URL: "@ + cause@),
{
    Error::Launch(concat("Failed waiting for Chrome DevTools URL: ", cause))
}

/// The error of a browser process that was already handed on.
pub fn child_taken() -> (e: Error)
    ensures
        e@ == ErrorView::Transport("Chrome child ownership was already transferred"@),
{
    Error::transport("Chrome child ownership was already transferred")
}

/// How far the stopping of a process has come. `E` is what a failed system call
/// leaves behind.
pub enum Stopping<E> {
    /// It was asked whether the process still runs.
    Asked,
    /// It was told to end.
    Killed,
    /// Telling it failed, and it was asked again whether it still runs.
    AskedAgain(E),
    /// Its end was waited for.
    Waited,
}

/// What the last system call on the process said.
pub enum ChildReport<E> {
    /// The process still runs.
    Running,
    /// The process has ended, or the call did what it should.
    Done,
    /// The call failed.
    Failed(E),
}

/// What to do next to stop a process.
pub enum StopStep<E> {
    /// Nothing: it has ended.
    Stopped,
    /// Give up.
    GiveUp(E),
    /// Tell it to end.
    Kill,
    /// Ask again whether it still runs, keeping why it could not be told to end.
    AskAgain(E),
    /// Wait for its end.
    Wait,
}

/// What to do next to stop a process: one that has ended is no error, one that
/// can neither be told to end nor has ended is.
pub open spec fn next_stop<E>(at: Stopping<E>, report: ChildReport<E>) -> StopStep<E> {
    match (at, report) {
        (Stopping::Asked, ChildReport::Running) => StopStep::Kill,
        (Stopping::Asked, ChildReport::Done) => StopStep::Stopped,
        (Stopping::Killed, ChildReport::Failed(e)) => StopStep::AskAgain(e),
        (Stopping::Killed, _) => StopStep::Wait,
        (Stopping::AskedAgain(kill_error), ChildReport::Running) => StopStep::GiveUp(kill_error),
        (Stopping::AskedAgain(_), ChildReport::Done) => StopStep::Stopped,
        (Stopping::Waited, ChildReport::Running) => StopStep::Stopped,
        (Stopping::Waited, ChildReport::Done) => StopStep::Stopped,
        (_, ChildReport::Failed(e)) => StopStep::GiveUp(e),
    }
}

/// What to do next to stop a process.
pub fn stop_child<E>(at: Stopping<E>, report: ChildReport<E>) -> (step: StopStep<E>)
    ensures
        step == next_stop(at, report),
{
    match (at, report) {
        (Stopping::Asked, ChildReport::Running) => StopStep::Kill,
        (Stopping::Asked, ChildReport::Done) => StopStep::Stopped,
        (Stopping::Killed, ChildReport::Failed(e)) => StopStep::AskAgain(e),
        (Stopping::Killed, _) => StopStep::Wait,
        (Stopping::AskedAgain(kill_error), ChildReport::Running) => StopStep::GiveUp(kill_error),
        (Stopping::AskedAgain(_), ChildReport::Done) => StopStep::Stopped,
        (Stopping::Waited, ChildReport::Running) => StopStep::Stopped,
        (Stopping::Waited, ChildReport::Done) => StopStep::Stopped,
        (_, ChildReport::Failed(e)) => StopStep::GiveUp(e),
    }
}

/// A line that says where the browser listens announces just that URL, whatever
/// stands before it and whatever blanks stand behind it.
pub proof fn law_announced_url(before: Seq<char>, rest: Seq<char>, blanks: Seq<char>)
    requires
        !contains(before + "DevTools listening on "@, "ws://"@),
        forall|k: int| 0 <= k < rest.len() ==> !is_white(#[trigger] rest[k]),
        forall|k: int| 0 <= k < blanks.len() ==> is_white(#[trigger] blanks[k]),
    ensures
        announced_url(before + "DevTools listening on "@ + ("ws://"@ + rest) + blanks) == Some(
            "ws://"@ + rest,
        ),
{
    reveal_strlit("ws://");
    reveal_strlit("DevTools listening on ");
    reveal_strlit("DevTools listening on");
    let head = before + "DevTools listening on "@;
    let url = "ws://"@ + rest;
    let line = head + url + blanks;
    let n = head.len() as int;
    let b = before.len() as int;
    assert(line.subrange(b, b + 21) =~= "DevTools listening on"@);
    assert(occurs_at(line, "DevTools listening on"@, b));
    assert forall|k: int| 0 <= k < n implies !occurs_at(line, "ws://"@, k) by {
        if occurs_at(line, "ws://"@, k) {
            let found = line.subrange(k, k + 5);
            if k + 5 <= n {
                assert(head.subrange(k, k + 5) =~= found);
                assert(occurs_at(head, "ws://"@, k));
            } else {
                assert(found[n - k] == 'w');
            }
        }
    }
    lemma_find_from_advance(line, "ws://"@, 0, n);
    assert(line.subrange(n, n + 5) =~= "ws://"@);
    assert(occurs_at(line, "ws://"@, n));
    assert(line.skip(n) =~= url + blanks);
    assert forall|k: int| 0 <= k < url.len() implies !is_white(#[trigger] url[k]) by {
        if k >= 5 {
            assert(!is_white(rest[k - 5]));
        }
    }
    assert(trim_start(url + blanks) == url + blanks);
    lemma_trim_end_blanks(url, blanks);
}

/// A line without the browser's own words announces nothing, and neither does one
/// without a URL.
pub proof fn law_other_lines_announce_nothing(line: Seq<char>)
    requires
        !contains(line, "DevTools listening on"@) || !contains(line, "ws://"@),
    ensures
        announced_url(line) is None,
{
    lemma_contains_find(line, "ws://"@);
}

/// To stop a process it is told to end exactly where it still runs, and its end is
/// waited for where it could be told. One that has ended in the meantime is stopped.
/// One that could not be told and still runs is given up, with the reason why it
/// could not be told.
pub proof fn law_process_is_stopped<E>(why: E)
    ensures
        next_stop(Stopping::<E>::Asked, ChildReport::Running) == StopStep::<E>::Kill,
        next_stop(Stopping::<E>::Asked, ChildReport::Done) == StopStep::<E>::Stopped,
        next_stop(Stopping::<E>::Asked, ChildReport::Failed(why)) == StopStep::GiveUp(why),
        next_stop(Stopping::<E>::Killed, ChildReport::Done) == StopStep::<E>::Wait,
        next_stop(Stopping::<E>::Killed, ChildReport::Failed(why)) == StopStep::AskAgain(why),
        next_stop(Stopping::<E>::AskedAgain(why), ChildReport::Done) == StopStep::<E>::Stopped,
        next_stop(Stopping::<E>::AskedAgain(why), ChildReport::Running) == StopStep::GiveUp(why),
        next_stop(Stopping::<E>::Waited, ChildReport::Done) == StopStep::<E>::Stopped,
        next_stop(Stopping::<E>::Waited, ChildReport::Failed(why)) == StopStep::GiveUp(why),
{
}

} // verus!
