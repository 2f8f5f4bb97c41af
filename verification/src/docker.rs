use vstd::prelude::*;
use vstd::utf8::{decode_utf8, valid_utf8};

use crate::text::{replace_all, replace_str, str_from_utf8, trim, trim_str};

verus! {

/// What a finished docker command handed back: whether it exited successfully,
/// and what it wrote on its standard output.
pub struct CommandOutput {
    pub success: bool,
    pub stdout: Vec<u8>,
}

/// Why a docker step failed.
#[derive(Debug, PartialEq, Eq)]
pub enum ContainerError {
    /// `docker-compose up` did not exit successfully.
    ComposeFailed,
    /// `docker ps` did not exit successfully.
    IdLookupFailed,
    /// `docker inspect` did not exit successfully.
    PidLookupFailed,
    /// `docker stop` did not exit successfully.
    StopFailed,
    /// A command wrote output that is not UTF-8; the bytes it wrote.
    InvalidUtf8(Vec<u8>),
}

/// A [`ContainerError`] as a mathematical value.
pub enum ErrorView {
    ComposeFailed,
    IdLookupFailed,
    PidLookupFailed,
    StopFailed,
    InvalidUtf8(Seq<u8>),
}

impl View for ContainerError {
    type V = ErrorView;

    open spec fn view(&self) -> ErrorView {
        match self {
            ContainerError::ComposeFailed => ErrorView::ComposeFailed,
            ContainerError::IdLookupFailed => ErrorView::IdLookupFailed,
            ContainerError::PidLookupFailed => ErrorView::PidLookupFailed,
            ContainerError::StopFailed => ErrorView::StopFailed,
            ContainerError::InvalidUtf8(bytes) => ErrorView::InvalidUtf8(bytes@),
        }
    }
}

/// What a lookup is asked to find: the id of the log container alone, or its
/// id and the pid of its main process.
#[derive(Debug, Clone, Copy, PartialEq, Eq)]
pub enum LookupGoal {
    Id,
    IdAndPid,
}

/// The log container that a lookup found.
#[derive(Debug, PartialEq, Eq)]
pub struct FoundContainer {
    pub id: String,
    /// Present exactly when the goal was [`LookupGoal::IdAndPid`].
    pub pid: Option<String>,
}

/// Where a lookup stands. Each pending state names the command to run next:
/// `docker-compose up --build -d`, `docker ps -q`, or
/// `docker inspect --format='{{.State.Pid}}' <id>`.
#[derive(Debug, PartialEq, Eq)]
pub enum LookupState {
    AwaitCompose,
    AwaitIds,
    AwaitPid { id: String },
    Found(FoundContainer),
    Failed(ContainerError),
}

/// A [`LookupState`] as a mathematical value.
pub enum LookupView {
    AwaitCompose,
    AwaitIds,
    AwaitPid(Seq<char>),
    Found(Seq<char>, Option<Seq<char>>),
    Failed(ErrorView),
}

impl View for LookupState {
    type V = LookupView;

    open spec fn view(&self) -> LookupView {
        match self {
            LookupState::AwaitCompose => LookupView::AwaitCompose,
            LookupState::AwaitIds => LookupView::AwaitIds,
            LookupState::AwaitPid { id } => LookupView::AwaitPid(id@),
            LookupState::Found(f) => LookupView::Found(
                f.id@,
                match f.pid {
                    Some(p) => Some(p@),
                    None => None,
                },
            ),
            LookupState::Failed(e) => LookupView::Failed(e@),
        }
    }
}

impl LookupView {
    /// Whether the lookup still waits for a command's output.
    pub open spec fn is_pending(self) -> bool {
        self is AwaitCompose || self is AwaitIds || self is AwaitPid
    }
}

/// The text a successful command wrote, or the error of the step: `failure`
/// when the command failed, the invalid bytes when its output is not UTF-8.
pub open spec fn command_text(success: bool, stdout: Seq<u8>, failure: ErrorView) -> Result<
    Seq<char>,
    ErrorView,
> {
    if !success {
        Err(failure)
    } else if !valid_utf8(stdout) {
        Err(ErrorView::InvalidUtf8(stdout))
    } else {
        Ok(decode_utf8(stdout))
    }
}

/// `s` without any single quote.
pub open spec fn unquote(s: Seq<char>) -> Seq<char> {
    replace_all(s, seq!['\''], Seq::empty())
}

/// One step of the lookup: the state that follows `s` once the command that
/// `s` asked for has exited with `success` and written `stdout`.
pub open spec fn lookup_step(s: LookupView, goal: LookupGoal, success: bool, stdout: Seq<u8>) -> LookupView {
    match s {
        LookupView::AwaitCompose => if success {
            LookupView::AwaitIds
        } else {
            LookupView::Failed(ErrorView::ComposeFailed)
        },
        LookupView::AwaitIds => match command_text(success, stdout, ErrorView::IdLookupFailed) {
            Err(e) => LookupView::Failed(e),
            Ok(text) => match goal {
                LookupGoal::Id => LookupView::Found(trim(text), None),
                LookupGoal::IdAndPid => LookupView::AwaitPid(trim(text)),
            },
        },
        LookupView::AwaitPid(id) => match command_text(
            success,
            stdout,
            ErrorView::PidLookupFailed,
        ) {
            Err(e) => LookupView::Failed(e),
            Ok(text) => LookupView::Found(id, Some(unquote(trim(text)))),
        },
        _ => s,
    }
}

/// The state of a lookup that has been handed the outputs `outs`, in order,
/// from its start.
pub open spec fn lookup_run(goal: LookupGoal, outs: Seq<(bool, Seq<u8>)>) -> LookupView
    decreases outs.len(),
{
    if outs.len() == 0 {
        LookupView::AwaitCompose
    } else {
        let last = outs.last();
        lookup_step(lookup_run(goal, outs.drop_last()), goal, last.0, last.1)
    }
}

/// The number of commands a lookup runs when none fails: compose, ps, and
/// inspect when a pid is wanted.
pub open spec fn lookup_length(goal: LookupGoal) -> nat {
    match goal {
        LookupGoal::Id => 2,
        LookupGoal::IdAndPid => 3,
    }
}

/// Removing the quotes leaves none.
pub proof fn lemma_unquote_has_no_quote(s: Seq<char>)
    ensures
        !unquote(s).contains('\''),
    decreases s.len(),
{
    if s.len() >= 1 {
        lemma_unquote_has_no_quote(s.drop_first());
        assert(s.subrange(1, s.len() as int) == s.drop_first());
        let rest = unquote(s.drop_first());
        if s.subrange(0, 1) == seq!['\''] {
            assert(unquote(s) == Seq::<char>::empty() + rest);
            assert(unquote(s) == rest);
        } else {
            assert(s.subrange(0, 1) == seq![s[0]]);
            assert(s[0] != '\'');
            assert(unquote(s) == seq![s[0]] + rest);
            if unquote(s).contains('\'') {
                let i: int = choose|i: int| 0 <= i < unquote(s).len() && unquote(s)[i] == '\'';
                assert(rest[i - 1] == '\'');
            }
        }
    }
}

/// Removing the quotes removes the quotes and nothing else: what is left is
/// `s` with every `'` taken out, the other characters kept in order.
pub proof fn lemma_unquote_keeps_the_rest(s: Seq<char>)
    ensures
        unquote(s) == s.filter(|c: char| c != '\''),
    decreases s.len(),
{
    let pred = |c: char| c != '\'';
    if s.len() == 0 {
        reveal_with_fuel(Seq::filter, 1);
        assert(unquote(s) == s);
    } else {
        lemma_unquote_keeps_the_rest(s.drop_first());
        let head = seq![s[0]];
        assert(s =~= head + s.drop_first());
        Seq::filter_distributes_over_add(head, s.drop_first(), pred);
        reveal_with_fuel(Seq::filter, 2);
        assert(head.drop_last() =~= Seq::<char>::empty());
        assert(s.subrange(1, s.len() as int) == s.drop_first());
        if s[0] == '\'' {
            assert(s.subrange(0, 1) =~= seq!['\'']);
            assert(head.filter(pred) =~= Seq::<char>::empty());
            assert(unquote(s) == Seq::<char>::empty() + unquote(s.drop_first()));
            assert(unquote(s) =~= s.filter(pred));
        } else {
            assert(s.subrange(0, 1) =~= head);
            assert(head.filter(pred) =~= head);
            assert(unquote(s) == head + unquote(s.drop_first()));
        }
    }
}

/// A finished lookup stays finished, whatever outputs it is handed afterwards.
proof fn lemma_finished_stays(goal: LookupGoal, outs: Seq<(bool, Seq<u8>)>, k: int)
    requires
        0 <= k <= outs.len(),
        !lookup_run(goal, outs.subrange(0, k)).is_pending(),
    ensures
        lookup_run(goal, outs) == lookup_run(goal, outs.subrange(0, k)),
    decreases outs.len() - k,
{
    if k < outs.len() {
        assert(outs.subrange(0, k + 1).drop_last() == outs.subrange(0, k));
        assert(lookup_run(goal, outs.subrange(0, k + 1)) == lookup_run(goal, outs.subrange(0, k)));
        lemma_finished_stays(goal, outs, k + 1);
    } else {
        assert(outs.subrange(0, k) == outs);
    }
}

/// The state after the first outputs, step by step.
proof fn lemma_run_unfolds(goal: LookupGoal, outs: Seq<(bool, Seq<u8>)>)
    requires
        outs.len() >= 3,
    ensures
        lookup_run(goal, outs.subrange(0, 1)) == lookup_step(LookupView::AwaitCompose, goal, outs[0].0, outs[0].1),
        lookup_run(goal, outs.subrange(0, 2)) == lookup_step(lookup_run(goal, outs.subrange(0, 1)), goal, outs[1].0, outs[1].1),
        lookup_run(goal, outs.subrange(0, 3)) == lookup_step(lookup_run(goal, outs.subrange(0, 2)), goal, outs[2].0, outs[2].1),
{
    assert(outs.subrange(0, 1).drop_last() == outs.subrange(0, 0));
    assert(outs.subrange(0, 0).len() == 0);
    assert(lookup_run(goal, outs.subrange(0, 0)) == LookupView::AwaitCompose);
    assert(outs.subrange(0, 2).drop_last() == outs.subrange(0, 1));
    assert(outs.subrange(0, 3).drop_last() == outs.subrange(0, 2));
}

/// A lookup ends after at most [`lookup_length`] commands: once it has been
/// handed that many outputs it is finished, found or failed, and later outputs
/// change nothing. It finds the container only when every command it ran
/// succeeded and wrote UTF-8; the id is then the trimmed output of `docker ps`,
/// and the pid, present exactly when it was asked for, the trimmed output of
/// `docker inspect` without its quotes, which holds no quote.
pub proof fn lemma_lookup_outcome(goal: LookupGoal, outs: Seq<(bool, Seq<u8>)>)
    requires
        outs.len() >= lookup_length(goal),
    ensures
        !lookup_run(goal, outs).is_pending(),
        lookup_run(goal, outs) is Found <==> {
            &&& outs[0].0
            &&& outs[1].0
            &&& valid_utf8(outs[1].1)
            &&& goal == LookupGoal::IdAndPid ==> outs[2].0 && valid_utf8(outs[2].1)
        },
        lookup_run(goal, outs) matches LookupView::Found(id, pid) ==> {
            &&& id == trim(decode_utf8(outs[1].1))
            &&& goal == LookupGoal::Id ==> pid is None
            &&& goal == LookupGoal::IdAndPid ==> pid == Some(unquote(trim(decode_utf8(outs[2].1))))
            &&& pid matches Some(p) ==> !p.contains('\'')
        },
        !outs[0].0 ==> lookup_run(goal, outs) == LookupView::Failed(ErrorView::ComposeFailed),
        outs[0].0 && !outs[1].0 ==> lookup_run(goal, outs) == LookupView::Failed(ErrorView::IdLookupFailed),
        outs[0].0 && outs[1].0 && !valid_utf8(outs[1].1) ==> lookup_run(goal, outs) == LookupView::Failed(
            ErrorView::InvalidUtf8(outs[1].1),
        ),
        goal == LookupGoal::IdAndPid && outs[0].0 && outs[1].0 && valid_utf8(outs[1].1) && !outs[2].0
            ==> lookup_run(goal, outs) == LookupView::Failed(ErrorView::PidLookupFailed),
        goal == LookupGoal::IdAndPid && outs[0].0 && outs[1].0 && valid_utf8(outs[1].1) && outs[2].0
            && !valid_utf8(outs[2].1) ==> lookup_run(goal, outs) == LookupView::Failed(
            ErrorView::InvalidUtf8(outs[2].1),
        ),
{
    let padded = outs + seq![(false, Seq::<u8>::empty())];
    assert(padded.len() >= 3);
    lemma_run_unfolds(goal, padded);
    assert(padded.subrange(0, 1) == outs.subrange(0, 1));
    assert(padded.subrange(0, 2) == outs.subrange(0, 2));
    if goal == LookupGoal::IdAndPid {
        assert(padded.subrange(0, 3) == outs.subrange(0, 3));
    }
    assert(!lookup_run(goal, outs.subrange(0, 1)).is_pending() ==> !lookup_run(goal, outs.subrange(0, 2)).is_pending());
    if !lookup_run(goal, outs.subrange(0, 1)).is_pending() {
        lemma_finished_stays(goal, outs, 1);
    } else if !lookup_run(goal, outs.subrange(0, 2)).is_pending() {
        lemma_finished_stays(goal, outs, 2);
    } else {
        lemma_finished_stays(goal, outs, 3);
    }
    if lookup_run(goal, outs) matches LookupView::Found(id, Some(p)) {
        lemma_unquote_has_no_quote(trim(decode_utf8(outs[2].1)));
    }
}

/// The first state of every lookup: bring the compose project up.
pub fn lookup_start() -> (s: LookupState)
    ensures
        s@ == LookupView::AwaitCompose,
{
    LookupState::AwaitCompose
}

/// Reads what a successful command wrote as text; fails with `failure` when
/// the command failed, and with the bytes when they are not UTF-8.
fn command_output_text(out: CommandOutput, failure: ContainerError) -> (res: Result<String, ContainerError>)
    ensures
        match res {
            Ok(t) => command_text(out.success, out.stdout@, failure@) == Ok::<Seq<char>, ErrorView>(t@),
            Err(e) => command_text(out.success, out.stdout@, failure@) == Err::<Seq<char>, ErrorView>(e@),
        },
{
    if !out.success {
        return Err(failure);
    }
    let text = match str_from_utf8(out.stdout.as_slice()) {
        Ok(s) => s.to_owned(),
        Err(_) => {
            return Err(ContainerError::InvalidUtf8(out.stdout));
        },
    };
    Ok(text)
}

/// Advances the lookup with the output of the command that `state` asked for;
/// a finished lookup is returned as it is.
pub fn lookup_advance(state: LookupState, goal: LookupGoal, out: CommandOutput) -> (next: LookupState)
    ensures
        next@ == lookup_step(state@, goal, out.success, out.stdout@),
{
    let ghost success = out.success;
    let ghost stdout = out.stdout@;
    match state {
        LookupState::AwaitCompose => {
            if out.success {
                LookupState::AwaitIds
            } else {
                LookupState::Failed(ContainerError::ComposeFailed)
            }
        },
        LookupState::AwaitIds => {
            match command_output_text(out, ContainerError::IdLookupFailed) {
                Err(e) => LookupState::Failed(e),
                Ok(text) => {
                    let id = trim_str(text.as_str()).to_owned();
                    match goal {
                        LookupGoal::Id => LookupState::Found(FoundContainer { id, pid: None }),
                        LookupGoal::IdAndPid => LookupState::AwaitPid { id },
                    }
                },
            }
        },
        LookupState::AwaitPid { id } => {
            match command_output_text(out, ContainerError::PidLookupFailed) {
                Err(e) => LookupState::Failed(e),
                Ok(text) => {
                    let trimmed = trim_str(text.as_str());
                    proof {
                        reveal_strlit("'");
                        reveal_strlit("");
                    }
                    let pid = replace_str(trimmed, "'", "");
                    assert("'"@ == seq!['\'']);
                    assert(""@ == Seq::<char>::empty());
                    LookupState::Found(FoundContainer { id, pid: Some(pid) })
                },
            }
        },
        LookupState::Found(f) => LookupState::Found(f),
        LookupState::Failed(e) => LookupState::Failed(e),
    }
}

/// The outcome of `docker stop <id>`: the confirmation line when the command
/// succeeded, [`ContainerError::StopFailed`] otherwise.
pub fn stop_report(success: bool, id: &str) -> (res: Result<String, ContainerError>)
    ensures
        success ==> (res matches Ok(line) && line@ == "Contenedor detenido exitosamente: "@ + id@),
        !success ==> res == Err::<String, ContainerError>(ContainerError::StopFailed),
{
    if success {
        let mut line = "Contenedor detenido exitosamente: ".to_owned();
        line.append(id);
        Ok(line)
    } else {
        Err(ContainerError::StopFailed)
    }
}

} // verus!
