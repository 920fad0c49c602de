//! What holds of the pipeline executor on every pipeline and whatever the
//! driver answers, stated over its specification and proved.

use crate::executor::{
    advance, cd_target, echo_text, finished, handle_in, is_builtin, leaves_processes_alone,
    no_commands, only_builtins, phase_after, report, run, stage_action, start, step, steps_left,
    ActionView, ExecutorView, OutcomeView, Phase, Sink, Source,
};
use crate::split_laws::{lemma_blank_line, lemma_line_without_separator};
use crate::splitter::{parse_line, separator_at, tokens, StageView};
use crate::text::all_spaces;
use vstd::prelude::*;

verus! {

/// Taking up the pipeline leaves the working directory and the stages as
/// they are, hands out no handle but the one it was given, and leaves at
/// most two steps for each stage that it has not passed, and one more to
/// wait for the handle.
pub proof fn lemma_advance<H>(
    stages: Seq<Option<StageView>>,
    dir: Seq<char>,
    next: int,
    carried: Option<H>,
)
    requires
        0 <= next,
    ensures
        advance(stages, dir, next, carried).dir == dir,
        advance(stages, dir, next, carried).state.stages == stages,
        advance(stages, dir, next, carried).state.next >= next,
        advance(stages, dir, next, carried).state.phase == phase_after(
            advance(stages, dir, next, carried).action,
        ),
        handle_in(advance(stages, dir, next, carried).action) is Some ==> handle_in(
            advance(stages, dir, next, carried).action,
        ) == carried,
        steps_left(advance(stages, dir, next, carried).state) <= 2 * (if next < stages.len() {
            stages.len() - next
        } else {
            0
        }) + (if carried is Some {
            1int
        } else {
            0int
        }),
    decreases stages.len() - next,
{
    if next < stages.len() {
        match stages[next] {
            None => {
                lemma_advance::<H>(stages, dir, next + 1, None);
            },
            Some(stage) => {},
        }
    }
}

/// Each step brings the executor nearer to its end: whatever the outcome,
/// the bound on the steps that are left goes down, until it is zero.
pub proof fn lemma_step_makes_progress<H>(
    state: ExecutorView,
    dir: Seq<char>,
    outcome: OutcomeView<H>,
)
    requires
        0 <= state.next,
    ensures
        step(state, dir, outcome).state.stages == state.stages,
        step(state, dir, outcome).state.next >= state.next,
        finished(state) ==> step(state, dir, outcome).state == state,
        !finished(state) ==> steps_left(step(state, dir, outcome).state) < steps_left(state),
{
    lemma_advance::<H>(state.stages, dir, state.next, None);
    match outcome {
        OutcomeView::Moved { dir: now } => {
            lemma_advance::<H>(state.stages, now, state.next, None);
        },
        OutcomeView::Launched { handle } => {
            lemma_advance(state.stages, dir, state.next, Some(handle));
        },
        _ => {},
    }
}

/// The executor finishes: after as many steps as [`steps_left`] tells,
/// whatever their outcomes, it has asked to quit or to prompt, and it stays
/// there.
pub proof fn lemma_run_finishes<H>(
    state: ExecutorView,
    dir: Seq<char>,
    outcomes: Seq<OutcomeView<H>>,
)
    requires
        0 <= state.next,
    ensures
        run(state, dir, outcomes).state.stages == state.stages,
        run(state, dir, outcomes).state.next >= state.next,
        run(state, dir, outcomes).actions.len() == outcomes.len(),
        steps_left(run(state, dir, outcomes).state) + outcomes.len() <= steps_left(state)
            || finished(run(state, dir, outcomes).state),
        outcomes.len() >= steps_left(state) ==> finished(run(state, dir, outcomes).state),
    decreases outcomes.len(),
{
    if outcomes.len() > 0 {
        lemma_run_finishes(state, dir, outcomes.drop_last());
        let before = run(state, dir, outcomes.drop_last());
        lemma_step_makes_progress(before.state, before.dir, outcomes.last());
    }
}

/// A pipeline of `n` positions is done within `2 n + 1` steps.
pub proof fn lemma_pipeline_finishes<H>(
    stages: Seq<Option<StageView>>,
    dir: Seq<char>,
    outcomes: Seq<OutcomeView<H>>,
)
    requires
        outcomes.len() >= 2 * stages.len() + 1,
    ensures
        finished(run(start(stages), dir, outcomes).state),
{
    lemma_run_finishes(start(stages), dir, outcomes);
}

/// The working directory changes in one way only: the executor has asked for
/// a change of directory and hears that the directory is now another.
pub proof fn lemma_only_cd_moves<H>(state: ExecutorView, dir: Seq<char>, outcome: OutcomeView<H>)
    requires
        0 <= state.next,
    ensures
        step(state, dir, outcome).dir == if state.phase == Phase::Moving && outcome is Moved {
            outcome->Moved_dir
        } else {
            dir
        },
{
    lemma_advance::<H>(state.stages, dir, state.next, None);
    match outcome {
        OutcomeView::Moved { dir: now } => {
            lemma_advance::<H>(state.stages, now, state.next, None);
        },
        OutcomeView::Launched { handle } => {
            lemma_advance(state.stages, dir, state.next, Some(handle));
        },
        _ => {},
    }
}

/// A change of directory that fails leaves the working directory as it was
/// and is reported once: the next action is the report, and the one after it
/// belongs to the stage that follows.
pub proof fn lemma_failed_cd<H>(
    state: ExecutorView,
    dir: Seq<char>,
    message: Seq<char>,
    then: OutcomeView<H>,
)
    requires
        state.phase == Phase::Moving,
        0 <= state.next,
    ensures
        step::<H>(state, dir, OutcomeView::Failed { message }).dir == dir,
        step::<H>(state, dir, OutcomeView::Failed { message }).action == (ActionView::<
            H,
        >::Report { message }),
        step(step::<H>(state, dir, OutcomeView::Failed { message }).state, dir, then) == advance::<
            H,
        >(state.stages, dir, state.next, None),
        !(advance::<H>(state.stages, dir, state.next, None).action is Report),
{
    lemma_advance_never_reports::<H>(state.stages, dir, state.next, None);
}

/// Taking up the pipeline never asks for a report.
pub proof fn lemma_advance_never_reports<H>(
    stages: Seq<Option<StageView>>,
    dir: Seq<char>,
    next: int,
    carried: Option<H>,
)
    ensures
        !(advance(stages, dir, next, carried).action is Report),
    decreases stages.len() - next,
{
    if 0 <= next < stages.len() {
        match stages[next] {
            None => {
                lemma_advance_never_reports::<H>(stages, dir, next + 1, None);
            },
            Some(stage) => {},
        }
    }
}

/// Changing to the directory that the session is in already leaves the
/// session as it is, however often it is done: if every change of
/// directory that is confirmed names `dir`, the working directory after any
/// run of steps is `dir`.
pub proof fn lemma_moving_nowhere<H>(
    state: ExecutorView,
    dir: Seq<char>,
    outcomes: Seq<OutcomeView<H>>,
)
    requires
        0 <= state.next,
        forall|i: int|
            0 <= i < outcomes.len() && #[trigger] outcomes[i] is Moved ==> outcomes[i]->Moved_dir
                == dir,
    ensures
        run(state, dir, outcomes).dir == dir,
    decreases outcomes.len(),
{
    if outcomes.len() > 0 {
        let head = outcomes.drop_last();
        assert forall|i: int| 0 <= i < head.len() && #[trigger] head[i] is Moved implies head[i]->Moved_dir
            == dir by {
            assert(head[i] == outcomes[i]);
        }
        lemma_moving_nowhere(state, dir, head);
        lemma_run_finishes(state, dir, head);
        let before = run(state, dir, head);
        lemma_only_cd_moves(before.state, before.dir, outcomes.last());
    }
}

/// A handle never stays in the executor and never comes from it: an action
/// passes a handle to the driver only in answer to the launch that made it.
pub proof fn lemma_handles_pass_through<H>(
    state: ExecutorView,
    dir: Seq<char>,
    outcome: OutcomeView<H>,
)
    requires
        0 <= state.next,
    ensures
        handle_in(step(state, dir, outcome).action) matches Some(handle) ==> state.phase
            == Phase::Launching && outcome == (OutcomeView::Launched { handle }),
{
    lemma_advance::<H>(state.stages, dir, state.next, None);
    match outcome {
        OutcomeView::Moved { dir: now } => {
            lemma_advance::<H>(state.stages, now, state.next, None);
        },
        OutcomeView::Launched { handle } => {
            lemma_advance(state.stages, dir, state.next, Some(handle));
        },
        _ => {},
    }
}

/// A launch that fails is reported and cuts the pipeline in two: the stage
/// that follows is taken up as if it were the first, so that it reads the
/// interactive input where it is launched, and runs whatever became of the
/// stage before it.
pub proof fn lemma_failed_launch_is_isolated<H>(
    state: ExecutorView,
    dir: Seq<char>,
    message: Seq<char>,
    then: OutcomeView<H>,
)
    requires
        state.phase == Phase::Launching,
        0 <= state.next,
    ensures
        step::<H>(state, dir, OutcomeView::Failed { message }) == report::<H>(state, dir, message),
        step(report::<H>(state, dir, message).state, dir, then) == advance::<H>(
            state.stages,
            dir,
            state.next,
            None,
        ),
        handle_in(advance::<H>(state.stages, dir, state.next, None).action) is None,
        state.next < state.stages.len() ==> match state.stages[state.next] {
            Some(stage) => advance::<H>(state.stages, dir, state.next, None).action
                == stage_action::<H>(stage, None, state.next + 1 == state.stages.len()),
            None => true,
        },
{
    lemma_advance::<H>(state.stages, dir, state.next, None);
}


/// A run of at least one step is its first step, followed by the run on the
/// outcomes that are left.
pub proof fn lemma_run_first<H>(state: ExecutorView, dir: Seq<char>, outcomes: Seq<OutcomeView<H>>)
    requires
        outcomes.len() > 0,
    ensures
        run(state, dir, outcomes).state == run(
            step(state, dir, outcomes[0]).state,
            step(state, dir, outcomes[0]).dir,
            outcomes.drop_first(),
        ).state,
        run(state, dir, outcomes).dir == run(
            step(state, dir, outcomes[0]).state,
            step(state, dir, outcomes[0]).dir,
            outcomes.drop_first(),
        ).dir,
        run(state, dir, outcomes).actions == seq![step(state, dir, outcomes[0]).action] + run(
            step(state, dir, outcomes[0]).state,
            step(state, dir, outcomes[0]).dir,
            outcomes.drop_first(),
        ).actions,
    decreases outcomes.len(),
{
    let first = step(state, dir, outcomes[0]);
    let rest = outcomes.drop_first();
    let head = outcomes.drop_last();
    if outcomes.len() == 1 {
        assert(head.len() == 0 && rest.len() == 0);
        assert(run(state, dir, head).actions =~= Seq::<ActionView<H>>::empty());
        assert(run(first.state, first.dir, rest).actions =~= Seq::<ActionView<H>>::empty());
        assert(outcomes.last() == outcomes[0]);
        assert(run(state, dir, outcomes).actions =~= seq![first.action] + run(
            first.state,
            first.dir,
            rest,
        ).actions);
    } else {
        lemma_run_first(state, dir, head);
        assert(head[0] == outcomes[0]);
        assert(head.drop_first() =~= rest.drop_last());
        assert(rest.last() == outcomes.last());
        let before = run(first.state, first.dir, rest.drop_last());
        assert(run(state, dir, head).state == before.state);
        assert(run(state, dir, head).dir == before.dir);
        assert(run(state, dir, outcomes).actions =~= seq![first.action] + run(
            first.state,
            first.dir,
            rest,
        ).actions);
    }
}

/// An executor that has finished stays as it is and repeats its last word.
pub proof fn lemma_finished_run<H>(
    state: ExecutorView,
    dir: Seq<char>,
    outcomes: Seq<OutcomeView<H>>,
)
    requires
        finished(state),
    ensures
        run(state, dir, outcomes).state == state,
        run(state, dir, outcomes).dir == dir,
        run(state, dir, outcomes).actions.len() == outcomes.len(),
        forall|i: int|
            0 <= i < outcomes.len() ==> #[trigger] run(state, dir, outcomes).actions[i] == (
            if state.phase == Phase::Stopped {
                ActionView::<H>::Quit
            } else {
                ActionView::<H>::Prompt
            }),
    decreases outcomes.len(),
{
    if outcomes.len() > 0 {
        lemma_finished_run(state, dir, outcomes.drop_last());
    }
}

/// Taking up a pipeline of built-ins asks for a built-in's action or for the
/// prompt, and for nothing that concerns a process.
pub proof fn lemma_advance_builtins<H>(stages: Seq<Option<StageView>>, dir: Seq<char>, next: int)
    requires
        only_builtins(stages),
    ensures
        leaves_processes_alone(advance::<H>(stages, dir, next, None).action),
        advance::<H>(stages, dir, next, None).state.phase != Phase::Launching,
        advance::<H>(stages, dir, next, None).state.stages == stages,
    decreases stages.len() - next,
{
    if 0 <= next < stages.len() {
        match stages[next] {
            None => {
                lemma_advance_builtins::<H>(stages, dir, next + 1);
            },
            Some(stage) => {},
        }
    }
}

/// A pipeline of built-ins never has a program launched, nor a process
/// waited for, whatever the driver answers.
pub proof fn lemma_builtins_never_launch<H>(
    state: ExecutorView,
    dir: Seq<char>,
    outcomes: Seq<OutcomeView<H>>,
)
    requires
        only_builtins(state.stages),
        state.phase != Phase::Launching,
    ensures
        run(state, dir, outcomes).state.stages == state.stages,
        run(state, dir, outcomes).state.phase != Phase::Launching,
        run(state, dir, outcomes).actions.len() == outcomes.len(),
        forall|i: int|
            0 <= i < outcomes.len() ==> leaves_processes_alone(
                #[trigger] run(state, dir, outcomes).actions[i],
            ),
    decreases outcomes.len(),
{
    if outcomes.len() > 0 {
        lemma_builtins_never_launch(state, dir, outcomes.drop_last());
        let before = run(state, dir, outcomes.drop_last());
        lemma_advance_builtins::<H>(before.state.stages, before.dir, before.state.next);
        match outcomes.last() {
            OutcomeView::Moved { dir: now } => {
                lemma_advance_builtins::<H>(before.state.stages, now, before.state.next);
            },
            _ => {},
        }
    }
}

/// A line without a separator that names a built-in has exactly that
/// built-in's effect. The first action is the built-in's: the change to the
/// directory that `cd` names, or to the root without an argument; the text
/// that `echo` prints; the end of the interpreter for `exit`. What follows is
/// the report of a change of directory that failed, if it did, and then the
/// prompt, or the end again after `exit`. No program is launched.
pub proof fn lemma_builtin_line<H>(line: Seq<char>, dir: Seq<char>, outcomes: Seq<OutcomeView<H>>)
    requires
        forall|i: int| !separator_at(line, i),
        tokens(line).len() > 0,
        is_builtin(tokens(line)[0]),
    ensures
        parse_line(line) == seq![
            Some(StageView { command: tokens(line)[0], args: tokens(line).skip(1) }),
        ],
        run(start(parse_line(line)), dir, outcomes).actions.len() == outcomes.len(),
        outcomes.len() > 0 ==> run(start(parse_line(line)), dir, outcomes).actions[0] == (
        if tokens(line)[0] == "cd"@ {
            ActionView::<H>::ChangeDir { dir: cd_target(tokens(line).skip(1)) }
        } else if tokens(line)[0] == "echo"@ {
            ActionView::<H>::Print { text: echo_text(tokens(line).skip(1)) }
        } else {
            ActionView::<H>::Quit
        }),
        forall|i: int|
            1 <= i < outcomes.len() ==> #[trigger] run(
                start(parse_line(line)),
                dir,
                outcomes,
            ).actions[i] == (if tokens(line)[0] == "exit"@ {
                ActionView::<H>::Quit
            } else if i == 1 && tokens(line)[0] == "cd"@ && outcomes[1] is Failed {
                ActionView::<H>::Report { message: outcomes[1]->Failed_message }
            } else {
                ActionView::<H>::Prompt
            }),
{
    reveal_strlit("cd");
    reveal_strlit("echo");
    reveal_strlit("exit");
    assert("cd"@.len() == 2 && "echo"@.len() == 4 && "exit"@.len() == 4);
    assert("echo"@[1] == 'c' && "exit"@[1] == 'x');
    lemma_line_without_separator(line);
    let stage = StageView { command: tokens(line)[0], args: tokens(line).skip(1) };
    let stages = parse_line(line);
    assert(stages[0] == Some(stage));
    lemma_run_finishes(start(stages), dir, outcomes);
    if outcomes.len() > 0 {
        lemma_run_first(start(stages), dir, outcomes);
        let first = step(start(stages), dir, outcomes[0]);
        let rest = outcomes.drop_first();
        let after = run(first.state, first.dir, rest);
        assert(first.action == stage_action::<H>(stage, None, true));
        assert forall|i: int| 1 <= i < outcomes.len() implies #[trigger] run(
            start(stages),
            dir,
            outcomes,
        ).actions[i] == (if tokens(line)[0] == "exit"@ {
            ActionView::<H>::Quit
        } else if i == 1 && tokens(line)[0] == "cd"@ && outcomes[1] is Failed {
            ActionView::<H>::Report { message: outcomes[1]->Failed_message }
        } else {
            ActionView::<H>::Prompt
        }) by {
            lemma_run_finishes(first.state, first.dir, rest);
            assert(run(start(stages), dir, outcomes).actions[i] == after.actions[i - 1]);
            if finished(first.state) {
                lemma_finished_run(first.state, first.dir, rest);
            } else {
                lemma_run_first(first.state, first.dir, rest);
                let second = step(first.state, first.dir, rest[0]);
                let tail = rest.drop_first();
                let later = run(second.state, second.dir, tail);
                lemma_run_finishes(second.state, second.dir, tail);
                assert(rest[0] == outcomes[1]);
                if i > 1 {
                    assert(after.actions[i - 1] == later.actions[i - 2]);
                    if finished(second.state) {
                        lemma_finished_run(second.state, second.dir, tail);
                    } else {
                        lemma_run_first(second.state, second.dir, tail);
                        let third = step(second.state, second.dir, tail[0]);
                        let last = run(third.state, third.dir, tail.drop_first());
                        lemma_finished_run(third.state, third.dir, tail.drop_first());
                        if i > 2 {
                            assert(later.actions[i - 2] == last.actions[i - 3]);
                        }
                    }
                }
            }
        }
    }
}

/// Taking up a pipeline without a command asks for the prompt at once.
pub proof fn lemma_advance_no_commands<H>(
    stages: Seq<Option<StageView>>,
    dir: Seq<char>,
    next: int,
)
    requires
        no_commands(stages),
    ensures
        advance::<H>(stages, dir, next, None).action == ActionView::<H>::Prompt,
        advance::<H>(stages, dir, next, None).state.phase == Phase::Idle,
        advance::<H>(stages, dir, next, None).dir == dir,
    decreases stages.len() - next,
{
    if 0 <= next < stages.len() {
        lemma_advance_no_commands::<H>(stages, dir, next + 1);
    }
}

/// A pipeline without a command does nothing: every action asked for is the
/// prompt, and the working directory stays as it is. Nothing is launched,
/// printed or reported.
pub proof fn lemma_no_commands_no_action<H>(
    stages: Seq<Option<StageView>>,
    dir: Seq<char>,
    outcomes: Seq<OutcomeView<H>>,
)
    requires
        no_commands(stages),
    ensures
        run(start(stages), dir, outcomes).dir == dir,
        run(start(stages), dir, outcomes).actions.len() == outcomes.len(),
        forall|i: int|
            0 <= i < outcomes.len() ==> #[trigger] run(start(stages), dir, outcomes).actions[i]
                == ActionView::<H>::Prompt,
{
    lemma_run_finishes(start(stages), dir, outcomes);
    if outcomes.len() > 0 {
        lemma_run_first(start(stages), dir, outcomes);
        lemma_advance_no_commands::<H>(stages, dir, 0);
        let first = step(start(stages), dir, outcomes[0]);
        lemma_finished_run(first.state, first.dir, outcomes.drop_first());
        assert forall|i: int| 0 <= i < outcomes.len() implies #[trigger] run(
            start(stages),
            dir,
            outcomes,
        ).actions[i] == ActionView::<H>::Prompt by {
            if i > 0 {
                assert(run(start(stages), dir, outcomes).actions[i] == run(
                    first.state,
                    first.dir,
                    outcomes.drop_first(),
                ).actions[i - 1]);
            }
        }
    }
}

/// A line of nothing but white space does nothing: no program is launched
/// and nothing is printed.
pub proof fn lemma_blank_line_no_action<H>(
    line: Seq<char>,
    dir: Seq<char>,
    outcomes: Seq<OutcomeView<H>>,
)
    requires
        all_spaces(line),
    ensures
        run(start(parse_line(line)), dir, outcomes).dir == dir,
        forall|i: int|
            0 <= i < outcomes.len() ==> #[trigger] run(
                start(parse_line(line)),
                dir,
                outcomes,
            ).actions[i] == ActionView::<H>::Prompt,
{
    lemma_blank_line(line);
    lemma_no_commands_no_action(parse_line(line), dir, outcomes);
}

/// The output of a launched stage becomes the input of the stage that
/// follows it: where that stage names a program, it is launched reading
/// from the handle just made, and writing to a pipe unless it is the last.
/// After the last stage the handle is waited for.
pub proof fn lemma_launched_feeds_next<H>(state: ExecutorView, dir: Seq<char>, handle: H)
    requires
        state.phase == Phase::Launching,
        0 <= state.next,
    ensures
        state.next >= state.stages.len() ==> step(
            state,
            dir,
            OutcomeView::Launched { handle },
        ).action == (ActionView::Wait { handle }),
        state.next < state.stages.len() ==> match state.stages[state.next] {
            Some(stage) => !is_builtin(stage.command) ==> step(
                state,
                dir,
                OutcomeView::Launched { handle },
            ).action == (ActionView::Launch {
                program: stage.command,
                args: stage.args,
                input: Source::Previous(handle),
                output: if state.next + 1 == state.stages.len() {
                    Sink::Interactive
                } else {
                    Sink::Pipe
                },
            }),
            None => handle_in(step(state, dir, OutcomeView::Launched { handle }).action) is None,
        },
{
    if state.next < state.stages.len() && state.stages[state.next] is None {
        lemma_advance::<H>(state.stages, dir, state.next + 1, None);
    }
}

/// A pipeline of two programs that both start: the first is launched
/// reading the interactive input and writing to a pipe, the second reading
/// the first one's output and writing to the interactive output, the second
/// is waited for, and the prompt follows. Nothing stands between what the
/// first writes and what the second reads.
pub proof fn lemma_two_stage_pipeline<H>(
    producer: StageView,
    consumer: StageView,
    dir: Seq<char>,
    first: H,
    second: H,
)
    requires
        !is_builtin(producer.command),
        !is_builtin(consumer.command),
    ensures
        run(
            start(seq![Some(producer), Some(consumer)]),
            dir,
            seq![
                OutcomeView::Done,
                OutcomeView::Launched { handle: first },
                OutcomeView::Launched { handle: second },
                OutcomeView::Done,
            ],
        ).actions == seq![
            ActionView::Launch {
                program: producer.command,
                args: producer.args,
                input: Source::Interactive,
                output: Sink::Pipe,
            },
            ActionView::Launch {
                program: consumer.command,
                args: consumer.args,
                input: Source::Previous(first),
                output: Sink::Interactive,
            },
            ActionView::Wait { handle: second },
            ActionView::Prompt,
        ],
{
    let stages = seq![Some(producer), Some(consumer)];
    let o0 = OutcomeView::<H>::Done;
    let o1 = OutcomeView::Launched { handle: first };
    let o2 = OutcomeView::Launched { handle: second };
    let o3 = OutcomeView::<H>::Done;
    let all = seq![o0, o1, o2, o3];
    let s1 = step(start(stages), dir, o0);
    lemma_run_first(start(stages), dir, all);
    assert(all.drop_first() =~= seq![o1, o2, o3]);
    let s2 = step(s1.state, s1.dir, o1);
    lemma_run_first(s1.state, s1.dir, seq![o1, o2, o3]);
    assert(seq![o1, o2, o3].drop_first() =~= seq![o2, o3]);
    let s3 = step(s2.state, s2.dir, o2);
    lemma_run_first(s2.state, s2.dir, seq![o2, o3]);
    assert(seq![o2, o3].drop_first() =~= seq![o3]);
    let s4 = step(s3.state, s3.dir, o3);
    lemma_run_first(s3.state, s3.dir, seq![o3]);
    assert(seq![o3].drop_first() =~= Seq::<OutcomeView<H>>::empty());
    assert(run(start(stages), dir, all).actions =~= seq![
        s1.action,
        s2.action,
        s3.action,
        s4.action,
    ]);
}

/// Where taking up the pipeline launches a program, the program writes to a
/// pipe exactly when a position follows it, and the executor waits to hear
/// of the launch.
pub proof fn lemma_advance_launch<H>(
    stages: Seq<Option<StageView>>,
    dir: Seq<char>,
    next: int,
    carried: Option<H>,
)
    requires
        0 <= next,
    ensures
        advance(stages, dir, next, carried).action matches ActionView::Launch { output, .. }
            ==> advance(stages, dir, next, carried).state.phase == Phase::Launching && 0
            < advance(stages, dir, next, carried).state.next <= stages.len() && (output
            == Sink::Pipe <==> advance(stages, dir, next, carried).state.next < stages.len()),
    decreases stages.len() - next,
{
    if next < stages.len() {
        match stages[next] {
            None => {
                lemma_advance_launch::<H>(stages, dir, next + 1, None);
            },
            Some(stage) => {},
        }
    }
}

/// What a stage reads is what the stage before it wrote into its pipe: a
/// handle is passed on as the input of a launch only if the process behind
/// it was launched writing to a pipe, and it is waited for only if the
/// process was launched writing to the interactive output.
pub proof fn lemma_input_comes_from_a_pipe<H>(
    state: ExecutorView,
    dir: Seq<char>,
    outcome: OutcomeView<H>,
    handle: H,
)
    requires
        0 <= state.next,
        step(state, dir, outcome).action is Launch,
    ensures
        step(
            step(state, dir, outcome).state,
            step(state, dir, outcome).dir,
            OutcomeView::Launched { handle },
        ).action matches ActionView::Launch { input: Source::Previous(h), .. } ==> h == handle
            && step(state, dir, outcome).action->Launch_output == Sink::Pipe,
        step(
            step(state, dir, outcome).state,
            step(state, dir, outcome).dir,
            OutcomeView::Launched { handle },
        ).action matches ActionView::Wait { handle: h } ==> h == handle && step(
            state,
            dir,
            outcome,
        ).action->Launch_output == Sink::Interactive,
{
    lemma_advance_launch::<H>(state.stages, dir, state.next, None);
    lemma_advance::<H>(state.stages, dir, state.next, None);
    match outcome {
        OutcomeView::Moved { dir: now } => {
            lemma_advance_launch::<H>(state.stages, now, state.next, None);
            lemma_advance::<H>(state.stages, now, state.next, None);
        },
        OutcomeView::Launched { handle: earlier } => {
            lemma_advance_launch(state.stages, dir, state.next, Some(earlier));
            lemma_advance(state.stages, dir, state.next, Some(earlier));
        },
        _ => {},
    }
    let first = step(state, dir, outcome);
    lemma_advance(first.state.stages, first.dir, first.state.next, Some(handle));
    if first.state.next < first.state.stages.len() && first.state.stages[first.state.next] is None {
        lemma_advance::<H>(first.state.stages, first.dir, first.state.next + 1, None);
    }
}

} // verus!
