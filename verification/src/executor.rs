//! The pipeline executor, as a machine that decides and leaves the doing to
//! its driver.
//!
//! The driver owns the processes, the terminal and the working directory of
//! the operating system. It hands the executor the outcome of the last
//! action and gets the next action back: change the directory, print a text,
//! launch a program with its input and output wired, report an error, wait
//! for a process, leave the interpreter, or go back to the prompt.
//!
//! A handle to a running process passes through the executor without staying
//! in it: it arrives with [`Outcome::Launched`] and leaves in the answer to
//! that very outcome, as the input of the next stage or as the process to
//! wait for. Where neither applies the executor lets go of it.

use crate::splitter::{join, Stage, StageView};
use vstd::prelude::*;

verus! {

/// Where a launched program reads its input from.
#[derive(Debug, Clone, PartialEq, Eq)]
pub enum Source<H> {
    /// The interpreter's own input.
    Interactive,
    /// The output of the process behind this handle.
    Previous(H),
}

/// Where a launched program writes its output to.
#[derive(Debug, Clone, Copy, PartialEq, Eq, Structural)]
pub enum Sink {
    /// The interpreter's own output.
    Interactive,
    /// A new pipe, whose reading end feeds the next stage.
    Pipe,
}

/// What the driver is asked to do next.
#[derive(Debug, Clone, PartialEq, Eq)]
pub enum Action<H> {
    /// Change the working directory to `dir`.
    ChangeDir { dir: String },
    /// Write `text` to the interactive output.
    Print { text: String },
    /// Launch `program` with `args`, without waiting for it.
    Launch { program: String, args: Vec<String>, input: Source<H>, output: Sink },
    /// Write `message` as one line to the interactive error channel.
    Report { message: String },
    /// Block until the process behind `handle` has exited.
    Wait { handle: H },
    /// Leave the interpreter.
    Quit,
    /// The pipeline is done: show the prompt and read the next line.
    Prompt,
}

/// The mathematical value of an [`Action`].
pub enum ActionView<H> {
    ChangeDir { dir: Seq<char> },
    Print { text: Seq<char> },
    Launch { program: Seq<char>, args: Seq<Seq<char>>, input: Source<H>, output: Sink },
    Report { message: Seq<char> },
    Wait { handle: H },
    Quit,
    Prompt,
}

impl<H> View for Action<H> {
    type V = ActionView<H>;

    open spec fn view(&self) -> ActionView<H> {
        match *self {
            Action::ChangeDir { dir } => ActionView::ChangeDir { dir: dir@ },
            Action::Print { text } => ActionView::Print { text: text@ },
            Action::Launch { program, args, input, output } => ActionView::Launch {
                program: program@,
                args: args.deep_view(),
                input,
                output,
            },
            Action::Report { message } => ActionView::Report { message: message@ },
            Action::Wait { handle } => ActionView::Wait { handle },
            Action::Quit => ActionView::Quit,
            Action::Prompt => ActionView::Prompt,
        }
    }
}

/// How the last action went.
#[derive(Debug, Clone, PartialEq, Eq)]
pub enum Outcome<H> {
    /// There is nothing to tell: no action was asked for yet, or the last one
    /// has no result to speak of.
    Done,
    /// The working directory was changed and is now `dir`.
    Moved { dir: String },
    /// The program was launched and runs behind `handle`.
    Launched { handle: H },
    /// The action failed, for the reason that `message` gives.
    Failed { message: String },
}

/// The mathematical value of an [`Outcome`].
pub enum OutcomeView<H> {
    Done,
    Moved { dir: Seq<char> },
    Launched { handle: H },
    Failed { message: Seq<char> },
}

impl<H> View for Outcome<H> {
    type V = OutcomeView<H>;

    open spec fn view(&self) -> OutcomeView<H> {
        match *self {
            Outcome::Done => OutcomeView::Done,
            Outcome::Moved { dir } => OutcomeView::Moved { dir: dir@ },
            Outcome::Launched { handle } => OutcomeView::Launched { handle },
            Outcome::Failed { message } => OutcomeView::Failed { message: message@ },
        }
    }
}

/// What the executor is waiting to hear of.
#[derive(Debug, Clone, Copy, PartialEq, Eq, Structural)]
pub enum Phase {
    /// Nothing: the next stage can be taken up.
    Running,
    /// Whether the working directory was changed.
    Moving,
    /// Whether the program was launched.
    Launching,
    /// Nothing any more: the interpreter was told to quit.
    Stopped,
    /// Nothing any more: the pipeline is done.
    Idle,
}

/// The state that outlives a line: the working directory. Only a change of
/// directory that the driver confirms alters it.
#[derive(Debug, Clone, PartialEq, Eq)]
pub struct Session {
    working_dir: String,
}

impl View for Session {
    type V = Seq<char>;

    closed spec fn view(&self) -> Seq<char> {
        self.working_dir@
    }
}

/// The executor of one pipeline.
#[derive(Debug, Clone, PartialEq, Eq)]
pub struct Executor {
    stages: Vec<Option<Stage>>,
    next: usize,
    phase: Phase,
}

/// The mathematical value of an [`Executor`]: the pipeline, the index of the
/// stage to take up next, and the phase.
pub struct ExecutorView {
    pub stages: Seq<Option<StageView>>,
    pub next: int,
    pub phase: Phase,
}

impl View for Executor {
    type V = ExecutorView;

    closed spec fn view(&self) -> ExecutorView {
        ExecutorView { stages: self.stages.deep_view(), next: self.next as int, phase: self.phase }
    }
}

/// The result of one step: the executor and the working directory after it,
/// and the action that it asks for.
pub struct Step<H> {
    pub state: ExecutorView,
    pub dir: Seq<char>,
    pub action: ActionView<H>,
}

/// The executor before the first step on `stages`.
pub open spec fn start(stages: Seq<Option<StageView>>) -> ExecutorView {
    ExecutorView { stages, next: 0, phase: Phase::Running }
}

/// The command is one that the interpreter carries out itself.
pub open spec fn is_builtin(command: Seq<char>) -> bool {
    command == "cd"@ || command == "echo"@ || command == "exit"@
}

/// The directory that `cd` asks for: its first argument, or the root
/// directory where it has none.
pub open spec fn cd_target(args: Seq<Seq<char>>) -> Seq<char> {
    if args.len() > 0 {
        args[0]
    } else {
        "/"@
    }
}

/// The text that `echo` prints: its arguments with one blank between each
/// two, and a line feed at the end.
pub open spec fn echo_text(args: Seq<Seq<char>>) -> Seq<char> {
    join(args, seq![' ']).push('\n')
}

/// The input of a stage, given the handle that the stage before it left.
pub open spec fn input_from<H>(carried: Option<H>) -> Source<H> {
    match carried {
        Some(handle) => Source::Previous(handle),
        None => Source::Interactive,
    }
}

/// The output of a stage: a pipe, unless it is the last of the pipeline.
pub open spec fn output_for(last: bool) -> Sink {
    if last {
        Sink::Interactive
    } else {
        Sink::Pipe
    }
}

/// The action that a stage takes: a built-in's own, or the launch of the
/// program it names, reading from `carried` and writing as `last` tells.
pub open spec fn stage_action<H>(stage: StageView, carried: Option<H>, last: bool) -> ActionView<
    H,
> {
    if stage.command == "cd"@ {
        ActionView::ChangeDir { dir: cd_target(stage.args) }
    } else if stage.command == "echo"@ {
        ActionView::Print { text: echo_text(stage.args) }
    } else if stage.command == "exit"@ {
        ActionView::Quit
    } else {
        ActionView::Launch {
            program: stage.command,
            args: stage.args,
            input: input_from(carried),
            output: output_for(last),
        }
    }
}

/// The phase that an action leaves the executor in.
pub open spec fn phase_after<H>(action: ActionView<H>) -> Phase {
    match action {
        ActionView::ChangeDir { .. } => Phase::Moving,
        ActionView::Launch { .. } => Phase::Launching,
        ActionView::Quit => Phase::Stopped,
        ActionView::Prompt => Phase::Idle,
        _ => Phase::Running,
    }
}

/// Takes up the pipeline at stage `next`, with `carried` as the handle that
/// the stage before it left. Positions without a command are passed over,
/// and each lets go of the handle. The first stage with a command decides;
/// past the last stage the handle, if there is one, is waited for.
pub open spec fn advance<H>(
    stages: Seq<Option<StageView>>,
    dir: Seq<char>,
    next: int,
    carried: Option<H>,
) -> Step<H>
    decreases stages.len() - next,
{
    if next < 0 || next >= stages.len() {
        match carried {
            Some(handle) => Step {
                state: ExecutorView { stages, next, phase: Phase::Running },
                dir,
                action: ActionView::Wait { handle },
            },
            None => Step {
                state: ExecutorView { stages, next, phase: Phase::Idle },
                dir,
                action: ActionView::Prompt,
            },
        }
    } else {
        match stages[next] {
            None => advance(stages, dir, next + 1, None),
            Some(stage) => {
                let action = stage_action(stage, carried, next + 1 == stages.len());
                Step {
                    state: ExecutorView { stages, next: next + 1, phase: phase_after(action) },
                    dir,
                    action,
                }
            },
        }
    }
}

/// An error is reported, and the pipeline goes on from where it stands.
pub open spec fn report<H>(state: ExecutorView, dir: Seq<char>, message: Seq<char>) -> Step<H> {
    Step {
        state: ExecutorView { phase: Phase::Running, ..state },
        dir,
        action: ActionView::Report { message },
    }
}

/// One step of the executor in working directory `dir`, on hearing
/// `outcome`.
///
/// Once the executor has asked to quit or to prompt, it repeats itself. A
/// failure of the action that it waits to hear of is reported; the pipeline
/// then goes on. A confirmed change of directory is the only thing that
/// alters the working directory. A launched process is handed on to the
/// stage that follows. An outcome that the executor does not wait for counts
/// as [`Outcome::Done`].
pub open spec fn step<H>(state: ExecutorView, dir: Seq<char>, outcome: OutcomeView<H>) -> Step<H> {
    match state.phase {
        Phase::Stopped => Step { state, dir, action: ActionView::Quit },
        Phase::Idle => Step { state, dir, action: ActionView::Prompt },
        Phase::Running => advance(state.stages, dir, state.next, None),
        Phase::Moving => match outcome {
            OutcomeView::Moved { dir: now } => advance(state.stages, now, state.next, None),
            OutcomeView::Failed { message } => report(state, dir, message),
            _ => advance(state.stages, dir, state.next, None),
        },
        Phase::Launching => match outcome {
            OutcomeView::Launched { handle } => advance(
                state.stages,
                dir,
                state.next,
                Some(handle),
            ),
            OutcomeView::Failed { message } => report(state, dir, message),
            _ => advance(state.stages, dir, state.next, None),
        },
    }
}

/// What a run of steps leaves: the executor and the working directory after
/// the last step, and the actions that were asked for, in order.
pub struct Run<H> {
    pub state: ExecutorView,
    pub dir: Seq<char>,
    pub actions: Seq<ActionView<H>>,
}

/// The steps that the executor takes on hearing `outcomes` one after the
/// other.
pub open spec fn run<H>(state: ExecutorView, dir: Seq<char>, outcomes: Seq<OutcomeView<H>>) -> Run<
    H,
>
    decreases outcomes.len(),
{
    if outcomes.len() == 0 {
        Run { state, dir, actions: Seq::empty() }
    } else {
        let before = run(state, dir, outcomes.drop_last());
        let last = step(before.state, before.dir, outcomes.last());
        Run { state: last.state, dir: last.dir, actions: before.actions.push(last.action) }
    }
}

/// The executor has asked to quit or to prompt.
pub open spec fn finished(state: ExecutorView) -> bool {
    state.phase == Phase::Stopped || state.phase == Phase::Idle
}

/// The handle that an action passes to the driver, if it passes one.
pub open spec fn handle_in<H>(action: ActionView<H>) -> Option<H> {
    match action {
        ActionView::Launch { input: Source::Previous(handle), .. } => Some(handle),
        ActionView::Wait { handle } => Some(handle),
        _ => None,
    }
}

/// The action concerns no process: it neither launches one nor waits for
/// one.
pub open spec fn leaves_processes_alone<H>(action: ActionView<H>) -> bool {
    !(action is Launch) && !(action is Wait)
}

/// Every stage of the pipeline is a built-in, or a position without a
/// command.
pub open spec fn only_builtins(stages: Seq<Option<StageView>>) -> bool {
    forall|k: int|
        0 <= k < stages.len() ==> match #[trigger] stages[k] {
            Some(stage) => is_builtin(stage.command),
            None => true,
        }
}

/// No position of the pipeline holds a command.
pub open spec fn no_commands(stages: Seq<Option<StageView>>) -> bool {
    forall|k: int| 0 <= k < stages.len() ==> #[trigger] stages[k] is None
}

/// An upper bound on the number of steps that the executor still takes
/// before it has finished.
pub open spec fn steps_left(state: ExecutorView) -> nat {
    if finished(state) {
        0
    } else {
        let stages_left = if state.next < state.stages.len() {
            (state.stages.len() - state.next) as nat
        } else {
            0
        };
        let pending: nat = if state.phase == Phase::Running {
            0
        } else {
            1
        };
        2 * stages_left + pending + 1
    }
}

/// `join` of a sequence with one more part at its end.
pub proof fn lemma_join_push(parts: Seq<Seq<char>>, sep: Seq<char>, last: Seq<char>)
    ensures
        join(parts.push(last), sep) == if parts.len() == 0 {
            last
        } else {
            join(parts, sep) + sep + last
        },
{
    assert(parts.push(last).drop_last() =~= parts);
}

/// A copy of `v`.
pub fn copy_strings(v: &Vec<String>) -> (r: Vec<String>)
    ensures
        r.deep_view() == v.deep_view(),
{
    let mut r: Vec<String> = Vec::new();
    let mut i: usize = 0;
    while i < v.len()
        invariant
            i <= v.len(),
            r.len() == i,
            forall|j: int| 0 <= j < i ==> r@[j]@ == v@[j]@,
        decreases v.len() - i,
    {
        r.push(v[i].clone());
        i += 1;
    }
    assert(r.deep_view() =~= v.deep_view());
    r
}

/// The line that `echo` prints for `args`.
pub fn echo_line(args: &Vec<String>) -> (text: String)
    ensures
        text@ == echo_text(args.deep_view()),
{
    let mut text = String::new();
    let mut i: usize = 0;
    while i < args.len()
        invariant
            i <= args.len(),
            text@ == join(args.deep_view().take(i as int), seq![' ']),
        decreases args.len() - i,
    {
        if i > 0 {
            text.push(' ');
        }
        let ghost before = text@;
        text.append(args[i].as_str());
        proof {
            let parts = args.deep_view().take(i as int);
            lemma_join_push(parts, seq![' '], args@[i as int]@);
            assert(args.deep_view().take(i + 1) =~= parts.push(args@[i as int]@));
            if i > 0 {
                assert(join(parts, seq![' ']).push(' ') =~= join(parts, seq![' ']) + seq![' ']);
            } else {
                assert(before + args@[i as int]@ =~= args@[i as int]@);
            }
        }
        i += 1;
    }
    assert(args.deep_view().take(i as int) =~= args.deep_view());
    text.push('\n');
    text
}

/// Tells whether `s` reads `"cd"`, `"echo"` or `"exit"`, or none of them, by a
/// number from 0 to 3 in that order.
fn builtin_index(s: &String) -> (k: u8)
    ensures
        k == 0 <==> s@ == "cd"@,
        k == 1 <==> s@ == "echo"@,
        k == 2 <==> s@ == "exit"@,
        k <= 3,
{
    proof {
        reveal_strlit("cd");
        reveal_strlit("echo");
        reveal_strlit("exit");
        assert("cd"@.len() == 2 && "echo"@.len() == 4 && "exit"@.len() == 4);
        assert("echo"@[1] == 'c' && "exit"@[1] == 'x');
    }
    let cd = String::from_str("cd");
    let echo = String::from_str("echo");
    let exit = String::from_str("exit");
    if *s == cd {
        0
    } else if *s == echo {
        1
    } else if *s == exit {
        2
    } else {
        3
    }
}

impl Session {
    /// A session in working directory `dir`.
    pub fn new(dir: String) -> (session: Session)
        ensures
            session@ == dir@,
    {
        Session { working_dir: dir }
    }

    /// The working directory.
    pub fn working_dir(&self) -> (dir: &str)
        ensures
            dir@ == self@,
    {
        self.working_dir.as_str()
    }

    /// The prompt: the working directory, followed by `>`.
    pub fn prompt(&self) -> (text: String)
        ensures
            text@ == self@.push('>'),
    {
        let mut text = self.working_dir.clone();
        text.push('>');
        text
    }
}

impl Executor {
    /// An executor that is about to take up the first stage of `stages`.
    pub fn new(stages: Vec<Option<Stage>>) -> (executor: Executor)
        ensures
            executor@ == start(stages.deep_view()),
    {
        Executor { stages, next: 0, phase: Phase::Running }
    }

    /// The phase that the executor is in.
    pub fn phase(&self) -> (phase: Phase)
        ensures
            phase == self@.phase,
    {
        self.phase
    }

    /// The executor has asked to quit or to prompt, and will ask nothing else.
    pub fn is_finished(&self) -> (b: bool)
        ensures
            b == (self@.phase == Phase::Stopped || self@.phase == Phase::Idle),
    {
        match self.phase {
            Phase::Stopped => true,
            Phase::Idle => true,
            _ => false,
        }
    }

    /// Hears the outcome of the last action and says what to do next.
    pub fn step<H>(&mut self, session: &mut Session, outcome: Outcome<H>) -> (action: Action<H>)
        ensures
            final(self)@ == step(old(self)@, old(session)@, outcome@).state,
            final(session)@ == step(old(self)@, old(session)@, outcome@).dir,
            action@ == step(old(self)@, old(session)@, outcome@).action,
    {
        let ghost goal = step(old(self)@, old(session)@, outcome@);
        let mut carried: Option<H> = None;
        match self.phase {
            Phase::Stopped => {
                return Action::Quit;
            },
            Phase::Idle => {
                return Action::Prompt;
            },
            Phase::Running => {},
            Phase::Moving => {
                match outcome {
                    Outcome::Moved { dir } => {
                        session.working_dir = dir;
                    },
                    Outcome::Failed { message } => {
                        self.phase = Phase::Running;
                        return Action::Report { message };
                    },
                    _ => {},
                }
            },
            Phase::Launching => {
                match outcome {
                    Outcome::Launched { handle } => {
                        carried = Some(handle);
                    },
                    Outcome::Failed { message } => {
                        self.phase = Phase::Running;
                        return Action::Report { message };
                    },
                    _ => {},
                }
            },
        }
        let n = self.stages.len();
        while self.next < n
            invariant
                n == self.stages.len(),
                self.stages == old(self).stages,
                advance(self@.stages, session@, self@.next, carried) == goal,
                goal == step(old(self)@, old(session)@, outcome@),
            decreases n - self.next,
        {
            let last = self.next + 1 == n;
            let ghost before = carried;
            let ghost entry = self.stages.deep_view()[self.next as int];
            assert(entry == self.stages@[self.next as int].deep_view());
            let found: Option<Action<H>> = match &self.stages[self.next] {
                None => None,
                Some(stage) => {
                    let k = builtin_index(&stage.command);
                    if k == 0 {
                        let dir = if stage.args.len() > 0 {
                            stage.args[0].clone()
                        } else {
                            String::from_str("/")
                        };
                        Some(Action::ChangeDir { dir })
                    } else if k == 1 {
                        Some(Action::Print { text: echo_line(&stage.args) })
                    } else if k == 2 {
                        Some(Action::Quit)
                    } else {
                        let input = match carried.take() {
                            Some(handle) => Source::Previous(handle),
                            None => Source::Interactive,
                        };
                        let output = if last {
                            Sink::Interactive
                        } else {
                            Sink::Pipe
                        };
                        Some(
                            Action::Launch {
                                program: stage.command.clone(),
                                args: copy_strings(&stage.args),
                                input,
                                output,
                            },
                        )
                    }
                },
            };
            assert(match entry {
                None => found is None,
                Some(stage) => found matches Some(action) && action@ == stage_action(
                    stage,
                    before,
                    last,
                ),
            });
            self.next = self.next + 1;
            match found {
                None => {
                    carried = None;
                },
                Some(action) => {
                    self.phase = match action {
                        Action::ChangeDir { .. } => Phase::Moving,
                        Action::Launch { .. } => Phase::Launching,
                        Action::Quit => Phase::Stopped,
                        _ => Phase::Running,
                    };
                    return action;
                },
            }
        }
        match carried {
            Some(handle) => {
                self.phase = Phase::Running;
                Action::Wait { handle }
            },
            None => {
                self.phase = Phase::Idle;
                Action::Prompt
            },
        }
    }
}

} // verus!
