use er::executor::{echo_line, Action, Executor, Outcome, Phase, Session, Sink, Source};
use er::splitter::{split_line, Stage};
use std::rc::Rc;

/// A stand-in for the operating system: directories that exist, programs
/// that can be launched, and a record of what was asked of it.
struct World {
    dirs: Vec<String>,
    programs: Vec<String>,
    cwd: String,
    out: String,
    err: Vec<String>,
    launched: Vec<(u32, String, Vec<String>, Source<u32>, Sink)>,
    waited: Vec<u32>,
    actions: usize,
}

impl World {
    fn new() -> World {
        World {
            dirs: vec!["/".to_string(), "/home".to_string(), "/tmp".to_string()],
            programs: vec!["ls".to_string(), "grep".to_string(), "wc".to_string(), "cat".to_string()],
            cwd: "/home".to_string(),
            out: String::new(),
            err: Vec::new(),
            launched: Vec::new(),
            waited: Vec::new(),
            actions: 0,
        }
    }

    fn change_dir(&mut self, dir: &str) -> Outcome<u32> {
        let target = if dir == "." { self.cwd.clone() } else { dir.to_string() };
        if self.dirs.contains(&target) {
            self.cwd = target;
            Outcome::Moved { dir: self.cwd.clone() }
        } else {
            Outcome::Failed { message: "No such file or directory (os error 2)".to_string() }
        }
    }

    fn launch(&mut self, program: String, args: Vec<String>, input: Source<u32>, output: Sink) -> Outcome<u32> {
        if self.programs.contains(&program) {
            let handle = self.launched.len() as u32 + 1;
            self.launched.push((handle, program, args, input, output));
            Outcome::Launched { handle }
        } else {
            Outcome::Failed { message: "No such file or directory (os error 2)".to_string() }
        }
    }

    /// Runs one line to its end; tells whether the interpreter is to quit.
    fn run(&mut self, session: &mut Session, line: &str) -> bool {
        let mut executor = Executor::new(split_line(line));
        let mut outcome = Outcome::Done;
        loop {
            let action = executor.step(session, outcome);
            outcome = match action {
                Action::ChangeDir { dir } => self.change_dir(&dir),
                Action::Print { text } => {
                    self.out.push_str(&text);
                    Outcome::Done
                }
                Action::Launch { program, args, input, output } => self.launch(program, args, input, output),
                Action::Report { message } => {
                    self.err.push(message);
                    Outcome::Done
                }
                Action::Wait { handle } => {
                    self.waited.push(handle);
                    Outcome::Done
                }
                Action::Quit => return true,
                Action::Prompt => return false,
            };
            self.actions += 1;
        }
    }
}

fn session() -> Session {
    Session::new("/home".to_string())
}

fn words(items: &[&str]) -> Vec<String> {
    items.iter().map(|a| a.to_string()).collect()
}

fn stage(command: &str, args: &[&str]) -> Option<Stage> {
    Some(Stage { command: command.to_string(), args: words(args) })
}

#[test]
fn echo_prints_its_arguments_and_a_line_feed() {
    let mut world = World::new();
    let mut session = session();
    assert!(!world.run(&mut session, "echo a b c"));
    assert_eq!(world.out, "a b c\n");
    assert!(world.launched.is_empty());
    assert!(world.err.is_empty());
    assert_eq!(world.actions, 1);
}

#[test]
fn echo_joins_with_single_blanks() {
    let mut world = World::new();
    let mut session = session();
    world.run(&mut session, "echo   a \t  b     c  ");
    assert_eq!(world.out, "a b c\n");
}

#[test]
fn echo_without_arguments_prints_an_empty_line() {
    let mut world = World::new();
    let mut session = session();
    world.run(&mut session, "echo");
    assert_eq!(world.out, "\n");
}

#[test]
fn echo_line_gives_the_exact_text() {
    assert_eq!(echo_line(&words(&[])), "\n");
    assert_eq!(echo_line(&words(&["a"])), "a\n");
    assert_eq!(echo_line(&words(&["a", "b", "c"])), "a b c\n");
    assert_eq!(echo_line(&words(&["", ""])), " \n");
}

#[test]
fn cd_to_a_missing_directory_changes_nothing_and_reports_once() {
    let mut world = World::new();
    let mut session = session();
    assert!(!world.run(&mut session, "cd /nonexistent-path-xyz"));
    assert_eq!(session.working_dir(), "/home");
    assert_eq!(world.cwd, "/home");
    assert_eq!(world.err.len(), 1);
    assert_eq!(world.out, "");
    assert!(world.launched.is_empty());
}

#[test]
fn cd_moves_the_session() {
    let mut world = World::new();
    let mut session = session();
    assert!(!world.run(&mut session, "cd /tmp"));
    assert_eq!(session.working_dir(), "/tmp");
    assert_eq!(session.prompt(), "/tmp>");
    assert!(world.err.is_empty());
}

#[test]
fn cd_without_argument_goes_to_the_root() {
    let mut executor = Executor::new(split_line("cd"));
    let mut session = session();
    let action: Action<u32> = executor.step(&mut session, Outcome::Done);
    assert_eq!(action, Action::ChangeDir { dir: "/".to_string() });
    assert_eq!(executor.phase(), Phase::Moving);
    let action: Action<u32> = executor.step(&mut session, Outcome::Moved { dir: "/".to_string() });
    assert_eq!(action, Action::Prompt);
    assert_eq!(session.working_dir(), "/");
}

#[test]
fn cd_takes_its_first_argument_only() {
    let mut executor = Executor::new(split_line("cd /tmp /home"));
    let mut session = session();
    let action: Action<u32> = executor.step(&mut session, Outcome::Done);
    assert_eq!(action, Action::ChangeDir { dir: "/tmp".to_string() });
}

#[test]
fn cd_to_the_same_directory_is_idempotent() {
    let mut world = World::new();
    let mut session = session();
    for _ in 0..5 {
        assert!(!world.run(&mut session, "cd ."));
        assert_eq!(session.working_dir(), "/home");
        assert_eq!(world.cwd, "/home");
    }
    world.run(&mut session, "cd");
    for _ in 0..5 {
        assert!(!world.run(&mut session, "cd"));
        assert_eq!(session.working_dir(), "/");
    }
    assert!(world.err.is_empty());
}

#[test]
fn only_a_confirmed_change_of_directory_moves_the_session() {
    let mut session = session();
    let mut executor = Executor::new(split_line("echo x | ls"));
    let a: Action<u32> = executor.step(&mut session, Outcome::Moved { dir: "/tmp".to_string() });
    assert_eq!(a, Action::Print { text: "x\n".to_string() });
    let a: Action<u32> = executor.step(&mut session, Outcome::Moved { dir: "/tmp".to_string() });
    assert!(matches!(a, Action::Launch { .. }));
    let a: Action<u32> = executor.step(&mut session, Outcome::Moved { dir: "/tmp".to_string() });
    assert_eq!(a, Action::Prompt);
    assert_eq!(session.working_dir(), "/home");
}

#[test]
fn exit_quits_at_once() {
    let mut world = World::new();
    let mut session = session();
    assert!(world.run(&mut session, "exit"));
    assert_eq!(world.actions, 0);
    assert!(world.run(&mut session, "exit now"));
}

#[test]
fn exit_does_not_wait_for_an_earlier_stage() {
    let mut world = World::new();
    let mut session = session();
    assert!(world.run(&mut session, "ls | exit"));
    assert_eq!(world.launched.len(), 1);
    assert!(world.waited.is_empty());
}

#[test]
fn stages_after_exit_are_not_run() {
    let mut world = World::new();
    let mut session = session();
    assert!(world.run(&mut session, "exit | echo hi | ls"));
    assert_eq!(world.out, "");
    assert!(world.launched.is_empty());
}

#[test]
fn the_executor_repeats_itself_once_it_has_finished() {
    let mut session = session();
    let mut executor = Executor::new(split_line("exit"));
    for _ in 0..3 {
        let a: Action<u32> = executor.step(&mut session, Outcome::Launched { handle: 9 });
        assert_eq!(a, Action::Quit);
        assert!(executor.is_finished());
    }
    let mut executor = Executor::new(split_line(""));
    for _ in 0..3 {
        let a: Action<u32> = executor.step(&mut session, Outcome::Failed { message: "x".to_string() });
        assert_eq!(a, Action::Prompt);
        assert_eq!(executor.phase(), Phase::Idle);
    }
}

#[test]
fn a_single_program_reads_and_writes_the_terminal_and_is_waited_for() {
    let mut world = World::new();
    let mut session = session();
    assert!(!world.run(&mut session, "ls -l /tmp"));
    assert_eq!(
        world.launched,
        vec![(1, "ls".to_string(), words(&["-l", "/tmp"]), Source::Interactive, Sink::Interactive)]
    );
    assert_eq!(world.waited, vec![1]);
}

#[test]
fn two_programs_are_connected_by_a_pipe() {
    let mut world = World::new();
    let mut session = session();
    assert!(!world.run(&mut session, "ls -l | grep foo"));
    assert_eq!(
        world.launched,
        vec![
            (1, "ls".to_string(), words(&["-l"]), Source::Interactive, Sink::Pipe),
            (2, "grep".to_string(), words(&["foo"]), Source::Previous(1), Sink::Interactive),
        ]
    );
    assert_eq!(world.waited, vec![2]);
    assert_eq!(world.out, "");
    assert!(world.err.is_empty());
}

#[test]
fn three_programs_are_chained_in_order() {
    let mut world = World::new();
    let mut session = session();
    world.run(&mut session, "ls | grep x | wc -l");
    assert_eq!(
        world.launched,
        vec![
            (1, "ls".to_string(), words(&[]), Source::Interactive, Sink::Pipe),
            (2, "grep".to_string(), words(&["x"]), Source::Previous(1), Sink::Pipe),
            (3, "wc".to_string(), words(&["-l"]), Source::Previous(2), Sink::Interactive),
        ]
    );
    assert_eq!(world.waited, vec![3]);
}

#[test]
fn a_missing_first_program_does_not_stop_the_second_stage() {
    let mut world = World::new();
    let mut session = session();
    assert!(!world.run(&mut session, "no-such-program | echo hi"));
    assert_eq!(world.out, "hi\n");
    assert_eq!(world.err.len(), 1);
    assert!(world.launched.is_empty());
    assert!(world.waited.is_empty());
}

#[test]
fn a_missing_program_cuts_the_pipeline() {
    let mut world = World::new();
    let mut session = session();
    world.run(&mut session, "ls | no-such-program | wc");
    assert_eq!(
        world.launched,
        vec![
            (1, "ls".to_string(), words(&[]), Source::Interactive, Sink::Pipe),
            (2, "wc".to_string(), words(&[]), Source::Interactive, Sink::Interactive),
        ]
    );
    assert_eq!(world.err.len(), 1);
    assert_eq!(world.waited, vec![2]);
}

#[test]
fn a_missing_last_program_is_reported_and_nothing_is_waited_for() {
    let mut world = World::new();
    let mut session = session();
    assert!(!world.run(&mut session, "ls | nope"));
    assert_eq!(world.launched.len(), 1);
    assert_eq!(world.err, vec!["No such file or directory (os error 2)"]);
    assert!(world.waited.is_empty());
}

#[test]
fn a_blank_line_does_nothing() {
    let mut world = World::new();
    let mut session = session();
    for line in ["", "   ", "\n", " \t \r\n"] {
        assert!(!world.run(&mut session, line));
    }
    assert_eq!(world.actions, 0);
    assert_eq!(world.out, "");
    assert!(world.err.is_empty());
    assert!(world.launched.is_empty());
    assert_eq!(session.working_dir(), "/home");
}

#[test]
fn a_pipeline_without_commands_does_nothing() {
    let mut session = session();
    let mut executor = Executor::new(vec![None, None, None]);
    let a: Action<u32> = executor.step(&mut session, Outcome::Done);
    assert_eq!(a, Action::Prompt);
    assert!(executor.is_finished());
}

#[test]
fn pipes_alone_on_a_line_name_a_program() {
    let mut world = World::new();
    let mut session = session();
    assert!(!world.run(&mut session, "  |  | "));
    assert_eq!(world.out, "");
    assert!(world.launched.is_empty());
    assert_eq!(world.err.len(), 1);
    let mut executor = Executor::new(split_line("  |  | "));
    let a: Action<u32> = executor.step(&mut session, Outcome::Done);
    assert_eq!(
        a,
        Action::Launch {
            program: "|".to_string(),
            args: words(&["|"]),
            input: Source::Interactive,
            output: Sink::Interactive,
        }
    );
}

#[test]
fn a_position_without_command_cuts_the_pipeline() {
    let mut world = World::new();
    let mut session = session();
    world.run(&mut session, "ls |  | wc");
    assert_eq!(
        world.launched,
        vec![
            (1, "ls".to_string(), words(&[]), Source::Interactive, Sink::Pipe),
            (2, "wc".to_string(), words(&[]), Source::Interactive, Sink::Interactive),
        ]
    );
    assert_eq!(world.waited, vec![2]);
    assert!(world.err.is_empty());
}

#[test]
fn a_built_in_takes_no_input_and_gives_no_output_to_its_neighbours() {
    let mut world = World::new();
    let mut session = session();
    world.run(&mut session, "ls | echo hi | wc");
    assert_eq!(world.out, "hi\n");
    assert_eq!(
        world.launched,
        vec![
            (1, "ls".to_string(), words(&[]), Source::Interactive, Sink::Pipe),
            (2, "wc".to_string(), words(&[]), Source::Interactive, Sink::Interactive),
        ]
    );
    assert_eq!(world.waited, vec![2]);
}

#[test]
fn a_built_in_at_the_end_leaves_nothing_to_wait_for() {
    let mut world = World::new();
    let mut session = session();
    world.run(&mut session, "ls | cd /tmp");
    assert_eq!(world.launched.len(), 1);
    assert!(world.waited.is_empty());
    assert_eq!(session.working_dir(), "/tmp");
}

#[test]
fn the_last_position_decides_the_output_even_without_a_command() {
    let mut session = session();
    let mut executor = Executor::new(vec![stage("ls", &[]), None]);
    let a: Action<u32> = executor.step(&mut session, Outcome::Done);
    assert_eq!(
        a,
        Action::Launch { program: "ls".to_string(), args: vec![], input: Source::Interactive, output: Sink::Pipe }
    );
    let a: Action<u32> = executor.step(&mut session, Outcome::Launched { handle: 1 });
    assert_eq!(a, Action::Prompt);
}

#[test]
fn a_handle_that_is_not_passed_on_is_let_go() {
    let mut session = session();
    let handle = Rc::new(());
    let mut executor = Executor::new(split_line("ls | echo hi"));
    let _: Action<Rc<()>> = executor.step(&mut session, Outcome::Done);
    let a = executor.step(&mut session, Outcome::Launched { handle: handle.clone() });
    assert_eq!(a, Action::Print { text: "hi\n".to_string() });
    assert_eq!(Rc::strong_count(&handle), 1);
}

#[test]
fn a_handle_that_is_passed_on_is_not_kept() {
    let mut session = session();
    let handle = Rc::new(());
    let mut executor = Executor::new(split_line("ls | wc"));
    let _: Action<Rc<()>> = executor.step(&mut session, Outcome::Done);
    let a = executor.step(&mut session, Outcome::Launched { handle: handle.clone() });
    assert_eq!(Rc::strong_count(&handle), 2);
    match a {
        Action::Launch { input: Source::Previous(h), .. } => assert!(Rc::ptr_eq(&h, &handle)),
        _ => panic!("the second stage reads from the first"),
    }
    assert_eq!(Rc::strong_count(&handle), 1);
}

#[test]
fn an_outcome_that_is_not_awaited_counts_as_done() {
    let mut session = session();
    let mut executor = Executor::new(split_line("ls | wc"));
    let _: Action<u32> = executor.step(&mut session, Outcome::Launched { handle: 7 });
    let a: Action<u32> = executor.step(&mut session, Outcome::Done);
    assert_eq!(
        a,
        Action::Launch { program: "wc".to_string(), args: vec![], input: Source::Interactive, output: Sink::Interactive }
    );
    let a: Action<u32> = executor.step(&mut session, Outcome::Moved { dir: "/".to_string() });
    assert_eq!(a, Action::Prompt);
    assert_eq!(session.working_dir(), "/home");
}

#[test]
fn every_line_finishes_within_two_steps_for_each_position_and_one() {
    for line in ["", "a", "a | b", "cd | cd | cd", "x | y | z | echo | exit", "a |  | b"] {
        let stages = split_line(line);
        let bound = 2 * stages.len() + 1;
        let mut session = session();
        let mut executor = Executor::new(stages);
        for _ in 0..bound {
            let _: Action<u32> = executor.step(&mut session, Outcome::Failed { message: "no".to_string() });
        }
        assert!(executor.is_finished(), "for {:?}", line);
    }
}

#[test]
fn the_prompt_is_the_working_directory_and_an_angle_bracket() {
    assert_eq!(Session::new("/usr/local".to_string()).prompt(), "/usr/local>");
    assert_eq!(Session::new(String::new()).prompt(), ">");
}

#[test]
fn names_of_built_ins_are_matched_exactly() {
    let mut world = World::new();
    let mut session = session();
    world.programs.push("Echo".to_string());
    world.run(&mut session, "Echo a");
    world.run(&mut session, "echoo a");
    world.run(&mut session, "cd/ a");
    assert_eq!(world.out, "");
    assert_eq!(world.launched.len(), 1);
    assert_eq!(world.err.len(), 2);
}
