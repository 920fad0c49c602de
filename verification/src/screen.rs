//! A command line on a character grid: the state of the screen, how input
//! events change it, and what is drawn for a frame.
//!
//! Running the command that was entered is left to the driver:
//! [`update_and_render`] stops at the event that asks for it, and goes on
//! from the next event once the driver has recorded what came of it with
//! [`execute_command`].

use crate::input::{command_after, typed_char, Event, KeyCode};
use crate::lookup::{first_blank, split_command};
use crate::widgets::{frame_start, Draw, DrawView, Size, UIContext};
use rand::StdRng;
use vstd::prelude::*;
use vstd::utf8::encode_utf8;

verus! {

/// `rand::StdRng`, the standard generator, of which nothing is known here but
/// where it came from.
#[verifier::external_type_specification]
#[verifier::external_body]
pub struct ExStdRng(StdRng);

/// The generator that `rand` makes from the one-word seed `seed`.
pub uninterp spec fn rng_of_seed(seed: usize) -> StdRng;

/// `StdRng::from_seed`, of the trait `SeedableRng`, on a seed of one word:
/// the generator that it makes is determined by the seed.
#[verifier::external_body]
fn seeded_rng(seed: usize) -> (rng: StdRng)
    ensures
        rng == rng_of_seed(seed),
{
    let words: &[usize] = &[seed];
    rand::SeedableRng::from_seed(words)
}

/// The state of the screen.
#[derive(Debug)]
pub struct State {
    pub rng: StdRng,
    pub size: Size,
    pub prompt: String,
    pub command: String,
    pub output: String,
    pub left_mouse_pressed: bool,
    pub left_mouse_released: bool,
    pub ui_context: UIContext,
}

/// The mathematical value of a [`State`].
pub struct StateView {
    pub rng: StdRng,
    pub size: Size,
    pub prompt: Seq<char>,
    pub command: Seq<char>,
    pub output: Seq<char>,
    pub left_mouse_pressed: bool,
    pub left_mouse_released: bool,
    pub ui_context: UIContext,
}

impl View for State {
    type V = StateView;

    open spec fn view(&self) -> StateView {
        StateView {
            rng: self.rng,
            size: self.size,
            prompt: self.prompt@,
            command: self.command@,
            output: self.output@,
            left_mouse_pressed: self.left_mouse_pressed,
            left_mouse_released: self.left_mouse_released,
            ui_context: self.ui_context,
        }
    }
}

/// What became of the command that was entered.
#[derive(Debug, Clone, PartialEq, Eq)]
pub enum Execution {
    /// No directory of the search path holds the program.
    NotFound,
    /// The program ran. `program` shows where it was found and `output` is
    /// what it wrote.
    Ran { program: String, output: String },
}

/// The mathematical value of an [`Execution`].
pub enum ExecutionView {
    NotFound,
    Ran { program: Seq<char>, output: Seq<char> },
}

impl View for Execution {
    type V = ExecutionView;

    open spec fn view(&self) -> ExecutionView {
        match *self {
            Execution::NotFound => ExecutionView::NotFound,
            Execution::Ran { program, output } => ExecutionView::Ran {
                program: program@,
                output: output@,
            },
        }
    }
}

/// What the driver is to do after an update.
#[derive(Debug, Clone, PartialEq, Eq)]
pub enum Update {
    /// Leave the program.
    Quit,
    /// Run the command that was entered, record what came of it, and update
    /// again from the event with index `resume`.
    Execute { resume: usize },
    /// Draw the frame.
    Frame { draws: Vec<Draw> },
}

/// The mathematical value of an [`Update`].
pub enum UpdateView {
    Quit,
    Execute { resume: int },
    Frame { draws: Seq<DrawView> },
}

impl View for Update {
    type V = UpdateView;

    open spec fn view(&self) -> UpdateView {
        match *self {
            Update::Quit => UpdateView::Quit,
            Update::Execute { resume } => UpdateView::Execute { resume: resume as int },
            Update::Frame { draws } => UpdateView::Frame { draws: draws.deep_view() },
        }
    }
}

/// A state and what the driver is to do with it.
pub struct Updated {
    pub state: StateView,
    pub update: UpdateView,
}

/// The state of a new screen of the given size: the prompt `"> "`, nothing
/// entered and nothing put out, no mouse button noted, and the generator
/// made from `seed`.
pub open spec fn fresh(size: Size, seed: usize) -> StateView {
    StateView {
        rng: rng_of_seed(seed),
        size,
        prompt: "> "@,
        command: Seq::empty(),
        output: Seq::empty(),
        left_mouse_pressed: false,
        left_mouse_released: false,
        ui_context: UIContext { hot: 0, active: 0, next_hot: 0 },
    }
}

/// The event asks for a new screen: the key R with the control key.
pub open spec fn asks_to_reset(event: Event) -> bool {
    event matches Event::KeyPressed { key: KeyCode::R, ctrl: true, .. }
}

/// The event asks to leave: the window was closed or the escape key pressed.
pub open spec fn asks_to_quit(event: Event) -> bool {
    event is Close || event matches Event::KeyPressed { key: KeyCode::Escape, .. }
}

/// The event asks to run the command: the enter key was released.
pub open spec fn asks_to_execute(event: Event) -> bool {
    event matches Event::KeyReleased { key: KeyCode::Enter, .. }
}

/// The state after it was reset, if the event asks for that.
pub open spec fn after_reset(state: StateView, event: Event, size: Size, seed: usize) -> StateView {
    if asks_to_reset(event) {
        fresh(size, seed)
    } else {
        state
    }
}

/// The state after the event has been typed into the command line.
pub open spec fn after_typing(state: StateView, event: Event) -> StateView {
    StateView { command: command_after(state.command, event), ..state }
}

/// The state after one event: the screen is reset if the event asks for
/// it, the event is typed into the command line, and a left mouse button
/// that went down or up is noted.
pub open spec fn after_event(state: StateView, event: Event, size: Size, seed: usize) -> StateView {
    let typed = after_typing(after_reset(state, event, size, seed), event);
    match event {
        Event::KeyPressed { key: KeyCode::MouseLeft, .. } => StateView {
            left_mouse_pressed: true,
            ..typed
        },
        Event::KeyReleased { key: KeyCode::MouseLeft, .. } => StateView {
            left_mouse_released: true,
            ..typed
        },
        _ => typed,
    }
}

/// The column behind the prompt: the number of bytes that the prompt takes
/// in UTF-8, as a 32-bit number.
pub open spec fn prompt_width(prompt: Seq<char>) -> i32 {
    (encode_utf8(prompt).len() as usize) as i32
}

/// What is drawn for a frame: the prompt in the top left corner, the command
/// line behind it, and the output on the row below.
pub open spec fn frame_draws(state: StateView) -> Seq<DrawView> {
    seq![
        DrawView::Print { x: 0, y: 0, text: state.prompt },
        DrawView::Print { x: prompt_width(state.prompt), y: 0, text: state.command },
        DrawView::Print { x: 0, y: 1, text: state.output },
    ]
}

/// The state at the start of an update: where it starts at the first event,
/// no mouse button is noted yet.
pub open spec fn update_start(state: StateView, from: int) -> StateView {
    if from == 0 {
        StateView { left_mouse_pressed: false, left_mouse_released: false, ..state }
    } else {
        state
    }
}

/// The update on the events from index `from` on. The events are applied one
/// after the other, up to and including the first that asks to quit or to
/// run the command. Where none does, the frame is started and drawn.
pub open spec fn updated(
    state: StateView,
    events: Seq<Event>,
    from: int,
    size: Size,
    seed: usize,
) -> Updated
    decreases events.len() - from,
{
    if from < 0 || from >= events.len() {
        Updated {
            state: StateView { ui_context: frame_start(state.ui_context), ..state },
            update: UpdateView::Frame { draws: frame_draws(state) },
        }
    } else {
        let next = after_event(state, events[from], size, seed);
        if asks_to_quit(events[from]) {
            Updated { state: next, update: UpdateView::Quit }
        } else if asks_to_execute(events[from]) {
            Updated { state: next, update: UpdateView::Execute { resume: from + 1 } }
        } else {
            updated(next, events, from + 1, size, seed)
        }
    }
}

/// What running the command adds to the output. The command line is cut at
/// its first blank into the program name and the argument text. Where the
/// program was not found, that is said with its name; where it ran, the
/// place it was found at and the argument text make one line, and what the
/// program wrote follows.
pub open spec fn execution_text(command: Seq<char>, execution: ExecutionView) -> Seq<char> {
    let cut = first_blank(command, 0);
    match execution {
        ExecutionView::NotFound => "Could not find \""@ + command.take(cut) + "\"!"@,
        ExecutionView::Ran { program, output } => program + seq![' '] + command.skip(cut)
            + seq!['\n'] + output,
    }
}

/// The state of a new screen.
pub fn new_state(size: Size, seed: usize) -> (state: State)
    ensures
        state@ == fresh(size, seed),
{
    State {
        rng: seeded_rng(seed),
        size,
        prompt: String::from_str("> "),
        command: String::new(),
        output: String::new(),
        left_mouse_pressed: false,
        left_mouse_released: false,
        ui_context: UIContext::new(),
    }
}

/// Resets the screen if the event asks for it.
pub fn cross_mode_event_handling(state: &mut State, event: &Event, size: Size, seed: usize)
    ensures
        final(state)@ == after_reset(old(state)@, *event, size, seed),
{
    match *event {
        Event::KeyPressed { key: KeyCode::R, ctrl: true, shift: _ } => {
            *state = new_state(size, seed);
        },
        _ => {},
    }
}

/// Types the event into the command line.
pub fn typing_events(state: &mut State, event: &Event)
    ensures
        final(state)@ == after_typing(old(state)@, *event),
{
    match *event {
        Event::KeyPressed { key, ctrl: _, shift } => {
            match key {
                KeyCode::Backspace => {
                    let _ = state.command.pop();
                },
                _ => {
                    match typed_char(key, shift) {
                        Some(c) => {
                            state.command.push(c);
                        },
                        None => {},
                    }
                },
            }
        },
        _ => {},
    }
}

/// Records what became of the command that was entered, by adding to the
/// output.
pub fn execute_command(state: &mut State, execution: &Execution)
    ensures
        final(state)@ == (StateView {
            output: old(state)@.output + execution_text(old(state)@.command, execution@),
            ..old(state)@
        }),
{
    let (name, args) = split_command(state.command.as_str());
    match execution {
        Execution::NotFound => {
            state.output.append("Could not find \"");
            state.output.append(name.as_str());
            state.output.append("\"!");
            assert(state.output@ =~= old(state)@.output + ("Could not find \""@ + name@ + "\"!"@));
        },
        Execution::Ran { program, output } => {
            state.output.append(program.as_str());
            state.output.push(' ');
            state.output.append(args.as_str());
            state.output.push('\n');
            state.output.append(output.as_str());
            assert(state.output@ =~= old(state)@.output + (program@ + seq![' '] + args@ + seq![
                '\n',
            ] + output@));
        },
    }
}

/// Applies the events from index `from` on to the state, and says what the
/// driver is to do: leave, run the command and come back, or draw the frame.
/// An update of a frame's events starts with `from` at 0.
pub fn update_and_render(
    state: &mut State,
    events: &Vec<Event>,
    from: usize,
    size: Size,
    seed: usize,
) -> (update: Update)
    ensures
        final(state)@ == updated(
            update_start(old(state)@, from as int),
            events@,
            from as int,
            size,
            seed,
        ).state,
        update@ == updated(
            update_start(old(state)@, from as int),
            events@,
            from as int,
            size,
            seed,
        ).update,
{
    if from == 0 {
        state.left_mouse_pressed = false;
        state.left_mouse_released = false;
    }
    let ghost goal = updated(update_start(old(state)@, from as int), events@, from as int, size, seed);
    let mut i: usize = from;
    while i < events.len()
        invariant
            updated(state@, events@, i as int, size, seed) == goal,
            goal == updated(
                update_start(old(state)@, from as int),
                events@,
                from as int,
                size,
                seed,
            ),
        decreases events.len() - i,
    {
        let event = events[i];
        cross_mode_event_handling(state, &event, size, seed);
        typing_events(state, &event);
        match event {
            Event::KeyPressed { key: KeyCode::MouseLeft, ctrl: _, shift: _ } => {
                state.left_mouse_pressed = true;
            },
            Event::KeyReleased { key: KeyCode::MouseLeft, ctrl: _, shift: _ } => {
                state.left_mouse_released = true;
            },
            Event::Close => {
                return Update::Quit;
            },
            Event::KeyPressed { key: KeyCode::Escape, ctrl: _, shift: _ } => {
                return Update::Quit;
            },
            Event::KeyReleased { key: KeyCode::Enter, ctrl: _, shift: _ } => {
                return Update::Execute { resume: i + 1 };
            },
            _ => {},
        }
        i += 1;
    }
    let ghost shown = state@;
    state.ui_context.frame_init();
    let width = state.prompt.as_str().len();
    let column: i32 = #[verifier::truncate]
    (width as i32);
    let mut draws: Vec<Draw> = Vec::new();
    draws.push(Draw::Print { x: 0, y: 0, text: state.prompt.clone() });
    draws.push(Draw::Print { x: column, y: 0, text: state.command.clone() });
    draws.push(Draw::Print { x: 0, y: 1, text: state.output.clone() });
    assert(draws.deep_view() =~= frame_draws(shown));
    Update::Frame { draws }
}

} // verus!
