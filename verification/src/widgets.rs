//! Immediate-mode widgets on a grid of character cells: what to draw for a
//! frame is computed here, as a list of drawing commands, and carried out by
//! whoever owns the terminal.

use vstd::prelude::*;

verus! {

/// A cell of the grid.
#[derive(Debug, Clone, Copy, PartialEq, Eq, Structural)]
pub struct Point {
    pub x: i32,
    pub y: i32,
}

/// The size of a grid, in cells.
#[derive(Debug, Clone, Copy, PartialEq, Eq, Structural)]
pub struct Size {
    pub width: i32,
    pub height: i32,
}

/// One drawing command.
#[derive(Debug, Clone, PartialEq, Eq)]
pub enum Draw {
    /// Clear the `w` by `h` cells whose top left corner is at `(x, y)`.
    Clear { x: i32, y: i32, w: i32, h: i32 },
    /// Print `text` from the cell `(x, y)` on.
    Print { x: i32, y: i32, text: String },
}

/// The mathematical value of a [`Draw`].
pub enum DrawView {
    Clear { x: i32, y: i32, w: i32, h: i32 },
    Print { x: i32, y: i32, text: Seq<char> },
}

impl View for Draw {
    type V = DrawView;

    open spec fn view(&self) -> DrawView {
        match *self {
            Draw::Clear { x, y, w, h } => DrawView::Clear { x, y, w, h },
            Draw::Print { x, y, text } => DrawView::Print { x, y, text: text@ },
        }
    }
}

impl DeepView for Draw {
    type V = DrawView;

    open spec fn deep_view(&self) -> DrawView {
        self.view()
    }
}

/// Which widget the mouse is over and which one is being pressed. Widgets
/// are told apart by an id other than 0.
#[derive(Debug, Clone, Copy, PartialEq, Eq, Structural)]
pub struct UIContext {
    /// The widget under the mouse during this frame, or 0.
    pub hot: i32,
    /// The widget on which the mouse button went down, or 0.
    pub active: i32,
    /// The widget that has claimed to be under the mouse in the next frame,
    /// or 0.
    pub next_hot: i32,
}

/// A button: its rectangle, its label and its id.
#[derive(Debug, Clone, PartialEq, Eq)]
pub struct ButtonSpec {
    pub x: i32,
    pub y: i32,
    pub w: i32,
    pub h: i32,
    pub text: String,
    pub id: i32,
}

/// The point lies in the `w` by `h` rectangle whose top left corner is at
/// `(x, y)`.
pub open spec fn in_rect(point: Point, x: i32, y: i32, w: i32, h: i32) -> bool {
    x <= point.x && y <= point.y && point.x < x + w && point.y < y + h
}

/// Half of `n`, rounded towards zero.
pub open spec fn half(n: int) -> int {
    if n >= 0 {
        n / 2
    } else {
        -((-n) / 2)
    }
}

/// The column at which a text of `len` characters starts when it is centred
/// in a rectangle that starts at column `x` and is `w` cells wide.
pub open spec fn centered_x(x: i32, w: i32, len: nat) -> int {
    x + half(w as int) - len / 2
}

/// The row of the middle of a rectangle that starts at row `y` and is `h`
/// cells high.
pub open spec fn centered_y(y: i32, h: i32) -> int {
    y + half(h as int)
}

/// The longest text that can be centred.
pub open spec fn max_label_len() -> nat {
    0x100_0000
}

/// A text of `len` characters can be centred in the rectangle: it is not
/// longer than [`max_label_len`], and its first cell has coordinates that
/// are 32-bit numbers.
pub open spec fn label_fits(x: i32, y: i32, w: i32, h: i32, len: nat) -> bool {
    &&& len <= max_label_len()
    &&& i32::MIN <= centered_x(x, w, len) <= i32::MAX
    &&& i32::MIN <= centered_y(y, h) <= i32::MAX
}

/// The far corner of the rectangle has coordinates that are 32-bit numbers.
pub open spec fn rect_fits(x: i32, y: i32, w: i32, h: i32) -> bool {
    &&& i32::MIN <= x + w - 1 <= i32::MAX
    &&& i32::MIN <= y + h - 1 <= i32::MAX
}

/// The cells `from..to` of row `y`, each printed with `text`.
pub open spec fn row(from: int, to: int, y: i32, text: Seq<char>) -> Seq<DrawView> {
    Seq::new(
        if to > from {
            (to - from) as nat
        } else {
            0
        },
        |k: int| DrawView::Print { x: (from + k) as i32, y, text },
    )
}

/// The rows `from..to`, each printed with `l` in column `left` and then with
/// `r` in column `right`.
pub open spec fn sides(from: int, to: int, left: i32, right: i32, l: Seq<char>, r: Seq<char>) -> Seq<
    DrawView,
> {
    Seq::new(
        if to > from {
            (2 * (to - from)) as nat
        } else {
            0
        },
        |k: int|
            if k % 2 == 0 {
                DrawView::Print { x: left, y: (from + k / 2) as i32, text: l }
            } else {
                DrawView::Print { x: right, y: (from + k / 2) as i32, text: r }
            },
    )
}

/// The drawing of a framed rectangle. The area is cleared; then come the top
/// row from left to right, the two sides row by row, and the bottom row. The
/// eight `edges` are: top left corner, top, top right corner, left, right,
/// bottom left corner, bottom, bottom right corner.
pub open spec fn rect_draws(x: i32, y: i32, w: i32, h: i32, edges: Seq<Seq<char>>) -> Seq<
    DrawView,
> {
    let right = (x + w - 1) as i32;
    let bottom = (y + h - 1) as i32;
    seq![DrawView::Clear { x, y, w, h }, DrawView::Print { x, y, text: edges[0] }] + row(
        x + 1,
        right as int,
        y,
        edges[1],
    ) + seq![DrawView::Print { x: right, y, text: edges[2] }] + sides(
        y + 1,
        bottom as int,
        x,
        right,
        edges[3],
        edges[4],
    ) + seq![DrawView::Print { x, y: bottom, text: edges[5] }] + row(
        x + 1,
        right as int,
        bottom,
        edges[6],
    ) + seq![DrawView::Print { x: right, y: bottom, text: edges[7] }]
}

/// The texts of eight edges.
pub open spec fn edge_texts(edges: [&str; 8]) -> Seq<Seq<char>> {
    Seq::new(8, |i: int| edges@[i]@)
}

/// The edges of a button at rest.
pub open spec fn plain_edges() -> Seq<Seq<char>> {
    seq!["┌"@, "─"@, "┐"@, "│"@, "│"@, "└"@, "─"@, "┘"@]
}

/// The edges of a button under the mouse.
pub open spec fn hot_edges() -> Seq<Seq<char>> {
    seq!["┌"@, "─"@, "╖"@, "│"@, "║"@, "╘"@, "═"@, "╝"@]
}

/// The edges of a button that is held down.
pub open spec fn pressed_edges() -> Seq<Seq<char>> {
    seq!["╔"@, "═"@, "╕"@, "║"@, "│"@, "╙"@, "─"@, "┘"@]
}

/// The drawing of a text centred in a rectangle.
pub open spec fn centered_line(x: i32, y: i32, w: i32, h: i32, text: Seq<char>) -> DrawView {
    DrawView::Print {
        x: centered_x(x, w, text.len()) as i32,
        y: centered_y(y, h) as i32,
        text,
    }
}

/// The context at the start of a frame: unless a widget is being pressed,
/// the widget that claimed the mouse in the last frame is now under it; the
/// claim for the next frame is open again.
pub open spec fn frame_start(context: UIContext) -> UIContext {
    UIContext {
        hot: if context.active == 0 {
            context.next_hot
        } else {
            context.hot
        },
        active: context.active,
        next_hot: 0,
    }
}

/// The context after a button has taken note of the mouse. A button that is
/// being pressed is let go when the mouse button goes up; a button under the
/// mouse is taken hold of when the mouse button goes down; a button that the
/// mouse is in claims the mouse for the next frame.
pub open spec fn button_context(
    context: UIContext,
    id: i32,
    inside: bool,
    pressed: bool,
    released: bool,
) -> UIContext {
    UIContext {
        hot: context.hot,
        active: if context.active == id {
            if released {
                0
            } else {
                context.active
            }
        } else if context.hot == id && pressed {
            id
        } else {
            context.active
        },
        next_hot: if inside {
            id
        } else {
            context.next_hot
        },
    }
}

/// The button was clicked: it was being pressed, the mouse button went up,
/// and the mouse is still over the button and in its rectangle.
pub open spec fn button_clicked(context: UIContext, id: i32, inside: bool, released: bool) -> bool {
    context.active == id && released && context.hot == id && inside
}

/// The edges that a button is drawn with.
pub open spec fn button_edges(context: UIContext, id: i32, held: bool) -> Seq<Seq<char>> {
    if context.active == id && held {
        pressed_edges()
    } else if context.hot == id {
        hot_edges()
    } else {
        plain_edges()
    }
}

impl ButtonSpec {
    /// The button can be drawn: its frame and its label have coordinates
    /// that are 32-bit numbers.
    pub open spec fn fits(&self) -> bool {
        rect_fits(self.x, self.y, self.w, self.h) && label_fits(
            self.x,
            self.y,
            self.w,
            self.h,
            self.text@.len(),
        )
    }
}

impl UIContext {
    /// A context in which no widget is under the mouse or pressed.
    pub fn new() -> (context: UIContext)
        ensures
            context == (UIContext { hot: 0, active: 0, next_hot: 0 }),
    {
        UIContext { hot: 0, active: 0, next_hot: 0 }
    }

    /// No widget is being pressed any more.
    pub fn set_not_active(&mut self)
        ensures
            *final(self) == (UIContext { active: 0, ..*old(self) }),
    {
        self.active = 0;
    }

    /// The widget `id` is being pressed.
    pub fn set_active(&mut self, id: i32)
        ensures
            *final(self) == (UIContext { active: id, ..*old(self) }),
    {
        self.active = id;
    }

    /// The widget `id` claims the mouse for the next frame.
    pub fn set_next_hot(&mut self, id: i32)
        ensures
            *final(self) == (UIContext { next_hot: id, ..*old(self) }),
    {
        self.next_hot = id;
    }

    /// Starts a frame.
    pub fn frame_init(&mut self)
        ensures
            *final(self) == frame_start(*old(self)),
    {
        if self.active == 0 {
            self.hot = self.next_hot;
        }
        self.next_hot = 0;
    }
}

/// Tells whether `point` lies in the `w` by `h` rectangle whose top left
/// corner is at `(x, y)`.
pub fn inside_rect(point: Point, x: i32, y: i32, w: i32, h: i32) -> (inside: bool)
    ensures
        inside == in_rect(point, x, y, w, h),
{
    let px: i64 = point.x as i64;
    let py: i64 = point.y as i64;
    x <= point.x && y <= point.y && px < x as i64 + w as i64 && py < y as i64 + h as i64
}

/// Half of `n`, rounded towards zero.
fn half_of(n: i32) -> (r: i64)
    ensures
        r == half(n as int),
{
    let wide: i64 = n as i64;
    if wide >= 0 {
        wide / 2
    } else {
        -((-wide) / 2)
    }
}

/// The command that prints `text` centred in the rectangle.
pub fn print_centered_line(x: i32, y: i32, w: i32, h: i32, text: &str) -> (draw: Draw)
    requires
        label_fits(x, y, w, h, text@.len()),
    ensures
        draw@ == centered_line(x, y, w, h, text@),
{
    let len = text.unicode_len();
    let column: i64 = x as i64 + half_of(w) - (len / 2) as i64;
    let line: i64 = y as i64 + half_of(h);
    Draw::Print { x: column as i32, y: line as i32, text: String::from_str(text) }
}

/// The commands that draw a framed rectangle with the given edges.
pub fn draw_rect_with(x: i32, y: i32, w: i32, h: i32, edges: [&str; 8]) -> (draws: Vec<Draw>)
    requires
        rect_fits(x, y, w, h),
    ensures
        draws.deep_view() == rect_draws(x, y, w, h, edge_texts(edges)),
{
    let ghost e = edge_texts(edges);
    let right: i32 = (x as i64 + w as i64 - 1) as i32;
    let bottom: i32 = (y as i64 + h as i64 - 1) as i32;
    let mut draws: Vec<Draw> = Vec::new();
    draws.push(Draw::Clear { x, y, w, h });
    draws.push(Draw::Print { x, y, text: String::from_str(edges[0]) });
    let ghost head = seq![DrawView::Clear { x, y, w, h }, DrawView::Print { x, y, text: e[0] }];
    assert(draws.deep_view() =~= head);
    let mut i: i64 = x as i64 + 1;
    while i < right as i64
        invariant
            right == x + w - 1,
            x + 1 <= i,
            i <= right || i == x + 1,
            draws.deep_view() == head + row(x + 1, i as int, y, e[1]),
            e == edge_texts(edges),
        decreases right - i,
    {
        let ghost before = draws.deep_view();
        draws.push(Draw::Print { x: i as i32, y, text: String::from_str(edges[1]) });
        assert(draws.deep_view() =~= before.push(DrawView::Print { x: i as i32, y, text: e[1] }));
        assert(row(x + 1, i + 1, y, e[1]) =~= row(x + 1, i as int, y, e[1]).push(
            DrawView::Print { x: i as i32, y, text: e[1] },
        ));
        i = i + 1;
        assert(draws.deep_view() =~= head + row(x + 1, i as int, y, e[1]));
    }
    assert(row(x + 1, i as int, y, e[1]) =~= row(x + 1, right as int, y, e[1]));
    let ghost top = draws.deep_view().push(DrawView::Print { x: right, y, text: e[2] });
    draws.push(Draw::Print { x: right, y, text: String::from_str(edges[2]) });
    assert(draws.deep_view() =~= top);
    let mut j: i64 = y as i64 + 1;
    while j < bottom as i64
        invariant
            bottom == y + h - 1,
            y + 1 <= j,
            j <= bottom || j == y + 1,
            draws.deep_view() == top + sides(y + 1, j as int, x, right, e[3], e[4]),
            e == edge_texts(edges),
        decreases bottom - j,
    {
        let ghost before = draws.deep_view();
        draws.push(Draw::Print { x, y: j as i32, text: String::from_str(edges[3]) });
        draws.push(Draw::Print { x: right, y: j as i32, text: String::from_str(edges[4]) });
        assert(draws.deep_view() =~= before.push(
            DrawView::Print { x, y: j as i32, text: e[3] },
        ).push(DrawView::Print { x: right, y: j as i32, text: e[4] }));
        assert(sides(y + 1, j + 1, x, right, e[3], e[4]) =~= sides(
            y + 1,
            j as int,
            x,
            right,
            e[3],
            e[4],
        ).push(DrawView::Print { x, y: j as i32, text: e[3] }).push(
            DrawView::Print { x: right, y: j as i32, text: e[4] },
        ));
        j = j + 1;
        assert(draws.deep_view() =~= top + sides(y + 1, j as int, x, right, e[3], e[4]));
    }
    assert(sides(y + 1, j as int, x, right, e[3], e[4]) =~= sides(
        y + 1,
        bottom as int,
        x,
        right,
        e[3],
        e[4],
    ));
    let ghost middle = draws.deep_view().push(DrawView::Print { x, y: bottom, text: e[5] });
    draws.push(Draw::Print { x, y: bottom, text: String::from_str(edges[5]) });
    assert(draws.deep_view() =~= middle);
    let mut k: i64 = x as i64 + 1;
    while k < right as i64
        invariant
            right == x + w - 1,
            x + 1 <= k,
            k <= right || k == x + 1,
            draws.deep_view() == middle + row(x + 1, k as int, bottom, e[6]),
            e == edge_texts(edges),
        decreases right - k,
    {
        let ghost before = draws.deep_view();
        draws.push(Draw::Print { x: k as i32, y: bottom, text: String::from_str(edges[6]) });
        assert(draws.deep_view() =~= before.push(
            DrawView::Print { x: k as i32, y: bottom, text: e[6] },
        ));
        assert(row(x + 1, k + 1, bottom, e[6]) =~= row(x + 1, k as int, bottom, e[6]).push(
            DrawView::Print { x: k as i32, y: bottom, text: e[6] },
        ));
        k = k + 1;
        assert(draws.deep_view() =~= middle + row(x + 1, k as int, bottom, e[6]));
    }
    assert(row(x + 1, k as int, bottom, e[6]) =~= row(x + 1, right as int, bottom, e[6]));
    let ghost all = draws.deep_view().push(DrawView::Print { x: right, y: bottom, text: e[7] });
    draws.push(Draw::Print { x: right, y: bottom, text: String::from_str(edges[7]) });
    assert(draws.deep_view() =~= all);
    assert(all =~= rect_draws(x, y, w, h, e));
    draws
}

/// The commands that draw a rectangle framed with single lines.
pub fn draw_rect(x: i32, y: i32, w: i32, h: i32) -> (draws: Vec<Draw>)
    requires
        rect_fits(x, y, w, h),
    ensures
        draws.deep_view() == rect_draws(x, y, w, h, plain_edges()),
{
    let edges = ["┌", "─", "┐", "│", "│", "└", "─", "┘"];
    assert(edge_texts(edges) =~= plain_edges());
    draw_rect_with(x, y, w, h, edges)
}

/// Handles a button for one frame and draws it. `mouse` is the cell that the
/// mouse is in, `held` tells whether the left mouse button is down now, and
/// `left_mouse_pressed` and `left_mouse_released` whether it went down or up
/// during the frame. Returns whether the button was clicked, and the
/// commands that draw it.
pub fn do_button(
    context: &mut UIContext,
    spec: &ButtonSpec,
    mouse: Point,
    held: bool,
    left_mouse_pressed: bool,
    left_mouse_released: bool,
) -> (result: (bool, Vec<Draw>))
    requires
        spec.fits(),
    ensures
        result.0 == button_clicked(
            *old(context),
            spec.id,
            in_rect(mouse, spec.x, spec.y, spec.w, spec.h),
            left_mouse_released,
        ),
        *final(context) == button_context(
            *old(context),
            spec.id,
            in_rect(mouse, spec.x, spec.y, spec.w, spec.h),
            left_mouse_pressed,
            left_mouse_released,
        ),
        result.1.deep_view() == rect_draws(
            spec.x,
            spec.y,
            spec.w,
            spec.h,
            button_edges(*final(context), spec.id, held),
        ).push(centered_line(spec.x, spec.y, spec.w, spec.h, spec.text@)),
{
    let mut clicked = false;
    let inside = inside_rect(mouse, spec.x, spec.y, spec.w, spec.h);
    let id = spec.id;
    if context.active == id {
        if left_mouse_released {
            clicked = context.hot == id && inside;
            context.set_not_active();
        }
    } else if context.hot == id {
        if left_mouse_pressed {
            context.set_active(id);
        }
    }
    if inside {
        context.set_next_hot(id);
    }
    let mut draws = if context.active == id && held {
        let edges = ["╔", "═", "╕", "║", "│", "╙", "─", "┘"];
        assert(edge_texts(edges) =~= pressed_edges());
        draw_rect_with(spec.x, spec.y, spec.w, spec.h, edges)
    } else if context.hot == id {
        let edges = ["┌", "─", "╖", "│", "║", "╘", "═", "╝"];
        assert(edge_texts(edges) =~= hot_edges());
        draw_rect_with(spec.x, spec.y, spec.w, spec.h, edges)
    } else {
        draw_rect(spec.x, spec.y, spec.w, spec.h)
    };
    let ghost frame = draws.deep_view();
    let label = print_centered_line(spec.x, spec.y, spec.w, spec.h, spec.text.as_str());
    draws.push(label);
    assert(draws.deep_view() =~= frame.push(
        centered_line(spec.x, spec.y, spec.w, spec.h, spec.text@),
    ));
    (clicked, draws)
}

} // verus!
