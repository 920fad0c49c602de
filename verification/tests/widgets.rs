use er::widgets::{do_button, draw_rect, draw_rect_with, inside_rect, print_centered_line, ButtonSpec, Draw, Point, UIContext};

fn print(x: i32, y: i32, text: &str) -> Draw {
    Draw::Print { x, y, text: text.to_string() }
}

fn button() -> ButtonSpec {
    ButtonSpec { x: 0, y: 0, w: 11, h: 3, text: "Button".to_string(), id: 1 }
}

#[test]
fn a_point_is_inside_from_the_near_corner_up_to_the_far_one() {
    assert!(inside_rect(Point { x: 2, y: 3 }, 2, 3, 4, 5));
    assert!(inside_rect(Point { x: 5, y: 7 }, 2, 3, 4, 5));
    assert!(!inside_rect(Point { x: 6, y: 7 }, 2, 3, 4, 5));
    assert!(!inside_rect(Point { x: 5, y: 8 }, 2, 3, 4, 5));
    assert!(!inside_rect(Point { x: 1, y: 3 }, 2, 3, 4, 5));
    assert!(!inside_rect(Point { x: 2, y: 2 }, 2, 3, 4, 5));
}

#[test]
fn nothing_is_inside_an_empty_rectangle() {
    assert!(!inside_rect(Point { x: 0, y: 0 }, 0, 0, 0, 0));
    assert!(!inside_rect(Point { x: 0, y: 0 }, 0, 0, -1, 5));
}

#[test]
fn inside_is_decided_without_overflow() {
    assert!(inside_rect(Point { x: i32::MAX, y: i32::MAX }, i32::MAX, i32::MAX, 1, 1));
    assert!(inside_rect(Point { x: i32::MAX, y: 0 }, 0, 0, i32::MAX, 1) == false);
    assert!(inside_rect(Point { x: i32::MAX, y: 0 }, 1, 0, i32::MAX, 1));
}

#[test]
fn a_line_is_centred_in_its_rectangle() {
    assert_eq!(print_centered_line(0, 0, 11, 3, "Button"), print(2, 1, "Button"));
    assert_eq!(print_centered_line(10, 20, 4, 4, "abc"), print(11, 22, "abc"));
    assert_eq!(print_centered_line(0, 0, 0, 0, ""), print(0, 0, ""));
    assert_eq!(print_centered_line(0, 0, 2, 1, "abcdef"), print(-2, 0, "abcdef"));
}

#[test]
fn centring_counts_characters_and_halves_towards_zero() {
    assert_eq!(print_centered_line(0, 0, 10, 0, "éß"), print(4, 0, "éß"));
    assert_eq!(print_centered_line(0, 0, -3, -3, "x"), print(-1, -1, "x"));
    assert_eq!(print_centered_line(0, 0, 3, 3, "x"), print(1, 1, "x"));
}

#[test]
fn a_rectangle_is_drawn_row_by_row() {
    let edges = ["a", "b", "c", "d", "e", "f", "g", "h"];
    assert_eq!(
        draw_rect_with(1, 2, 4, 3, edges),
        vec![
            Draw::Clear { x: 1, y: 2, w: 4, h: 3 },
            print(1, 2, "a"),
            print(2, 2, "b"),
            print(3, 2, "b"),
            print(4, 2, "c"),
            print(1, 3, "d"),
            print(4, 3, "e"),
            print(1, 4, "f"),
            print(2, 4, "g"),
            print(3, 4, "g"),
            print(4, 4, "h"),
        ]
    );
}

#[test]
fn a_tall_rectangle_has_its_sides_in_pairs() {
    let edges = ["a", "b", "c", "d", "e", "f", "g", "h"];
    assert_eq!(
        draw_rect_with(0, 0, 2, 4, edges),
        vec![
            Draw::Clear { x: 0, y: 0, w: 2, h: 4 },
            print(0, 0, "a"),
            print(1, 0, "c"),
            print(0, 1, "d"),
            print(1, 1, "e"),
            print(0, 2, "d"),
            print(1, 2, "e"),
            print(0, 3, "f"),
            print(1, 3, "h"),
        ]
    );
}

#[test]
fn a_rectangle_of_one_cell_has_its_corners_on_top_of_each_other() {
    let edges = ["a", "b", "c", "d", "e", "f", "g", "h"];
    assert_eq!(
        draw_rect_with(5, 5, 1, 1, edges),
        vec![Draw::Clear { x: 5, y: 5, w: 1, h: 1 }, print(5, 5, "a"), print(5, 5, "c"), print(5, 5, "f"), print(5, 5, "h")]
    );
}

#[test]
fn a_plain_rectangle_has_single_lines() {
    assert_eq!(
        draw_rect(0, 0, 3, 3),
        vec![
            Draw::Clear { x: 0, y: 0, w: 3, h: 3 },
            print(0, 0, "┌"),
            print(1, 0, "─"),
            print(2, 0, "┐"),
            print(0, 1, "│"),
            print(2, 1, "│"),
            print(0, 2, "└"),
            print(1, 2, "─"),
            print(2, 2, "┘"),
        ]
    );
}

#[test]
fn a_frame_of_the_context_takes_over_the_claim() {
    let mut context = UIContext::new();
    context.set_next_hot(4);
    context.frame_init();
    assert_eq!(context, UIContext { hot: 4, active: 0, next_hot: 0 });
    context.set_active(4);
    context.set_next_hot(5);
    context.frame_init();
    assert_eq!(context, UIContext { hot: 4, active: 4, next_hot: 0 });
    context.set_not_active();
    assert_eq!(context, UIContext { hot: 4, active: 0, next_hot: 0 });
}

#[test]
fn a_button_at_rest_is_drawn_plain_with_its_label() {
    let mut context = UIContext::new();
    let (clicked, draws) = do_button(&mut context, &button(), Point { x: 20, y: 20 }, false, false, false);
    assert!(!clicked);
    assert_eq!(context, UIContext::new());
    assert_eq!(draws.len(), 1 + 2 * 11 + 2 + 1);
    assert_eq!(draws[0], Draw::Clear { x: 0, y: 0, w: 11, h: 3 });
    assert_eq!(draws[1], print(0, 0, "┌"));
    assert_eq!(draws[11], print(10, 0, "┐"));
    assert_eq!(draws[12], print(0, 1, "│"));
    assert_eq!(draws[13], print(10, 1, "│"));
    assert_eq!(draws[24], print(10, 2, "┘"));
    assert_eq!(draws[25], print(2, 1, "Button"));
}

#[test]
fn a_button_under_the_mouse_claims_it_and_is_drawn_hot_in_the_next_frame() {
    let mut context = UIContext::new();
    let mouse = Point { x: 3, y: 1 };
    let (clicked, draws) = do_button(&mut context, &button(), mouse, false, false, false);
    assert!(!clicked);
    assert_eq!(context, UIContext { hot: 0, active: 0, next_hot: 1 });
    assert_eq!(draws[11], print(10, 0, "┐"));
    context.frame_init();
    let (_, draws) = do_button(&mut context, &button(), mouse, false, false, false);
    assert_eq!(context, UIContext { hot: 1, active: 0, next_hot: 1 });
    assert_eq!(draws[1], print(0, 0, "┌"));
    assert_eq!(draws[11], print(10, 0, "╖"));
    assert_eq!(draws[13], print(10, 1, "║"));
    assert_eq!(draws[14], print(0, 2, "╘"));
    assert_eq!(draws[15], print(1, 2, "═"));
    assert_eq!(draws[24], print(10, 2, "╝"));
}

#[test]
fn a_button_is_clicked_when_the_mouse_goes_down_and_up_on_it() {
    let mut context = UIContext { hot: 1, active: 0, next_hot: 0 };
    let mouse = Point { x: 3, y: 1 };
    let (clicked, draws) = do_button(&mut context, &button(), mouse, true, true, false);
    assert!(!clicked);
    assert_eq!(context, UIContext { hot: 1, active: 1, next_hot: 1 });
    assert_eq!(draws[1], print(0, 0, "╔"));
    assert_eq!(draws[2], print(1, 0, "═"));
    assert_eq!(draws[11], print(10, 0, "╕"));
    assert_eq!(draws[12], print(0, 1, "║"));
    assert_eq!(draws[14], print(0, 2, "╙"));
    context.frame_init();
    let (clicked, _) = do_button(&mut context, &button(), mouse, false, false, true);
    assert!(clicked);
    assert_eq!(context, UIContext { hot: 1, active: 0, next_hot: 1 });
}

#[test]
fn a_button_is_not_clicked_when_the_mouse_goes_up_elsewhere() {
    let mut context = UIContext { hot: 1, active: 1, next_hot: 0 };
    let (clicked, _) = do_button(&mut context, &button(), Point { x: 30, y: 1 }, false, false, true);
    assert!(!clicked);
    assert_eq!(context, UIContext { hot: 1, active: 0, next_hot: 0 });
}

#[test]
fn a_button_that_is_not_hot_is_not_taken_hold_of() {
    let mut context = UIContext { hot: 2, active: 0, next_hot: 0 };
    let (clicked, _) = do_button(&mut context, &button(), Point { x: 3, y: 1 }, true, true, false);
    assert!(!clicked);
    assert_eq!(context, UIContext { hot: 2, active: 0, next_hot: 1 });
}
