use cui::app::{App, Step};
use cui::elements::{pop_elements, Block, Border, Button, Container, Element, Text};
use cui::grid::Window;
use cui::prompt::{handle_button, spans, PromptEvent};

const KEY: u64 = 0;

fn row_string(w: &Window, r: usize) -> String {
    w.row(r).iter().collect()
}

fn chars(s: &str) -> Vec<char> {
    s.chars().collect()
}

#[test]
fn new_window_is_blank() {
    let w = Window::new(4, 2);
    assert_eq!(w.width(), 4);
    assert_eq!(w.height(), 2);
    assert_eq!(row_string(&w, 0), "    ");
    assert_eq!(row_string(&w, 1), "    ");
}

#[test]
fn write_at_or_below_max_row_changes_nothing() {
    let mut w = Window::new(10, 5);
    w.show_string(&chars("abc"), 1, 0, 2, 3, 0, 10);
    for r in 0..5 {
        assert_eq!(row_string(&w, r), "          ");
    }
}

#[test]
fn write_is_cut_at_max_col() {
    let mut w = Window::new(10, 3);
    w.show_string(&chars("abcdef"), 1, 2, 0, 3, 0, 5);
    assert_eq!(row_string(&w, 1), "  abc     ");
    assert_eq!(row_string(&w, 0), "          ");
    assert_eq!(row_string(&w, 2), "          ");
}

#[test]
fn write_skips_columns_before_min_col() {
    let mut w = Window::new(10, 3);
    w.show_string(&chars("abcdef"), 0, -2, 0, 3, 4, 8);
    assert_eq!(row_string(&w, 0), "    cdef  ");
}

#[test]
fn write_with_negative_row_is_dropped() {
    let mut w = Window::new(4, 2);
    w.show_string(&chars("ab"), -1, 0, 0, 2, 0, 4);
    assert_eq!(row_string(&w, 0), "    ");
    assert_eq!(row_string(&w, 1), "    ");
}

#[test]
fn clear_resets_every_cell() {
    let mut w = Window::new(3, 2);
    w.show_string(&chars("xyz"), 1, 0, 0, 2, 0, 3);
    assert_eq!(row_string(&w, 1), "xyz");
    w.clear();
    assert_eq!(row_string(&w, 1), "   ");
}

#[test]
fn pop_returns_in_stack_order() {
    let mut b = Block::new(5, 5, Border::Slim, 0, "b", "b", 0, 0);
    b.push_element(Text::inbox("a", 0, 0, "first"));
    b.push_element(Text::inbox("b", 0, 0, "second"));
    b.push_element(Text::inbox("c", 0, 0, "third"));
    assert_eq!(b.pop_element().unwrap().get_id().as_str(), "third");
    assert_eq!(b.pop_element().unwrap().get_id().as_str(), "second");
    assert_eq!(b.pop_element().unwrap().get_id().as_str(), "first");
    assert!(b.pop_element().is_none());
}

#[test]
fn remove_by_position() {
    let mut b = Block::new(5, 5, Border::Slim, 0, "b", "b", 0, 0);
    b.push_element(Text::inbox("a", 0, 0, "x"));
    b.push_element(Text::inbox("b", 0, 0, "y"));
    assert!(b.remove_element(2).is_none());
    assert_eq!(b.elements.len(), 2);
    assert_eq!(b.remove_element(0).unwrap().get_id().as_str(), "x");
    assert_eq!(b.elements.len(), 1);
    assert_eq!(b.elements[0].get_id().as_str(), "y");
}

#[test]
fn insert_at_position() {
    let mut b = Block::new(5, 5, Border::Slim, 0, "b", "b", 0, 0);
    b.push_element(Text::inbox("a", 0, 0, "x"));
    b.push_element(Text::inbox("b", 0, 0, "z"));
    b.insert_element(Text::inbox("c", 0, 0, "y"), 1);
    let ids: Vec<String> = b.elements.iter().map(|e| e.get_id().clone()).collect();
    assert_eq!(ids, vec!["x".to_string(), "y".to_string(), "z".to_string()]);
}

#[test]
fn lookups_by_id_take_the_first_match() {
    let mut b = Block::new(5, 5, Border::Slim, 0, "b", "b", 0, 0);
    b.push_element(Text::inbox("one", 0, 0, "dup"));
    b.push_element(Text::inbox("two", 0, 0, "dup"));
    match b.get_element_by_id("dup") {
        Some(Element::Text(t)) => assert_eq!(t.text, chars("one")),
        _ => panic!("expected the first text"),
    }
    assert_eq!(b.elements.len(), 2);
    match b.remove_element_by_id("dup") {
        Some(Element::Text(t)) => assert_eq!(t.text, chars("one")),
        _ => panic!("expected the first text"),
    }
    assert_eq!(b.elements.len(), 1);
    match b.get_element_by_id("dup") {
        Some(Element::Text(t)) => assert_eq!(t.text, chars("two")),
        _ => panic!("expected the second text"),
    }
}

#[test]
fn lookups_by_missing_id_change_nothing() {
    let mut b = Block::new(5, 5, Border::Slim, 0, "b", "b", 0, 0);
    b.push_element(Text::inbox("a", 0, 0, "x"));
    assert!(b.get_element_by_id("nope").is_none());
    assert!(b.remove_element_by_id("nope").is_none());
    assert_eq!(b.elements.len(), 1);
}

#[test]
fn text_inside_padded_block_renders_inset() {
    let mut app = App::new(40, 21);
    let mut block = Block::new(10, 3, Border::Slim, 1, "", "blk", 2, 2);
    block.push_element(Text::inbox("hi", 0, 0, "t"));
    app.push_element(Element::Block(block));
    let _ = app.redraw();
    let w = app.window();
    assert_eq!(w.width(), 40);
    assert_eq!(w.height(), 20);
    assert_eq!(w.get(3, 3), 'h');
    assert_eq!(w.get(3, 4), 'i');
    assert_eq!(w.get(2, 2), ' ');
    assert_eq!(w.get(0, 0), '╭');
    assert_eq!(w.get(0, 13), '╮');
    assert_eq!(w.get(1, 0), '│');
    assert_eq!(w.get(6, 0), '╰');
}

#[test]
fn block_children_are_clipped_to_its_interior() {
    let mut app = App::new(30, 11);
    let mut block = Block::new(4, 2, Border::Bold, 0, "", "blk", 3, 3);
    block.push_element(Text::inbox("abcdefgh", 0, 0, "t"));
    block.push_element(Text::inbox("zz", 5, 0, "below"));
    app.push_element(Element::Block(block));
    let _ = app.redraw();
    let w = app.window();
    assert_eq!(row_string(w, 3), "  ┃abcd┃                      ");
    assert_eq!(w.get(2, 2), '┏');
    assert_eq!(w.get(5, 2), '┗');
    assert_eq!(w.get(8, 3), ' ');
}

#[test]
fn button_renders_a_framed_label() {
    let mut app = App::new(12, 6);
    app.push_element(Button::inbox("go\n".to_string(), KEY, "ok", Border::Slim, 0, "b".to_string(), 1, 1));
    let _ = app.redraw();
    let w = app.window();
    assert_eq!(row_string(w, 0), "╭──╮        ");
    assert_eq!(row_string(w, 1), "│ok│        ");
    assert_eq!(row_string(w, 2), "╰──╯        ");
}

#[test]
fn frame_text_joins_rows_and_ends_with_prompt() {
    let mut app = App::new(2, 3);
    app.push_element(Text::inbox("ab", 1, 0, "t"));
    let text: String = app.redraw().iter().collect();
    assert_eq!(text, "  \nab\n> $ ");
}

#[test]
fn quit_line_stops_the_app() {
    let mut app = App::new(10, 5);
    assert_eq!(app.state(), 1);
    let steps = app.next_steps("quit\n");
    assert!(steps.is_empty());
    assert_eq!(app.state(), 0);
    assert!(app.next_steps("go\n").is_empty());
    assert_eq!(app.state(), 0);
}

#[test]
fn handler_runs_before_elements_then_redraw() {
    let mut app = App::new(10, 5);
    let steps = app.next_steps("go\n");
    assert_eq!(steps, vec![Step::Handler, Step::Forward, Step::Redraw]);
    assert_eq!(app.state(), 1);
    assert_eq!(app.next_steps("quit").len(), 3);
}

#[test]
fn matching_buttons_fire_in_tree_order() {
    let mut app = App::new(10, 5);
    let mut block = Block::new(5, 5, Border::Slim, 0, "", "blk", 0, 0);
    block.push_element(Button::inbox("go\n".to_string(), 2, "a", Border::Slim, 0, "same".to_string(), 0, 0));
    block.push_element(Button::inbox("stop\n".to_string(), 3, "b", Border::Slim, 0, "other".to_string(), 0, 0));
    app.push_element(Button::inbox("go\n".to_string(), 1, "c", Border::Slim, 0, "same".to_string(), 0, 0));
    app.push_element(Element::Block(block));
    app.push_element(Text::inbox("go\n", 0, 0, "text"));
    assert_eq!(app.command_controller(&"go\n".to_string()), vec![1, 2]);
    assert_eq!(app.command_controller(&"stop\n".to_string()), vec![3]);
    assert!(app.command_controller(&"go".to_string()).is_empty());
}

#[test]
fn prompt_answers() {
    let s = spans(7, 3, 2);
    assert_eq!((s.l1, s.r1, s.l2, s.r2), (1, 4, 7, 9));
    assert_eq!(handle_button(PromptEvent::LeftRelease { row: 7, column: 2 }, s), Some(1));
    assert_eq!(handle_button(PromptEvent::LeftRelease { row: 7, column: 8 }, s), Some(2));
    assert_eq!(handle_button(PromptEvent::Cancel, s), Some(0));
    assert_eq!(handle_button(PromptEvent::LeftRelease { row: 6, column: 2 }, s), None);
    assert_eq!(handle_button(PromptEvent::LeftRelease { row: 7, column: 5 }, s), None);
    assert_eq!(handle_button(PromptEvent::Other, s), None);
}

#[test]
fn new_app_window_is_blank() {
    let app = App::new(3, 3);
    let w = app.window();
    assert_eq!(w.height(), 2);
    assert_eq!(row_string(w, 0), "   ");
    assert_eq!(row_string(w, 1), "   ");
    assert_eq!(app.state(), 1);
}

#[test]
fn lookup_by_id_changes_the_element_in_place() {
    let mut app = App::new(6, 4);
    app.push_element(Text::inbox("a", 0, 0, "x"));
    app.push_element(Text::inbox("b", 0, 2, "t"));
    if let Some(Element::Text(t)) = app.get_element_by_id("t") {
        t.r = 2;
    } else {
        panic!("expected the text");
    }
    let _ = app.redraw();
    let w = app.window();
    assert_eq!(row_string(w, 0), "a     ");
    assert_eq!(row_string(w, 2), "  b   ");
    assert_eq!(app.state(), 1);
}

#[test]
fn rows_above_the_clip_rectangle_are_not_written() {
    let mut w = Window::new(10, 5);
    let b = Button::inbox("go\n".to_string(), KEY, "x", Border::Slim, 0, "b".to_string(), -1, 0);
    b.show(&mut w, 2, 5, 0, 10);
    assert_eq!(row_string(&w, 0), "          ");
    assert_eq!(row_string(&w, 1), "          ");
    assert_eq!(row_string(&w, 2), "─╯        ");
}

#[test]
fn title_is_centred_above_the_frame() {
    let mut w = Window::new(20, 10);
    let b = Block::inbox(4, 1, Border::Slim, 0, "ab", "blk", 3, 3);
    b.show(&mut w, 0, 10, 0, 20);
    assert_eq!(row_string(&w, 1), "    ab              ");
    assert_eq!(row_string(&w, 2), "  ╭────╮            ");
    assert_eq!(row_string(&w, 3), "  │    │            ");
    assert_eq!(row_string(&w, 4), "  ╰────╯            ");
}

#[test]
fn title_is_cut_by_the_clip_rectangle() {
    let mut w = Window::new(20, 10);
    let b = Block::inbox(4, 1, Border::Slim, 0, "ab", "blk", 3, 3);
    b.show(&mut w, 0, 10, 0, 5);
    assert_eq!(row_string(&w, 1), "    a               ");
    assert_eq!(row_string(&w, 2), "  ╭──               ");
}

#[test]
fn children_stay_inside_the_parent_clip() {
    let mut w = Window::new(10, 6);
    let mut inner = Block::new(4, 2, Border::Slim, 0, "", "in", 1, 1);
    inner.push_element(Text::inbox("abcdef", 0, -3, "t"));
    let e = Element::Block(inner);
    e.show(&mut w, 0, 6, 2, 10);
    assert_eq!(row_string(&w, 1), "  │def │  ");
    assert_eq!(w.get(1, 1), ' ');
}

#[test]
fn children_do_not_draw_into_the_padding() {
    let mut w = Window::new(40, 20);
    let mut b = Block::new(10, 3, Border::Slim, 1, "", "b", 2, 2);
    b.push_element(Text::inbox("x", -2, 0, "t"));
    b.push_element(Text::inbox("y", -1, 0, "u"));
    Element::Block(b).show(&mut w, 0, 20, 0, 40);
    assert_eq!(w.get(1, 3), ' ');
    assert_eq!(w.get(2, 3), 'y');
}

#[test]
fn popping_many_returns_them_last_first() {
    let mut b = Block::new(5, 5, Border::Slim, 0, "b", "b", 0, 0);
    b.push_element(Text::inbox("a", 0, 0, "keep"));
    b.push_element(Text::inbox("b", 0, 0, "x1"));
    b.push_element(Text::inbox("c", 0, 0, "x2"));
    b.push_element(Text::inbox("d", 0, 0, "x3"));
    let out = pop_elements(&mut b, 3);
    let ids: Vec<String> = out.iter().map(|e| e.get_id().clone()).collect();
    assert_eq!(ids, vec!["x3".to_string(), "x2".to_string(), "x1".to_string()]);
    assert_eq!(b.elements.len(), 1);
    assert_eq!(b.elements[0].get_id().as_str(), "keep");
}
