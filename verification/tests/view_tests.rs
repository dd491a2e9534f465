use termview::editor::view::{NAME, VERSION};
use termview::{Command, Size, Surface, View};

fn row(at: u16, text: &str) -> Vec<Command> {
    vec![Command::MoveTo { col: 0, row: at }, Command::ClearLine, Command::Print(text.to_string())]
}

fn rows(texts: &[&str]) -> Vec<Command> {
    let mut all = Vec::new();
    for (at, text) in texts.iter().enumerate() {
        all.extend(row(at as u16, text));
    }
    all
}

fn banner(name_col: u16, version_col: u16, at: u16) -> Vec<Command> {
    vec![
        Command::MoveTo { col: name_col, row: at },
        Command::Print(NAME.to_string()),
        Command::MoveTo { col: version_col, row: at + 1 },
        Command::Print(VERSION.to_string()),
    ]
}

#[test]
fn a_document_that_fits_is_drawn_line_by_line() {
    let mut view = View::load("one\ntwo\nthree\n", Size { width: 80, height: 24 });
    let mut t = Surface::new();
    view.render(&mut t);
    assert_eq!(t.queued(), &rows(&["one", "two", "three"]));
    assert!(t.flushed().is_empty());
}

#[test]
fn rows_below_the_document_are_not_touched() {
    let mut view = View::load("a\nb\n", Size { width: 10, height: 5 });
    let mut t = Surface::new();
    view.render(&mut t);
    assert_eq!(t.queued().len(), 6);
    let clears = t.queued().iter().filter(|c| **c == Command::ClearLine).count();
    assert_eq!(clears, 2);
    for command in t.queued() {
        if let Command::MoveTo { row, .. } = command {
            assert!(*row < 2);
        }
    }
}

#[test]
fn a_document_longer_than_the_grid_is_cut_at_its_height() {
    let mut view = View::load("0\n1\n2\n3\n4\n5\n", Size { width: 10, height: 4 });
    let mut t = Surface::new();
    view.render(&mut t);
    assert_eq!(t.queued(), &rows(&["0", "1", "2", "3"]));
}

#[test]
fn a_document_as_long_as_the_grid_is_drawn_whole() {
    let mut view = View::load("0\n1\n2\n", Size { width: 10, height: 3 });
    let mut t = Surface::new();
    view.render(&mut t);
    assert_eq!(t.queued(), &rows(&["0", "1", "2"]));
}

#[test]
fn a_long_line_is_cut_to_the_width_and_not_wrapped() {
    let mut view = View::load("0123456789abcdef\nshort\n", Size { width: 10, height: 24 });
    let mut t = Surface::new();
    view.render(&mut t);
    assert_eq!(t.queued(), &rows(&["0123456789", "short"]));
}

#[test]
fn a_line_as_long_as_the_width_is_drawn_whole() {
    let mut view = View::load("0123456789\n", Size { width: 10, height: 24 });
    let mut t = Surface::new();
    view.render(&mut t);
    assert_eq!(t.queued(), &rows(&["0123456789"]));
}

#[test]
fn the_cut_counts_characters() {
    let mut view = View::load("äöüßéèê\n日本語のテキスト\n", Size { width: 4, height: 24 });
    let mut t = Surface::new();
    view.render(&mut t);
    assert_eq!(t.queued(), &rows(&["äöüß", "日本語の"]));
}

#[test]
fn an_empty_document_shows_the_banner() {
    let mut view = View::load("", Size { width: 80, height: 24 });
    let mut t = Surface::new();
    view.render(&mut t);
    assert_eq!(t.queued(), &banner(36, 37, 11));
}

#[test]
fn banner_of_a_name_of_four_in_a_width_of_ten() {
    let mut t = Surface::new();
    View::draw_banner(&mut t, Size { width: 10, height: 24 }, "Name", "1.2");
    assert_eq!(
        t.queued(),
        &vec![
            Command::MoveTo { col: 3, row: 11 },
            Command::Print("Name".to_string()),
            Command::MoveTo { col: 3, row: 12 },
            Command::Print("1.2".to_string()),
        ]
    );
}

#[test]
fn banner_column_rounds_down() {
    let mut t = Surface::new();
    View::draw_banner(&mut t, Size { width: 10, height: 7 }, "Names", "1");
    assert_eq!(
        t.queued(),
        &vec![
            Command::MoveTo { col: 2, row: 2 },
            Command::Print("Names".to_string()),
            Command::MoveTo { col: 4, row: 3 },
            Command::Print("1".to_string()),
        ]
    );
}

#[test]
fn banner_in_a_grid_too_small_starts_at_zero() {
    let mut t = Surface::new();
    View::draw_banner(&mut t, Size { width: 3, height: 1 }, "Name", "0.1.0");
    assert_eq!(
        t.queued(),
        &vec![
            Command::MoveTo { col: 0, row: 0 },
            Command::Print("Name".to_string()),
            Command::MoveTo { col: 0, row: 1 },
            Command::Print("0.1.0".to_string()),
        ]
    );
}

#[test]
fn banner_counts_characters() {
    let mut t = Surface::new();
    View::draw_banner(&mut t, Size { width: 10, height: 4 }, "näme", "ü");
    assert_eq!(
        t.queued(),
        &vec![
            Command::MoveTo { col: 3, row: 1 },
            Command::Print("näme".to_string()),
            Command::MoveTo { col: 4, row: 2 },
            Command::Print("ü".to_string()),
        ]
    );
}

#[test]
fn a_second_render_draws_nothing() {
    let mut view = View::load("one\ntwo\n", Size { width: 80, height: 24 });
    let mut t = Surface::new();
    assert!(view.needs_redraw());
    view.render(&mut t);
    assert!(!view.needs_redraw());
    let drawn = t.queued().len();
    assert_eq!(drawn, 6);
    view.render(&mut t);
    view.render(&mut t);
    assert_eq!(t.queued().len(), drawn);
}

#[test]
fn a_second_render_of_the_banner_draws_nothing() {
    let mut view = View::load("", Size { width: 80, height: 24 });
    let mut t = Surface::new();
    view.render(&mut t);
    assert_eq!(t.queued().len(), 4);
    view.render(&mut t);
    assert_eq!(t.queued().len(), 4);
}

#[test]
fn a_resize_forces_the_whole_frame() {
    let mut view = View::load("one\ntwo\n", Size { width: 80, height: 24 });
    let mut t = Surface::new();
    view.render(&mut t);
    view.resize(Size { width: 80, height: 24 });
    assert!(view.needs_redraw());
    view.render(&mut t);
    let mut twice = rows(&["one", "two"]);
    twice.extend(rows(&["one", "two"]));
    assert_eq!(t.queued(), &twice);
    view.render(&mut t);
    assert_eq!(t.queued(), &twice);
}

#[test]
fn a_resize_changes_what_is_visible() {
    let mut view = View::load("0123456789\nabc\nxyz\n", Size { width: 80, height: 24 });
    assert_eq!(view.size(), Size { width: 80, height: 24 });
    view.resize(Size { width: 4, height: 2 });
    assert_eq!(view.size(), Size { width: 4, height: 2 });
    let mut t = Surface::new();
    view.render(&mut t);
    assert_eq!(t.queued(), &rows(&["0123", "abc"]));
}

#[test]
fn a_grid_without_cells_draws_nothing_and_stays_dirty() {
    for size in [
        Size { width: 0, height: 0 },
        Size { width: 0, height: 24 },
        Size { width: 80, height: 0 },
    ] {
        let mut view = View::load("one\n", size);
        let mut t = Surface::new();
        view.render(&mut t);
        assert!(t.queued().is_empty());
        assert!(view.needs_redraw());
        view.resize(Size { width: 80, height: 24 });
        view.render(&mut t);
        assert_eq!(t.queued(), &rows(&["one"]));
    }
}

#[test]
fn the_default_view_is_empty_dirty_and_without_size() {
    let mut view = View::default();
    assert!(view.needs_redraw());
    assert_eq!(view.size(), Size { width: 0, height: 0 });
    let mut t = Surface::new();
    view.render(&mut t);
    assert!(t.queued().is_empty());
    view.resize(Size { width: 20, height: 10 });
    view.render(&mut t);
    assert_eq!(t.queued(), &banner(6, 7, 4));
}

#[test]
fn render_queues_behind_what_is_pending() {
    let mut view = View::load("one\n", Size { width: 80, height: 24 });
    let mut t = Surface::new();
    termview::editor::terminal::hide_caret(&mut t);
    view.render(&mut t);
    let mut all = vec![Command::HideCaret];
    all.extend(rows(&["one"]));
    assert_eq!(t.queued(), &all);
}

#[test]
fn the_banner_names_the_program_and_its_version() {
    assert_eq!(NAME, "termview");
    assert_eq!(VERSION, "0.1.0");
}
