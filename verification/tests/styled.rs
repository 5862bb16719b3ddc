use noita_saves::commands::Command;
use noita_saves::session::{dim_squares, main_prompt};
use noita_saves::ui::{debug, error, paint_as, writelnln_highlighted, Coalescer, Color, Look, TermOp};
use noita_saves::utils::{save_line, SaveInfo, SaveStat};
use std::path::PathBuf;

const RESET: &str = "\u{1b}[0m";

fn vivid() -> Coalescer {
    console::set_colors_enabled(true);
    Coalescer::new()
}

fn plain() -> Coalescer {
    console::set_colors_enabled(false);
    Coalescer::new()
}

#[test]
fn an_error_is_written_in_red_with_a_red_border() {
    let mut term = vivid();
    error(&mut term, "No save found by index: 6");
    let border = format!("\u{1b}[31m\u{2503}{} ", RESET);
    let expected = format!(
        "{b}\u{1b}[31mError:\n{b}{r}No save found by index: 6",
        b = border,
        r = RESET
    );
    assert_eq!(
        term.take_ops(),
        vec![TermOp::WriteLine(expected), TermOp::WriteLine(String::new())]
    );
}

#[test]
fn an_error_without_styling_is_plain() {
    let mut term = plain();
    error(&mut term, "first\nsecond");
    assert_eq!(
        term.take_ops(),
        vec![
            TermOp::WriteLine("\u{2503} Error:\n\u{2503} first\n\u{2503} second".to_string()),
            TermOp::WriteLine(String::new()),
        ]
    );
}

#[test]
fn an_error_performs_the_scheduled_erase_first() {
    let mut term = plain();
    noita_saves::ui::writeln(&mut term, "Loading...").update_later(&mut term);
    error(&mut term, "x");
    let ops = term.take_ops();
    assert_eq!(ops[1], TermOp::ClearLastLines(1));
    assert_eq!(ops.len(), 4);
    assert_eq!(term.pending_erase(), None);
}

#[test]
fn a_highlighted_message_has_the_border_in_its_colour() {
    let mut term = vivid();
    let handle = writelnln_highlighted(&mut term, Color::Green, "a\nb");
    assert_eq!(handle.lines_printed(), 3);
    let border = format!("\u{1b}[32m\u{2503}{} ", RESET);
    assert_eq!(
        term.take_ops(),
        vec![TermOp::WriteLine(format!("{b}a\n{b}b", b = border)), TermOp::WriteLine(String::new())]
    );
    let _ = writelnln_highlighted(&mut term, Color::Cyan, "c");
    let cyan = format!("\u{1b}[36m\u{2503}{} c", RESET);
    assert_eq!(term.take_ops()[0], TermOp::WriteLine(cyan));
}

#[test]
fn a_highlighted_message_counts_its_lines_and_the_blank_one() {
    let mut term = plain();
    assert_eq!(writelnln_highlighted(&mut term, Color::Red, "one").lines_printed(), 2);
    assert_eq!(writelnln_highlighted(&mut term, Color::Red, "one\ntwo\nthree").lines_printed(), 4);
    assert_eq!(writelnln_highlighted(&mut term, Color::Red, "").lines_printed(), 2);
}

#[test]
fn colours_have_their_styles() {
    assert_eq!(Color::Red.look(), Look::Red);
    assert_eq!(Color::Green.look(), Look::Green);
    assert_eq!(Color::Cyan.look(), Look::Cyan);
}

#[test]
fn styles_have_their_names() {
    assert_eq!(Look::Red.name(), "red");
    assert_eq!(Look::Green.name(), "green");
    assert_eq!(Look::Cyan.name(), "cyan");
    assert_eq!(Look::Dim.name(), "dim");
    assert_eq!(Look::Bold.name(), "bold");
    assert_eq!(Look::GreenBold.name(), "green.bold");
}

#[test]
fn a_styled_text_stands_between_the_codes_of_its_style_and_the_reset() {
    console::set_colors_enabled(true);
    assert_eq!(paint_as("x", Look::Red), format!("\u{1b}[31mx{}", RESET));
    assert_eq!(paint_as("x", Look::Green), format!("\u{1b}[32mx{}", RESET));
    assert_eq!(paint_as("x", Look::Cyan), format!("\u{1b}[36mx{}", RESET));
    assert_eq!(paint_as("x", Look::Dim), format!("\u{1b}[2mx{}", RESET));
    assert_eq!(paint_as("x", Look::Bold), format!("\u{1b}[1mx{}", RESET));
    assert_eq!(paint_as("x", Look::GreenBold), format!("\u{1b}[32m\u{1b}[1mx{}", RESET));
    assert_eq!(paint_as("a\nb", Look::Red), format!("\u{1b}[31ma\nb{}", RESET));
    assert_eq!(paint_as("", Look::Dim), format!("\u{1b}[2m{}", RESET));
}

#[test]
fn without_styling_a_text_is_written_as_it_is() {
    console::set_colors_enabled(false);
    for look in [Look::Red, Look::Green, Look::Cyan, Look::Dim, Look::Bold, Look::GreenBold] {
        assert_eq!(paint_as("plain \u{2503}", look), "plain \u{2503}");
    }
}

#[test]
fn debug_messages_are_switched_off() {
    assert!(!noita_saves::config::DEBUG);
    let mut term = vivid();
    debug(&mut term, "Redrawn: 3");
    assert_eq!(term.take_ops(), Vec::<TermOp>::new());
}

#[test]
fn the_square_brackets_of_the_prompt_are_dimmed() {
    console::set_colors_enabled(true);
    let open = format!("\u{1b}[2m[{}", RESET);
    let close = format!("\u{1b}[2m]{}", RESET);
    let arrow = format!("\u{1b}[36m \u{276f} {}", RESET);
    let expected = format!("\n{o}P{c}lay | {o}Q{c}uit{a}", o = open, c = close, a = arrow);
    assert_eq!(main_prompt(&vec![Command::Play, Command::Quit]), expected);
}

#[test]
fn dim_squares_replaces_brackets_around_single_characters_only() {
    console::set_colors_enabled(true);
    let open = format!("\u{1b}[2m[{}", RESET);
    let close = format!("\u{1b}[2m]{}", RESET);
    assert_eq!(dim_squares("[C]reate"), format!("{}C{}reate", open, close));
    assert_eq!(dim_squares("[ab] []"), "[ab] []");
    assert_eq!(dim_squares("[\u{276f}]"), format!("{}\u{276f}{}", open, close));
}

#[test]
fn the_information_of_a_save_is_dimmed() {
    console::set_colors_enabled(true);
    let expected = format!("name  \u{1b}[2m[when | 1 B]{}", RESET);
    assert_eq!(save_line("name", "when", "1 B", false), expected);
}

#[test]
fn the_line_of_the_current_save_is_green_and_bold() {
    console::set_colors_enabled(true);
    let current = SaveInfo { path: PathBuf::new(), name: String::new(), ctime: 0, stat: SaveStat { size: 3, count: 1 } };
    let save = SaveInfo { path: PathBuf::new(), name: "a".to_string(), ctime: i128::MAX, stat: SaveStat { size: 3, count: 1 } };
    let tag = format!("\u{1b}[2m<Current>{}", RESET);
    let expected = format!("\u{1b}[32m\u{1b}[1ma  [ | 3 B]  {}{}", tag, RESET);
    assert_eq!(save.to_string(Some(&current)), expected);
}
