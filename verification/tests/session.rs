use noita_saves::commands::Command;
use noita_saves::session::{
    dim_squares, list_saves, main_prompt, prompt, prompt_loading, welcome, x_help,
};
use noita_saves::ui::{Coalescer, TermOp};
use noita_saves::utils::{describe, save_line, split_time, SaveInfo, SaveStat, TIME_FORMAT};
use std::path::PathBuf;

fn quiet() -> Coalescer {
    console::set_colors_enabled(false);
    Coalescer::new()
}

const NOON: i128 = 1_741_176_131_000_000_000;

fn save(name: &str, size: u64, count: usize) -> SaveInfo {
    SaveInfo { path: PathBuf::from(name), name: name.to_string(), ctime: NOON, stat: SaveStat { size, count } }
}

fn local(ctime: i128) -> String {
    let secs = ctime.div_euclid(1_000_000_000) as i64;
    let nanos = ctime.rem_euclid(1_000_000_000) as u32;
    chrono::DateTime::from_timestamp(secs, nanos)
        .unwrap()
        .with_timezone(&chrono::Local)
        .format("%b %-d %H:%M:%S")
        .to_string()
}

fn line(text: &str) -> TermOp {
    TermOp::WriteLine(text.to_string())
}

#[test]
fn a_save_is_shown_with_its_time_and_size() {
    console::set_colors_enabled(false);
    let current = save("", 9, 9);
    let a = save("before boss", 1536, 3);
    let expected = format!("before boss  [{} | 1.5 KiB]", local(NOON));
    assert_eq!(a.to_string(Some(&current)), expected);
    assert_eq!(a.to_string(None), expected);
}

#[test]
fn the_save_that_the_live_save_holds_is_marked() {
    console::set_colors_enabled(false);
    let current = save("", 512, 3);
    let a = save("start", 512, 3);
    let expected = format!("start  [{} | 512 B]  <Current>", local(NOON));
    assert_eq!(a.to_string(Some(&current)), expected);
}

#[test]
fn sizes_are_written_with_binary_units() {
    console::set_colors_enabled(false);
    let t = local(NOON);
    assert_eq!(save("a", 0, 0).to_string(None), format!("a  [{} | 0 B]", t));
    assert_eq!(save("a", 1023, 0).to_string(None), format!("a  [{} | 1023 B]", t));
    assert_eq!(save("a", 1024, 0).to_string(None), format!("a  [{} | 1.0 KiB]", t));
    assert_eq!(save("a", 5 * 1024 * 1024, 0).to_string(None), format!("a  [{} | 5.0 MiB]", t));
}

#[test]
fn save_line_joins_label_and_information() {
    console::set_colors_enabled(false);
    assert_eq!(save_line("#1 > x", "now", "1 B", false), "#1 > x  [now | 1 B]");
    assert_eq!(save_line("#1 > x", "now", "1 B", true), "#1 > x  [now | 1 B]  <Current>");
    assert_eq!(save_line("", "", "", false), "  [ | ]");
}

#[test]
fn the_prompt_offers_the_commands_by_their_first_letter() {
    console::set_colors_enabled(false);
    let actions = vec![Command::Save, Command::Load, Command::Play, Command::Delete, Command::Quit];
    assert_eq!(main_prompt(&actions), "\n[S]ave | [L]oad | [P]lay | [D]elete | [Q]uit \u{276f} ");
    assert_eq!(main_prompt(&vec![Command::Play, Command::Quit]), "\n[P]lay | [Q]uit \u{276f} ");
    assert_eq!(main_prompt(&vec![Command::X]), "\n[X] \u{276f} ");
    assert_eq!(main_prompt(&Vec::new()), "\n \u{276f} ");
}

#[test]
fn command_names_are_their_words() {
    assert_eq!(Command::X.name(), "x");
    assert_eq!(Command::Save.name(), "save");
    assert_eq!(Command::Load.name(), "load");
    assert_eq!(Command::Delete.name(), "delete");
    assert_eq!(Command::Play.name(), "play");
    assert_eq!(Command::Quit.name(), "quit");
    assert_eq!(Command::Test.name(), "test");
}

#[test]
fn dim_squares_leaves_plain_text_as_it_is_without_styling() {
    console::set_colors_enabled(false);
    assert_eq!(dim_squares("[C]reate on [D]esktop"), "[C]reate on [D]esktop");
    assert_eq!(dim_squares("no brackets"), "no brackets");
}

#[test]
fn the_list_is_announced_on_a_disposable_line() {
    let mut term = quiet();
    prompt_loading(&mut term);
    assert_eq!(term.take_ops(), vec![line("\nSaves:"), line("Loading...")]);
    assert_eq!(term.pending_erase(), Some(1));
}

#[test]
fn the_saves_are_listed_with_their_positions() {
    let mut term = quiet();
    let a = save("first", 100, 1);
    let mut b = save("second", 2048, 2);
    b.ctime = NOON + 86_400_000_000_000;
    let current = save("", 2048, 2);
    let saves = vec![a, b];
    list_saves(&mut term, &saves, Some(&current));
    assert_eq!(
        term.take_ops(),
        vec![
            line(&format!("#1 \u{276f} first  [{} | 100 B]", local(saves[0].ctime))),
            line(&format!("#2 \u{276f} second  [{} | 2.0 KiB]  <Current>", local(saves[1].ctime))),
        ]
    );
}

#[test]
fn positions_are_as_wide_as_the_last_one() {
    let mut term = quiet();
    let saves: Vec<SaveInfo> = (0..10).map(|i| save(&format!("s{}", i), i, 1)).collect();
    list_saves(&mut term, &saves, None);
    let ops = term.take_ops();
    let t = local(NOON);
    assert_eq!(ops.len(), 10);
    assert_eq!(ops[0], line(&format!("# 1 \u{276f} s0  [{} | 0 B]", t)));
    assert_eq!(ops[8], line(&format!("# 9 \u{276f} s8  [{} | 8 B]", t)));
    assert_eq!(ops[9], line(&format!("#10 \u{276f} s9  [{} | 9 B]", t)));
}

#[test]
fn the_prompt_lists_the_saves_and_offers_all_commands() {
    let mut term = quiet();
    prompt_loading(&mut term);
    let current = save("", 7, 7);
    let saves = vec![save("only", 1, 1)];
    prompt(&mut term, Some(&current), Some(&saves));
    assert_eq!(
        term.take_ops(),
        vec![
            line("\nSaves:"),
            line("Loading..."),
            TermOp::ClearLastLines(1),
            line(&format!("#1 \u{276f} only  [{} | 1 B]", local(NOON))),
            TermOp::Write("\n[S]ave | [L]oad | [P]lay | [D]elete | [Q]uit \u{276f} ".to_string()),
        ]
    );
    assert_eq!(term.pending_erase(), None);
}

#[test]
fn the_prompt_says_when_there_are_no_saves() {
    let mut term = quiet();
    let current = save("", 7, 7);
    prompt(&mut term, Some(&current), Some(&Vec::new()));
    let ops = term.take_ops();
    assert_eq!(ops[0], line("< Nothing >"));
    assert_eq!(ops.len(), 2);
}

#[test]
fn the_prompt_reports_a_missing_live_save() {
    let mut term = quiet();
    prompt(&mut term, None, Some(&Vec::new()));
    let ops = term.take_ops();
    assert_eq!(ops[0], line("\u{2503} Error:\n\u{2503} Cannot find current Noita progress"));
    assert_eq!(ops[1], line(""));
    assert_eq!(ops[2], line("< Nothing >"));
}

#[test]
fn the_prompt_offers_little_when_the_saves_cannot_be_loaded() {
    let mut term = quiet();
    let current = save("", 7, 7);
    prompt(&mut term, Some(&current), None);
    assert_eq!(
        term.take_ops(),
        vec![
            line("\u{2503} Error:\n\u{2503} Cannot load saves"),
            line(""),
            TermOp::Write("\n[P]lay | [Q]uit \u{276f} ".to_string()),
        ]
    );
}

#[test]
fn the_welcome_is_written_with_a_border() {
    let mut term = quiet();
    welcome(&mut term);
    let ops = term.take_ops();
    assert_eq!(ops.len(), 3);
    assert_eq!(ops[0], line(""));
    assert_eq!(ops[2], line(""));
    let expected = [
        "\u{2503} Welcome to NoitaSaves!",
        "\u{2503} ",
        "\u{2503} To make a save, you should first quit the game",
        "\u{2503} You also need to close Noita before loading a save",
        "\u{2503} Turn off Steam sync in the game settings (if it's enabled)",
        "\u{2503}   Otherwise, do not load a save during Steam sync, it may corrupt the current game state",
        "\u{2503}   If the selected save has not loaded, just load it one more time",
        "\u{2503}   (It may happen due to steam sync)",
        "\u{2503} You can also create a shortcut for NoitaSaves on your start menu or desktop",
        "\u{2503} (Check GitHub repo for more info: https://github.com/kiria-f/noita-saves)",
    ]
    .join("\n");
    assert_eq!(ops[1], line(&expected));
}

#[test]
fn the_help_on_shortcuts_loses_its_margin() {
    let mut term = quiet();
    assert!(x_help(&mut term));
    let expected = [
        "There is 4 options to control shortcuts:",
        "cd \u{276f} [C]create on [D]esktop",
        "cs \u{276f} [C]reate in [S]tart Menu",
        "rd \u{276f} [R]emove from [D]esktop",
        "rs \u{276f} [R]emove from [S]tart Menu",
    ]
    .join("\n");
    assert_eq!(term.take_ops(), vec![line(&expected), line("")]);
}

#[test]
fn describe_shows_a_save_under_any_label() {
    console::set_colors_enabled(false);
    let a = save("a", 3, 1);
    assert_eq!(describe("#7 > a", &a, None), format!("#7 > a  [{} | 3 B]", local(NOON)));
    assert_eq!(describe("", &a, Some(&a)), format!("  [{} | 3 B]  <Current>", local(NOON)));
}

#[test]
fn times_before_the_epoch_are_written_too() {
    console::set_colors_enabled(false);
    let mut a = save("old", 1, 1);
    a.ctime = -1_500_000_000;
    assert_eq!(a.to_string(None), format!("old  [{} | 1 B]", local(-1_500_000_000)));
}

#[test]
fn a_time_that_cannot_be_written_leaves_its_place_empty() {
    console::set_colors_enabled(false);
    let mut a = save("far", 1, 1);
    a.ctime = i128::MAX;
    assert_eq!(a.to_string(None), "far  [ | 1 B]");
    a.ctime = (i64::MAX as i128) * 1_000_000_000;
    assert_eq!(a.to_string(None), "far  [ | 1 B]");
}

#[test]
fn split_time_gives_whole_seconds_and_the_rest() {
    assert_eq!(split_time(0), Some((0, 0)));
    assert_eq!(split_time(1_500_000_000), Some((1, 500_000_000)));
    assert_eq!(split_time(-1), Some((-1, 999_999_999)));
    assert_eq!(split_time(-1_000_000_000), Some((-1, 0)));
    assert_eq!(split_time(-1_000_000_001), Some((-2, 999_999_999)));
    assert_eq!(split_time(NOON), Some((1_741_176_131, 0)));
    assert_eq!(split_time((i64::MAX as i128) * 1_000_000_000 + 999_999_999), Some((i64::MAX, 999_999_999)));
    assert_eq!(split_time((i64::MAX as i128 + 1) * 1_000_000_000), None);
    assert_eq!(split_time((i64::MIN as i128) * 1_000_000_000), Some((i64::MIN, 0)));
    assert_eq!(split_time((i64::MIN as i128) * 1_000_000_000 - 1), None);
    assert_eq!(split_time(i128::MAX), None);
    assert_eq!(split_time(i128::MIN), None);
}

#[test]
fn the_time_format_names_month_day_and_time_of_day() {
    assert_eq!(TIME_FORMAT, "%b %-d %H:%M:%S");
}

#[test]
fn times_far_from_now_are_written_or_left_out() {
    console::set_colors_enabled(false);
    for secs in [8_210_266_876_799i128, 8_210_266_876_800, -8_334_601_228_800, -8_334_601_228_801, 253_402_300_799] {
        let mut a = save("far", 1, 1);
        a.ctime = secs * 1_000_000_000;
        let line = a.to_string(None);
        assert!(line.starts_with("far  ["));
        assert!(line.ends_with(" | 1 B]"));
    }
}
