//! What the session shows between commands: the welcome, the list of saves
//! and the prompt.

use crate::commands::Command;
use crate::text::{decimal, decimal_text, upper, to_upper};
use crate::ui::{
    error, highlighted, ln, paint_as, painted, reported, writelnln_highlighted, Coalescer,
    CoalescerView, Color, Look,
};
use crate::utils::{describe, shows_save, SaveInfo};
use vstd::prelude::*;
use vstd::string::StringExecFns;

verus! {

/// What `regex` makes of `text` when every match of `pattern` in it is
/// replaced by `replacement`, in which `$1` stands for what the first group
/// matched; nothing where `pattern` is no regular expression.
pub uninterp spec fn regex_replaced(
    pattern: Seq<char>,
    text: Seq<char>,
    replacement: Seq<char>,
) -> Option<Seq<char>>;

/// The characters of a text that may be missing.
pub open spec fn text_view(text: Option<String>) -> Option<Seq<char>> {
    match text {
        Some(text) => Some(text@),
        None => None,
    }
}

/// Replaces every match of `pattern` in `text` through `regex::Regex::new`
/// and `regex::Regex::replace_all`. The result is a function of the three
/// texts alone; there is none where the pattern does not compile.
#[verifier::external_body]
fn replace_all(pattern: &str, text: &str, replacement: &str) -> (out: Option<String>)
    ensures
        text_view(out) == regex_replaced(pattern@, text@, replacement@),
{
    match regex::Regex::new(pattern) {
        Ok(re) => Some(re.replace_all(text, replacement).into_owned()),
        Err(_) => None,
    }
}

/// `text` with the square brackets around single characters replaced by
/// `open` and `close`.
pub open spec fn squares_replaced(
    text: Seq<char>,
    open: Seq<char>,
    close: Seq<char>,
) -> Seq<char> {
    match regex_replaced("\\[(.)\\]"@, text, open + "$1"@ + close) {
        Some(replaced) => replaced,
        None => text,
    }
}

/// Whether `out` is `text` with the square brackets around single
/// characters dimmed.
pub open spec fn squares_dimmed(text: Seq<char>, out: Seq<char>) -> bool {
    exists|open: Seq<char>, close: Seq<char>|
        #![trigger painted(seq!['['], Look::Dim, open), painted(seq![']'], Look::Dim, close)]
        painted(seq!['['], Look::Dim, open) && painted(seq![']'], Look::Dim, close) && out
            == squares_replaced(text, open, close)
}

/// Dims the square brackets around single characters in `text`.
pub fn dim_squares(text: &str) -> (out: String)
    ensures
        squares_dimmed(text@, out@),
{
    proof {
        reveal_strlit("[");
        reveal_strlit("]");
        assert("["@ =~= seq!['[']);
        assert("]"@ =~= seq![']']);
    }
    let open = paint_as("[", Look::Dim);
    let close = paint_as("]", Look::Dim);
    let mut replacement = open.clone();
    replacement.append("$1");
    replacement.append(close.as_str());
    let out = match replace_all("\\[(.)\\]", text, replacement.as_str()) {
        Some(replaced) => replaced,
        None => text.to_owned(),
    };
    out
}

impl Command {
    /// The name of the command.
    pub open spec fn spec_name(self) -> Seq<char> {
        match self {
            Command::X => "x"@,
            Command::Save => "save"@,
            Command::Load => "load"@,
            Command::Delete => "delete"@,
            Command::Play => "play"@,
            Command::Quit => "quit"@,
            Command::Test => "test"@,
        }
    }

    /// The name of the command.
    pub fn name(self) -> (name: &'static str)
        ensures
            name@ == self.spec_name(),
    {
        match self {
            Command::X => "x",
            Command::Save => "save",
            Command::Load => "load",
            Command::Delete => "delete",
            Command::Play => "play",
            Command::Quit => "quit",
            Command::Test => "test",
        }
    }
}

/// `name` with its first letter as a capital in square brackets.
pub open spec fn action_label(name: Seq<char>) -> Seq<char> {
    if name.len() == 0 {
        seq!['[', ']']
    } else {
        seq!['[', upper(name[0]), ']'] + name.subrange(1, name.len() as int)
    }
}

/// The labels of `actions` with a bar between each two.
pub open spec fn action_labels(actions: Seq<Command>) -> Seq<char>
    decreases actions.len(),
{
    if actions.len() == 0 {
        Seq::empty()
    } else if actions.len() == 1 {
        action_label(actions[0].spec_name())
    } else {
        action_labels(actions.drop_last()) + seq![' ', '|', ' '] + action_label(
            actions.last().spec_name(),
        )
    }
}

/// The arrow that ends a prompt.
pub open spec fn prompt_arrow() -> Seq<char> {
    seq![' ', '\u{276f}', ' ']
}

/// Whether `out` is the prompt that offers `actions`: on a line of its own,
/// the labels, then the styled arrow, with the square brackets dimmed.
pub open spec fn is_prompt(actions: Seq<Command>, out: Seq<char>) -> bool {
    exists|arrow: Seq<char>| #[trigger]
        painted(prompt_arrow(), Look::Cyan, arrow) && squares_dimmed(
            seq!['\n'] + action_labels(actions) + arrow,
            out,
        )
}

fn label_of(name: &str) -> (label: String)
    ensures
        label@ == action_label(name@),
{
    let mut label = String::new();
    label.push('[');
    let mut first = true;
    for c in it: name.chars()
        invariant
            it.seq() == name@,
            first == (it.index() == 0),
            it.index() == 0 ==> label@ == seq!['['],
            it.index() > 0 ==> label@ == seq!['[', upper(name@[0]), ']'] + name@.subrange(
                1,
                it.index(),
            ),
    {
        if first {
            label.push(to_upper(c));
            label.push(']');
            first = false;
        } else {
            label.push(c);
        }
    }
    if first {
        label.push(']');
    }
    label
}

/// The prompt that offers `actions`.
pub fn main_prompt(actions: &Vec<Command>) -> (out: String)
    ensures
        is_prompt(actions@, out@),
{
    proof {
        reveal_strlit("\n");
        reveal_strlit(" | ");
        reveal_strlit(" \u{276f} ");
        assert("\n"@ =~= seq!['\n']);
        assert(" | "@ =~= seq![' ', '|', ' ']);
        assert(" \u{276f} "@ =~= prompt_arrow());
    }
    let mut text = String::new();
    text.append("\n");
    let mut i: usize = 0;
    while i < actions.len()
        invariant
            i <= actions.len(),
            text@ == seq!['\n'] + action_labels(actions@.take(i as int)),
            " | "@ == seq![' ', '|', ' '],
        decreases actions.len() - i,
    {
        let ghost before = actions@.take(i as int);
        let ghost now = actions@.take(i + 1);
        proof {
            assert(now.drop_last() == before);
            assert(now.last() == actions@[i as int]);
        }
        if i > 0 {
            text.append(" | ");
        }
        let label = label_of(actions[i].name());
        text.append(label.as_str());
        i = i + 1;
        proof {
            if i == 1 {
                assert(before.len() == 0);
                assert(now[0] == actions@[0]);
                assert(text@ =~= seq!['\n'] + action_labels(now));
            } else {
                assert(text@ =~= seq!['\n'] + action_labels(now));
            }
        }
    }
    assert(actions@.take(actions.len() as int) == actions@);
    let arrow = paint_as(" \u{276f} ", Look::Cyan);
    text.append(arrow.as_str());
    let out = dim_squares(text.as_str());
    out
}

/// `text` behind as many blanks as it takes to fill `width` characters.
pub open spec fn padded(text: Seq<char>, width: nat) -> Seq<char> {
    if text.len() >= width {
        text
    } else {
        Seq::new((width - text.len()) as nat, |i: int| ' ') + text
    }
}

/// What a row starts with: its position, as wide as `width`, and the name
/// of the save.
pub open spec fn row_label(position: nat, width: nat, name: Seq<char>) -> Seq<char> {
    seq!['#'] + padded(decimal(position), width) + prompt_arrow() + name
}

/// Whether `line` shows `save` at `position`, counted from 1.
pub open spec fn row_shown(
    save: SaveInfo,
    position: nat,
    width: nat,
    current: Option<&SaveInfo>,
    line: Seq<char>,
) -> bool {
    shows_save(
        row_label(position, width, save.name@),
        save.ctime,
        save.stat.size,
        save.spec_is_current(current),
        line,
    )
}

/// Whether `after` is `before` once the first `n` of `saves` have been
/// written, a line each, with positions as wide as the last one.
pub open spec fn rows_listed(
    before: CoalescerView,
    after: CoalescerView,
    saves: Seq<SaveInfo>,
    current: Option<&SaveInfo>,
    n: nat,
) -> bool
    decreases n,
{
    if n == 0 {
        after == before
    } else {
        exists|mid: CoalescerView, line: Seq<char>|
            #![trigger mid.wrote_line(line)]
            rows_listed(before, mid, saves, current, (n - 1) as nat) && row_shown(
                saves[n - 1],
                n,
                decimal(saves.len()).len(),
                current,
                line,
            ) && after == mid.wrote_line(line)
    }
}

fn label_row(position: usize, width: usize, name: &str) -> (label: String)
    ensures
        label@ == row_label(position as nat, width as nat, name@),
{
    proof {
        reveal_strlit(" \u{276f} ");
        assert(" \u{276f} "@ =~= prompt_arrow());
    }
    let number = decimal_text(position as u64);
    let digits = number.as_str().unicode_len();
    let mut label = String::new();
    label.push('#');
    let mut i: usize = digits;
    while i < width
        invariant
            i >= digits,
            digits < width ==> i <= width,
            digits >= width ==> i == digits,
            label@ == seq!['#'] + Seq::new((i - digits) as nat, |j: int| ' '),
        decreases width - i,
    {
        label.push(' ');
        i = i + 1;
    }
    label.append(number.as_str());
    label.append(" \u{276f} ");
    label.append(name);
    proof {
        let pad = Seq::new((i - digits) as nat, |j: int| ' ');
        if digits >= width {
            assert(pad =~= Seq::<char>::empty());
            assert(pad + number@ =~= number@);
        }
        assert(pad + number@ == padded(decimal(position as nat), width as nat));
        assert(label@ =~= seq!['#'] + (pad + number@) + prompt_arrow() + name@);
    }
    label
}

/// Writes the list of saves, a line each, in the order of the list.
pub fn list_saves(term: &mut Coalescer, saves: &Vec<SaveInfo>, current_save: Option<&SaveInfo>)
    ensures
        rows_listed(old(term)@, final(term)@, saves@, current_save, saves@.len()),
{
    let width = decimal_text(saves.len() as u64).as_str().unicode_len();
    let mut i: usize = 0;
    while i < saves.len()
        invariant
            i <= saves.len(),
            width == decimal(saves@.len()).len(),
            rows_listed(old(term)@, term@, saves@, current_save, i as nat),
        decreases saves.len() - i,
    {
        let save = &saves[i];
        let label = label_row(i + 1, width, save.name.as_str());
        let line = describe(label.as_str(), save, current_save);
        let ghost mid = term@;
        let _ = crate::ui::writeln(term, line.as_str());
        i = i + 1;
        proof {
            assert(row_shown(
                saves@[i - 1],
                i as nat,
                decimal(saves@.len()).len(),
                current_save,
                line@,
            ));
            assert(term@ == mid.wrote_line(line@));
        }
    }
}

/// Whether the prompt has gone from `before` to `after` by way of `a` and
/// `b`: first the report that the live save is missing, if it is; then the
/// list of saves, or the word that there are none, or the report that they
/// could not be loaded; then the prompt `text` with the commands that can be
/// given.
pub open spec fn prompt_steps(
    before: CoalescerView,
    a: CoalescerView,
    b: CoalescerView,
    text: Seq<char>,
    after: CoalescerView,
    current: Option<&SaveInfo>,
    listing: Option<Seq<SaveInfo>>,
) -> bool {
    &&& match current {
        Some(_) => a == before,
        None => reported(before, a, "Cannot find current Noita progress"@),
    }
    &&& match listing {
        None => reported(a, b, "Cannot load saves"@) && is_prompt(
            seq![Command::Play, Command::Quit],
            text,
        ),
        Some(saves) => (if saves.len() > 0 {
            rows_listed(a, b, saves, current, saves.len())
        } else {
            b == a.wrote_line("< Nothing >"@)
        }) && is_prompt(
            seq![Command::Save, Command::Load, Command::Play, Command::Delete, Command::Quit],
            text,
        ),
    }
    &&& after == b.wrote(text)
}

/// Whether `after` is `before` once the prompt has been shown.
pub open spec fn prompted(
    before: CoalescerView,
    after: CoalescerView,
    current: Option<&SaveInfo>,
    listing: Option<Seq<SaveInfo>>,
) -> bool {
    exists|a: CoalescerView, b: CoalescerView, text: Seq<char>|
        prompt_steps(before, a, b, text, after, current, listing)
}

/// The saves of a list that may be missing.
pub open spec fn list_view(saves_mb: Option<&Vec<SaveInfo>>) -> Option<Seq<SaveInfo>> {
    match saves_mb {
        Some(saves) => Some(saves@),
        None => None,
    }
}

/// Announces the list of saves: a heading, and a line that the next write
/// replaces.
pub fn prompt_loading(term: &mut Coalescer)
    ensures
        final(term)@ == old(term)@.wrote_line("\nSaves:"@).wrote_line("Loading..."@).scheduled(
            crate::text::clip(crate::text::line_count("Loading..."@)),
        ),
{
    let _ = crate::ui::writeln(term, "\nSaves:");
    crate::ui::writeln(term, "Loading...").update_later(term);
}

/// Shows what there is and asks for a command: reports a missing live save,
/// lists the saves, and writes the prompt with the commands that can be
/// given.
pub fn prompt(
    term: &mut Coalescer,
    current_save_mb: Option<&SaveInfo>,
    saves_mb: Option<&Vec<SaveInfo>>,
)
    ensures
        prompted(old(term)@, final(term)@, current_save_mb, list_view(saves_mb)),
{
    if current_save_mb.is_none() {
        error(term, "Cannot find current Noita progress");
    }
    let ghost a = term@;
    let mut actions: Vec<Command> = Vec::new();
    match saves_mb {
        None => {
            error(term, "Cannot load saves");
            actions.push(Command::Play);
            actions.push(Command::Quit);
            assert(actions@ =~= seq![Command::Play, Command::Quit]);
        },
        Some(saves) => {
            if saves.len() > 0 {
                list_saves(term, saves, current_save_mb);
            } else {
                let _ = crate::ui::writeln(term, "< Nothing >");
            }
            actions.push(Command::Save);
            actions.push(Command::Load);
            actions.push(Command::Play);
            actions.push(Command::Delete);
            actions.push(Command::Quit);
            assert(actions@ =~= seq![
                Command::Save,
                Command::Load,
                Command::Play,
                Command::Delete,
                Command::Quit,
            ]);
        },
    }
    let ghost b = term@;
    let text = main_prompt(&actions);
    crate::ui::write(term, text.as_str());
    assert(prompt_steps(old(term)@, a, b, text@, term@, current_save_mb, list_view(saves_mb)));
}

/// The welcome, with its styled parts: the title, the two lines on when to
/// save and to load, and the link.
pub open spec fn welcome_text(
    title: Seq<char>,
    first: Seq<char>,
    second: Seq<char>,
    link: Seq<char>,
) -> Seq<char> {
    title + "\n\n"@ + first + "\n"@ + second
        + "\nTurn off Steam sync in the game settings (if it's enabled)\n  Otherwise, do not load a save during Steam sync, it may corrupt the current game state\n  If the selected save has not loaded, just load it one more time\n  (It may happen due to steam sync)\nYou can also create a shortcut for NoitaSaves on your start menu or desktop\n(Check GitHub repo for more info: "@
        + link + ")"@
}

/// Whether the four texts are the parts of the welcome, each in its style.
pub open spec fn welcome_parts(
    title: Seq<char>,
    first: Seq<char>,
    second: Seq<char>,
    link: Seq<char>,
) -> bool {
    &&& painted("Welcome to NoitaSaves!"@, Look::GreenBold, title)
    &&& painted("To make a save, you should first quit the game"@, Look::Bold, first)
    &&& painted("You also need to close Noita before loading a save"@, Look::Bold, second)
    &&& painted("https://github.com/kiria-f/noita-saves"@, Look::Cyan, link)
}

/// Whether `after` is `before` once the user has been greeted.
pub open spec fn welcomed(before: CoalescerView, after: CoalescerView) -> bool {
    exists|title: Seq<char>, first: Seq<char>, second: Seq<char>, link: Seq<char>|
        #![trigger welcome_parts(title, first, second, link)]
        welcome_parts(title, first, second, link) && highlighted(
            before.wrote_line(Seq::empty()),
            after,
            Color::Green,
            welcome_text(title, first, second, link),
        )
}

/// Greets the user: an empty line, then the welcome with a green border.
pub fn welcome(term: &mut Coalescer)
    ensures
        welcomed(old(term)@, final(term)@),
{
    let gh_link = paint_as("https://github.com/kiria-f/noita-saves", Look::Cyan);
    ln(term);
    let title = paint_as("Welcome to NoitaSaves!", Look::GreenBold);
    let first = paint_as("To make a save, you should first quit the game", Look::Bold);
    let second = paint_as("You also need to close Noita before loading a save", Look::Bold);
    let mut text = title.clone();
    text.append("\n\n");
    text.append(first.as_str());
    text.append("\n");
    text.append(second.as_str());
    text.append(
        "\nTurn off Steam sync in the game settings (if it's enabled)\n  Otherwise, do not load a save during Steam sync, it may corrupt the current game state\n  If the selected save has not loaded, just load it one more time\n  (It may happen due to steam sync)\nYou can also create a shortcut for NoitaSaves on your start menu or desktop\n(Check GitHub repo for more info: ",
    );
    text.append(gh_link.as_str());
    text.append(")");
    let _ = writelnln_highlighted(term, Color::Green, text.as_str());
    assert(welcome_parts(title@, first@, second@, gh_link@));
}

/// What `trim-margin` makes of `text`: the lines without the blanks and the
/// bar that each begins with, and without a blank first and last line;
/// nothing where a line lacks the bar.
pub uninterp spec fn margin_trimmed(text: Seq<char>) -> Option<Seq<char>>;

/// Removes the margin of `text` through
/// `trim_margin::MarginTrimmable::trim_margin`. The result is a function of
/// the text alone.
#[verifier::external_body]
fn without_margin(text: &str) -> (out: Option<String>)
    ensures
        text_view(out) == margin_trimmed(text@),
{
    trim_margin::MarginTrimmable::trim_margin(&text)
}

/// The help on shortcuts, with its margin.
pub const X_HELP: &'static str =
    "\n    |There is 4 options to control shortcuts:\n    |cd \u{276f} [C]create on [D]esktop\n    |cs \u{276f} [C]reate in [S]tart Menu\n    |rd \u{276f} [R]emove from [D]esktop\n    |rs \u{276f} [R]emove from [S]tart Menu\n";

/// Whether `after` is `before` once `help` has been written with its
/// square brackets dimmed, and a blank line below it.
pub open spec fn help_shown(before: CoalescerView, after: CoalescerView, help: Seq<char>) -> bool {
    exists|out: Seq<char>| #[trigger]
        squares_dimmed(help, out) && after == before.wrote_line_and_blank(out)
}

/// Writes the help on shortcuts, with a blank line below it, and says
/// whether it did: nothing is written where the help cannot be laid out.
pub fn x_help(term: &mut Coalescer) -> (shown: bool)
    ensures
        match margin_trimmed(X_HELP@) {
            Some(help) => shown && help_shown(old(term)@, final(term)@, help),
            None => !shown && final(term)@ == old(term)@,
        },
{
    match without_margin(X_HELP) {
        Some(help) => {
            let out = dim_squares(help.as_str());
            let _ = crate::ui::writelnln(term, out.as_str());
            true
        },
        None => false,
    }
}

} // verus!
