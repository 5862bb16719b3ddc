//! Terminal output: the coalescer that lets a later write replace an earlier
//! one in place, the bordered messages built on it, and the progress bar.
//!
//! Nothing here touches the terminal. Every write is recorded as a [`TermOp`]
//! in the coalescer's queue; the caller drains the queue and performs the
//! operations in order.

use crate::config::DEBUG;
use crate::text::{
    clip, count_char, count_lines, decimal, decimal_text, lemma_count_char_concat, line_count,
};
use vstd::prelude::*;
use vstd::string::StringExecFns;

verus! {

/// One thing for the terminal to do.
#[derive(Clone, Debug, PartialEq, Eq)]
pub enum TermOp {
    /// Erase this many of the lines written last.
    ClearLastLines(usize),
    /// Write the text, then a line break.
    WriteLine(String),
    /// Write the text and leave the cursor behind it.
    Write(String),
}

/// What a [`TermOp`] says, with its text as a sequence of characters.
pub enum TermOpView {
    ClearLastLines(usize),
    WriteLine(Seq<char>),
    Write(Seq<char>),
}

impl View for TermOp {
    type V = TermOpView;

    open spec fn view(&self) -> TermOpView {
        match self {
            TermOp::ClearLastLines(n) => TermOpView::ClearLastLines(*n),
            TermOp::WriteLine(text) => TermOpView::WriteLine(text@),
            TermOp::Write(text) => TermOpView::Write(text@),
        }
    }
}

/// The single writer of the terminal: the operations not yet handed out, and
/// the number of lines, if any, that the next write has to erase first.
pub struct Coalescer {
    lines_to_update: Option<usize>,
    queue: Vec<TermOp>,
}

/// The state of a [`Coalescer`].
pub struct CoalescerView {
    /// Lines that the next write erases before it writes.
    pub pending: Option<usize>,
    /// Operations recorded and not yet taken, oldest first.
    pub ops: Seq<TermOpView>,
}

impl CoalescerView {
    /// The queue once the pending erase, if there is one, has been recorded.
    pub open spec fn flushed(self) -> Seq<TermOpView> {
        match self.pending {
            Some(n) => self.ops.push(TermOpView::ClearLastLines(n)),
            None => self.ops,
        }
    }

    /// After writing `text` without a line break.
    pub open spec fn wrote(self, text: Seq<char>) -> CoalescerView {
        CoalescerView { pending: None, ops: self.flushed().push(TermOpView::Write(text)) }
    }

    /// After writing `text` as a line.
    pub open spec fn wrote_line(self, text: Seq<char>) -> CoalescerView {
        CoalescerView { pending: None, ops: self.flushed().push(TermOpView::WriteLine(text)) }
    }

    /// After writing `text` as a line and a blank line below it.
    pub open spec fn wrote_line_and_blank(self, text: Seq<char>) -> CoalescerView {
        CoalescerView {
            pending: None,
            ops: self.flushed().push(TermOpView::WriteLine(text)).push(
                TermOpView::WriteLine(Seq::empty()),
            ),
        }
    }

    /// After scheduling the erase of `lines` lines.
    pub open spec fn scheduled(self, lines: usize) -> CoalescerView {
        CoalescerView { pending: Some(lines), ops: self.ops }
    }
}

impl View for Coalescer {
    type V = CoalescerView;

    closed spec fn view(&self) -> CoalescerView {
        CoalescerView {
            pending: self.lines_to_update,
            ops: self.queue@.map_values(|op: TermOp| op@),
        }
    }
}

impl Coalescer {
    /// A coalescer with nothing written and nothing to erase.
    pub fn new() -> (term: Coalescer)
        ensures
            term@.pending is None,
            term@.ops == Seq::<TermOpView>::empty(),
    {
        let term = Coalescer { lines_to_update: None, queue: Vec::new() };
        term
    }

    /// The number of lines that the next write will erase first.
    pub fn pending_erase(&self) -> (pending: Option<usize>)
        ensures
            pending == self@.pending,
    {
        self.lines_to_update
    }

    /// Hands out the recorded operations, oldest first, and empties the queue.
    /// A scheduled erase stays scheduled.
    pub fn take_ops(&mut self) -> (ops: Vec<TermOp>)
        ensures
            ops@.map_values(|op: TermOp| op@) == old(self)@.ops,
            final(self)@.ops == Seq::<TermOpView>::empty(),
            final(self)@.pending == old(self)@.pending,
    {
        let mut ops: Vec<TermOp> = Vec::new();
        core::mem::swap(&mut self.queue, &mut ops);
        ops
    }

    /// Records the pending erase, if there is one, and forgets it.
    fn flush(&mut self)
        ensures
            final(self)@.pending is None,
            final(self)@.ops == old(self)@.flushed(),
    {
        if let Some(lines) = self.lines_to_update {
            self.queue.push(TermOp::ClearLastLines(lines));
        }
        self.lines_to_update = None;
    }

    fn push_op(&mut self, op: TermOp)
        ensures
            final(self)@.pending == old(self)@.pending,
            final(self)@.ops == old(self)@.ops.push(op@),
    {
        self.queue.push(op);
    }
}

/// What a write leaves behind: the number of terminal lines it spanned.
pub struct PostHandler {
    lines_printed: usize,
}

impl PostHandler {
    /// The number of lines that the write spanned.
    pub closed spec fn lines(&self) -> usize {
        self.lines_printed
    }

    /// The number of lines that the write spanned.
    pub fn lines_printed(&self) -> (n: usize)
        ensures
            n == self.lines(),
    {
        self.lines_printed
    }

    /// Sets the line count to that of `output`.
    pub fn from_output(&mut self, output: &str)
        ensures
            final(self).lines() == clip(line_count(output@)),
    {
        self.lines_printed = count_lines(output);
    }

    /// Marks this write as disposable: the next write through `term` erases its
    /// lines first. Nothing is erased now, and an erase scheduled earlier and
    /// not yet performed is replaced.
    pub fn update_later(&self, term: &mut Coalescer)
        ensures
            final(term)@ == old(term)@.scheduled(self.lines()),
    {
        term.lines_to_update = Some(self.lines_printed);
    }
}

/// Writes `msg` without a line break, after the pending erase.
pub fn write(term: &mut Coalescer, msg: &str)
    ensures
        final(term)@ == old(term)@.wrote(msg@),
{
    term.flush();
    term.push_op(TermOp::Write(msg.to_owned()));
}

/// Writes `msg` as a line, after the pending erase, and reports how many
/// lines it spanned.
pub fn writeln(term: &mut Coalescer, msg: &str) -> (handle: PostHandler)
    ensures
        final(term)@ == old(term)@.wrote_line(msg@),
        handle.lines() == clip(line_count(msg@)),
{
    term.flush();
    term.push_op(TermOp::WriteLine(msg.to_owned()));
    PostHandler { lines_printed: count_lines(msg) }
}

/// Writes `msg` as a line and a blank line below it. The handle counts the
/// blank line too.
pub fn writelnln(term: &mut Coalescer, msg: &str) -> (handle: PostHandler)
    ensures
        final(term)@ == old(term)@.wrote_line_and_blank(msg@),
        handle.lines() == clip(line_count(msg@) + 1),
{
    let mut post_handler = writeln(term, msg);
    term.push_op(TermOp::WriteLine(String::new()));
    if post_handler.lines_printed < usize::MAX {
        post_handler.lines_printed = post_handler.lines_printed + 1;
    }
    post_handler
}

/// Writes an empty line.
pub fn ln(term: &mut Coalescer)
    ensures
        final(term)@ == old(term)@.wrote_line(Seq::empty()),
{
    let _ = writeln(term, "");
    proof {
        reveal_strlit("");
        assert(""@ =~= Seq::<char>::empty());
    }
}

/// The lines of `text`: what stands between its line breaks.
pub open spec fn lines_of(text: Seq<char>) -> Seq<Seq<char>>
    decreases text.len(),
{
    if text.len() == 0 {
        seq![Seq::empty()]
    } else {
        let before = lines_of(text.drop_last());
        if text.last() == '\n' {
            before.push(Seq::empty())
        } else {
            before.drop_last().push(before.last().push(text.last()))
        }
    }
}

/// A text has as many lines as it is counted to span.
pub proof fn lemma_lines_of_len(text: Seq<char>)
    ensures
        lines_of(text).len() == line_count(text),
    decreases text.len(),
{
    if text.len() > 0 {
        lemma_lines_of_len(text.drop_last());
    }
}

/// The lines above the cursor once the terminal has carried out `op`, where
/// they were `screen` before. A write without line break leaves them as
/// they are.
pub open spec fn screen_after(screen: Seq<Seq<char>>, op: TermOpView) -> Seq<Seq<char>> {
    match op {
        TermOpView::ClearLastLines(n) => if n <= screen.len() {
            screen.take(screen.len() - n)
        } else {
            Seq::empty()
        },
        TermOpView::WriteLine(text) => screen + lines_of(text),
        TermOpView::Write(text) => screen,
    }
}

/// The lines above the cursor once the terminal has carried out `ops`, oldest
/// first.
pub open spec fn screen_after_all(screen: Seq<Seq<char>>, ops: Seq<TermOpView>) -> Seq<Seq<char>>
    decreases ops.len(),
{
    if ops.len() == 0 {
        screen
    } else {
        screen_after(screen_after_all(screen, ops.drop_last()), ops.last())
    }
}

/// A line that was written and marked as disposable is replaced in place by
/// the next line: the screen is then what it would be had the disposable line
/// never been written.
pub proof fn lemma_replaced_in_place(
    screen: Seq<Seq<char>>,
    term: CoalescerView,
    transient: Seq<char>,
    next: Seq<char>,
)
    requires
        line_count(transient) <= usize::MAX,
    ensures
        ({
            let marked = term.wrote_line(transient).scheduled(clip(line_count(transient)));
            screen_after_all(screen, marked.wrote_line(next).ops) == screen_after_all(
                screen,
                term.wrote_line(next).ops,
            )
        }),
{
    let base = term.flushed();
    let shown = screen_after_all(screen, base);
    let marked = term.wrote_line(transient).scheduled(clip(line_count(transient)));
    let one = base.push(TermOpView::WriteLine(transient));
    let two = one.push(TermOpView::ClearLastLines(clip(line_count(transient))));
    let three = two.push(TermOpView::WriteLine(next));
    assert(marked.wrote_line(next).ops == three);
    assert(one.drop_last() == base);
    assert(two.drop_last() == one);
    assert(three.drop_last() == two);
    lemma_lines_of_len(transient);
    let longer = shown + lines_of(transient);
    assert(screen_after_all(screen, one) == longer);
    assert(clip(line_count(transient)) == lines_of(transient).len());
    assert(longer.len() - lines_of(transient).len() == shown.len());
    assert(longer.take(shown.len() as int) == shown);
    assert(screen_after_all(screen, two) == screen_after(
        longer,
        TermOpView::ClearLastLines(clip(line_count(transient))),
    ));
    assert(screen_after_all(screen, two) == shown);
    let plain = base.push(TermOpView::WriteLine(next));
    assert(term.wrote_line(next).ops == plain);
    assert(plain.drop_last() == base);
}

/// `msg` with `border` in front of each of its lines.
pub open spec fn bordered(border: Seq<char>, msg: Seq<char>) -> Seq<char> {
    border + continued(border, msg)
}

/// `msg` with `border` behind each of its line breaks.
pub open spec fn continued(border: Seq<char>, msg: Seq<char>) -> Seq<char>
    decreases msg.len(),
{
    if msg.len() == 0 {
        Seq::empty()
    } else if msg.last() == '\n' {
        continued(border, msg.drop_last()).push('\n') + border
    } else {
        continued(border, msg.drop_last()).push(msg.last())
    }
}

/// A border without line breaks leaves the number of lines as it was.
pub proof fn lemma_bordered_line_count(border: Seq<char>, msg: Seq<char>)
    requires
        count_char(border, '\n') == 0,
    ensures
        count_char(continued(border, msg), '\n') == count_char(msg, '\n'),
        line_count(bordered(border, msg)) == line_count(msg),
    decreases msg.len(),
{
    if msg.len() > 0 {
        let rest = continued(border, msg.drop_last());
        lemma_bordered_line_count(border, msg.drop_last());
        if msg.last() == '\n' {
            lemma_count_char_concat(rest.push('\n'), border, '\n');
            assert(rest.push('\n').drop_last() == rest);
        } else {
            assert(rest.push(msg.last()).drop_last() == rest);
        }
    }
    lemma_count_char_concat(border, continued(border, msg), '\n');
}

/// A text without line break is one line.
pub proof fn lemma_lines_of_one_line(text: Seq<char>)
    requires
        count_char(text, '\n') == 0,
    ensures
        lines_of(text) == seq![text],
    decreases text.len(),
{
    if text.len() == 0 {
        assert(text =~= Seq::<char>::empty());
    } else {
        lemma_lines_of_one_line(text.drop_last());
        assert(text.drop_last().push(text.last()) == text);
        assert(seq![text.drop_last()].drop_last().push(text) =~= seq![text]);
    }
}

/// Text appended without a line break lengthens the last line.
pub proof fn lemma_lines_of_appended(text: Seq<char>, tail: Seq<char>)
    requires
        count_char(tail, '\n') == 0,
    ensures
        lines_of(text + tail) == lines_of(text).drop_last().push(lines_of(text).last() + tail),
    decreases tail.len(),
{
    lemma_lines_of_len(text);
    if tail.len() == 0 {
        assert(text + tail == text);
        assert(lines_of(text).last() + tail == lines_of(text).last());
        assert(lines_of(text).drop_last().push(lines_of(text).last()) == lines_of(text));
    } else {
        let shorter = tail.drop_last();
        lemma_lines_of_appended(text, shorter);
        assert((text + tail).drop_last() == text + shorter);
        let before = lines_of(text + shorter);
        assert(before.last() == lines_of(text).last() + shorter);
        assert(before.drop_last() == lines_of(text).drop_last());
        assert((lines_of(text).last() + shorter).push(tail.last()) == lines_of(text).last()
            + tail);
    }
}

/// A border without line breaks stands in front of every line: the lines of
/// the bordered message are the lines of the message, each behind the border.
pub proof fn lemma_bordered_lines(border: Seq<char>, msg: Seq<char>)
    requires
        count_char(border, '\n') == 0,
    ensures
        lines_of(bordered(border, msg)) == lines_of(msg).map_values(
            |line: Seq<char>| border + line,
        ),
    decreases msg.len(),
{
    let framed = |line: Seq<char>| border + line;
    lemma_lines_of_len(msg);
    if msg.len() == 0 {
        assert(bordered(border, msg) == border);
        lemma_lines_of_one_line(border);
        assert(border + Seq::<char>::empty() == border);
        assert(lines_of(msg).map_values(framed) =~= seq![border]);
    } else {
        let rest = msg.drop_last();
        lemma_bordered_lines(border, rest);
        lemma_lines_of_len(rest);
        let inner = lines_of(rest);
        let outer = lines_of(bordered(border, rest));
        assert(outer == inner.map_values(framed));
        if msg.last() == '\n' {
            let broken = bordered(border, rest).push('\n');
            assert(bordered(border, msg) == broken + border);
            assert(broken.drop_last() == bordered(border, rest));
            lemma_lines_of_appended(broken, border);
            assert(lines_of(broken) == outer.push(Seq::empty()));
            assert(lines_of(broken).drop_last() == outer);
            assert(Seq::<char>::empty() + border == border);
            assert(border + Seq::<char>::empty() == border);
            assert(lines_of(msg).map_values(framed) =~= outer.push(border));
        } else {
            let c = msg.last();
            assert(bordered(border, msg) == bordered(border, rest).push(c));
            assert(bordered(border, msg).drop_last() == bordered(border, rest));
            assert((border + inner.last()).push(c) == border + inner.last().push(c));
            assert(lines_of(msg).map_values(framed) =~= outer.drop_last().push(
                outer.last().push(c),
            ));
        }
    }
}

/// Puts `border` in front of each line of `msg`.
pub fn with_border(border: &str, msg: &str) -> (out: String)
    ensures
        out@ == bordered(border@, msg@),
{
    let mut out = border.to_owned();
    for c in it: msg.chars()
        invariant
            it.seq() == msg@,
            out@ == bordered(border@, msg@.take(it.index())),
    {
        proof {
            let i = it.index();
            let before = continued(border@, msg@.take(i));
            assert(msg@.take(i + 1).drop_last() == msg@.take(i));
            if c == '\n' {
                assert(border@ + (before.push('\n') + border@) == (border@ + before).push('\n')
                    + border@);
            } else {
                assert(border@ + before.push(c) == (border@ + before).push(c));
            }
        }
        out.push(c);
        if c == '\n' {
            out.append(border);
        }
    }
    proof {
        assert(msg@.take(msg@.len() as int) == msg@);
    }
    out
}

/// Writes `msg` with `border` in front of each of its lines, and a blank
/// line below it.
pub fn writelnln_bordered(term: &mut Coalescer, border: &str, msg: &str) -> (handle: PostHandler)
    ensures
        final(term)@ == old(term)@.wrote_line_and_blank(bordered(border@, msg@)),
        handle.lines() == clip(line_count(bordered(border@, msg@)) + 1),
{
    let replaced = with_border(border, msg);
    writelnln(term, replaced.as_str())
}

/// The colours that a border can have.
#[derive(Clone, Copy, Debug, PartialEq, Eq, Structural)]
pub enum Color {
    Red,
    Green,
    Cyan,
}

/// The styles that a text can be written in.
#[derive(Clone, Copy, Debug, PartialEq, Eq, Structural)]
pub enum Look {
    Red,
    Green,
    Cyan,
    Dim,
    Bold,
    GreenBold,
}

impl Color {
    /// The style that writes in this colour.
    pub open spec fn spec_look(self) -> Look {
        match self {
            Color::Red => Look::Red,
            Color::Green => Look::Green,
            Color::Cyan => Look::Cyan,
        }
    }

    /// The style that writes in this colour.
    pub fn look(self) -> (look: Look)
        ensures
            look == self.spec_look(),
    {
        match self {
            Color::Red => Look::Red,
            Color::Green => Look::Green,
            Color::Cyan => Look::Cyan,
        }
    }
}

impl Look {
    /// The name by which the terminal styles know this style.
    pub open spec fn spec_name(self) -> Seq<char> {
        match self {
            Look::Red => "red"@,
            Look::Green => "green"@,
            Look::Cyan => "cyan"@,
            Look::Dim => "dim"@,
            Look::Bold => "bold"@,
            Look::GreenBold => "green.bold"@,
        }
    }

    /// The name by which the terminal styles know this style.
    pub fn name(self) -> (name: &'static str)
        ensures
            name@ == self.spec_name(),
    {
        match self {
            Look::Red => "red",
            Look::Green => "green",
            Look::Cyan => "cyan",
            Look::Dim => "dim",
            Look::Bold => "bold",
            Look::GreenBold => "green.bold",
        }
    }

    /// The escape codes that switch this style on.
    pub open spec fn codes(self) -> Seq<char> {
        match self {
            Look::Red => "\u{1b}[31m"@,
            Look::Green => "\u{1b}[32m"@,
            Look::Cyan => "\u{1b}[36m"@,
            Look::Dim => "\u{1b}[2m"@,
            Look::Bold => "\u{1b}[1m"@,
            Look::GreenBold => "\u{1b}[32m\u{1b}[1m"@,
        }
    }
}

/// The escape sequence that ends every styled text.
pub open spec fn reset_code() -> Seq<char> {
    seq!['\u{1b}', '[', '0', 'm']
}

/// Whether `out` is `text` as a terminal style renders it: `text` itself where
/// styling is switched off or the style is empty, and otherwise `text` between
/// escape codes on one line and the reset code.
pub open spec fn styled(text: Seq<char>, out: Seq<char>) -> bool {
    ||| out == text
    ||| exists|codes: Seq<char>| #[trigger]
        count_char(codes, '\n') == 0 && out == codes + text + reset_code()
}

/// Styling adds no line break.
pub proof fn lemma_styled_line_count(text: Seq<char>, out: Seq<char>)
    requires
        styled(text, out),
    ensures
        count_char(out, '\n') == count_char(text, '\n'),
{
    if out != text {
        let codes = choose|codes: Seq<char>| #[trigger]
            count_char(codes, '\n') == 0 && out == codes + text + reset_code();
        lemma_count_char_concat(codes, text, '\n');
        lemma_count_char_concat(codes + text, reset_code(), '\n');
        lemma_reset_code_is_one_line();
    }
}

proof fn lemma_reset_code_is_one_line()
    ensures
        count_char(reset_code(), '\n') == 0,
{
    let r = reset_code();
    assert(r.drop_last() == seq!['\u{1b}', '[', '0']);
    assert(r.drop_last().drop_last() == seq!['\u{1b}', '[']);
    assert(r.drop_last().drop_last().drop_last() == seq!['\u{1b}']);
    assert(r.drop_last().drop_last().drop_last().drop_last() == Seq::<char>::empty());
    reveal_with_fuel(count_char, 5);
}

/// The escape codes that `console` writes in front of a text in the style
/// named `look`, for the names that this crate uses: for a colour its number
/// behind a 3, for bold and dimmed text the number of the attribute, and the
/// colour first where there are both.
pub open spec fn codes_named(look: Seq<char>) -> Option<Seq<char>> {
    if look == "red"@ {
        Some("\u{1b}[31m"@)
    } else if look == "green"@ {
        Some("\u{1b}[32m"@)
    } else if look == "cyan"@ {
        Some("\u{1b}[36m"@)
    } else if look == "dim"@ {
        Some("\u{1b}[2m"@)
    } else if look == "bold"@ {
        Some("\u{1b}[1m"@)
    } else if look == "green.bold"@ {
        Some("\u{1b}[32m\u{1b}[1m"@)
    } else {
        None
    }
}

/// Renders `text` in the style that `look` names, a dotted list of terms
/// such as `red` or `green.bold`, through `console::Style::from_dotted_str`
/// and `console::Style::apply_to`. Whether the style is applied depends on
/// the terminal and the environment; applied, the text stands unchanged
/// between the style's escape codes and the reset code.
#[verifier::external_body]
fn paint(text: &str, look: &str) -> (out: String)
    ensures
        styled(text@, out@),
        codes_named(look@) matches Some(codes) ==> out@ == text@ || out@ == codes + text@
            + reset_code(),
{
    console::Style::from_dotted_str(look).apply_to(text).to_string()
}

/// Whether `out` is `text` written in the style `look`: between the codes of
/// the style and the reset code, or, where styling is switched off, as it is.
pub open spec fn painted(text: Seq<char>, look: Look, out: Seq<char>) -> bool {
    out == text || out == look.codes() + text + reset_code()
}

proof fn lemma_codes_named(look: Look)
    ensures
        codes_named(look.spec_name()) == Some(look.codes()),
{
    reveal_strlit("red");
    reveal_strlit("green");
    reveal_strlit("cyan");
    reveal_strlit("dim");
    reveal_strlit("bold");
    reveal_strlit("green.bold");
    assert("red"@.len() == 3 && "green"@.len() == 5 && "cyan"@.len() == 4 && "dim"@.len() == 3
        && "bold"@.len() == 4 && "green.bold"@.len() == 10);
    assert("dim"@[0] == 'd' && "red"@[0] == 'r');
    assert("bold"@[0] == 'b' && "cyan"@[0] == 'c');
}

/// Writes `text` in the style `look`. Styling adds no line break.
pub fn paint_as(text: &str, look: Look) -> (out: String)
    ensures
        painted(text@, look, out@),
        styled(text@, out@),
{
    proof {
        lemma_codes_named(look);
    }
    paint(text, look.name())
}

/// The glyph that borders a highlighted message.
pub open spec fn border_glyph() -> Seq<char> {
    seq!['\u{2503}']
}

/// Whether `after` is `before` once `msg` has been written with a border of
/// the glyph in `color` and a blank in front of each line, and a blank line
/// below.
pub open spec fn highlighted(
    before: CoalescerView,
    after: CoalescerView,
    color: Color,
    msg: Seq<char>,
) -> bool {
    exists|glyph: Seq<char>| #[trigger]
        painted(border_glyph(), color.spec_look(), glyph) && after
            == before.wrote_line_and_blank(bordered(glyph.push(' '), msg))
}

/// Writes `msg` with a coloured border glyph in front of each of its lines,
/// and a blank line below it.
pub fn writelnln_highlighted(
    term: &mut Coalescer,
    border_color: Color,
    msg: &str,
) -> (handle: PostHandler)
    ensures
        highlighted(old(term)@, final(term)@, border_color, msg@),
        handle.lines() == clip(line_count(msg@) + 1),
{
    proof {
        reveal_strlit("\u{2503}");
        assert("\u{2503}"@ =~= border_glyph());
    }
    let mut border = paint_as("\u{2503}", border_color.look());
    let ghost glyph = border@;
    border.push(' ');
    proof {
        lemma_styled_line_count(border_glyph(), glyph);
        reveal_with_fuel(count_char, 2);
        assert(border_glyph().drop_last() == Seq::<char>::empty());
        assert(glyph.push(' ').drop_last() == glyph);
        lemma_bordered_line_count(border@, msg@);
    }
    let handle = writelnln_bordered(term, border.as_str(), msg);
    handle
}

/// The heading of an error message.
pub open spec fn error_heading() -> Seq<char> {
    seq!['E', 'r', 'r', 'o', 'r', ':', '\n']
}

/// Whether `after` is `before` once `msg` has been reported as an error:
/// highlighted, under a styled heading.
pub open spec fn reported(before: CoalescerView, after: CoalescerView, msg: Seq<char>) -> bool {
    exists|heading: Seq<char>| #[trigger]
        painted(error_heading(), Look::Red, heading) && highlighted(
            before,
            after,
            Color::Red,
            heading + msg,
        )
}

/// Reports `msg` as an error: under a red heading, with a red border.
pub fn error(term: &mut Coalescer, msg: &str)
    ensures
        reported(old(term)@, final(term)@, msg@),
{
    proof {
        reveal_strlit("Error:\n");
        assert("Error:\n"@ =~= error_heading());
    }
    let mut buf = paint_as("Error:\n", Look::Red);
    buf.append(msg);
    let _ = writelnln_highlighted(term, Color::Red, buf.as_str());
}

/// The heading of a debug message.
pub open spec fn debug_heading() -> Seq<char> {
    seq!['D', 'e', 'b', 'u', 'g', ':', '\n']
}

/// Whether `after` is `before` once `msg` has been written as a debug
/// message: highlighted, under a styled heading.
pub open spec fn noted(before: CoalescerView, after: CoalescerView, msg: Seq<char>) -> bool {
    exists|heading: Seq<char>| #[trigger]
        painted(debug_heading(), Look::Cyan, heading) && highlighted(
            before,
            after,
            Color::Cyan,
            heading + msg,
        )
}

/// Writes `msg` as a debug message, under a cyan heading and with a cyan
/// border, where debug messages are switched on; otherwise writes nothing.
pub fn debug(term: &mut Coalescer, msg: &str)
    ensures
        DEBUG ==> noted(old(term)@, final(term)@, msg@),
        !DEBUG ==> final(term)@ == old(term)@,
{
    if DEBUG {
        proof {
            reveal_strlit("Debug:\n");
            assert("Debug:\n"@ =~= debug_heading());
        }
        let mut buf = paint_as("Debug:\n", Look::Cyan);
        buf.append(msg);
        let _ = writelnln_highlighted(term, Color::Cyan, buf.as_str());
    }
}

/// What the `Debug` implementation of `std::time::Duration` writes for a
/// span of so many milliseconds: the number with its unit, such as `1.5s`.
pub uninterp spec fn duration_debug_text(millis: u64) -> Seq<char>;

/// Writes a span of `millis` milliseconds as `std::time::Duration` writes
/// itself for debugging. The text is a function of the number alone.
#[verifier::external_body]
fn duration_text(millis: u64) -> (text: String)
    ensures
        text@ == duration_debug_text(millis),
{
    format!("{:?}", std::time::Duration::from_millis(millis))
}

/// What is noted of a bar that is done: how often it was drawn, and how long
/// it took.
pub open spec fn done_note_text(redrawn: u32, elapsed_millis: u64) -> Seq<char> {
    "Redrawn: "@ + decimal(redrawn as nat) + "\nElapsed: "@ + duration_debug_text(elapsed_millis)
}

/// The note on a bar that is done, which was drawn `redrawn` times in
/// `elapsed_millis` milliseconds.
pub fn done_note(redrawn: u32, elapsed_millis: u64) -> (note: String)
    ensures
        note@ == done_note_text(redrawn, elapsed_millis),
{
    let mut note = String::new();
    note.append("Redrawn: ");
    note.append(decimal_text(redrawn as u64).as_str());
    note.append("\nElapsed: ");
    note.append(duration_text(elapsed_millis).as_str());
    assert(note@ =~= done_note_text(redrawn, elapsed_millis));
    note
}

/// Number of cells in a progress bar.
pub const BAR_WIDTH: u32 = 20;

/// The number of filled cells that stands for `status` out of `target` on a
/// bar of `width` cells: the whole part of `status / target * width`, and
/// never more than `width`.
pub open spec fn fill_level(status: nat, target: nat, width: nat) -> nat
    recommends
        target >= 1,
{
    let raw = (status * width) / target;
    if raw <= width {
        raw
    } else {
        width
    }
}

/// More progress never fills fewer cells.
pub proof fn lemma_fill_level_monotonic(a: nat, b: nat, target: nat, width: nat)
    requires
        a <= b,
        target >= 1,
    ensures
        fill_level(a, target, width) <= fill_level(b, target, width),
{
    assert(a * width <= b * width) by (nonlinear_arith)
        requires
            a <= b,
    ;
    vstd::arithmetic::div_mod::lemma_div_is_ordered(
        (a * width) as int,
        (b * width) as int,
        target as int,
    );
}

/// A bar with at least one cell is full exactly when the target is reached.
pub proof fn lemma_fill_level_full(status: nat, target: nat, width: nat)
    requires
        target >= 1,
        width >= 1,
    ensures
        fill_level(status, target, width) == width <==> status >= target,
{
    let raw = (status * width) / target;
    if status >= target {
        assert(status * width >= target * width) by (nonlinear_arith)
            requires
                status >= target,
        ;
        vstd::arithmetic::div_mod::lemma_div_is_ordered(
            (target * width) as int,
            (status * width) as int,
            target as int,
        );
        vstd::arithmetic::div_mod::lemma_div_multiples_vanish(width as int, target as int);
        assert(target * width == width * target) by (nonlinear_arith);
    } else {
        assert(status * width < target * width) by (nonlinear_arith)
            requires
                status < target,
                width >= 1,
        ;
        assert(target * width == width * target) by (nonlinear_arith);
        vstd::arithmetic::div_mod::lemma_div_by_multiple_is_strongly_ordered(
            (status * width) as int,
            (width * target) as int,
            width as int,
            target as int,
        );
        vstd::arithmetic::div_mod::lemma_div_multiples_vanish(width as int, target as int);
    }
}

/// A bounded counter shown as a bar of [`BAR_WIDTH`] cells. It is drawn anew
/// only when another cell fills and, where a minimum interval is set, no
/// sooner than that after the last drawing.
pub struct ProgressBar {
    target: usize,
    title: Option<String>,
    status: usize,
    visible_status: u32,
    bar_width: u32,
    redrawn: u32,
    min_interval: Option<u64>,
    last_redraw: u64,
    started: u64,
}

/// The state of a [`ProgressBar`].
pub struct ProgressBarView {
    /// The count at which the work is done; at least 1.
    pub target: usize,
    /// What stands in front of the bar.
    pub title: Option<Seq<char>>,
    /// The count last reported.
    pub status: usize,
    /// Number of filled cells on the bar as last drawn.
    pub fill: u32,
    /// Number of cells.
    pub width: u32,
    /// How often the bar has been drawn.
    pub redrawn: u32,
    /// Least time between two drawings, in milliseconds.
    pub min_interval: Option<u64>,
    /// Time of the last drawing, in milliseconds.
    pub last_redraw: u64,
    /// Time at which the bar was made, in milliseconds.
    pub started: u64,
}

/// The character of a filled cell.
pub open spec fn filled_cell() -> char {
    '\u{2588}'
}

/// The character of an empty cell.
pub open spec fn empty_cell() -> char {
    '\u{2591}'
}

impl ProgressBarView {
    /// The title and a colon, or nothing where there is no title.
    pub open spec fn title_prefix(self) -> Seq<char> {
        match self.title {
            Some(t) => t + seq![':', ' '],
            None => Seq::empty(),
        }
    }

    /// The line that shows a bar that is not full.
    pub open spec fn bar_text(self) -> Seq<char> {
        self.title_prefix() + Seq::new(self.fill as nat, |i: int| filled_cell()) + Seq::new(
            (self.width - self.fill) as nat,
            |i: int| empty_cell(),
        )
    }

    /// The line that stands for a full bar.
    pub open spec fn done_text(self) -> Seq<char> {
        self.title_prefix() + seq!['D', 'o', 'n', 'e', '!']
    }

    /// The coalescer after the line of this bar has been written on `term`:
    /// a bar that is not full is a disposable line, a full one stays, with a
    /// blank line below it.
    pub open spec fn lines_on(self, term: CoalescerView) -> CoalescerView {
        if self.fill < self.width {
            term.wrote_line(self.bar_text()).scheduled(clip(line_count(self.bar_text())))
        } else {
            term.wrote_line_and_blank(self.done_text())
        }
    }

    /// Milliseconds from the making of the bar to its last drawing.
    pub open spec fn age(self) -> u64 {
        if self.last_redraw >= self.started {
            (self.last_redraw - self.started) as u64
        } else {
            0
        }
    }

    /// Whether `after` is `before` once this bar has been drawn: its line is
    /// written, and behind a full bar, where debug messages are switched on,
    /// the note of how often the bar was drawn and how long it took.
    pub open spec fn drawn_on(self, before: CoalescerView, after: CoalescerView) -> bool {
        if DEBUG && self.fill >= self.width {
            noted(self.lines_on(before), after, done_note_text(self.redrawn, self.age()))
        } else {
            after == self.lines_on(before)
        }
    }

    /// Milliseconds from the last drawing to `now`.
    pub open spec fn elapsed(self, now: u64) -> nat {
        if now >= self.last_redraw {
            (now - self.last_redraw) as nat
        } else {
            0
        }
    }

    /// Whether a report of `status` at time `now` draws the bar anew.
    pub open spec fn due(self, status: usize, now: u64) -> bool {
        &&& fill_level(status as nat, self.target as nat, self.width as nat) > self.fill
        &&& match self.min_interval {
            Some(interval) => self.elapsed(now) >= interval,
            None => true,
        }
    }

    /// The bar after a report of `status` at time `now`.
    pub open spec fn updated(self, status: usize, now: u64) -> ProgressBarView {
        if self.due(status, now) {
            ProgressBarView {
                status,
                fill: fill_level(status as nat, self.target as nat, self.width as nat) as u32,
                redrawn: (self.redrawn + 1) as u32,
                last_redraw: now,
                ..self
            }
        } else {
            ProgressBarView { status, ..self }
        }
    }

    /// Whether `after` is `before` once `status` has been reported at time
    /// `now`: with the bar drawn anew where the report is due, and as it was
    /// otherwise.
    pub open spec fn reported_on(
        self,
        before: CoalescerView,
        after: CoalescerView,
        status: usize,
        now: u64,
    ) -> bool {
        if self.due(status, now) {
            self.updated(status, now).drawn_on(before, after)
        } else {
            after == before
        }
    }
}

fn push_cells(out: &mut String, cell: char, n: u32)
    ensures
        final(out)@ == old(out)@ + Seq::new(n as nat, |i: int| cell),
{
    let mut i: u32 = 0;
    while i < n
        invariant
            i <= n,
            out@ == old(out)@ + Seq::new(i as nat, |j: int| cell),
        decreases n - i,
    {
        out.push(cell);
        i = i + 1;
    }
}

impl View for ProgressBar {
    type V = ProgressBarView;

    closed spec fn view(&self) -> ProgressBarView {
        ProgressBarView {
            target: self.target,
            title: match self.title {
                Some(t) => Some(t@),
                None => None,
            },
            status: self.status,
            fill: self.visible_status,
            width: self.bar_width,
            redrawn: self.redrawn,
            min_interval: self.min_interval,
            last_redraw: self.last_redraw,
            started: self.started,
        }
    }
}

impl ProgressBar {
    #[verifier::type_invariant]
    spec fn well_formed(self) -> bool {
        &&& self.target >= 1
        &&& self.bar_width == BAR_WIDTH
        &&& self.visible_status <= self.bar_width
        &&& self.redrawn <= self.visible_status + 1
    }

    /// A bar for `target` steps with no progress yet, drawn once, empty, on
    /// `term`. `now_millis` is the caller's clock, in milliseconds.
    pub fn new(
        term: &mut Coalescer,
        target: usize,
        title: Option<&str>,
        min_interval_millis: Option<u64>,
        now_millis: u64,
    ) -> (bar: ProgressBar)
        requires
            target >= 1,
        ensures
            bar@ == (ProgressBarView {
                target,
                title: match title {
                    Some(t) => Some(t@),
                    None => None,
                },
                status: 0,
                fill: 0,
                width: BAR_WIDTH,
                redrawn: 1,
                min_interval: min_interval_millis,
                last_redraw: now_millis,
                started: now_millis,
            }),
            bar@.drawn_on(old(term)@, final(term)@),
    {
        let title = match title {
            Some(t) => Some(t.to_owned()),
            None => None,
        };
        let mut bar = ProgressBar {
            target,
            title,
            status: 0,
            visible_status: 0,
            bar_width: BAR_WIDTH,
            redrawn: 0,
            min_interval: min_interval_millis,
            last_redraw: now_millis,
            started: now_millis,
        };
        bar.draw(term);
        bar
    }

    /// Takes note of `status` at time `now_millis`, and draws the bar anew if
    /// another cell fills and the minimum interval, where there is one, has
    /// passed since the last drawing. The number of filled cells never goes
    /// down, and reaches the bar's width only once `status` reaches the target.
    pub fn update(&mut self, term: &mut Coalescer, status: usize, now_millis: u64)
        ensures
            final(self)@ == old(self)@.updated(status, now_millis),
            old(self)@.reported_on(old(term)@, final(term)@, status, now_millis),
            old(self)@.fill <= final(self)@.fill <= final(self)@.width,
            final(self)@.fill == final(self)@.width ==> old(self)@.fill == old(self)@.width
                || status >= final(self)@.target,
    {
        proof {
            use_type_invariant(&*self);
            lemma_fill_level_full(status as nat, self.target as nat, self.bar_width as nat);
        }
        self.status = status;
        let scaled: u128 = (status as u128) * (self.bar_width as u128);
        let raw: u128 = scaled / (self.target as u128);
        let vs: u32 = if raw <= self.bar_width as u128 {
            raw as u32
        } else {
            self.bar_width
        };
        let waited = match self.min_interval {
            Some(interval) => now_millis.saturating_sub(self.last_redraw) >= interval,
            None => true,
        };
        if vs > self.visible_status && waited {
            self.visible_status = vs;
            self.last_redraw = now_millis;
            self.draw(term);
        }
    }

    /// The count at which the work is done.
    pub fn target(&self) -> (target: usize)
        ensures
            target == self@.target,
            target >= 1,
    {
        proof {
            use_type_invariant(self);
        }
        self.target
    }

    /// The count last reported.
    pub fn status(&self) -> (status: usize)
        ensures
            status == self@.status,
    {
        self.status
    }

    /// Number of filled cells on the bar as last drawn.
    pub fn visible_status(&self) -> (fill: u32)
        ensures
            fill == self@.fill,
            fill <= BAR_WIDTH,
    {
        proof {
            use_type_invariant(self);
        }
        self.visible_status
    }

    /// How often the bar has been drawn.
    pub fn redrawn(&self) -> (redrawn: u32)
        ensures
            redrawn == self@.redrawn,
    {
        self.redrawn
    }

    fn title_prefix(&self) -> (prefix: String)
        ensures
            prefix@ == self@.title_prefix(),
    {
        match &self.title {
            Some(t) => {
                let mut prefix = t.clone();
                proof {
                    reveal_strlit(": ");
                    assert(": "@ =~= seq![':', ' ']);
                }
                prefix.append(": ");
                prefix
            },
            None => String::new(),
        }
    }

    fn draw(&mut self, term: &mut Coalescer)
        requires
            old(self).redrawn <= old(self).visible_status,
        ensures
            final(self)@ == (ProgressBarView {
                redrawn: (old(self)@.redrawn + 1) as u32,
                ..old(self)@
            }),
            final(self)@.drawn_on(old(term)@, final(term)@),
    {
        proof {
            use_type_invariant(&*self);
        }
        self.redrawn = self.redrawn + 1;
        let filled = self.visible_status;
        let empty = self.bar_width - filled;
        let mut text = self.title_prefix();
        if empty > 0 {
            push_cells(&mut text, '\u{2588}', filled);
            push_cells(&mut text, '\u{2591}', empty);
            writeln(term, text.as_str()).update_later(term);
        } else {
            proof {
                reveal_strlit("Done!");
                assert("Done!"@ =~= seq!['D', 'o', 'n', 'e', '!']);
            }
            text.append("Done!");
            let _ = writelnln(term, text.as_str());
            let note = done_note(self.redrawn, self.last_redraw.saturating_sub(self.started));
            debug(term, note.as_str());
        }
    }
}

} // verus!
