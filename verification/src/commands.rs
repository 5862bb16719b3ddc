//! The commands of the interactive session: addressing saves by position or
//! interval, checking the name of a new save, and deciding what each command
//! asks to be done. A command that cannot go on reports why on the terminal
//! and returns the reason.

use crate::config::DEBUG;
use crate::text::{chars_of, decimal, decimal_text, parse_digits, parse_usize, str_eq};
use crate::ui::{error, paint_as, painted, reported, writelnln, Coalescer, CoalescerView, Look};
use crate::utils::SaveInfo;
use vstd::prelude::*;
use vstd::string::StringExecFns;

verus! {

/// Longest name of a save, in bytes.
pub const MAX_NAME_BYTES: usize = 69;

/// Why a command could not go on.
#[derive(Clone, Copy, Debug, PartialEq, Eq, Structural)]
pub enum CommandError {
    /// The save store could not be listed.
    SavesUnavailable,
    /// Nothing was given to work on.
    NoInput,
    /// The index is no number.
    InvalidIndex,
    /// The index is 0; positions start at 1.
    ZeroIndex,
    /// The list has no save at this position.
    NoSuchSave(usize),
    /// The text is neither an index nor an interval.
    InvalidInterval,
    /// The list has no saves from the first position to the second.
    NoSuchInterval(usize, usize),
    /// The name is empty.
    EmptyName,
    /// The name is longer than [`MAX_NAME_BYTES`].
    NameTooLong,
    /// The name holds characters that a save's name may not hold.
    ForbiddenChars,
    /// A save of this name exists.
    NameTaken,
    /// The text names no way to handle shortcuts.
    InvalidMode,
}

/// The kinds of reasons.
#[derive(Clone, Copy, Debug, PartialEq, Eq, Structural)]
pub enum ErrorKind {
    /// An index or an interval reaches outside the list.
    AddressingOutOfRange,
    /// An index or an interval is not written as one.
    InvalidRangeSyntax,
    /// A name that no save can have.
    InvalidName,
    /// A mode that is none.
    InvalidMode,
    /// Something that the command needs is not there.
    Unavailable,
}

impl CommandError {
    /// The kind of this reason.
    pub open spec fn spec_kind(self) -> ErrorKind {
        match self {
            CommandError::ZeroIndex | CommandError::NoSuchSave(_) | CommandError::NoSuchInterval(
                _,
                _,
            ) => ErrorKind::AddressingOutOfRange,
            CommandError::InvalidIndex | CommandError::InvalidInterval => {
                ErrorKind::InvalidRangeSyntax
            },
            CommandError::EmptyName
            | CommandError::NameTooLong
            | CommandError::ForbiddenChars
            | CommandError::NameTaken => ErrorKind::InvalidName,
            CommandError::InvalidMode => ErrorKind::InvalidMode,
            CommandError::SavesUnavailable | CommandError::NoInput => ErrorKind::Unavailable,
        }
    }

    /// The kind of this reason.
    pub fn kind(&self) -> (kind: ErrorKind)
        ensures
            kind == self.spec_kind(),
    {
        match self {
            CommandError::ZeroIndex | CommandError::NoSuchSave(_) | CommandError::NoSuchInterval(
                _,
                _,
            ) => ErrorKind::AddressingOutOfRange,
            CommandError::InvalidIndex | CommandError::InvalidInterval => {
                ErrorKind::InvalidRangeSyntax
            },
            CommandError::EmptyName
            | CommandError::NameTooLong
            | CommandError::ForbiddenChars
            | CommandError::NameTaken => ErrorKind::InvalidName,
            CommandError::InvalidMode => ErrorKind::InvalidMode,
            CommandError::SavesUnavailable | CommandError::NoInput => ErrorKind::Unavailable,
        }
    }
}

/// Whether a save's name may hold `c`: an ASCII letter or digit, a blank, a
/// parenthesis, or one of `=`, `+` and `-`.
pub open spec fn is_allowed(c: char) -> bool {
    ||| '0' <= c && c <= '9'
    ||| 'a' <= c && c <= 'z'
    ||| 'A' <= c && c <= 'Z'
    ||| c == ' '
    ||| c == '('
    ||| c == ')'
    ||| c == '='
    ||| c == '+'
    ||| c == '-'
}

/// The characters of `name` that a save's name may not hold, each once, in
/// the order in which they first occur.
pub open spec fn forbidden_chars(name: Seq<char>) -> Seq<char>
    decreases name.len(),
{
    if name.len() == 0 {
        Seq::empty()
    } else {
        let rest = forbidden_chars(name.drop_last());
        if is_allowed(name.last()) || rest.contains(name.last()) {
            rest
        } else {
            rest.push(name.last())
        }
    }
}

/// The list of forbidden characters names each character of `name` that is
/// not allowed, and names none twice.
pub proof fn lemma_forbidden_chars(name: Seq<char>)
    ensures
        forall|c: char| #[trigger]
            forbidden_chars(name).contains(c) <==> name.contains(c) && !is_allowed(c),
        forbidden_chars(name).no_duplicates(),
    decreases name.len(),
{
    let found = forbidden_chars(name);
    if name.len() > 0 {
        let rest = name.drop_last();
        let last = name.last();
        let before = forbidden_chars(rest);
        lemma_forbidden_chars(rest);
        assert forall|c: char| #[trigger] found.contains(c) <==> name.contains(c) && !is_allowed(
            c,
        ) by {
            if found.contains(c) {
                let i = choose|i: int| 0 <= i < found.len() && found[i] == c;
                if i < before.len() {
                    assert(before[i] == c);
                    assert(before.contains(c));
                    let j = choose|j: int| 0 <= j < rest.len() && rest[j] == c;
                    assert(name[j] == c);
                } else {
                    assert(c == last);
                    assert(name[name.len() - 1] == c);
                }
            }
            if name.contains(c) && !is_allowed(c) {
                let j = choose|j: int| 0 <= j < name.len() && name[j] == c;
                if j < rest.len() {
                    assert(rest[j] == c);
                    assert(before.contains(c));
                    let i = choose|i: int| 0 <= i < before.len() && before[i] == c;
                    assert(found[i] == c);
                } else {
                    if before.contains(c) {
                        let i = choose|i: int| 0 <= i < before.len() && before[i] == c;
                        assert(found[i] == c);
                    } else {
                        assert(found[found.len() - 1] == c);
                    }
                }
            }
        }
        assert forall|i: int, j: int| 0 <= i < found.len() && 0 <= j < found.len() && i
            != j implies found[i] != found[j] by {
            if i < before.len() && j < before.len() {
                assert(before[i] != before[j]);
            } else if i < before.len() {
                assert(before[i] == found[i]);
                assert(before.contains(found[i]));
            } else if j < before.len() {
                assert(before[j] == found[j]);
                assert(before.contains(found[j]));
            }
        }
    } else {
        assert forall|c: char| #[trigger] found.contains(c) <==> name.contains(c) && !is_allowed(
            c,
        ) by {}
    }
}

/// What is said of a reason that needs no styling. `token` is the text that
/// the command worked on.
pub open spec fn plain_message(failure: CommandError, token: Seq<char>) -> Seq<char> {
    match failure {
        CommandError::SavesUnavailable => "Saves are unavailable"@,
        CommandError::NoInput => Seq::empty(),
        CommandError::InvalidIndex => "Invalid index: "@ + token,
        CommandError::ZeroIndex => "Index must be greater than 0"@,
        CommandError::NoSuchSave(index) => "No save found by index: "@ + decimal(index as nat),
        CommandError::InvalidInterval => "Invalid interval: "@ + token,
        CommandError::NoSuchInterval(start, end) => "No saves found by interval: "@ + decimal(
            start as nat,
        ) + ".."@ + decimal(end as nat),
        CommandError::EmptyName => "Save name cannot be empty"@,
        CommandError::NameTooLong => "Save name is too long"@,
        CommandError::ForbiddenChars => "Save name contains forbidden characters: "@,
        CommandError::NameTaken => "Save with this name already exists: "@ + token,
        CommandError::InvalidMode => "Invalid mode: "@ + token,
    }
}

/// Whether `msg` is what is said of `failure`. Forbidden characters are
/// listed between dimmed square brackets; every other message is plain.
pub open spec fn describes(failure: CommandError, token: Seq<char>, msg: Seq<char>) -> bool {
    match failure {
        CommandError::NoInput => false,
        CommandError::ForbiddenChars => exists|open: Seq<char>, close: Seq<char>|
            #![trigger painted(seq!['['], Look::Dim, open), painted(seq![']'], Look::Dim, close)]
            painted(seq!['['], Look::Dim, open) && painted(seq![']'], Look::Dim, close) && msg
                == plain_message(
                failure,
                token,
            ) + open + forbidden_chars(token) + close,
        _ => msg == plain_message(failure, token),
    }
}

/// Whether `after` is `before` once `failure` has been reported: nothing is
/// written where nothing was given, and otherwise the message that describes
/// the reason is written as an error.
pub open spec fn told(
    before: CoalescerView,
    after: CoalescerView,
    failure: CommandError,
    token: Seq<char>,
) -> bool {
    if failure is NoInput {
        after == before
    } else {
        exists|msg: Seq<char>| #[trigger]
            describes(failure, token, msg) && reported(before, after, msg)
    }
}

/// Whether `after` is `before` once the outcome of a command has been seen
/// to: a success writes nothing, a failure is reported.
pub open spec fn settled<T>(
    before: CoalescerView,
    after: CoalescerView,
    outcome: Result<T, CommandError>,
    token: Seq<char>,
) -> bool {
    match outcome {
        Ok(_) => after == before,
        Err(failure) => told(before, after, failure, token),
    }
}

/// Lists the characters of `name` that a save's name may not hold.
pub fn find_forbidden_chars(name: &str) -> (found: Vec<char>)
    ensures
        found@ == forbidden_chars(name@),
{
    let mut found: Vec<char> = Vec::new();
    for c in it: name.chars()
        invariant
            it.seq() == name@,
            found@ == forbidden_chars(name@.take(it.index())),
    {
        proof {
            let i = it.index();
            assert(name@.take(i + 1).drop_last() == name@.take(i));
        }
        let allowed = (c >= '0' && c <= '9') || (c >= 'a' && c <= 'z') || (c >= 'A' && c <= 'Z')
            || c == ' ' || c == '(' || c == ')' || c == '=' || c == '+' || c == '-';
        if !allowed {
            let mut seen = false;
            let mut j: usize = 0;
            while j < found.len()
                invariant
                    j <= found.len(),
                    seen == found@.take(j as int).contains(c),
                decreases found.len() - j,
            {
                proof {
                    let before = found@.take(j as int);
                    let now = found@.take(j + 1);
                    assert(now == before.push(found@[j as int]));
                    if before.contains(c) {
                        let k = choose|k: int| 0 <= k < before.len() && before[k] == c;
                        assert(now[k] == c);
                    }
                    if found@[j as int] == c {
                        assert(now[j as int] == c);
                    }
                    if now.contains(c) {
                        let k = choose|k: int| 0 <= k < now.len() && now[k] == c;
                        if k < j {
                            assert(before[k] == c);
                        }
                    }
                }
                if found[j] == c {
                    seen = true;
                }
                j = j + 1;
            }
            proof {
                assert(found@.take(found.len() as int) == found@);
            }
            if !seen {
                found.push(c);
            }
        }
    }
    proof {
        assert(name@.take(name@.len() as int) == name@);
    }
    found
}

/// Reports `failure` as an error on the terminal. `token` is the text that
/// the command worked on.
pub fn report(term: &mut Coalescer, failure: CommandError, token: &str)
    ensures
        told(old(term)@, final(term)@, failure, token@),
{
    let mut msg = String::new();
    proof {
        assert(Seq::<char>::empty() + "Saves are unavailable"@ =~= "Saves are unavailable"@);
        assert(Seq::<char>::empty() + "Index must be greater than 0"@
            =~= "Index must be greater than 0"@);
        assert(Seq::<char>::empty() + "Save name cannot be empty"@
            =~= "Save name cannot be empty"@);
        assert(Seq::<char>::empty() + "Save name is too long"@ =~= "Save name is too long"@);
    }
    match failure {
        CommandError::NoInput => {
            return ;
        },
        CommandError::SavesUnavailable => {
            msg.append("Saves are unavailable");
        },
        CommandError::InvalidIndex => {
            msg.append("Invalid index: ");
            msg.append(token);
        },
        CommandError::ZeroIndex => {
            msg.append("Index must be greater than 0");
        },
        CommandError::NoSuchSave(index) => {
            msg.append("No save found by index: ");
            msg.append(decimal_text(index as u64).as_str());
        },
        CommandError::InvalidInterval => {
            msg.append("Invalid interval: ");
            msg.append(token);
        },
        CommandError::NoSuchInterval(start, end) => {
            msg.append("No saves found by interval: ");
            msg.append(decimal_text(start as u64).as_str());
            msg.append("..");
            msg.append(decimal_text(end as u64).as_str());
        },
        CommandError::EmptyName => {
            msg.append("Save name cannot be empty");
        },
        CommandError::NameTooLong => {
            msg.append("Save name is too long");
        },
        CommandError::ForbiddenChars => {
            proof {
                reveal_strlit("[");
                reveal_strlit("]");
                assert("["@ =~= seq!['[']);
                assert("]"@ =~= seq![']']);
            }
            msg.append("Save name contains forbidden characters: ");
            let open = paint_as("[", Look::Dim);
            msg.append(open.as_str());
            let found = find_forbidden_chars(token);
            let ghost head = msg@;
            let mut i: usize = 0;
            while i < found.len()
                invariant
                    i <= found.len(),
                    msg@ == head + found@.take(i as int),
                decreases found.len() - i,
            {
                msg.push(found[i]);
                i = i + 1;
            }
            let close = paint_as("]", Look::Dim);
            msg.append(close.as_str());
            proof {
                assert(found@.take(found.len() as int) == found@);
                assert(msg@ =~= plain_message(failure, token@) + open@ + forbidden_chars(token@)
                    + close@);
                assert(painted(seq!['['], Look::Dim, open@) && painted(
                    seq![']'],
                    Look::Dim,
                    close@,
                ));
            }
        },
        CommandError::NameTaken => {
            msg.append("Save with this name already exists: ");
            msg.append(token);
        },
        CommandError::InvalidMode => {
            msg.append("Invalid mode: ");
            msg.append(token);
        },
    }
    assert(describes(failure, token@, msg@));
    error(term, msg.as_str());
}

/// Sees to the outcome of a command: reports a failure, and hands the
/// outcome on.
fn settle<T>(
    term: &mut Coalescer,
    outcome: Result<T, CommandError>,
    token: &str,
) -> (same: Result<T, CommandError>)
    ensures
        same == outcome,
        settled(old(term)@, final(term)@, outcome, token@),
{
    match &outcome {
        Ok(_) => {},
        Err(failure) => {
            report(term, *failure, token);
        },
    }
    outcome
}

/// The save list, or the reason that there is none.
pub fn interactive_check_saves_mb<'a>(
    term: &mut Coalescer,
    saves_mb: Option<&'a Vec<SaveInfo>>,
) -> (saves: Result<&'a Vec<SaveInfo>, CommandError>)
    ensures
        saves == match saves_mb {
            Some(list) => Ok::<&Vec<SaveInfo>, CommandError>(list),
            None => Err(CommandError::SavesUnavailable),
        },
        settled(old(term)@, final(term)@, saves, Seq::empty()),
{
    proof {
        reveal_strlit("");
        assert(""@ =~= Seq::<char>::empty());
    }
    let saves = match saves_mb {
        Some(list) => Ok(list),
        None => Err(CommandError::SavesUnavailable),
    };
    settle(term, saves, "")
}

/// The position that `token` denotes.
pub open spec fn parsed_index(token: Seq<char>) -> Result<usize, CommandError> {
    match parse_usize(token) {
        Some(index) => Ok(index),
        None => Err(CommandError::InvalidIndex),
    }
}

/// Reads `str_index` as a position: an optional plus sign and decimal
/// digits, of a number that fits.
pub fn interactive_parse_index(
    term: &mut Coalescer,
    str_index: &str,
) -> (index: Result<usize, CommandError>)
    ensures
        index == parsed_index(str_index@),
        settled(old(term)@, final(term)@, index, str_index@),
{
    let chars = chars_of(str_index);
    assert(chars@.subrange(0, chars.len() as int) == str_index@);
    let index = match parse_digits(&chars, 0, chars.len()) {
        Some(index) => Ok(index),
        None => Err(CommandError::InvalidIndex),
    };
    settle(term, index, str_index)
}

/// The position that `arg` denotes, or that of the last save where there is
/// no `arg`.
pub open spec fn index_or_last(len: usize, arg: Option<&str>) -> Result<usize, CommandError> {
    match arg {
        Some(token) => parsed_index(token@),
        None => Ok(len),
    }
}

/// The text that a command worked on, where it was given any.
pub open spec fn token_of(arg: Option<&str>) -> Seq<char> {
    match arg {
        Some(token) => token@,
        None => Seq::empty(),
    }
}

/// The position that `arg` denotes; without `arg`, the position of the last,
/// most recent save.
pub fn interactive_get_index_or_last(
    term: &mut Coalescer,
    saves: &Vec<SaveInfo>,
    arg: Option<&str>,
) -> (index: Result<usize, CommandError>)
    ensures
        index == index_or_last(saves.len(), arg),
        settled(old(term)@, final(term)@, index, token_of(arg)),
{
    match arg {
        None => Ok(saves.len()),
        Some(s) => interactive_parse_index(term, s),
    }
}

/// Whether a list of `len` saves has the position `index`: positions start
/// at 1 and end at `len`.
pub open spec fn checked_index(len: usize, index: usize) -> Result<(), CommandError> {
    if index == 0 {
        Err(CommandError::ZeroIndex)
    } else if index > len {
        Err(CommandError::NoSuchSave(index))
    } else {
        Ok(())
    }
}

/// Checks that `saves` has the position `index`.
pub fn interactive_validate_save_index(
    term: &mut Coalescer,
    saves: &Vec<SaveInfo>,
    index: usize,
) -> (valid: Result<(), CommandError>)
    ensures
        valid == checked_index(saves.len(), index),
        valid is Ok <==> 1 <= index <= saves.len(),
        settled(old(term)@, final(term)@, valid, Seq::empty()),
{
    proof {
        reveal_strlit("");
        assert(""@ =~= Seq::<char>::empty());
    }
    let valid = if index == 0 {
        Err(CommandError::ZeroIndex)
    } else if index > saves.len() {
        Err(CommandError::NoSuchSave(index))
    } else {
        Ok(())
    };
    settle(term, valid, "")
}

/// The save at the position `index`, counted from 1.
pub fn interactive_get_save_by_index<'a>(
    term: &mut Coalescer,
    saves: &'a Vec<SaveInfo>,
    index: usize,
) -> (save: Result<&'a SaveInfo, CommandError>)
    ensures
        match checked_index(saves.len(), index) {
            Ok(_) => save matches Ok(found) && *found == saves@[index - 1],
            Err(failure) => save == Err::<&SaveInfo, CommandError>(failure),
        },
        settled(old(term)@, final(term)@, save, Seq::empty()),
{
    match interactive_validate_save_index(term, saves, index) {
        Ok(_) => Ok(&saves[index - 1]),
        Err(failure) => Err(failure),
    }
}

/// The place of the first two dots in a row in `s` at or behind `from`.
pub open spec fn first_dots(s: Seq<char>, from: int) -> Option<int>
    decreases s.len() - from,
{
    if from < 0 || from + 1 >= s.len() {
        None
    } else if s[from] == '.' && s[from + 1] == '.' {
        Some(from)
    } else {
        first_dots(s, from + 1)
    }
}

/// Whether two dots in a row begin at `at` in `s`.
pub open spec fn dots_at(s: Seq<char>, at: int) -> bool {
    0 <= at && at + 1 < s.len() && s[at] == '.' && s[at + 1] == '.'
}

/// The first two dots are two dots, and no two dots begin before them; where
/// there are none, no two dots begin anywhere.
pub proof fn lemma_first_dots(s: Seq<char>, from: int)
    requires
        0 <= from,
    ensures
        match first_dots(s, from) {
            Some(at) => from <= at && dots_at(s, at) && forall|k: int|
                from <= k < at ==> !dots_at(s, k),
            None => forall|k: int| from <= k ==> !dots_at(s, k),
        },
    decreases s.len() - from,
{
    if from + 1 < s.len() && !(s[from] == '.' && s[from + 1] == '.') {
        lemma_first_dots(s, from + 1);
    }
}

/// The bound that one side of an interval denotes: `default` where the side
/// is empty, and otherwise the position written there, if it is one.
pub open spec fn bound(side: Seq<char>, default: usize) -> Option<usize> {
    if side.len() == 0 {
        Some(default)
    } else {
        parse_usize(side)
    }
}

/// Both bounds, where the list has both positions.
pub open spec fn checked_bounds(
    len: usize,
    start: usize,
    end: usize,
) -> Result<(usize, usize), CommandError> {
    match checked_index(len, start) {
        Err(failure) => Err(failure),
        Ok(_) => match checked_index(len, end) {
            Err(failure) => Err(failure),
            Ok(_) => Ok((start, end)),
        },
    }
}

/// The interval that `token` denotes in a list of `len` saves: a single
/// position, or two positions with two dots between them, of which the first
/// may be left out for 1 and the second for `len`. Both positions have to be
/// in the list.
pub open spec fn parsed_slice(len: usize, token: Seq<char>) -> Result<(usize, usize), CommandError> {
    match parse_usize(token) {
        Some(index) => checked_bounds(len, index, index),
        None => match first_dots(token, 0) {
            None => Err(CommandError::InvalidInterval),
            Some(at) => match (
                bound(token.subrange(0, at), 1),
                bound(token.subrange(at + 2, token.len() as int), len),
            ) {
                (Some(start), Some(end)) => checked_bounds(len, start, end),
                _ => Err(CommandError::InvalidInterval),
            },
        },
    }
}

fn find_dots(chars: &Vec<char>) -> (at: Option<usize>)
    ensures
        match at {
            Some(at) => first_dots(chars@, 0) == Some(at as int) && at + 2 <= chars.len(),
            None => first_dots(chars@, 0) is None,
        },
{
    let n = chars.len();
    if n < 2 {
        return None;
    }
    let mut i: usize = 0;
    while i < n - 1
        invariant
            n == chars.len(),
            n >= 2,
            i <= n - 1,
            first_dots(chars@, 0) == first_dots(chars@, i as int),
        decreases n - i,
    {
        if chars[i] == '.' && chars[i + 1] == '.' {
            return Some(i);
        }
        i = i + 1;
    }
    None
}

fn check_bounds(
    len: usize,
    start: usize,
    end: usize,
) -> (bounds: Result<(usize, usize), CommandError>)
    ensures
        bounds == checked_bounds(len, start, end),
{
    if start == 0 {
        Err(CommandError::ZeroIndex)
    } else if start > len {
        Err(CommandError::NoSuchSave(start))
    } else if end == 0 {
        Err(CommandError::ZeroIndex)
    } else if end > len {
        Err(CommandError::NoSuchSave(end))
    } else {
        Ok((start, end))
    }
}

/// Reads `str_slice` as an interval of positions in `saves`.
pub fn interactive_parse_slice(
    term: &mut Coalescer,
    saves: &Vec<SaveInfo>,
    str_slice: &str,
) -> (slice: Result<(usize, usize), CommandError>)
    ensures
        slice == parsed_slice(saves.len(), str_slice@),
        slice matches Ok(bounds) ==> (1 <= bounds.0 <= saves.len() && 1 <= bounds.1
            <= saves.len()),
        settled(old(term)@, final(term)@, slice, str_slice@),
{
    let chars = chars_of(str_slice);
    let n = chars.len();
    assert(chars@.subrange(0, n as int) == str_slice@);
    let slice = match parse_digits(&chars, 0, n) {
        Some(index) => check_bounds(saves.len(), index, index),
        None => match find_dots(&chars) {
            None => Err(CommandError::InvalidInterval),
            Some(at) => {
                let start = if at == 0 {
                    Some(1)
                } else {
                    parse_digits(&chars, 0, at)
                };
                let end = if at + 2 == n {
                    Some(saves.len())
                } else {
                    parse_digits(&chars, at + 2, n)
                };
                match (start, end) {
                    (Some(start), Some(end)) => check_bounds(saves.len(), start, end),
                    _ => Err(CommandError::InvalidInterval),
                }
            },
        },
    };
    settle(term, slice, str_slice)
}

/// The interval that `arg` denotes. Without `arg` there is nothing to read,
/// and nothing is reported.
pub fn interactive_get_slice(
    term: &mut Coalescer,
    saves: &Vec<SaveInfo>,
    arg: Option<&str>,
) -> (slice: Result<(usize, usize), CommandError>)
    ensures
        slice == match arg {
            Some(token) => parsed_slice(saves.len(), token@),
            None => Err(CommandError::NoInput),
        },
        settled(old(term)@, final(term)@, slice, token_of(arg)),
{
    match arg {
        Some(token) => interactive_parse_slice(term, saves, token),
        None => Err(CommandError::NoInput),
    }
}

/// Whether a list of `len` saves has the interval from `start` to `end`,
/// both counted from 1 and both included.
pub open spec fn is_interval(len: usize, start: usize, end: usize) -> bool {
    1 <= start <= end <= len
}

/// The saves at the positions `slice.0` to `slice.1`, both included.
pub fn interactive_get_saves_by_slice<'a>(
    term: &mut Coalescer,
    saves: &'a Vec<SaveInfo>,
    slice: (usize, usize),
) -> (found: Result<&'a [SaveInfo], CommandError>)
    ensures
        is_interval(saves.len(), slice.0, slice.1) ==> (found matches Ok(part) && part@
            == saves@.subrange(slice.0 - 1, slice.1 as int)),
        !is_interval(saves.len(), slice.0, slice.1) ==> found == Err::<
            &[SaveInfo],
            CommandError,
        >(CommandError::NoSuchInterval(slice.0, slice.1)),
        settled(old(term)@, final(term)@, found, Seq::empty()),
{
    proof {
        reveal_strlit("");
        assert(""@ =~= Seq::<char>::empty());
    }
    if 1 <= slice.0 && slice.0 <= slice.1 && slice.1 <= saves.len() {
        Ok(vstd::slice::slice_subrange(saves.as_slice(), slice.0 - 1, slice.1))
    } else {
        report(term, CommandError::NoSuchInterval(slice.0, slice.1), "");
        Err(CommandError::NoSuchInterval(slice.0, slice.1))
    }
}

/// Whether one of `saves` has the name `name`.
pub open spec fn name_taken(saves: Seq<SaveInfo>, name: Seq<char>) -> bool {
    exists|i: int| 0 <= i < saves.len() && (#[trigger] saves[i]).name@ == name
}

/// Whether a new save can be called `name`: the name is not empty, is no
/// longer than [`MAX_NAME_BYTES`], holds allowed characters only, and is not
/// the name of one of `saves`. The first of these that fails is the reason.
pub open spec fn checked_name(saves: Seq<SaveInfo>, name: Seq<char>) -> Result<(), CommandError> {
    if name.len() == 0 {
        Err(CommandError::EmptyName)
    } else if vstd::utf8::encode_utf8(name).len() > MAX_NAME_BYTES {
        Err(CommandError::NameTooLong)
    } else if forbidden_chars(name).len() > 0 {
        Err(CommandError::ForbiddenChars)
    } else if name_taken(saves, name) {
        Err(CommandError::NameTaken)
    } else {
        Ok(())
    }
}

fn has_name(saves: &Vec<SaveInfo>, name: &str) -> (taken: bool)
    ensures
        taken == name_taken(saves@, name@),
{
    let mut i: usize = 0;
    while i < saves.len()
        invariant
            i <= saves.len(),
            forall|j: int| 0 <= j < i ==> (#[trigger] saves@[j]).name@ != name@,
        decreases saves.len() - i,
    {
        if str_eq(saves[i].name.as_str(), name) {
            return true;
        }
        i = i + 1;
    }
    false
}

/// Checks that a new save can be called `name`.
pub fn interactive_validate_save_name(
    term: &mut Coalescer,
    saves: &Vec<SaveInfo>,
    name: &str,
) -> (valid: Result<(), CommandError>)
    ensures
        valid == checked_name(saves@, name@),
        settled(old(term)@, final(term)@, valid, name@),
{
    let valid = if name.is_empty() {
        Err(CommandError::EmptyName)
    } else if name.as_bytes().len() > MAX_NAME_BYTES {
        Err(CommandError::NameTooLong)
    } else if find_forbidden_chars(name).len() > 0 {
        Err(CommandError::ForbiddenChars)
    } else if has_name(saves, name) {
        Err(CommandError::NameTaken)
    } else {
        Ok(())
    };
    settle(term, valid, name)
}

/// The name that was given for a new save.
pub fn interactive_get_save_name(arg: Option<&str>) -> (name: Result<String, CommandError>)
    ensures
        match arg {
            Some(token) => name matches Ok(text) && text@ == token@,
            None => name == Err::<String, CommandError>(CommandError::NoInput),
        },
{
    match arg {
        Some(s) => Ok(s.to_owned()),
        None => Err(CommandError::NoInput),
    }
}

/// Whether what is said of `failure` quotes the text that the command
/// worked on.
pub open spec fn quotes_token(failure: CommandError) -> bool {
    match failure {
        CommandError::InvalidIndex
        | CommandError::InvalidInterval
        | CommandError::ForbiddenChars
        | CommandError::NameTaken
        | CommandError::InvalidMode => true,
        _ => false,
    }
}

/// A report that quotes nothing is the same report whatever the text was.
pub proof fn lemma_told_without_token(
    before: CoalescerView,
    after: CoalescerView,
    failure: CommandError,
    token: Seq<char>,
    other: Seq<char>,
)
    requires
        told(before, after, failure, token),
        !quotes_token(failure),
    ensures
        told(before, after, failure, other),
{
    if !(failure is NoInput) {
        let msg = choose|msg: Seq<char>| #[trigger]
            describes(failure, token, msg) && reported(before, after, msg);
        assert(describes(failure, other, msg));
    }
}

/// How a copy treats the sidecars, and what its progress bar is called.
#[derive(Clone, Copy, Debug, PartialEq, Eq)]
pub struct CopyOptions {
    /// Whether the statistics of the source may come from its sidecar.
    pub read_src_cache: bool,
    /// Whether the destination gets a sidecar.
    pub write_dst_cache: bool,
    /// The title of the progress bar.
    pub title: &'static str,
}

/// What is done with a shortcut.
#[derive(Clone, Copy, Debug, PartialEq, Eq, Structural)]
pub enum XAction {
    Create,
    Remove,
}

/// Where a shortcut lies.
#[derive(Clone, Copy, Debug, PartialEq, Eq, Structural)]
pub enum XLocation {
    Desktop,
    StartMenu,
}

/// What a command asks its caller to do.
#[derive(Clone, Debug, PartialEq, Eq)]
pub enum Request {
    /// Copy the live save to a new save called `name`.
    Save { name: String, options: CopyOptions },
    /// Remove the live save, then copy the save at position `index`, counted
    /// from 1, which lies at `path`, in its place.
    Load { index: usize, path: std::path::PathBuf, options: CopyOptions },
    /// Remove the saves at the positions `start` to `end`, both counted from
    /// 1 and both included, which lie at `paths`, under a progress bar called
    /// `title`.
    Delete { start: usize, end: usize, paths: Vec<std::path::PathBuf>, title: &'static str },
    /// Launch the game.
    Play,
    /// End the session.
    Quit,
    /// Create or remove a shortcut.
    Shortcut { action: XAction, location: XLocation },
    /// Nothing.
    Nothing,
}

/// The options of the copy that makes a save: the live save is always
/// scanned, and the new save gets a sidecar.
pub open spec fn save_options(options: CopyOptions) -> bool {
    &&& !options.read_src_cache
    &&& options.write_dst_cache
    &&& options.title@ == "Saving"@
}

/// The options of the copy that loads a save: the save's sidecar is
/// trusted, and the live save gets none.
pub open spec fn load_options(options: CopyOptions) -> bool {
    &&& options.read_src_cache
    &&& !options.write_dst_cache
    &&& options.title@ == "Loading save"@
}

/// The command that does nothing.
pub fn cmd_test(
    _saves: Option<&Vec<SaveInfo>>,
    _arg: Option<&str>,
) -> (request: Result<Request, CommandError>)
    ensures
        request matches Ok(Request::Nothing),
{
    Ok(Request::Nothing)
}

/// Whether `request` is what a save comes to: it needs the list of saves
/// and a name that a new save can have, and asks for the copy of the live
/// save under that name.
pub open spec fn saved(
    saves_mb: Option<&Vec<SaveInfo>>,
    arg: Option<&str>,
    request: Result<Request, CommandError>,
) -> bool {
    match saves_mb {
        None => request matches Err(CommandError::SavesUnavailable),
        Some(saves) => match arg {
            None => request matches Err(CommandError::NoInput),
            Some(token) => match checked_name(saves@, token@) {
                Err(failure) => request matches Err(f) && f == failure,
                Ok(_) => request matches Ok(Request::Save { name, options }) && name@ == token@
                    && save_options(options),
            },
        },
    }
}

/// Makes a save of the live save under the name that `arg` gives, where the
/// save list is there and the name is one that a new save can have.
pub fn cmd_save(
    term: &mut Coalescer,
    saves_mb: Option<&Vec<SaveInfo>>,
    arg: Option<&str>,
) -> (request: Result<Request, CommandError>)
    ensures
        saved(saves_mb, arg, request),
        settled(old(term)@, final(term)@, request, token_of(arg)),
{
    let saves = match interactive_check_saves_mb(term, saves_mb) {
        Ok(saves) => saves,
        Err(failure) => {
            proof {
                lemma_told_without_token(
                    old(term)@,
                    term@,
                    failure,
                    Seq::empty(),
                    token_of(arg),
                );
            }
            return Err(failure);
        },
    };
    let save_name = match interactive_get_save_name(arg) {
        Ok(name) => name,
        Err(failure) => {
            return Err(failure);
        },
    };
    match interactive_validate_save_name(term, saves, save_name.as_str()) {
        Ok(_) => {},
        Err(failure) => {
            return Err(failure);
        },
    }
    Ok(
        Request::Save {
            name: save_name,
            options: CopyOptions { read_src_cache: false, write_dst_cache: true, title: "Saving" },
        },
    )
}

/// The position that a load works on: the one that `arg` denotes, or the
/// last, and it has to be in the list.
pub open spec fn resolved_index(len: usize, arg: Option<&str>) -> Result<usize, CommandError> {
    match index_or_last(len, arg) {
        Err(failure) => Err(failure),
        Ok(index) => match checked_index(len, index) {
            Err(failure) => Err(failure),
            Ok(_) => Ok(index),
        },
    }
}

/// Whether `request` is what a load comes to: it needs the list of saves
/// and a position in it, and asks for that save to be copied in place of the
/// live save.
pub open spec fn loaded(
    saves_mb: Option<&Vec<SaveInfo>>,
    arg: Option<&str>,
    request: Result<Request, CommandError>,
) -> bool {
    match saves_mb {
        None => request matches Err(CommandError::SavesUnavailable),
        Some(saves) => match resolved_index(saves.len(), arg) {
            Err(failure) => request matches Err(f) && f == failure,
            Ok(position) => request matches Ok(Request::Load { index, path, options }) && index
                == position && 1 <= index <= saves.len() && path == saves@[index - 1].path
                && load_options(options),
        },
    }
}

/// Loads the save at the position that `arg` gives, or the most recent save
/// where it gives none.
pub fn cmd_load(
    term: &mut Coalescer,
    saves_mb: Option<&Vec<SaveInfo>>,
    arg: Option<&str>,
) -> (request: Result<Request, CommandError>)
    ensures
        loaded(saves_mb, arg, request),
        settled(old(term)@, final(term)@, request, token_of(arg)),
{
    let saves = match interactive_check_saves_mb(term, saves_mb) {
        Ok(saves) => saves,
        Err(failure) => {
            proof {
                lemma_told_without_token(
                    old(term)@,
                    term@,
                    failure,
                    Seq::empty(),
                    token_of(arg),
                );
            }
            return Err(failure);
        },
    };
    let index = match interactive_get_index_or_last(term, saves, arg) {
        Ok(index) => index,
        Err(failure) => {
            return Err(failure);
        },
    };
    let save = match interactive_get_save_by_index(term, saves, index) {
        Ok(save) => save,
        Err(failure) => {
            proof {
                lemma_told_without_token(
                    old(term)@,
                    term@,
                    failure,
                    Seq::empty(),
                    token_of(arg),
                );
            }
            return Err(failure);
        },
    };
    Ok(
        Request::Load {
            index,
            path: save.path.clone(),
            options: CopyOptions {
                read_src_cache: true,
                write_dst_cache: false,
                title: "Loading save",
            },
        },
    )
}

/// The interval that a delete works on: the one that `arg` denotes, which
/// has to lie in the list and may not end before it starts.
pub open spec fn resolved_range(
    len: usize,
    arg: Option<&str>,
) -> Result<(usize, usize), CommandError> {
    match arg {
        None => Err(CommandError::NoInput),
        Some(token) => match parsed_slice(len, token@) {
            Err(failure) => Err(failure),
            Ok(bounds) => if is_interval(len, bounds.0, bounds.1) {
                Ok(bounds)
            } else {
                Err(CommandError::NoSuchInterval(bounds.0, bounds.1))
            },
        },
    }
}

/// Where `saves` lie, in their order.
pub open spec fn paths_of(saves: Seq<SaveInfo>) -> Seq<std::path::PathBuf> {
    saves.map_values(|save: SaveInfo| save.path)
}

fn collect_paths(saves: &[SaveInfo]) -> (paths: Vec<std::path::PathBuf>)
    ensures
        paths@ == paths_of(saves@),
{
    let mut paths: Vec<std::path::PathBuf> = Vec::new();
    let mut i: usize = 0;
    while i < saves.len()
        invariant
            i <= saves.len(),
            paths@ == paths_of(saves@).take(i as int),
        decreases saves.len() - i,
    {
        paths.push(saves[i].path.clone());
        i = i + 1;
    }
    paths
}

/// Whether `request` is what a delete comes to: it needs the list of saves
/// and an interval in it, and asks for exactly the saves of that interval to
/// be removed, in their order.
pub open spec fn deleted(
    saves_mb: Option<&Vec<SaveInfo>>,
    arg: Option<&str>,
    request: Result<Request, CommandError>,
) -> bool {
    match saves_mb {
        None => request matches Err(CommandError::SavesUnavailable),
        Some(saves) => match resolved_range(saves.len(), arg) {
            Err(failure) => request matches Err(f) && f == failure,
            Ok(bounds) => request matches Ok(Request::Delete { start, end, paths, title })
                && start == bounds.0 && end == bounds.1 && 1 <= start <= end <= saves.len()
                && paths@ == paths_of(saves@.subrange(start - 1, end as int)) && title@
                == "Deleting save"@,
        },
    }
}

/// Deletes the save, or the saves of the interval, that `arg` gives.
pub fn cmd_delete(
    term: &mut Coalescer,
    saves_mb: Option<&Vec<SaveInfo>>,
    arg: Option<&str>,
) -> (request: Result<Request, CommandError>)
    ensures
        deleted(saves_mb, arg, request),
        settled(old(term)@, final(term)@, request, token_of(arg)),
{
    let saves = match interactive_check_saves_mb(term, saves_mb) {
        Ok(saves) => saves,
        Err(failure) => {
            proof {
                lemma_told_without_token(
                    old(term)@,
                    term@,
                    failure,
                    Seq::empty(),
                    token_of(arg),
                );
            }
            return Err(failure);
        },
    };
    let index = match interactive_get_slice(term, saves, arg) {
        Ok(index) => index,
        Err(failure) => {
            return Err(failure);
        },
    };
    let part = match interactive_get_saves_by_slice(term, saves, index) {
        Ok(part) => part,
        Err(failure) => {
            proof {
                lemma_told_without_token(
                    old(term)@,
                    term@,
                    failure,
                    Seq::empty(),
                    token_of(arg),
                );
            }
            return Err(failure);
        },
    };
    Ok(
        Request::Delete {
            start: index.0,
            end: index.1,
            paths: collect_paths(part),
            title: "Deleting save",
        },
    )
}

/// The coalescer once the launch of the game has been announced: on a line,
/// with a blank line below it, both of which the next write replaces.
pub open spec fn launch_announced(before: CoalescerView) -> CoalescerView {
    before.wrote_line_and_blank("Launching Noita..."@).scheduled(
        crate::text::clip(crate::text::line_count("Launching Noita..."@) + 1),
    )
}

/// The coalescer once goodbye has been said.
pub open spec fn farewell_said(before: CoalescerView) -> CoalescerView {
    before.wrote_line_and_blank("Thx for using NoitaSaves! Have a nice day!\n"@)
}

/// Announces the launch of the game, on a line that the next write replaces.
pub fn cmd_play(
    term: &mut Coalescer,
    _saves_mb: Option<&Vec<SaveInfo>>,
    _arg: Option<&str>,
) -> (request: Result<Request, CommandError>)
    ensures
        request matches Ok(Request::Play),
        final(term)@ == launch_announced(old(term)@),
{
    writelnln(term, "Launching Noita...").update_later(term);
    Ok(Request::Play)
}

/// Says goodbye.
pub fn cmd_quit(
    term: &mut Coalescer,
    _saves: Option<&Vec<SaveInfo>>,
    _arg: Option<&str>,
) -> (request: Result<Request, CommandError>)
    ensures
        request matches Ok(Request::Quit),
        final(term)@ == farewell_said(old(term)@),
{
    let _ = writelnln(term, "Thx for using NoitaSaves! Have a nice day!\n");
    Ok(Request::Quit)
}

/// What `mode` asks to be done with a shortcut, and where: `c` or `r` for
/// create or remove, then `d` or `s` for the desktop or the start menu.
pub open spec fn x_mode(mode: Seq<char>) -> Option<(XAction, XLocation)> {
    if mode == seq!['c', 'd'] {
        Some((XAction::Create, XLocation::Desktop))
    } else if mode == seq!['c', 's'] {
        Some((XAction::Create, XLocation::StartMenu))
    } else if mode == seq!['r', 'd'] {
        Some((XAction::Remove, XLocation::Desktop))
    } else if mode == seq!['r', 's'] {
        Some((XAction::Remove, XLocation::StartMenu))
    } else {
        None
    }
}

/// Whether `request` is what the shortcut command comes to: it needs a
/// mode, and asks for what the mode says.
pub open spec fn shortcut_asked(arg: Option<&str>, request: Result<Request, CommandError>) -> bool {
    match arg {
        None => request matches Err(CommandError::NoInput),
        Some(mode) => match x_mode(mode@) {
            Some(pair) => request matches Ok(Request::Shortcut { action, location }) && action
                == pair.0 && location == pair.1,
            None => request matches Err(CommandError::InvalidMode),
        },
    }
}

/// Creates or removes a shortcut, as the mode in `arg_mb` says.
pub fn cmd_x(
    term: &mut Coalescer,
    _saves: Option<&Vec<SaveInfo>>,
    arg_mb: Option<&str>,
) -> (request: Result<Request, CommandError>)
    ensures
        shortcut_asked(arg_mb, request),
        settled(old(term)@, final(term)@, request, token_of(arg_mb)),
{
    let arg = match arg_mb {
        Some(arg) => arg,
        None => {
            return Err(CommandError::NoInput);
        },
    };
    proof {
        reveal_strlit("cd");
        reveal_strlit("cs");
        reveal_strlit("rd");
        reveal_strlit("rs");
        assert("cd"@ =~= seq!['c', 'd']);
        assert("cs"@ =~= seq!['c', 's']);
        assert("rd"@ =~= seq!['r', 'd']);
        assert("rs"@ =~= seq!['r', 's']);
    }
    let (action, location) = if str_eq(arg, "cd") {
        (XAction::Create, XLocation::Desktop)
    } else if str_eq(arg, "cs") {
        (XAction::Create, XLocation::StartMenu)
    } else if str_eq(arg, "rd") {
        (XAction::Remove, XLocation::Desktop)
    } else if str_eq(arg, "rs") {
        (XAction::Remove, XLocation::StartMenu)
    } else {
        report(term, CommandError::InvalidMode, arg);
        return Err(CommandError::InvalidMode);
    };
    Ok(Request::Shortcut { action, location })
}

/// Reports that there is no command called `cmd`.
pub fn cmd_not_found(term: &mut Coalescer, cmd: &str)
    ensures
        reported(old(term)@, final(term)@, "No such command: \""@ + cmd@ + "\""@),
{
    let mut msg = String::new();
    msg.append("No such command: \"");
    msg.append(cmd);
    msg.append("\"");
    error(term, msg.as_str());
}

/// The transfers that a command starts.
#[derive(Clone, Copy, Debug, PartialEq, Eq, Structural)]
pub enum Transfer {
    /// Copying the live save to a new save.
    Save,
    /// Removing the live save before a load.
    ClearCurrent,
    /// Copying a save in place of the live save.
    Load,
    /// Removing saves.
    Delete,
}

/// What is said when a transfer failed, in front of the reason.
pub open spec fn failure_heading(transfer: Transfer) -> Seq<char> {
    match transfer {
        Transfer::Save => "Failed to save save: "@,
        Transfer::ClearCurrent => "Failed to delete current progress: "@,
        Transfer::Load => "Failed to load save: "@,
        Transfer::Delete => "Failed to delete save: "@,
    }
}

/// Reports that `transfer` failed for the reason that `reason` gives. What
/// the transfer had done before it failed stays as it is.
pub fn report_transfer_failure(term: &mut Coalescer, transfer: Transfer, reason: &str)
    ensures
        reported(old(term)@, final(term)@, failure_heading(transfer) + reason@),
{
    let mut msg = String::new();
    match transfer {
        Transfer::Save => {
            msg.append("Failed to save save: ");
        },
        Transfer::ClearCurrent => {
            msg.append("Failed to delete current progress: ");
        },
        Transfer::Load => {
            msg.append("Failed to load save: ");
        },
        Transfer::Delete => {
            msg.append("Failed to delete save: ");
        },
    }
    msg.append(reason);
    error(term, msg.as_str());
}

/// The commands of the session.
#[derive(Clone, Copy, Debug, PartialEq, Eq, Structural)]
pub enum Command {
    X,
    Save,
    Load,
    Delete,
    Play,
    Quit,
    Test,
}

/// The command that `word` names: by its full name or by the first letter
/// of its name. The test command exists only where debug messages are
/// switched on.
pub open spec fn command_named(word: Seq<char>) -> Option<Command> {
    if word == "x"@ {
        Some(Command::X)
    } else if word == "save"@ || word == "s"@ {
        Some(Command::Save)
    } else if word == "load"@ || word == "l"@ {
        Some(Command::Load)
    } else if word == "delete"@ || word == "d"@ {
        Some(Command::Delete)
    } else if word == "play"@ || word == "p"@ {
        Some(Command::Play)
    } else if word == "quit"@ || word == "q"@ {
        Some(Command::Quit)
    } else if DEBUG && (word == "test"@ || word == "t"@) {
        Some(Command::Test)
    } else {
        None
    }
}

/// Finds the command that `word` names.
pub fn find_command(word: &str) -> (command: Option<Command>)
    ensures
        command == command_named(word@),
{
    if str_eq(word, "x") {
        Some(Command::X)
    } else if str_eq(word, "save") || str_eq(word, "s") {
        Some(Command::Save)
    } else if str_eq(word, "load") || str_eq(word, "l") {
        Some(Command::Load)
    } else if str_eq(word, "delete") || str_eq(word, "d") {
        Some(Command::Delete)
    } else if str_eq(word, "play") || str_eq(word, "p") {
        Some(Command::Play)
    } else if str_eq(word, "quit") || str_eq(word, "q") {
        Some(Command::Quit)
    } else if DEBUG && (str_eq(word, "test") || str_eq(word, "t")) {
        Some(Command::Test)
    } else {
        None
    }
}

/// What `str::to_lowercase` makes of a text: the text with every character
/// in its lowercase form.
pub uninterp spec fn lowercased(text: Seq<char>) -> Seq<char>;

/// Turns `text` into lowercase through `str::to_lowercase`. The result is a
/// function of the text alone.
#[verifier::external_body]
fn lowercase(text: &str) -> (out: String)
    ensures
        out@ == lowercased(text@),
{
    text.to_lowercase()
}

/// What `str::trim` leaves of a text: the text without the whitespace at its
/// start and at its end.
pub uninterp spec fn trimmed(text: Seq<char>) -> Seq<char>;

/// Removes the whitespace around `text` through `str::trim`. The result is a
/// function of the text alone.
#[verifier::external_body]
fn trim<'a>(text: &'a str) -> (out: &'a str)
    ensures
        out@ == trimmed(text@),
{
    text.trim()
}

/// The place of the first blank in `s` at or behind `from`.
pub open spec fn first_blank(s: Seq<char>, from: int) -> Option<int>
    decreases s.len() - from,
{
    if from < 0 || from >= s.len() {
        None
    } else if s[from] == ' ' {
        Some(from)
    } else {
        first_blank(s, from + 1)
    }
}

/// What the user answered to the prompt: the word that names a command, in
/// lowercase, and what follows it.
#[derive(Clone, Debug, PartialEq, Eq)]
pub struct Response {
    pub word: String,
    pub arg: Option<String>,
}

/// Whether `response` is `answer` taken apart: the word is what stands
/// before the first blank, in lowercase, and the argument what stands behind
/// that blank, without the whitespace around it. An answer without a blank
/// is a word alone.
pub open spec fn is_response(answer: Seq<char>, response: Response) -> bool {
    match first_blank(answer, 0) {
        Some(at) => response.word@ == lowercased(answer.subrange(0, at)) && (response.arg matches Some(
            arg,
        ) && arg@ == trimmed(answer.subrange(at + 1, answer.len() as int))),
        None => response.word@ == lowercased(answer) && response.arg is None,
    }
}

/// Takes the answer to the prompt apart.
pub fn split_response(answer: &str) -> (response: Response)
    ensures
        is_response(answer@, response),
{
    let n = answer.unicode_len();
    let mut i: usize = 0;
    while i < n
        invariant
            i <= n,
            n == answer@.len(),
            first_blank(answer@, 0) == first_blank(answer@, i as int),
        decreases n - i,
    {
        if answer.get_char(i) == ' ' {
            let word = lowercase(answer.substring_char(0, i));
            let rest = trim(answer.substring_char(i + 1, n));
            return Response { word, arg: Some(rest.to_owned()) };
        }
        i = i + 1;
    }
    Response { word: lowercase(answer), arg: None }
}

/// What the user is asked where `command` got no argument: the name of the
/// new save, where there is a list of saves to check it against; the saves
/// to delete, where there is a list to delete from; and what to do with a
/// shortcut. A command that needs no argument asks nothing.
pub open spec fn question_for(command: Command, saves_known: bool) -> Option<Seq<char>> {
    match command {
        Command::Save => if saves_known {
            Some("Save name"@)
        } else {
            None
        },
        Command::Delete => if saves_known {
            Some("Save index or interval ([from]..[to])"@)
        } else {
            None
        },
        Command::X => Some("Action"@),
        _ => None,
    }
}

/// What to ask the user where `command` got no argument.
pub fn question(command: Command, saves_known: bool) -> (asked: Option<&'static str>)
    ensures
        match question_for(command, saves_known) {
            Some(text) => asked matches Some(q) && q@ == text,
            None => asked is None,
        },
{
    match command {
        Command::Save => if saves_known {
            Some("Save name")
        } else {
            None
        },
        Command::Delete => if saves_known {
            Some("Save index or interval ([from]..[to])")
        } else {
            None
        },
        Command::X => Some("Action"),
        _ => None,
    }
}

/// Lets `command` decide what is to be done.
pub fn dispatch(
    term: &mut Coalescer,
    command: Command,
    saves_mb: Option<&Vec<SaveInfo>>,
    arg: Option<&str>,
) -> (request: Result<Request, CommandError>)
    ensures
        command == Command::Test ==> (request matches Ok(Request::Nothing)),
        command == Command::Play ==> (request matches Ok(Request::Play)) && final(term)@
            == launch_announced(old(term)@),
        command == Command::Quit ==> (request matches Ok(Request::Quit)) && final(term)@
            == farewell_said(old(term)@),
        command != Command::Play && command != Command::Quit ==> settled(
            old(term)@,
            final(term)@,
            request,
            token_of(arg),
        ),
        command == Command::Save ==> saved(saves_mb, arg, request),
        command == Command::Load ==> loaded(saves_mb, arg, request),
        command == Command::Delete ==> deleted(saves_mb, arg, request),
        command == Command::X ==> shortcut_asked(arg, request),
{
    match command {
        Command::X => cmd_x(term, saves_mb, arg),
        Command::Save => cmd_save(term, saves_mb, arg),
        Command::Load => cmd_load(term, saves_mb, arg),
        Command::Delete => cmd_delete(term, saves_mb, arg),
        Command::Play => cmd_play(term, saves_mb, arg),
        Command::Quit => cmd_quit(term, saves_mb, arg),
        Command::Test => cmd_test(saves_mb, arg),
    }
}

} // verus!
