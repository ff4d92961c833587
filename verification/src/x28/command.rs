//! X.28 commands: what the user types at the PAD's prompt.

use crate::text::{
    find, first_of, is_text, lemma_first_of, parse_u8, spec_parse_u8, spec_to_uppercase,
    spec_trim, to_chars, to_uppercase, trim_range,
};
use crate::x28::selection::{spec_selection, X28Selection, X28SelectionView};
use vstd::prelude::*;
use vstd::string::*;

verus! {

/// A command of the user.
#[derive(PartialEq, Debug)]
pub enum X28Command {
    /// Call the parties selected.
    Selection(X28Selection),
    Clear,
    /// Show these parameters, or all with an empty list.
    Read(Vec<u8>),
    SetParams(Vec<(u8, u8)>),
    SetRead(Vec<(u8, u8)>),
    Status,
    InviteClear,
    /// Help on a subject.
    Help(String),
}

pub ghost enum X28CommandView {
    Selection(X28SelectionView),
    Clear,
    Read(Seq<u8>),
    SetParams(Seq<(u8, u8)>),
    SetRead(Seq<(u8, u8)>),
    Status,
    InviteClear,
    Help(Seq<char>),
}

impl View for X28Command {
    type V = X28CommandView;

    open spec fn view(&self) -> X28CommandView {
        match self {
            X28Command::Selection(selection) => X28CommandView::Selection(selection@),
            X28Command::Clear => X28CommandView::Clear,
            X28Command::Read(params) => X28CommandView::Read(params@),
            X28Command::SetParams(params) => X28CommandView::SetParams(params@),
            X28Command::SetRead(params) => X28CommandView::SetRead(params@),
            X28Command::Status => X28CommandView::Status,
            X28Command::InviteClear => X28CommandView::InviteClear,
            X28Command::Help(subject) => X28CommandView::Help(subject@),
        }
    }
}

pub open spec fn comma() -> Seq<char> {
    seq![',']
}

/// The parameter numbers of a list separated by commas, or `None` where an
/// item is no number up to 255.
pub open spec fn read_items(s: Seq<char>) -> Option<Seq<u8>>
    decreases s.len(),
    via read_items_decreases
{
    let end = first_of(s, comma());
    match spec_parse_u8(spec_trim(s.take(end))) {
        None => None,
        Some(param) => if end < s.len() {
            match read_items(s.skip(end + 1)) {
                None => None,
                Some(more) => Some(seq![param] + more),
            }
        } else {
            Some(seq![param])
        },
    }
}

#[via_fn]
proof fn read_items_decreases(s: Seq<char>) {
    lemma_first_of(s, comma());
}

/// The parameters that the argument of a read command names: none for an
/// empty argument.
pub open spec fn spec_parse_read_params(s: Seq<char>) -> Result<Seq<u8>, Seq<char>> {
    if spec_trim(s).len() == 0 {
        Ok(Seq::empty())
    } else {
        match read_items(spec_trim(s)) {
            Some(params) => Ok(params),
            None => Err("invalid parameter"@),
        }
    }
}

/// The parameter and the value that `item` sets, written with a colon
/// between them.
pub open spec fn set_item(item: Seq<char>) -> Result<(u8, u8), Seq<char>> {
    let colon = first_of(item, seq![':']);
    if colon >= item.len() {
        Err("invalid parameters argument"@)
    } else {
        match spec_parse_u8(spec_trim(item.take(colon))) {
            None => Err("invalid parameter"@),
            Some(param) => match spec_parse_u8(spec_trim(item.skip(colon + 1))) {
                None => Err("invalid value"@),
                Some(value) => Ok((param, value)),
            },
        }
    }
}

/// The settings of a list separated by commas, or the error of the first
/// item that is none.
pub open spec fn set_items(s: Seq<char>) -> Result<Seq<(u8, u8)>, Seq<char>>
    decreases s.len(),
    via set_items_decreases
{
    let end = first_of(s, comma());
    match set_item(s.take(end)) {
        Err(err) => Err(err),
        Ok(setting) => if end < s.len() {
            match set_items(s.skip(end + 1)) {
                Err(err) => Err(err),
                Ok(more) => Ok(seq![setting] + more),
            }
        } else {
            Ok(seq![setting])
        },
    }
}

#[via_fn]
proof fn set_items_decreases(s: Seq<char>) {
    lemma_first_of(s, comma());
}

/// The settings that the argument of a set command names: none for an
/// empty argument.
pub open spec fn spec_parse_set_params(s: Seq<char>) -> Result<Seq<(u8, u8)>, Seq<char>> {
    if spec_trim(s).len() == 0 {
        Ok(Seq::empty())
    } else {
        set_items(spec_trim(s))
    }
}

/// The settings of a set command, which must name one at least.
pub open spec fn required_settings(rest: Seq<char>) -> Result<Seq<(u8, u8)>, Seq<char>> {
    match spec_parse_set_params(rest) {
        Err(err) => Err(err),
        Ok(params) => if params.len() == 0 {
            Err("parameters argument required"@)
        } else {
            Ok(params)
        },
    }
}

/// The command that the word `command`, in upper case, and the argument
/// `rest` make. A word that is no command is read as a selection.
pub open spec fn spec_command(command: Seq<char>, rest: Seq<char>) -> Result<
    X28CommandView,
    Seq<char>,
> {
    if command == "CALL"@ {
        if rest.len() == 0 {
            Err("selection argument required"@)
        } else {
            match spec_selection(rest) {
                Ok(selection) => Ok(X28CommandView::Selection(selection)),
                Err(_) => Err("invalid selection"@),
            }
        }
    } else if command == "CLR"@ || command == "CLEAR"@ {
        Ok(X28CommandView::Clear)
    } else if command == "PAR?"@ || command == "PAR"@ || command == "PARAMETER"@ || command
        == "READ"@ {
        match spec_parse_read_params(rest) {
            Ok(params) => Ok(X28CommandView::Read(params)),
            Err(err) => Err(err),
        }
    } else if command == "SET"@ {
        match required_settings(rest) {
            Ok(params) => Ok(X28CommandView::SetParams(params)),
            Err(err) => Err(err),
        }
    } else if command == "SET?"@ || command == "SETREAD"@ {
        match required_settings(rest) {
            Ok(params) => Ok(X28CommandView::SetRead(params)),
            Err(err) => Err(err),
        }
    } else if command == "STAT"@ || command == "STATUS"@ {
        Ok(X28CommandView::Status)
    } else if command == "ICLR"@ || command == "ICLEAR"@ {
        Ok(X28CommandView::InviteClear)
    } else if command == "HELP"@ {
        Ok(X28CommandView::Help(rest))
    } else {
        match spec_selection(command) {
            Ok(selection) => Ok(X28CommandView::Selection(selection)),
            Err(_) => Err("unrecognized command"@),
        }
    }
}

/// The first word of a command line and what follows the space behind it.
pub open spec fn command_words(line: Seq<char>) -> (Seq<char>, Seq<char>) {
    let trimmed = spec_trim(line);
    let space = first_of(trimmed, seq![' ']);
    (
        trimmed.take(space),
        if space < trimmed.len() {
            trimmed.skip(space + 1)
        } else {
            Seq::empty()
        },
    )
}

/// The command that a line writes: its first word in upper case names the
/// command, the rest is the argument.
pub open spec fn spec_command_line(line: Seq<char>) -> Result<X28CommandView, Seq<char>> {
    spec_command(spec_to_uppercase(command_words(line).0), command_words(line).1)
}

/// Whether what was read is what the model gives.
pub open spec fn command_matches(
    result: Result<X28Command, String>,
    expected: Result<X28CommandView, Seq<char>>,
) -> bool {
    match expected {
        Ok(command) => result is Ok && result->Ok_0@ == command,
        Err(message) => result is Err && result->Err_0@ == message,
    }
}

/// Reads the argument of a read command: parameter numbers separated by
/// commas.
pub fn parse_read_params(s: &str) -> (result: Result<Vec<u8>, String>)
    ensures
        match spec_parse_read_params(s@) {
            Ok(params) => result is Ok && result->Ok_0@ == params,
            Err(message) => result is Err && result->Err_0@ == message,
        },
{
    let chars = to_chars(s);
    let mut params: Vec<u8> = Vec::new();
    proof {
        assert(chars@.subrange(0, chars@.len() as int) =~= s@);
    }
    let (from, to) = trim_range(chars.as_slice(), 0, chars.len());
    if from == to {
        return Ok(params);
    }
    let ghost list = chars@.subrange(from as int, to as int);
    let stops: [char; 1] = [','];
    proof {
        assert(stops@ =~= comma());
        assert(list.skip(0) =~= list);
    }
    let mut pos: usize = from;
    let mut done = false;
    while !done
        invariant
            from <= pos <= to <= chars@.len(),
            stops@ == comma(),
            list == chars@.subrange(from as int, to as int),
            list == spec_trim(s@),
            list.len() > 0,
            !done ==> read_items(list) == match read_items(list.skip(pos - from)) {
                None => None,
                Some(more) => Some(params@ + more),
            },
            done ==> read_items(list) == Some(params@),
        decreases to - pos, if done { 0int } else { 1int },
    {
        let ghost rest = list.skip(pos - from);
        let ghost before = params@;
        proof {
            assert(chars@.subrange(pos as int, to as int) =~= rest);
            lemma_first_of(rest, comma());
        }
        let end: usize = find(chars.as_slice(), pos, to, stops.as_slice());
        let (a, b) = trim_range(chars.as_slice(), pos, end);
        proof {
            assert(chars@.subrange(pos as int, end as int) =~= rest.take(end - pos));
        }
        match parse_u8(chars.as_slice(), a, b) {
            None => {
                return Err("invalid parameter".to_owned());
            },
            Some(param) => {
                params.push(param);
                if end < to {
                    proof {
                        assert(rest.skip(end - pos + 1) =~= list.skip(end + 1 - from));
                        match read_items(rest.skip(end - pos + 1)) {
                            Some(more) => {
                                assert(before + (seq![param] + more) =~= params@ + more);
                            },
                            None => {},
                        }
                    }
                    pos = end + 1;
                } else {
                    proof {
                        assert(before + seq![param] =~= params@);
                    }
                    pos = end;
                    done = true;
                }
            },
        }
    }
    Ok(params)
}

/// Reads one setting, `parameter:value`, from `chars[from..to]`.
fn parse_set_item(chars: &[char], from: usize, to: usize) -> (result: Result<(u8, u8), String>)
    requires
        from <= to <= chars@.len(),
    ensures
        match set_item(chars@.subrange(from as int, to as int)) {
            Ok(setting) => result == Ok::<(u8, u8), String>(setting),
            Err(message) => result is Err && result->Err_0@ == message,
        },
{
    let ghost item = chars@.subrange(from as int, to as int);
    let stops: [char; 1] = [':'];
    proof {
        assert(stops@ =~= seq![':']);
    }
    let colon: usize = find(chars, from, to, stops.as_slice());
    if colon >= to {
        return Err("invalid parameters argument".to_owned());
    }
    let (a, b) = trim_range(chars, from, colon);
    let (c, d) = trim_range(chars, colon + 1, to);
    proof {
        assert(chars@.subrange(from as int, colon as int) =~= item.take(colon - from));
        assert(chars@.subrange(colon as int + 1, to as int) =~= item.skip(colon - from + 1));
    }
    match parse_u8(chars, a, b) {
        None => Err("invalid parameter".to_owned()),
        Some(param) => match parse_u8(chars, c, d) {
            None => Err("invalid value".to_owned()),
            Some(value) => Ok((param, value)),
        },
    }
}

/// Reads the argument of a set command: settings separated by commas.
pub fn parse_set_params(s: &str) -> (result: Result<Vec<(u8, u8)>, String>)
    ensures
        match spec_parse_set_params(s@) {
            Ok(params) => result is Ok && result->Ok_0@ == params,
            Err(message) => result is Err && result->Err_0@ == message,
        },
{
    let chars = to_chars(s);
    let mut params: Vec<(u8, u8)> = Vec::new();
    proof {
        assert(chars@.subrange(0, chars@.len() as int) =~= s@);
    }
    let (from, to) = trim_range(chars.as_slice(), 0, chars.len());
    if from == to {
        return Ok(params);
    }
    let ghost list = chars@.subrange(from as int, to as int);
    let stops: [char; 1] = [','];
    proof {
        assert(stops@ =~= comma());
        assert(list.skip(0) =~= list);
    }
    let mut pos: usize = from;
    let mut done = false;
    while !done
        invariant
            from <= pos <= to <= chars@.len(),
            stops@ == comma(),
            list == chars@.subrange(from as int, to as int),
            list == spec_trim(s@),
            list.len() > 0,
            !done ==> set_items(list) == match set_items(list.skip(pos - from)) {
                Err(err) => Err(err),
                Ok(more) => Ok(params@ + more),
            },
            done ==> set_items(list) == Ok::<Seq<(u8, u8)>, Seq<char>>(params@),
        decreases to - pos, if done { 0int } else { 1int },
    {
        let ghost rest = list.skip(pos - from);
        let ghost before = params@;
        proof {
            assert(chars@.subrange(pos as int, to as int) =~= rest);
            lemma_first_of(rest, comma());
        }
        let end: usize = find(chars.as_slice(), pos, to, stops.as_slice());
        proof {
            assert(chars@.subrange(pos as int, end as int) =~= rest.take(end - pos));
        }
        match parse_set_item(chars.as_slice(), pos, end) {
            Err(err) => {
                return Err(err);
            },
            Ok(setting) => {
                params.push(setting);
                if end < to {
                    proof {
                        assert(rest.skip(end - pos + 1) =~= list.skip(end + 1 - from));
                        match set_items(rest.skip(end - pos + 1)) {
                            Ok(more) => {
                                assert(before + (seq![setting] + more) =~= params@ + more);
                            },
                            Err(_) => {},
                        }
                    }
                    pos = end + 1;
                } else {
                    proof {
                        assert(before + seq![setting] =~= params@);
                    }
                    pos = end;
                    done = true;
                }
            },
        }
    }
    Ok(params)
}

/// Reads the settings of a set command, which must name one at least.
fn parse_required_settings(rest: &str) -> (result: Result<Vec<(u8, u8)>, String>)
    ensures
        match required_settings(rest@) {
            Ok(params) => result is Ok && result->Ok_0@ == params,
            Err(message) => result is Err && result->Err_0@ == message,
        },
{
    match parse_set_params(rest) {
        Err(err) => Err(err),
        Ok(params) => if params.len() == 0 {
            Err("parameters argument required".to_owned())
        } else {
            Ok(params)
        },
    }
}

impl X28Command {
    /// The command that the word `command`, in upper case, and the argument
    /// `rest` make.
    pub fn from_words(command: &str, rest: &str) -> (result: Result<X28Command, String>)
        ensures
            command_matches(result, spec_command(command@, rest@)),
    {
        let word = to_chars(command);
        let word = word.as_slice();
        if is_text(word, "CALL") {
            if rest.unicode_len() == 0 {
                return Err("selection argument required".to_owned());
            }
            match X28Selection::parse(rest) {
                Ok(selection) => Ok(X28Command::Selection(selection)),
                Err(_) => Err("invalid selection".to_owned()),
            }
        } else if is_text(word, "CLR") || is_text(word, "CLEAR") {
            Ok(X28Command::Clear)
        } else if is_text(word, "PAR?") || is_text(word, "PAR") || is_text(word, "PARAMETER")
            || is_text(word, "READ") {
            match parse_read_params(rest) {
                Ok(params) => Ok(X28Command::Read(params)),
                Err(err) => Err(err),
            }
        } else if is_text(word, "SET") {
            match parse_required_settings(rest) {
                Ok(params) => Ok(X28Command::SetParams(params)),
                Err(err) => Err(err),
            }
        } else if is_text(word, "SET?") || is_text(word, "SETREAD") {
            match parse_required_settings(rest) {
                Ok(params) => Ok(X28Command::SetRead(params)),
                Err(err) => Err(err),
            }
        } else if is_text(word, "STAT") || is_text(word, "STATUS") {
            Ok(X28Command::Status)
        } else if is_text(word, "ICLR") || is_text(word, "ICLEAR") {
            Ok(X28Command::InviteClear)
        } else if is_text(word, "HELP") {
            Ok(X28Command::Help(rest.to_owned()))
        } else {
            match X28Selection::parse(command) {
                Ok(selection) => Ok(X28Command::Selection(selection)),
                Err(_) => Err("unrecognized command".to_owned()),
            }
        }
    }

    /// Reads a command line.
    pub fn parse(line: &str) -> (result: Result<X28Command, String>)
        ensures
            command_matches(result, spec_command_line(line@)),
    {
        let chars = to_chars(line);
        proof {
            assert(chars@.subrange(0, chars@.len() as int) =~= line@);
        }
        let (from, to) = trim_range(chars.as_slice(), 0, chars.len());
        let ghost trimmed = chars@.subrange(from as int, to as int);
        let stops: [char; 1] = [' '];
        proof {
            assert(stops@ =~= seq![' ']);
        }
        let space: usize = find(chars.as_slice(), from, to, stops.as_slice());
        let word = line.substring_char(from, space);
        let rest = if space < to {
            line.substring_char(space + 1, to)
        } else {
            line.substring_char(to, to)
        };
        proof {
            assert(trimmed == spec_trim(line@));
            assert(space - from == first_of(trimmed, seq![' ']));
            assert(word@ =~= trimmed.take(space - from));
            if space < to {
                assert(rest@ =~= trimmed.skip(space - from + 1));
            } else {
                assert(rest@ =~= Seq::empty());
            }
            assert(command_words(line@) == (word@, rest@));
        }
        let command = to_uppercase(word);
        let result = X28Command::from_words(command.as_str(), rest);
        proof {
            assert(spec_command_line(line@) == spec_command(command@, rest@));
        }
        result
    }
}

impl core::str::FromStr for X28Command {
    type Err = String;

    /// Reads a command line, as [`X28Command::parse`] does: the command
    /// that its first word in upper case and the rest of it make, or the
    /// error that says why it makes none.
    fn from_str(s: &str) -> (result: Result<X28Command, String>)
        ensures
            command_matches(result, spec_command_line(s@)),
    {
        X28Command::parse(s)
    }
}

} // verus!
