//! The user-facing PAD: what the keys typed at the terminal do.
//!
//! The functions here decide; they perform no I/O. Each hands back what is
//! to be written to the terminal and what is to be sent to the PAD.

use crate::pad::with_lf;
use crate::pad_params::{applied, value_after, PadParams};
use crate::text::{is_text, spec_to_uppercase, to_chars, to_uppercase};
use crate::user_x3::{is_char_delete, spec_is_char_delete, UserPadParams};
use crate::x121::X121Addr;
use crate::x25::params::X25Params;
use crate::x28::selection::{X28Addr, X28AddrView, X28Selection};
use crate::x3::{X3Params, CR, LF};
use vstd::prelude::*;
use vstd::string::*;

verus! {

pub const ESC: u8 = 0x1b;

pub const CTRL_C: u8 = 0x03;

pub const CTRL_P: u8 = 0x10;

/// Whether the terminal talks to the PAD or to the remote party.
#[derive(Clone, Copy, Debug, PartialEq, Eq, Structural)]
pub enum PadLocalState {
    Command,
    Data,
}

/// The address to call for a selection that names one full address and
/// nothing else. Selections with more are not served.
pub fn call_address(selection: &X28Selection) -> (addr: Option<X121Addr>)
    ensures
        match addr {
            Some(a) => {
                &&& selection@.addrs == seq![X28AddrView::Full(a@)]
                &&& selection@.facilities.len() == 0
                &&& selection@.call_user_data.len() == 0
            },
            None => {
                ||| selection@.addrs.len() != 1
                ||| selection@.addrs[0] is Abbrev
                ||| selection@.facilities.len() != 0
                ||| selection@.call_user_data.len() != 0
            },
        },
{
    if selection.addrs.len() != 1 || selection.facilities.len() != 0
        || selection.call_user_data.as_str().unicode_len() != 0 {
        return None;
    }
    match &selection.addrs[0] {
        X28Addr::Full(addr) => {
            let addr = addr.clone();
            proof {
                assert(selection@.addrs =~= seq![X28AddrView::Full(addr@)]);
            }
            Some(addr)
        },
        X28Addr::Abbrev(_) => None,
    }
}

/// The entry that shows the user the value of `param`.
pub open spec fn shown<Q: X3Params>(params: &PadParams<Q>, param: u8) -> (u8, Option<u8>) {
    (param, params.spec_get(param))
}

/// The values of the parameters asked for, or of all for an empty request.
/// A parameter that the store does not have has no value.
pub fn read_params<Q: X3Params>(params: &PadParams<Q>, request: &[u8]) -> (response: Vec<
    (u8, Option<u8>),
>)
    ensures
        request@.len() == 0 ==> response@ == params.spec_all().map_values(
            |e: (u8, u8)| (e.0, Some(e.1)),
        ),
        request@.len() > 0 ==> response@ == request@.map_values(|p: u8| shown(params, p)),
{
    let mut response: Vec<(u8, Option<u8>)> = Vec::new();
    if request.len() == 0 {
        let all = params.all();
        let ghost wanted = all@.map_values(|e: (u8, u8)| (e.0, Some(e.1)));
        let mut i: usize = 0;
        while i < all.len()
            invariant
                i <= all.len(),
                wanted == all@.map_values(|e: (u8, u8)| (e.0, Some(e.1))),
                response@ == wanted.take(i as int),
            decreases all.len() - i,
        {
            let (param, value) = all[i];
            response.push((param, Some(value)));
            proof {
                assert(response@ =~= wanted.take(i as int + 1));
            }
            i += 1;
        }
        proof {
            assert(wanted.take(all.len() as int) =~= wanted);
        }
    } else {
        let ghost wanted = request@.map_values(|p: u8| shown(params, p));
        let mut i: usize = 0;
        while i < request.len()
            invariant
                i <= request.len(),
                wanted == request@.map_values(|p: u8| shown(params, p)),
                response@ == wanted.take(i as int),
            decreases request.len() - i,
        {
            let param: u8 = request[i];
            response.push((param, params.get(param)));
            proof {
                assert(response@ =~= wanted.take(i as int + 1));
            }
            i += 1;
        }
        proof {
            assert(wanted.take(request.len() as int) =~= wanted);
        }
    }
    response
}

/// The entry that shows the user what became of the setting at `index`:
/// the value set, or none where the setting was refused.
pub open spec fn set_shown<Q: X3Params>(
    before: &PadParams<Q>,
    request: Seq<(u8, u8)>,
    index: int,
) -> (u8, Option<u8>) {
    let r = request[index];
    match before.spec_refusal(r.0, r.1) {
        Some(_) => (r.0, None),
        None => (r.0, Some(r.1)),
    }
}

/// Applies the settings in order and shows what became of each.
pub fn set_params<Q: X3Params>(params: &mut PadParams<Q>, request: &[(u8, u8)]) -> (response: Vec<
    (u8, Option<u8>),
>)
    ensures
        applied(old(params), request@, final(params)),
        response@ == Seq::new(request@.len(), |i: int| set_shown(old(params), request@, i)),
{
    let ghost wanted = Seq::new(request@.len(), |i: int| set_shown(old(params), request@, i));
    let mut response: Vec<(u8, Option<u8>)> = Vec::new();
    let mut i: usize = 0;
    proof {
        assert(request@.take(0) =~= Seq::empty());
    }
    while i < request.len()
        invariant
            i <= request.len(),
            wanted == Seq::new(request@.len(), |i: int| set_shown(old(params), request@, i)),
            applied(old(params), request@.take(i as int), params),
            response@ == wanted.take(i as int),
        decreases request.len() - i,
    {
        let (param, value) = request[i];
        let ghost before = *params;
        let ghost done = request@.take(i as int);
        proof {
            assert(request@.take(i as int + 1) =~= done.push((param, value)));
            assert(done.push((param, value)).drop_last() =~= done);
        }
        let entry: (u8, Option<u8>) = match params.set(param, value) {
            Ok(_) => (param, params.get(param)),
            Err(_) => (param, None),
        };
        proof {
            assert forall|p: u8| params.spec_get(p) == #[trigger] value_after(
                old(params),
                request@.take(i as int + 1),
                p,
            ) by {
                assert(before.spec_get(p) == value_after(old(params), done, p));
            }
            assert(entry == wanted[i as int]);
        }
        response.push(entry);
        proof {
            assert(response@ =~= wanted.take(i as int + 1));
        }
        i += 1;
    }
    proof {
        assert(request@.take(request.len() as int) =~= request@);
        assert(wanted.take(request.len() as int) =~= wanted);
    }
    response
}

/// What the terminal shows when a character is rubbed out: back, blank,
/// back.
pub open spec fn rubout() -> Seq<u8> {
    seq![0x08u8, 0x20u8, 0x08u8]
}

/// What the terminal shows when the line is deleted.
pub open spec fn line_deleted() -> Seq<u8> {
    seq![0x58u8, 0x58u8, 0x58u8, CR, LF]
}

/// Deletes the last character of the line, if there is one. Returns what
/// to write to the terminal.
pub fn handle_char_delete(buf: &mut Vec<u8>) -> (output: Vec<u8>)
    ensures
        old(buf)@.len() == 0 ==> final(buf)@ == old(buf)@ && output@ == Seq::<u8>::empty(),
        old(buf)@.len() > 0 ==> final(buf)@ == old(buf)@.drop_last() && output@ == rubout(),
{
    let mut output: Vec<u8> = Vec::new();
    if buf.len() == 0 {
        return output;
    }
    buf.pop();
    output.push(0x08);
    output.push(0x20);
    output.push(0x08);
    proof {
        assert(output@ =~= rubout());
    }
    output
}

/// Deletes the line, if there is any of it. Returns what to write to the
/// terminal.
pub fn handle_line_delete(buf: &mut Vec<u8>) -> (output: Vec<u8>)
    ensures
        final(buf)@ == Seq::<u8>::empty(),
        old(buf)@.len() == 0 ==> output@ == Seq::<u8>::empty(),
        old(buf)@.len() > 0 ==> output@ == line_deleted(),
{
    let mut output: Vec<u8> = Vec::new();
    if buf.len() == 0 {
        return output;
    }
    buf.clear();
    output.push(0x58);
    output.push(0x58);
    output.push(0x58);
    output.push(CR);
    output.push(LF);
    proof {
        assert(output@ =~= line_deleted());
    }
    output
}

/// What to write to the terminal to display the line again: a new line
/// and the line.
pub fn handle_line_display(buf: &Vec<u8>) -> (output: Vec<u8>)
    ensures
        output@ == seq![CR, LF] + buf@,
{
    let mut output: Vec<u8> = Vec::new();
    output.push(CR);
    output.push(LF);
    let mut i: usize = 0;
    while i < buf.len()
        invariant
            i <= buf.len(),
            output@ == seq![CR, LF] + buf@.take(i as int),
        decreases buf.len() - i,
    {
        output.push(buf[i]);
        proof {
            assert(output@ =~= seq![CR, LF] + buf@.take(i as int + 1));
        }
        i += 1;
    }
    proof {
        assert(buf@.take(buf.len() as int) =~= buf@);
    }
    output
}

/// Whether the line holds an escape character.
pub fn in_escape_sequence(buf: &Vec<u8>) -> (inside: bool)
    ensures
        inside == buf@.contains(ESC),
{
    let mut i: usize = 0;
    while i < buf.len()
        invariant
            i <= buf.len(),
            forall|k: int| 0 <= k < i ==> buf@[k] != ESC,
        decreases buf.len() - i,
    {
        if buf[i] == ESC {
            return true;
        }
        i += 1;
    }
    false
}

/// Whether the line ends with an escape sequence of three characters that
/// is complete: an escape character, then one that is not `O`, then one
/// more.
pub open spec fn ends_with_escape_sequence(buf: Seq<u8>) -> bool {
    buf.len() >= 3 && buf[buf.len() - 3] == ESC && buf[buf.len() - 2] != 0x4f
}

/// Takes a complete escape sequence off the end of the line. Returns
/// whether there was one.
pub fn trim_complete_escape_sequence(buf: &mut Vec<u8>) -> (trimmed: bool)
    ensures
        trimmed == ends_with_escape_sequence(old(buf)@),
        trimmed ==> final(buf)@ == old(buf)@.take(old(buf)@.len() - 3),
        !trimmed ==> final(buf)@ == old(buf)@,
{
    let len: usize = buf.len();
    if len >= 3 && buf[len - 3] == ESC && buf[len - 2] != 0x4f {
        buf.truncate(len - 3);
        proof {
            assert(buf@ =~= old(buf)@.take(len - 3));
        }
        return true;
    }
    false
}

/// What a key typed at the prompt did.
pub struct CommandInput {
    /// The command line, once the line is ended.
    pub line: Option<Vec<u8>>,
    /// What to write to the terminal.
    pub output: Vec<u8>,
}

/// Whether `byte` is an ASCII control character.
pub open spec fn is_ascii_control(byte: u8) -> bool {
    byte < 0x20 || byte == 0x7f
}

/// Whether `input` and the line `after` are what the key `byte` makes of
/// the line `before`. A carriage return ends the line, which is handed
/// back. The delete key rubs out a character. Other control characters but
/// the escape character are passed over. Any other key joins the line and
/// is echoed, unless it is part of an escape sequence; an escape sequence
/// that is complete is taken off the line again.
pub open spec fn command_input_taken(
    before: Seq<u8>,
    byte: u8,
    backspace_deletes: bool,
    after: Seq<u8>,
    input: CommandInput,
) -> bool {
    if byte == CR {
        &&& input.line is Some
        &&& input.line->0@ == before
        &&& after == Seq::<u8>::empty()
        &&& input.output@ == seq![CR, LF]
    } else if spec_is_char_delete(byte, backspace_deletes) {
        &&& input.line is None
        &&& before.len() == 0 ==> after == before && input.output@ == Seq::<u8>::empty()
        &&& before.len() > 0 ==> after == before.drop_last() && input.output@ == rubout()
    } else if is_ascii_control(byte) && byte != ESC {
        &&& input.line is None
        &&& after == before
        &&& input.output@ == Seq::<u8>::empty()
    } else {
        let longer = before.push(byte);
        &&& input.line is None
        &&& if ends_with_escape_sequence(longer) {
            after == longer.take(longer.len() - 3) && input.output@ == Seq::<u8>::empty()
        } else {
            after == longer && input.output@ == if longer.contains(ESC) {
                Seq::<u8>::empty()
            } else {
                seq![byte]
            }
        }
    }
}

/// Takes a key typed at the prompt, on a system where backspace deletes a
/// character or on one where only DEL does.
pub fn handle_command_input(buf: &mut Vec<u8>, byte: u8, backspace_deletes: bool) -> (input:
    CommandInput)
    ensures
        command_input_taken(old(buf)@, byte, backspace_deletes, final(buf)@, input),
{
    let mut output: Vec<u8> = Vec::new();
    if byte == CR {
        output.push(CR);
        output.push(LF);
        let mut line: Vec<u8> = Vec::new();
        core::mem::swap(buf, &mut line);
        proof {
            assert(output@ =~= seq![CR, LF]);
        }
        return CommandInput { line: Some(line), output };
    }
    if is_char_delete(byte, backspace_deletes) {
        let output = handle_char_delete(buf);
        return CommandInput { line: None, output };
    }
    if (byte < 0x20 || byte == 0x7f) && byte != ESC {
        return CommandInput { line: None, output };
    }
    buf.push(byte);
    if trim_complete_escape_sequence(buf) {
        return CommandInput { line: None, output };
    }
    if !in_escape_sequence(buf) {
        output.push(byte);
        proof {
            assert(output@ =~= seq![byte]);
        }
    }
    CommandInput { line: None, output }
}

/// What a key typed at the prompt asks for, beyond the line it joins.
pub enum CommandKey {
    /// Leave: clear the call, if there is one, and end.
    Quit,
    /// The line was thrown away: start a new line with a new prompt.
    Cancelled,
    /// Send the key to the remote party and go back to data transfer.
    Resume,
    /// Nothing.
    Ignored,
    /// The key was taken as input to the command line.
    Input(CommandInput),
}

/// Takes a key typed at the prompt. Control-C leaves when the line is
/// empty and throws the line away when it is not. Control-P on an empty
/// line, while there is a call, goes back to data transfer. Any other key
/// is input to the command line, as [`handle_command_input`] takes it.
pub fn command_key(buf: &mut Vec<u8>, byte: u8, has_call: bool, backspace_deletes: bool) -> (key:
    CommandKey)
    ensures
        byte == CTRL_C && old(buf)@.len() == 0 ==> key is Quit && final(buf)@ == old(buf)@,
        byte == CTRL_C && old(buf)@.len() > 0 ==> key is Cancelled && final(buf)@ == Seq::<
            u8,
        >::empty(),
        byte == CTRL_P ==> final(buf)@ == old(buf)@ && if old(buf)@.len() == 0 && has_call {
            key is Resume
        } else {
            key is Ignored
        },
        byte != CTRL_C && byte != CTRL_P ==> key is Input && command_input_taken(
            old(buf)@,
            byte,
            backspace_deletes,
            final(buf)@,
            key->Input_0,
        ),
{
    if byte == CTRL_C {
        if buf.len() == 0 {
            return CommandKey::Quit;
        }
        buf.clear();
        return CommandKey::Cancelled;
    }
    if byte == CTRL_P {
        if buf.len() == 0 && has_call {
            return CommandKey::Resume;
        }
        return CommandKey::Ignored;
    }
    CommandKey::Input(handle_command_input(buf, byte, backspace_deletes))
}

/// What a key typed in data transfer did.
pub struct DataInput {
    /// What to write to the terminal.
    pub output: Vec<u8>,
    /// What to write to the PAD.
    pub send: Option<Vec<u8>>,
}

/// Takes a key typed in data transfer. Without local editing the key goes
/// to the PAD as it is. With it, the editing characters work on the line,
/// any other key joins the line and is echoed where echo is on, and a
/// carriage return sends the line.
pub fn data_input(byte: u8, params: &PadParams<UserPadParams>, line: &mut Vec<u8>) -> (input:
    DataInput)
    requires
        params.delegate is Some,
    ensures
        params.editing.spec_value() != 1 ==> {
            &&& final(line)@ == old(line)@
            &&& input.output@ == Seq::<u8>::empty()
            &&& input.send is Some
            &&& input.send->0@ == seq![byte]
        },
        params.editing.spec_value() == 1 ==> {
            let own = params.delegate->0;
            if byte == own.char_delete.spec_value() {
                &&& input.send is None
                &&& old(line)@.len() == 0 ==> final(line)@ == old(line)@ && input.output@
                    == Seq::<u8>::empty()
                &&& old(line)@.len() > 0 ==> final(line)@ == old(line)@.drop_last()
                    && input.output@ == rubout()
            } else if byte == own.line_delete.spec_value() {
                &&& input.send is None
                &&& final(line)@ == Seq::<u8>::empty()
                &&& input.output@ == if old(line)@.len() > 0 {
                    line_deleted()
                } else {
                    Seq::<u8>::empty()
                }
            } else if byte == own.line_display.spec_value() {
                &&& input.send is None
                &&& final(line)@ == old(line)@
                &&& input.output@ == seq![CR, LF] + old(line)@
            } else {
                &&& input.output@ == if params.echo.spec_value() == 1 {
                    with_lf(byte, params.lf_insert.spec_value(), 4)
                } else {
                    Seq::<u8>::empty()
                }
                &&& if byte == CR {
                    &&& input.send is Some
                    &&& input.send->0@ == old(line)@.push(byte)
                    &&& final(line)@ == Seq::<u8>::empty()
                } else {
                    input.send is None && final(line)@ == old(line)@.push(byte)
                }
            }
        },
{
    let mut output: Vec<u8> = Vec::new();
    if !params.editing.is_enabled() {
        let mut send: Vec<u8> = Vec::new();
        send.push(byte);
        proof {
            assert(send@ =~= seq![byte]);
        }
        return DataInput { output, send: Some(send) };
    }
    let own = match &params.delegate {
        Some(own) => own,
        None => {
            return DataInput { output, send: None };
        },
    };
    if own.char_delete.is_match(byte) {
        let output = handle_char_delete(line);
        return DataInput { output, send: None };
    }
    if own.line_delete.is_match(byte) {
        let output = handle_line_delete(line);
        return DataInput { output, send: None };
    }
    if own.line_display.is_match(byte) {
        let output = handle_line_display(line);
        return DataInput { output, send: None };
    }
    line.push(byte);
    if params.echo.is_enabled() {
        output.push(byte);
        if params.lf_insert.after_echo(byte) {
            output.push(LF);
            proof {
                assert(output@ =~= seq![byte, LF]);
            }
        } else {
            proof {
                assert(output@ =~= seq![byte]);
            }
        }
    }
    if byte == CR {
        let mut send: Vec<u8> = Vec::new();
        core::mem::swap(line, &mut send);
        return DataInput { output, send: Some(send) };
    }
    DataInput { output, send: None }
}

/// Goes back to the prompt from data transfer. Returns what to write to
/// the terminal: a new line, if asked for, and the prompt; nothing when
/// the terminal is at the prompt already.
pub fn ensure_command(state: &mut PadLocalState, new_line: bool) -> (output: Vec<u8>)
    ensures
        *final(state) == PadLocalState::Command,
        *old(state) == PadLocalState::Command ==> output@ == Seq::<u8>::empty(),
        *old(state) == PadLocalState::Data ==> output@ == if new_line {
            seq![CR, LF, 0x2au8]
        } else {
            seq![0x2au8]
        },
{
    let mut output: Vec<u8> = Vec::new();
    if *state == PadLocalState::Command {
        return output;
    }
    if new_line {
        output.push(CR);
        output.push(LF);
    }
    output.push(0x2a);
    *state = PadLocalState::Command;
    proof {
        if new_line {
            assert(output@ =~= seq![CR, LF, 0x2au8]);
        } else {
            assert(output@ =~= seq![0x2au8]);
        }
    }
    output
}

/// Whether what is typed is to be sent by a PAD that forwards every key:
/// whenever there is any of it, whatever the packet size.
pub fn is_data_ready_to_send(buf: &Vec<u8>, _x25_params: &X25Params) -> (ready: bool)
    ensures
        ready == (buf@.len() > 0),
{
    buf.len() > 0
}

/// Takes a key typed in data transfer by a PAD that forwards every key:
/// the key joins what is typed, and all of it is handed back to be sent.
pub fn queue_and_send_data_if_ready(buf: &mut Vec<u8>, x25_params: &X25Params, byte: u8) -> (send:
    Option<Vec<u8>>)
    ensures
        send is Some,
        send->0@ == old(buf)@.push(byte),
        final(buf)@ == Seq::<u8>::empty(),
{
    buf.push(byte);
    if is_data_ready_to_send(buf, x25_params) {
        let mut user_data: Vec<u8> = Vec::new();
        core::mem::swap(buf, &mut user_data);
        return Some(user_data);
    }
    None
}

/// Whether the line, taken in upper case, is the word that leaves the PAD.
pub fn is_exit(line: &str) -> (exit: bool)
    ensures
        exit == (spec_to_uppercase(line@) == "EXIT"@),
{
    is_upper_word(to_uppercase(line).as_str(), "EXIT")
}

/// Whether help on `subject` is the general help: whether the subject,
/// taken in upper case, is empty or the word `HELP`.
pub fn is_general_help(subject: &str) -> (general: bool)
    ensures
        general == (spec_to_uppercase(subject@).len() == 0 || spec_to_uppercase(subject@)
            == "HELP"@),
{
    let upper = to_uppercase(subject);
    upper.as_str().unicode_len() == 0 || is_upper_word(upper.as_str(), "HELP")
}

/// Whether `text` is the word `word`.
pub fn is_upper_word(text: &str, word: &str) -> (same: bool)
    ensures
        same == (text@ == word@),
{
    let chars = to_chars(text);
    is_text(chars.as_slice(), word)
}

} // verus!
