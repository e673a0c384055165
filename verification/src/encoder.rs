//! Writing a render pass into the buffer that the host reads.

use vstd::prelude::*;
use vstd::string::{StrSliceExecFns, StringSliceAdditionalSpecFns};
use vstd::utf8::encode_utf8;
use crate::buckets::{
    ascii_commands, colored, highlight_commands, highlight_of, pass_commands, string_commands,
    utf8_commands, RenderBuckets, RenderPass,
};
use crate::buffer::CommandBuffer;
use crate::command::{
    ascii_runs_of, code_point_bytes, commands_of, encode_command, encode_commands, encode_stream,
    lemma_encode_commands_concat, lemma_encode_commands_push, lemma_encode_commands_single,
    low_byte, low_word, run_header, string_runs_of, utf8_runs_of, Command, Layer, OutputMessage,
    OutputMessageCommandId, RenderAsciiTextMsg, RenderStringMsg, RenderUtf8TextMsg,
    COLOR_LINE_REF_BACKGROUND, COLOR_NUMBER, COLOR_OPERATOR, COLOR_RESULTS, COLOR_TEXT, COLOR_UNIT,
    COLOR_VARIABLE,
};

verus! {

/// Why a render pass could not be handed to the host.
#[derive(Clone, Copy, Debug, PartialEq, Eq, Structural)]
pub enum RenderError {
    /// The pass takes more bytes than the buffer can hold.
    BufferOverflow,
}

/// The low byte of a coordinate.
fn low_byte_of(n: usize) -> (r: u8)
    ensures
        r == low_byte(n as int),
{
    (n % 256) as u8
}

/// The low sixteen bits of a row, a column or a length.
fn low_word_of(n: usize) -> (r: u16)
    ensures
        r == low_word(n as int),
{
    (n % 65536) as u16
}

/// The low sixteen bits of a time in milliseconds.
fn low_word_of_millis(n: u128) -> (r: u16)
    ensures
        r == low_word(n as int),
{
    (n % 65536) as u16
}

/// The bytes of a group drawn in one colour: nothing for an empty group, else
/// the colour's instruction and then the group's own bytes.
proof fn lemma_encode_colored(color: u32, commands: Seq<Command>)
    ensures
        encode_commands(colored(color, commands)) == if commands.len() == 0 {
            Seq::<u8>::empty()
        } else {
            encode_command(Command::SetColor(color)) + encode_commands(commands)
        },
{
    if commands.len() > 0 {
        lemma_encode_commands_concat(seq![Command::SetColor(color)], commands);
        lemma_encode_commands_single(Command::SetColor(color));
    }
}

/// Writes the row, the column and the length that open a text run.
fn write_run_header(js_command_buffer: &mut CommandBuffer, row: usize, column: usize, len: usize)
    requires
        old(js_command_buffer).wf(),
    ensures
        final(js_command_buffer).wf(),
        final(js_command_buffer).capacity_spec() == old(js_command_buffer).capacity_spec(),
        final(js_command_buffer).requested() == old(js_command_buffer).requested() + run_header(
            row,
            column,
            len as nat,
        ),
{
    js_command_buffer.write_u16(low_word_of(row));
    js_command_buffer.write_u16(low_word_of(column));
    js_command_buffer.write_u16(low_word_of(len));
    assert(js_command_buffer.requested() =~= old(js_command_buffer).requested() + run_header(
        row,
        column,
        len as nat,
    ));
}

/// Writes a run of code points: the tag, the row, the column, the number of
/// code points, and then each code point in four bytes.
pub fn write_utf8_text_command(js_command_buffer: &mut CommandBuffer, text: &RenderUtf8TextMsg)
    requires
        old(js_command_buffer).wf(),
    ensures
        final(js_command_buffer).wf(),
        final(js_command_buffer).capacity_spec() == old(js_command_buffer).capacity_spec(),
        final(js_command_buffer).requested() == old(js_command_buffer).requested()
            + encode_command(Command::RenderUtf8Text(text@)),
{
    js_command_buffer.write_u8(OutputMessageCommandId::RenderUtf8Text.tag());
    write_run_header(js_command_buffer, text.row, text.column, text.text.len());
    let ghost start = js_command_buffer.requested();
    let n: usize = text.text.len();
    let mut i: usize = 0;
    while i < n
        invariant
            i <= n,
            n == text.text@.len(),
            js_command_buffer.wf(),
            js_command_buffer.capacity_spec() == old(js_command_buffer).capacity_spec(),
            js_command_buffer.requested() == start + code_point_bytes(text.text@.take(i as int)),
        decreases n - i,
    {
        let ch: char = text.text[i];
        js_command_buffer.write_u32(ch as u32);
        proof {
            let grown = text.text@.take(i + 1);
            assert(grown.drop_last() =~= text.text@.take(i as int));
            assert(grown.last() == ch);
            assert(js_command_buffer.requested() =~= start + code_point_bytes(grown));
        }
        i = i + 1;
    }
    proof {
        assert(text.text@.take(n as int) =~= text.text@);
        assert(start + code_point_bytes(text.text@) =~= old(js_command_buffer).requested()
            + encode_command(Command::RenderUtf8Text(text@)));
    }
}

/// Writes a run of single-byte characters: the tag, the row, the column, the
/// number of bytes, and then the bytes.
pub fn write_ascii_text_command(js_command_buffer: &mut CommandBuffer, text: &RenderAsciiTextMsg)
    requires
        old(js_command_buffer).wf(),
    ensures
        final(js_command_buffer).wf(),
        final(js_command_buffer).capacity_spec() == old(js_command_buffer).capacity_spec(),
        final(js_command_buffer).requested() == old(js_command_buffer).requested()
            + encode_command(Command::RenderAsciiText(text@)),
{
    js_command_buffer.write_u8(OutputMessageCommandId::RenderAsciiText.tag());
    write_run_header(js_command_buffer, text.row, text.column, text.text.len());
    let ghost start = js_command_buffer.requested();
    let n: usize = text.text.len();
    let mut i: usize = 0;
    while i < n
        invariant
            i <= n,
            n == text.text@.len(),
            js_command_buffer.wf(),
            js_command_buffer.capacity_spec() == old(js_command_buffer).capacity_spec(),
            js_command_buffer.requested() == start + text.text@.take(i as int),
        decreases n - i,
    {
        js_command_buffer.write_u8(text.text[i]);
        proof {
            assert(text.text@.take(i + 1) =~= text.text@.take(i as int).push(text.text@[i as int]));
            assert(js_command_buffer.requested() =~= start + text.text@.take(i + 1));
        }
        i = i + 1;
    }
    proof {
        assert(text.text@.take(n as int) =~= text.text@);
        assert(start + text.text@ =~= old(js_command_buffer).requested() + encode_command(
            Command::RenderAsciiText(text@),
        ));
    }
}

/// Writes a string: the tag, the row, the column, the number of its UTF-8
/// bytes, and then those bytes.
pub fn write_string_command(js_command_buffer: &mut CommandBuffer, text: &RenderStringMsg)
    requires
        old(js_command_buffer).wf(),
    ensures
        final(js_command_buffer).wf(),
        final(js_command_buffer).capacity_spec() == old(js_command_buffer).capacity_spec(),
        final(js_command_buffer).requested() == old(js_command_buffer).requested()
            + encode_command(Command::RenderString(text@)),
{
    js_command_buffer.write_u8(OutputMessageCommandId::RenderString.tag());
    let bytes = text.text.as_str().as_bytes();
    write_run_header(js_command_buffer, text.row, text.column, bytes.len());
    let ghost start = js_command_buffer.requested();
    let n: usize = bytes.len();
    let mut i: usize = 0;
    while i < n
        invariant
            i <= n,
            n == bytes@.len(),
            bytes@ == encode_utf8(text.text@),
            js_command_buffer.wf(),
            js_command_buffer.capacity_spec() == old(js_command_buffer).capacity_spec(),
            js_command_buffer.requested() == start + bytes@.take(i as int),
        decreases n - i,
    {
        js_command_buffer.write_u8(bytes[i]);
        proof {
            assert(bytes@.take(i + 1) =~= bytes@.take(i as int).push(bytes@[i as int]));
            assert(js_command_buffer.requested() =~= start + bytes@.take(i + 1));
        }
        i = i + 1;
    }
    proof {
        assert(bytes@.take(n as int) =~= bytes@);
        assert(start + bytes@ =~= old(js_command_buffer).requested() + encode_command(
            Command::RenderString(text@),
        ));
    }
}

/// Writes one instruction: its tag, then its payload.
pub fn write_command(js_command_buffer: &mut CommandBuffer, command: &OutputMessage)
    requires
        old(js_command_buffer).wf(),
    ensures
        final(js_command_buffer).wf(),
        final(js_command_buffer).capacity_spec() == old(js_command_buffer).capacity_spec(),
        final(js_command_buffer).requested() == old(js_command_buffer).requested()
            + encode_command(command@),
{
    match command {
        OutputMessage::RenderUtf8Text(text) => {
            write_utf8_text_command(js_command_buffer, text);
        },
        OutputMessage::SetStyle(style) => {
            js_command_buffer.write_u8(OutputMessageCommandId::SetStyle.tag());
            js_command_buffer.write_u8(*style);
        },
        OutputMessage::SetColor(color) => {
            js_command_buffer.write_u8(OutputMessageCommandId::SetColor.tag());
            js_command_buffer.write_u32(*color);
        },
        OutputMessage::RenderRectangle { x, y, w, h } => {
            js_command_buffer.write_u8(OutputMessageCommandId::RenderRectangle.tag());
            js_command_buffer.write_u8(low_byte_of(*x));
            js_command_buffer.write_u8(low_byte_of(*y));
            js_command_buffer.write_u8(low_byte_of(*w));
            js_command_buffer.write_u8(low_byte_of(*h));
        },
        OutputMessage::RenderChar(x, y, ch) => {
            js_command_buffer.write_u8(OutputMessageCommandId::RenderChar.tag());
            js_command_buffer.write_u8(low_byte_of(*x));
            js_command_buffer.write_u8(low_byte_of(*y));
            js_command_buffer.write_u32(*ch as u32);
        },
        OutputMessage::RenderString(text) => {
            write_string_command(js_command_buffer, text);
        },
        OutputMessage::RenderAsciiText(text) => {
            write_ascii_text_command(js_command_buffer, text);
        },
        OutputMessage::PulsingRectangle {
            x,
            y,
            w,
            h,
            start_color,
            end_color,
            animation_millis,
        } => {
            js_command_buffer.write_u8(OutputMessageCommandId::PulsingRectangle.tag());
            js_command_buffer.write_u8(low_byte_of(*x));
            js_command_buffer.write_u8(low_byte_of(*y));
            js_command_buffer.write_u8(low_byte_of(*w));
            js_command_buffer.write_u8(low_byte_of(*h));
            js_command_buffer.write_u32(*start_color);
            js_command_buffer.write_u32(*end_color);
            js_command_buffer.write_u16(low_word_of_millis(*animation_millis));
        },
    }
    assert(js_command_buffer.requested() =~= old(js_command_buffer).requested() + encode_command(
        command@,
    ));
}

/// Writes a list of runs of code points, one after the other.
pub fn write_commands(js_command_buffer: &mut CommandBuffer, commands: &[RenderUtf8TextMsg])
    requires
        old(js_command_buffer).wf(),
    ensures
        final(js_command_buffer).wf(),
        final(js_command_buffer).capacity_spec() == old(js_command_buffer).capacity_spec(),
        final(js_command_buffer).requested() == old(js_command_buffer).requested()
            + encode_commands(utf8_commands(utf8_runs_of(commands@))),
{
    let ghost start = js_command_buffer.requested();
    let ghost all = utf8_commands(utf8_runs_of(commands@));
    let n: usize = commands.len();
    let mut i: usize = 0;
    proof {
        assert(start + encode_commands(all.take(0)) =~= start);
    }
    while i < n
        invariant
            i <= n,
            n == commands@.len(),
            all == utf8_commands(utf8_runs_of(commands@)),
            js_command_buffer.wf(),
            js_command_buffer.capacity_spec() == old(js_command_buffer).capacity_spec(),
            js_command_buffer.requested() == start + encode_commands(all.take(i as int)),
        decreases n - i,
    {
        write_utf8_text_command(js_command_buffer, &commands[i]);
        proof {
            assert(all.take(i + 1) =~= all.take(i as int).push(
                Command::RenderUtf8Text(commands@[i as int]@),
            ));
            lemma_encode_commands_push(
                all.take(i as int),
                Command::RenderUtf8Text(commands@[i as int]@),
            );
            assert(js_command_buffer.requested() =~= start + encode_commands(all.take(i + 1)));
        }
        i = i + 1;
    }
    proof {
        assert(all.take(n as int) =~= all);
    }
}

/// Writes a list of instructions of any kind, one after the other.
fn write_custom_commands(js_command_buffer: &mut CommandBuffer, commands: &Vec<OutputMessage>)
    requires
        old(js_command_buffer).wf(),
    ensures
        final(js_command_buffer).wf(),
        final(js_command_buffer).capacity_spec() == old(js_command_buffer).capacity_spec(),
        final(js_command_buffer).requested() == old(js_command_buffer).requested()
            + encode_commands(commands_of(commands@)),
{
    let ghost start = js_command_buffer.requested();
    let ghost all = commands_of(commands@);
    let n: usize = commands.len();
    let mut i: usize = 0;
    proof {
        assert(start + encode_commands(all.take(0)) =~= start);
    }
    while i < n
        invariant
            i <= n,
            n == commands@.len(),
            all == commands_of(commands@),
            js_command_buffer.wf(),
            js_command_buffer.capacity_spec() == old(js_command_buffer).capacity_spec(),
            js_command_buffer.requested() == start + encode_commands(all.take(i as int)),
        decreases n - i,
    {
        write_command(js_command_buffer, &commands[i]);
        proof {
            assert(all.take(i + 1) =~= all.take(i as int).push(commands@[i as int]@));
            lemma_encode_commands_push(all.take(i as int), commands@[i as int]@);
            assert(js_command_buffer.requested() =~= start + encode_commands(all.take(i + 1)));
        }
        i = i + 1;
    }
    proof {
        assert(all.take(n as int) =~= all);
    }
}

/// Writes a list of runs of single-byte characters, one after the other.
fn write_ascii_texts(js_command_buffer: &mut CommandBuffer, texts: &Vec<RenderAsciiTextMsg>)
    requires
        old(js_command_buffer).wf(),
    ensures
        final(js_command_buffer).wf(),
        final(js_command_buffer).capacity_spec() == old(js_command_buffer).capacity_spec(),
        final(js_command_buffer).requested() == old(js_command_buffer).requested()
            + encode_commands(ascii_commands(ascii_runs_of(texts@))),
{
    let ghost start = js_command_buffer.requested();
    let ghost all = ascii_commands(ascii_runs_of(texts@));
    let n: usize = texts.len();
    let mut i: usize = 0;
    proof {
        assert(start + encode_commands(all.take(0)) =~= start);
    }
    while i < n
        invariant
            i <= n,
            n == texts@.len(),
            all == ascii_commands(ascii_runs_of(texts@)),
            js_command_buffer.wf(),
            js_command_buffer.capacity_spec() == old(js_command_buffer).capacity_spec(),
            js_command_buffer.requested() == start + encode_commands(all.take(i as int)),
        decreases n - i,
    {
        write_ascii_text_command(js_command_buffer, &texts[i]);
        proof {
            assert(all.take(i + 1) =~= all.take(i as int).push(
                Command::RenderAsciiText(texts@[i as int]@),
            ));
            lemma_encode_commands_push(
                all.take(i as int),
                Command::RenderAsciiText(texts@[i as int]@),
            );
            assert(js_command_buffer.requested() =~= start + encode_commands(all.take(i + 1)));
        }
        i = i + 1;
    }
    proof {
        assert(all.take(n as int) =~= all);
    }
}

/// Writes, for each result of a referenced line, the rectangle behind it.
fn write_line_ref_backgrounds(
    js_command_buffer: &mut CommandBuffer,
    results: &Vec<RenderStringMsg>,
)
    requires
        old(js_command_buffer).wf(),
    ensures
        final(js_command_buffer).wf(),
        final(js_command_buffer).capacity_spec() == old(js_command_buffer).capacity_spec(),
        final(js_command_buffer).requested() == old(js_command_buffer).requested()
            + encode_commands(highlight_commands(string_runs_of(results@))),
{
    let ghost start = js_command_buffer.requested();
    let ghost all = highlight_commands(string_runs_of(results@));
    let n: usize = results.len();
    let mut i: usize = 0;
    proof {
        assert(start + encode_commands(all.take(0)) =~= start);
    }
    while i < n
        invariant
            i <= n,
            n == results@.len(),
            all == highlight_commands(string_runs_of(results@)),
            js_command_buffer.wf(),
            js_command_buffer.capacity_spec() == old(js_command_buffer).capacity_spec(),
            js_command_buffer.requested() == start + encode_commands(all.take(i as int)),
        decreases n - i,
    {
        let command = &results[i];
        let background = OutputMessage::RenderRectangle {
            x: command.column,
            y: command.row,
            w: command.text.as_str().unicode_len(),
            h: 1,
        };
        write_command(js_command_buffer, &background);
        proof {
            assert(background@ == highlight_of(command@));
            assert(all.take(i + 1) =~= all.take(i as int).push(highlight_of(command@)));
            lemma_encode_commands_push(all.take(i as int), highlight_of(command@));
            assert(js_command_buffer.requested() =~= start + encode_commands(all.take(i + 1)));
        }
        i = i + 1;
    }
    proof {
        assert(all.take(n as int) =~= all);
    }
}

/// Writes the results of referenced lines as text.
fn write_line_ref_texts(js_command_buffer: &mut CommandBuffer, results: &Vec<RenderStringMsg>)
    requires
        old(js_command_buffer).wf(),
    ensures
        final(js_command_buffer).wf(),
        final(js_command_buffer).capacity_spec() == old(js_command_buffer).capacity_spec(),
        final(js_command_buffer).requested() == old(js_command_buffer).requested()
            + encode_commands(string_commands(string_runs_of(results@))),
{
    let ghost start = js_command_buffer.requested();
    let ghost all = string_commands(string_runs_of(results@));
    let n: usize = results.len();
    let mut i: usize = 0;
    proof {
        assert(start + encode_commands(all.take(0)) =~= start);
    }
    while i < n
        invariant
            i <= n,
            n == results@.len(),
            all == string_commands(string_runs_of(results@)),
            js_command_buffer.wf(),
            js_command_buffer.capacity_spec() == old(js_command_buffer).capacity_spec(),
            js_command_buffer.requested() == start + encode_commands(all.take(i as int)),
        decreases n - i,
    {
        write_string_command(js_command_buffer, &results[i]);
        proof {
            assert(all.take(i + 1) =~= all.take(i as int).push(
                Command::RenderString(results@[i as int]@),
            ));
            lemma_encode_commands_push(
                all.take(i as int),
                Command::RenderString(results@[i as int]@),
            );
            assert(js_command_buffer.requested() =~= start + encode_commands(all.take(i + 1)));
        }
        i = i + 1;
    }
    proof {
        assert(all.take(n as int) =~= all);
    }
}

/// Writes the instruction that sets the colour of what follows.
fn write_color(js_command_buffer: &mut CommandBuffer, color: u32)
    requires
        old(js_command_buffer).wf(),
    ensures
        final(js_command_buffer).wf(),
        final(js_command_buffer).capacity_spec() == old(js_command_buffer).capacity_spec(),
        final(js_command_buffer).requested() == old(js_command_buffer).requested()
            + encode_command(Command::SetColor(color)),
{
    write_command(js_command_buffer, &OutputMessage::SetColor(color));
}

/// Writes a group of runs of code points in one colour: nothing if there is
/// no run.
fn write_colored_texts(
    js_command_buffer: &mut CommandBuffer,
    color: u32,
    texts: &Vec<RenderUtf8TextMsg>,
)
    requires
        old(js_command_buffer).wf(),
    ensures
        final(js_command_buffer).wf(),
        final(js_command_buffer).capacity_spec() == old(js_command_buffer).capacity_spec(),
        final(js_command_buffer).requested() == old(js_command_buffer).requested()
            + encode_commands(colored(color, utf8_commands(utf8_runs_of(texts@)))),
{
    proof {
        lemma_encode_colored(color, utf8_commands(utf8_runs_of(texts@)));
    }
    if texts.len() > 0 {
        write_color(js_command_buffer, color);
        write_commands(js_command_buffer, texts.as_slice());
        assert(js_command_buffer.requested() =~= old(js_command_buffer).requested() + (
        encode_command(Command::SetColor(color)) + encode_commands(
            utf8_commands(utf8_runs_of(texts@)),
        )));
    } else {
        assert(js_command_buffer.requested() =~= old(js_command_buffer).requested()
            + Seq::<u8>::empty());
    }
}

/// Writes the single-byte runs in the colour of results: nothing if there is
/// no run.
fn write_result_texts(js_command_buffer: &mut CommandBuffer, texts: &Vec<RenderAsciiTextMsg>)
    requires
        old(js_command_buffer).wf(),
    ensures
        final(js_command_buffer).wf(),
        final(js_command_buffer).capacity_spec() == old(js_command_buffer).capacity_spec(),
        final(js_command_buffer).requested() == old(js_command_buffer).requested()
            + encode_commands(colored(COLOR_RESULTS, ascii_commands(ascii_runs_of(texts@)))),
{
    proof {
        lemma_encode_colored(COLOR_RESULTS, ascii_commands(ascii_runs_of(texts@)));
    }
    if texts.len() > 0 {
        write_color(js_command_buffer, COLOR_RESULTS);
        write_ascii_texts(js_command_buffer, texts);
        assert(js_command_buffer.requested() =~= old(js_command_buffer).requested() + (
        encode_command(Command::SetColor(COLOR_RESULTS)) + encode_commands(
            ascii_commands(ascii_runs_of(texts@)),
        )));
    } else {
        assert(js_command_buffer.requested() =~= old(js_command_buffer).requested()
            + Seq::<u8>::empty());
    }
}

/// Writes the rectangles behind the results of referenced lines, in their
/// colour: nothing if there is no such result.
fn write_line_ref_highlights(
    js_command_buffer: &mut CommandBuffer,
    results: &Vec<RenderStringMsg>,
)
    requires
        old(js_command_buffer).wf(),
    ensures
        final(js_command_buffer).wf(),
        final(js_command_buffer).capacity_spec() == old(js_command_buffer).capacity_spec(),
        final(js_command_buffer).requested() == old(js_command_buffer).requested()
            + encode_commands(
            colored(COLOR_LINE_REF_BACKGROUND, highlight_commands(string_runs_of(results@))),
        ),
{
    proof {
        lemma_encode_colored(
            COLOR_LINE_REF_BACKGROUND,
            highlight_commands(string_runs_of(results@)),
        );
    }
    if results.len() > 0 {
        write_color(js_command_buffer, COLOR_LINE_REF_BACKGROUND);
        write_line_ref_backgrounds(js_command_buffer, results);
        assert(js_command_buffer.requested() =~= old(js_command_buffer).requested() + (
        encode_command(Command::SetColor(COLOR_LINE_REF_BACKGROUND)) + encode_commands(
            highlight_commands(string_runs_of(results@)),
        )));
    } else {
        assert(js_command_buffer.requested() =~= old(js_command_buffer).requested()
            + Seq::<u8>::empty());
    }
}

/// Writes the operators and, after them, the results of referenced lines as
/// text, all in the colour of operators: nothing if there is neither.
fn write_operator_texts(
    js_command_buffer: &mut CommandBuffer,
    operators: &Vec<RenderUtf8TextMsg>,
    results: &Vec<RenderStringMsg>,
)
    requires
        old(js_command_buffer).wf(),
    ensures
        final(js_command_buffer).wf(),
        final(js_command_buffer).capacity_spec() == old(js_command_buffer).capacity_spec(),
        final(js_command_buffer).requested() == old(js_command_buffer).requested()
            + encode_commands(
            colored(
                COLOR_OPERATOR,
                utf8_commands(utf8_runs_of(operators@)) + string_commands(
                    string_runs_of(results@),
                ),
            ),
        ),
{
    let ghost first = utf8_commands(utf8_runs_of(operators@));
    let ghost second = string_commands(string_runs_of(results@));
    proof {
        lemma_encode_colored(COLOR_OPERATOR, first + second);
        lemma_encode_commands_concat(first, second);
    }
    if operators.len() > 0 || results.len() > 0 {
        write_color(js_command_buffer, COLOR_OPERATOR);
        write_commands(js_command_buffer, operators.as_slice());
        write_line_ref_texts(js_command_buffer, results);
        assert(js_command_buffer.requested() =~= old(js_command_buffer).requested() + (
        encode_command(Command::SetColor(COLOR_OPERATOR)) + (encode_commands(first)
            + encode_commands(second))));
    } else {
        assert(js_command_buffer.requested() =~= old(js_command_buffer).requested()
            + Seq::<u8>::empty());
    }
}

/// The bytes of a pass are the bytes of its sections, in the order in which
/// the sections are sent.
proof fn lemma_encode_pass(pass: RenderPass)
    ensures
        encode_commands(pass_commands(pass)) == encode_commands(pass.clear_commands)
            + encode_commands(pass.behind_text) + encode_commands(pass.text_layer)
            + encode_commands(colored(COLOR_TEXT, utf8_commands(pass.utf8_texts)))
            + encode_commands(colored(COLOR_RESULTS, ascii_commands(pass.ascii_texts)))
            + encode_commands(colored(COLOR_NUMBER, utf8_commands(pass.numbers)))
            + encode_commands(colored(COLOR_UNIT, utf8_commands(pass.units)))
            + encode_commands(
            colored(COLOR_LINE_REF_BACKGROUND, highlight_commands(pass.line_ref_results)),
        ) + encode_commands(
            colored(
                COLOR_OPERATOR,
                utf8_commands(pass.operators) + string_commands(pass.line_ref_results),
            ),
        ) + encode_commands(colored(COLOR_VARIABLE, utf8_commands(pass.variable)))
            + encode_commands(pass.above_text),
{
    let s0 = pass.clear_commands;
    let s1 = s0 + pass.behind_text;
    let s2 = s1 + pass.text_layer;
    let s3 = s2 + colored(COLOR_TEXT, utf8_commands(pass.utf8_texts));
    let s4 = s3 + colored(COLOR_RESULTS, ascii_commands(pass.ascii_texts));
    let s5 = s4 + colored(COLOR_NUMBER, utf8_commands(pass.numbers));
    let s6 = s5 + colored(COLOR_UNIT, utf8_commands(pass.units));
    let s7 = s6 + colored(COLOR_LINE_REF_BACKGROUND, highlight_commands(pass.line_ref_results));
    let s8 = s7 + colored(
        COLOR_OPERATOR,
        utf8_commands(pass.operators) + string_commands(pass.line_ref_results),
    );
    let s9 = s8 + colored(COLOR_VARIABLE, utf8_commands(pass.variable));
    lemma_encode_commands_concat(s0, pass.behind_text);
    lemma_encode_commands_concat(s1, pass.text_layer);
    lemma_encode_commands_concat(s2, colored(COLOR_TEXT, utf8_commands(pass.utf8_texts)));
    lemma_encode_commands_concat(s3, colored(COLOR_RESULTS, ascii_commands(pass.ascii_texts)));
    lemma_encode_commands_concat(s4, colored(COLOR_NUMBER, utf8_commands(pass.numbers)));
    lemma_encode_commands_concat(s5, colored(COLOR_UNIT, utf8_commands(pass.units)));
    lemma_encode_commands_concat(
        s6,
        colored(COLOR_LINE_REF_BACKGROUND, highlight_commands(pass.line_ref_results)),
    );
    lemma_encode_commands_concat(
        s7,
        colored(
            COLOR_OPERATOR,
            utf8_commands(pass.operators) + string_commands(pass.line_ref_results),
        ),
    );
    lemma_encode_commands_concat(s8, colored(COLOR_VARIABLE, utf8_commands(pass.variable)));
    lemma_encode_commands_concat(s9, pass.above_text);
}

/// Writes one render pass into the buffer, from its start, for the host to
/// replay: the clear instructions, the custom instructions behind the text
/// and on its level, the text in its colour groups, the custom instructions
/// above the text, and the zero byte that ends the stream.
///
/// The pass either fits and is in the buffer whole, or does not fit and is
/// refused: the buffer then holds nothing.
pub fn send_render_commands_to_js(
    render_buckets: &RenderBuckets,
    js_command_buffer: &mut CommandBuffer,
) -> (r: Result<(), RenderError>)
    requires
        old(js_command_buffer).wf(),
    ensures
        final(js_command_buffer).wf(),
        final(js_command_buffer).capacity_spec() == old(js_command_buffer).capacity_spec(),
        final(js_command_buffer).requested() == encode_stream(pass_commands(render_buckets@)),
        r is Ok <==> encode_stream(pass_commands(render_buckets@)).len()
            <= old(js_command_buffer).capacity_spec(),
        r is Ok ==> final(js_command_buffer)@ == encode_stream(pass_commands(render_buckets@)),
        r is Err ==> r == Err::<(), RenderError>(RenderError::BufferOverflow),
        r is Err ==> final(js_command_buffer)@ == Seq::<u8>::empty(),
{
    js_command_buffer.clear();
    write_custom_commands(js_command_buffer, &render_buckets.clear_commands);
    write_custom_commands(
        js_command_buffer,
        &render_buckets.custom_commands[Layer::BehindText.index()],
    );
    write_custom_commands(js_command_buffer, &render_buckets.custom_commands[Layer::Text.index()]);
    write_colored_texts(js_command_buffer, COLOR_TEXT, &render_buckets.utf8_texts);
    write_result_texts(js_command_buffer, &render_buckets.ascii_texts);
    write_colored_texts(js_command_buffer, COLOR_NUMBER, &render_buckets.numbers);
    write_colored_texts(js_command_buffer, COLOR_UNIT, &render_buckets.units);
    write_line_ref_highlights(js_command_buffer, &render_buckets.line_ref_results);
    write_operator_texts(
        js_command_buffer,
        &render_buckets.operators,
        &render_buckets.line_ref_results,
    );
    write_colored_texts(js_command_buffer, COLOR_VARIABLE, &render_buckets.variable);
    write_custom_commands(
        js_command_buffer,
        &render_buckets.custom_commands[Layer::AboveText.index()],
    );
    proof {
        lemma_encode_pass(render_buckets@);
        assert(js_command_buffer.requested() =~= encode_commands(pass_commands(render_buckets@)));
    }
    js_command_buffer.write_u8(0);
    if js_command_buffer.has_overflowed() {
        Err(RenderError::BufferOverflow)
    } else {
        Ok(())
    }
}

} // verus!
