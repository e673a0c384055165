//! The drawing instructions of one render pass, and what each of them is on
//! the wire.
//!
//! The executable types hold what the engine hands over. Each has a view, a
//! value made of integers and sequences, and every statement about the byte
//! stream is made over those views.

use vstd::prelude::*;
use vstd::utf8::encode_utf8;

verus! {

pub const COLOR_TEXT: u32 = 0x595959_FF;

pub const COLOR_RESULTS: u32 = 0x000000_FF;

pub const COLOR_NUMBER: u32 = 0xF92672_FF;

pub const COLOR_OPERATOR: u32 = 0x000000_FF;

pub const COLOR_UNIT: u32 = 0x000BED_FF;

pub const COLOR_VARIABLE: u32 = 0x269d94_FF;

/// The colour behind the results of referenced lines.
pub const COLOR_LINE_REF_BACKGROUND: u32 = 0xFFCCCC_FF;

/// The kinds of instruction, in the order that numbers them. On the wire an
/// instruction starts with its kind's tag, the ordinal plus one, so that no
/// instruction starts with a zero byte: that byte ends the stream.
#[derive(Clone, Copy, Debug, PartialEq, Eq, Structural)]
pub enum OutputMessageCommandId {
    SetColor,
    SetStyle,
    RenderRectangle,
    PulsingRectangle,
    RenderChar,
    RenderUtf8Text,
    RenderAsciiText,
    RenderString,
}

impl OutputMessageCommandId {
    pub open spec fn ordinal_spec(self) -> u8 {
        match self {
            OutputMessageCommandId::SetColor => 0,
            OutputMessageCommandId::SetStyle => 1,
            OutputMessageCommandId::RenderRectangle => 2,
            OutputMessageCommandId::PulsingRectangle => 3,
            OutputMessageCommandId::RenderChar => 4,
            OutputMessageCommandId::RenderUtf8Text => 5,
            OutputMessageCommandId::RenderAsciiText => 6,
            OutputMessageCommandId::RenderString => 7,
        }
    }

    /// The byte that opens an instruction of this kind.
    pub open spec fn tag_spec(self) -> u8 {
        (self.ordinal_spec() + 1) as u8
    }

    /// The position of this kind among the kinds, counted from zero.
    #[verifier::when_used_as_spec(ordinal_spec)]
    pub fn ordinal(self) -> (r: u8)
        ensures
            r == self.ordinal_spec(),
    {
        match self {
            OutputMessageCommandId::SetColor => 0,
            OutputMessageCommandId::SetStyle => 1,
            OutputMessageCommandId::RenderRectangle => 2,
            OutputMessageCommandId::PulsingRectangle => 3,
            OutputMessageCommandId::RenderChar => 4,
            OutputMessageCommandId::RenderUtf8Text => 5,
            OutputMessageCommandId::RenderAsciiText => 6,
            OutputMessageCommandId::RenderString => 7,
        }
    }

    /// The byte that opens an instruction of this kind: never zero.
    #[verifier::when_used_as_spec(tag_spec)]
    pub fn tag(self) -> (r: u8)
        ensures
            r == self.tag_spec(),
            r != 0,
    {
        self.ordinal() + 1
    }
}

/// Where a custom instruction lies relative to the text.
#[derive(Clone, Copy, Debug, PartialEq, Eq, Structural)]
pub enum Layer {
    BehindText,
    Text,
    AboveText,
}

impl Layer {
    pub open spec fn index_spec(self) -> usize {
        match self {
            Layer::BehindText => 0,
            Layer::Text => 1,
            Layer::AboveText => 2,
        }
    }

    /// The place of this layer's instructions among the custom ones.
    #[verifier::when_used_as_spec(index_spec)]
    pub fn index(self) -> (r: usize)
        ensures
            r == self.index_spec(),
            r < 3,
    {
        match self {
            Layer::BehindText => 0,
            Layer::Text => 1,
            Layer::AboveText => 2,
        }
    }
}

/// A run of characters at a place on the canvas.
pub struct TextRun {
    pub row: usize,
    pub column: usize,
    pub text: Seq<char>,
}

/// A run of single-byte characters at a place on the canvas.
pub struct AsciiRun {
    pub row: usize,
    pub column: usize,
    pub text: Seq<u8>,
}

/// One drawing instruction, as a value.
pub enum Command {
    SetColor(u32),
    SetStyle(u8),
    RenderRectangle { x: usize, y: usize, w: usize, h: usize },
    PulsingRectangle {
        x: usize,
        y: usize,
        w: usize,
        h: usize,
        start_color: u32,
        end_color: u32,
        animation_millis: u128,
    },
    RenderChar(usize, usize, char),
    RenderUtf8Text(TextRun),
    RenderAsciiText(AsciiRun),
    RenderString(TextRun),
}

/// A run of characters that the engine holds as a slice of code points.
#[derive(Clone, Debug)]
pub struct RenderUtf8TextMsg {
    pub text: Vec<char>,
    pub row: usize,
    pub column: usize,
}

/// A run of single-byte characters.
#[derive(Clone, Debug)]
pub struct RenderAsciiTextMsg {
    pub text: Vec<u8>,
    pub row: usize,
    pub column: usize,
}

/// A run of characters that the engine holds as a string.
#[derive(Clone, Debug)]
pub struct RenderStringMsg {
    pub text: String,
    pub row: usize,
    pub column: usize,
}

/// One drawing instruction. A style is the number that the engine gives it; a
/// pulsing rectangle's time is in milliseconds.
#[derive(Clone, Debug)]
pub enum OutputMessage {
    SetColor(u32),
    SetStyle(u8),
    RenderRectangle { x: usize, y: usize, w: usize, h: usize },
    PulsingRectangle {
        x: usize,
        y: usize,
        w: usize,
        h: usize,
        start_color: u32,
        end_color: u32,
        animation_millis: u128,
    },
    RenderChar(usize, usize, char),
    RenderUtf8Text(RenderUtf8TextMsg),
    RenderAsciiText(RenderAsciiTextMsg),
    RenderString(RenderStringMsg),
}

impl View for RenderUtf8TextMsg {
    type V = TextRun;

    open spec fn view(&self) -> TextRun {
        TextRun { row: self.row, column: self.column, text: self.text@ }
    }
}

impl View for RenderAsciiTextMsg {
    type V = AsciiRun;

    open spec fn view(&self) -> AsciiRun {
        AsciiRun { row: self.row, column: self.column, text: self.text@ }
    }
}

impl View for RenderStringMsg {
    type V = TextRun;

    open spec fn view(&self) -> TextRun {
        TextRun { row: self.row, column: self.column, text: self.text@ }
    }
}

impl View for OutputMessage {
    type V = Command;

    open spec fn view(&self) -> Command {
        match *self {
            OutputMessage::SetStyle(style) => Command::SetStyle(style),
            OutputMessage::SetColor(color) => Command::SetColor(color),
            OutputMessage::RenderChar(x, y, ch) => Command::RenderChar(x, y, ch),
            OutputMessage::RenderUtf8Text(text) => Command::RenderUtf8Text(text@),
            OutputMessage::RenderAsciiText(text) => Command::RenderAsciiText(text@),
            OutputMessage::RenderString(text) => Command::RenderString(text@),
            OutputMessage::RenderRectangle { x, y, w, h } => Command::RenderRectangle {
                x,
                y,
                w,
                h,
            },
            OutputMessage::PulsingRectangle {
                x,
                y,
                w,
                h,
                start_color,
                end_color,
                animation_millis,
            } => Command::PulsingRectangle {
                x,
                y,
                w,
                h,
                start_color,
                end_color,
                animation_millis,
            },
        }
    }
}

/// The instructions of a list, as values.
pub open spec fn commands_of(messages: Seq<OutputMessage>) -> Seq<Command> {
    messages.map_values(|m: OutputMessage| m@)
}

/// The runs of a list of code-point runs, as values.
pub open spec fn utf8_runs_of(messages: Seq<RenderUtf8TextMsg>) -> Seq<TextRun> {
    messages.map_values(|m: RenderUtf8TextMsg| m@)
}

/// The runs of a list of single-byte runs, as values.
pub open spec fn ascii_runs_of(messages: Seq<RenderAsciiTextMsg>) -> Seq<AsciiRun> {
    messages.map_values(|m: RenderAsciiTextMsg| m@)
}

/// The runs of a list of string runs, as values.
pub open spec fn string_runs_of(messages: Seq<RenderStringMsg>) -> Seq<TextRun> {
    messages.map_values(|m: RenderStringMsg| m@)
}

/// The two bytes of a 16-bit number, the low one first.
pub open spec fn le_bytes_u16(n: u16) -> Seq<u8> {
    seq![(n % 256) as u8, (n / 256) as u8]
}

/// The four bytes of a 32-bit number, the lowest first.
pub open spec fn le_bytes_u32(n: u32) -> Seq<u8> {
    seq![
        (n % 256) as u8,
        (n / 256 % 256) as u8,
        (n / 65536 % 256) as u8,
        (n / 16777216) as u8,
    ]
}

/// The low byte of a coordinate: all of it that the wire carries.
pub open spec fn low_byte(n: int) -> u8 {
    (n % 256) as u8
}

/// The low sixteen bits of a number: all of it that the wire carries of a
/// row, a column, a length or a time.
pub open spec fn low_word(n: int) -> u16 {
    (n % 65536) as u16
}

/// The code points of a text, four bytes each.
pub open spec fn code_point_bytes(text: Seq<char>) -> Seq<u8>
    decreases text.len(),
{
    if text.len() == 0 {
        Seq::empty()
    } else {
        code_point_bytes(text.drop_last()) + le_bytes_u32(text.last() as u32)
    }
}

/// Row, column and length, which open the payload of every text run.
pub open spec fn run_header(row: usize, column: usize, len: nat) -> Seq<u8> {
    le_bytes_u16(low_word(row as int)) + le_bytes_u16(low_word(column as int)) + le_bytes_u16(
        low_word(len as int),
    )
}

/// The kind of an instruction.
pub open spec fn wire_id(command: Command) -> OutputMessageCommandId {
    match command {
        Command::SetColor(_) => OutputMessageCommandId::SetColor,
        Command::SetStyle(_) => OutputMessageCommandId::SetStyle,
        Command::RenderRectangle { .. } => OutputMessageCommandId::RenderRectangle,
        Command::PulsingRectangle { .. } => OutputMessageCommandId::PulsingRectangle,
        Command::RenderChar(_, _, _) => OutputMessageCommandId::RenderChar,
        Command::RenderUtf8Text(_) => OutputMessageCommandId::RenderUtf8Text,
        Command::RenderAsciiText(_) => OutputMessageCommandId::RenderAsciiText,
        Command::RenderString(_) => OutputMessageCommandId::RenderString,
    }
}

/// What follows the tag of an instruction. A coordinate is one byte, a
/// colour four; a time is two. A text run has its row, its column and its
/// length, two bytes each, and then its text: a run of code points has their
/// number and four bytes for each, a run of single-byte characters has its
/// bytes, and a string has the number of its UTF-8 bytes and those bytes.
pub open spec fn payload_of(command: Command) -> Seq<u8> {
    match command {
        Command::SetColor(color) => le_bytes_u32(color),
        Command::SetStyle(style) => seq![style],
        Command::RenderRectangle { x, y, w, h } => seq![
            low_byte(x as int),
            low_byte(y as int),
            low_byte(w as int),
            low_byte(h as int),
        ],
        Command::PulsingRectangle { x, y, w, h, start_color, end_color, animation_millis } => seq![
            low_byte(x as int),
            low_byte(y as int),
            low_byte(w as int),
            low_byte(h as int),
        ] + le_bytes_u32(start_color) + le_bytes_u32(end_color) + le_bytes_u16(
            low_word(animation_millis as int),
        ),
        Command::RenderChar(x, y, ch) => seq![low_byte(x as int), low_byte(y as int)]
            + le_bytes_u32(ch as u32),
        Command::RenderUtf8Text(run) => run_header(run.row, run.column, run.text.len())
            + code_point_bytes(run.text),
        Command::RenderAsciiText(run) => run_header(run.row, run.column, run.text.len())
            + run.text,
        Command::RenderString(run) => run_header(
            run.row,
            run.column,
            encode_utf8(run.text).len(),
        ) + encode_utf8(run.text),
    }
}

/// A tag and the payload that follows it: one instruction on the wire.
pub struct Frame {
    pub tag: u8,
    pub payload: Seq<u8>,
}

/// The frame that carries an instruction.
pub open spec fn frame_of(command: Command) -> Frame {
    Frame { tag: wire_id(command).tag_spec(), payload: payload_of(command) }
}

/// The bytes of one instruction: its tag, then its payload.
pub open spec fn encode_command(command: Command) -> Seq<u8> {
    seq![frame_of(command).tag] + frame_of(command).payload
}

/// The bytes of a list of instructions, one after the other.
pub open spec fn encode_commands(commands: Seq<Command>) -> Seq<u8>
    decreases commands.len(),
{
    if commands.len() == 0 {
        Seq::empty()
    } else {
        encode_commands(commands.drop_last()) + encode_command(commands.last())
    }
}

/// The byte stream of a list of instructions: their bytes, then the zero byte
/// that ends the stream.
pub open spec fn encode_stream(commands: Seq<Command>) -> Seq<u8> {
    encode_commands(commands) + seq![0u8]
}

/// The bytes of a list of instructions are those of its parts, in order.
pub proof fn lemma_encode_commands_concat(first: Seq<Command>, second: Seq<Command>)
    ensures
        encode_commands(first + second) == encode_commands(first) + encode_commands(second),
    decreases second.len(),
{
    if second.len() == 0 {
        assert(first + second =~= first);
        assert(encode_commands(first) + encode_commands(second) =~= encode_commands(first));
    } else {
        let whole = first + second;
        assert(whole.drop_last() =~= first + second.drop_last());
        assert(whole.last() == second.last());
        lemma_encode_commands_concat(first, second.drop_last());
        assert(encode_commands(whole) =~= encode_commands(first) + encode_commands(second));
    }
}

/// The bytes of a list of one instruction are the bytes of that instruction.
pub proof fn lemma_encode_commands_single(command: Command)
    ensures
        encode_commands(seq![command]) == encode_command(command),
{
    let one = seq![command];
    assert(one.drop_last() =~= Seq::<Command>::empty());
    assert(encode_commands(one.drop_last()) =~= Seq::<u8>::empty());
    assert(encode_commands(one) =~= encode_command(command));
}

/// A list that grew by one instruction grew by that instruction's bytes.
pub proof fn lemma_encode_commands_push(commands: Seq<Command>, command: Command)
    ensures
        encode_commands(commands.push(command)) == encode_commands(commands) + encode_command(
            command,
        ),
{
    assert(commands.push(command).drop_last() =~= commands);
}

} // verus!
