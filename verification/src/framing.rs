//! How the host reads the byte stream of a render pass, and what the
//! stream's grammar guarantees to it.

use vstd::prelude::*;
use vstd::utf8::encode_utf8;
use crate::buckets::{colored, pass_commands, utf8_commands, RenderPass};
use crate::command::{
    code_point_bytes, encode_command, encode_stream, frame_of, lemma_encode_commands_concat,
    lemma_encode_commands_single, payload_of, Command, Frame, OutputMessageCommandId, COLOR_NUMBER,
    COLOR_UNIT,
};

verus! {

/// The largest length that the length field of a text run can announce.
pub const MAX_RUN_LENGTH: usize = 65535;

/// The 16-bit number that stands at `at` in `bytes`, low byte first.
pub open spec fn word_at(bytes: Seq<u8>, at: int) -> nat {
    (bytes[at] + 256 * bytes[at + 1]) as nat
}

/// The length of the payload that follows `tag`, as a reader learns it from
/// the tag and from the bytes behind it. A kind of fixed size has its length;
/// a text run has a header of three 16-bit numbers, the last of which counts
/// what follows: code points of four bytes each, or bytes. A tag that opens
/// no instruction, or a text run whose header is cut short, gives nothing.
pub open spec fn payload_len(tag: u8, rest: Seq<u8>) -> Option<nat> {
    if tag == OutputMessageCommandId::SetStyle.tag_spec() {
        Some(1)
    } else if tag == OutputMessageCommandId::SetColor.tag_spec() {
        Some(4)
    } else if tag == OutputMessageCommandId::RenderChar.tag_spec() {
        Some(6)
    } else if tag == OutputMessageCommandId::RenderRectangle.tag_spec() {
        Some(4)
    } else if tag == OutputMessageCommandId::PulsingRectangle.tag_spec() {
        Some(14)
    } else if tag == OutputMessageCommandId::RenderUtf8Text.tag_spec() {
        if rest.len() >= 6 {
            Some(6 + 4 * word_at(rest, 4))
        } else {
            None
        }
    } else if tag == OutputMessageCommandId::RenderAsciiText.tag_spec() || tag
        == OutputMessageCommandId::RenderString.tag_spec() {
        if rest.len() >= 6 {
            Some(6 + word_at(rest, 4))
        } else {
            None
        }
    } else {
        None
    }
}

/// The frames that a reader finds in a byte stream: it takes a tag, then the
/// payload whose length the tag and the header give, and so on up to a zero
/// tag, which must be the last byte. A stream that ends before its zero tag,
/// or goes on behind it, or holds a tag that opens no instruction, gives
/// nothing.
pub open spec fn read_stream(bytes: Seq<u8>) -> Option<Seq<Frame>>
    decreases bytes.len(),
{
    if bytes.len() == 0 {
        None
    } else if bytes[0] == 0 {
        if bytes.len() == 1 {
            Some(Seq::empty())
        } else {
            None
        }
    } else {
        match payload_len(bytes[0], bytes.skip(1)) {
            None => None,
            Some(n) => {
                if 1 + n > bytes.len() {
                    None
                } else {
                    match read_stream(bytes.skip(1 + n as int)) {
                        None => None,
                        Some(frames) => Some(
                            seq![Frame { tag: bytes[0], payload: bytes.subrange(1, 1 + n as int) }]
                                + frames,
                        ),
                    }
                }
            },
        }
    }
}

/// Whether the length field of an instruction can announce its text: a run
/// must not have more than `MAX_RUN_LENGTH` code points, a run of single-byte
/// characters or a string not more than as many bytes.
pub open spec fn fits_length_field(command: Command) -> bool {
    match command {
        Command::RenderUtf8Text(run) => run.text.len() <= MAX_RUN_LENGTH,
        Command::RenderAsciiText(run) => run.text.len() <= MAX_RUN_LENGTH,
        Command::RenderString(run) => encode_utf8(run.text).len() <= MAX_RUN_LENGTH,
        _ => true,
    }
}

/// The frames that carry a list of instructions.
pub open spec fn frames_of(commands: Seq<Command>) -> Seq<Frame> {
    commands.map_values(|command: Command| frame_of(command))
}

/// The colours that a list of instructions sets, in order.
pub open spec fn colors_set(commands: Seq<Command>) -> Seq<u32>
    decreases commands.len(),
{
    if commands.len() == 0 {
        Seq::empty()
    } else {
        match commands.last() {
            Command::SetColor(color) => colors_set(commands.drop_last()).push(color),
            _ => colors_set(commands.drop_last()),
        }
    }
}

/// Code points take four bytes each.
proof fn lemma_code_point_bytes_len(text: Seq<char>)
    ensures
        code_point_bytes(text).len() == 4 * text.len(),
    decreases text.len(),
{
    if text.len() > 0 {
        lemma_code_point_bytes_len(text.drop_last());
    }
}

/// A reader that stands at the tag of an instruction learns the length of its
/// payload, whatever follows the instruction.
proof fn lemma_payload_len(command: Command, after: Seq<u8>)
    requires
        fits_length_field(command),
    ensures
        payload_len(frame_of(command).tag, payload_of(command) + after) == Some(
            payload_of(command).len(),
        ),
{
    let rest = payload_of(command) + after;
    match command {
        Command::RenderUtf8Text(run) => {
            lemma_code_point_bytes_len(run.text);
            assert(word_at(rest, 4) == run.text.len());
        },
        Command::RenderString(run) => {
            assert(word_at(rest, 4) == encode_utf8(run.text).len());
        },
        Command::RenderAsciiText(run) => {
            assert(word_at(rest, 4) == run.text.len());
        },
        _ => {},
    }
}

/// The stream of a list that starts with `first` is the bytes of `first`,
/// then the stream of the others.
proof fn lemma_stream_front(first: Command, others: Seq<Command>)
    ensures
        encode_stream(seq![first] + others) == encode_command(first) + encode_stream(others),
{
    lemma_encode_commands_concat(seq![first], others);
    lemma_encode_commands_single(first);
    assert(encode_stream(seq![first] + others) =~= encode_command(first) + encode_stream(others));
}

/// A reader gets back from the stream of a pass, frame by frame and in order,
/// the tag and the payload of every instruction that was sent, provided that
/// no text run is too long for its length field. No frame has the tag zero,
/// and the stream ends with the zero byte, at which the reader stops.
pub proof fn lemma_stream_round_trip(commands: Seq<Command>)
    requires
        forall|i: int| 0 <= i < commands.len() ==> fits_length_field(#[trigger] commands[i]),
    ensures
        read_stream(encode_stream(commands)) == Some(frames_of(commands)),
        forall|i: int| 0 <= i < commands.len() ==> (#[trigger] frames_of(commands)[i]).tag != 0,
        encode_stream(commands).last() == 0,
    decreases commands.len(),
{
    let bytes = encode_stream(commands);
    if commands.len() == 0 {
        assert(bytes =~= seq![0u8]);
        assert(frames_of(commands) =~= Seq::<Frame>::empty());
    } else {
        let first = commands[0];
        let others = commands.skip(1);
        assert(commands =~= seq![first] + others);
        lemma_stream_front(first, others);
        lemma_stream_round_trip(others);
        let after = encode_stream(others);
        let payload = payload_of(first);
        assert(bytes == encode_command(first) + after);
        assert(bytes[0] == frame_of(first).tag);
        assert(bytes.skip(1) =~= payload + after);
        lemma_payload_len(first, after);
        let n = payload.len();
        assert(bytes.subrange(1, 1 + n as int) =~= payload);
        assert(bytes.skip(1 + n as int) =~= after);
        assert(frames_of(commands) =~= seq![frame_of(first)] + frames_of(others));
    }
}

/// Setting colours in two lists one after the other sets the colours of the
/// first, then those of the second.
proof fn lemma_colors_set_concat(first: Seq<Command>, second: Seq<Command>)
    ensures
        colors_set(first + second) == colors_set(first) + colors_set(second),
    decreases second.len(),
{
    if second.len() == 0 {
        assert(first + second =~= first);
        assert(colors_set(first) + colors_set(second) =~= colors_set(first));
    } else {
        let whole = first + second;
        assert(whole.drop_last() =~= first + second.drop_last());
        assert(whole.last() == second.last());
        lemma_colors_set_concat(first, second.drop_last());
        assert(colors_set(whole) =~= colors_set(first) + colors_set(second));
    }
}

/// Text runs set no colour.
proof fn lemma_runs_set_no_color(commands: Seq<Command>)
    requires
        forall|i: int| 0 <= i < commands.len() ==> !(#[trigger] commands[i] is SetColor),
    ensures
        colors_set(commands) == Seq::<u32>::empty(),
    decreases commands.len(),
{
    if commands.len() > 0 {
        lemma_runs_set_no_color(commands.drop_last());
    }
}

/// A group drawn in one colour, whose own instructions set none, sets that
/// colour once if it draws anything, and no colour if it draws nothing.
proof fn lemma_colors_set_colored(color: u32, commands: Seq<Command>)
    requires
        forall|i: int| 0 <= i < commands.len() ==> !(#[trigger] commands[i] is SetColor),
    ensures
        colors_set(colored(color, commands)) == if commands.len() == 0 {
            Seq::<u32>::empty()
        } else {
            seq![color]
        },
{
    lemma_runs_set_no_color(commands);
    if commands.len() > 0 {
        let head = seq![Command::SetColor(color)];
        lemma_colors_set_concat(head, commands);
        assert(head.drop_last() =~= Seq::<Command>::empty());
        assert(colors_set(head.drop_last()) =~= Seq::<u32>::empty());
        assert(head.last() == Command::SetColor(color));
        assert(colors_set(head) =~= seq![color]);
        assert(colors_set(head) + colors_set(commands) =~= seq![color]);
    }
}

/// A pass that holds numbers and units and nothing else sends the colour of
/// numbers, the numbers, the colour of units, the units: it sets a colour
/// twice, that of numbers before that of units.
pub proof fn lemma_numbers_before_units(pass: RenderPass)
    requires
        pass.numbers.len() > 0,
        pass.units.len() > 0,
        pass.clear_commands.len() == 0,
        pass.behind_text.len() == 0,
        pass.text_layer.len() == 0,
        pass.above_text.len() == 0,
        pass.utf8_texts.len() == 0,
        pass.ascii_texts.len() == 0,
        pass.line_ref_results.len() == 0,
        pass.operators.len() == 0,
        pass.variable.len() == 0,
    ensures
        pass_commands(pass) == seq![Command::SetColor(COLOR_NUMBER)] + utf8_commands(pass.numbers)
            + seq![Command::SetColor(COLOR_UNIT)] + utf8_commands(pass.units),
        colors_set(pass_commands(pass)) == seq![COLOR_NUMBER, COLOR_UNIT],
{
    let numbers = colored(COLOR_NUMBER, utf8_commands(pass.numbers));
    let units = colored(COLOR_UNIT, utf8_commands(pass.units));
    assert(pass_commands(pass) =~= numbers + units);
    assert(numbers + units =~= seq![Command::SetColor(COLOR_NUMBER)] + utf8_commands(pass.numbers)
        + seq![Command::SetColor(COLOR_UNIT)] + utf8_commands(pass.units));
    lemma_colors_set_concat(numbers, units);
    lemma_colors_set_colored(COLOR_NUMBER, utf8_commands(pass.numbers));
    lemma_colors_set_colored(COLOR_UNIT, utf8_commands(pass.units));
    assert(seq![COLOR_NUMBER] + seq![COLOR_UNIT] =~= seq![COLOR_NUMBER, COLOR_UNIT]);
}

/// One instruction as a reader finds it: the tag, and the bytes that follow
/// it.
#[derive(Clone, Debug, PartialEq, Eq)]
pub struct WireFrame {
    pub tag: u8,
    pub payload: Vec<u8>,
}

impl View for WireFrame {
    type V = Frame;

    open spec fn view(&self) -> Frame {
        Frame { tag: self.tag, payload: self.payload@ }
    }
}

/// The frames of a list, as values.
pub open spec fn frames_view(frames: Seq<WireFrame>) -> Seq<Frame> {
    frames.map_values(|frame: WireFrame| frame@)
}

/// What a reader has once it has read `done` and goes on to read what is
/// left: nothing if what is left cannot be read, else `done` and what it
/// finds there.
pub open spec fn read_on(done: Seq<Frame>, left: Option<Seq<Frame>>) -> Option<Seq<Frame>> {
    match left {
        Some(frames) => Some(done + frames),
        None => None,
    }
}

/// The length of the payload that follows `tag`, which stands before `at`.
fn payload_len_at(bytes: &[u8], at: usize, tag: u8) -> (r: Option<usize>)
    requires
        at <= bytes@.len(),
    ensures
        r matches Some(n) ==> payload_len(tag, bytes@.skip(at as int)) == Some(n as nat),
        r is None ==> payload_len(tag, bytes@.skip(at as int)) is None,
{
    if tag == OutputMessageCommandId::SetStyle.tag() {
        Some(1)
    } else if tag == OutputMessageCommandId::SetColor.tag() {
        Some(4)
    } else if tag == OutputMessageCommandId::RenderChar.tag() {
        Some(6)
    } else if tag == OutputMessageCommandId::RenderRectangle.tag() {
        Some(4)
    } else if tag == OutputMessageCommandId::PulsingRectangle.tag() {
        Some(14)
    } else if tag == OutputMessageCommandId::RenderUtf8Text.tag() || tag
        == OutputMessageCommandId::RenderAsciiText.tag() || tag
        == OutputMessageCommandId::RenderString.tag() {
        if bytes.len() - at < 6 {
            return None;
        }
        let low: usize = bytes[at + 4] as usize;
        let high: usize = bytes[at + 5] as usize;
        let count: usize = low + 256 * high;
        assert(count == word_at(bytes@.skip(at as int), 4));
        if tag == OutputMessageCommandId::RenderUtf8Text.tag() {
            Some(6 + 4 * count)
        } else {
            Some(6 + count)
        }
    } else {
        None
    }
}

/// Reads a byte stream as the host does: frame by frame, up to the zero byte
/// that ends it. A stream that is cut short, that goes on behind its end, or
/// that holds a tag that opens no instruction gives nothing.
pub fn read_frames(bytes: &[u8]) -> (r: Option<Vec<WireFrame>>)
    ensures
        r matches Some(frames) ==> read_stream(bytes@) == Some(frames_view(frames@)),
        r is None ==> read_stream(bytes@) is None,
{
    let mut frames: Vec<WireFrame> = Vec::new();
    let mut pos: usize = 0;
    proof {
        assert(bytes@.skip(0) =~= bytes@);
        assert(frames_view(frames@) =~= Seq::<Frame>::empty());
        assert(read_on(frames_view(frames@), read_stream(bytes@)) =~= read_stream(bytes@));
    }
    while pos < bytes.len()
        invariant
            pos <= bytes@.len(),
            read_stream(bytes@) == read_on(
                frames_view(frames@),
                read_stream(bytes@.skip(pos as int)),
            ),
        decreases bytes@.len() - pos,
    {
        let ghost left = bytes@.skip(pos as int);
        let ghost done = frames_view(frames@);
        let tag: u8 = bytes[pos];
        assert(left[0] == tag);
        if tag == 0 {
            if pos + 1 == bytes.len() {
                assert(done + Seq::<Frame>::empty() =~= done);
                return Some(frames);
            } else {
                return None;
            }
        }
        assert(left.skip(1) =~= bytes@.skip(pos + 1));
        let n: usize = match payload_len_at(bytes, pos + 1, tag) {
            Some(n) => n,
            None => {
                return None;
            },
        };
        if n > bytes.len() - pos - 1 {
            return None;
        }
        let payload = vstd::slice::slice_to_vec(
            vstd::slice::slice_subrange(bytes, pos + 1, pos + 1 + n),
        );
        proof {
            assert(left.subrange(1, 1 + n as int) =~= payload@);
            assert(left.skip(1 + n as int) =~= bytes@.skip(pos + 1 + n));
        }
        let frame = WireFrame { tag, payload };
        frames.push(frame);
        proof {
            let next = read_stream(bytes@.skip(pos + 1 + n));
            assert(frames_view(frames@) =~= done.push(frame@));
            if next is Some {
                assert(done + (seq![frame@] + next->0) =~= done.push(frame@) + next->0);
            }
        }
        pos = pos + 1 + n;
    }
    proof {
        assert(bytes@.skip(pos as int).len() == 0);
    }
    None
}

} // verus!
