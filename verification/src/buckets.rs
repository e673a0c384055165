//! The instructions of one render pass, sorted by what they draw, and the
//! order in which a pass sends them.

use vstd::prelude::*;
use crate::command::{
    ascii_runs_of, commands_of, string_runs_of, utf8_runs_of, AsciiRun, Command, Layer,
    OutputMessage, RenderAsciiTextMsg, RenderStringMsg, RenderUtf8TextMsg, TextRun,
    COLOR_LINE_REF_BACKGROUND, COLOR_NUMBER, COLOR_OPERATOR, COLOR_RESULTS, COLOR_TEXT, COLOR_UNIT,
    COLOR_VARIABLE,
};

verus! {

/// The instructions that the engine has collected for one render pass. The
/// engine fills the buckets while it lays out the document; they are sent in
/// one go, and emptied before the next pass.
#[derive(Debug)]
pub struct RenderBuckets {
    pub ascii_texts: Vec<RenderAsciiTextMsg>,
    pub utf8_texts: Vec<RenderUtf8TextMsg>,
    pub numbers: Vec<RenderUtf8TextMsg>,
    pub units: Vec<RenderUtf8TextMsg>,
    pub operators: Vec<RenderUtf8TextMsg>,
    pub variable: Vec<RenderUtf8TextMsg>,
    pub line_ref_results: Vec<RenderStringMsg>,
    pub custom_commands: [Vec<OutputMessage>; 3],
    pub clear_commands: Vec<OutputMessage>,
}

/// The content of the buckets, as values.
pub struct RenderPass {
    pub ascii_texts: Seq<AsciiRun>,
    pub utf8_texts: Seq<TextRun>,
    pub numbers: Seq<TextRun>,
    pub units: Seq<TextRun>,
    pub operators: Seq<TextRun>,
    pub variable: Seq<TextRun>,
    pub line_ref_results: Seq<TextRun>,
    pub behind_text: Seq<Command>,
    pub text_layer: Seq<Command>,
    pub above_text: Seq<Command>,
    pub clear_commands: Seq<Command>,
}

impl RenderPass {
    /// The pass in which nothing is drawn.
    pub open spec fn empty() -> RenderPass {
        RenderPass {
            ascii_texts: Seq::empty(),
            utf8_texts: Seq::empty(),
            numbers: Seq::empty(),
            units: Seq::empty(),
            operators: Seq::empty(),
            variable: Seq::empty(),
            line_ref_results: Seq::empty(),
            behind_text: Seq::empty(),
            text_layer: Seq::empty(),
            above_text: Seq::empty(),
            clear_commands: Seq::empty(),
        }
    }
}

impl View for RenderBuckets {
    type V = RenderPass;

    open spec fn view(&self) -> RenderPass {
        RenderPass {
            ascii_texts: ascii_runs_of(self.ascii_texts@),
            utf8_texts: utf8_runs_of(self.utf8_texts@),
            numbers: utf8_runs_of(self.numbers@),
            units: utf8_runs_of(self.units@),
            operators: utf8_runs_of(self.operators@),
            variable: utf8_runs_of(self.variable@),
            line_ref_results: string_runs_of(self.line_ref_results@),
            behind_text: commands_of(self.custom_commands@[Layer::BehindText.index_spec() as int]@),
            text_layer: commands_of(self.custom_commands@[Layer::Text.index_spec() as int]@),
            above_text: commands_of(self.custom_commands@[Layer::AboveText.index_spec() as int]@),
            clear_commands: commands_of(self.clear_commands@),
        }
    }
}

/// A pass whose buckets all have length zero is the empty pass.
proof fn lemma_nothing_held(pass: RenderPass)
    requires
        pass.ascii_texts.len() == 0,
        pass.utf8_texts.len() == 0,
        pass.numbers.len() == 0,
        pass.units.len() == 0,
        pass.operators.len() == 0,
        pass.variable.len() == 0,
        pass.line_ref_results.len() == 0,
        pass.behind_text.len() == 0,
        pass.text_layer.len() == 0,
        pass.above_text.len() == 0,
        pass.clear_commands.len() == 0,
    ensures
        pass == RenderPass::empty(),
{
    assert(pass.ascii_texts =~= Seq::empty());
    assert(pass.utf8_texts =~= Seq::empty());
    assert(pass.numbers =~= Seq::empty());
    assert(pass.units =~= Seq::empty());
    assert(pass.operators =~= Seq::empty());
    assert(pass.variable =~= Seq::empty());
    assert(pass.line_ref_results =~= Seq::empty());
    assert(pass.behind_text =~= Seq::empty());
    assert(pass.text_layer =~= Seq::empty());
    assert(pass.above_text =~= Seq::empty());
    assert(pass.clear_commands =~= Seq::empty());
}

impl RenderBuckets {
    /// Buckets with nothing in them.
    pub fn new() -> (r: RenderBuckets)
        ensures
            r@ == RenderPass::empty(),
    {
        let r = RenderBuckets {
            ascii_texts: Vec::new(),
            utf8_texts: Vec::new(),
            numbers: Vec::new(),
            units: Vec::new(),
            operators: Vec::new(),
            variable: Vec::new(),
            line_ref_results: Vec::new(),
            custom_commands: [Vec::new(), Vec::new(), Vec::new()],
            clear_commands: Vec::new(),
        };
        proof {
            lemma_nothing_held(r@);
        }
        r
    }

    /// Empties every bucket, as is done before each pass.
    pub fn clear(&mut self)
        ensures
            final(self)@ == RenderPass::empty(),
    {
        self.ascii_texts.clear();
        self.utf8_texts.clear();
        self.numbers.clear();
        self.units.clear();
        self.operators.clear();
        self.variable.clear();
        self.line_ref_results.clear();
        self.custom_commands = [Vec::new(), Vec::new(), Vec::new()];
        self.clear_commands.clear();
        proof {
            lemma_nothing_held(self@);
        }
    }
}

/// The runs of a list as instructions to draw code points.
pub open spec fn utf8_commands(runs: Seq<TextRun>) -> Seq<Command> {
    runs.map_values(|run: TextRun| Command::RenderUtf8Text(run))
}

/// The runs of a list as instructions to draw single-byte text.
pub open spec fn ascii_commands(runs: Seq<AsciiRun>) -> Seq<Command> {
    runs.map_values(|run: AsciiRun| Command::RenderAsciiText(run))
}

/// The runs of a list as instructions to draw strings.
pub open spec fn string_commands(runs: Seq<TextRun>) -> Seq<Command> {
    runs.map_values(|run: TextRun| Command::RenderString(run))
}

/// The rectangle behind the result of a referenced line: where the result
/// stands, as wide as its text and one row high.
pub open spec fn highlight_of(run: TextRun) -> Command {
    Command::RenderRectangle { x: run.column, y: run.row, w: run.text.len() as usize, h: 1 }
}

/// The rectangles behind the results of referenced lines.
pub open spec fn highlight_commands(runs: Seq<TextRun>) -> Seq<Command> {
    runs.map_values(|run: TextRun| highlight_of(run))
}

/// A group of instructions drawn in one colour: the colour, then the
/// instructions. An empty group sends nothing, not even its colour.
pub open spec fn colored(color: u32, commands: Seq<Command>) -> Seq<Command> {
    if commands.len() == 0 {
        Seq::empty()
    } else {
        seq![Command::SetColor(color)] + commands
    }
}

/// Every instruction of a pass, in the order in which it is sent.
pub open spec fn pass_commands(pass: RenderPass) -> Seq<Command> {
    pass.clear_commands
        + pass.behind_text
        + pass.text_layer
        + colored(COLOR_TEXT, utf8_commands(pass.utf8_texts))
        + colored(COLOR_RESULTS, ascii_commands(pass.ascii_texts))
        + colored(COLOR_NUMBER, utf8_commands(pass.numbers))
        + colored(COLOR_UNIT, utf8_commands(pass.units))
        + colored(COLOR_LINE_REF_BACKGROUND, highlight_commands(pass.line_ref_results))
        + colored(
            COLOR_OPERATOR,
            utf8_commands(pass.operators) + string_commands(pass.line_ref_results),
        )
        + colored(COLOR_VARIABLE, utf8_commands(pass.variable))
        + pass.above_text
}

} // verus!
