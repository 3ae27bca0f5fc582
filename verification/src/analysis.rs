//! The analysis of a whole document.

use vstd::prelude::*;
use vstd::string::StringSliceAdditionalSpecFns;
use crate::blocks::{block_step, classify, line_kind, unclosed_ifs, BlockStack, Frame, LineKind};
use crate::bytes::find_byte;
use crate::condition::{check_condition, mismatch};
use crate::diagnostic::{findings, Diagnostic, Finding, Place};
use crate::infer::{declare, record_declaration};
use crate::keywords::lemma_if_then;
use crate::lines::{line_views, lines, split_lines};
use crate::parens::{open_after, unmatched_closes, unmatched_opens, ParenStack};
use crate::space::{indent, strip_end, strip_start, trim};
use crate::table::VarTable;
use crate::types::VarType;

verus! {

/// The byte `;`.
pub const SEMICOLON: u8 = 0x3b;

/// What the analysis knows between two lines.
pub struct State {
    /// The parentheses that are open, oldest first.
    pub open: Seq<Place>,
    /// The variables declared so far, with their types.
    pub variables: Map<Seq<u8>, VarType>,
    /// The blocks that are open, outermost first.
    pub blocks: Seq<Frame>,
}

/// What the analysis knows before the first line: nothing.
pub open spec fn initial() -> State {
    State { open: Seq::empty(), variables: Map::empty(), blocks: Seq::empty() }
}

/// The warning for the trimmed line `t`, which has the number `number`:
/// one, over the whole of `t`, where `t` holds a semicolon.
pub open spec fn semicolon_lint(number: int, t: Seq<u8>) -> Seq<Finding> {
    if t.contains(SEMICOLON) {
        seq![Finding::semicolon(number, t.len() as int)]
    } else {
        Seq::empty()
    }
}

/// The error for the line `line`, which has the number `number`, where its
/// condition compares values of two different types: one, over the whole
/// line. The variables are those declared up to and on this line.
pub open spec fn condition_check(number: int, line: Seq<u8>, variables: Map<Seq<u8>, VarType>)
    -> Seq<Finding> {
    match mismatch(trim(line), variables) {
        Some((left, right)) => seq![
            Finding::type_mismatch(number, line.len() as int, left, right),
        ],
        None => Seq::empty(),
    }
}

/// The state after the line `line`, which has the number `number`, and the
/// findings of that line, in the order in which they are reported: each `)`
/// that closes nothing, the semicolon warning, the type mismatch of the
/// condition, and what the line does to the nesting of blocks.
pub open spec fn line_step(st: State, number: int, line: Seq<u8>) -> (State, Seq<Finding>) {
    let t = trim(line);
    let variables = declare(st.variables, t);
    let nesting = block_step(st.blocks, line_kind(t), number, indent(line));
    (
        State { open: open_after(st.open, number, line), variables, blocks: nesting.0 },
        unmatched_closes(st.open, number, line) + semicolon_lint(number, t) + condition_check(
            number,
            line,
            variables,
        ) + nesting.1,
    )
}

/// The state after all of `lines`, of which the first has the number
/// `number`, and their findings, line after line.
pub open spec fn scan(lines: Seq<Seq<u8>>, number: int, st: State) -> (State, Seq<Finding>)
    decreases lines.len(),
{
    if lines.len() == 0 {
        (st, Seq::empty())
    } else {
        let (next, found) = line_step(st, number, lines[0]);
        let (last, more) = scan(lines.drop_first(), number + 1, next);
        (last, found + more)
    }
}

/// What is reported once the last line has been read: each block that is
/// still open, then each parenthesis that is still open.
pub open spec fn closing(st: State) -> Seq<Finding> {
    unclosed_ifs(st.blocks) + unmatched_opens(st.open)
}

/// The findings of the document `doc`: those of its lines, from the first
/// line to the last, then those of the end of the document.
pub open spec fn analysis(doc: Seq<u8>) -> Seq<Finding> {
    let (last, found) = scan(lines(doc), 0, initial());
    found + closing(last)
}

/// The analysis between two lines of a document.
pub struct Analyzer {
    parens: ParenStack,
    variables: VarTable,
    blocks: BlockStack,
}

impl View for Analyzer {
    type V = State;

    closed spec fn view(&self) -> State {
        State { open: self.parens@, variables: self.variables@, blocks: self.blocks@ }
    }
}

impl Analyzer {
    /// The analysis before the first line.
    pub fn new() -> (analyzer: Analyzer)
        ensures
            analyzer@ == initial(),
    {
        Analyzer { parens: ParenStack::new(), variables: VarTable::new(), blocks: BlockStack::new() }
    }

    /// Reads the line `line`, which has the number `number`, and appends
    /// the line's diagnostics.
    pub fn read_line(&mut self, number: usize, line: &[u8], diagnostics: &mut Vec<Diagnostic>)
        ensures
            final(self)@ == line_step(old(self)@, number as int, line@).0,
            findings(final(diagnostics)@) == findings(old(diagnostics)@) + line_step(
                old(self)@,
                number as int,
                line@,
            ).1,
    {
        self.parens.scan(number, line, diagnostics);

        let lead = strip_start(line);
        let column = line.len() - lead.len();
        let t = strip_end(lead);

        let ghost held = diagnostics@;
        if find_byte(t, SEMICOLON) < t.len() {
            diagnostics.push(Diagnostic::semicolon(number, t.len()));
        }
        assert(findings(diagnostics@) =~= findings(held) + semicolon_lint(number as int, t@));

        record_declaration(&mut self.variables, t);

        let ghost held = diagnostics@;
        if let Some((left, right)) = check_condition(t, &self.variables) {
            diagnostics.push(Diagnostic::type_mismatch(number, line.len(), left, right));
        }
        assert(findings(diagnostics@) =~= findings(held) + condition_check(
            number as int,
            line@,
            self.variables@,
        ));

        let kind = classify(t);
        proof {
            if kind == LineKind::If {
                lemma_if_then();
            }
        }
        self.blocks.step(kind, number, column, diagnostics);
    }

    /// Appends the diagnostics of the end of the document.
    pub fn finish(&self, diagnostics: &mut Vec<Diagnostic>)
        ensures
            findings(final(diagnostics)@) == findings(old(diagnostics)@) + closing(self@),
    {
        self.blocks.report(diagnostics);
        self.parens.report(diagnostics);
    }
}

/// Analyses the document `content` and returns its diagnostics: those of
/// its lines, from the first line to the last, then one for each `if` that
/// is still open, then one for each `(` that is still open.
pub fn analyze_file(content: &str) -> (diagnostics: Vec<Diagnostic>)
    ensures
        findings(diagnostics@) == analysis(content.spec_bytes()),
{
    let doc = content.as_bytes();
    let text = split_lines(doc);
    let ghost all = lines(doc@);
    let mut diagnostics: Vec<Diagnostic> = Vec::new();
    let mut analyzer = Analyzer::new();
    let mut i: usize = 0;
    assert(all.skip(0) =~= all);
    while i < text.len()
        invariant
            i <= text.len(),
            line_views(text@) == all,
            scan(all, 0, initial()).0 == scan(all.skip(i as int), i as int, analyzer@).0,
            scan(all, 0, initial()).1 == findings(diagnostics@) + scan(
                all.skip(i as int),
                i as int,
                analyzer@,
            ).1,
        decreases text.len() - i,
    {
        let line = text[i];
        assert(all.skip(i as int).drop_first() =~= all.skip(i + 1));
        analyzer.read_line(i, line, &mut diagnostics);
        i += 1;
    }
    analyzer.finish(&mut diagnostics);
    diagnostics
}

} // verus!
