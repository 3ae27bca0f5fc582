//! Nesting of `if` blocks.

use vstd::prelude::*;
use vstd::string::StringSliceAdditionalSpecFns;
use crate::bytes::{contains, equal, has_prefix, includes, starts_with};
use crate::diagnostic::{findings, Diagnostic, Finding};

verus! {

/// A kind of block, with what is known of an open block of that kind.
#[derive(Clone, Copy, Debug, PartialEq, Eq, Structural)]
pub enum Block {
    /// An `if`; `has_else` says whether its `else` has been seen.
    If { has_else: bool },
}

/// An open block: where it starts, and its kind.
#[derive(Clone, Copy, Debug, PartialEq, Eq, Structural)]
pub struct BlockFrame {
    pub start_line: usize,
    pub start_column: usize,
    pub kind: Block,
}

/// The mathematical value of a [`BlockFrame`].
pub struct Frame {
    pub line: int,
    pub column: int,
    pub kind: Block,
}

impl View for BlockFrame {
    type V = Frame;

    open spec fn view(&self) -> Frame {
        Frame { line: self.start_line as int, column: self.start_column as int, kind: self.kind }
    }
}

/// What a line means to the nesting of blocks.
#[derive(Clone, Copy, Debug, PartialEq, Eq, Structural)]
pub enum LineKind {
    /// The line opens an `if`.
    If,
    /// The line is an `else`.
    Else,
    /// The line is an `end`.
    End,
    /// The line neither opens nor closes anything.
    Other,
}

/// What the trimmed line `t` means to the nesting of blocks: it opens an
/// `if` where it begins with `if ` and holds ` then`; it is an `else` or an
/// `end` where it is exactly that word.
pub open spec fn line_kind(t: Seq<u8>) -> LineKind {
    if starts_with(t, "if ".spec_bytes()) && contains(t, " then".spec_bytes()) {
        LineKind::If
    } else if t == "else".spec_bytes() {
        LineKind::Else
    } else if t == "end".spec_bytes() {
        LineKind::End
    } else {
        LineKind::Other
    }
}

/// The open blocks after a line of the kind `kind`, which has the number
/// `line` and whose content starts at `column`, and what is found on it.
///
/// An `if` opens a block. An `else` marks the innermost block as having its
/// `else`; it is reported where that block has one already, and where no
/// block is open. An `end` closes the innermost block, and is reported
/// where no block is open.
pub open spec fn block_step(open: Seq<Frame>, kind: LineKind, line: int, column: int) -> (
    Seq<Frame>,
    Seq<Finding>,
) {
    match kind {
        LineKind::If => (
            open.push(Frame { line, column, kind: Block::If { has_else: false } }),
            Seq::empty(),
        ),
        LineKind::Else => if open.len() == 0 {
            (open, seq![Finding::orphan_else(line)])
        } else if open.last().kind == (Block::If { has_else: true }) {
            (open, seq![Finding::duplicate_else(line)])
        } else {
            let top = open.last();
            (
                open.drop_last().push(
                    Frame { line: top.line, column: top.column, kind: Block::If { has_else: true } },
                ),
                Seq::empty(),
            )
        },
        LineKind::End => if open.len() == 0 {
            (open, seq![Finding::orphan_end(line)])
        } else {
            (open.drop_last(), Seq::empty())
        },
        LineKind::Other => (open, Seq::empty()),
    }
}

/// One finding for each block that is still open, oldest first.
pub open spec fn unclosed_ifs(open: Seq<Frame>) -> Seq<Finding> {
    open.map_values(|f: Frame| Finding::unclosed_if(f.line, f.column))
}

/// What the trimmed line `t` means to the nesting of blocks.
pub fn classify(t: &[u8]) -> (kind: LineKind)
    ensures
        kind == line_kind(t@),
{
    if has_prefix(t, "if ".as_bytes()) && includes(t, " then".as_bytes()) {
        LineKind::If
    } else if equal(t, "else".as_bytes()) {
        LineKind::Else
    } else if equal(t, "end".as_bytes()) {
        LineKind::End
    } else {
        LineKind::Other
    }
}

/// The blocks that are open, outermost first.
pub struct BlockStack {
    frames: Vec<BlockFrame>,
}

impl View for BlockStack {
    type V = Seq<Frame>;

    closed spec fn view(&self) -> Seq<Frame> {
        self.frames@.map_values(|f: BlockFrame| f@)
    }
}

impl BlockStack {
    /// The word `if` stands inside its line, so the column after it exists.
    #[verifier::type_invariant]
    spec fn fits(&self) -> bool {
        forall|k: int|
            0 <= k < self.frames.len() ==> (#[trigger] self.frames[k]).start_column + 2
                <= usize::MAX
    }

    /// No block is open.
    pub fn new() -> (stack: BlockStack)
        ensures
            stack@ == Seq::<Frame>::empty(),
    {
        let stack = BlockStack { frames: Vec::new() };
        stack
    }

    /// Takes a line of the kind `kind`, which has the number `line` and
    /// whose content starts at `column`: leaves on the stack the blocks that
    /// are open after it, and appends the diagnostic for it, if there is
    /// one.
    pub fn step(
        &mut self,
        kind: LineKind,
        line: usize,
        column: usize,
        diagnostics: &mut Vec<Diagnostic>,
    )
        requires
            kind == LineKind::If ==> column + 2 <= usize::MAX,
        ensures
            final(self)@ == block_step(old(self)@, kind, line as int, column as int).0,
            findings(final(diagnostics)@) == findings(old(diagnostics)@) + block_step(
                old(self)@,
                kind,
                line as int,
                column as int,
            ).1,
    {
        let mut taken = BlockStack::new();
        core::mem::swap(self, &mut taken);
        proof {
            use_type_invariant(&taken);
        }
        let mut frames = taken.frames;
        let depth = frames.len();
        match kind {
            LineKind::If => {
                frames.push(
                    BlockFrame {
                        start_line: line,
                        start_column: column,
                        kind: Block::If { has_else: false },
                    },
                );
            },
            LineKind::Else => {
                if depth == 0 {
                    diagnostics.push(Diagnostic::orphan_else(line));
                } else {
                    let top = frames[depth - 1];
                    match top.kind {
                        Block::If { has_else: true } => {
                            diagnostics.push(Diagnostic::duplicate_else(line));
                        },
                        Block::If { has_else: false } => {
                            frames.set(
                                depth - 1,
                                BlockFrame {
                                    start_line: top.start_line,
                                    start_column: top.start_column,
                                    kind: Block::If { has_else: true },
                                },
                            );
                        },
                    }
                }
            },
            LineKind::End => {
                if depth == 0 {
                    diagnostics.push(Diagnostic::orphan_end(line));
                } else {
                    frames.pop();
                }
            },
            LineKind::Other => {},
        }
        *self = BlockStack { frames };
    }

    /// Appends one diagnostic for each block that is still open, oldest
    /// first.
    pub fn report(&self, diagnostics: &mut Vec<Diagnostic>)
        ensures
            findings(final(diagnostics)@) == findings(old(diagnostics)@) + unclosed_ifs(self@),
    {
        proof {
            use_type_invariant(self);
        }
        let ghost reported = findings(diagnostics@);
        let mut k: usize = 0;
        while k < self.frames.len()
            invariant
                k <= self.frames.len(),
                self.fits(),
                findings(diagnostics@) == reported + unclosed_ifs(self@.take(k as int)),
            decreases self.frames.len() - k,
        {
            let ghost held = diagnostics@;
            let frame = self.frames[k];
            let d = Diagnostic::unclosed_if(frame.start_line, frame.start_column);
            diagnostics.push(d);
            assert(findings(diagnostics@) =~= findings(held).push(d@));
            k += 1;
        }
    }
}

} // verus!
