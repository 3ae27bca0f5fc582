//! Matching parentheses.

use vstd::prelude::*;
use crate::diagnostic::{findings, Diagnostic, Finding, Place, Position};

verus! {

/// The byte `(`.
pub const OPEN_PAREN: u8 = 0x28;

/// The byte `)`.
pub const CLOSE_PAREN: u8 = 0x29;

/// The open parentheses and the findings after the first `n` bytes of the
/// line `text`, which has the number `line`, where `open` were the open
/// parentheses before the line. A `(` is put on the stack with its place; a
/// `)` takes the last one off, or is reported where none is open.
pub open spec fn paren_scan(open: Seq<Place>, line: int, text: Seq<u8>, n: int) -> (
    Seq<Place>,
    Seq<Finding>,
)
    decreases n,
{
    if n <= 0 {
        (open, Seq::empty())
    } else {
        let (stack, found) = paren_scan(open, line, text, n - 1);
        if text[n - 1] == OPEN_PAREN {
            (stack.push(Place { line, column: n - 1 }), found)
        } else if text[n - 1] == CLOSE_PAREN {
            if stack.len() > 0 {
                (stack.drop_last(), found)
            } else {
                (stack, found.push(Finding::unmatched_close(line, n - 1)))
            }
        } else {
            (stack, found)
        }
    }
}

/// The open parentheses after the whole line.
pub open spec fn open_after(open: Seq<Place>, line: int, text: Seq<u8>) -> Seq<Place> {
    paren_scan(open, line, text, text.len() as int).0
}

/// The findings of the whole line: one for each `)` that closes nothing,
/// from left to right.
pub open spec fn unmatched_closes(open: Seq<Place>, line: int, text: Seq<u8>) -> Seq<Finding> {
    paren_scan(open, line, text, text.len() as int).1
}

/// One finding for each parenthesis that is still open, oldest first.
pub open spec fn unmatched_opens(open: Seq<Place>) -> Seq<Finding> {
    open.map_values(|p: Place| Finding::unmatched_open(p.line, p.column))
}

/// The parentheses that are open, oldest first.
pub struct ParenStack {
    open: Vec<Position>,
}

impl View for ParenStack {
    type V = Seq<Place>;

    closed spec fn view(&self) -> Seq<Place> {
        self.open@.map_values(|p: Position| p@)
    }
}

impl ParenStack {
    /// A parenthesis stands inside its line, so the column after it exists.
    #[verifier::type_invariant]
    spec fn fits(&self) -> bool {
        forall|k: int| 0 <= k < self.open.len() ==> (#[trigger] self.open[k]).column < usize::MAX
    }

    /// No parenthesis is open.
    pub fn new() -> (stack: ParenStack)
        ensures
            stack@ == Seq::<Place>::empty(),
    {
        let stack = ParenStack { open: Vec::new() };
        stack
    }

    /// Reads the line `text`, which has the number `line`: leaves on the
    /// stack the parentheses that are open after it, and appends one
    /// diagnostic for each `)` that closes nothing.
    pub fn scan(&mut self, line: usize, text: &[u8], diagnostics: &mut Vec<Diagnostic>)
        ensures
            final(self)@ == open_after(old(self)@, line as int, text@),
            findings(final(diagnostics)@) == findings(old(diagnostics)@) + unmatched_closes(
                old(self)@,
                line as int,
                text@,
            ),
    {
        let ghost before = self@;
        let ghost reported = findings(diagnostics@);
        let mut taken = ParenStack::new();
        core::mem::swap(self, &mut taken);
        proof {
            use_type_invariant(&taken);
        }
        let mut open = taken.open;
        let mut j: usize = 0;
        while j < text.len()
            invariant
                j <= text.len(),
                forall|k: int| 0 <= k < open.len() ==> (#[trigger] open[k]).column < usize::MAX,
                open@.map_values(|p: Position| p@) == paren_scan(
                    before,
                    line as int,
                    text@,
                    j as int,
                ).0,
                findings(diagnostics@) == reported + paren_scan(
                    before,
                    line as int,
                    text@,
                    j as int,
                ).1,
            decreases text.len() - j,
        {
            let ghost held = diagnostics@;
            if text[j] == OPEN_PAREN {
                open.push(Position { line, column: j });
            } else if text[j] == CLOSE_PAREN {
                if open.len() > 0 {
                    open.pop();
                } else {
                    let d = Diagnostic::unmatched_close(line, j);
                    diagnostics.push(d);
                    assert(findings(diagnostics@) =~= findings(held).push(d@));
                }
            }
            j += 1;
        }
        *self = ParenStack { open };
    }

    /// Appends one diagnostic for each parenthesis that is still open,
    /// oldest first.
    pub fn report(&self, diagnostics: &mut Vec<Diagnostic>)
        ensures
            findings(final(diagnostics)@) == findings(old(diagnostics)@) + unmatched_opens(self@),
    {
        proof {
            use_type_invariant(self);
        }
        let ghost reported = findings(diagnostics@);
        let mut k: usize = 0;
        while k < self.open.len()
            invariant
                k <= self.open.len(),
                self.fits(),
                findings(diagnostics@) == reported + unmatched_opens(self@.take(k as int)),
            decreases self.open.len() - k,
        {
            let ghost held = diagnostics@;
            let place = self.open[k];
            let d = Diagnostic::unmatched_open(place.line, place.column);
            diagnostics.push(d);
            assert(findings(diagnostics@) =~= findings(held).push(d@));
            k += 1;
        }
    }
}

} // verus!
