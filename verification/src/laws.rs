//! What holds of every analysis.

use vstd::prelude::*;
use crate::analysis::{analysis, condition_check, initial, line_step, scan, semicolon_lint, State};
use crate::blocks::{block_step, line_kind, unclosed_ifs, Block, Frame, LineKind};
use crate::bytes::{contains, lemma_offset_of, offset_of};
use crate::condition::{condition, mismatch, operands, operator_of, Comparison};
use crate::diagnostic::{Finding, Place, Severity};
use crate::infer::{declare, inferred_type};
use crate::lines::{lines, LINE_FEED};
use crate::parens::{paren_scan, unmatched_closes, unmatched_opens, CLOSE_PAREN, OPEN_PAREN};
use crate::space::{indent, trim};
use crate::types::VarType;

verus! {

/// Analysing the same text twice gives the same diagnostics, in the same
/// order.
pub proof fn lemma_analysis_is_repeatable(doc: Seq<u8>, first: Seq<Finding>, second: Seq<Finding>)
    requires
        first == analysis(doc),
        second == analysis(doc),
    ensures
        first == second,
{
}

/// How many more `(` than `)` stand in `s`.
pub open spec fn paren_depth(s: Seq<u8>) -> int
    decreases s.len(),
{
    if s.len() == 0 {
        0
    } else if s.last() == OPEN_PAREN {
        paren_depth(s.drop_last()) + 1
    } else if s.last() == CLOSE_PAREN {
        paren_depth(s.drop_last()) - 1
    } else {
        paren_depth(s.drop_last())
    }
}

/// The parentheses of `s` are properly nested: `s` holds as many `(` as
/// `)`, and no part of `s` from its start on holds more `)` than `(`.
pub open spec fn properly_nested(s: Seq<u8>) -> bool {
    &&& paren_depth(s) == 0
    &&& forall|k: int| 0 <= k <= s.len() ==> paren_depth(#[trigger] s.take(k)) >= 0
}

/// The finding is one of the two about a parenthesis without its partner.
pub open spec fn is_paren_finding(f: Finding) -> bool {
    f.message == "Unmatched ')'"@ || f.message == "Unmatched '('"@
}

/// None of the findings is about a parenthesis.
pub open spec fn no_paren_finding(found: Seq<Finding>) -> bool {
    forall|i: int| 0 <= i < found.len() ==> !is_paren_finding(#[trigger] found[i])
}

/// The depth of two texts in a row is the sum of their depths.
pub proof fn lemma_paren_depth_add(a: Seq<u8>, b: Seq<u8>)
    ensures
        paren_depth(a + b) == paren_depth(a) + paren_depth(b),
    decreases b.len(),
{
    if b.len() > 0 {
        lemma_paren_depth_add(a, b.drop_last());
        assert((a + b).drop_last() =~= a + b.drop_last());
    }
}

/// Where no `)` of a line closes more than is open, the line has no
/// finding, and leaves open what its depth says.
proof fn lemma_paren_scan_nested(open: Seq<Place>, line: int, text: Seq<u8>, n: int)
    requires
        0 <= n <= text.len(),
        forall|m: int| 0 <= m <= n ==> open.len() + paren_depth(#[trigger] text.take(m)) >= 0,
    ensures
        paren_scan(open, line, text, n).1 == Seq::<Finding>::empty(),
        paren_scan(open, line, text, n).0.len() == open.len() + paren_depth(text.take(n)),
    decreases n,
{
    if n > 0 {
        lemma_paren_scan_nested(open, line, text, n - 1);
        assert(text.take(n).drop_last() =~= text.take(n - 1));
    }
}

/// The findings that are not about parentheses say something else.
proof fn lemma_other_messages()
    ensures
        forall|l: int, n: int| !is_paren_finding(#[trigger] Finding::semicolon(l, n)),
        forall|l: int, n: int, a: VarType, b: VarType|
            !is_paren_finding(#[trigger] Finding::type_mismatch(l, n, a, b)),
        forall|l: int| !is_paren_finding(#[trigger] Finding::duplicate_else(l)),
        forall|l: int| !is_paren_finding(#[trigger] Finding::orphan_else(l)),
        forall|l: int| !is_paren_finding(#[trigger] Finding::orphan_end(l)),
        forall|l: int, c: int| !is_paren_finding(#[trigger] Finding::unclosed_if(l, c)),
{
    reveal_strlit("Unmatched ')'");
    reveal_strlit("Unmatched '('");
    reveal_strlit("Semicolons are unnecessary in Dice");
    reveal_strlit("Type mismatch in condition: cannot compare ");
    reveal_strlit("Multiple 'else' blocks for one 'if'");
    reveal_strlit("Unmatched 'else' with no open 'if'");
    reveal_strlit("Unmatched 'end' with no corresponding 'if'");
    reveal_strlit("Unclosed 'if' block, missing 'end'");
    let close = "Unmatched ')'"@;
    let open = "Unmatched '('"@;
    assert("Semicolons are unnecessary in Dice"@[0] == 'S');
    assert("Multiple 'else' blocks for one 'if'"@[0] == 'M');
    assert("Unmatched 'else' with no open 'if'"@[11] == 'e');
    assert("Unmatched 'end' with no corresponding 'if'"@[11] == 'e');
    assert("Unclosed 'if' block, missing 'end'"@[2] == 'c');
    assert forall|l: int, n: int, a: VarType, b: VarType|
        !is_paren_finding(#[trigger] Finding::type_mismatch(l, n, a, b)) by {
        let m = Finding::type_mismatch(l, n, a, b).message;
        assert(m[0] == 'T');
    }
}

/// A line's findings, but for those of its parentheses, are not about
/// parentheses.
proof fn lemma_line_others(st: State, number: int, line: Seq<u8>)
    ensures
        no_paren_finding(semicolon_lint(number, trim(line))),
        forall|variables: Map<Seq<u8>, VarType>|
            no_paren_finding(#[trigger] condition_check(number, line, variables)),
        forall|kind: LineKind, column: int|
            no_paren_finding((#[trigger] block_step(st.blocks, kind, number, column)).1),
{
    lemma_other_messages();
}

/// The findings of open blocks are not about parentheses.
proof fn lemma_unclosed_ifs_others(open: Seq<Frame>)
    ensures
        no_paren_finding(unclosed_ifs(open)),
{
    lemma_other_messages();
}

/// Scanning a text whose `)` never close more than is open reports no
/// parenthesis, and leaves open what the depth of the text says.
proof fn lemma_scan_nested(doc: Seq<u8>, number: int, st: State)
    requires
        forall|k: int| 0 <= k <= doc.len() ==> st.open.len() + paren_depth(#[trigger] doc.take(k))
            >= 0,
    ensures
        no_paren_finding(scan(lines(doc), number, st).1),
        scan(lines(doc), number, st).0.open.len() == st.open.len() + paren_depth(doc),
    decreases doc.len(),
{
    if doc.len() > 0 {
        lemma_offset_of(doc, LINE_FEED);
        let k = offset_of(doc, LINE_FEED) as int;
        let all = lines(doc);
        let line = all[0];
        let next = line_step(st, number, line).0;
        // The first line is the start of the document, up to some index.
        let width = line.len() as int;
        assert(line =~= doc.take(width));
        assert forall|m: int| 0 <= m <= width implies st.open.len() + paren_depth(
            #[trigger] line.take(m),
        ) >= 0 by {
            assert(line.take(m) =~= doc.take(m));
        }
        lemma_paren_scan_nested(st.open, number, line, width);
        assert(line.take(width) =~= line);
        lemma_line_others(st, number, line);
        if k >= doc.len() {
            assert(scan(all.drop_first(), number + 1, next) == (next, Seq::<Finding>::empty()));
        } else {
            let rest = doc.skip(k + 1);
            let used = doc.take(k + 1);
            assert(all.drop_first() =~= lines(rest));
            // What ends the line, a line feed and maybe a carriage return
            // before it, holds no parenthesis.
            assert(paren_depth(used) == paren_depth(line)) by {
                assert(used.drop_last() =~= doc.take(k));
                assert(width < k ==> doc.take(k).drop_last() =~= line);
            }
            assert forall|j: int| 0 <= j <= rest.len() implies next.open.len() + paren_depth(
                #[trigger] rest.take(j),
            ) >= 0 by {
                assert(doc.take(k + 1 + j) =~= used + rest.take(j));
                lemma_paren_depth_add(used, rest.take(j));
            }
            lemma_scan_nested(rest, number + 1, next);
            assert(doc =~= used + rest);
            lemma_paren_depth_add(used, rest);
        }
    }
}

/// Where the parentheses of a text are properly nested, its analysis holds
/// no finding about a parenthesis.
pub proof fn lemma_nested_parens_are_silent(doc: Seq<u8>)
    requires
        properly_nested(doc),
    ensures
        no_paren_finding(analysis(doc)),
{
    lemma_scan_nested(doc, 0, initial());
    lemma_unclosed_ifs_others(scan(lines(doc), 0, initial()).0.blocks);
}

/// The warnings among `found`, in the same order.
pub open spec fn warnings_of(found: Seq<Finding>) -> Seq<Finding> {
    found.filter(|f: Finding| f.severity == Severity::Warning)
}

/// One semicolon warning for each of `lines` that holds a semicolon, from
/// the first line, which has the number `number`, to the last. The warning
/// spans the trimmed line.
pub open spec fn semicolon_warnings(lines: Seq<Seq<u8>>, number: int) -> Seq<Finding>
    decreases lines.len(),
{
    if lines.len() == 0 {
        Seq::empty()
    } else {
        semicolon_lint(number, trim(lines[0])) + semicolon_warnings(
            lines.drop_first(),
            number + 1,
        )
    }
}

/// Every one of `found` is an error.
pub open spec fn all_errors(found: Seq<Finding>) -> bool {
    forall|i: int| 0 <= i < found.len() ==> (#[trigger] found[i]).severity == Severity::Error
}

/// Among errors there is no warning.
proof fn lemma_no_warning_among_errors(found: Seq<Finding>)
    requires
        all_errors(found),
    ensures
        warnings_of(found) == Seq::<Finding>::empty(),
    decreases found.len(),
{
    reveal(Seq::filter);
    if found.len() > 0 {
        assert(all_errors(found.drop_last()));
        lemma_no_warning_among_errors(found.drop_last());
    }
}

/// What a line's parentheses report are errors.
proof fn lemma_closes_are_errors(open: Seq<Place>, line: int, text: Seq<u8>, n: int)
    ensures
        all_errors(paren_scan(open, line, text, n).1),
    decreases n,
{
    if n > 0 {
        lemma_closes_are_errors(open, line, text, n - 1);
    }
}

/// The warnings of one line are its semicolon warning, where it has one.
proof fn lemma_line_warnings(st: State, number: int, line: Seq<u8>)
    ensures
        warnings_of(line_step(st, number, line).1) == semicolon_lint(number, trim(line)),
{
    let t = trim(line);
    let variables = declare(st.variables, t);
    let closes = unmatched_closes(st.open, number, line);
    let lint = semicolon_lint(number, t);
    let check = condition_check(number, line, variables);
    let nesting = block_step(st.blocks, line_kind(t), number, indent(line)).1;
    lemma_closes_are_errors(st.open, number, line, line.len() as int);
    lemma_no_warning_among_errors(closes);
    lemma_no_warning_among_errors(check);
    lemma_no_warning_among_errors(nesting);
    assert(warnings_of(lint) == lint) by {
        reveal_with_fuel(Seq::filter, 2);
    }
    Seq::filter_distributes_over_add(closes, lint, |f: Finding| f.severity == Severity::Warning);
    Seq::filter_distributes_over_add(
        closes + lint,
        check,
        |f: Finding| f.severity == Severity::Warning,
    );
    Seq::filter_distributes_over_add(
        closes + lint + check,
        nesting,
        |f: Finding| f.severity == Severity::Warning,
    );
}

/// The warnings of a scan are the semicolon warnings of its lines.
proof fn lemma_scan_warnings(lines: Seq<Seq<u8>>, number: int, st: State)
    ensures
        warnings_of(scan(lines, number, st).1) == semicolon_warnings(lines, number),
    decreases lines.len(),
{
    if lines.len() == 0 {
        lemma_no_warning_among_errors(Seq::<Finding>::empty());
    } else {
        let (next, found) = line_step(st, number, lines[0]);
        let more = scan(lines.drop_first(), number + 1, next).1;
        lemma_line_warnings(st, number, lines[0]);
        lemma_scan_warnings(lines.drop_first(), number + 1, next);
        Seq::filter_distributes_over_add(found, more, |f: Finding| f.severity == Severity::Warning);
    }
}

/// The warnings of an analysis are exactly these: for each line of the
/// document that holds a semicolon one warning, which spans the trimmed
/// line, however many semicolons the line holds; they come in the order of
/// the lines.
pub proof fn lemma_one_warning_for_each_line_with_a_semicolon(doc: Seq<u8>)
    ensures
        warnings_of(analysis(doc)) == semicolon_warnings(lines(doc), 0),
{
    let (last, found) = scan(lines(doc), 0, initial());
    lemma_scan_warnings(lines(doc), 0, initial());
    lemma_no_warning_among_errors(unclosed_ifs(last.blocks));
    lemma_no_warning_among_errors(unmatched_opens(last.open));
    Seq::filter_distributes_over_add(
        found,
        unclosed_ifs(last.blocks),
        |f: Finding| f.severity == Severity::Warning,
    );
    Seq::filter_distributes_over_add(
        found + unclosed_ifs(last.blocks),
        unmatched_opens(last.open),
        |f: Finding| f.severity == Severity::Warning,
    );
}

/// A block that has its `else` keeps it for as long as the block is open:
/// a line changes nothing of the blocks below the innermost one, and
/// nothing of the innermost one but to close it or to give it its `else`.
pub proof fn lemma_else_is_kept(open: Seq<Frame>, kind: LineKind, line: int, column: int, k: int)
    requires
        0 <= k < open.len(),
        k < block_step(open, kind, line, column).0.len(),
    ensures
        block_step(open, kind, line, column).0[k].line == open[k].line,
        block_step(open, kind, line, column).0[k].column == open[k].column,
        open[k].kind == (Block::If { has_else: true }) ==> block_step(
            open,
            kind,
            line,
            column,
        ).0[k].kind == (Block::If { has_else: true }),
        k < open.len() - 1 ==> block_step(open, kind, line, column).0[k] == open[k],
{
}

/// Where one operand of a line's condition has no type, the condition is
/// not reported: what is not known is no mismatch.
pub proof fn lemma_unknown_type_is_no_mismatch(
    number: int,
    line: Seq<u8>,
    variables: Map<Seq<u8>, VarType>,
    cond: Seq<u8>,
    op: Comparison,
)
    requires
        condition(trim(line)) == Some(cond),
        operator_of(cond) == Some(op),
        inferred_type(operands(cond, op).0, variables) is None || inferred_type(
            operands(cond, op).1,
            variables,
        ) is None,
    ensures
        mismatch(trim(line), variables) is None,
        condition_check(number, line, variables) == Seq::<Finding>::empty(),
{
}

/// A condition is split at a one-byte sign only where it holds neither
/// `>=` nor `<=`: wherever `>=` stands, the condition is split at `>=`.
pub proof fn lemma_two_byte_signs_come_first(cond: Seq<u8>)
    ensures
        contains(cond, Comparison::GreaterOrEqual.symbol()) ==> operator_of(cond) == Some(
            Comparison::GreaterOrEqual,
        ),
        operator_of(cond) == Some(Comparison::Greater) || operator_of(cond) == Some(
            Comparison::Less,
        ) ==> !contains(cond, Comparison::GreaterOrEqual.symbol()) && !contains(
            cond,
            Comparison::LessOrEqual.symbol(),
        ),
{
}

} // verus!
