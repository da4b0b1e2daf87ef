//! Proved laws of the parser, stated over the line-level specification.
//!
//! A report is *well formed* from a position when its lines obey the block
//! grammar the scanner expects: each header line is followed by a detail
//! line that decodes, a body of plain lines, and at most one close marker
//! before the next header, the plan-summary line, or the end of input. The
//! grammar tolerates an unclosed trailing block, a missing plan-summary
//! line, and a header that follows a header whose block never closed.

use vstd::prelude::*;
use crate::action::{ActionView, ParseError};
use crate::decode::spec_decode;
use crate::scan::{
    actions_start_line, close_line, find_header, find_marker, header_line, marker_line,
    no_changes_line, plan_line, spec_parse, spec_scan, with_line,
};

verus! {

/// Well-formed from a position where a block may start: the end of input,
/// the plan-summary line, or a header whose detail line decodes and whose
/// body is well formed.
pub open spec fn wf_tail(lines: Seq<Seq<char>>, i: int) -> bool
    decreases lines.len() - i, 0int,
{
    if i < 0 {
        false
    } else if i >= lines.len() {
        true
    } else if header_line(lines[i]) {
        i + 1 < lines.len() && spec_decode(lines[i], lines[i + 1]) is Ok && wf_body(lines, i + 2)
    } else if plan_line(lines[i]) {
        true
    } else {
        false
    }
}

/// Well-formed from a position inside a block's body: plain lines up to a
/// close marker and then a well-formed gap, or up to a header (the block is
/// then dropped unclosed), the plan-summary line, or the end of input.
pub open spec fn wf_body(lines: Seq<Seq<char>>, i: int) -> bool
    decreases lines.len() - i, 1int,
{
    if i < 0 {
        false
    } else if i >= lines.len() {
        true
    } else if header_line(lines[i]) {
        wf_tail(lines, i)
    } else if plan_line(lines[i]) {
        true
    } else if close_line(lines[i]) {
        wf_gap(lines, i + 1)
    } else {
        wf_body(lines, i + 1)
    }
}

/// Well-formed from a position after a block's close marker: plain lines,
/// none of them a second close marker, up to the next header, the
/// plan-summary line, or the end of input.
pub open spec fn wf_gap(lines: Seq<Seq<char>>, i: int) -> bool
    decreases lines.len() - i, 1int,
{
    if i < 0 {
        false
    } else if i >= lines.len() {
        true
    } else if header_line(lines[i]) {
        wf_tail(lines, i)
    } else if plan_line(lines[i]) {
        true
    } else if close_line(lines[i]) {
        false
    } else {
        wf_gap(lines, i + 1)
    }
}

/// The record `cur` with its content replaced by `c`.
pub open spec fn with_content(cur: ActionView, c: Seq<Seq<char>>) -> ActionView {
    ActionView { content: c, ..cur }
}

/// The records a well-formed report emits from a block-start position on.
pub open spec fn blocks_tail(lines: Seq<Seq<char>>, i: int) -> Seq<ActionView>
    decreases lines.len() - i, 0int,
{
    if i < 0 || i >= lines.len() {
        Seq::empty()
    } else if header_line(lines[i]) {
        if i + 1 < lines.len() {
            blocks_body(lines, i + 2, spec_decode(lines[i], lines[i + 1])->Ok_0)
        } else {
            Seq::empty()
        }
    } else {
        Seq::empty()
    }
}

/// The records emitted from a body position on, `cur` being the record in
/// progress: its body grows line by line, and the close marker emits it.
pub open spec fn blocks_body(lines: Seq<Seq<char>>, i: int, cur: ActionView) -> Seq<ActionView>
    decreases lines.len() - i, 1int,
{
    if i < 0 || i >= lines.len() {
        Seq::empty()
    } else if header_line(lines[i]) {
        blocks_tail(lines, i)
    } else if plan_line(lines[i]) {
        Seq::empty()
    } else if close_line(lines[i]) {
        seq![cur] + blocks_gap(lines, i + 1)
    } else {
        blocks_body(lines, i + 1, with_line(cur, lines[i]))
    }
}

/// The records emitted from a gap position on: none until the next header.
pub open spec fn blocks_gap(lines: Seq<Seq<char>>, i: int) -> Seq<ActionView>
    decreases lines.len() - i, 1int,
{
    if i < 0 || i >= lines.len() {
        Seq::empty()
    } else if header_line(lines[i]) {
        blocks_tail(lines, i)
    } else if plan_line(lines[i]) {
        Seq::empty()
    } else {
        blocks_gap(lines, i + 1)
    }
}

/// How many header lines from a block-start position on have their record
/// closed by a close marker.
pub open spec fn closed_tail(lines: Seq<Seq<char>>, i: int) -> nat
    decreases lines.len() - i, 0int,
{
    if i < 0 || i >= lines.len() {
        0
    } else if header_line(lines[i]) {
        if i + 1 < lines.len() {
            closed_body(lines, i + 2)
        } else {
            0
        }
    } else {
        0
    }
}

/// Closed-header count from a body position on: the close marker of the
/// block in progress counts its header as closed.
pub open spec fn closed_body(lines: Seq<Seq<char>>, i: int) -> nat
    decreases lines.len() - i, 1int,
{
    if i < 0 || i >= lines.len() {
        0
    } else if header_line(lines[i]) {
        closed_tail(lines, i)
    } else if plan_line(lines[i]) {
        0
    } else if close_line(lines[i]) {
        1 + closed_gap(lines, i + 1)
    } else {
        closed_body(lines, i + 1)
    }
}

/// Closed-header count from a gap position on.
pub open spec fn closed_gap(lines: Seq<Seq<char>>, i: int) -> nat
    decreases lines.len() - i, 1int,
{
    if i < 0 || i >= lines.len() {
        0
    } else if header_line(lines[i]) {
        closed_tail(lines, i)
    } else if plan_line(lines[i]) {
        0
    } else {
        closed_gap(lines, i + 1)
    }
}

/// The body of the block in progress reaches a close marker before a
/// header, the plan-summary line, or the end of input.
pub open spec fn body_closes(lines: Seq<Seq<char>>, i: int) -> bool
    decreases lines.len() - i,
{
    if i < 0 || i >= lines.len() || header_line(lines[i]) || plan_line(lines[i]) {
        false
    } else if close_line(lines[i]) {
        true
    } else {
        body_closes(lines, i + 1)
    }
}

/// The position of the close marker [`body_closes`] finds.
pub open spec fn body_close_at(lines: Seq<Seq<char>>, i: int) -> int
    decreases lines.len() - i,
{
    if i < 0 || i >= lines.len() || header_line(lines[i]) || plan_line(lines[i]) {
        i
    } else if close_line(lines[i]) {
        i
    } else {
        body_close_at(lines, i + 1)
    }
}

/// From a well-formed block-start position, the scan succeeds and appends
/// exactly the blocks of the grammar, whatever record was in progress.
proof fn lemma_scan_tail(lines: Seq<Seq<char>>, i: int, cur: ActionView, acc: Seq<ActionView>)
    requires
        wf_tail(lines, i),
    ensures
        spec_scan(lines, i, cur, acc) == Ok::<_, ParseError>(acc + blocks_tail(lines, i)),
    decreases lines.len() - i, 0int,
{
    if i >= lines.len() {
        assert(acc + blocks_tail(lines, i) =~= acc);
    } else if header_line(lines[i]) {
        let a = spec_decode(lines[i], lines[i + 1])->Ok_0;
        lemma_scan_body(lines, i + 2, a, acc);
    } else {
        assert(acc + blocks_tail(lines, i) =~= acc);
    }
}

/// From a well-formed body position, the scan succeeds and appends exactly
/// the blocks of the grammar.
proof fn lemma_scan_body(lines: Seq<Seq<char>>, i: int, cur: ActionView, acc: Seq<ActionView>)
    requires
        wf_body(lines, i),
    ensures
        spec_scan(lines, i, cur, acc) == Ok::<_, ParseError>(acc + blocks_body(lines, i, cur)),
    decreases lines.len() - i, 1int,
{
    if i >= lines.len() {
        assert(acc + blocks_body(lines, i, cur) =~= acc);
    } else if header_line(lines[i]) {
        lemma_scan_tail(lines, i, cur, acc);
    } else if plan_line(lines[i]) {
        assert(acc + blocks_body(lines, i, cur) =~= acc);
    } else if close_line(lines[i]) {
        lemma_scan_gap(lines, i + 1, cur, acc.push(cur));
        assert(acc.push(cur) + blocks_gap(lines, i + 1) =~= acc + (seq![cur] + blocks_gap(
            lines,
            i + 1,
        )));
    } else {
        lemma_scan_body(lines, i + 1, with_line(cur, lines[i]), acc);
    }
}

/// From a well-formed gap position, the scan succeeds and appends exactly
/// the blocks of the grammar; the stale record in progress never surfaces.
proof fn lemma_scan_gap(lines: Seq<Seq<char>>, i: int, cur: ActionView, acc: Seq<ActionView>)
    requires
        wf_gap(lines, i),
    ensures
        spec_scan(lines, i, cur, acc) == Ok::<_, ParseError>(acc + blocks_gap(lines, i)),
    decreases lines.len() - i, 1int,
{
    if i >= lines.len() {
        assert(acc + blocks_gap(lines, i) =~= acc);
    } else if header_line(lines[i]) {
        lemma_scan_tail(lines, i, cur, acc);
    } else if plan_line(lines[i]) {
        assert(acc + blocks_gap(lines, i) =~= acc);
    } else {
        lemma_scan_gap(lines, i + 1, with_line(cur, lines[i]), acc);
    }
}

/// The grammar's blocks are as many as its closed headers.
proof fn lemma_count_tail(lines: Seq<Seq<char>>, i: int)
    requires
        wf_tail(lines, i),
    ensures
        blocks_tail(lines, i).len() == closed_tail(lines, i),
    decreases lines.len() - i, 0int,
{
    if 0 <= i && i < lines.len() && header_line(lines[i]) {
        let a = spec_decode(lines[i], lines[i + 1])->Ok_0;
        lemma_count_body(lines, i + 2, a);
    }
}

/// Closed-header count matches emitted blocks, from a body position,
/// whatever record is in progress.
proof fn lemma_count_body(lines: Seq<Seq<char>>, i: int, cur: ActionView)
    requires
        wf_body(lines, i),
    ensures
        blocks_body(lines, i, cur).len() == closed_body(lines, i),
    decreases lines.len() - i, 1int,
{
    if i >= lines.len() {
    } else if header_line(lines[i]) {
        lemma_count_tail(lines, i);
    } else if plan_line(lines[i]) {
    } else if close_line(lines[i]) {
        lemma_count_gap(lines, i + 1);
    } else {
        lemma_count_body(lines, i + 1, with_line(cur, lines[i]));
    }
}

/// Closed-header count matches emitted blocks, from a gap position.
proof fn lemma_count_gap(lines: Seq<Seq<char>>, i: int)
    requires
        wf_gap(lines, i),
    ensures
        blocks_gap(lines, i).len() == closed_gap(lines, i),
    decreases lines.len() - i, 1int,
{
    if i >= lines.len() {
    } else if header_line(lines[i]) {
        lemma_count_tail(lines, i);
    } else if plan_line(lines[i]) {
    } else {
        lemma_count_gap(lines, i + 1);
    }
}

/// A marker found below `p` is the first one: nothing before `p` matches.
proof fn lemma_find_marker_first(lines: Seq<Seq<char>>, i: int, p: int)
    requires
        0 <= i <= p < lines.len(),
        marker_line(lines[p]),
        forall|j: int| i <= j < p ==> !marker_line(lines[j]),
    ensures
        find_marker(lines, i) == p,
    decreases p - i,
{
    if i < p {
        lemma_find_marker_first(lines, i + 1, p);
    }
}

/// Where the marker search lands, a marker stands (unless it ran out).
proof fn lemma_find_marker_hit(lines: Seq<Seq<char>>, i: int)
    requires
        0 <= i,
        find_marker(lines, i) < lines.len(),
    ensures
        i <= find_marker(lines, i),
        marker_line(lines[find_marker(lines, i)]),
    decreases lines.len() - i,
{
    if i < lines.len() && !marker_line(lines[i]) {
        lemma_find_marker_hit(lines, i + 1);
    }
}

/// Where the header search lands, a header stands (unless it ran out).
proof fn lemma_find_header_hit(lines: Seq<Seq<char>>, i: int)
    requires
        0 <= i,
        find_header(lines, i) < lines.len(),
    ensures
        i <= find_header(lines, i),
        header_line(lines[find_header(lines, i)]),
    decreases lines.len() - i,
{
    if i < lines.len() && !header_line(lines[i]) {
        lemma_find_header_hit(lines, i + 1);
    }
}

/// The two preamble markers never match one line: they open differently.
proof fn lemma_markers_disjoint(l: Seq<char>)
    ensures
        !(actions_start_line(l) && no_changes_line(l)),
{
    reveal_strlit("Terraform will perform the following actions:");
    reveal_strlit("No changes. Infrastructure is up-to-date.");
    if actions_start_line(l) && no_changes_line(l) {
        assert(l.subrange(0, 45)[0] == l[0]);
        assert(l.subrange(0, 41)[0] == l[0]);
        assert(false);
    }
}

/// A well-formed report parses without error into exactly the grammar's
/// blocks, one record per closed header, in input order. Well-formedness
/// tolerates a missing plan-summary line and an unclosed block cut off by
/// the end of input: the records closed by then are returned without error.
pub proof fn lemma_well_formed_report(lines: Seq<Seq<char>>)
    requires
        find_marker(lines, 0) < lines.len(),
        actions_start_line(lines[find_marker(lines, 0)]),
        find_header(lines, find_marker(lines, 0) + 1) < lines.len(),
        wf_tail(lines, find_header(lines, find_marker(lines, 0) + 1)),
    ensures
        spec_parse(lines) == Ok::<_, ParseError>(
            blocks_tail(lines, find_header(lines, find_marker(lines, 0) + 1)),
        ),
{
    let p = find_marker(lines, 0);
    let h = find_header(lines, p + 1);
    lemma_find_marker_hit(lines, 0);
    lemma_find_header_hit(lines, p + 1);
    let a = spec_decode(lines[h], lines[h + 1])->Ok_0;
    lemma_scan_body(lines, h + 2, a, Seq::empty());
    assert(Seq::<ActionView>::empty() + blocks_body(lines, h + 2, a) =~= blocks_tail(lines, h));
}

/// For a well-formed report, the number of emitted records equals the
/// number of header lines whose record was closed by a close marker before
/// the next header, the plan-summary line, or the end of input.
pub proof fn lemma_record_count(lines: Seq<Seq<char>>)
    requires
        find_marker(lines, 0) < lines.len(),
        actions_start_line(lines[find_marker(lines, 0)]),
        find_header(lines, find_marker(lines, 0) + 1) < lines.len(),
        wf_tail(lines, find_header(lines, find_marker(lines, 0) + 1)),
    ensures
        spec_parse(lines) is Ok,
        spec_parse(lines)->Ok_0.len() == closed_tail(
            lines,
            find_header(lines, find_marker(lines, 0) + 1),
        ),
{
    let h = find_header(lines, find_marker(lines, 0) + 1);
    lemma_well_formed_report(lines);
    lemma_count_tail(lines, h);
    assert(spec_parse(lines)->Ok_0 == blocks_tail(lines, h));
}

/// A report whose first preamble marker is the no-changes line parses to
/// zero records and no error, whatever content follows that line.
pub proof fn lemma_no_changes(lines: Seq<Seq<char>>, p: int)
    requires
        0 <= p < lines.len(),
        no_changes_line(lines[p]),
        forall|j: int| 0 <= j < p ==> !marker_line(lines[j]),
    ensures
        spec_parse(lines) == Ok::<_, ParseError>(Seq::<ActionView>::empty()),
{
    lemma_find_marker_first(lines, 0, p);
    lemma_markers_disjoint(lines[p]);
}

/// Round-trip: a block whose body closes emits one record whose content is
/// exactly the lines between the position the body starts at and its close
/// marker, none added, none dropped, in input order.
proof fn lemma_body_content(lines: Seq<Seq<char>>, i: int, cur: ActionView)
    requires
        body_closes(lines, i),
    ensures
        blocks_body(lines, i, cur).len() >= 1,
        blocks_body(lines, i, cur)[0] == with_content(
            cur,
            cur.content + lines.subrange(i, body_close_at(lines, i)),
        ),
    decreases lines.len() - i,
{
    if close_line(lines[i]) {
        assert(cur.content + lines.subrange(i, i) =~= cur.content);
        assert(blocks_body(lines, i, cur)[0] == cur);
        assert(with_content(cur, cur.content + lines.subrange(i, i)) =~= cur);
    } else {
        let c = body_close_at(lines, i + 1);
        lemma_body_content(lines, i + 1, with_line(cur, lines[i]));
        assert(cur.content.push(lines[i]) + lines.subrange(i + 1, c) =~= cur.content
            + lines.subrange(i, c)) by {
            assert(body_closes(lines, i + 1));
            lemma_body_close_at_bounds(lines, i + 1);
        }
        assert(with_content(with_line(cur, lines[i]), cur.content.push(lines[i]) + lines.subrange(
            i + 1,
            c,
        )) =~= with_content(cur, cur.content + lines.subrange(i, c)));
    }
}

/// The close marker a closing body reaches lies within the input.
proof fn lemma_body_close_at_bounds(lines: Seq<Seq<char>>, i: int)
    requires
        body_closes(lines, i),
    ensures
        i <= body_close_at(lines, i) < lines.len(),
        close_line(lines[body_close_at(lines, i)]),
    decreases lines.len() - i,
{
    if !close_line(lines[i]) {
        lemma_body_close_at_bounds(lines, i + 1);
    }
}

/// Round-trip at a block's header: the record the block emits carries the
/// decoded fields of its header and detail lines, and as content exactly
/// the raw lines between the detail line and the close marker.
pub proof fn lemma_block_round_trip(lines: Seq<Seq<char>>, h: int)
    requires
        0 <= h < lines.len(),
        header_line(lines[h]),
        h + 1 < lines.len(),
        spec_decode(lines[h], lines[h + 1]) is Ok,
        body_closes(lines, h + 2),
    ensures
        blocks_tail(lines, h).len() >= 1,
        blocks_tail(lines, h)[0] == with_content(
            spec_decode(lines[h], lines[h + 1])->Ok_0,
            lines.subrange(h + 2, body_close_at(lines, h + 2)),
        ),
{
    let a = spec_decode(lines[h], lines[h + 1])->Ok_0;
    lemma_body_content(lines, h + 2, a);
    assert(a.content + lines.subrange(h + 2, body_close_at(lines, h + 2)) =~= lines.subrange(
        h + 2,
        body_close_at(lines, h + 2),
    ));
}

/// A header line whose block never closed, followed by another header: the
/// first decoded record is dropped silently. The scan from the first header
/// equals the scan from past the second header's detail line, with the
/// second record in progress and nothing appended in between.
pub proof fn lemma_header_drops_unclosed(
    lines: Seq<Seq<char>>,
    i: int,
    cur: ActionView,
    acc: Seq<ActionView>,
)
    requires
        0 <= i,
        i + 3 < lines.len(),
        header_line(lines[i]),
        spec_decode(lines[i], lines[i + 1]) is Ok,
        header_line(lines[i + 2]),
        spec_decode(lines[i + 2], lines[i + 3]) is Ok,
    ensures
        spec_scan(lines, i, cur, acc) == spec_scan(
            lines,
            i + 4,
            spec_decode(lines[i + 2], lines[i + 3])->Ok_0,
            acc,
        ),
{
    let a1 = spec_decode(lines[i], lines[i + 1])->Ok_0;
    let a2 = spec_decode(lines[i + 2], lines[i + 3])->Ok_0;
    assert(spec_scan(lines, i, cur, acc) == spec_scan(lines, i + 2, a1, acc));
    assert(spec_scan(lines, i + 2, a1, acc) == spec_scan(lines, i + 4, a2, acc));
}

} // verus!
