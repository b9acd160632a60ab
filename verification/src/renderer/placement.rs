//! Which row below a line of source each of its annotations gets.

use crate::renderer::line_annotation::{
    ann_views, overlaps, overlaps_spec, LineAnn, LineAnnotation, };
use crate::renderer::order::{order_of, stable_order, Key};
use crate::text::{byte_count, byte_len, saturate};
use vstd::prelude::*;

verus! {

/// The keys that the annotations of a line are drawn in the order of: the
/// column where each starts, then the character.
pub open spec fn start_keys(anns: Seq<LineAnn>) -> Seq<Key> {
    Seq::new(anns.len(), |i: int| (anns[i].start.display, anns[i].start.char))
}

/// The annotations from right to left; those that start at the same place
/// keep their order.
pub open spec fn draw_order(anns: Seq<LineAnn>) -> Seq<usize> {
    stable_order(start_keys(anns), anns.len(), true)
}

/// The annotations from right to left; see [`draw_order`].
pub fn draw_order_of(anns: &Vec<LineAnnotation>) -> (order: Vec<usize>)
    ensures
        order@ == draw_order(ann_views(anns@)),
        order@.len() == anns@.len(),
        forall|i: int| 0 <= i < order@.len() ==> (#[trigger] order@[i]) < anns@.len(),
{
    let mut keys: Vec<Key> = Vec::new();
    let mut i: usize = 0;
    while i < anns.len()
        invariant
            i <= anns.len(),
            keys@ == start_keys(ann_views(anns@)).take(i as int),
        decreases anns.len() - i,
    {
        keys.push((anns[i].start.display, anns[i].start.char));
        assert(keys@ =~= start_keys(ann_views(anns@)).take(i + 1));
        i += 1;
    }
    assert(keys@ =~= start_keys(ann_views(anns@)));
    order_of(&keys, true)
}

/// Columns kept free after the column where `a` ends so that its label has room.
pub open spec fn label_pad(a: LineAnn) -> usize {
    match a.label {
        Some(label) => saturate(byte_len(label) as int).saturating_add(2),
        None => 0,
    }
}

fn label_pad_of(a: &LineAnnotation) -> (n: usize)
    ensures
        n == label_pad(a@),
{
    match &a.label {
        Some(label) => byte_count(label).saturating_add(2),
        None => 0,
    }
}

/// Whether the two annotations mark the same columns and characters.
pub open spec fn same_place(a: LineAnn, b: LineAnn) -> bool {
    a.start.display == b.start.display && a.start.char == b.start.char && a.end.display
        == b.end.display && a.end.char == b.end.char
}

/// Whether `ann`, drawn on the row in force, is in the way of `next`, which
/// is drawn after it: their labels would run into each other, or one of them
/// is the end of a bracket and needs its row.
pub open spec fn needs_new_row(next: LineAnn, ann: LineAnn, p: usize) -> bool {
    let l = label_pad(next);
    (overlaps_spec(next, ann, l) && ann.labelled() && next.labelled()) || (ann.bracket_end()
        && next.labelled()) || (ann.labelled() && next.bracket_end()) || (ann.bracket_end()
        && next.bracket_end()) || (overlaps_spec(next, ann, l) && (next.end.display
        < ann.end.display || (next.end.display == ann.end.display && next.end.char
        <= ann.end.char)) && next.labelled() && p == 0)
}

fn does_need_new_row(next: &LineAnnotation, ann: &LineAnnotation, p: usize) -> (b: bool)
    ensures
        b == needs_new_row(next@, ann@, p),
{
    let l = label_pad_of(next);
    (overlaps(next, ann, l) && ann.has_label() && next.has_label()) || (ann.takes_space()
        && next.has_label()) || (ann.has_label() && next.takes_space()) || (ann.takes_space()
        && next.takes_space()) || (overlaps(next, ann, l) && (next.end.display < ann.end.display
        || (next.end.display == ann.end.display && next.end.char <= ann.end.char))
        && next.has_label() && p == 0)
}

/// The first look at annotation `i` of the drawing order, from annotation
/// `j` on: which annotations are noted as overlapping, and the row of `i`.
/// A labelled annotation on the first row moves one row down when a later
/// annotation overlaps it, unless that one marks the same place without a label.
pub open spec fn first_pass(
    anns: Seq<LineAnn>,
    order: Seq<usize>,
    i: int,
    j: int,
    overlap: Seq<bool>,
    p: usize,
) -> (Seq<bool>, usize)
    decreases order.len() - j,
{
    if j >= order.len() || j < 0 {
        (overlap, p)
    } else {
        let ann = anns[order[i] as int];
        let next = anns[order[j] as int];
        let ov = overlaps_spec(next, ann, 0);
        let noted = if ov && j > 1 {
            overlap.update(i, true).update(j, true)
        } else {
            overlap
        };
        if ov && ann.labelled() && j > i && p == 0 && !(same_place(next, ann) && !next.labelled()) {
            (noted, p.saturating_add(1))
        } else {
            first_pass(anns, order, i, j + 1, noted, p)
        }
    }
}

/// The second look at annotation `i`, from annotation `j` on: the row for
/// the annotation after `i`.
pub open spec fn second_pass(anns: Seq<LineAnn>, order: Seq<usize>, i: int, j: int, p: usize) -> usize
    decreases order.len() - j,
{
    if j >= order.len() || j < 0 {
        p
    } else if j > i && needs_new_row(anns[order[j] as int], anns[order[i] as int], p) {
        p.saturating_add(1)
    } else {
        second_pass(anns, order, i, j + 1, p)
    }
}

/// The rows of the annotations of a line.
pub struct LabelRows {
    /// For each annotation in drawing order, whether another overlaps it.
    pub overlap: Seq<bool>,
    /// For each annotation in drawing order, its row: 0 is the row of the underline.
    pub position: Seq<usize>,
    /// The last row that is used.
    pub line_len: usize,
}

/// The rows of the annotations from annotation `i` of the drawing order on.
pub open spec fn positions_from(
    anns: Seq<LineAnn>,
    order: Seq<usize>,
    i: int,
    overlap: Seq<bool>,
    p: usize,
    position: Seq<usize>,
    line_len: usize,
) -> LabelRows
    decreases order.len() - i,
{
    if i >= order.len() || i < 0 {
        LabelRows { overlap, position, line_len }
    } else {
        let first = first_pass(anns, order, i, 0, overlap, p);
        let below = second_pass(anns, order, i, 0, first.1);
        positions_from(
            anns,
            order,
            i + 1,
            first.0,
            below,
            position.push(first.1),
            if below > line_len {
                below
            } else {
                line_len
            },
        )
    }
}

/// The rows of the annotations of a line, before brackets are turned around.
pub open spec fn positions(anns: Seq<LineAnn>, order: Seq<usize>) -> LabelRows {
    positions_from(
        anns,
        order,
        0,
        Seq::new(order.len(), |k: int| false),
        0,
        Seq::empty(),
        0,
    )
}

/// The first look notes something for every annotation.
pub proof fn lemma_first_pass(
    anns: Seq<LineAnn>,
    order: Seq<usize>,
    i: int,
    j: int,
    overlap: Seq<bool>,
    p: usize,
)
    requires
        0 <= i < order.len(),
        overlap.len() == order.len(),
    ensures
        first_pass(anns, order, i, j, overlap, p).0.len() == order.len(),
    decreases order.len() - j,
{
    if !(j >= order.len() || j < 0) {
        let ann = anns[order[i] as int];
        let next = anns[order[j] as int];
        let ov = overlaps_spec(next, ann, 0);
        let noted = if ov && j > 1 {
            overlap.update(i, true).update(j, true)
        } else {
            overlap
        };
        lemma_first_pass(anns, order, i, j + 1, noted, p);
    }
}

/// Every annotation gets a row.
pub proof fn lemma_positions_from(
    anns: Seq<LineAnn>,
    order: Seq<usize>,
    i: int,
    overlap: Seq<bool>,
    p: usize,
    position: Seq<usize>,
    line_len: usize,
)
    requires
        0 <= i <= order.len(),
        overlap.len() == order.len(),
        position.len() == i,
    ensures
        positions_from(anns, order, i, overlap, p, position, line_len).overlap.len() == order.len(),
        positions_from(anns, order, i, overlap, p, position, line_len).position.len()
            == order.len(),
    decreases order.len() - i,
{
    if i < order.len() {
        let first = first_pass(anns, order, i, 0, overlap, p);
        lemma_first_pass(anns, order, i, 0, overlap, p);
        let below = second_pass(anns, order, i, 0, first.1);
        lemma_positions_from(
            anns,
            order,
            i + 1,
            first.0,
            below,
            position.push(first.1),
            if below > line_len {
                below
            } else {
                line_len
            },
        );
    }
}

/// The rows of the annotations of a line as they are computed.
pub struct RowsOf {
    pub overlap: Vec<bool>,
    pub position: Vec<usize>,
    pub line_len: usize,
}

impl View for RowsOf {
    type V = LabelRows;

    open spec fn view(&self) -> LabelRows {
        LabelRows { overlap: self.overlap@, position: self.position@, line_len: self.line_len }
    }
}

/// Works out where each label goes.
///
/// The rightmost annotation is tried first and stays on the row of the
/// underline where possible. An annotation that another one is in the way
/// of hangs on a row of its own, further down for annotations further left.
pub fn positions_of(anns: &Vec<LineAnnotation>, order: &Vec<usize>) -> (rows: RowsOf)
    requires
        forall|i: int| 0 <= i < order@.len() ==> (#[trigger] order@[i]) < anns@.len(),
    ensures
        rows@ == positions(ann_views(anns@), order@),
        rows.overlap@.len() == order@.len(),
        rows.position@.len() == order@.len(),
{
    let n = order.len();
    let mut overlap: Vec<bool> = Vec::new();
    let mut k: usize = 0;
    while k < n
        invariant
            k <= n,
            overlap@ == Seq::new(k as nat, |k: int| false),
        decreases n - k,
    {
        overlap.push(false);
        k += 1;
        assert(overlap@ =~= Seq::new(k as nat, |k: int| false));
    }
    let mut position: Vec<usize> = Vec::new();
    let mut line_len: usize = 0;
    let mut p: usize = 0;
    let mut i: usize = 0;
    while i < n
        invariant
            n == order@.len(),
            i <= n,
            overlap@.len() == n,
            position@.len() == i,
            forall|i: int| 0 <= i < order@.len() ==> (#[trigger] order@[i]) < anns@.len(),
            positions_from(ann_views(anns@), order@, i as int, overlap@, p, position@, line_len) == positions(
                ann_views(anns@),
                order@,
            ),
        decreases n - i,
    {
        let annotation = &anns[order[i]];
        let mut j: usize = 0;
        let ghost start_overlap = overlap@;
        let ghost start_p = p;
        let mut stopped = false;
        while j < n && !stopped
            invariant
                n == order@.len(),
                i < n,
                j <= n,
                overlap@.len() == n,
                *annotation == anns@[order@[i as int] as int],
                annotation@ == ann_views(anns@)[order@[i as int] as int],
                forall|i: int| 0 <= i < order@.len() ==> (#[trigger] order@[i]) < anns@.len(),
                !stopped ==> first_pass(ann_views(anns@), order@, i as int, j as int, overlap@, p) == first_pass(
                    ann_views(anns@),
                    order@,
                    i as int,
                    0,
                    start_overlap,
                    start_p,
                ),
                stopped ==> (overlap@, p) == first_pass(
                    ann_views(anns@),
                    order@,
                    i as int,
                    0,
                    start_overlap,
                    start_p,
                ),
            decreases n - j,
        {
            let next = &anns[order[j]];
            let ov = overlaps(next, annotation, 0);
            if ov && j > 1 {
                overlap[i] = true;
                overlap[j] = true;
            }
            // This label overlaps another one while it is on the first row:
            // move it one row down, unless the other marks the same place
            // and has nothing to say.
            if ov && annotation.has_label() && j > i && p == 0 && !(next.start.display
                == annotation.start.display && next.start.char == annotation.start.char
                && next.end.display == annotation.end.display && next.end.char
                == annotation.end.char && !next.has_label()) {
                p = p.saturating_add(1);
                stopped = true;
            }
            j += 1;
        }
        position.push(p);
        let mut j: usize = 0;
        let ghost first_p = p;
        let mut stopped = false;
        while j < n && !stopped
            invariant
                n == order@.len(),
                i < n,
                j <= n,
                *annotation == anns@[order@[i as int] as int],
                annotation@ == ann_views(anns@)[order@[i as int] as int],
                forall|i: int| 0 <= i < order@.len() ==> (#[trigger] order@[i]) < anns@.len(),
                !stopped ==> second_pass(ann_views(anns@), order@, i as int, j as int, p) == second_pass(
                    ann_views(anns@),
                    order@,
                    i as int,
                    0,
                    first_p,
                ),
                stopped ==> p == second_pass(ann_views(anns@), order@, i as int, 0, first_p),
            decreases n - j,
        {
            if j > i && does_need_new_row(&anns[order[j]], annotation, p) {
                // This annotation needs a row of its own.
                p = p.saturating_add(1);
                stopped = true;
            }
            j += 1;
        }
        if p > line_len {
            line_len = p;
        }
        i += 1;
    }
    proof {
        lemma_positions_from(
            ann_views(anns@),
            order@,
            0,
            Seq::new(order@.len(), |k: int| false),
            0,
            Seq::empty(),
            0,
        );
    }
    RowsOf { overlap, position, line_len }
}

} // verus!
