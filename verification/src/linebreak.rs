//! The line-break planner.
//!
//! A single forward pass over the text (as byte-index/character pairs)
//! zipped against the parallel shaped positions.  It accumulates the
//! x-advance since the last break; a literal newline forces a break at
//! its own byte index, and once the accumulated advance strictly exceeds
//! the row length a break is recorded at the most recent space since the
//! last break (word wrap) or, failing that, at the current index (hard
//! break).  Breaks are byte indices of characters; the iterator later
//! matches them against glyph indices, which is exact only for scripts
//! shaped one glyph per character — a documented approximation.

use vstd::prelude::*;
use crate::shape::PositionedGlyph;

verus! {

/// How many elements the zip of text pairs and shaped positions holds.
pub open spec fn zip_len(pairs: Seq<(usize, char)>, positions: Seq<PositionedGlyph>) -> int {
    if pairs.len() <= positions.len() {
        pairs.len() as int
    } else {
        positions.len() as int
    }
}

/// The break indices the planner records from step `k` on, given the
/// x-advance accumulated since the last break and the most recent space
/// index since the last break.
pub open spec fn plan_from(
    pairs: Seq<(usize, char)>,
    positions: Seq<PositionedGlyph>,
    row_length: int,
    k: int,
    x_pos: int,
    last_space: Option<usize>,
) -> Seq<usize>
    decreases zip_len(pairs, positions) - k,
{
    let n: int = zip_len(pairs, positions);
    if k < 0 || k >= n {
        Seq::empty()
    } else {
        let idx: usize = pairs[k].0;
        let c: char = pairs[k].1;
        let x2: int = x_pos + positions[k].x_advance;
        if c == ' ' {
            plan_from(pairs, positions, row_length, k + 1, x2, Some(idx))
        } else if c == '\n' {
            seq![idx] + plan_from(pairs, positions, row_length, k + 1, 0, None)
        } else if x2 > row_length {
            let b: usize = match last_space {
                Some(s) => s,
                None => idx,
            };
            seq![b] + plan_from(pairs, positions, row_length, k + 1, 0, None)
        } else {
            plan_from(pairs, positions, row_length, k + 1, x2, last_space)
        }
    }
}

/// The complete break-index plan for one render call.
pub open spec fn plan(
    pairs: Seq<(usize, char)>,
    positions: Seq<PositionedGlyph>,
    row_length: int,
) -> Seq<usize> {
    plan_from(pairs, positions, row_length, 0, 0, None)
}

/// Compute the break indices for the zipped text and shaped positions.
pub fn line_breaks(
    pairs: &Vec<(usize, char)>,
    positions: &Vec<PositionedGlyph>,
    row_length: i32,
) -> (r: Vec<usize>)
    ensures
        r@ == plan(pairs@, positions@, row_length as int),
{
    let n: usize = if pairs.len() <= positions.len() {
        pairs.len()
    } else {
        positions.len()
    };
    let mut acc: Vec<usize> = Vec::new();
    let mut x_pos: i128 = 0;
    let mut last_space: Option<usize> = None;
    let mut k: usize = 0;
    while k < n
        invariant
            n == zip_len(pairs@, positions@),
            n <= pairs@.len(),
            n <= positions@.len(),
            0 <= k <= n,
            -((k as int) * 0x8000_0000) <= x_pos as int <= (k as int) * 0x8000_0000,
            acc@ + plan_from(
                pairs@,
                positions@,
                row_length as int,
                k as int,
                x_pos as int,
                last_space,
            ) == plan(pairs@, positions@, row_length as int),
        decreases n - k,
    {
        let ghost pending = plan_from(
            pairs@,
            positions@,
            row_length as int,
            k as int,
            x_pos as int,
            last_space,
        );
        let idx: usize = pairs[k].0;
        let c: char = pairs[k].1;
        x_pos = x_pos + (positions[k].x_advance as i128);
        if c == ' ' {
            last_space = Some(idx);
        } else if c == '\n' {
            acc.push(idx);
            x_pos = 0;
            last_space = None;
            proof {
                assert(acc@ + plan_from(
                    pairs@,
                    positions@,
                    row_length as int,
                    k + 1,
                    0,
                    None,
                ) =~= (acc@.drop_last() + pending));
            }
        } else if x_pos > (row_length as i128) {
            let b: usize = match last_space {
                Some(s) => s,
                None => idx,
            };
            acc.push(b);
            x_pos = 0;
            last_space = None;
            proof {
                assert(acc@ + plan_from(
                    pairs@,
                    positions@,
                    row_length as int,
                    k + 1,
                    0,
                    None,
                ) =~= (acc@.drop_last() + pending));
            }
        }
        k = k + 1;
    }
    acc
}

/// The total x-advance of the positions in `[from, to)`.
pub open spec fn advance_sum(positions: Seq<PositionedGlyph>, from: int, to: int) -> int
    decreases to - from,
{
    if from >= to {
        0
    } else {
        positions[from].x_advance + advance_sum(positions, from + 1, to)
    }
}

proof fn lemma_advance_sum_nonneg(positions: Seq<PositionedGlyph>, from: int, to: int)
    requires
        forall|j: int| from <= j < to ==> positions[j].x_advance >= 0,
    ensures
        advance_sum(positions, from, to) >= 0,
    decreases to - from,
{
    if from < to {
        lemma_advance_sum_nonneg(positions, from + 1, to);
    }
}

proof fn lemma_fits_from(
    pairs: Seq<(usize, char)>,
    positions: Seq<PositionedGlyph>,
    row_length: int,
    k: int,
    x_pos: int,
    last_space: Option<usize>,
)
    requires
        0 <= k,
        forall|j: int| k <= j < zip_len(pairs, positions) ==> positions[j].x_advance >= 0,
        forall|j: int| k <= j < zip_len(pairs, positions) ==> pairs[j].1 != '\n',
        x_pos + advance_sum(positions, k, zip_len(pairs, positions)) <= row_length,
    ensures
        plan_from(pairs, positions, row_length, k, x_pos, last_space) == Seq::<usize>::empty(),
    decreases zip_len(pairs, positions) - k,
{
    let n: int = zip_len(pairs, positions);
    if k < n {
        let x2: int = x_pos + positions[k].x_advance;
        lemma_advance_sum_nonneg(positions, k + 1, n);
        lemma_fits_from(pairs, positions, row_length, k + 1, x2, Some(pairs[k].0));
        lemma_fits_from(pairs, positions, row_length, k + 1, x2, last_space);
    }
}

/// When the row length is at least the text's total advance and no
/// advance is negative, the plan is empty unless the text holds a
/// literal newline.
pub proof fn lemma_no_breaks_when_row_fits(
    pairs: Seq<(usize, char)>,
    positions: Seq<PositionedGlyph>,
    row_length: int,
)
    requires
        forall|j: int| 0 <= j < zip_len(pairs, positions) ==> positions[j].x_advance >= 0,
        forall|j: int| 0 <= j < zip_len(pairs, positions) ==> pairs[j].1 != '\n',
        advance_sum(positions, 0, zip_len(pairs, positions)) <= row_length,
    ensures
        plan(pairs, positions, row_length) == Seq::<usize>::empty(),
{
    lemma_fits_from(pairs, positions, row_length, 0, 0, None);
}

/// Byte indices grow strictly along the text.
pub open spec fn indices_increasing(pairs: Seq<(usize, char)>) -> bool {
    forall|i: int, j: int| 0 <= i < j < pairs.len() ==> (#[trigger] pairs[i].0) < (#[trigger] pairs[j].0)
}

proof fn lemma_byte_index_mono(text: Seq<char>, i: int, j: int)
    requires
        0 <= i <= j,
    ensures
        crate::shape::byte_index_of(text, i) + (j - i) <= crate::shape::byte_index_of(text, j),
    decreases j - i,
{
    if i < j {
        lemma_byte_index_mono(text, i, j - 1);
    }
}

/// The byte indices at which a string's characters start grow strictly,
/// so the planner's byte-indexed breaks are unambiguous for any text a
/// render call can see (one whose encoded length fits the machine).
pub proof fn lemma_char_pairs_increasing(text: Seq<char>)
    requires
        crate::shape::byte_index_of(text, text.len() as int) <= usize::MAX,
    ensures
        indices_increasing(crate::shape::char_pairs_of(text)),
{
    let pairs = crate::shape::char_pairs_of(text);
    assert forall|i: int, j: int| 0 <= i < j < pairs.len() implies (#[trigger] pairs[i].0) < (
    #[trigger] pairs[j].0) by {
        lemma_byte_index_mono(text, 0, i);
        lemma_byte_index_mono(text, i, j);
        lemma_byte_index_mono(text, j, text.len() as int);
    }
}

proof fn lemma_plan_elems(
    pairs: Seq<(usize, char)>,
    positions: Seq<PositionedGlyph>,
    row_length: int,
    k: int,
    x_pos: int,
    last_space: Option<usize>,
)
    ensures
        forall|e: usize|
            #[trigger] plan_from(pairs, positions, row_length, k, x_pos, last_space).contains(e)
                ==> (last_space matches Some(s) && e == s) || (exists|j: int|
                k <= j < zip_len(pairs, positions) && e == #[trigger] pairs[j].0),
    decreases zip_len(pairs, positions) - k,
{
    let n: int = zip_len(pairs, positions);
    if 0 <= k < n {
        let idx: usize = pairs[k].0;
        let c: char = pairs[k].1;
        let x2: int = x_pos + positions[k].x_advance;
        lemma_plan_elems(pairs, positions, row_length, k + 1, x2, Some(idx));
        lemma_plan_elems(pairs, positions, row_length, k + 1, 0, None);
        lemma_plan_elems(pairs, positions, row_length, k + 1, x2, last_space);
        assert forall|e: usize|
            #[trigger] plan_from(pairs, positions, row_length, k, x_pos, last_space).contains(e)
                implies (last_space matches Some(s) && e == s) || (exists|j: int|
            k <= j < n && e == #[trigger] pairs[j].0) by {
            let r = plan_from(pairs, positions, row_length, k, x_pos, last_space);
            let i = choose|i: int| 0 <= i < r.len() && r[i] == e;
            if c == ' ' {
                let sub = plan_from(pairs, positions, row_length, k + 1, x2, Some(idx));
                assert(r == sub);
                assert(sub.contains(e)) by {
                    assert(sub[i] == e);
                }
                if e == idx {
                    assert(k <= k < n && e == pairs[k].0);
                }
            } else if c == '\n' || x2 > row_length {
                let tail = plan_from(pairs, positions, row_length, k + 1, 0, None);
                if i > 0 {
                    assert(tail.contains(e)) by {
                        assert(tail[i - 1] == e);
                    }
                } else {
                    assert(e == r[0] && k <= k < n && r[0] == pairs[k].0 || (last_space
                        matches Some(s) && r[0] == s));
                }
            } else {
                let sub = plan_from(pairs, positions, row_length, k + 1, x2, last_space);
                assert(r == sub);
                assert(sub.contains(e)) by {
                    assert(sub[i] == e);
                }
            }
        }
    }
}

proof fn lemma_plan_sorted(
    pairs: Seq<(usize, char)>,
    positions: Seq<PositionedGlyph>,
    row_length: int,
    k: int,
    x_pos: int,
    last_space: Option<usize>,
)
    requires
        indices_increasing(pairs),
        0 <= k,
        last_space matches Some(s) ==> forall|j: int|
            k <= j < zip_len(pairs, positions) ==> s < #[trigger] pairs[j].0,
    ensures
        forall|i: int, j: int|
            0 <= i < j < plan_from(pairs, positions, row_length, k, x_pos, last_space).len()
                ==> #[trigger] plan_from(pairs, positions, row_length, k, x_pos, last_space)[i]
                < #[trigger] plan_from(pairs, positions, row_length, k, x_pos, last_space)[j],
    decreases zip_len(pairs, positions) - k,
{
    let n: int = zip_len(pairs, positions);
    if k < n {
        let r = plan_from(pairs, positions, row_length, k, x_pos, last_space);
        let idx: usize = pairs[k].0;
        let c: char = pairs[k].1;
        let x2: int = x_pos + positions[k].x_advance;
        if c == ' ' {
            assert forall|j: int| k + 1 <= j < n implies idx < #[trigger] pairs[j].0 by {
                assert(pairs[k].0 < pairs[j].0);
            }
            lemma_plan_sorted(pairs, positions, row_length, k + 1, x2, Some(idx));
            let sub = plan_from(pairs, positions, row_length, k + 1, x2, Some(idx));
            assert(r == sub);
            assert forall|i: int, j: int| 0 <= i < j < r.len() implies r[i] < r[j] by {
                assert(sub[i] < sub[j]);
            }
        } else if c == '\n' || x2 > row_length {
            let b: usize = if c == '\n' {
                idx
            } else {
                match last_space {
                    Some(s) => s,
                    None => idx,
                }
            };
            let tail = plan_from(pairs, positions, row_length, k + 1, 0, None);
            lemma_plan_sorted(pairs, positions, row_length, k + 1, 0, None);
            lemma_plan_elems(pairs, positions, row_length, k + 1, 0, None);
            assert(r == seq![b] + tail);
            assert forall|i: int, j: int| 0 <= i < j < r.len() implies r[i] < r[j] by {
                if i == 0 {
                    let e = tail[j - 1];
                    assert(tail.contains(e));
                    assert(exists|m: int| k + 1 <= m < n && e == #[trigger] pairs[m].0);
                    let m = choose|m: int| k + 1 <= m < n && e == #[trigger] pairs[m].0;
                    assert(pairs[k].0 < pairs[m].0);
                    assert(b < pairs[m].0);
                    assert(r[i] == b && r[j] == e);
                } else {
                    assert(r[i] == tail[i - 1] && r[j] == tail[j - 1]);
                }
            }
        } else {
            lemma_plan_sorted(pairs, positions, row_length, k + 1, x2, last_space);
            let sub = plan_from(pairs, positions, row_length, k + 1, x2, last_space);
            assert(r == sub);
            assert forall|i: int, j: int| 0 <= i < j < r.len() implies r[i] < r[j] by {
                assert(sub[i] < sub[j]);
            }
        }
    }
}

proof fn lemma_newline_in_plan(
    pairs: Seq<(usize, char)>,
    positions: Seq<PositionedGlyph>,
    row_length: int,
    k0: int,
    x_pos: int,
    last_space: Option<usize>,
    k: int,
)
    requires
        0 <= k0 <= k < zip_len(pairs, positions),
        pairs[k].1 == '\n',
    ensures
        plan_from(pairs, positions, row_length, k0, x_pos, last_space).contains(pairs[k].0),
    decreases k - k0,
{
    let n: int = zip_len(pairs, positions);
    let r = plan_from(pairs, positions, row_length, k0, x_pos, last_space);
    let idx: usize = pairs[k0].0;
    let c: char = pairs[k0].1;
    let x2: int = x_pos + positions[k0].x_advance;
    if k0 == k {
        let tail = plan_from(pairs, positions, row_length, k0 + 1, 0, None);
        assert(r == seq![idx] + tail);
        assert(r[0] == idx);
    } else {
        if c == ' ' {
            lemma_newline_in_plan(pairs, positions, row_length, k0 + 1, x2, Some(idx), k);
        } else if c == '\n' || x2 > row_length {
            lemma_newline_in_plan(pairs, positions, row_length, k0 + 1, 0, None, k);
            let tail = plan_from(pairs, positions, row_length, k0 + 1, 0, None);
            let i = choose|i: int| 0 <= i < tail.len() && tail[i] == pairs[k].0;
            assert(r[i + 1] == pairs[k].0);
        } else {
            lemma_newline_in_plan(pairs, positions, row_length, k0 + 1, x2, last_space, k);
        }
    }
}

/// A literal newline produces exactly one break, at its own byte index,
/// whatever the row length: the index is in the plan, and the plan is
/// strictly increasing, so it occurs exactly once.
pub proof fn lemma_newline_always_breaks(
    pairs: Seq<(usize, char)>,
    positions: Seq<PositionedGlyph>,
    row_length: int,
    k: int,
)
    requires
        indices_increasing(pairs),
        0 <= k < zip_len(pairs, positions),
        pairs[k].1 == '\n',
    ensures
        plan(pairs, positions, row_length).contains(pairs[k].0),
        forall|i: int, j: int|
            0 <= i < j < plan(pairs, positions, row_length).len() ==> #[trigger] plan(
                pairs,
                positions,
                row_length,
            )[i] < #[trigger] plan(pairs, positions, row_length)[j],
{
    lemma_newline_in_plan(pairs, positions, row_length, 0, 0, None, k);
    lemma_plan_sorted(pairs, positions, row_length, 0, 0, None);
}

} // verus!
