//! The chunk-merge adapter: coalesces a stream of collection fragments into
//! larger chunks up to a byte-size budget, preserving total row count and
//! per-row content and order, never splitting a row across chunks.  A chunk
//! larger than the budget is emitted only where a single row alone exceeds
//! the budget.

use vstd::prelude::*;

use crate::collections::{sat_usize, CellValue, FeatureCollection};
use crate::error::Error;
use crate::primitives::{Coordinate2D, TimeInterval};

verus! {

/// All geometry rows of a run of chunks, in order.
pub open spec fn concat_geoms(cs: Seq<FeatureCollection>) -> Seq<Seq<Coordinate2D>>
    decreases cs.len(),
{
    if cs.len() == 0 {
        Seq::empty()
    } else {
        concat_geoms(cs.drop_last()) + cs.last().geoms()
    }
}

/// All time rows of a run of chunks, in order.
pub open spec fn concat_times(cs: Seq<FeatureCollection>) -> Seq<TimeInterval>
    decreases cs.len(),
{
    if cs.len() == 0 {
        Seq::empty()
    } else {
        concat_times(cs.drop_last()) + cs.last().time_seq()
    }
}

/// All cells of column `j` of a run of chunks, in order.
pub open spec fn concat_col(cs: Seq<FeatureCollection>, j: int) -> Seq<CellValue>
    decreases cs.len(),
{
    if cs.len() == 0 {
        Seq::empty()
    } else {
        concat_col(cs.drop_last(), j) + cs.last().col_cells(j)
    }
}

/// Pushing a chunk extends the concatenations by its rows.
pub proof fn lemma_concat_push(cs: Seq<FeatureCollection>, c: FeatureCollection, j: int)
    ensures
        concat_geoms(cs.push(c)) == concat_geoms(cs) + c.geoms(),
        concat_times(cs.push(c)) == concat_times(cs) + c.time_seq(),
        concat_col(cs.push(c), j) == concat_col(cs, j) + c.col_cells(j),
{
    assert(cs.push(c).drop_last() =~= cs);
    assert(concat_geoms(cs.push(c)) =~= concat_geoms(cs) + c.geoms());
    assert(concat_times(cs.push(c)) =~= concat_times(cs) + c.time_seq());
    assert(concat_col(cs.push(c), j) =~= concat_col(cs, j) + c.col_cells(j));
}

/// Unfolds the concatenations over growing prefixes of the input.
pub proof fn lemma_concat_take_step(cs: Seq<FeatureCollection>, i: int, j: int)
    requires
        0 <= i < cs.len(),
    ensures
        concat_geoms(cs.take(i + 1)) == concat_geoms(cs.take(i)) + cs[i].geoms(),
        concat_times(cs.take(i + 1)) == concat_times(cs.take(i)) + cs[i].time_seq(),
        concat_col(cs.take(i + 1), j) == concat_col(cs.take(i), j) + cs[i].col_cells(j),
{
    assert(cs.take(i + 1).drop_last() =~= cs.take(i));
    assert(cs.take(i + 1).last() == cs[i]);
    assert(concat_geoms(cs.take(i + 1)) =~= concat_geoms(cs.take(i)) + cs[i].geoms());
    assert(concat_times(cs.take(i + 1)) =~= concat_times(cs.take(i)) + cs[i].time_seq());
    assert(concat_col(cs.take(i + 1), j) =~= concat_col(cs.take(i), j) + cs[i].col_cells(j));
}

/// Equal schemas cost the same per row.
pub proof fn lemma_schema_cost_prefix_eq(a: FeatureCollection, b: FeatureCollection, j: int)
    requires
        a.spec_schema_eq(b),
        j <= a.num_columns(),
    ensures
        a.schema_cost_prefix(j) == b.schema_cost_prefix(j),
    decreases j,
{
    if j > 0 {
        lemma_schema_cost_prefix_eq(a, b, j - 1);
        assert(a.col_type(j - 1) == b.col_type(j - 1));
    }
}

/// Equal-prefix collections have equal row-size totals over the prefix.
pub proof fn lemma_rows_total_prefix(c2: FeatureCollection, a: FeatureCollection, n: int)
    requires
        0 <= n,
        forall|i: int| 0 <= i < n ==> #[trigger] c2.geoms()[i] == a.geoms()[i],
        c2.spec_schema_cost() == a.spec_schema_cost(),
    ensures
        c2.rows_byte_total(n) == a.rows_byte_total(n),
    decreases n,
{
    if n > 0 {
        lemma_rows_total_prefix(c2, a, n - 1);
    }
}

/// A run of non-empty chunks contributes at least one row each.
pub proof fn lemma_concat_geoms_min_len(cs: Seq<FeatureCollection>)
    requires
        forall|k: int| 0 <= k < cs.len() ==> (#[trigger] cs[k]).wf() && cs[k].spec_len() > 0,
    ensures
        concat_geoms(cs).len() >= cs.len(),
    decreases cs.len(),
{
    if cs.len() > 0 {
        lemma_concat_geoms_min_len(cs.drop_last());
        assert(cs.last().geoms().len() == cs.last().spec_len());
    }
}

/// Coalesces collection fragments into chunks of at most `chunk_byte_size`
/// bytes under the size model, splitting only at row boundaries.  All
/// fragments must share one schema.  The law of this adapter: the outputs'
/// rows are exactly the inputs' rows in order, and an output exceeds the
/// budget only where it holds a single row.
pub fn merge_chunks(chunks: &Vec<FeatureCollection>, chunk_byte_size: usize) -> (r: Result<
    Vec<FeatureCollection>,
    Error,
>)
    requires
        forall|k: int| 0 <= k < chunks@.len() ==> (#[trigger] chunks@[k]).wf(),
    ensures
        r is Ok <==> forall|k: int|
            0 <= k < chunks@.len() ==> (#[trigger] chunks@[k]).spec_schema_eq(chunks@[0]),
        r is Err ==> r == Err::<Vec<FeatureCollection>, Error>(Error::SchemaMismatch),
        r matches Ok(outs) ==> {
            &&& concat_geoms(outs@) == concat_geoms(chunks@)
            &&& concat_times(outs@) == concat_times(chunks@)
            &&& forall|k: int| 0 <= k < outs@.len() ==> (#[trigger] outs@[k]).wf()
            &&& forall|k: int| 0 <= k < outs@.len() ==> (#[trigger] outs@[k]).spec_len() > 0
            &&& forall|k: int|
                0 <= k < outs@.len() ==> (#[trigger] outs@[k]).spec_byte_size() <= chunk_byte_size
                    || outs@[k].spec_len() == 1
            &&& chunks@.len() > 0 ==> forall|k: int|
                0 <= k < outs@.len() ==> (#[trigger] outs@[k]).spec_schema_eq(chunks@[0])
            &&& (chunks@.len() > 0 ==> forall|j: int|
                0 <= j < chunks@[0].num_columns() ==> #[trigger] concat_col(outs@, j)
                    == concat_col(chunks@, j))
        },
{
    let n = chunks.len();
    let mut k: usize = 0;
    while k < n
        invariant
            k <= n,
            n == chunks@.len(),
            forall|q: int| 0 <= q < n ==> (#[trigger] chunks@[q]).wf(),
            forall|q: int| 0 <= q < k ==> (#[trigger] chunks@[q]).spec_schema_eq(chunks@[0]),
        decreases n - k,
    {
        if !chunks[k].schema_eq(&chunks[0]) {
            return Err(Error::SchemaMismatch);
        }
        k += 1;
    }
    let mut outs: Vec<FeatureCollection> = Vec::new();
    let mut cur: Option<FeatureCollection> = None;
    let ghost ncols = if chunks@.len() > 0 {
        chunks@[0].num_columns() as int
    } else {
        0
    };
    let mut ci: usize = 0;
    while ci < n
        invariant
            ci <= n,
            n == chunks@.len(),
            forall|q: int| 0 <= q < n ==> (#[trigger] chunks@[q]).wf(),
            forall|q: int| 0 <= q < n ==> (#[trigger] chunks@[q]).spec_schema_eq(chunks@[0]),
            ncols == if chunks@.len() > 0 {
                chunks@[0].num_columns() as int
            } else {
                0
            },
            merge_loop_inv(outs@, cur, chunks@, ci as int, chunk_byte_size as nat, ncols),
            merge_content_inv(
                outs@,
                cur,
                concat_geoms(chunks@.take(ci as int)),
                concat_times(chunks@.take(ci as int)),
            ),
            n > 0 ==> forall|j: int|
                0 <= j < ncols ==> #[trigger] concat_col(outs@, j) + cur_cells(cur, j)
                    == concat_col(chunks@.take(ci as int), j),
        decreases n - ci,
    {
        let chunk = &chunks[ci];
        let rows = chunk.len();
        let mut ri: usize = 0;
        while ri < rows
            invariant
                ri <= rows,
                ci < n,
                n == chunks@.len(),
                rows == chunks@[ci as int].spec_len(),
                forall|q: int| 0 <= q < n ==> (#[trigger] chunks@[q]).wf(),
                forall|q: int| 0 <= q < n ==> (#[trigger] chunks@[q]).spec_schema_eq(chunks@[0]),
                chunk == &chunks@[ci as int],
                ncols == if chunks@.len() > 0 {
                    chunks@[0].num_columns() as int
                } else {
                    0
                },
                merge_loop_inv(outs@, cur, chunks@, ci as int, chunk_byte_size as nat, ncols),
                merge_content_inv(
                    outs@,
                    cur,
                    concat_geoms(chunks@.take(ci as int)) + chunk.geoms().take(ri as int),
                    concat_times(chunks@.take(ci as int)) + chunk.time_seq().take(ri as int),
                ),
                n > 0 ==> forall|j: int|
                    0 <= j < ncols ==> #[trigger] concat_col(outs@, j) + cur_cells(cur, j)
                        == concat_col(chunks@.take(ci as int), j) + chunk.col_cells(j).take(
                        ri as int,
                    ),
            decreases rows - ri,
        {
            let row = chunk.row_at(ri);
            let rsize = chunk.row_byte_size(ri);
            proof {
                assert(chunk.geoms().take(ri + 1) =~= chunk.geoms().take(ri as int).push(
                    chunk.geoms()[ri as int],
                ));
                assert(chunk.time_seq().take(ri + 1) =~= chunk.time_seq().take(ri as int).push(
                    chunk.time_seq()[ri as int],
                ));
                assert forall|j: int| 0 <= j < ncols implies #[trigger] chunk.col_cells(j).take(
                    ri + 1,
                ) == chunk.col_cells(j).take(ri as int).push(chunk.col_cells(j)[ri as int]) by {
                    assert(chunk.col_cells(j).len() == chunk.spec_len());
                    assert(chunk.col_cells(j).take(ri + 1) =~= chunk.col_cells(j).take(
                        ri as int,
                    ).push(chunk.col_cells(j)[ri as int]));
                }
            }
            let ghost outs0 = outs@;
            let ghost cur0 = cur;
            let ghost done_g = concat_geoms(chunks@.take(ci as int)) + chunk.geoms().take(
                ri as int,
            );
            let ghost done_t = concat_times(chunks@.take(ci as int)) + chunk.time_seq().take(
                ri as int,
            );
            let ghost done_g1 = concat_geoms(chunks@.take(ci as int)) + chunk.geoms().take(
                ri + 1,
            );
            let ghost done_t1 = concat_times(chunks@.take(ci as int)) + chunk.time_seq().take(
                ri + 1,
            );
            let prev = cur;
            match prev {
                None => {
                    proof {
                        lemma_schema_cost_prefix_eq(row, *chunk, ncols);
                        assert(row.rows_byte_total(0) == 0);
                        assert(row.spec_row_byte_size(0) == chunk.spec_row_byte_size(ri as int));
                        assert(row.rows_byte_total(1) == row.spec_row_byte_size(0));
                    }
                    cur = Some(row);
                    proof {
                        assert(done_g =~= concat_geoms(outs0));
                        assert(done_t =~= concat_times(outs0));
                        assert(concat_geoms(outs@) + cur_geoms(cur) =~= done_g1);
                        assert(concat_times(outs@) + cur_times(cur) =~= done_t1);
                        assert forall|j: int|
                            0 <= j < ncols implies #[trigger] concat_col(outs@, j) + cur_cells(
                            cur,
                            j,
                        ) == concat_col(chunks@.take(ci as int), j) + chunk.col_cells(j).take(
                            ri + 1,
                        ) by {
                            assert(concat_col(outs0, j) + cur_cells(cur0, j) == concat_col(
                                chunks@.take(ci as int),
                                j,
                            ) + chunk.col_cells(j).take(ri as int));
                            assert(row.col_cells(j) == seq![chunk.col_cells(j)[ri as int]]);
                            assert(concat_col(outs@, j) + cur_cells(cur, j) =~= concat_col(
                                chunks@.take(ci as int),
                                j,
                            ) + chunk.col_cells(j).take(ri + 1));
                        }
                    }
                },
                Some(c) => {
                    let csize = c.byte_size();
                    let tentative = csize.saturating_add(rsize);
                    if tentative > chunk_byte_size {
                        outs.push(c);
                        cur = Some(row);
                        proof {
                            lemma_concat_push_all(outs0, outs@.last(), ncols);
                            assert(outs@ == outs0.push(outs@.last()));
                            lemma_schema_cost_prefix_eq(row, *chunk, ncols);
                            assert(row.rows_byte_total(0) == 0);
                            assert(row.rows_byte_total(1) == row.spec_row_byte_size(0));
                            assert(concat_geoms(outs@) + cur_geoms(cur) =~= done_g1);
                            assert(concat_times(outs@) + cur_times(cur) =~= done_t1);
                            assert forall|j: int|
                                0 <= j < ncols implies #[trigger] concat_col(outs@, j) + cur_cells(
                                cur,
                                j,
                            ) == concat_col(chunks@.take(ci as int), j) + chunk.col_cells(j).take(
                                ri + 1,
                            ) by {
                                assert(concat_col(outs0, j) + cur_cells(cur0, j) == concat_col(
                                    chunks@.take(ci as int),
                                    j,
                                ) + chunk.col_cells(j).take(ri as int));
                                assert(concat_col(outs@, j) == concat_col(outs0, j) + cur_cells(
                                    cur0,
                                    j,
                                ));
                                assert(row.col_cells(j) == seq![chunk.col_cells(j)[ri as int]]);
                                assert(concat_col(outs@, j) + cur_cells(cur, j) =~= concat_col(
                                    chunks@.take(ci as int),
                                    j,
                                ) + chunk.col_cells(j).take(ri + 1));
                            }
                        }
                    } else {
                        let merged = match c.concat_rows(&row) {
                            Ok(m) => m,
                            Err(_) => {
                                // The fragment and the row share the input
                                // schema by the check above.
                                proof {
                                    lemma_schema_eq_chain(c, row, *chunk, chunks@[0]);
                                    assert(false);
                                }
                                return Err(Error::SchemaMismatch);
                            },
                        };
                        proof {
                            lemma_schema_eq_chain(c, row, *chunk, chunks@[0]);
                            assert(merged.geoms().len() == merged.spec_len());
                            assert(c.geoms().len() == c.spec_len());
                            assert(row.geoms().len() == 1);
                            lemma_merged_size(merged, c, row, *chunk, ri as int, ncols);
                            let total_c = c.rows_byte_total(c.spec_len() as int);
                            let rowsz = chunk.spec_row_byte_size(ri as int);
                            assert(csize == sat_usize(total_c));
                            assert(rsize == sat_usize(rowsz));
                            assert(merged.rows_byte_total(merged.spec_len() as int) == total_c
                                + rowsz);
                            if chunk_byte_size < usize::MAX {
                                assert(csize + rsize <= chunk_byte_size);
                                assert(total_c == csize);
                                assert(rowsz == rsize);
                                assert(merged.spec_byte_size() <= chunk_byte_size);
                            } else {
                                assert(merged.spec_byte_size() <= usize::MAX);
                            }
                        }
                        cur = Some(merged);
                        proof {
                            let m = cur.unwrap();
                            assert(m.geoms() == c.geoms() + row.geoms());
                            assert(m.time_seq() == c.time_seq() + row.time_seq());
                            assert(row.geoms() =~= seq![chunk.geoms()[ri as int]]);
                            assert(row.time_seq() =~= seq![chunk.time_seq()[ri as int]]);
                            assert(done_g1 =~= done_g + row.geoms());
                            assert(done_t1 =~= done_t + row.time_seq());
                            assert(concat_geoms(outs@) + cur_geoms(cur) =~= done_g1);
                            assert(concat_times(outs@) + cur_times(cur) =~= done_t1);
                            assert forall|j: int|
                                0 <= j < ncols implies #[trigger] concat_col(outs@, j) + cur_cells(
                                cur,
                                j,
                            ) == concat_col(chunks@.take(ci as int), j) + chunk.col_cells(j).take(
                                ri + 1,
                            ) by {
                                assert(concat_col(outs0, j) + cur_cells(cur0, j) == concat_col(
                                    chunks@.take(ci as int),
                                    j,
                                ) + chunk.col_cells(j).take(ri as int));
                                assert(cur_cells(cur0, j) == c.col_cells(j));
                                assert(cur_cells(cur, j) == m.col_cells(j));
                                assert(m.col_cells(j) == c.col_cells(j) + row.col_cells(j));
                                assert(row.col_cells(j) == seq![chunk.col_cells(j)[ri as int]]);
                                assert(chunk.col_cells(j).len() == chunk.spec_len());
                                assert(chunk.col_cells(j).take(ri + 1) =~= chunk.col_cells(j).take(
                                    ri as int,
                                ).push(chunk.col_cells(j)[ri as int]));
                                assert(concat_col(outs@, j) + cur_cells(cur, j) =~= (concat_col(
                                    outs0,
                                    j,
                                ) + c.col_cells(j)) + row.col_cells(j));
                                assert((concat_col(outs0, j) + c.col_cells(j)) + row.col_cells(j)
                                    =~= (concat_col(chunks@.take(ci as int), j) + chunk.col_cells(
                                    j,
                                ).take(ri as int)) + row.col_cells(j));
                                assert((concat_col(chunks@.take(ci as int), j) + chunk.col_cells(
                                    j,
                                ).take(ri as int)) + row.col_cells(j) =~= concat_col(
                                    chunks@.take(ci as int),
                                    j,
                                ) + chunk.col_cells(j).take(ri + 1));
                                assert(concat_col(outs@, j) + cur_cells(cur, j) =~= concat_col(
                                    chunks@.take(ci as int),
                                    j,
                                ) + chunk.col_cells(j).take(ri + 1));
                            }
                        }
                    }
                },
            };
            ri += 1;
        }
        proof {
            assert(chunk.geoms().take(chunk.geoms().len() as int) =~= chunk.geoms());
            assert(chunk.time_seq().take(chunk.time_seq().len() as int) =~= chunk.time_seq());
            lemma_concat_take_step_all(chunks@, ci as int, ncols);
            assert forall|j: int| 0 <= j < ncols implies #[trigger] chunk.col_cells(j).take(
                chunks@[ci as int].spec_len() as int,
            ) == chunk.col_cells(j) by {
                assert(chunk.col_cells(j).len() == chunk.spec_len());
                assert(chunk.col_cells(j).take(chunk.col_cells(j).len() as int)
                    =~= chunk.col_cells(j));
            }
        }
        ci += 1;
    }
    let ghost outsf = outs@;
    let ghost curf = cur;
    if let Some(c) = cur {
        outs.push(c);
        proof {
            lemma_concat_push_all(outsf, outs@.last(), ncols);
            assert(outs@ == outsf.push(outs@.last()));
        }
    }
    proof {
        assert(chunks@.take(n as int) =~= chunks@);
        assert(concat_geoms(outs@) =~= concat_geoms(outsf) + cur_geoms(curf));
        assert(concat_times(outs@) =~= concat_times(outsf) + cur_times(curf));
        assert(concat_geoms(outs@) =~= concat_geoms(chunks@));
        assert(concat_times(outs@) =~= concat_times(chunks@));
        assert forall|j: int| 0 <= j < ncols implies #[trigger] concat_col(outs@, j) == concat_col(
            chunks@,
            j,
        ) by {
            assert(concat_col(outsf, j) + cur_cells(curf, j) == concat_col(
                chunks@.take(n as int),
                j,
            ));
            assert(concat_col(outs@, j) =~= concat_col(outsf, j) + cur_cells(curf, j));
            assert(concat_col(chunks@.take(n as int), j) == concat_col(chunks@, j));
        }
    }
    Ok(outs)
}

/// The cells the pending fragment contributes to column `j`.
pub open spec fn cur_cells(cur: Option<FeatureCollection>, j: int) -> Seq<CellValue> {
    match cur {
        Some(c) => c.col_cells(j),
        None => Seq::empty(),
    }
}

/// The geometry rows the pending fragment contributes.
pub open spec fn cur_geoms(cur: Option<FeatureCollection>) -> Seq<Seq<Coordinate2D>> {
    match cur {
        Some(c) => c.geoms(),
        None => Seq::empty(),
    }
}

/// The time rows the pending fragment contributes.
pub open spec fn cur_times(cur: Option<FeatureCollection>) -> Seq<TimeInterval> {
    match cur {
        Some(c) => c.time_seq(),
        None => Seq::empty(),
    }
}

/// The bookkeeping of the merge loop: everything emitted is well-formed,
/// non-empty, within budget unless single-row, and of the input schema; the
/// pending fragment likewise.
pub open spec fn merge_loop_inv(
    outs: Seq<FeatureCollection>,
    cur: Option<FeatureCollection>,
    chunks: Seq<FeatureCollection>,
    ci: int,
    budget: nat,
    ncols: int,
) -> bool {
    &&& forall|k: int| 0 <= k < outs.len() ==> (#[trigger] outs[k]).wf()
    &&& forall|k: int| 0 <= k < outs.len() ==> (#[trigger] outs[k]).spec_len() > 0
    &&& forall|k: int|
        0 <= k < outs.len() ==> (#[trigger] outs[k]).spec_byte_size() <= budget || outs[k].spec_len()
            == 1
    &&& chunks.len() > 0 ==> forall|k: int|
        0 <= k < outs.len() ==> (#[trigger] outs[k]).spec_schema_eq(chunks[0])
    &&& cur matches Some(c) ==> {
        &&& c.wf()
        &&& c.spec_len() > 0
        &&& (c.spec_byte_size() <= budget || c.spec_len() == 1)
        &&& (chunks.len() > 0 ==> c.spec_schema_eq(chunks[0]))
    }
}

/// The content bookkeeping of the merge loop: emitted plus pending rows are
/// exactly the processed prefix's rows.
pub open spec fn merge_content_inv(
    outs: Seq<FeatureCollection>,
    cur: Option<FeatureCollection>,
    done_geoms: Seq<Seq<Coordinate2D>>,
    done_times: Seq<TimeInterval>,
) -> bool {
    &&& concat_geoms(outs) + cur_geoms(cur) == done_geoms
    &&& concat_times(outs) + cur_times(cur) == done_times
}

/// `lemma_concat_push` for all columns at once.
pub proof fn lemma_concat_push_all(cs: Seq<FeatureCollection>, c: FeatureCollection, ncols: int)
    ensures
        concat_geoms(cs.push(c)) == concat_geoms(cs) + c.geoms(),
        concat_times(cs.push(c)) == concat_times(cs) + c.time_seq(),
        forall|j: int|
            0 <= j < ncols ==> #[trigger] concat_col(cs.push(c), j) == concat_col(cs, j)
                + c.col_cells(j),
{
    lemma_concat_push(cs, c, 0);
    assert forall|j: int| 0 <= j < ncols implies #[trigger] concat_col(cs.push(c), j) == concat_col(
        cs,
        j,
    ) + c.col_cells(j) by {
        lemma_concat_push(cs, c, j);
    }
}

/// `lemma_concat_take_step` for all columns at once.
pub proof fn lemma_concat_take_step_all(cs: Seq<FeatureCollection>, i: int, ncols: int)
    requires
        0 <= i < cs.len(),
    ensures
        concat_geoms(cs.take(i + 1)) == concat_geoms(cs.take(i)) + cs[i].geoms(),
        concat_times(cs.take(i + 1)) == concat_times(cs.take(i)) + cs[i].time_seq(),
        forall|j: int|
            0 <= j < ncols ==> #[trigger] concat_col(cs.take(i + 1), j) == concat_col(cs.take(i), j)
                + cs[i].col_cells(j),
{
    lemma_concat_take_step(cs, i, 0);
    assert forall|j: int| 0 <= j < ncols implies #[trigger] concat_col(cs.take(i + 1), j)
        == concat_col(cs.take(i), j) + cs[i].col_cells(j) by {
        lemma_concat_take_step(cs, i, j);
    }
}

/// Schema equality chains from the fragment through the source chunk.
pub proof fn lemma_schema_eq_chain(
    c: FeatureCollection,
    row: FeatureCollection,
    chunk: FeatureCollection,
    first: FeatureCollection,
)
    requires
        c.spec_schema_eq(first),
        row.spec_schema_eq(chunk),
        chunk.spec_schema_eq(first),
    ensures
        c.spec_schema_eq(row),
{
    assert forall|j: int| 0 <= j < c.num_columns() implies #[trigger] c.col_name(j) == row.col_name(
        j,
    ) by {
        assert(c.col_name(j) == first.col_name(j));
        assert(chunk.col_name(j) == first.col_name(j));
        assert(row.col_name(j) == chunk.col_name(j));
    }
    assert forall|j: int| 0 <= j < c.num_columns() implies #[trigger] c.col_type(j) == row.col_type(
        j,
    ) by {
        assert(c.col_type(j) == first.col_type(j));
        assert(chunk.col_type(j) == first.col_type(j));
        assert(row.col_type(j) == chunk.col_type(j));
    }
}

/// The size of a fragment extended by one row is the fragment's exact total
/// plus that row's size, saturated.
pub proof fn lemma_merged_size(
    merged: FeatureCollection,
    c: FeatureCollection,
    row: FeatureCollection,
    chunk: FeatureCollection,
    ri: int,
    ncols: int,
)
    requires
        merged.geoms() == c.geoms() + row.geoms(),
        merged.spec_schema_eq(c),
        c.spec_schema_eq(row),
        row.spec_schema_eq(chunk),
        row.spec_len() == 1,
        row.geoms().len() == 1,
        merged.geoms().len() == merged.spec_len(),
        c.geoms().len() == c.spec_len(),
        0 <= ri < chunk.spec_len(),
        row.geoms()[0] == chunk.geoms()[ri],
        ncols == c.num_columns(),
    ensures
        merged.rows_byte_total(merged.spec_len() as int) == c.rows_byte_total(c.spec_len() as int)
            + chunk.spec_row_byte_size(ri),
{
    lemma_schema_cost_prefix_eq(merged, c, ncols);
    assert(merged.spec_schema_cost() == c.spec_schema_cost());
    assert(c.spec_schema_eq(chunk)) by {
        assert forall|j: int| 0 <= j < c.num_columns() implies #[trigger] c.col_type(j)
            == chunk.col_type(j) by {
            assert(c.col_type(j) == row.col_type(j));
            assert(row.col_type(j) == chunk.col_type(j));
        }
        assert forall|j: int| 0 <= j < c.num_columns() implies #[trigger] c.col_name(j)
            == chunk.col_name(j) by {
            assert(c.col_name(j) == row.col_name(j));
            assert(row.col_name(j) == chunk.col_name(j));
        }
    }
    lemma_schema_cost_prefix_eq(c, chunk, ncols);
    lemma_rows_total_prefix(merged, c, c.spec_len() as int);
    assert(merged.rows_byte_total(merged.spec_len() as int) == merged.rows_byte_total(
        c.spec_len() as int,
    ) + merged.spec_row_byte_size(c.spec_len() as int));
    assert(merged.geoms()[c.spec_len() as int] == row.geoms()[0]);
    assert(merged.spec_row_byte_size(c.spec_len() as int) == chunk.spec_row_byte_size(ri));
}

} // verus!
