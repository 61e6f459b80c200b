//! Laws of tables and of the collectors that fill them.
use vstd::prelude::*;

use crate::collector::CollectorView;
use crate::cube::CubeView;
use crate::error::ErrorView;

verus! {

/// The samples of `rows`, row after row.
pub open spec fn samples(rows: Seq<[u32; 3]>) -> Seq<u32> {
    Seq::new(3 * rows.len(), |i: int| rows[i / 3][i % 3])
}

/// The collector after `rows` were pushed into `collector` one by one, a row
/// that fails leaving it as it was.
pub open spec fn pushed(collector: CollectorView, rows: Seq<[u32; 3]>) -> CollectorView
    decreases rows.len(),
{
    if rows.len() == 0 {
        collector
    } else {
        pushed(collector, rows.drop_last()).push(rows.last()).0
    }
}

/// A table keeps its shape and its length when a row is written into it.
pub proof fn law_write_keeps_shape(cube: CubeView, at: int, rgb: [u32; 3])
    requires
        cube.wf(),
        0 <= at,
        at + 3 <= cube.rgbs.len(),
    ensures
        cube.write(at, rgb).wf(),
        cube.write(at, rgb).rgbs.len() == cube.rgbs.len(),
        cube.write(at, rgb).dim == cube.dim,
        cube.write(at, rgb).size == cube.size,
        cube.write(at, rgb).input_range == cube.input_range,
{
}

/// A fresh table is well-formed.
pub proof fn law_fresh_is_well_formed(dim: u8, size: u16)
    requires
        dim == 1 || dim == 3,
    ensures
        CubeView::zeroed(dim, size).wf(),
{
}

/// A collector over a well-formed table starts well-formed.
pub proof fn law_collector_starts_well_formed(cube: CubeView)
    requires
        cube.wf(),
    ensures
        CollectorView::with_cube(cube).wf(),
{
    law_whole_rows(cube.dim, cube.size);
}

/// A table holds a whole number of rows.
pub proof fn law_whole_rows(dim: u8, size: u16)
    ensures
        CubeView::capacity(dim, size) % 3 == 0,
{
    let cells = size * size * size;
    assert((cells * 3) % 3 == 0) by (nonlinear_arith);
    assert(CubeView::capacity(3, size) == cells * 3);
}

/// A push keeps a collector well-formed: the cursor moves by three or not at
/// all, never past the end, and the capacity stays.
pub proof fn law_push_keeps_well_formed(collector: CollectorView, rgb: [u32; 3])
    requires
        collector.wf(),
    ensures
        collector.push(rgb).0.wf(),
        collector.push(rgb).0.capacity == collector.capacity,
        collector.push(rgb).0.len == collector.len || collector.push(rgb).0.len == collector.len
            + 3,
        collector.push(rgb).0.len <= collector.capacity,
        collector.push(rgb).1 matches Ok(Some(cube)) ==> cube.wf(),
{
    if collector.has_room() {
        law_write_keeps_shape(collector.cube->0, collector.len as int, rgb);
    }
}

/// While fewer rows than the table holds have been pushed, every push was
/// taken and the table holds the rows in order, the rest of it untouched.
proof fn lemma_pushed_rows(cube: CubeView, rows: Seq<[u32; 3]>)
    requires
        cube.wf(),
        3 * rows.len() < cube.rgbs.len(),
    ensures
        pushed(CollectorView::with_cube(cube), rows) == (CollectorView {
            cube: Some(
                CubeView {
                    rgbs: samples(rows) + cube.rgbs.skip(3 * rows.len() as int),
                    ..cube
                },
            ),
            len: 3 * rows.len(),
            capacity: cube.rgbs.len(),
        }),
    decreases rows.len(),
{
    law_whole_rows(cube.dim, cube.size);
    let start = CollectorView::with_cube(cube);
    if rows.len() == 0 {
        assert(samples(rows) + cube.rgbs.skip(0) =~= cube.rgbs);
    } else {
        let before = rows.drop_last();
        lemma_pushed_rows(cube, before);
        let held = pushed(start, before);
        let at = 3 * before.len() as int;
        assert(held.has_room());
        let written = held.cube->0.write(at, rows.last());
        assert(written.rgbs =~= samples(rows) + cube.rgbs.skip(3 * rows.len() as int)) by {
            lemma_samples_extend(rows);
        }
    }
}

/// The samples of some rows are those of all but the last, then the last row.
proof fn lemma_samples_extend(rows: Seq<[u32; 3]>)
    requires
        rows.len() > 0,
    ensures
        samples(rows) =~= samples(rows.drop_last()) + seq![
            rows.last()[0],
            rows.last()[1],
            rows.last()[2],
        ],
{
    let before = rows.drop_last();
    let n = before.len() as int;
    assert forall|i: int| 0 <= i < 3 * rows.len() implies samples(rows)[i] == (samples(before)
        + seq![rows.last()[0], rows.last()[1], rows.last()[2]])[i] by {
        if i < 3 * n {
            assert(rows[i / 3] == before[i / 3]);
        } else {
            assert(i / 3 == n);
        }
    }
}

/// A collector over a table of `n` rows, `n` at least one, takes the first
/// `n - 1` rows without completing, completes on the `n`-th with the table
/// holding the `n` rows in order, and fails with `CubeIsFull` on every row
/// after that.
pub proof fn law_collector_completes_on_last_row(cube: CubeView, rows: Seq<[u32; 3]>, k: int)
    requires
        cube.wf(),
        cube.rgbs.len() > 0,
        0 <= k < rows.len(),
    ensures
        ({
            let n = cube.rgbs.len() as int / 3;
            let outcome = pushed(CollectorView::with_cube(cube), rows.take(k)).push(rows[k]).1;
            &&& k + 1 < n ==> outcome == Ok::<Option<CubeView>, ErrorView>(None)
            &&& k + 1 == n ==> outcome == Ok::<Option<CubeView>, ErrorView>(
                Some(CubeView { rgbs: samples(rows.take(n)), ..cube }),
            )
            &&& k + 1 > n ==> outcome == Err::<Option<CubeView>, ErrorView>(ErrorView::CubeIsFull)
        }),
{
    law_whole_rows(cube.dim, cube.size);
    let n = cube.rgbs.len() as int / 3;
    let start = CollectorView::with_cube(cube);
    let before = pushed(start, rows.take(k));
    if k < n {
        lemma_pushed_rows(cube, rows.take(k));
        assert(before.has_room());
        if k + 1 == n {
            let upto = rows.take(n);
            assert(upto.drop_last() == rows.take(k));
            assert(upto.last() == rows[k]);
            lemma_samples_extend(upto);
            let written = before.cube->0.write(3 * k, rows[k]);
            assert(written.rgbs =~= samples(upto));
        }
    } else {
        lemma_pushed_after_completion(cube, rows, k);
    }
}

/// Once the last row is in, the collector holds no table and stays so.
proof fn lemma_pushed_after_completion(cube: CubeView, rows: Seq<[u32; 3]>, k: int)
    requires
        cube.wf(),
        cube.rgbs.len() > 0,
        cube.rgbs.len() as int / 3 <= k <= rows.len(),
    ensures
        pushed(CollectorView::with_cube(cube), rows.take(k)).cube is None,
    decreases k,
{
    law_whole_rows(cube.dim, cube.size);
    let n = cube.rgbs.len() as int / 3;
    let start = CollectorView::with_cube(cube);
    assert(rows.take(k).drop_last() == rows.take(k - 1));
    assert(rows.take(k).last() == rows[k - 1]);
    if k == n {
        lemma_pushed_rows(cube, rows.take(k - 1));
        assert(pushed(start, rows.take(k - 1)).has_room());
    } else {
        lemma_pushed_after_completion(cube, rows, k - 1);
    }
}

} // verus!
