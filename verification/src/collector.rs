//! The cursor that fills a table row by row.
use vstd::prelude::*;

use crate::cube::{Cube, CubeView};
use crate::error::{Error, ErrorView};

verus! {

/// The mathematical content of a [`Collector`].
pub struct CollectorView {
    /// The table being filled; `None` once it has been handed out.
    pub cube: Option<CubeView>,
    /// How many samples have been written.
    pub len: nat,
    /// How many samples the table holds.
    pub capacity: nat,
}

impl CollectorView {
    /// The collector that starts at the first sample of `cube`.
    pub open spec fn with_cube(cube: CubeView) -> CollectorView {
        CollectorView { cube: Some(cube), len: 0, capacity: cube.rgbs.len() }
    }

    /// Well-formedness: samples are counted in threes; a table still held is
    /// well-formed, has `capacity` samples and room for a row, unless it never
    /// had any; a table handed out was full.
    pub open spec fn wf(self) -> bool {
        &&& self.len % 3 == 0
        &&& self.capacity % 3 == 0
        &&& match self.cube {
            Some(cube) => {
                &&& cube.wf()
                &&& cube.rgbs.len() == self.capacity
                &&& self.len + 3 <= self.capacity || (self.len == 0 && self.capacity == 0)
            },
            None => self.len == self.capacity && self.capacity > 0,
        }
    }

    /// Whether the held table has room for one more row.
    pub open spec fn has_room(self) -> bool {
        self.cube matches Some(cube) && self.len + 3 <= cube.rgbs.len()
    }

    /// One push of `rgb`: the collector afterwards, and what the push gives.
    ///
    /// Without room nothing changes and the push fails with `CubeIsFull`.
    /// Otherwise `rgb` is written at the cursor and the cursor moves on by
    /// three; where it thereby reaches `capacity`, the table leaves the
    /// collector and is the result.
    pub open spec fn push(self, rgb: [u32; 3]) -> (CollectorView, Result<
        Option<CubeView>,
        ErrorView,
    >) {
        if !self.has_room() {
            (self, Err(ErrorView::CubeIsFull))
        } else {
            let filled = self.cube->0.write(self.len as int, rgb);
            let next = self.len + 3;
            if next == self.capacity {
                (CollectorView { cube: None, len: next, ..self }, Ok(Some(filled)))
            } else {
                (CollectorView { cube: Some(filled), len: next, ..self }, Ok(None))
            }
        }
    }
}

/// A write cursor over a [`Cube`]: it takes rows of three samples, one at a
/// time, and hands the table back when the last one is in.
#[derive(Debug)]
pub struct Collector {
    cube: Option<Cube>,
    len: usize,
    capacity: usize,
}

impl View for Collector {
    type V = CollectorView;

    closed spec fn view(&self) -> CollectorView {
        CollectorView {
            cube: match self.cube {
                Some(cube) => Some(cube@),
                None => None,
            },
            len: self.len as nat,
            capacity: self.capacity as nat,
        }
    }
}

impl Collector {
    /// A collector that will fill `cube` from its first sample on.
    pub fn with_cube(cube: Cube) -> (collector: Collector)
        ensures
            collector@ == CollectorView::with_cube(cube@),
    {
        let capacity = cube.r_len();
        Collector { cube: Some(cube), len: 0, capacity }
    }

    /// Writes one row into the next three free samples.
    ///
    /// Gives `Ok(None)` while the table has room left after the row,
    /// `Ok(Some(table))` for the row that fills it, and `CubeIsFull` once
    /// there is no room: after the table was handed out, or for a table
    /// without samples.
    pub fn push(&mut self, rgb: &[u32; 3]) -> (r: Result<Option<Cube>, Error>)
        ensures
            final(self)@ == old(self)@.push(*rgb).0,
            match r {
                Ok(Some(cube)) => old(self)@.push(*rgb).1 == Ok::<Option<CubeView>, ErrorView>(
                    Some(cube@),
                ),
                Ok(None) => old(self)@.push(*rgb).1 == Ok::<Option<CubeView>, ErrorView>(None),
                Err(e) => old(self)@.push(*rgb).1 == Err::<Option<CubeView>, ErrorView>(e@),
            },
    {
        match self.cube.take() {
            None => Err(Error::CubeIsFull),
            Some(mut cube) => {
                let room = cube.r_len();
                if room < 3 || self.len > room - 3 {
                    self.cube = Some(cube);
                    return Err(Error::CubeIsFull);
                }
                cube.put(self.len, rgb);
                let next: usize = self.len + 3;
                self.len = next;
                if next == self.capacity {
                    Ok(Some(cube))
                } else {
                    self.cube = Some(cube);
                    Ok(None)
                }
            },
        }
    }
}

} // verus!
