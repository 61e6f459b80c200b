//! A table of colour samples and the range of its input axis.
use vstd::prelude::*;

use crate::decode::{ask, is_decoder, numbers};
use crate::error::{Error, ErrorView};
use crate::text::{cut, split_once};

verus! {

/// The closed interval that a table's input axis covers, each bound the bit
/// pattern of a `binary32` value. Nothing asks that `min` lie below `max`.
#[derive(Clone, Copy, Debug, PartialEq, Eq, Structural)]
pub struct InputRange {
    pub min: u32,
    pub max: u32,
}

/// The range that `s` writes: the text before its first delimiter and the text
/// after it, each a number to `number`. `None` where `s` holds no delimiter or
/// either part is no number.
pub open spec fn input_range_of(
    s: Seq<char>,
    number: spec_fn(Seq<char>) -> Option<u32>,
) -> Option<InputRange> {
    match split_once(s) {
        Some((low, high)) => match (number(low), number(high)) {
            (Some(min), Some(max)) => Some(InputRange { min, max }),
            _ => None,
        },
        None => None,
    }
}

/// Reads the two bounds of an input range from `s`.
///
/// Fails with `InvalidInputRange`, holding `s`, exactly where
/// [`input_range_of`] gives no range.
pub fn parse_input_range<F: Fn(&str) -> Option<u32>>(s: &str, decode: &F) -> (r: Result<
    InputRange,
    Error,
>)
    requires
        is_decoder(*decode),
    ensures
        match r {
            Ok(range) => input_range_of(s@, numbers(*decode)) == Some(range),
            Err(e) => input_range_of(s@, numbers(*decode)) is None && e@
                == ErrorView::InvalidInputRange(s@),
        },
{
    match cut(s) {
        Some((low, high)) => {
            let min = ask(decode, low);
            let max = ask(decode, high);
            match (min, max) {
                (Some(min), Some(max)) => Ok(InputRange { min, max }),
                _ => Err(Error::InvalidInputRange(s.to_owned())),
            }
        },
        None => Err(Error::InvalidInputRange(s.to_owned())),
    }
}

/// The mathematical content of a [`Cube`].
pub struct CubeView {
    /// `1` for a table indexed by one coordinate, `3` for one indexed by three.
    pub dim: u8,
    /// The edge length.
    pub size: u16,
    /// The declared range of the input axis, if any.
    pub input_range: Option<InputRange>,
    /// The samples: red, green and blue of each entry in turn.
    pub rgbs: Seq<u32>,
}

impl CubeView {
    /// How many samples a table of this shape holds: three for each of its
    /// `size` entries where `dim` is 1, three for each of its `size`³ entries
    /// otherwise.
    pub open spec fn capacity(dim: u8, size: u16) -> nat {
        if dim == 1 {
            (size * 3) as nat
        } else {
            (size * size * size * 3) as nat
        }
    }

    /// The table of this shape with every sample `0`, the pattern of `+0.0`,
    /// and no input range.
    pub open spec fn zeroed(dim: u8, size: u16) -> CubeView {
        CubeView {
            dim,
            size,
            input_range: None,
            rgbs: Seq::new(Self::capacity(dim, size), |i: int| 0u32),
        }
    }

    /// Well-formedness: the dimension is 1 or 3 and the buffer has the length
    /// that the shape asks for.
    pub open spec fn wf(self) -> bool {
        &&& self.dim == 1 || self.dim == 3
        &&& self.rgbs.len() == Self::capacity(self.dim, self.size)
    }

    /// This table with `rgb` written over the three samples from `at` on.
    pub open spec fn write(self, at: int, rgb: [u32; 3]) -> CubeView {
        CubeView {
            rgbs: self.rgbs.update(at, rgb[0]).update(at + 1, rgb[1]).update(at + 2, rgb[2]),
            ..self
        }
    }
}

/// A table of colour samples of fixed shape.
///
/// The buffer gets its length when the table is made and keeps it.
#[derive(Debug)]
pub struct Cube {
    dim: u8,
    size: u16,
    input_range: Option<InputRange>,
    rgbs: Vec<u32>,
}

impl View for Cube {
    type V = CubeView;

    closed spec fn view(&self) -> CubeView {
        CubeView {
            dim: self.dim,
            size: self.size,
            input_range: self.input_range,
            rgbs: self.rgbs@,
        }
    }
}

/// Whether a three-dimensional table of edge `size` can be addressed on this
/// machine.
pub open spec fn addressable(size: u16) -> bool {
    CubeView::capacity(3, size) <= usize::MAX
}

/// Tells whether a three-dimensional table of edge `size` can be addressed on
/// this machine.
pub fn is_addressable(size: u16) -> (r: bool)
    ensures
        r == addressable(size),
{
    let n: u64 = size as u64;
    assert(n * n <= 65535 * 65535) by (nonlinear_arith)
        requires
            n <= 65535,
    ;
    let square: u64 = n * n;
    assert(square * n <= 65535 * 65535 * 65535) by (nonlinear_arith)
        requires
            square <= 65535 * 65535,
            n <= 65535,
    ;
    let samples: u64 = square * n * 3;
    assert(samples == size * size * size * 3) by (nonlinear_arith)
        requires
            samples == square * n * 3,
            square == n * n,
            n == size,
    ;
    samples <= usize::MAX as u64
}

impl Cube {
    /// A one-dimensional table of `size` entries, all samples zero.
    pub fn one_d(size: u16) -> (cube: Cube)
        ensures
            cube@ == CubeView::zeroed(1, size),
            cube@.wf(),
            cube@.rgbs.len() == size * 3,
    {
        let n: usize = size as usize * 3;
        let cube = Cube { dim: 1, size, input_range: None, rgbs: vec![0u32; n] };
        assert(cube@.rgbs =~= CubeView::zeroed(1, size).rgbs);
        cube
    }

    /// A three-dimensional table of `size`³ entries, all samples zero.
    ///
    /// The table must be addressable on this machine, which
    /// [`is_addressable`] tells; on a 64-bit machine every size is.
    pub fn three_d(size: u16) -> (cube: Cube)
        requires
            addressable(size),
        ensures
            cube@ == CubeView::zeroed(3, size),
            cube@.wf(),
            cube@.rgbs.len() == size * size * size * 3,
    {
        let n: usize = size as usize;
        assert(n * n <= n * n * n * 3 && n * n * n <= n * n * n * 3) by (nonlinear_arith);
        let samples: usize = n * n * n * 3;
        let cube = Cube { dim: 3, size, input_range: None, rgbs: vec![0u32; samples] };
        assert(cube@.rgbs =~= CubeView::zeroed(3, size).rgbs);
        cube
    }

    /// The dimension, 1 or 3.
    pub fn dim(&self) -> (dim: u8)
        ensures
            dim == self@.dim,
    {
        self.dim
    }

    /// The edge length.
    pub fn size(&self) -> (size: u16)
        ensures
            size == self@.size,
    {
        self.size
    }

    /// The declared range of the input axis, if any.
    pub fn input_range(&self) -> (range: Option<&InputRange>)
        ensures
            match range {
                Some(r) => self@.input_range == Some(*r),
                None => self@.input_range is None,
            },
    {
        self.input_range.as_ref()
    }

    /// Sets or clears the range of the input axis.
    pub fn set_input_range(&mut self, val: Option<InputRange>)
        ensures
            final(self)@ == (CubeView { input_range: val, ..old(self)@ }),
    {
        self.input_range = val;
    }

    /// How many samples the buffer holds.
    pub fn r_len(&self) -> (len: usize)
        ensures
            len == self@.rgbs.len(),
    {
        self.rgbs.len()
    }

    /// The samples, in the order of the rows that filled them.
    pub fn raw(&self) -> (samples: &[u32])
        ensures
            samples@ == self@.rgbs,
    {
        self.rgbs.as_slice()
    }

    /// Writes `rgb` over the three samples from `at` on.
    pub(crate) fn put(&mut self, at: usize, rgb: &[u32; 3])
        requires
            at + 3 <= old(self)@.rgbs.len(),
        ensures
            final(self)@ == old(self)@.write(at as int, *rgb),
    {
        assert(at + 3 <= self.rgbs.len());
        self.rgbs[at] = rgb[0];
        self.rgbs[at + 1] = rgb[1];
        self.rgbs[at + 2] = rgb[2];
    }
}

} // verus!
