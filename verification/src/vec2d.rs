//! A dense two-dimensional array stored row-major in a single growable
//! buffer, addressed by `(x, y)` with `x` the column and `y` the row.
//!
//! The buffer may hold fewer items than `width * height`: the dimensions
//! describe the addressing grid, not how much of it is filled.

use vstd::prelude::*;

verus! {

#[derive(Debug, PartialEq, Eq, Clone)]
pub enum Error {
    SliceTooLong { size: usize },
    IteratorTooLong { size: usize },
}

#[derive(Debug, PartialEq, Eq, Clone)]
pub struct Vec2d<T> {
    data: Vec<T>,
    width: usize,
    height: usize,
}

impl<T> View for Vec2d<T> {
    type V = Seq<T>;

    /// The underlying buffer, row-major.
    closed spec fn view(&self) -> Seq<T> {
        self.data@
    }
}

impl<T> Vec2d<T> {
    pub closed spec fn spec_width(&self) -> usize {
        self.width
    }

    pub closed spec fn spec_height(&self) -> usize {
        self.height
    }

    /// A container with the given dimensions whose buffer is empty but has
    /// room reserved for `width * height` items.
    pub fn with_capacity(width: usize, height: usize) -> (r: Self)
        requires
            width * height <= usize::MAX,
        ensures
            r.spec_width() == width,
            r.spec_height() == height,
            r@ == Seq::<T>::empty(),
    {
        let buffer = Vec::with_capacity(Self::calc_size(width, height));
        Self { data: buffer, width, height }
    }

    fn calc_size(width: usize, height: usize) -> (r: usize)
        requires
            width * height <= usize::MAX,
        ensures
            r == width * height,
    {
        width * height
    }

    pub fn width(&self) -> (r: usize)
        ensures
            r == self.spec_width(),
    {
        self.width
    }

    pub fn height(&self) -> (r: usize)
        ensures
            r == self.spec_height(),
    {
        self.height
    }

    /// Returns total size. i.e. `width * height`
    pub fn size(&self) -> (r: usize)
        requires
            self.spec_width() * self.spec_height() <= usize::MAX,
        ensures
            r == self.spec_width() * self.spec_height(),
    {
        self.width * self.height
    }

    /// Returns number of items in underlying buffer
    pub fn len(&self) -> (r: usize)
        ensures
            r == self@.len(),
    {
        self.data.len()
    }

    pub fn is_empty(&self) -> (r: bool)
        ensures
            r == (self@.len() == 0),
    {
        self.len() == 0
    }

    fn get_index(&self, x: usize, y: usize) -> (r: usize)
        requires
            y * self.spec_width() + x <= usize::MAX,
        ensures
            r == y * self.spec_width() + x,
    {
        (y * self.width) + x
    }

    /// Same as `get_index` but requires `x` and `y` to be in bounds.
    fn get_index_assert(&self, x: usize, y: usize) -> (r: usize)
        requires
            x < self.spec_width(),
            y < self.spec_height(),
            self.spec_width() * self.spec_height() <= usize::MAX,
        ensures
            r == y * self.spec_width() + x,
            r < self.spec_width() * self.spec_height(),
    {
        proof {
            assert(y * self.spec_width() + x < self.spec_width() * self.spec_height())
                by (nonlinear_arith)
                requires
                    x < self.spec_width(),
                    y < self.spec_height(),
            ;
        }
        self.get_index(x, y)
    }

    /// The item at `(x, y)` in the addressing grid, or, for positions past
    /// the grid's width, whatever the row-major buffer holds at
    /// `y * width + x`; `None` when that offset is past the buffer's end.
    pub fn get(&self, x: usize, y: usize) -> (r: Option<&T>)
        requires
            y * self.spec_width() + x <= usize::MAX,
        ensures
            y * self.spec_width() + x < self@.len() ==> (r matches Some(v) && *v == self@[y
                * self.spec_width() + x]),
            y * self.spec_width() + x >= self@.len() ==> r is None,
    {
        let idx = self.get_index(x, y);
        if idx < self.data.len() {
            Some(&self.data[idx])
        } else {
            None
        }
    }

    /// Mutable access to the item at `(x, y)`, addressed as [`Vec2d::get`]
    /// does.
    pub fn get_mut(&mut self, x: usize, y: usize) -> (r: Option<&mut T>)
        requires
            y * old(self).spec_width() + x <= usize::MAX,
        ensures
            final(self).spec_width() == old(self).spec_width(),
            final(self).spec_height() == old(self).spec_height(),
            y * old(self).spec_width() + x < old(self)@.len() ==> (r matches Some(e)
                && *e == old(self)@[y * old(self).spec_width() + x]
                && *final(e) == final(self)@[y * old(self).spec_width() + x]
                && final(self)@ == old(self)@.update(
                y * old(self).spec_width() + x,
                *final(e),
            )),
            y * old(self).spec_width() + x >= old(self)@.len() ==> r is None
                && final(self)@ == old(self)@,
    {
        let idx = self.get_index(x, y);
        if idx < self.data.len() {
            Some(&mut self.data[idx])
        } else {
            None
        }
    }

    /// Analogous to `Vec::insert`: inserts an element at `(x, y)`, shifting
    /// all elements after that buffer position to the right.
    pub fn insert(&mut self, x: usize, y: usize, val: T)
        requires
            x < old(self).spec_width(),
            y < old(self).spec_height(),
            old(self).spec_width() * old(self).spec_height() <= usize::MAX,
            y * old(self).spec_width() + x <= old(self)@.len(),
        ensures
            final(self)@ == old(self)@.insert(y * old(self).spec_width() + x, val),
            final(self).spec_width() == old(self).spec_width(),
            final(self).spec_height() == old(self).spec_height(),
    {
        let idx = self.get_index_assert(x, y);
        self.data.insert(idx, val)
    }

    /// Builds a container of the given dimensions from the items, in
    /// row-major order; fails when more items are supplied than
    /// `width * height` can hold. The buffer may end up holding fewer.
    pub fn from_iter(width: usize, height: usize, items: Vec<T>) -> (r: Result<Self, Error>)
        requires
            width * height <= usize::MAX,
        ensures
            items@.len() <= width * height ==> (r matches Ok(v) && v@ == items@
                && v.spec_width() == width && v.spec_height() == height),
            items@.len() > width * height ==> r == Err::<Self, Error>(
                Error::IteratorTooLong { size: (width * height) as usize },
            ),
    {
        let size = Self::calc_size(width, height);
        if items.len() > size {
            return Err(Error::IteratorTooLong { size });
        }
        Ok(Self { data: items, width, height })
    }

    /// The underlying row-major buffer.
    pub fn iter(&self) -> (r: &Vec<T>)
        ensures
            r@ == self@,
    {
        &self.data
    }

    /// Mutable access to the underlying row-major buffer.
    pub fn iter_mut(&mut self) -> (r: &mut Vec<T>)
        ensures
            (*r)@ == old(self)@,
            final(self)@ == (*final(r))@,
            final(self).spec_width() == old(self).spec_width(),
            final(self).spec_height() == old(self).spec_height(),
    {
        &mut self.data
    }

    /// Changes the dimensions, truncating the buffer when it holds more than
    /// the new grid's size.
    pub fn resize(&mut self, new_width: usize, new_height: usize)
        requires
            new_width * new_height <= usize::MAX,
        ensures
            final(self).spec_width() == new_width,
            final(self).spec_height() == new_height,
            old(self)@.len() > new_width * new_height ==> final(self)@ == old(self)@.take(
                (new_width * new_height) as int,
            ),
            old(self)@.len() <= new_width * new_height ==> final(self)@ == old(self)@,
    {
        let new_size = Self::calc_size(new_width, new_height);
        if self.data.len() > new_size {
            self.data.truncate(new_size);
        }
        self.width = new_width;
        self.height = new_height;
    }

    /// Add item to the buffer; starts a new row (the height grows by one)
    /// when the grid is full.
    pub fn push(&mut self, item: T)
        requires
            old(self).spec_width() * old(self).spec_height() <= usize::MAX,
            old(self)@.len() >= old(self).spec_width() * old(self).spec_height() ==> old(
                self,
            ).spec_height() < usize::MAX,
        ensures
            final(self)@ == old(self)@.push(item),
            final(self).spec_width() == old(self).spec_width(),
            final(self).spec_height() as int == if old(self)@.len() >= old(self).spec_width()
                * old(self).spec_height() {
                old(self).spec_height() + 1
            } else {
                old(self).spec_height() as int
            },
    {
        if self.len() >= self.size() {
            self.height = self.height + 1;
        }
        self.data.push(item);
    }

    pub fn new(width: usize, height: usize) -> (r: Self)
        ensures
            r.spec_width() == width,
            r.spec_height() == height,
            r@ == Seq::<T>::empty(),
    {
        Self { width, height, data: Vec::new() }
    }

    /// A cursor over the columns of the grid, left to right.
    pub fn column_iter(&self) -> (r: ColumnIter<'_, T>)
        ensures
            r.grid() == *self,
            r.spec_col() == 0,
            r.spec_row() == 0,
    {
        ColumnIter { v: self, col: 0, row: 0 }
    }
}

/// A cursor over one column of a [`Vec2d`], top to bottom.
pub struct SingleColumnIter<'a, T> {
    v: &'a Vec2d<T>,
    col: usize,
    row: usize,
}

impl<'a, T> SingleColumnIter<'a, T> {
    /// The container this cursor reads.
    pub closed spec fn grid(&self) -> Vec2d<T> {
        *self.v
    }

    pub closed spec fn spec_col(&self) -> usize {
        self.col
    }

    pub closed spec fn spec_row(&self) -> usize {
        self.row
    }

    /// The column lies inside the grid, and the buffer covers the grid.
    pub open spec fn wf(&self) -> bool {
        &&& self.spec_col() < self.grid().spec_width()
        &&& self.grid().spec_width() * self.grid().spec_height() <= usize::MAX
        &&& self.grid()@.len() >= self.grid().spec_width() * self.grid().spec_height()
    }

    /// The next item of the column, or `None` below the last row.
    pub fn next(&mut self) -> (r: Option<&'a T>)
        requires
            old(self).wf(),
        ensures
            final(self).grid() == old(self).grid(),
            final(self).spec_col() == old(self).spec_col(),
            old(self).spec_row() < old(self).grid().spec_height() ==> (r matches Some(x)
                && *x == old(self).grid()@[old(self).spec_row() * old(self).grid().spec_width()
                + old(self).spec_col()] && final(self).spec_row() == old(self).spec_row() + 1),
            old(self).spec_row() >= old(self).grid().spec_height() ==> r is None
                && final(self).spec_row() == old(self).spec_row(),
    {
        if self.row < self.v.height {
            let idx = self.v.get_index_assert(self.col, self.row);
            let x = &self.v.data[idx];
            self.row = self.row + 1;
            Some(x)
        } else {
            None
        }
    }
}

/// A cursor over the columns of a [`Vec2d`], left to right.
///
/// Because columns are not contiguous in memory, each step yields a nested
/// cursor over one column instead of a slice.
pub struct ColumnIter<'a, T> {
    v: &'a Vec2d<T>,
    col: usize,
    row: usize,
}

impl<'a, T> ColumnIter<'a, T> {
    /// The container this cursor reads.
    pub closed spec fn grid(&self) -> Vec2d<T> {
        *self.v
    }

    pub closed spec fn spec_col(&self) -> usize {
        self.col
    }

    pub closed spec fn spec_row(&self) -> usize {
        self.row
    }

    /// The next column of the grid, as a cursor starting at this cursor's
    /// row, or `None` past the last column.
    pub fn next(&mut self) -> (r: Option<SingleColumnIter<'a, T>>)
        ensures
            final(self).grid() == old(self).grid(),
            final(self).spec_row() == old(self).spec_row(),
            old(self).spec_col() < old(self).grid().spec_width() ==> (r matches Some(it)
                && it.grid() == old(self).grid() && it.spec_col() == old(self).spec_col()
                && it.spec_row() == old(self).spec_row()
                && final(self).spec_col() == old(self).spec_col() + 1),
            old(self).spec_col() >= old(self).grid().spec_width() ==> r is None
                && final(self).spec_col() == old(self).spec_col(),
    {
        if self.col < self.v.width {
            let iter = SingleColumnIter { v: self.v, col: self.col, row: self.row };
            self.col = self.col + 1;
            Some(iter)
        } else {
            None
        }
    }
}

impl<T: Default> Vec2d<T> {
    /// Takes the elements out of the buffer, leaving `T::default()` in each
    /// slot (the buffer keeps its length); fails, leaving the buffer
    /// untouched, when it holds more than `width * height` items.
    pub fn take_from(width: usize, height: usize, slice: &mut Vec<T>) -> (r: Result<Self, Error>)
        requires
            width * height <= usize::MAX,
        ensures
            old(slice)@.len() > width * height ==> r == Err::<Self, Error>(
                Error::SliceTooLong { size: (width * height) as usize },
            ) && final(slice)@ == old(slice)@,
            old(slice)@.len() <= width * height ==> (r matches Ok(v) && v@ == old(slice)@
                && v.spec_width() == width && v.spec_height() == height && final(slice)@.len()
                == old(slice)@.len()),
    {
        let size = Self::calc_size(width, height);
        if slice.len() > size {
            return Err(Error::SliceTooLong { size });
        }
        let n = slice.len();
        let mut data: Vec<T> = Vec::new();
        let mut i: usize = 0;
        while i < n
            invariant
                i <= n,
                data@.len() == i,
            decreases n - i,
        {
            data.push(T::default());
            i = i + 1;
        }
        core::mem::swap(slice, &mut data);
        Ok(Self { data, width, height })
    }

    /// Insert an element at `(x, y)`, overwriting what was there; when the
    /// buffer is too short it first grows up to that position with
    /// `T::default()`, adding rows (the height grows) as [`Vec2d::push`]
    /// does.
    pub fn insert_at(&mut self, x: usize, y: usize, val: T)
        requires
            x < old(self).spec_width(),
            old(self).spec_width() * old(self).spec_height() <= usize::MAX,
            (y + 1) * old(self).spec_width() + x <= usize::MAX,
            old(self)@.len() <= old(self).spec_width() * old(self).spec_height(),
        ensures
            final(self).spec_width() == old(self).spec_width(),
            final(self).spec_height() >= old(self).spec_height(),
            final(self)@.len() as int == if old(self)@.len() > y * old(self).spec_width() + x {
                old(self)@.len() as int
            } else {
                y * old(self).spec_width() + x + 1
            },
            final(self)@[y * old(self).spec_width() + x] == val,
            forall|i: int|
                0 <= i < old(self)@.len() && i != y * old(self).spec_width() + x
                    ==> final(self)@[i] == old(self)@[i],
            final(self)@.len() <= final(self).spec_width() * final(self).spec_height(),
            final(self).spec_height() > old(self).spec_height() ==> (final(self).spec_height()
                - 1) * final(self).spec_width() < final(self)@.len(),
            old(self)@.len() > y * old(self).spec_width() + x ==> final(self).spec_height()
                == old(self).spec_height(),
    {
        proof {
            assert(y * self.spec_width() + x < (y + 1) * self.spec_width() + x)
                by (nonlinear_arith)
                requires
                    self.spec_width() >= 1,
            ;
        }
        let idx = self.get_index(x, y);
        while self.data.len() <= idx
            invariant
                idx == y * self.spec_width() + x,
                x < self.spec_width(),
                (y + 1) * self.spec_width() + x <= usize::MAX,
                self.spec_width() == old(self).spec_width(),
                self.spec_height() >= old(self).spec_height(),
                self@.len() <= self.spec_width() * self.spec_height(),
                self.spec_width() * self.spec_height() <= usize::MAX,
                self.spec_height() > old(self).spec_height() ==> (self.spec_height() - 1)
                    * self.spec_width() < self@.len(),
                self@.len() >= old(self)@.len(),
                self@.len() > old(self)@.len() ==> self@.len() <= idx + 1 && old(self)@.len()
                    <= idx,
                self.spec_height() > old(self).spec_height() ==> old(self)@.len() <= idx,
                forall|i: int| 0 <= i < old(self)@.len() ==> self@[i] == old(self)@[i],
            decreases idx + 1 - self@.len(),
        {
            let ghost pre_len = self@.len();
            let ghost pre_h = self.spec_height();
            proof {
                if self@.len() >= self.spec_width() * self.spec_height() {
                    assert(self.spec_width() * (self.spec_height() + 1) == self.spec_width()
                        * self.spec_height() + self.spec_width()) by (nonlinear_arith);
                    assert(self.spec_width() * self.spec_height() + self.spec_width() <= idx
                        + self.spec_width());
                    assert(idx + self.spec_width() <= (y + 1) * self.spec_width() + x)
                        by (nonlinear_arith)
                        requires
                            idx == y * self.spec_width() + x,
                    ;
                    assert(self.spec_height() + 1 <= self.spec_width() * (self.spec_height()
                        + 1)) by (nonlinear_arith)
                        requires
                            self.spec_width() >= 1,
                    ;
                }
            }
            self.push(T::default());
            proof {
                if pre_len >= self.spec_width() * pre_h {
                    assert((pre_h + 1 - 1) * self.spec_width() == pre_h * self.spec_width())
                        by (nonlinear_arith);
                }
            }
        }
        self.data[idx] = val;
    }
}

impl<T: Copy> Vec2d<T> {
    /// Copies the first `width * height` items (at most) from the slice into
    /// a container of the given dimensions.
    pub fn clone_from_slice(width: usize, height: usize, slice: &[T]) -> (r: Self)
        requires
            width * height <= usize::MAX,
        ensures
            r.spec_width() == width,
            r.spec_height() == height,
            r@ == if slice@.len() <= width * height {
                slice@
            } else {
                slice@.take((width * height) as int)
            },
    {
        let size = Self::calc_size(width, height);
        let n = if slice.len() > size {
            size
        } else {
            slice.len()
        };
        let mut data: Vec<T> = Vec::new();
        let mut i: usize = 0;
        while i < n
            invariant
                i <= n,
                n <= slice@.len(),
                data@ == slice@.take(n as int).take(i as int),
            decreases n - i,
        {
            data.push(slice[i]);
            i = i + 1;
            proof {
                assert(data@ =~= slice@.take(n as int).take(i as int));
            }
        }
        proof {
            assert(slice@.take(n as int).take(n as int) =~= slice@.take(n as int));
            if slice@.len() <= width * height {
                assert(slice@.take(n as int) =~= slice@);
            }
        }
        Self { data, width, height }
    }

    /// A container of the given dimensions with every grid slot holding
    /// `val`.
    pub fn new_with(width: usize, height: usize, val: T) -> (r: Self)
        requires
            width * height <= usize::MAX,
        ensures
            r.spec_width() == width,
            r.spec_height() == height,
            r@ == Seq::new((width * height) as nat, |i: int| val),
    {
        let size = Self::calc_size(width, height);
        let mut data: Vec<T> = Vec::new();
        let mut i: usize = 0;
        while i < size
            invariant
                i <= size,
                data@ == Seq::new(i as nat, |j: int| val),
            decreases size - i,
        {
            data.push(val);
            i = i + 1;
            proof {
                assert(data@ =~= Seq::new(i as nat, |j: int| val));
            }
        }
        Self { data, width, height }
    }

    /// The rows of the grid, top to bottom, each holding `width` items; the
    /// buffer must be filled at least up to the grid's size.
    pub fn row_iter(&self) -> (r: Vec<Vec<T>>)
        requires
            self.spec_width() * self.spec_height() <= usize::MAX,
            self.spec_height() > 0 ==> self.spec_width() > 0,
            self@.len() >= self.spec_width() * self.spec_height(),
        ensures
            r@.len() == self.spec_height(),
            forall|y: int|
                0 <= y < self.spec_height() ==> #[trigger] r@[y]@ == self@.subrange(
                    y * self.spec_width(),
                    y * self.spec_width() + self.spec_width(),
                ),
    {
        let mut rows: Vec<Vec<T>> = Vec::new();
        let mut y: usize = 0;
        while y < self.height
            invariant
                y <= self.spec_height(),
                self.spec_width() * self.spec_height() <= usize::MAX,
                self.spec_height() > 0 ==> self.spec_width() > 0,
                self@.len() >= self.spec_width() * self.spec_height(),
                rows@.len() == y,
                forall|yy: int|
                    0 <= yy < y ==> #[trigger] rows@[yy]@ == self@.subrange(
                        yy * self.spec_width(),
                        yy * self.spec_width() + self.spec_width(),
                    ),
            decreases self.spec_height() - y,
        {
            let mut row: Vec<T> = Vec::new();
            let mut x: usize = 0;
            proof {
                assert(y * self.spec_width() + self.spec_width() <= self.spec_width()
                    * self.spec_height()) by (nonlinear_arith)
                    requires
                        y < self.spec_height(),
                ;
                assert(row@ =~= self@.subrange(
                    y * self.spec_width(),
                    y * self.spec_width() + x,
                ));
            }
            while x < self.width
                invariant
                    x <= self.spec_width(),
                    y < self.spec_height(),
                    self.spec_width() * self.spec_height() <= usize::MAX,
                    self@.len() >= self.spec_width() * self.spec_height(),
                    y * self.spec_width() + self.spec_width() <= self.spec_width()
                        * self.spec_height(),
                    row@ == self@.subrange(
                        y * self.spec_width(),
                        y * self.spec_width() + x,
                    ),
                decreases self.spec_width() - x,
            {
                let idx = self.get_index_assert(x, y);
                proof {
                    assert(idx < self@.len());
                }
                row.push(self.data[idx]);
                x = x + 1;
                proof {
                    assert(row@ =~= self@.subrange(
                        y * self.spec_width(),
                        y * self.spec_width() + x,
                    ));
                }
            }
            rows.push(row);
            y = y + 1;
        }
        rows
    }

}

} // verus!
