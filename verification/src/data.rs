//! The storage primitive: a shaped, strided, shareable buffer of elements.
//!
//! A `DataBuffer` owns a host-simulated allocation together with its shape
//! and strides.  The allocation is held behind a reference-counted handle,
//! so cloning a buffer is cheap, never copies the contents, and the
//! allocation is released only when the last referencing buffer is dropped.

use vstd::prelude::*;
use vstd::string::StringExecFns;
use std::rc::Rc;
use crate::layout::{
    compact_strides, compact_strides_total, element_count, is_compact, strides_fit,
};

verus! {

/// The element kinds a buffer can hold: plain machine words with a fixed
/// filler value for storage that has been allocated but not yet written.
pub trait Element: Copy {
    /// The value fresh, not-yet-written storage holds.
    fn filler() -> Self;
}

impl Element for u32 {
    fn filler() -> Self {
        0
    }
}

impl Element for u64 {
    fn filler() -> Self {
        0
    }
}

impl Element for i32 {
    fn filler() -> Self {
        0
    }
}

impl Element for i64 {
    fn filler() -> Self {
        0
    }
}

/// Why a buffer operation failed.
#[derive(Debug)]
pub enum DataBufferError {
    /// The allocation could not be created.
    CreationError(String),
    /// The declared shape does not fit the data or the machine word.
    InvalidShape(String),
    /// The supplied contents are not usable.
    InvalidData(String),
    /// A transfer between the allocation and the host failed.
    RuntimeError(String),
}

/// A shaped buffer of elements.  The shape lists the dimension sizes; the
/// strides, of the same length and in element-count units, are compact
/// (row-major); the allocation holds exactly one element per addressable
/// index and may be shared with clones of the buffer.
#[derive(Debug)]
pub struct DataBuffer<T> {
    data: Rc<Vec<T>>,
    shape: Vec<usize>,
    strides: Vec<usize>,
}

/// The mathematical content of a buffer: its elements in row-major order,
/// its shape, and its strides.
pub ghost struct DataView<T> {
    pub data: Seq<T>,
    pub shape: Seq<usize>,
    pub strides: Seq<usize>,
}

impl<T> View for DataBuffer<T> {
    type V = DataView<T>;

    closed spec fn view(&self) -> DataView<T> {
        DataView { data: self.data@, shape: self.shape@, strides: self.strides@ }
    }
}

/// Relies on `Rc::clone`: hands out another handle to the same allocation,
/// with the same contents, without copying them.
#[verifier::external_body]
fn share_allocation<T>(rc: &Rc<Vec<T>>) -> (r: Rc<Vec<T>>)
    ensures
        r == *rc,
{
    Rc::clone(rc)
}

/// Copies the elements of a slice into a fresh vector.
fn gather_slice<T: Copy>(s: &[T]) -> (r: Vec<T>)
    ensures
        r@ == s@,
{
    let mut r: Vec<T> = Vec::new();
    let mut i: usize = 0;
    while i < s.len()
        invariant
            i <= s@.len(),
            r@ == s@.subrange(0, i as int),
        decreases s@.len() - i,
    {
        r.push(s[i]);
        i = i + 1;
        proof {
            assert(r@ =~= s@.subrange(0, i as int));
        }
    }
    proof {
        assert(r@ =~= s@);
    }
    r
}

impl<T: Element> DataBuffer<T> {
    /// Whether the buffer's metadata and allocation agree: compact strides,
    /// machine-representable partial products, one element per index.
    pub open spec fn wf(&self) -> bool {
        &&& is_compact(self@.shape, self@.strides)
        &&& strides_fit(self@.shape)
        &&& self@.data.len() == element_count(self@.shape)
    }

    /// Creates a buffer of the given shape holding the given host data.
    /// Fails exactly when the data length disagrees with the shape's element
    /// count or a partial product of the shape overflows the machine word.
    pub fn from_slice(data: &[T], shape: &[usize]) -> (r: Result<Self, DataBufferError>)
        ensures
            r matches Ok(b) ==> {
                &&& b.wf()
                &&& b@.data == data@
                &&& b@.shape == shape@
            },
            (r is Ok) == (data@.len() == element_count(shape@) && strides_fit(shape@)),
            r matches Err(e) ==> e is InvalidShape,
    {
        match compact_strides(shape) {
            None => Err(
                DataBufferError::InvalidShape(
                    String::from_str("a partial product of the shape overflows"),
                ),
            ),
            Some((strides, total)) => {
                if data.len() != total {
                    Err(
                        DataBufferError::InvalidShape(
                            String::from_str("data length disagrees with the shape"),
                        ),
                    )
                } else {
                    Ok(DataBuffer { data: Rc::new(gather_slice(data)), shape: gather_slice(shape), strides })
                }
            },
        }
    }

    /// The dimension sizes.
    pub fn shape(&self) -> (r: &[usize])
        ensures
            r@ == self@.shape,
    {
        self.shape.as_slice()
    }

    /// The per-axis strides, in element-count units.
    pub fn strides(&self) -> (r: &[usize])
        ensures
            r@ == self@.strides,
    {
        self.strides.as_slice()
    }

    /// A fresh buffer of the same shape and strides, with unwritten contents
    /// of the same byte size.
    pub fn empty_like(&self) -> (r: Self)
        requires
            self.wf(),
        ensures
            r.wf(),
            r@.shape == self@.shape,
            r@.strides == self@.strides,
            r@.data.len() == self@.data.len(),
    {
        let len = self.data.len();
        DataBuffer {
            data: Rc::new(vec![T::filler(); len]),
            shape: gather_slice(self.shape.as_slice()),
            strides: gather_slice(self.strides.as_slice()),
        }
    }

    /// A fresh buffer of the given shape with compact strides and unwritten
    /// contents.
    pub fn with_shape(shape: &[usize]) -> (r: Self)
        requires
            strides_fit(shape@),
        ensures
            r.wf(),
            r@.shape == shape@,
            r@.data.len() == element_count(shape@),
    {
        let (strides, total) = compact_strides_total(shape);
        DataBuffer {
            data: Rc::new(vec![T::filler(); total]),
            shape: gather_slice(shape),
            strides,
        }
    }

    /// Wraps finished host contents of the right length in a buffer of the
    /// given shape.
    pub fn from_vec(data: Vec<T>, shape: &[usize]) -> (r: Self)
        requires
            strides_fit(shape@),
            data@.len() == element_count(shape@),
        ensures
            r.wf(),
            r@.data == data@,
            r@.shape == shape@,
    {
        let (strides, _total) = compact_strides_total(shape);
        DataBuffer { data: Rc::new(data), shape: gather_slice(shape), strides }
    }

    /// Reads the buffer's contents back to a host vector, consuming the
    /// buffer.  On the host-simulated allocation a transfer cannot fail.
    pub fn into_vec(self) -> (r: Result<Vec<T>, DataBufferError>)
        ensures
            r matches Ok(v) && v@ == self@.data,
    {
        let contents: &Vec<T> = &self.data;
        let mut r: Vec<T> = Vec::new();
        let mut i: usize = 0;
        while i < contents.len()
            invariant
                i <= contents@.len(),
                r@ == contents@.subrange(0, i as int),
            decreases contents@.len() - i,
        {
            r.push(contents[i]);
            i = i + 1;
            proof {
                assert(r@ =~= contents@.subrange(0, i as int));
            }
        }
        proof {
            assert(r@ =~= contents@);
        }
        Ok(r)
    }
}

/// Conversion of a host value into a buffer, for callers with their own
/// tensor-like types.
pub trait ToDataBuffer<T: Element> {
    /// Builds a buffer holding this value's contents.
    fn to_data_buffer(&self) -> DataBuffer<T>;
}

/// Conversion of a buffer back into a host value.
pub trait FromDataBuffer<T: Element>: Sized {
    /// Rebuilds the value from a buffer's contents.
    fn from_data_buffer(buffer: DataBuffer<T>) -> Self;
}

/// A non-owning launch descriptor for a buffer: the raw contents, the
/// shape, the strides, and the vectorization line width.  It is consumed by
/// kernel dispatch and never outlives the buffer it was taken from.
pub struct TensorArg<'a, T> {
    /// The buffer contents, in row-major order of the compact layout.
    pub data: &'a [T],
    /// The dimension sizes.
    pub shape: &'a [usize],
    /// The per-axis strides, in element-count units.
    pub strides: &'a [usize],
    /// How many elements a worker handles as one line.
    pub line_size: usize,
}

impl<T: Element> DataBuffer<T> {
    /// The launch descriptor of this buffer.
    pub fn into_tensor_arg(&self, line_size: usize) -> (r: TensorArg<'_, T>)
        ensures
            r.data@ == self@.data,
            r.shape@ == self@.shape,
            r.strides@ == self@.strides,
            r.line_size == line_size,
    {
        TensorArg {
            data: self.data.as_slice(),
            shape: self.shape.as_slice(),
            strides: self.strides.as_slice(),
            line_size,
        }
    }
}

impl<T: Element> Clone for DataBuffer<T> {
    /// Another buffer over the same allocation: the handle is shared, the
    /// contents are not copied.
    fn clone(&self) -> (r: Self)
        ensures
            r@ == self@,
    {
        DataBuffer {
            data: share_allocation(&self.data),
            shape: gather_slice(self.shape.as_slice()),
            strides: gather_slice(self.strides.as_slice()),
        }
    }
}

} // verus!
