//! Byte buffers exchanged across the host boundary.
//!
//! The host side of the boundary hands byte slices in and takes byte vectors
//! out. Ownership is explicit: a buffer is consumed exactly once, and the
//! move semantics of the types below make a second consumption impossible.

use vstd::prelude::*;
use vstd::slice::slice_to_vec;
use vstd::string::StringSliceAdditionalSpecFns;

verus! {

/// A view of a byte slice handed in by the host for the current call.
///
/// The host's null value is fully supported, so that a missing argument can be
/// told apart from an empty one.
pub struct ByteSliceView {
    data: Option<Vec<u8>>,
}

impl View for ByteSliceView {
    type V = Option<Seq<u8>>;

    closed spec fn view(&self) -> Option<Seq<u8>> {
        match self.data {
            Some(v) => Some(v@),
            None => None,
        }
    }
}

impl ByteSliceView {
    /// A view holding a copy of the given bytes.
    pub fn new(source: &[u8]) -> (r: Self)
        ensures
            r@ == Some(source@),
    {
        ByteSliceView { data: Some(slice_to_vec(source)) }
    }

    /// The view of a null slice.
    pub fn nil() -> (r: Self)
        ensures
            r@ is None,
    {
        ByteSliceView { data: None }
    }

    /// A view holding the UTF-8 bytes of the given string.
    pub fn from_str(source: &str) -> (r: Self)
        ensures
            r@ == Some(source.spec_bytes()),
    {
        ByteSliceView { data: Some(slice_to_vec(source.as_bytes())) }
    }

    /// Borrows the carried bytes, or `None` for a null slice.
    pub fn read(&self) -> (r: Option<&Vec<u8>>)
        ensures
            match r {
                Some(v) => self@ == Some(v@),
                None => self@ is None,
            },
    {
        match &self.data {
            Some(v) => Some(v),
            None => None,
        }
    }

    /// An owned copy of the carried bytes, or `None` for a null slice.
    pub fn to_owned(&self) -> (r: Option<Vec<u8>>)
        ensures
            match r {
                Some(v) => self@ == Some(v@),
                None => self@ is None,
            },
    {
        match &self.data {
            Some(v) => Some(slice_to_vec(v.as_slice())),
            None => None,
        }
    }
}

/// An optional byte slice handed to the host, built by this library.
pub struct U8SliceView {
    data: Option<Vec<u8>>,
}

impl View for U8SliceView {
    type V = Option<Seq<u8>>;

    closed spec fn view(&self) -> Option<Seq<u8>> {
        match self.data {
            Some(v) => Some(v@),
            None => None,
        }
    }
}

impl U8SliceView {
    /// Wraps an optional slice, copying its bytes.
    pub fn new(source: Option<&[u8]>) -> (r: Self)
        ensures
            r@ == (match source {
                Some(s) => Some(s@),
                None => None::<Seq<u8>>,
            }),
    {
        match source {
            Some(s) => U8SliceView { data: Some(slice_to_vec(s)) },
            None => U8SliceView { data: None },
        }
    }
}

/// An optional byte vector with explicit, single-shot ownership.
///
/// The buffer distinguishes "none" from "present but empty"; both are legal
/// and must round-trip exactly. Taking the bytes back out goes through
/// [`UnmanagedVector::consume`], which moves the buffer: consuming twice is
/// rejected by the compiler, and a buffer that is dropped without being
/// consumed is simply freed, never leaked.
pub struct UnmanagedVector {
    data: Option<Vec<u8>>,
}

impl View for UnmanagedVector {
    type V = Option<Seq<u8>>;

    closed spec fn view(&self) -> Option<Seq<u8>> {
        match self.data {
            Some(v) => Some(v@),
            None => None,
        }
    }
}

impl UnmanagedVector {
    /// Wraps an optional vector without copying it.
    pub fn new(source: Option<Vec<u8>>) -> (r: Self)
        ensures
            r@ == (match source {
                Some(v) => Some(v@),
                None => None::<Seq<u8>>,
            }),
    {
        UnmanagedVector { data: source }
    }

    /// A present buffer holding the given bytes.
    pub fn some(data: Vec<u8>) -> (r: Self)
        ensures
            r@ == Some(data@),
    {
        UnmanagedVector { data: Some(data) }
    }

    /// A buffer holding nothing.
    pub fn none() -> (r: Self)
        ensures
            r@ is None,
    {
        UnmanagedVector { data: None }
    }

    pub fn is_none(&self) -> (r: bool)
        ensures
            r == (self@ is None),
    {
        self.data.is_none()
    }

    pub fn is_some(&self) -> (r: bool)
        ensures
            r == (self@ is Some),
    {
        !self.is_none()
    }

    /// Takes the buffer apart, yielding the carried bytes exactly as they
    /// were put in. The buffer is moved, so it can be consumed only once.
    pub fn consume(self) -> (r: Option<Vec<u8>>)
        ensures
            match r {
                Some(v) => self@ == Some(v@),
                None => self@ is None,
            },
    {
        self.data
    }
}

/// Buffers round-trip. A buffer built from bytes `b` — as
/// [`UnmanagedVector::new`] ensures — hands back exactly `b` when consumed,
/// the empty sequence included; a buffer built absent hands back nothing,
/// distinguishable from empty.
pub proof fn lemma_buffer_round_trip(b: Seq<u8>, buf: UnmanagedVector, out: Option<Vec<u8>>)
    requires
        buf@ == Some(b) || buf@ is None,
        (match out {
            Some(v) => buf@ == Some(v@),
            None => buf@ is None,
        }),
    ensures
        buf@ == Some(b) ==> (out matches Some(v) && v@ == b),
        buf@ is None ==> out is None,
{
}

impl Default for UnmanagedVector {
    /// The default buffer holds nothing.
    fn default() -> (r: Self)
        ensures
            r@ is None,
    {
        UnmanagedVector::none()
    }
}

} // verus!
