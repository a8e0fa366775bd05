//! CPU/GPU dual-resident typed arrays with deferred synchronization.
//!
//! A `GPUVec` owns an optional CPU-side array and an optional backend
//! buffer, together with a dirtiness flag.  Uploads happen lazily, a
//! clean buffer is never re-uploaded, and the CPU side can be dropped
//! only after its last state has been synchronized: the contracts below
//! say all of that exactly, against the recorded backend context.

use vstd::prelude::*;
use crate::context::{same_raster_state, sat64, RenderContext};

verus! {

/// Which binding slot a buffer stream feeds.
#[derive(Clone, Copy, PartialEq, Eq, Structural, Debug)]
pub enum BufferType {
    /// A vertex attribute stream.
    Array,
    /// An index stream.
    ElementArray,
}

/// The reallocation hint handed to the backend.
#[derive(Clone, Copy, PartialEq, Eq, Structural, Debug)]
pub enum AllocationType {
    /// Filled once, drawn many times.
    StaticDraw,
    /// Refilled now and then.
    DynamicDraw,
    /// Refilled every frame.
    StreamDraw,
}

/// A backend buffer allocation: its name and, in the recorded model,
/// the data it holds.
pub struct GpuBuffer<T> {
    /// The backend name of the allocation.
    pub id: u64,
    /// What the allocation holds; its length is the allocated size.
    pub contents: Vec<T>,
}

/// A typed array resident on the CPU, the GPU, or both.
pub struct GPUVec<T> {
    /// Whether the CPU data differs from what the buffer holds.
    pub trash: bool,
    /// The element count, kept correct independently of residency.
    pub len: usize,
    /// Which slot this stream feeds.
    pub buf_type: BufferType,
    /// The backend reallocation hint.
    pub alloc_type: AllocationType,
    /// The backend allocation, once uploaded.
    pub buffer: Option<GpuBuffer<T>>,
    /// The CPU-side array, until unloaded.
    pub data: Option<Vec<T>>,
}

/// An exact copy of a vector of plain values.
pub fn copy_vec<T: Copy>(d: &Vec<T>) -> (r: Vec<T>)
    ensures
        r@ == d@,
{
    let mut v: Vec<T> = Vec::new();
    let mut k: usize = 0;
    while k < d.len()
        invariant
            k <= d@.len(),
            v@ == d@.take(k as int),
        decreases d@.len() - k,
    {
        v.push(d[k]);
        proof {
            assert(v@ =~= d@.take(k + 1 as int));
        }
        k += 1;
    }
    proof {
        assert(v@ =~= d@);
    }
    v
}

impl<T: Copy> GPUVec<T> {
    /// The element count the vector stands for, wherever the data
    /// lives.
    pub open spec fn logical_len(self) -> int {
        if self.trash {
            self.data->Some_0@.len() as int
        } else {
            self.len as int
        }
    }

    /// The vector's invariant: a dirty vector keeps its CPU source, a
    /// clean one keeps an accurate count, and a clean resident pair is
    /// synchronized.
    pub open spec fn wf(self) -> bool {
        &&& (self.trash ==> self.data is Some)
        &&& (match self.data {
            Some(d) => !self.trash ==> self.len as int == d@.len(),
            None => true,
        })
        &&& (match self.buffer {
            Some(b) => self.len as int <= b.contents@.len(),
            None => true,
        })
        &&& (match self.data {
            Some(d) => match self.buffer {
                Some(b) => !self.trash ==> b.contents@.take(d@.len() as int) == d@,
                None => true,
            },
            None => true,
        })
    }

    /// A fresh vector: CPU-resident, dirty, with no backend buffer yet.
    pub fn new(data: Vec<T>, buf_type: BufferType, alloc_type: AllocationType) -> (v: GPUVec<T>)
        ensures
            v.wf(),
            v.trash,
            v.len as int == data@.len(),
            v.buf_type == buf_type,
            v.alloc_type == alloc_type,
            v.buffer is None,
            v.data == Some(data),
    {
        let len = data.len();
        GPUVec { trash: true, len, buf_type, alloc_type, buffer: None, data: Some(data) }
    }

    /// The element count, correct whether the data lives in RAM, on
    /// the GPU, or has been dropped from both.
    pub fn len(&self) -> (r: usize)
        requires
            self.wf(),
        ensures
            r as int == self.logical_len(),
    {
        if self.trash {
            if let Some(d) = &self.data {
                d.len()
            } else {
                self.len
            }
        } else {
            self.len
        }
    }

    /// The CPU-side array, if resident.
    pub fn data(&self) -> (r: &Option<Vec<T>>)
        ensures
            r == &self.data,
    {
        &self.data
    }

    /// Replaces the CPU-side array and marks the vector dirty.
    pub fn set_data(&mut self, data: Vec<T>)
        requires
            old(self).wf(),
        ensures
            final(self).wf(),
            *final(self) == (GPUVec { trash: true, data: Some(data), ..*old(self) }),
    {
        self.data = Some(data);
        self.trash = true;
    }

    /// Appends one element to the CPU-side array, if resident, and
    /// marks the vector dirty either way.
    pub fn push(&mut self, v: T)
        requires
            old(self).wf(),
        ensures
            final(self).wf(),
            final(self).trash == (old(self).trash || old(self).data is Some),
            final(self).len == old(self).len,
            final(self).buffer == old(self).buffer,
            final(self).buf_type == old(self).buf_type,
            final(self).alloc_type == old(self).alloc_type,
            old(self).data matches Some(d) ==> final(self).data matches Some(d2) && d2@ == d@.push(
                v,
            ),
            old(self).data is None ==> final(self).data is None,
    {
        match &mut self.data {
            Some(d) => {
                d.push(v);
            },
            None => {},
        }
        if self.data.is_some() {
            self.trash = true;
        }
    }

    /// Whether a backend buffer exists.
    pub fn is_on_gpu(&self) -> (r: bool)
        ensures
            r == (self.buffer is Some),
    {
        self.buffer.is_some()
    }

    /// Whether the CPU data differs from the backend buffer.
    pub fn trash(&self) -> (r: bool)
        ensures
            r == self.trash,
    {
        self.trash
    }

    /// Whether a CPU-side array exists.
    pub fn is_on_ram(&self) -> (r: bool)
        ensures
            r == (self.data is Some),
    {
        self.data.is_some()
    }

    /// Synchronizes the backend buffer with the CPU data.  A missing
    /// buffer is allocated and filled; a dirty one is refilled, in
    /// place when the new data fits the allocation and by reallocation
    /// otherwise; a clean resident buffer triggers no transfer at all
    /// and leaves both the vector and the context untouched.
    pub fn load_to_gpu(&mut self, ctxt: &mut RenderContext)
        requires
            old(self).wf(),
        ensures
            final(self).wf(),
            !final(self).trash,
            final(self).data == old(self).data,
            final(self).buf_type == old(self).buf_type,
            final(self).alloc_type == old(self).alloc_type,
            final(self).logical_len() == old(self).logical_len(),
            same_raster_state(*old(ctxt), *final(ctxt)),
            final(ctxt).bound_array == old(ctxt).bound_array,
            final(ctxt).bound_element == old(ctxt).bound_element,
            old(self).buffer is Some && !old(self).trash ==> *final(self) == *old(self)
                && *final(ctxt) == *old(ctxt),
            old(self).buffer is None && old(self).data is None ==> final(self).buffer is None
                && final(self).len == old(self).len && *final(ctxt) == *old(ctxt),
            old(self).buffer is None ==> (old(self).data matches Some(d) ==> ({
                &&& final(self).buffer matches Some(b) && b.contents@ == d@ && b.id == old(
                    ctxt,
                ).next_id
                &&& final(self).len as int == d@.len()
                &&& *final(ctxt) == (RenderContext {
                    next_id: sat64(old(ctxt).next_id + 1) as u64,
                    uploads: sat64(old(ctxt).uploads + 1) as u64,
                    ..*old(ctxt)
                })
            })),
            old(self).buffer is Some && old(self).trash ==> (old(self).data matches Some(d)
                ==> ({
                let b0c = old(self).buffer->Some_0.contents@;
                &&& final(self).len as int == d@.len()
                &&& final(self).buffer matches Some(b) && b.id == old(self).buffer->Some_0.id && (
                if d@.len() < b0c.len() {
                    b.contents@ == d@ + b0c.skip(d@.len() as int)
                } else {
                    b.contents@ == d@
                })
                &&& *final(ctxt) == (RenderContext {
                    uploads: sat64(old(ctxt).uploads + 1) as u64,
                    ..*old(ctxt)
                })
            })),
    {
        if self.buffer.is_none() {
            let mut fresh: Option<GpuBuffer<T>> = None;
            let mut dl: usize = self.len;
            match &self.data {
                Some(d) => {
                    let id = ctxt.fresh_id();
                    ctxt.note_upload();
                    let contents = copy_vec(d);
                    dl = d.len();
                    fresh = Some(GpuBuffer { id, contents });
                },
                None => {},
            }
            if fresh.is_some() {
                self.buffer = fresh;
                self.len = dl;
            }
        } else if self.trash {
            let mut dl: usize = self.len;
            let mut replacement: Option<Vec<T>> = None;
            match &self.data {
                Some(d) => {
                    dl = d.len();
                    replacement = Some(copy_vec(d));
                },
                None => {},
            }
            match replacement {
                Some(nc) => {
                    ctxt.note_upload();
                    match &mut self.buffer {
                        Some(b) => {
                            let ghost bid = b.id;
                            proof {
                                assert(bid == old(self).buffer->Some_0.id);
                            }
                            if nc.len() < b.contents.len() {
                                let mut k: usize = 0;
                                let ghost c0 = b.contents@;
                                while k < nc.len()
                                    invariant
                                        k <= nc@.len(),
                                        nc@.len() < c0.len(),
                                        b.id == bid,
                                        b.contents@.len() == c0.len(),
                                        forall|m: int| 0 <= m < k ==> b.contents@[m] == nc@[m],
                                        forall|m: int|
                                            k <= m < c0.len() ==> b.contents@[m] == c0[m],
                                    decreases nc@.len() - k,
                                {
                                    b.contents[k] = nc[k];
                                    k += 1;
                                }
                                proof {
                                    assert(b.contents@ =~= nc@ + c0.skip(nc@.len() as int));
                                }
                            } else {
                                b.contents = nc;
                            }
                            proof {
                                assert(b.id == bid);
                            }
                        },
                        None => {},
                    }
                    self.len = dl;
                },
                None => {},
            }
        }
        self.trash = false;
        proof {
            if old(self).data is Some && self.buffer is Some {
                assert(self.buffer->Some_0.contents@.take(old(self).data->Some_0@.len() as int)
                    =~= old(self).data->Some_0@);
            }
        }
    }

    /// Synchronizes if needed, then binds the buffer to its slot.
    pub fn bind(&mut self, ctxt: &mut RenderContext)
        requires
            old(self).wf(),
        ensures
            final(self).wf(),
            !final(self).trash,
            final(self).data == old(self).data,
            final(self).buf_type == old(self).buf_type,
            final(self).alloc_type == old(self).alloc_type,
            final(self).logical_len() == old(self).logical_len(),
            final(self).buffer is Some <==> (old(self).buffer is Some || old(self).data is Some),
            same_raster_state(*old(ctxt), *final(ctxt)),
            old(self).buf_type == BufferType::Array ==> final(ctxt).bound_array == (
            match final(self).buffer {
                Some(b) => Some(b.id),
                None => None,
            }) && final(ctxt).bound_element == old(ctxt).bound_element,
            old(self).buf_type == BufferType::ElementArray ==> final(ctxt).bound_element == (
            match final(self).buffer {
                Some(b) => Some(b.id),
                None => None,
            }) && final(ctxt).bound_array == old(ctxt).bound_array,
            final(ctxt).draws == old(ctxt).draws,
            final(ctxt).uploads >= old(ctxt).uploads,
            old(self).buffer is Some && !old(self).trash ==> *final(self) == *old(self)
                && final(ctxt).uploads == old(ctxt).uploads,
    {
        self.load_to_gpu(ctxt);
        let id = match &self.buffer {
            Some(b) => Some(b.id),
            None => None,
        };
        match self.buf_type {
            BufferType::Array => {
                ctxt.bound_array = id;
            },
            BufferType::ElementArray => {
                ctxt.bound_element = id;
            },
        }
    }

    /// Unbinds this vector's slot, if it has a buffer.
    pub fn unbind(&self, ctxt: &mut RenderContext)
        ensures
            self.buffer is None ==> *final(ctxt) == *old(ctxt),
            self.buffer is Some && self.buf_type == BufferType::Array ==> *final(ctxt) == (
            RenderContext { bound_array: None, ..*old(ctxt) }),
            self.buffer is Some && self.buf_type == BufferType::ElementArray ==> *final(ctxt) == (
            RenderContext { bound_element: None, ..*old(ctxt) }),
    {
        if self.buffer.is_some() {
            match self.buf_type {
                BufferType::Array => {
                    ctxt.bound_array = None;
                },
                BufferType::ElementArray => {
                    ctxt.bound_element = None;
                },
            }
        }
    }

    /// Frees the backend buffer.  The element count stays correct even
    /// with no backing store left.
    pub fn unload_from_gpu(&mut self)
        requires
            old(self).wf(),
        ensures
            final(self).wf(),
            final(self).buffer is None,
            !final(self).trash,
            final(self).data == old(self).data,
            final(self).buf_type == old(self).buf_type,
            final(self).alloc_type == old(self).alloc_type,
            final(self).len as int == old(self).logical_len(),
    {
        let l = self.len();
        self.len = l;
        self.buffer = None;
        self.trash = false;
    }

    /// Drops the CPU-side array.  A dirty vector is synchronized to
    /// the GPU first: unsaved data is never silently discarded.
    pub fn unload_from_ram(&mut self, ctxt: &mut RenderContext)
        requires
            old(self).wf(),
        ensures
            final(self).wf(),
            final(self).data is None,
            !final(self).trash,
            final(self).buf_type == old(self).buf_type,
            final(self).alloc_type == old(self).alloc_type,
            final(self).len as int == old(self).logical_len(),
            old(self).trash ==> (old(self).data matches Some(d)
                ==> final(self).buffer matches Some(b) && b.contents@.take(d@.len() as int) == d@),
            !old(self).trash ==> final(self).buffer == old(self).buffer && *final(ctxt) == *old(
                ctxt,
            ),
    {
        if self.trash {
            self.load_to_gpu(ctxt);
            proof {
                let d = old(self).data->Some_0;
                match &self.buffer {
                    Some(b) => {
                        if old(self).buffer is Some && d@.len()
                            < old(self).buffer->Some_0.contents@.len() {
                            assert(b.contents@.take(d@.len() as int) =~= d@);
                        } else {
                            assert(b.contents@.take(d@.len() as int) =~= d@);
                        }
                    },
                    None => {},
                }
            }
        }
        self.data = None;
    }

    /// A copy of the CPU-side array, if resident.
    pub fn to_owned(&self) -> (r: Option<Vec<T>>)
        ensures
            self.data is None ==> r is None,
            self.data matches Some(d) ==> r matches Some(c) && c@ == d@,
    {
        match &self.data {
            Some(d) => Some(copy_vec(d)),
            None => None,
        }
    }
}

} // verus!
