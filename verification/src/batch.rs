//! The geometry of one frame: vertices and indices accumulated by the draw
//! calls, handed over in one batch at the end of the frame.

use vstd::prelude::*;
use crate::geometry::Vertex;

verus! {

/// The most vertices that one frame may hold.
pub const MAX_N_VERTICES: usize = 100000;

/// The most indices that one frame may hold.
pub const MAX_N_INDICES: usize = 100000;

/// Why geometry was not taken into the frame.
#[derive(Clone, Copy, Debug, PartialEq, Eq)]
pub enum BatchError {
    /// An index refers to no vertex of the geometry it came with.
    IndexOutOfRange,
    /// The frame would hold more vertices or indices than its capacity.
    CapacityExceeded,
}

/// The one indexed draw call of a frame: the indices `[first, first + count)`.
#[derive(Clone, Copy, Debug, PartialEq, Eq)]
pub struct DrawCall {
    pub first_index: u32,
    pub index_count: u32,
}

/// The buffers of a committed frame, as they go to the device. The index
/// buffer takes `index_bytes`: the indices, four bytes for each, in the
/// byte order of the machine.
#[derive(Debug)]
pub struct Frame {
    pub vertices: Vec<Vertex>,
    pub indices: Vec<u32>,
    pub index_bytes: Vec<u8>,
}

/// The byte of `value` that stands `place` bytes above its lowest.
pub open spec fn byte_of(value: u32, place: int) -> u8 {
    if place == 0 {
        (value as int % 256) as u8
    } else if place == 1 {
        (value as int / 256 % 256) as u8
    } else if place == 2 {
        (value as int / 65536 % 256) as u8
    } else {
        (value as int / 16777216 % 256) as u8
    }
}

/// The bytes of `indices`, four for each, lowest byte first.
pub open spec fn little_endian(indices: Seq<u32>) -> Seq<u8> {
    Seq::new(4 * indices.len(), |k: int| byte_of(indices[k / 4], k % 4))
}

/// The bytes of `indices`, four for each, highest byte first.
pub open spec fn big_endian(indices: Seq<u32>) -> Seq<u8> {
    Seq::new(4 * indices.len(), |k: int| byte_of(indices[k / 4], 3 - k % 4))
}

/// `bytemuck::cast_slice` from `u32` to `u8`, copied into a vector. The
/// cast reads the memory of the slice as bytes, so the contract claims four
/// bytes for each index, in the byte order of the machine: lowest byte
/// first throughout, or highest byte first throughout.
#[verifier::external_body]
fn cast_indices(indices: &[u32]) -> (bytes: Vec<u8>)
    ensures
        bytes@ == little_endian(indices@) || bytes@ == big_endian(indices@),
{
    bytemuck::cast_slice::<u32, u8>(indices).to_vec()
}

/// The vertices and indices of the frame that is being drawn, and the number
/// of indices that the last commit handed over.
pub struct GeometryBuffer {
    vertices: Vec<Vertex>,
    indices: Vec<u32>,
    committed: u32,
    max_vertices: usize,
    max_indices: usize,
}

/// Whether every index of `indices` refers to one of `count` vertices.
pub open spec fn indices_within(indices: Seq<u32>, count: int) -> bool {
    forall|i: int| 0 <= i < indices.len() ==> (#[trigger] indices[i]) < count
}

/// Whether `n_vertices` more vertices and `n_indices` more indices fit the
/// capacity of `buffer`.
pub open spec fn fits(buffer: GeometryBuffer, n_vertices: int, n_indices: int) -> bool {
    &&& buffer.vertices().len() + n_vertices <= buffer.max_vertices()
    &&& buffer.indices().len() + n_indices <= buffer.max_indices()
}

/// The indices `indices`, each moved up by `base`.
pub open spec fn rebased(indices: Seq<u32>, base: int) -> Seq<u32> {
    Seq::new(indices.len(), |i: int| (indices[i] + base) as u32)
}

impl GeometryBuffer {
    /// The vertices accumulated since the last commit.
    pub closed spec fn vertices(&self) -> Seq<Vertex> {
        self.vertices@
    }

    /// The indices accumulated since the last commit.
    pub closed spec fn indices(&self) -> Seq<u32> {
        self.indices@
    }

    /// The number of indices that the last commit handed over.
    pub closed spec fn committed(&self) -> int {
        self.committed as int
    }

    pub closed spec fn max_vertices(&self) -> int {
        self.max_vertices as int
    }

    pub closed spec fn max_indices(&self) -> int {
        self.max_indices as int
    }

    /// The buffer is within its capacity and every index refers to a vertex
    /// of the buffer.
    pub closed spec fn wf(&self) -> bool {
        &&& self.vertices@.len() <= self.max_vertices <= u32::MAX
        &&& self.indices@.len() <= self.max_indices <= u32::MAX
        &&& indices_within(self.indices@, self.vertices@.len() as int)
    }

    /// In a well-formed buffer no index reaches the vertex count, and
    /// neither sequence is longer than its capacity.
    pub proof fn lemma_wf(&self)
        requires
            self.wf(),
        ensures
            indices_within(self.indices(), self.vertices().len() as int),
            self.vertices().len() <= self.max_vertices() <= u32::MAX,
            self.indices().len() <= self.max_indices() <= u32::MAX,
    {
    }

    /// An empty buffer for at most `max_vertices` vertices and `max_indices`
    /// indices; a capacity beyond what a 32-bit index can count is cut down
    /// to it.
    pub fn new(max_vertices: usize, max_indices: usize) -> (buffer: Self)
        ensures
            buffer.wf(),
            buffer.vertices() == Seq::<Vertex>::empty(),
            buffer.indices() == Seq::<u32>::empty(),
            buffer.committed() == 0,
            buffer.max_vertices() == if max_vertices <= u32::MAX {
                max_vertices as int
            } else {
                u32::MAX as int
            },
            buffer.max_indices() == if max_indices <= u32::MAX {
                max_indices as int
            } else {
                u32::MAX as int
            },
    {
        let max_vertices: usize = if max_vertices <= 0xffff_ffff {
            max_vertices
        } else {
            0xffff_ffff
        };
        let max_indices: usize = if max_indices <= 0xffff_ffff {
            max_indices
        } else {
            0xffff_ffff
        };
        GeometryBuffer {
            vertices: Vec::new(),
            indices: Vec::new(),
            committed: 0,
            max_vertices,
            max_indices,
        }
    }

    pub fn vertex_count(&self) -> (count: usize)
        ensures
            count == self.vertices().len(),
    {
        self.vertices.len()
    }

    pub fn index_count(&self) -> (count: usize)
        ensures
            count == self.indices().len(),
    {
        self.indices.len()
    }

    /// The most vertices that the frame may hold.
    pub fn vertex_capacity(&self) -> (capacity: usize)
        ensures
            capacity == self.max_vertices(),
    {
        self.max_vertices
    }

    /// The most indices that the frame may hold.
    pub fn index_capacity(&self) -> (capacity: usize)
        ensures
            capacity == self.max_indices(),
    {
        self.max_indices
    }

    pub fn committed_index_count(&self) -> (count: u32)
        ensures
            count == self.committed(),
    {
        self.committed
    }

    /// The vertex at `i`, if the frame holds that many.
    pub fn vertex(&self, i: usize) -> (vertex: Option<Vertex>)
        ensures
            vertex == if i < self.vertices().len() {
                Some(self.vertices()[i as int])
            } else {
                None
            },
    {
        if i < self.vertices.len() {
            Some(self.vertices[i])
        } else {
            None
        }
    }

    /// The index at `i`, if the frame holds that many.
    pub fn index(&self, i: usize) -> (index: Option<u32>)
        ensures
            index == if i < self.indices().len() {
                Some(self.indices()[i as int])
            } else {
                None
            },
    {
        if i < self.indices.len() {
            Some(self.indices[i])
        } else {
            None
        }
    }

    /// Appends `vertices` as they are, and `indices` moved up by the number
    /// of vertices that the frame held before. Geometry with an index that
    /// refers to none of its own vertices, or that does not fit the
    /// capacity, is refused and the frame stays as it was.
    pub fn add_geom(&mut self, vertices: &[Vertex], indices: &[u32]) -> (result: Result<
        (),
        BatchError,
    >)
        requires
            old(self).wf(),
        ensures
            final(self).wf(),
            final(self).committed() == old(self).committed(),
            final(self).max_vertices() == old(self).max_vertices(),
            final(self).max_indices() == old(self).max_indices(),
            !indices_within(indices@, vertices@.len() as int) ==> result == Err::<(), BatchError>(
                BatchError::IndexOutOfRange,
            ),
            indices_within(indices@, vertices@.len() as int) && !fits(
                *old(self),
                vertices@.len() as int,
                indices@.len() as int,
            ) ==> result == Err::<(), BatchError>(BatchError::CapacityExceeded),
            indices_within(indices@, vertices@.len() as int) && fits(
                *old(self),
                vertices@.len() as int,
                indices@.len() as int,
            ) ==> result == Ok::<(), BatchError>(()),
            result.is_ok() ==> final(self).vertices() == old(self).vertices() + vertices@,
            result.is_ok() ==> final(self).indices() == old(self).indices() + rebased(
                indices@,
                old(self).vertices().len() as int,
            ),
            result.is_err() ==> final(self).vertices() == old(self).vertices(),
            result.is_err() ==> final(self).indices() == old(self).indices(),
            indices_within(final(self).indices(), final(self).vertices().len() as int),
    {
        let n_vertices: usize = vertices.len();
        let n_indices: usize = indices.len();
        let mut k: usize = 0;
        while k < n_indices
            invariant
                k <= n_indices,
                n_indices == indices@.len(),
                n_vertices == vertices@.len(),
                forall|i: int| 0 <= i < k ==> (#[trigger] indices@[i]) < n_vertices,
                *self == *old(self),
                self.wf(),
            decreases n_indices - k,
        {
            if indices[k] as usize >= n_vertices {
                return Err(BatchError::IndexOutOfRange);
            }
            k += 1;
        }
        let base: usize = self.vertices.len();
        if n_vertices > self.max_vertices - base || n_indices > self.max_indices
            - self.indices.len() {
            return Err(BatchError::CapacityExceeded);
        }
        let ghost old_vertices = self.vertices@;
        let ghost old_indices = self.indices@;
        let mut i: usize = 0;
        while i < n_vertices
            invariant
                i <= n_vertices,
                n_vertices == vertices@.len(),
                base + n_vertices <= self.max_vertices <= u32::MAX,
                self.vertices@ == old_vertices + vertices@.subrange(0, i as int),
                self.indices@ == old_indices,
                old_vertices.len() == base,
                old_indices.len() + n_indices <= self.max_indices <= u32::MAX,
                indices_within(old_indices, base as int),
                self.max_vertices == old(self).max_vertices,
                self.max_indices == old(self).max_indices,
                self.committed == old(self).committed,
            decreases n_vertices - i,
        {
            self.vertices.push(vertices[i]);
            i += 1;
        }
        assert(vertices@.subrange(0, n_vertices as int) == vertices@);
        let mut j: usize = 0;
        while j < n_indices
            invariant
                j <= n_indices,
                n_indices == indices@.len(),
                n_vertices == vertices@.len(),
                base + n_vertices <= self.max_vertices <= u32::MAX,
                old_indices.len() + n_indices <= self.max_indices <= u32::MAX,
                indices_within(old_indices, base as int),
                indices_within(indices@, n_vertices as int),
                self.vertices@ == old_vertices + vertices@,
                self.indices@ == old_indices + rebased(indices@, base as int).subrange(
                    0,
                    j as int,
                ),
                old_vertices.len() == base,
                self.max_vertices == old(self).max_vertices,
                self.max_indices == old(self).max_indices,
                self.committed == old(self).committed,
            decreases n_indices - j,
        {
            let index: u32 = indices[j];
            assert(indices@[j as int] < n_vertices);
            self.indices.push(index + base as u32);
            j += 1;
        }
        assert(rebased(indices@, base as int).subrange(0, n_indices as int) == rebased(
            indices@,
            base as int,
        ));
        Ok(())
    }

    /// Hands over the buffers of the frame and empties them; the number of
    /// indices handed over is what the next draw call covers.
    pub fn commit_geom(&mut self) -> (frame: Frame)
        requires
            old(self).wf(),
        ensures
            final(self).wf(),
            frame.vertices@ == old(self).vertices(),
            frame.indices@ == old(self).indices(),
            frame.index_bytes@ == little_endian(frame.indices@) || frame.index_bytes@
                == big_endian(frame.indices@),
            indices_within(frame.indices@, frame.vertices@.len() as int),
            final(self).vertices() == Seq::<Vertex>::empty(),
            final(self).indices() == Seq::<u32>::empty(),
            final(self).committed() == old(self).indices().len(),
            final(self).max_vertices() == old(self).max_vertices(),
            final(self).max_indices() == old(self).max_indices(),
    {
        let mut vertices: Vec<Vertex> = Vec::new();
        let mut indices: Vec<u32> = Vec::new();
        std::mem::swap(&mut self.vertices, &mut vertices);
        std::mem::swap(&mut self.indices, &mut indices);
        self.committed = indices.len() as u32;
        let index_bytes: Vec<u8> = cast_indices(indices.as_slice());
        Frame { vertices, indices, index_bytes }
    }

    /// The draw call that shows the committed frame: one call over all the
    /// committed indices, and none where nothing was committed.
    pub fn draw_call(&self) -> (call: Option<DrawCall>)
        ensures
            call == if self.committed() > 0 {
                Some(DrawCall { first_index: 0, index_count: self.committed() as u32 })
            } else {
                None
            },
    {
        if self.committed > 0 {
            Some(DrawCall { first_index: 0, index_count: self.committed })
        } else {
            None
        }
    }
}

} // verus!
