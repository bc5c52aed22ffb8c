//! The world as agents see it: chunks of voxels, asked by voxel address.

use vstd::prelude::*;
use crate::geometry::{WorldChunkPos, WorldVoxelPos};
use crate::voxel::{Voxel, VoxelType, all_sides_empty};

verus! {

/// Edge lengths of a chunk, in voxels.
#[derive(Clone, Copy, PartialEq, Eq, Structural, Debug)]
pub struct ChunkDims {
    pub chunk_width: usize,
    pub chunk_height: usize,
    pub chunk_length: usize,
}

/// Longest edge a chunk may have: the longest that a voxel address can
/// count.
pub const MAX_CHUNK_EDGE: usize = 0x7fff_ffff;

impl ChunkDims {
    /// Every edge holds at least one voxel and at most `MAX_CHUNK_EDGE`, and
    /// the voxels of a chunk can be counted.
    pub open spec fn wf(&self) -> bool {
        &&& 1 <= self.chunk_width <= MAX_CHUNK_EDGE
        &&& 1 <= self.chunk_height <= MAX_CHUNK_EDGE
        &&& 1 <= self.chunk_length <= MAX_CHUNK_EDGE
        &&& self.volume() <= usize::MAX
    }

    /// Number of voxels in a chunk.
    pub open spec fn volume(&self) -> int {
        self.chunk_length * self.chunk_width * self.chunk_height
    }

    pub fn new(width: usize, length: usize, height: usize) -> (dims: Self)
        requires
            1 <= width <= MAX_CHUNK_EDGE,
            1 <= length <= MAX_CHUNK_EDGE,
            1 <= height <= MAX_CHUNK_EDGE,
            length * width * height <= usize::MAX,
        ensures
            dims.wf(),
            dims == (ChunkDims { chunk_width: width, chunk_height: height, chunk_length: length }),
    {
        Self { chunk_width: width, chunk_height: height, chunk_length: length }
    }

    /// The chunk that holds the voxel `pos`: each coordinate divided by the
    /// chunk's edge, rounded down.
    pub open spec fn chunk_of(&self, pos: WorldVoxelPos) -> WorldChunkPos {
        WorldVoxelPos {
            x: (pos.x as int / self.chunk_length as int) as i32,
            y: (pos.y as int / self.chunk_width as int) as i32,
            z: (pos.z as int / self.chunk_height as int) as i32,
        }
    }

    /// Place of the voxel `pos` in the data of the chunk that holds it.
    pub open spec fn slot_of(&self, pos: WorldVoxelPos) -> int {
        (pos.x as int % self.chunk_length as int) + (pos.y as int % self.chunk_width as int)
            * self.chunk_length + (pos.z as int % self.chunk_height as int) * (self.chunk_length
            * self.chunk_width)
    }
    /// Every voxel of the chunk `chunk` has an address in the grid.
    pub open spec fn chunk_in_grid(&self, chunk: WorldChunkPos) -> bool {
        &&& i32::MIN <= chunk.x * self.chunk_length && (chunk.x + 1) * self.chunk_length - 1
            <= i32::MAX
        &&& i32::MIN <= chunk.y * self.chunk_width && (chunk.y + 1) * self.chunk_width - 1
            <= i32::MAX
        &&& i32::MIN <= chunk.z * self.chunk_height && (chunk.z + 1) * self.chunk_height - 1
            <= i32::MAX
    }

    /// Address of the voxel kept at place `slot` of the chunk `chunk`.
    pub open spec fn voxel_of_slot(&self, chunk: WorldChunkPos, slot: int) -> WorldVoxelPos {
        WorldVoxelPos {
            x: (chunk.x * self.chunk_length + slot % (self.chunk_length as int)) as i32,
            y: (chunk.y * self.chunk_width + (slot / (self.chunk_length as int)) % (
            self.chunk_width as int)) as i32,
            z: (chunk.z * self.chunk_height + slot / (self.chunk_length * self.chunk_width)) as i32,
        }
    }
}

/// The place of a voxel in its chunk lies inside the chunk and leads back to
/// the voxel.
pub proof fn lemma_slot_of(dims: ChunkDims, pos: WorldVoxelPos)
    requires
        dims.wf(),
    ensures
        0 <= dims.slot_of(pos) < dims.volume(),
        dims.voxel_of_slot(dims.chunk_of(pos), dims.slot_of(pos)) == pos,
{
    let l = dims.chunk_length as int;
    let w = dims.chunk_width as int;
    let h = dims.chunk_height as int;
    let lx = pos.x as int % l;
    let ly = pos.y as int % w;
    let lz = pos.z as int % h;
    let slot = dims.slot_of(pos);
    vstd::arithmetic::div_mod::lemma_fundamental_div_mod(pos.x as int, l);
    vstd::arithmetic::div_mod::lemma_fundamental_div_mod(pos.y as int, w);
    vstd::arithmetic::div_mod::lemma_fundamental_div_mod(pos.z as int, h);
    assert(slot == (ly + lz * w) * l + lx && slot == lz * (l * w) + (lx + ly * l) && 0 <= lx + ly
        * l < l * w && 0 <= slot < l * w * h) by (nonlinear_arith)
        requires
            slot == lx + ly * l + lz * (l * w),
            0 <= lx < l,
            0 <= ly < w,
            0 <= lz < h,
    ;
    vstd::arithmetic::div_mod::lemma_fundamental_div_mod_converse(slot, l, ly + lz * w, lx);
    vstd::arithmetic::div_mod::lemma_fundamental_div_mod_converse(ly + lz * w, w, lz, ly);
    vstd::arithmetic::div_mod::lemma_fundamental_div_mod_converse(slot, l * w, lz, lx + ly * l);
    let cx = pos.x as int / l;
    let cy = pos.y as int / w;
    let cz = pos.z as int / h;
    assert(l * cx == cx * l && w * cy == cy * w && h * cz == cz * h) by (nonlinear_arith);
    assert(-0x8000_0000 <= cx <= 0x7fff_ffff) by (nonlinear_arith)
        requires
            pos.x == cx * l + lx,
            0 <= lx < l,
            -0x8000_0000 <= pos.x <= 0x7fff_ffff,
    ;
    assert(-0x8000_0000 <= cy <= 0x7fff_ffff) by (nonlinear_arith)
        requires
            pos.y == cy * w + ly,
            0 <= ly < w,
            -0x8000_0000 <= pos.y <= 0x7fff_ffff,
    ;
    assert(-0x8000_0000 <= cz <= 0x7fff_ffff) by (nonlinear_arith)
        requires
            pos.z == cz * h + lz,
            0 <= lz < h,
            -0x8000_0000 <= pos.z <= 0x7fff_ffff,
    ;
    let chunk = dims.chunk_of(pos);
    assert(chunk.x == cx && chunk.y == cy && chunk.z == cz);
    assert(slot % l == lx && (slot / l) % w == ly && slot / (l * w) == lz);
    assert(chunk.x * l + slot % l == pos.x);
    assert(chunk.y * w + (slot / l) % w == pos.y);
    assert(chunk.z * h + slot / (l * w) == pos.z);
}

/// `a` divided by `edge`, rounded down, and what is left.
fn floor_div(a: i32, edge: usize) -> (r: (i32, usize))
    requires
        1 <= edge <= MAX_CHUNK_EDGE,
    ensures
        r.0 == a as int / edge as int,
        r.1 == a as int % edge as int,
        r.1 < edge,
{
    let e: i32 = edge as i32;
    if a >= 0 {
        (a / e, (a % e) as usize)
    } else {
        let m: i32 = -(a + 1);
        let q: i32 = m / e;
        let rem: i32 = m % e;
        proof {
            vstd::arithmetic::div_mod::lemma_fundamental_div_mod(m as int, e as int);
        }
        assert(a as int == (-q - 1) * e + (e - 1 - rem)) by (nonlinear_arith)
            requires
                m == -(a + 1),
                m == e * q + rem,
        ;
        assert(a as int / e as int == -q - 1 && a as int % e as int == e - 1 - rem) by {
            vstd::arithmetic::div_mod::lemma_fundamental_div_mod_converse(
                a as int,
                e as int,
                (-q - 1) as int,
                (e - 1 - rem) as int,
            );
        }
        (-q - 1, (e - 1 - rem) as usize)
    }
}

/// The voxels of one chunk.
pub struct MapChunk<V: Voxel> {
    pub voxels: Vec<V>,
    pub chunk_coord: WorldChunkPos,
}

/// The chunks that exist, the kinds of voxel they may hold, and the size of
/// a chunk.
pub struct GameMap<V: Voxel> {
    pub chunks: Vec<MapChunk<V>>,
    pub dims: ChunkDims,
    pub voxel_types: Vec<V::VT>,
}

impl<V: Voxel> GameMap<V> {
    /// The chunk size is valid and every chunk holds a full set of voxels.
    pub open spec fn wf(&self) -> bool {
        &&& self.dims.wf()
        &&& forall|i: int|
            0 <= i < self.chunks.len() ==> (#[trigger] self.chunks[i]).voxels.len()
                == self.dims.volume()
    }

    /// Place of the first chunk stored for `chunk`, from `from` on.
    pub open spec fn chunk_slot_from(&self, chunk: WorldChunkPos, from: int) -> Option<int>
        decreases self.chunks.len() - from,
    {
        if from < 0 || from >= self.chunks.len() {
            None
        } else if self.chunks[from].chunk_coord == chunk {
            Some(from)
        } else {
            self.chunk_slot_from(chunk, from + 1)
        }
    }

    /// Place of the chunk stored for `chunk`.
    pub open spec fn chunk_slot(&self, chunk: WorldChunkPos) -> Option<int> {
        self.chunk_slot_from(chunk, 0)
    }

    /// A chunk is stored for `chunk`.
    pub open spec fn chunk_exists(&self, chunk: WorldChunkPos) -> bool {
        self.chunk_slot(chunk) is Some
    }

    /// The voxel at `pos`, where a chunk holds one.
    pub open spec fn voxel_at(&self, pos: WorldVoxelPos) -> Option<V> {
        match self.chunk_slot(self.dims.chunk_of(pos)) {
            Some(i) => Some(self.chunks[i].voxels[self.dims.slot_of(pos)]),
            None => None,
        }
    }

    /// The voxel at `pos` exists, its kind is known, and that kind is not
    /// empty on all sides.
    pub open spec fn solid(&self, pos: WorldVoxelPos) -> bool {
        match self.voxel_at(pos) {
            Some(voxel) => voxel.voxel_id_spec() < self.voxel_types.len() && !all_sides_empty(
                self.voxel_types[voxel.voxel_id_spec() as int].sides_empty_spec(),
            ),
            None => false,
        }
    }

    /// An agent can stand at `pos`: nothing solid there, something solid
    /// right below.
    pub open spec fn walkable(&self, pos: WorldVoxelPos) -> bool {
        !self.solid(pos) && pos.z > i32::MIN && self.solid(
            WorldVoxelPos { x: pos.x, y: pos.y, z: (pos.z - 1) as i32 },
        )
    }

    /// `after` is this world with `voxel` put at `pos`: the same chunks of
    /// the same size with the same kinds of voxel, `voxel` at `pos` if a
    /// chunk holds that address, and every other voxel as it was.
    pub open spec fn becomes(&self, after: &Self, pos: WorldVoxelPos, voxel: V) -> bool {
        &&& after.dims == self.dims
        &&& after.voxel_types == self.voxel_types
        &&& after.chunks.len() == self.chunks.len()
        &&& forall|chunk: WorldChunkPos|
            #[trigger] after.chunk_exists(chunk) == self.chunk_exists(chunk)
        &&& after.voxel_at(pos) == if self.voxel_at(pos) is Some {
            Some(voxel)
        } else {
            None
        }
        &&& forall|other: WorldVoxelPos|
            other != pos ==> #[trigger] after.voxel_at(other) == self.voxel_at(other)
    }

    /// A world without chunks.
    pub fn new(dims: ChunkDims, voxel_types: Vec<V::VT>) -> (map: Self)
        requires
            dims.wf(),
        ensures
            map.wf(),
            map.dims == dims,
            map.voxel_types == voxel_types,
            map.chunks@.len() == 0,
    {
        Self { chunks: Vec::new(), dims, voxel_types }
    }

    /// The kinds of voxel that the world knows.
    pub fn get_voxel_types(&self) -> (types: &Vec<V::VT>)
        ensures
            *types == self.voxel_types,
    {
        &self.voxel_types
    }

    /// The chunk that holds the voxel `pos`.
    pub fn get_chunk_pos_i(&self, pos: WorldVoxelPos) -> (chunk: WorldChunkPos)
        requires
            self.dims.wf(),
        ensures
            chunk == self.dims.chunk_of(pos),
    {
        WorldVoxelPos {
            x: floor_div(pos.x, self.dims.chunk_length).0,
            y: floor_div(pos.y, self.dims.chunk_width).0,
            z: floor_div(pos.z, self.dims.chunk_height).0,
        }
    }

    fn find_chunk(&self, chunk_pos: WorldChunkPos) -> (slot: Option<usize>)
        ensures
            match slot {
                Some(i) => self.chunk_slot(chunk_pos) == Some(i as int) && i < self.chunks.len(),
                None => self.chunk_slot(chunk_pos) is None,
            },
    {
        let mut i: usize = 0;
        while i < self.chunks.len()
            invariant
                i <= self.chunks.len(),
                self.chunk_slot(chunk_pos) == self.chunk_slot_from(chunk_pos, i as int),
            decreases self.chunks.len() - i,
        {
            if self.chunks[i].chunk_coord == chunk_pos {
                return Some(i);
            }
            i += 1;
        }
        None
    }

    /// Whether a chunk is stored for `chunk`.
    pub fn does_chunk_exist(&self, chunk: WorldChunkPos) -> (exists: bool)
        ensures
            exists == self.chunk_exists(chunk),
    {
        self.find_chunk(chunk).is_some()
    }

    /// The chunk stored for `chunk_pos`.
    pub fn get_chunk_at(&self, chunk_pos: WorldChunkPos) -> (chunk: Option<&MapChunk<V>>)
        ensures
            chunk is Some == self.chunk_exists(chunk_pos),
            chunk is Some ==> *chunk->0 == self.chunks[self.chunk_slot(chunk_pos)->0],
    {
        match self.find_chunk(chunk_pos) {
            Some(i) => Some(&self.chunks[i]),
            None => None,
        }
    }

    fn slot_index(&self, pos: WorldVoxelPos) -> (slot: usize)
        requires
            self.dims.wf(),
        ensures
            slot == self.dims.slot_of(pos),
            slot < self.dims.volume(),
    {
        let lx: usize = floor_div(pos.x, self.dims.chunk_length).1;
        let ly: usize = floor_div(pos.y, self.dims.chunk_width).1;
        let lz: usize = floor_div(pos.z, self.dims.chunk_height).1;
        let l: usize = self.dims.chunk_length;
        let w: usize = self.dims.chunk_width;
        let h: usize = self.dims.chunk_height;
        assert(l * w <= l * w * h && ly * l < l * w && lz * (l * w) < l * w * h && lx + ly * l + lz
            * (l * w) < l * w * h) by (nonlinear_arith)
            requires
                0 <= lx < l,
                0 <= ly < w,
                0 <= lz < h,
        ;
        lx + ly * l + lz * (l * w)
    }

    /// The voxel at `pos`, where a chunk holds one.
    pub fn get_voxel_at(&self, voxel: WorldVoxelPos) -> (found: Option<&V>)
        requires
            self.wf(),
        ensures
            found is Some == self.voxel_at(voxel) is Some,
            found is Some ==> *found->0 == self.voxel_at(voxel)->0,
    {
        let chunk_pos = self.get_chunk_pos_i(voxel);
        match self.find_chunk(chunk_pos) {
            Some(i) => {
                let slot = self.slot_index(voxel);
                Some(&self.chunks[i].voxels[slot])
            },
            None => None,
        }
    }

    /// Stores a chunk at `chunk_pos` whose voxels `func` makes from their
    /// addresses. A chunk already stored there is replaced.
    pub fn generate_chunk<F: Fn(WorldVoxelPos) -> V>(&mut self, chunk_pos: WorldChunkPos, func: &F)
        requires
            old(self).wf(),
            old(self).dims.chunk_in_grid(chunk_pos),
            forall|p: WorldVoxelPos| call_requires(func, (p,)),
        ensures
            final(self).wf(),
            final(self).dims == old(self).dims,
            final(self).voxel_types == old(self).voxel_types,
            final(self).chunks.len() == if old(self).chunk_exists(chunk_pos) {
                old(self).chunks.len()
            } else {
                (old(self).chunks.len() + 1) as usize
            },
            forall|chunk: WorldChunkPos|
                #[trigger] final(self).chunk_exists(chunk) == (chunk == chunk_pos || old(
                    self,
                ).chunk_exists(chunk)),
            forall|pos: WorldVoxelPos|
                old(self).dims.chunk_of(pos) == chunk_pos ==> (#[trigger] final(self).voxel_at(
                    pos,
                )) is Some && call_ensures(func, (pos,), final(self).voxel_at(pos)->0),
            forall|pos: WorldVoxelPos|
                old(self).dims.chunk_of(pos) != chunk_pos ==> #[trigger] final(self).voxel_at(pos)
                    == old(self).voxel_at(pos),
    {
        let l: usize = self.dims.chunk_length;
        let w: usize = self.dims.chunk_width;
        let h: usize = self.dims.chunk_height;
        assert(l * w <= l * w * h && l * w >= 1) by (nonlinear_arith)
            requires
                1 <= l,
                1 <= w,
                1 <= h,
        ;
        let volume: usize = l * w * h;
        let ghost dims = self.dims;
        let mut data: Vec<V> = Vec::with_capacity(volume);
        let mut k: usize = 0;
        while k < volume
            invariant
                k <= volume,
                volume == l * w * h,
                dims.wf(),
                dims.chunk_in_grid(chunk_pos),
                l == dims.chunk_length,
                w == dims.chunk_width,
                h == dims.chunk_height,
                1 <= l * w <= volume,
                data.len() == k,
                forall|p: WorldVoxelPos| call_requires(func, (p,)),
                forall|j: int|
                    0 <= j < k ==> call_ensures(
                        func,
                        (dims.voxel_of_slot(chunk_pos, j),),
                        #[trigger] data[j],
                    ),
            decreases volume - k,
        {
            let lx: usize = k % l;
            let ly: usize = (k / l) % w;
            let lz: usize = k / (l * w);
            assert(lz < h) by (nonlinear_arith)
                requires
                    k < l * w * h,
                    lz == (k as int) / (l * w),
                    l * w >= 1,
            ;
            assert(chunk_pos.x * l + lx <= (chunk_pos.x + 1) * l - 1 && chunk_pos.y * w + ly <= (
            chunk_pos.y + 1) * w - 1 && chunk_pos.z * h + lz <= (chunk_pos.z + 1) * h - 1)
                by (nonlinear_arith)
                requires
                    lx < l,
                    ly < w,
                    lz < h,
            ;
            assert(chunk_pos.x * l <= chunk_pos.x * l + lx && chunk_pos.y * w <= chunk_pos.y * w
                + ly && chunk_pos.z * h <= chunk_pos.z * h + lz);
            assert(-0x8000_0000 * 0x8000_0000 <= chunk_pos.x * l <= 0x8000_0000 * 0x8000_0000
                && -0x8000_0000 * 0x8000_0000 <= chunk_pos.y * w <= 0x8000_0000 * 0x8000_0000
                && -0x8000_0000 * 0x8000_0000 <= chunk_pos.z * h <= 0x8000_0000 * 0x8000_0000)
                by (nonlinear_arith)
                requires
                    1 <= l <= 0x7fff_ffff,
                    1 <= w <= 0x7fff_ffff,
                    1 <= h <= 0x7fff_ffff,
                    -0x8000_0000 <= chunk_pos.x < 0x8000_0000,
                    -0x8000_0000 <= chunk_pos.y < 0x8000_0000,
                    -0x8000_0000 <= chunk_pos.z < 0x8000_0000,
            ;
            let pos = WorldVoxelPos {
                x: (chunk_pos.x as i64 * l as i64 + lx as i64) as i32,
                y: (chunk_pos.y as i64 * w as i64 + ly as i64) as i32,
                z: (chunk_pos.z as i64 * h as i64 + lz as i64) as i32,
            };
            assert(pos == dims.voxel_of_slot(chunk_pos, k as int));
            data.push(func(pos));
            k += 1;
        }
        let chunk = MapChunk { voxels: data, chunk_coord: chunk_pos };
        match self.find_chunk(chunk_pos) {
            Some(i) => {
                self.chunks[i] = chunk;
                proof {
                    self.lemma_slot_after_replace(*old(self), chunk_pos, i as int, 0);
                    old(self).lemma_chunk_slot_in_range(chunk_pos, 0);
                    assert forall|other: WorldChunkPos| self.chunk_slot(other) == old(
                        self,
                    ).chunk_slot(other) by {
                        self.lemma_slots_with_same_coords(*old(self), other, 0);
                    }
                }
            },
            None => {
                self.chunks.push(chunk);
                proof {
                    self.lemma_slot_after_push(*old(self), chunk_pos, 0);
                    assert forall|other: WorldChunkPos| other != chunk_pos implies self.chunk_slot(
                        other,
                    ) == old(self).chunk_slot(other) by {
                        self.lemma_slots_after_push_of_other(*old(self), other, 0);
                    }
                }
            },
        }
        proof {
            let place = self.chunk_slot(chunk_pos)->0;
            assert forall|pos: WorldVoxelPos| dims.chunk_of(pos) == chunk_pos implies (
            #[trigger] self.voxel_at(pos)) is Some && call_ensures(
                func,
                (pos,),
                self.voxel_at(pos)->0,
            ) by {
                lemma_slot_of(dims, pos);
                assert(call_ensures(
                    func,
                    (dims.voxel_of_slot(chunk_pos, dims.slot_of(pos)),),
                    self.chunks[place].voxels[dims.slot_of(pos)],
                ));
            }
            assert forall|pos: WorldVoxelPos| dims.chunk_of(pos) != chunk_pos implies #[trigger] self.voxel_at(
                pos,
            ) == old(self).voxel_at(pos) by {
                let other = dims.chunk_of(pos);
                old(self).lemma_chunk_slot_in_range(other, 0);
                old(self).lemma_chunk_slot_in_range(chunk_pos, 0);
            }
        }
    }

    /// Worlds that keep their chunks under the same addresses find them in
    /// the same places.
    proof fn lemma_slots_with_same_coords(self, before: Self, chunk: WorldChunkPos, from: int)
        requires
            0 <= from,
            self.chunks.len() == before.chunks.len(),
            forall|j: int|
                0 <= j < before.chunks.len() ==> (#[trigger] self.chunks[j]).chunk_coord
                    == before.chunks[j].chunk_coord,
        ensures
            self.chunk_slot_from(chunk, from) == before.chunk_slot_from(chunk, from),
        decreases before.chunks.len() - from,
    {
        if from < before.chunks.len() {
            self.lemma_slots_with_same_coords(before, chunk, from + 1);
        }
    }

    /// A chunk added for one address changes nothing for any other.
    proof fn lemma_slots_after_push_of_other(self, before: Self, chunk: WorldChunkPos, from: int)
        requires
            0 <= from,
            self.chunks.len() == before.chunks.len() + 1,
            forall|j: int|
                0 <= j < before.chunks.len() ==> (#[trigger] self.chunks[j]).chunk_coord
                    == before.chunks[j].chunk_coord,
            self.chunks[before.chunks.len() as int].chunk_coord != chunk,
        ensures
            self.chunk_slot_from(chunk, from) == before.chunk_slot_from(chunk, from),
        decreases self.chunks.len() - from,
    {
        if from < before.chunks.len() {
            self.lemma_slots_after_push_of_other(before, chunk, from + 1);
        } else if from == before.chunks.len() {
            assert(self.chunk_slot_from(chunk, from + 1) is None);
        }
    }

    /// A chunk found from `from` on stands in the world.
    proof fn lemma_chunk_slot_in_range(self, chunk: WorldChunkPos, from: int)
        requires
            0 <= from,
        ensures
            self.chunk_slot_from(chunk, from) is Some ==> from <= self.chunk_slot_from(
                chunk,
                from,
            )->0 < self.chunks.len() && self.chunks[self.chunk_slot_from(
                chunk,
                from,
            )->0].chunk_coord == chunk,
        decreases self.chunks.len() - from,
    {
        if from < self.chunks.len() && self.chunks[from].chunk_coord != chunk {
            self.lemma_chunk_slot_in_range(chunk, from + 1);
        }
    }

    proof fn lemma_slot_after_replace(self, before: Self, chunk: WorldChunkPos, i: int, from: int)
        requires
            0 <= from <= i < before.chunks.len(),
            before.chunk_slot_from(chunk, from) == Some(i),
            self.chunks.len() == before.chunks.len(),
            self.chunks[i].chunk_coord == chunk,
            forall|j: int| 0 <= j < i ==> self.chunks[j] == before.chunks[j],
        ensures
            self.chunk_slot_from(chunk, from) == Some(i),
        decreases i - from,
    {
        if from < i {
            self.lemma_slot_after_replace(before, chunk, i, from + 1);
        }
    }

    proof fn lemma_slot_after_push(self, before: Self, chunk: WorldChunkPos, from: int)
        requires
            0 <= from <= before.chunks.len(),
            before.chunk_slot_from(chunk, from) is None,
            self.chunks.len() == before.chunks.len() + 1,
            self.chunks[before.chunks.len() as int].chunk_coord == chunk,
            forall|j: int| 0 <= j < before.chunks.len() ==> self.chunks[j] == before.chunks[j],
        ensures
            self.chunk_slot_from(chunk, from) == Some(before.chunks.len() as int),
        decreases before.chunks.len() - from,
    {
        if from < before.chunks.len() {
            self.lemma_slot_after_push(before, chunk, from + 1);
        }
    }

    /// Puts `voxel` at `pos` where a chunk holds that address, and leaves the
    /// world as it is where none does.
    pub fn update_voxel_at(&mut self, pos: WorldVoxelPos, voxel: V)
        requires
            old(self).wf(),
        ensures
            final(self).wf(),
            old(self).becomes(final(self), pos, voxel),
    {
        let chunk_pos = self.get_chunk_pos_i(pos);
        match self.find_chunk(chunk_pos) {
            Some(i) => {
                let slot = self.slot_index(pos);
                self.chunks[i].voxels[slot] = voxel;
                proof {
                    let dims = self.dims;
                    assert forall|chunk: WorldChunkPos| self.chunk_slot(chunk) == old(
                        self,
                    ).chunk_slot(chunk) by {
                        self.lemma_slots_with_same_coords(*old(self), chunk, 0);
                    }
                    lemma_slot_of(dims, pos);
                    old(self).lemma_chunk_slot_in_range(chunk_pos, 0);
                    assert(self.voxel_at(pos) == Some(voxel));
                    assert forall|other: WorldVoxelPos| other != pos implies #[trigger] self.voxel_at(
                        other,
                    ) == old(self).voxel_at(other) by {
                        lemma_slot_of(dims, other);
                        let home = dims.chunk_of(other);
                        old(self).lemma_chunk_slot_in_range(home, 0);
                        assert(self.chunk_slot(home) == old(self).chunk_slot(home));
                        match old(self).chunk_slot(home) {
                            Some(j) => {
                                if j == i {
                                    assert(home == chunk_pos);
                                    assert(dims.slot_of(other) != dims.slot_of(pos));
                                } else {
                                    assert(self.chunks[j] == old(self).chunks[j]);
                                }
                            },
                            None => {},
                        }
                    }
                }
            },
            None => {},
        }
    }

    /// Whether something solid fills the voxel at `pos`.
    pub fn is_voxel_solid(&self, voxel: WorldVoxelPos) -> (solid: bool)
        requires
            self.wf(),
        ensures
            solid == self.solid(voxel),
    {
        match self.get_voxel_at(voxel) {
            Some(found) => {
                let id = found.voxel_id();
                id < self.voxel_types.len() && !self.voxel_types[id].is_completely_empty()
            },
            None => false,
        }
    }

    /// Whether an agent can stand at `pos`.
    pub fn is_walkable(&self, pos: WorldVoxelPos) -> (free: bool)
        requires
            self.wf(),
        ensures
            free == self.walkable(pos),
    {
        if self.is_voxel_solid(pos) || pos.z == i32::MIN {
            false
        } else {
            self.is_voxel_solid(WorldVoxelPos { x: pos.x, y: pos.y, z: pos.z - 1 })
        }
    }
}

/// A change to the world.
pub enum GameMapEvent<V: Voxel> {
    /// Puts this voxel at this address.
    UpdateVoxelAt(WorldVoxelPos, V),
}

impl<V: Voxel> GameMapEvent<V> {
    /// Changes to the world come from no entity.
    pub fn get_source(&self) -> (source: Option<crate::entity::CoolGameEngineTID>)
        ensures
            source is None,
    {
        None
    }

    /// Every change to the world is passed on to the other machines.
    pub fn should_sync(&self) -> (sync: bool)
        ensures
            sync,
    {
        true
    }

    /// Carries the change out on `world`.
    pub fn apply_event(self, world: &mut GameMap<V>)
        requires
            old(world).wf(),
        ensures
            final(world).wf(),
            match self {
                GameMapEvent::UpdateVoxelAt(pos, voxel) => old(world).becomes(
                    final(world),
                    pos,
                    voxel,
                ),
            },
    {
        match self {
            GameMapEvent::UpdateVoxelAt(pos, new_voxel) => {
                world.update_voxel_at(pos, new_voxel);
            },
        }
    }
}

} // verus!
