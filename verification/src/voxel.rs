//! What a voxel holds: its kind, its orientation and its light.

use vstd::prelude::*;

verus! {

/// Light held by a voxel: a level and a colour.
#[derive(Clone, Copy, PartialEq, Eq, Structural, Hash, Debug)]
pub struct VoxelLight {
    pub level: u8,
    pub r: u8,
    pub g: u8,
    pub b: u8,
}

impl VoxelLight {
    pub fn new(level: u8, r: u8, g: u8, b: u8) -> (light: Self)
        ensures
            light == (VoxelLight { level, r, g, b }),
    {
        Self { level, r, g, b }
    }

    /// Light with every channel drawn at random below 255.
    pub fn random_light() -> (light: Self)
        ensures
            light.level < 255 && light.r < 255 && light.g < 255 && light.b < 255,
    {
        Self::new(random_u8(0, 254), random_u8(0, 254), random_u8(0, 254), random_u8(0, 254))
    }

    /// Light at a level from 230 on whose colour has one channel at least, two
    /// at most, at 200 or above, and nothing in the others.
    pub fn slightly_less_random_light() -> (light: Self)
        ensures
            light.level >= 230,
            light.r == 0 || light.r >= 200,
            light.g == 0 || light.g >= 200,
            light.b == 0 || light.b >= 200,
            light.r >= 200 || light.g >= 200 || light.b >= 200,
            !(light.r >= 200 && light.g >= 200 && light.b >= 200),
    {
        let mut r: u8 = 0;
        let mut g: u8 = 0;
        let mut b: u8 = 0;
        let draws: usize = random_usize(1, 2);
        let mut i: usize = 0;
        while i < draws
            invariant
                i <= draws,
                1 <= draws <= 2,
                r == 0 || r >= 200,
                g == 0 || g >= 200,
                b == 0 || b >= 200,
                i > 0 ==> r >= 200 || g >= 200 || b >= 200,
                lit_channels(r, g, b) <= i,
            decreases draws - i,
        {
            let channel: usize = random_usize(0, 2);
            let value: u8 = random_u8(200, 255);
            if channel == 0 {
                r = value;
            } else if channel == 1 {
                g = value;
            } else {
                b = value;
            }
            i += 1;
        }
        Self { level: random_u8(230, 255), r, g, b }
    }

    /// No light at all.
    pub fn zero_light() -> (light: Self)
        ensures
            light == (VoxelLight { level: 0, r: 0, g: 0, b: 0 }),
    {
        Self { level: 0, r: 0, g: 0, b: 0 }
    }

    /// White light at full level.
    pub fn max_light() -> (light: Self)
        ensures
            light == (VoxelLight { level: 255, r: 255, g: 255, b: 255 }),
    {
        Self { level: 255, r: 255, g: 255, b: 255 }
    }
}

/// Calls `fastrand::u8` on the closed range from `low` to `high`. The
/// generator draws from the range it is given, so the result lies in it;
/// which value comes is left open.
#[verifier::external_body]
fn random_u8(low: u8, high: u8) -> (r: u8)
    requires
        low <= high,
    ensures
        low <= r <= high,
{
    fastrand::u8(low..=high)
}

/// Number of colour channels at 200 or above.
pub open spec fn lit_channels(r: u8, g: u8, b: u8) -> int {
    (if r >= 200 {
        1int
    } else {
        0int
    }) + (if g >= 200 {
        1int
    } else {
        0int
    }) + (if b >= 200 {
        1int
    } else {
        0int
    })
}

/// Calls `fastrand::usize` on the closed range from `low` to `high`. The
/// generator draws from the range it is given, so the result lies in it;
/// which value comes is left open.
#[verifier::external_body]
fn random_usize(low: usize, high: usize) -> (r: usize)
    requires
        low <= high,
    ensures
        low <= r <= high,
{
    fastrand::usize(low..=high)
}

/// How a kind of voxel is drawn.
pub enum VoxelModel {
    WrappedTexture(usize),
    SpecifiedTexture([usize; 6]),
    Custom,
}

/// The six low bits of a side mask are all set.
pub open spec fn all_sides_empty(sides: u8) -> bool {
    sides & 0b0011_1111 == 0b0011_1111
}

/// A kind of voxel, shared by every voxel of that kind.
pub trait VoxelType: Clone + Send + Sync {
    /// One bit for each side that lets things through.
    spec fn sides_empty_spec(&self) -> u8;

    fn sides_empty(&self) -> (sides: u8)
        ensures
            sides == self.sides_empty_spec(),
    ;

    fn vertices_taken(&self) -> u8;

    fn kind_of_model(&self) -> VoxelModel;

    fn light_passthrough(&self) -> VoxelLight;

    fn easy_texture(&self) -> usize;

    /// Nothing of this kind stands in the way of an agent.
    fn is_completely_empty(&self) -> (empty: bool)
        ensures
            empty == all_sides_empty(self.sides_empty_spec()),
    {
        (self.sides_empty() & 0b0011_1111) == 0b0011_1111
    }
}

/// One cell of the world grid.
pub trait Voxel: Clone + Send + Sync {
    type VT: VoxelType;

    /// Index of the voxel's kind in the world's table of kinds.
    spec fn voxel_id_spec(&self) -> usize;

    fn voxel_id(&self) -> (id: usize)
        ensures
            id == self.voxel_id_spec(),
    ;

    fn orientation(&self) -> u8;

    fn light_level(&self) -> VoxelLight;
}

/// The voxel that agents place, break and walk on.
#[derive(Clone, Copy, PartialEq, Eq, Structural, Debug)]
pub struct CoolVoxel {
    pub voxel_type: u16,
    pub orient: u8,
    pub light: VoxelLight,
}

impl CoolVoxel {
    pub fn new(voxel_type: u16, orient: u8, light: VoxelLight) -> (voxel: Self)
        ensures
            voxel == (CoolVoxel { voxel_type, orient, light }),
    {
        Self { voxel_type, orient, light }
    }
}

impl Voxel for CoolVoxel {
    type VT = CoolVoxelType;

    open spec fn voxel_id_spec(&self) -> usize {
        self.voxel_type as usize
    }

    fn voxel_id(&self) -> (id: usize) {
        self.voxel_type as usize
    }

    fn orientation(&self) -> (orient: u8)
        ensures
            orient == self.orient,
    {
        self.orient
    }

    fn light_level(&self) -> (light: VoxelLight)
        ensures
            light == self.light,
    {
        self.light
    }
}

/// A kind of `CoolVoxel`.
#[derive(Clone, Copy, PartialEq, Eq, Structural, Debug)]
pub struct CoolVoxelType {
    pub empty_sides: u8,
    pub texture: usize,
    pub light_passthrough: VoxelLight,
    pub is_light_source: Option<VoxelLight>,
}

impl CoolVoxelType {
    pub fn new(
        empty_sides: u8,
        texture: usize,
        light_passthrough: VoxelLight,
        is_light_source: Option<VoxelLight>,
    ) -> (kind: Self)
        ensures
            kind == (CoolVoxelType { empty_sides, texture, light_passthrough, is_light_source }),
    {
        Self { empty_sides, texture, light_passthrough, is_light_source }
    }
}

impl VoxelType for CoolVoxelType {
    open spec fn sides_empty_spec(&self) -> u8 {
        self.empty_sides
    }

    fn sides_empty(&self) -> (sides: u8) {
        self.empty_sides
    }

    fn vertices_taken(&self) -> (taken: u8)
        ensures
            taken == 0,
    {
        0
    }

    fn kind_of_model(&self) -> (model: VoxelModel)
        ensures
            model == VoxelModel::WrappedTexture(self.texture),
    {
        VoxelModel::WrappedTexture(self.texture)
    }

    fn light_passthrough(&self) -> (light: VoxelLight)
        ensures
            light == self.light_passthrough,
    {
        self.light_passthrough
    }

    fn easy_texture(&self) -> (texture: usize)
        ensures
            texture == self.texture,
    {
        self.texture
    }
}

/// A passage in the dungeon, which the dungeon keeps beside its voxel.
#[derive(Clone, Copy, PartialEq, Eq, Structural, Debug)]
pub struct PassageData {
    /// Opens when a passage next to it opens.
    pub open_with_adjacent: bool,
    /// The key that opens it.
    pub key_id: u16,
    pub possible_corridor: bool,
    pub is_entry: bool,
}

/// How soon a trap can go off again.
#[derive(Clone, Copy, PartialEq, Eq, Structural, Debug)]
pub enum TrapCooldown {
    SingleUse { activated: bool },
    Ticks { max: usize, current: usize },
}

/// What sets a trap off.
#[derive(Clone, Copy, PartialEq, Eq, Structural, Debug)]
pub enum ActivationType {
    AnyEntityContact,
    ProjectileContact,
    MonsterContact,
    PlayerContact,
    PlayerInteract,
    /// Every so many ticks.
    Periodic(usize),
}

} // verus!
