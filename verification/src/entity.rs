//! The parts of an agent that the simulation moves and measures, and the
//! events that change them between ticks.

use vstd::prelude::*;
use crate::geometry::Vec3Milli;

verus! {

/// Who sent an event: an entity of the first or of the second kind.
#[derive(Clone, Copy, PartialEq, Eq, Structural, Debug)]
pub enum CoolGameEngineTID {
    Entity1(usize),
    Entity2(usize),
}

/// Where an agent is and how it moves.
#[derive(Clone, Copy, PartialEq, Eq, Structural, Debug)]
pub struct Movement {
    pub pos: Vec3Milli,
    pub speed: Vec3Milli,
    pub touching_ground: bool,
    pub against_wall: bool,
}

/// Nothing that a movement starts from.
#[derive(Clone, Copy, PartialEq, Eq, Structural, Debug)]
pub struct StaticMovement {}

/// A change to how an agent moves.
#[derive(Clone, Copy, PartialEq, Eq, Structural, Debug)]
pub enum MovementEventVariant {
    UpdatePos(Vec3Milli),
    AddToSpeed(Vec3Milli),
    UpdateSpeed(Vec3Milli),
    UpdateTouchingGround(bool),
    UpdateAgainstWall(bool),
}

/// A change to the movement of the agent `id`.
#[derive(Clone, Copy, PartialEq, Eq, Structural, Debug)]
pub struct MovementEvent {
    pub id: usize,
    pub source: Option<CoolGameEngineTID>,
    pub variant: MovementEventVariant,
}

/// `a + b`, held inside the 64-bit range.
pub open spec fn clamped_sum(a: i64, b: i64) -> i64 {
    if a + b > i64::MAX {
        i64::MAX
    } else if a + b < i64::MIN {
        i64::MIN
    } else {
        (a + b) as i64
    }
}

fn clamped_add(a: i64, b: i64) -> (r: i64)
    ensures
        r == clamped_sum(a, b),
{
    match a.checked_add(b) {
        Some(sum) => sum,
        None => if a > 0 {
            i64::MAX
        } else {
            i64::MIN
        },
    }
}

impl Movement {
    /// An agent at rest at the origin, in the air.
    pub fn from_static(static_comp: &StaticMovement) -> (movement: Self)
        ensures
            movement == (Movement {
                pos: Vec3Milli::zero_spec(),
                speed: Vec3Milli::zero_spec(),
                touching_ground: false,
                against_wall: false,
            }),
    {
        Movement {
            pos: Vec3Milli::zero(),
            speed: Vec3Milli::zero(),
            touching_ground: false,
            against_wall: false,
        }
    }

    /// The movement after `variant` has been applied to it.
    pub open spec fn updated(self, variant: MovementEventVariant) -> Movement {
        match variant {
            MovementEventVariant::UpdatePos(pos) => Movement { pos, ..self },
            MovementEventVariant::AddToSpeed(add) => Movement {
                speed: Vec3Milli {
                    x: clamped_sum(self.speed.x, add.x),
                    y: clamped_sum(self.speed.y, add.y),
                    z: clamped_sum(self.speed.z, add.z),
                },
                ..self
            },
            MovementEventVariant::UpdateSpeed(speed) => Movement { speed, ..self },
            MovementEventVariant::UpdateTouchingGround(touching_ground) => Movement {
                touching_ground,
                ..self
            },
            MovementEventVariant::UpdateAgainstWall(against_wall) => Movement {
                against_wall,
                ..self
            },
        }
    }
}

impl MovementEvent {
    pub fn new(id: usize, source: Option<CoolGameEngineTID>, variant: MovementEventVariant) -> (event:
        Self)
        ensures
            event == (MovementEvent { id, source, variant }),
    {
        Self { id, source, variant }
    }

    pub fn get_id(&self) -> (id: usize)
        ensures
            id == self.id,
    {
        self.id
    }

    pub fn get_source(&self) -> (source: Option<CoolGameEngineTID>)
        ensures
            source == self.source,
    {
        self.source
    }

    /// Changes the movement of the entity the event names, and no other.
    pub fn apply_to_component(self, components: &mut Vec<Movement>)
        requires
            self.id < old(components).len(),
        ensures
            final(components)@ == old(components)@.update(
                self.id as int,
                old(components)[self.id as int].updated(self.variant),
            ),
    {
        let before: Movement = components[self.id];
        let after: Movement = match self.variant {
            MovementEventVariant::UpdatePos(pos) => Movement { pos, ..before },
            MovementEventVariant::AddToSpeed(add) => Movement {
                speed: Vec3Milli {
                    x: clamped_add(before.speed.x, add.x),
                    y: clamped_add(before.speed.y, add.y),
                    z: clamped_add(before.speed.z, add.z),
                },
                ..before
            },
            MovementEventVariant::UpdateSpeed(speed) => Movement { speed, ..before },
            MovementEventVariant::UpdateTouchingGround(touching_ground) => Movement {
                touching_ground,
                ..before
            },
            MovementEventVariant::UpdateAgainstWall(against_wall) => Movement {
                against_wall,
                ..before
            },
        };
        components[self.id] = after;
    }
}

/// What an agent can take and do.
#[derive(Clone, Copy, PartialEq, Eq, Structural, Debug)]
pub struct Stats {
    pub static_type_id: usize,
    pub health: i32,
    pub damage: i32,
    pub stamina: i32,
    /// Speed gained on the ground by one push, in thousandths of a voxel a tick.
    pub ground_speed: i64,
    /// Upward speed gained by one jump, in thousandths of a voxel a tick.
    pub jump_height: i64,
}

/// Nothing that stats start from.
#[derive(Clone, Copy, PartialEq, Eq, Structural, Debug)]
pub struct StaticStats {}

/// A change to what an agent can take and do.
#[derive(Clone, Copy, PartialEq, Eq, Structural, Debug)]
pub enum StatEventVariant {
    UpdateHealth(i32),
    UpdateDamage(i32),
    UpdateStamina(i32),
}

/// A change to the stats of the agent `id`.
#[derive(Clone, Copy, PartialEq, Eq, Structural, Debug)]
pub struct StatEvent {
    pub id: usize,
    pub source: Option<CoolGameEngineTID>,
    pub variant: StatEventVariant,
}

impl Stats {
    /// An agent without health that jumps one voxel a tick and gains a fifth
    /// of a voxel a tick on the ground.
    pub fn from_static(static_comp: &StaticStats) -> (stats: Self)
        ensures
            stats == (Stats {
                static_type_id: 0,
                health: 0,
                damage: 0,
                stamina: 0,
                ground_speed: 200,
                jump_height: 1000,
            }),
    {
        Stats {
            static_type_id: 0,
            health: 0,
            damage: 0,
            stamina: 0,
            ground_speed: 200,
            jump_height: 1000,
        }
    }

    pub fn get_id(&self) -> (id: usize)
        ensures
            id == self.static_type_id,
    {
        self.static_type_id
    }

    /// The stats after `variant` has been applied to them.
    pub open spec fn updated(self, variant: StatEventVariant) -> Stats {
        match variant {
            StatEventVariant::UpdateHealth(health) => Stats { health, ..self },
            StatEventVariant::UpdateDamage(damage) => Stats { damage, ..self },
            StatEventVariant::UpdateStamina(stamina) => Stats { stamina, ..self },
        }
    }
}

impl StatEvent {
    pub fn get_id(&self) -> (id: usize)
        ensures
            id == self.id,
    {
        self.id
    }

    pub fn get_source(&self) -> (source: Option<CoolGameEngineTID>)
        ensures
            source == self.source,
    {
        self.source
    }

    /// Changes the stats of the entity the event names, and no other.
    pub fn apply_to_component(self, components: &mut Vec<Stats>)
        requires
            self.id < old(components).len(),
        ensures
            final(components)@ == old(components)@.update(
                self.id as int,
                old(components)[self.id as int].updated(self.variant),
            ),
    {
        let before: Stats = components[self.id];
        let after: Stats = match self.variant {
            StatEventVariant::UpdateHealth(health) => Stats { health, ..before },
            StatEventVariant::UpdateDamage(damage) => Stats { damage, ..before },
            StatEventVariant::UpdateStamina(stamina) => Stats { stamina, ..before },
        };
        components[self.id] = after;
    }
}

/// The instance that draws an agent, once it has one.
#[derive(Clone, Copy, PartialEq, Eq, Structural, Debug)]
pub struct MeshInfo {
    pub instance_id: Option<usize>,
}

/// A change to how an agent is drawn.
#[derive(Clone, Copy, PartialEq, Eq, Structural, Debug)]
pub enum MeshEventVariant {
    UpdateInstanceID(Option<usize>),
}

/// A change to the mesh of the agent `id`.
#[derive(Clone, Copy, PartialEq, Eq, Structural, Debug)]
pub struct MeshEvent {
    pub id: usize,
    pub variant: MeshEventVariant,
}

impl MeshEvent {
    pub fn get_id(&self) -> (id: usize)
        ensures
            id == self.id,
    {
        self.id
    }

    /// Mesh events come from the renderer, never from an entity.
    pub fn get_source(&self) -> (source: Option<CoolGameEngineTID>)
        ensures
            source is None,
    {
        None
    }

    /// Changes the mesh of the entity the event names, and no other.
    pub fn apply_to_component(self, components: &mut Vec<MeshInfo>)
        requires
            self.id < old(components).len(),
        ensures
            final(components)@ == old(components)@.update(
                self.id as int,
                match self.variant {
                    MeshEventVariant::UpdateInstanceID(instance_id) => (MeshInfo { instance_id }),
                },
            ),
    {
        match self.variant {
            MeshEventVariant::UpdateInstanceID(instance_id) => {
                components[self.id] = MeshInfo { instance_id };
            },
        }
    }
}

} // verus!
