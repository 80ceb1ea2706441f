//! The things that stand on the grid.

use crate::entities::doodad::Doodad;
use crate::entities::resource::{ResourceProperties, ResourceState};
use crate::entities::structure::{Size, StructureProperties, StructureState};
use crate::entities::walker::{WalkerProperties, WalkerState};
use crate::production::Producer;
use vstd::prelude::*;

pub mod doodad;
pub mod resource;
pub mod structure;
pub mod walker;

verus! {

/// The kinds of things that can stand on the grid.
#[derive(PartialEq, Eq, Structural, Clone, Copy, Debug)]
pub enum EntityType {
    Road,
    Roadblock,
    Doodad,
    Resource,
    Structure,
    Walker,
}

/// A thing that can stand on the grid.
#[allow(inconsistent_fields)]
pub enum Entity {
    Road,
    Roadblock,
    Doodad { props: Doodad },
    Resource { props: ResourceProperties, state: ResourceState, producer: Option<Box<dyn Producer>> },
    Structure {
        props: StructureProperties,
        state: StructureState,
        producer: Option<Box<dyn Producer>>,
    },
    Walker { props: WalkerProperties, state: WalkerState },
}

impl Entity {
    /// The kind of this entity.
    pub open spec fn kind(self) -> EntityType {
        match self {
            Entity::Road => EntityType::Road,
            Entity::Roadblock => EntityType::Roadblock,
            Entity::Doodad { .. } => EntityType::Doodad,
            Entity::Resource { .. } => EntityType::Resource,
            Entity::Structure { .. } => EntityType::Structure,
            Entity::Walker { .. } => EntityType::Walker,
        }
    }

    /// Whether this entity keeps a cell to itself: doodads, resources and
    /// structures do; roads, roadblocks and walkers do not.
    pub open spec fn blocks(self) -> bool {
        self is Doodad || self is Resource || self is Structure
    }

    /// The name of this entity; roads and roadblocks have none.
    pub open spec fn name(self) -> Option<Seq<char>> {
        match self {
            Entity::Doodad { props } => Some(props.name@),
            Entity::Resource { props, .. } => Some(props.name@),
            Entity::Structure { props, .. } => Some(props.name@),
            Entity::Walker { props, .. } => Some(props.name@),
            _ => None,
        }
    }

    /// The cells that this entity takes when placed: a structure's size, and
    /// one cell for everything else.
    pub open spec fn extent(self) -> Size {
        match self {
            Entity::Structure { props, .. } => props.size,
            _ => Size { width: 1, height: 1 },
        }
    }

    /// Whether this entity is of the kind `entity_type` and is named `name`.
    pub open spec fn is_named(self, entity_type: EntityType, name: Seq<char>) -> bool {
        self.kind() == entity_type && self.name() == Some(name)
    }

    /// The kind of this entity.
    pub fn entity_type(&self) -> (kind: EntityType)
        ensures
            kind == self.kind(),
    {
        match self {
            Entity::Road => EntityType::Road,
            Entity::Roadblock => EntityType::Roadblock,
            Entity::Doodad { .. } => EntityType::Doodad,
            Entity::Resource { .. } => EntityType::Resource,
            Entity::Structure { .. } => EntityType::Structure,
            Entity::Walker { .. } => EntityType::Walker,
        }
    }

    /// Whether this entity keeps a cell to itself.
    pub fn is_blocking(&self) -> (blocking: bool)
        ensures
            blocking == self.blocks(),
    {
        match self {
            Entity::Doodad { .. } => true,
            Entity::Resource { .. } => true,
            Entity::Structure { .. } => true,
            Entity::Walker { .. } => false,
            Entity::Road => false,
            Entity::Roadblock => false,
        }
    }

    /// The cells that this entity takes when placed.
    pub fn footprint(&self) -> (size: Size)
        ensures
            size == self.extent(),
    {
        match self {
            Entity::Structure { props, .. } => Size {
                width: props.size.width,
                height: props.size.height,
            },
            _ => Size { width: 1, height: 1 },
        }
    }

    /// Whether this entity is of the kind `entity_type` and is named `name`.
    pub fn has_name(&self, entity_type: EntityType, name: &String) -> (named: bool)
        ensures
            named == self.is_named(entity_type, name@),
    {
        match self {
            Entity::Doodad { props } => entity_type == EntityType::Doodad && props.name == *name,
            Entity::Resource { props, .. } => entity_type == EntityType::Resource && props.name
                == *name,
            Entity::Structure { props, .. } => entity_type == EntityType::Structure && props.name
                == *name,
            Entity::Walker { props, .. } => entity_type == EntityType::Walker && props.name
                == *name,
            _ => false,
        }
    }
}

} // verus!
