use crate::math::Axial;
use vstd::prelude::*;
use vstd::std_specs::convert::FromSpecImpl;

verus! {

/// The cell of a scene object.
#[derive(Clone, Copy, Debug, Hash, PartialEq, Eq, Structural)]
pub struct HexPosition {
    pub x: i32,
    pub y: i32,
}

/// The picture of a scene object.
#[derive(Clone, Copy, Debug, Hash, PartialEq, Eq, Structural)]
pub struct HexTexture(pub u32);

/// The scene object under which the cells of a region hang.
#[derive(Clone, Copy, Debug, Hash, PartialEq, Eq, Structural)]
pub struct HexNodeId(pub u64);

/// What the scene object of a cell carries.
#[derive(Clone, Copy, Debug, PartialEq, Eq, Structural)]
pub struct HexBundle {
    pub position: HexPosition,
    pub texture: HexTexture,
    pub node: HexNodeId,
}

impl From<Axial> for HexPosition {
    fn from(v: Axial) -> (p: HexPosition) {
        HexPosition { x: v.q, y: v.r }
    }
}

impl FromSpecImpl<Axial> for HexPosition {
    open spec fn obeys_from_spec() -> bool {
        true
    }

    open spec fn from_spec(v: Axial) -> HexPosition {
        HexPosition { x: v.q, y: v.r }
    }
}

impl Default for HexPosition {
    fn default() -> (p: HexPosition)
        ensures
            p == (HexPosition { x: 0, y: 0 }),
    {
        HexPosition { x: 0, y: 0 }
    }
}

impl Default for HexTexture {
    fn default() -> (t: HexTexture)
        ensures
            t == HexTexture(0),
    {
        HexTexture(0)
    }
}

impl Default for HexNodeId {
    fn default() -> (n: HexNodeId)
        ensures
            n == HexNodeId(0),
    {
        HexNodeId(0)
    }
}

impl Default for HexBundle {
    fn default() -> (b: HexBundle)
        ensures
            b == (HexBundle {
                position: HexPosition { x: 0, y: 0 },
                texture: HexTexture(0),
                node: HexNodeId(0),
            }),
    {
        HexBundle {
            position: HexPosition { x: 0, y: 0 },
            texture: HexTexture(0),
            node: HexNodeId(0),
        }
    }
}

impl HexPosition {
    /// The cell of this position.
    pub open spec fn spec_axial(&self) -> Axial {
        Axial { q: self.x, r: self.y }
    }

    /// The cell of this position.
    #[verifier::when_used_as_spec(spec_axial)]
    pub fn axial(&self) -> (hex: Axial)
        ensures
            hex == self.spec_axial(),
    {
        Axial { q: self.x, r: self.y }
    }
}

impl HexBundle {
    /// What the scene object of a cell of a region carries before it has a
    /// picture of its own.
    pub fn of_cell(hex: Axial, node: HexNodeId) -> (b: HexBundle)
        ensures
            b == (HexBundle {
                position: HexPosition { x: hex.q, y: hex.r },
                texture: HexTexture(0),
                node,
            }),
            b.position.spec_axial() == hex,
    {
        HexBundle { position: HexPosition::from(hex), texture: HexTexture(0), node }
    }
}

} // verus!
