use vstd::prelude::*;

verus! {

/// Energy that one step of a jump costs.
pub const ENERGY_COST: i32 = 4;

/// The hull of the ship: what is left of it and how much it can be.
#[derive(Clone, Copy, Debug, Hash, PartialEq, Eq, Structural)]
pub struct HealthRecource {
    pub max: u16,
    pub value: u16,
}

/// The energy of the ship: what is left of it and how much it can be.
#[derive(Clone, Copy, Debug, Hash, PartialEq, Eq, Structural)]
pub struct EnergyRecource {
    pub max: u16,
    pub value: u16,
}

/// How the ship moves over the grid.
#[derive(Clone, Copy, Debug, PartialEq, Eq, Structural)]
pub struct GridMovement {
    pub cost: u32,
    pub speed: u32,
    pub distance: u32,
}

/// The ships to choose from.
#[derive(Clone, Copy, Debug, PartialEq, Eq, Structural)]
pub enum ShipKey {
    Ship1,
    Ship2,
}

/// The scene object of the grid that a player moves on.
#[derive(Clone, Copy, Debug, Hash, PartialEq, Eq, Structural)]
pub struct GridId(pub u64);

/// The energy that a jump over `dist` steps costs: four times the steps,
/// wrapped to 32 bits, of which the low 16 bits count.
pub open spec fn jump_cost(dist: i32) -> u16 {
    dist.wrapping_mul(ENERGY_COST) as u16
}

impl Default for GridMovement {
    fn default() -> (m: GridMovement)
        ensures
            m == (GridMovement { cost: 0, speed: 0, distance: 0 }),
    {
        GridMovement { cost: 0, speed: 0, distance: 0 }
    }
}

impl Default for ShipKey {
    fn default() -> (k: ShipKey)
        ensures
            k == ShipKey::Ship1,
    {
        ShipKey::Ship1
    }
}

impl ShipKey {
    /// The place of the ship's picture on the sheet.
    pub fn get_index(&self) -> (index: usize)
        ensures
            index == (match *self {
                ShipKey::Ship1 => 7usize,
                ShipKey::Ship2 => 17usize,
            }),
    {
        match self {
            ShipKey::Ship1 => 7,
            ShipKey::Ship2 => 17,
        }
    }
}

impl HealthRecource {
    /// Takes one point for a hit, if one is left, and reports whether none
    /// is left now.
    pub fn hit(&mut self) -> (lost: bool)
        ensures
            final(self).max == old(self).max,
            final(self).value == (if old(self).value > 0 {
                old(self).value - 1
            } else {
                0
            }),
            lost == (final(self).value == 0),
    {
        if self.value > 0 {
            self.value = self.value - 1;
        }
        self.value < 1
    }
}

impl EnergyRecource {
    /// Takes one point for a shot, if one is left, and reports whether none
    /// is left now.
    pub fn fire(&mut self) -> (stranded: bool)
        ensures
            final(self).max == old(self).max,
            final(self).value == (if old(self).value > 0 {
                old(self).value - 1
            } else {
                0
            }),
            stranded == (final(self).value == 0),
    {
        if self.value > 0 {
            self.value = self.value - 1;
        }
        self.value < 1
    }

    /// Reports whether a jump may start: the cell is within the range of the
    /// ship and on the grid, the ship is at rest, and the energy covers the
    /// cost.
    pub fn can_jump(&self, dist: i32, jump_range: u8, moving: bool, on_grid: bool) -> (ok: bool)
        ensures
            ok == (dist <= jump_range && !moving && self.value >= jump_cost(dist) && on_grid),
    {
        let cost = #[verifier::truncate] (dist.wrapping_mul(ENERGY_COST) as u16);
        dist <= jump_range as i32 && !moving && self.value >= cost && on_grid
    }

    /// Pays for a jump over `dist` steps; a ship that cannot pay it all pays
    /// what it has.
    pub fn pay_jump(&mut self, dist: i32)
        ensures
            final(self).max == old(self).max,
            final(self).value == (if old(self).value > jump_cost(dist) {
                old(self).value - jump_cost(dist)
            } else {
                0
            }),
    {
        let cost = #[verifier::truncate] (dist.wrapping_mul(ENERGY_COST) as u16);
        if self.value > cost {
            self.value = self.value - cost;
        } else {
            self.value = 0;
        }
    }

    /// Takes in harvested energy, up to the most that the ship holds, and
    /// reports whether the ship is left without any.
    pub fn harvest(&mut self, amount: u16) -> (stranded: bool)
        requires
            old(self).value + amount <= u16::MAX,
        ensures
            final(self).max == old(self).max,
            final(self).value == (if old(self).value + amount > old(self).max {
                old(self).max as int
            } else {
                old(self).value + amount
            }),
            stranded == (final(self).value == 0),
    {
        let sum = self.value + amount;
        self.value = if sum > self.max {
            self.max
        } else {
            sum
        };
        self.value < 1
    }
}

} // verus!
