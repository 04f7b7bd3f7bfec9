use crate::events::{
    rolled_row, CombatAction, EnergyAction, EventData, EventInfo, EventKey, EventText, GridEvents,
    MiningAction,
};
use crate::hexmap::{in_region, origin, HexMap, HexNode};
use crate::math::Axial;
use vstd::prelude::*;

verus! {

/// The grid in play: its region, its table of nodes, and the event that the
/// player stands on, of which at most one kind is set.
pub struct Grid {
    pub key: EventKey,
    pub radius: i32,
    pub hexmap: HexMap,
    pub combat: Option<EventInfo<CombatAction>>,
    pub energy: Option<EventInfo<EnergyAction>>,
    pub mining: Option<EventInfo<MiningAction>>,
}

/// The text of a cell without an event.
pub open spec fn nothing_text() -> EventText {
    EventText {
        key: EventKey::Empty,
        enter: false,
        title: "Nothing"@,
        descr: "Nothing to see, nothing to do here."@,
    }
}

/// Holds where an event is set and is a copy of a row.
pub open spec fn is_row<T>(event: Option<EventInfo<T>>, row: EventInfo<T>) -> bool {
    event.is_some() && event.unwrap().data@ == row.data@ && event.unwrap().action == row.action
}

fn copy_text(data: &EventData) -> (copy: EventData)
    ensures
        copy@ == data@,
{
    EventData {
        key: data.key,
        enter: data.enter,
        title: data.title.clone(),
        descr: data.descr.clone(),
    }
}

impl Grid {
    /// The text of the event that is set for the kind of the grid, and the
    /// text of nothing where none is.
    pub open spec fn event_text(self) -> EventText {
        match self.key {
            EventKey::Empty => nothing_text(),
            EventKey::Combat => match self.combat {
                Some(event) => event.data@,
                None => nothing_text(),
            },
            EventKey::Energy => match self.energy {
                Some(event) => event.data@,
                None => nothing_text(),
            },
            EventKey::Mining => match self.mining {
                Some(event) => event.data@,
                None => nothing_text(),
            },
        }
    }

    /// A grid of the given radius with an empty table and no event.
    pub fn new(radius: i32) -> (grid: Grid)
        ensures
            grid.key == EventKey::Empty,
            grid.radius == radius,
            grid.hexmap.radius == radius,
            grid.hexmap@ == Map::<Axial, HexNode>::empty(),
            grid.combat.is_none(),
            grid.energy.is_none(),
            grid.mining.is_none(),
    {
        Grid {
            key: EventKey::Empty,
            radius,
            hexmap: HexMap::new(radius),
            combat: None,
            energy: None,
            mining: None,
        }
    }

    /// Reports whether a cell is within the radius, counted in wrapping
    /// 32-bit arithmetic; for a cell whose distance fits in it, whether the
    /// cell belongs to the region.
    pub fn on_grid(&self, hex: &Axial) -> (b: bool)
        ensures
            b == (self.radius >= hex.spec_distance(origin())),
            hex.near(origin()) ==> b == in_region(*hex, self.radius as int),
    {
        self.radius >= hex.distance(&Axial { q: 0, r: 0 })
    }

    /// The value of a cell, and zero for a cell without a node.
    pub fn get_value(&self, hex: Axial) -> (value: i32)
        ensures
            value == (if self.hexmap@.contains_key(hex) {
                self.hexmap@[hex].value
            } else {
                0
            }),
    {
        match self.hexmap.get(&hex) {
            Some(node) => node.value,
            None => 0,
        }
    }

    /// The scene object of a cell, and none for a cell without a node.
    pub fn get_entity(&self, hex: Axial) -> (entity: Option<u64>)
        ensures
            entity == (if self.hexmap@.contains_key(hex) {
                self.hexmap@[hex].entity
            } else {
                None::<u64>
            }),
    {
        match self.hexmap.get(&hex) {
            Some(node) => node.entity,
            None => None,
        }
    }

    /// The category of a cell, and combat for a cell without a node.
    pub fn get_event_key(&self, hex: Axial) -> (key: EventKey)
        ensures
            key == (if self.hexmap@.contains_key(hex) {
                self.hexmap@[hex].key
            } else {
                EventKey::Combat
            }),
    {
        match self.hexmap.get(&hex) {
            Some(node) => node.key,
            None => EventKey::Combat,
        }
    }

    /// The text of the event that is set for the kind of the grid.
    pub fn get_event_data(&self) -> (data: EventData)
        ensures
            data@ == self.event_text(),
    {
        match self.key {
            EventKey::Empty => EventData::default(),
            EventKey::Combat => match &self.combat {
                Some(event) => copy_text(&event.data),
                None => EventData::default(),
            },
            EventKey::Energy => match &self.energy {
                Some(event) => copy_text(&event.data),
                None => EventData::default(),
            },
            EventKey::Mining => match &self.mining {
                Some(event) => copy_text(&event.data),
                None => EventData::default(),
            },
        }
    }

    /// The category that `get_event_key` gives for a cell.
    pub open spec fn key_at(self, hex: Axial) -> EventKey {
        if self.hexmap@.contains_key(hex) {
            self.hexmap@[hex].key
        } else {
            EventKey::Combat
        }
    }

    /// Sets the event of the cell that the player has arrived at: none for a
    /// cell that holds nothing, else the row that a roll with `seed` picks
    /// from the table of the cell's kind.
    pub fn start_event(&mut self, events: &GridEvents, hex: Axial, seed: i64)
        requires
            events.has_roll(old(self).key_at(hex), seed),
        ensures
            final(self).radius == old(self).radius,
            final(self).hexmap == old(self).hexmap,
            final(self).key == old(self).key_at(hex),
            final(self).combat.is_some() <==> final(self).key == EventKey::Combat,
            final(self).energy.is_some() <==> final(self).key == EventKey::Energy,
            final(self).mining.is_some() <==> final(self).key == EventKey::Mining,
            final(self).key == EventKey::Combat ==> is_row(
                final(self).combat,
                events.combat@[rolled_row(seed, 92, events.combat.len())],
            ),
            final(self).key == EventKey::Energy ==> is_row(
                final(self).energy,
                events.energy@[rolled_row(seed, 48, (events.energy.len() - 1) as usize)],
            ),
            final(self).key == EventKey::Mining ==> is_row(
                final(self).mining,
                events.mining@[rolled_row(seed, 24, (events.mining.len() - 1) as usize)],
            ),
    {
        proof {
            crate::events::lemma_roll_never_negative(seed, 92, events.combat.len());
            if events.energy.len() > 0 {
                crate::events::lemma_roll_never_negative(
                    seed,
                    48,
                    (events.energy.len() - 1) as usize,
                );
            }
            if events.mining.len() > 0 {
                crate::events::lemma_roll_never_negative(
                    seed,
                    24,
                    (events.mining.len() - 1) as usize,
                );
            }
        }
        match self.get_event_key(hex) {
            EventKey::Empty => self.clr_event(),
            EventKey::Combat => self.set_event_combat(events.roll_combat_table(seed)),
            EventKey::Energy => self.set_event_energy(events.roll_energy_table(seed)),
            EventKey::Mining => self.set_event_mining(events.roll_mining_table(seed)),
        }
    }

    /// Sets the event of the cell that the player has arrived at, where the
    /// table of the cell's kind has the row that the roll picks, and reports
    /// whether it has. Where it has not, nothing changes.
    pub fn try_start_event(&mut self, events: &GridEvents, hex: Axial, seed: i64) -> (ok: bool)
        ensures
            ok == events.has_roll(old(self).key_at(hex), seed),
            !ok ==> *final(self) == *old(self),
            ok ==> final(self).key == old(self).key_at(hex),
            ok ==> final(self).radius == old(self).radius,
            ok ==> final(self).hexmap == old(self).hexmap,
    {
        let key = self.get_event_key(hex);
        if events.has_roll(key, seed) {
            self.start_event(events, hex, seed);
            true
        } else {
            false
        }
    }

    /// Takes the event away.
    pub fn clr_event(&mut self)
        ensures
            final(self).key == EventKey::Empty,
            final(self).combat.is_none(),
            final(self).energy.is_none(),
            final(self).mining.is_none(),
            final(self).radius == old(self).radius,
            final(self).hexmap == old(self).hexmap,
    {
        self.key = EventKey::Empty;
        self.combat = None;
        self.energy = None;
        self.mining = None;
    }

    /// Sets a combat event in place of the event that was set.
    pub fn set_event_combat(&mut self, event: EventInfo<CombatAction>)
        ensures
            final(self).key == EventKey::Combat,
            final(self).combat == Some(event),
            final(self).energy.is_none(),
            final(self).mining.is_none(),
            final(self).radius == old(self).radius,
            final(self).hexmap == old(self).hexmap,
    {
        self.key = EventKey::Combat;
        self.combat = Some(event);
        self.energy = None;
        self.mining = None;
    }

    /// Sets an energy event in place of the event that was set.
    pub fn set_event_energy(&mut self, event: EventInfo<EnergyAction>)
        ensures
            final(self).key == EventKey::Energy,
            final(self).combat.is_none(),
            final(self).energy == Some(event),
            final(self).mining.is_none(),
            final(self).radius == old(self).radius,
            final(self).hexmap == old(self).hexmap,
    {
        self.key = EventKey::Energy;
        self.combat = None;
        self.energy = Some(event);
        self.mining = None;
    }

    /// Sets a mining event in place of the event that was set.
    pub fn set_event_mining(&mut self, event: EventInfo<MiningAction>)
        ensures
            final(self).key == EventKey::Mining,
            final(self).combat.is_none(),
            final(self).energy.is_none(),
            final(self).mining == Some(event),
            final(self).radius == old(self).radius,
            final(self).hexmap == old(self).hexmap,
    {
        self.key = EventKey::Mining;
        self.combat = None;
        self.energy = None;
        self.mining = Some(event);
    }
}

} // verus!
