use crate::rng::{scramble, signed_draw, size_draw, Shift64};
use vstd::prelude::*;

verus! {

/// What a cell holds.
#[derive(Clone, Copy, Debug, PartialEq, Eq, Structural)]
pub enum EventKey {
    Empty,
    Combat,
    Energy,
    Mining,
}

/// The three tables of events, one per kind of cell.
pub struct GridEvents {
    pub combat: Vec<EventInfo<CombatAction>>,
    pub energy: Vec<EventInfo<EnergyAction>>,
    pub mining: Vec<EventInfo<MiningAction>>,
}

/// One row of a table: the text of an event and what it does.
pub struct EventInfo<T> {
    pub data: EventData,
    pub action: T,
}

/// The text of an event.
pub struct EventData {
    pub key: EventKey,
    pub enter: bool,
    pub title: String,
    pub descr: String,
}

/// The text of an event as plain values.
pub struct EventText {
    pub key: EventKey,
    pub enter: bool,
    pub title: Seq<char>,
    pub descr: Seq<char>,
}

/// The labels of the two choices that an event offers.
pub struct EventAction {
    pub enter: String,
    pub leave: String,
}

#[derive(Clone, Copy, Debug, PartialEq, Eq, Structural)]
pub struct CombatAction {
    pub is_large: bool,
    pub enemies: u16,
}

#[derive(Clone, Copy, Debug, PartialEq, Eq, Structural)]
pub struct EnergyAction {
    pub is_large: bool,
    pub energy: u16,
}

#[derive(Clone, Copy, Debug, PartialEq, Eq, Structural)]
pub struct MiningAction {
    pub is_large: bool,
    pub material: u16,
}

impl CombatAction {
    /// The ships of the event: one large ship in place of one small where the
    /// event is large.
    pub fn wave(&self) -> (ships: (u16, u16))
        requires
            self.is_large ==> self.enemies >= 1,
        ensures
            ships.0 == (if self.is_large {
                1u16
            } else {
                0u16
            }),
            ships.0 + ships.1 == self.enemies,
    {
        if self.is_large {
            (1, self.enemies - 1)
        } else {
            (0, self.enemies)
        }
    }
}

impl Default for EventKey {
    fn default() -> (k: EventKey)
        ensures
            k == EventKey::Empty,
    {
        EventKey::Empty
    }
}

impl View for EventData {
    type V = EventText;

    open spec fn view(&self) -> EventText {
        EventText { key: self.key, enter: self.enter, title: self.title@, descr: self.descr@ }
    }
}

/// The text of the rows of the combat table, in order.
pub open spec fn combat_text() -> Seq<EventText> {
    seq![
        EventText {
            key: EventKey::Combat,
            enter: false,
            title: "Empty Space"@,
            descr: "An empty section of space."@,
        },
        EventText {
            key: EventKey::Combat,
            enter: true,
            title: "Small Amboush"@,
            descr: "A small amboush."@,
        },
        EventText {
            key: EventKey::Combat,
            enter: true,
            title: "Big Amboush"@,
            descr: "A big amboush."@,
        },
    ]
}

/// The actions of the rows of the combat table, in order.
pub open spec fn combat_actions() -> Seq<CombatAction> {
    seq![
        CombatAction { is_large: false, enemies: 0 },
        CombatAction { is_large: false, enemies: 4 },
        CombatAction { is_large: true, enemies: 8 },
    ]
}

/// The text of the rows of the energy table, in order.
pub open spec fn energy_text() -> Seq<EventText> {
    seq![
        EventText {
            key: EventKey::Energy,
            enter: false,
            title: "Dimm Star"@,
            descr: "This star bearly puts out light."@,
        },
        EventText {
            key: EventKey::Energy,
            enter: true,
            title: "Small Star"@,
            descr: "A small star."@,
        },
        EventText { key: EventKey::Energy, enter: true, title: "Big Star"@, descr: "A big star."@ },
    ]
}

/// The actions of the rows of the energy table, in order.
pub open spec fn energy_actions() -> Seq<EnergyAction> {
    seq![
        EnergyAction { is_large: false, energy: 10 },
        EnergyAction { is_large: false, energy: 30 },
        EnergyAction { is_large: true, energy: 60 },
    ]
}

/// The text of the rows of the mining table, in order.
pub open spec fn mining_text() -> Seq<EventText> {
    seq![
        EventText {
            key: EventKey::Mining,
            enter: false,
            title: "Empty Belt"@,
            descr: "Seems there is nothing but dust left."@,
        },
        EventText {
            key: EventKey::Mining,
            enter: true,
            title: "Small Belt"@,
            descr: "A small astroid belt."@,
        },
        EventText {
            key: EventKey::Mining,
            enter: true,
            title: "Big Belt"@,
            descr: "A big astroid belt."@,
        },
    ]
}

/// The actions of the rows of the mining table, in order.
pub open spec fn mining_actions() -> Seq<MiningAction> {
    seq![
        MiningAction { is_large: false, material: 10 },
        MiningAction { is_large: false, material: 25 },
        MiningAction { is_large: true, material: 50 },
    ]
}

/// Holds where a table has the given rows.
pub open spec fn table_is<T>(table: Seq<EventInfo<T>>, text: Seq<EventText>, actions: Seq<T>) -> bool {
    &&& table.len() == text.len()
    &&& table.len() == actions.len()
    &&& forall|i: int|
        0 <= i < table.len() ==> (#[trigger] table[i]).data@ == text[i] && table[i].action
            == actions[i]
}

/// The row that a roll picks, counted from zero: a generator seeded with
/// `seed` gives a first draw below 256; where that is over `threshold`, one
/// more than a second draw below `span`; else row zero.
pub open spec fn rolled_row(seed: i64, threshold: i32, span: usize) -> int {
    let first = scramble(scramble(seed.wrapping_add(1)));
    if signed_draw(first, 256) > threshold {
        size_draw(scramble(first), span) + 1
    } else {
        0
    }
}

/// A roll over a span of at most 53 bits picks a row up to the span, or
/// row one where the span is zero.
pub proof fn lemma_roll_fits(seed: i64, threshold: i32, span: usize)
    requires
        span <= 0x20_0000_0000_0000,
    ensures
        0 <= rolled_row(seed, threshold, span),
        span >= 1 ==> rolled_row(seed, threshold, span) <= span,
        span == 0 ==> rolled_row(seed, threshold, span) <= 1,
{
    let first = scramble(scramble(seed.wrapping_add(1)));
    crate::draw_laws::lemma_size_draw_range(scramble(first), span);
}

/// The energy table and the mining table have the row of every roll where
/// they have two rows or more, and no more than 2^53.
pub proof fn lemma_has_roll(events: &GridEvents, key: EventKey, seed: i64)
    requires
        key == EventKey::Energy ==> 2 <= events.energy@.len() <= 0x20_0000_0000_0000,
        key == EventKey::Mining ==> 2 <= events.mining@.len() <= 0x20_0000_0000_0000,
        key != EventKey::Combat,
    ensures
        events.spec_has_roll(key, seed),
{
    if key == EventKey::Energy {
        lemma_roll_fits(seed, 48, (events.energy.len() - 1) as usize);
    }
    if key == EventKey::Mining {
        lemma_roll_fits(seed, 24, (events.mining.len() - 1) as usize);
    }
}

/// A roll picks no row before the first.
pub proof fn lemma_roll_never_negative(seed: i64, threshold: i32, span: usize)
    ensures
        0 <= rolled_row(seed, threshold, span),
{
}

/// The row that a roll picks, or nothing where its number is beyond every
/// index, which no span of at most 53 bits gives.
pub fn roll_row(seed: i64, threshold: i32, span: usize) -> (row: Option<usize>)
    ensures
        row == (if rolled_row(seed, threshold, span) <= usize::MAX {
            Some(rolled_row(seed, threshold, span) as usize)
        } else {
            None
        }),
        span <= 0x20_0000_0000_0000 ==> row.is_some(),
{
    proof {
        if span <= 0x20_0000_0000_0000 {
            lemma_roll_fits(seed, threshold, span);
        }
    }
    let mut rng = Shift64::new(seed);
    if rng.i32(256) > threshold {
        rng.usize(span).checked_add(1)
    } else {
        Some(0)
    }
}

fn entry<T>(key: EventKey, enter: bool, title: &str, descr: &str, action: T) -> (info: EventInfo<T>)
    ensures
        info.data@ == (EventText { key, enter, title: title@, descr: descr@ }),
        info.action == action,
{
    EventInfo { data: EventData { key, enter, title: title.to_string(), descr: descr.to_string() }, action }
}

fn copy_of<T: Copy>(info: &EventInfo<T>) -> (copy: EventInfo<T>)
    ensures
        copy.data@ == info.data@,
        copy.action == info.action,
{
    EventInfo {
        data: EventData {
            key: info.data.key,
            enter: info.data.enter,
            title: info.data.title.clone(),
            descr: info.data.descr.clone(),
        },
        action: info.action,
    }
}

impl GridEvents {
    /// Holds where the table for a kind of cell has the row that a roll with
    /// `seed` picks. A cell that holds nothing takes no roll.
    pub open spec fn spec_has_roll(&self, key: EventKey, seed: i64) -> bool {
        match key {
            EventKey::Empty => true,
            EventKey::Combat => rolled_row(seed, 92, self.combat.len()) < self.combat@.len(),
            EventKey::Energy => self.energy@.len() > 0 && rolled_row(
                seed,
                48,
                (self.energy.len() - 1) as usize,
            ) < self.energy@.len(),
            EventKey::Mining => self.mining@.len() > 0 && rolled_row(
                seed,
                24,
                (self.mining.len() - 1) as usize,
            ) < self.mining@.len(),
        }
    }

    /// Reports whether the table for a kind of cell has the row that a roll
    /// with `seed` picks.
    #[verifier::when_used_as_spec(spec_has_roll)]
    pub fn has_roll(&self, key: EventKey, seed: i64) -> (ok: bool)
        ensures
            ok == self.spec_has_roll(key, seed),
    {
        match key {
            EventKey::Empty => true,
            EventKey::Combat => match roll_row(seed, 92, self.combat.len()) {
                Some(row) => row < self.combat.len(),
                None => false,
            },
            EventKey::Energy => self.energy.len() > 0 && match roll_row(
                seed,
                48,
                self.energy.len() - 1,
            ) {
                Some(row) => row < self.energy.len(),
                None => false,
            },
            EventKey::Mining => self.mining.len() > 0 && match roll_row(
                seed,
                24,
                self.mining.len() - 1,
            ) {
                Some(row) => row < self.mining.len(),
                None => false,
            },
        }
    }

    /// The three tables as the game knows them.
    pub fn load_data() -> (events: GridEvents)
        ensures
            table_is(events.combat@, combat_text(), combat_actions()),
            table_is(events.energy@, energy_text(), energy_actions()),
            table_is(events.mining@, mining_text(), mining_actions()),
    {
        let mut combat = Vec::new();
        combat.push(
            entry(
                EventKey::Combat,
                false,
                "Empty Space",
                "An empty section of space.",
                CombatAction { is_large: false, enemies: 0 },
            ),
        );
        combat.push(
            entry(
                EventKey::Combat,
                true,
                "Small Amboush",
                "A small amboush.",
                CombatAction { is_large: false, enemies: 4 },
            ),
        );
        combat.push(
            entry(
                EventKey::Combat,
                true,
                "Big Amboush",
                "A big amboush.",
                CombatAction { is_large: true, enemies: 8 },
            ),
        );
        let mut energy = Vec::new();
        energy.push(
            entry(
                EventKey::Energy,
                false,
                "Dimm Star",
                "This star bearly puts out light.",
                EnergyAction { is_large: false, energy: 10 },
            ),
        );
        energy.push(
            entry(
                EventKey::Energy,
                true,
                "Small Star",
                "A small star.",
                EnergyAction { is_large: false, energy: 30 },
            ),
        );
        energy.push(
            entry(
                EventKey::Energy,
                true,
                "Big Star",
                "A big star.",
                EnergyAction { is_large: true, energy: 60 },
            ),
        );
        let mut mining = Vec::new();
        mining.push(
            entry(
                EventKey::Mining,
                false,
                "Empty Belt",
                "Seems there is nothing but dust left.",
                MiningAction { is_large: false, material: 10 },
            ),
        );
        mining.push(
            entry(
                EventKey::Mining,
                true,
                "Small Belt",
                "A small astroid belt.",
                MiningAction { is_large: false, material: 25 },
            ),
        );
        mining.push(
            entry(
                EventKey::Mining,
                true,
                "Big Belt",
                "A big astroid belt.",
                MiningAction { is_large: true, material: 50 },
            ),
        );
        GridEvents { combat, energy, mining }
    }

    /// The labels of the two choices for a kind of cell.
    pub fn get_actions(key: EventKey) -> (act: EventAction)
        ensures
            act.enter@ == (match key {
                EventKey::Empty => "enter"@,
                EventKey::Combat => "attack"@,
                EventKey::Energy => "harvest"@,
                EventKey::Mining => "explore"@,
            }),
            act.leave@ == (match key {
                EventKey::Empty => "leave"@,
                EventKey::Combat => "flee"@,
                EventKey::Energy => "ignore"@,
                EventKey::Mining => "leave"@,
            }),
    {
        match key {
            EventKey::Empty => EventAction { enter: "enter".to_string(), leave: "leave".to_string() },
            EventKey::Combat => EventAction {
                enter: "attack".to_string(),
                leave: "flee".to_string(),
            },
            EventKey::Energy => EventAction {
                enter: "harvest".to_string(),
                leave: "ignore".to_string(),
            },
            EventKey::Mining => EventAction {
                enter: "explore".to_string(),
                leave: "leave".to_string(),
            },
        }
    }

    /// The row of the combat table that a roll with `seed` picks: the second
    /// draw is taken below the number of rows, so that a roll may pick the
    /// row after the last, which `requires` leaves out.
    pub fn roll_combat_table(&self, seed: i64) -> (info: EventInfo<CombatAction>)
        requires
            0 <= rolled_row(seed, 92, self.combat.len()) < self.combat@.len(),
        ensures
            info.data@ == self.combat@[rolled_row(seed, 92, self.combat.len())].data@,
            info.action == self.combat@[rolled_row(seed, 92, self.combat.len())].action,
    {
        match roll_row(seed, 92, self.combat.len()) {
            Some(idx) => copy_of(&self.combat[idx]),
            None => vstd::pervasive::unreached(),
        }
    }

    /// The row of the energy table that a roll with `seed` picks: the second
    /// draw is taken below the number of rows less one. A table of two rows
    /// or more, and of at most 2^53, has the row of every roll.
    pub fn roll_energy_table(&self, seed: i64) -> (info: EventInfo<EnergyAction>)
        requires
            self.energy@.len() > 0,
            0 <= rolled_row(seed, 48, (self.energy.len() - 1) as usize) < self.energy@.len(),
        ensures
            info.data@ == self.energy@[rolled_row(
                seed,
                48,
                (self.energy.len() - 1) as usize,
            )].data@,
            info.action == self.energy@[rolled_row(
                seed,
                48,
                (self.energy.len() - 1) as usize,
            )].action,
    {
        match roll_row(seed, 48, self.energy.len() - 1) {
            Some(idx) => copy_of(&self.energy[idx]),
            None => vstd::pervasive::unreached(),
        }
    }

    /// The row of the mining table that a roll with `seed` picks: the second
    /// draw is taken below the number of rows less one. A table of two rows
    /// or more, and of at most 2^53, has the row of every roll.
    pub fn roll_mining_table(&self, seed: i64) -> (info: EventInfo<MiningAction>)
        requires
            self.mining@.len() > 0,
            0 <= rolled_row(seed, 24, (self.mining.len() - 1) as usize) < self.mining@.len(),
        ensures
            info.data@ == self.mining@[rolled_row(
                seed,
                24,
                (self.mining.len() - 1) as usize,
            )].data@,
            info.action == self.mining@[rolled_row(
                seed,
                24,
                (self.mining.len() - 1) as usize,
            )].action,
    {
        match roll_row(seed, 24, self.mining.len() - 1) {
            Some(idx) => copy_of(&self.mining[idx]),
            None => vstd::pervasive::unreached(),
        }
    }
}

impl EventData {
    /// The text of a cell without an event.
    pub fn default() -> (data: EventData)
        ensures
            data@ == (EventText {
                key: EventKey::Empty,
                enter: false,
                title: "Nothing"@,
                descr: "Nothing to see, nothing to do here."@,
            }),
    {
        EventData {
            key: EventKey::Empty,
            enter: false,
            title: "Nothing".to_string(),
            descr: "Nothing to see, nothing to do here.".to_string(),
        }
    }
}

} // verus!
