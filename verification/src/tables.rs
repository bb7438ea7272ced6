//! The command table and the chord table: lookup structures that are filled
//! once at startup and only read afterwards.

use std::collections::HashMap;
use vstd::prelude::*;
use crate::button::ID;
use crate::media::Command;

verus! {

broadcast use {
    vstd::std_specs::hash::group_hash_axioms,
    vstd::map::group_map_axioms,
};

/// Which command a button gives when it is clicked alone.
///
/// The entries are kept under the buttons' numeric codes.
#[derive(Debug)]
pub struct CommandTable {
    map: HashMap<i32, Command>,
}

impl View for CommandTable {
    type V = Map<ID, Command>;

    closed spec fn view(&self) -> Map<ID, Command> {
        Map::new(|id: ID| self.map@.contains_key(id.code()), |id: ID| self.map@[id.code()])
    }
}

impl CommandTable {
    /// The command bound to a button, if any.
    pub open spec fn command(&self, id: ID) -> Option<Command> {
        if self@.contains_key(id) {
            Some(self@[id])
        } else {
            None
        }
    }

    /// A table without entries.
    pub fn new() -> (table: CommandTable)
        ensures
            table@ == Map::<ID, Command>::empty(),
    {
        CommandTable { map: HashMap::new() }
    }

    /// The standard bindings: volume down, previous track and play/pause on
    /// the first row of buttons; volume up, next track and eject on the
    /// second.
    pub open spec fn standard_bindings() -> Map<ID, Command> {
        map![
            ID::A2 => Command::VolumeDown,
            ID::A3 => Command::PrevTrack,
            ID::A4 => Command::PlayPause,
            ID::B2 => Command::VolumeUp,
            ID::B3 => Command::NextTrack,
            ID::B4 => Command::Eject,
        ]
    }

    /// The table of the standard bindings.
    pub fn standard() -> (table: CommandTable)
        ensures
            table@ == CommandTable::standard_bindings(),
    {
        let mut table = CommandTable::new();
        table.insert(ID::A2, Command::VolumeDown);
        table.insert(ID::A3, Command::PrevTrack);
        table.insert(ID::A4, Command::PlayPause);
        table.insert(ID::B2, Command::VolumeUp);
        table.insert(ID::B3, Command::NextTrack);
        table.insert(ID::B4, Command::Eject);
        assert(table@ =~= CommandTable::standard_bindings());
        table
    }

    /// Binds a command to a button, in place of any earlier one.
    pub fn insert(&mut self, id: ID, command: Command)
        ensures
            final(self)@ == old(self)@.insert(id, command),
    {
        let code = i32::from(id);
        self.map.insert(code, command);
        assert(self@ =~= old(self)@.insert(id, command)) by {
            assert forall|other: ID| other.code() == id.code() implies other == id by {
                crate::button::lemma_code_identifies(other, id);
            }
        }
    }

    /// The command bound to a button, if any.
    pub fn get(&self, id: ID) -> (r: Option<Command>)
        ensures
            r == self.command(id),
    {
        let code = i32::from(id);
        match self.map.get(&code) {
            Some(command) => Some(*command),
            None => None,
        }
    }

    /// Whether a command is bound to the button.
    pub fn contains(&self, id: ID) -> (b: bool)
        ensures
            b == self@.contains_key(id),
    {
        let code = i32::from(id);
        self.map.contains_key(&code)
    }
}

/// Lookups in the command table repeat: the answer to a key depends on what
/// the table holds and on nothing else, so tables that hold the same answer
/// every key alike.
pub proof fn lemma_command_lookup_repeats(first: CommandTable, second: CommandTable, id: ID)
    requires
        first@ == second@,
    ensures
        first.command(id) == second.command(id),
{
}

/// Which shortcut code a button gives when it is clicked after a meta
/// button: for each meta button, a table of its own.
///
/// The entries are kept under the buttons' numeric codes.
#[derive(Debug)]
pub struct ChordTable {
    map: HashMap<i32, HashMap<i32, u8>>,
}

impl View for ChordTable {
    type V = Map<ID, Map<ID, u8>>;

    closed spec fn view(&self) -> Map<ID, Map<ID, u8>> {
        Map::new(
            |meta: ID| self.map@.contains_key(meta.code()),
            |meta: ID|
                Map::new(
                    |button: ID| self.map@[meta.code()]@.contains_key(button.code()),
                    |button: ID| self.map@[meta.code()]@[button.code()],
                ),
        )
    }
}

impl ChordTable {
    /// The shortcut code bound to a meta button and a button, if any.
    pub open spec fn shortcut(&self, meta: ID, button: ID) -> Option<u8> {
        if self@.contains_key(meta) && self@[meta].contains_key(button) {
            Some(self@[meta][button])
        } else {
            None
        }
    }

    /// The table of one meta button; empty where the meta button has none.
    pub open spec fn row(&self, meta: ID) -> Map<ID, u8> {
        if self@.contains_key(meta) {
            self@[meta]
        } else {
            Map::empty()
        }
    }

    /// Whether the button occurs in the table, as a meta button or in the
    /// table of one.
    pub open spec fn mentions(&self, id: ID) -> bool {
        self@.contains_key(id) || exists|meta: ID| self.shortcut(meta, id) is Some
    }

    /// A table without entries.
    pub fn new() -> (table: ChordTable)
        ensures
            table@ == Map::<ID, Map<ID, u8>>::empty(),
    {
        ChordTable { map: HashMap::new() }
    }

    /// The standard shortcuts of one meta button: the six ordinary buttons in
    /// order, numbered from `first`.
    pub open spec fn standard_row(first: u8) -> Map<ID, u8> {
        map![
            ID::A2 => first,
            ID::A3 => (first + 1) as u8,
            ID::A4 => (first + 2) as u8,
            ID::B2 => (first + 3) as u8,
            ID::B3 => (first + 4) as u8,
            ID::B4 => (first + 5) as u8,
        ]
    }

    /// The standard shortcuts: 1 to 6 under the first meta button, 6 to 11
    /// under the second.
    pub open spec fn standard_shortcuts() -> Map<ID, Map<ID, u8>> {
        map![
            ID::M1 => ChordTable::standard_row(1),
            ID::M2 => ChordTable::standard_row(6),
        ]
    }

    /// The table of the standard shortcuts.
    pub fn standard() -> (table: ChordTable)
        ensures
            table@ == ChordTable::standard_shortcuts(),
    {
        let mut table = ChordTable::new();
        table.insert(ID::M1, ID::A2, 1);
        table.insert(ID::M1, ID::A3, 2);
        table.insert(ID::M1, ID::A4, 3);
        table.insert(ID::M1, ID::B2, 4);
        table.insert(ID::M1, ID::B3, 5);
        table.insert(ID::M1, ID::B4, 6);
        assert(table@[ID::M1] =~= ChordTable::standard_row(1));
        table.insert(ID::M2, ID::A2, 6);
        table.insert(ID::M2, ID::A3, 7);
        table.insert(ID::M2, ID::A4, 8);
        table.insert(ID::M2, ID::B2, 9);
        table.insert(ID::M2, ID::B3, 10);
        table.insert(ID::M2, ID::B4, 11);
        assert(table@[ID::M2] =~= ChordTable::standard_row(6));
        assert(table@ =~~= ChordTable::standard_shortcuts());
        table
    }

    /// Binds a shortcut code to a meta button and a button, in place of any
    /// earlier one. The other entries of the meta button stay.
    pub fn insert(&mut self, meta: ID, button: ID, shortcut: u8)
        ensures
            final(self)@ == old(self)@.insert(meta, old(self).row(meta).insert(button, shortcut)),
    {
        let meta_code = i32::from(meta);
        let button_code = i32::from(button);
        let mut row: HashMap<i32, u8> = match self.map.remove(&meta_code) {
            Some(row) => row,
            None => HashMap::new(),
        };
        let ghost before = row@;
        row.insert(button_code, shortcut);
        self.map.insert(meta_code, row);
        proof {
            assert forall|a: ID, b: ID| a.code() == b.code() implies a == b by {
                crate::button::lemma_code_identifies(a, b);
            }
            let want = old(self)@.insert(meta, old(self).row(meta).insert(button, shortcut));
            assert forall|m: ID| #[trigger] self@.contains_key(m) implies self@[m] =~= want[m] by {
                if m == meta {
                    assert(self.map@[meta_code]@ == before.insert(button_code, shortcut));
                } else {
                    assert(self.map@[m.code()] == old(self).map@[m.code()]);
                }
            }
            assert(self@ =~~= want);
        }
    }

    /// The shortcut code bound to a meta button and a button, if any.
    pub fn get(&self, meta: ID, button: ID) -> (r: Option<u8>)
        ensures
            r == self.shortcut(meta, button),
    {
        let meta_code = i32::from(meta);
        let button_code = i32::from(button);
        match self.map.get(&meta_code) {
            Some(row) => match row.get(&button_code) {
                Some(shortcut) => Some(*shortcut),
                None => None,
            },
            None => None,
        }
    }

    /// Whether the meta button has a table of its own.
    pub fn contains(&self, meta: ID) -> (b: bool)
        ensures
            b == self@.contains_key(meta),
    {
        let meta_code = i32::from(meta);
        self.map.contains_key(&meta_code)
    }

    /// Whether the button occurs in the table at all.
    pub fn uses(&self, id: ID) -> (b: bool)
        ensures
            b == self.mentions(id),
    {
        if self.contains(id) {
            return true;
        }
        let all = ID::all();
        let mut i: usize = 0;
        while i < 8
            invariant
                i <= 8,
                all@ == ID::all_spec(),
                forall|meta: ID| all@[meta.ordinal()] == meta,
                !self@.contains_key(id),
                forall|k: int| 0 <= k < i ==> self.shortcut(all@[k], id) is None,
            decreases 8 - i,
        {
            if self.get(all[i], id).is_some() {
                return true;
            }
            i += 1;
        }
        assert forall|meta: ID| self.shortcut(meta, id) is None by {
            assert(all@[meta.ordinal()] == meta);
        }
        false
    }
}

/// Lookups in the chord table repeat: the answer to a pair of keys depends
/// on what the table holds and on nothing else, so tables that hold the same
/// answer every pair alike.
pub proof fn lemma_chord_lookup_repeats(first: ChordTable, second: ChordTable, meta: ID, id: ID)
    requires
        first@ == second@,
    ensures
        first.shortcut(meta, id) == second.shortcut(meta, id),
        first.row(meta) == second.row(meta),
        first.mentions(id) == second.mentions(id),
{
    if first.mentions(id) && !first@.contains_key(id) {
        let m = choose|m: ID| first.shortcut(m, id) is Some;
        assert(second.shortcut(m, id) is Some);
    }
    if second.mentions(id) && !second@.contains_key(id) {
        let m = choose|m: ID| second.shortcut(m, id) is Some;
        assert(first.shortcut(m, id) is Some);
    }
}

} // verus!
