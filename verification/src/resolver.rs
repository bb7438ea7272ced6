//! The chord resolver: one shared state machine that takes the gestures of
//! all channels in order and decides, for each click, whether it arms a
//! meta button, completes a chord or stands alone.

use vstd::prelude::*;
use crate::button::ID;
use crate::gesture::{Gesture, Packet};
use crate::media::Command;
use crate::tables::{ChordTable, CommandTable};

verus! {

/// What a registered channel is for.
#[derive(Debug, PartialEq, Eq, Copy, Clone, Structural)]
pub enum Role {
    /// A modifier: its click arms a chord and gives no packet.
    Meta,
    /// An ordinary button.
    Button,
}

/// One registered input channel.
#[derive(Debug, PartialEq, Eq, Copy, Clone, Structural)]
pub struct Channel {
    pub id: ID,
    pub role: Role,
}

/// Whether a meta button has been clicked and waits for the click that
/// completes the chord. At most one meta button is active at a time.
#[derive(Debug, PartialEq, Eq, Copy, Clone, Structural)]
pub enum ChordState {
    Idle,
    MetaActive(ID),
}

/// What the resolver looks things up in: the meta buttons, the command
/// table and the chord table.
pub struct Keymap {
    pub metas: Set<ID>,
    pub commands: Map<ID, Command>,
    pub chords: Map<ID, Map<ID, u8>>,
}

impl Keymap {
    /// The packet for a click of `button` alone.
    pub open spec fn command(self, button: ID) -> Option<Packet> {
        if self.commands.contains_key(button) {
            Some(Packet::Command(self.commands[button]))
        } else {
            None
        }
    }

    /// The packet for a click of `button` while `meta` is active.
    pub open spec fn chord(self, meta: ID, button: ID) -> Option<Packet> {
        if self.chords.contains_key(meta) && self.chords[meta].contains_key(button) {
            Some(Packet::Shortcut(self.chords[meta][button]))
        } else {
            None
        }
    }
}

/// The meta buttons among registered channels.
pub open spec fn metas_of(channels: Seq<Channel>) -> Set<ID> {
    Set::new(
        |id: ID|
            exists|i: int|
                0 <= i < channels.len() && (#[trigger] channels[i]).id == id && channels[i].role
                    is Meta,
    )
}

/// What the resolver made of one gesture.
#[derive(Debug, PartialEq, Eq, Copy, Clone, Structural)]
pub enum Resolution {
    /// A holding or held gesture: it passes the resolver by.
    Passed,
    /// A click of a meta button: the button is now the active one.
    Armed(ID),
    /// A click that completed a chord the chord table knows.
    Shortcut(u8),
    /// A click alone on a button the command table knows.
    Command(Command),
    /// A click after a meta button, on a button for which the chord table
    /// holds nothing under that meta button.
    UnknownChord(ID, ID),
    /// A click alone on a button for which the command table holds nothing.
    UnknownCommand(ID),
}

impl Resolution {
    /// The packet that goes out, if any: unknown chords and commands are
    /// dropped in silence.
    pub open spec fn packet_spec(self) -> Option<Packet> {
        match self {
            Resolution::Shortcut(shortcut) => Some(Packet::Shortcut(shortcut)),
            Resolution::Command(command) => Some(Packet::Command(command)),
            _ => None,
        }
    }

    /// The packet that goes out, if any.
    pub fn packet(&self) -> (p: Option<Packet>)
        ensures
            p == self.packet_spec(),
    {
        match self {
            Resolution::Shortcut(shortcut) => Some(Packet::Shortcut(*shortcut)),
            Resolution::Command(command) => Some(Packet::Command(*command)),
            Resolution::Passed => None,
            Resolution::Armed(_) => None,
            Resolution::UnknownChord(_, _) => None,
            Resolution::UnknownCommand(_) => None,
        }
    }
}

/// One step of the resolver, in full: the state after a gesture, and what
/// the resolver made of the gesture.
///
/// A holding or held gesture changes nothing. A click of any count on a
/// meta button makes that button the active one, whatever was active
/// before. A click on another button while a meta button is active is
/// looked up in the chord table under that meta button, and ends the chord
/// whether the table knows it or not. A click on another button in the idle
/// state is looked up in the command table.
pub open spec fn resolve(state: ChordState, keymap: Keymap, gesture: Gesture) -> (
    ChordState,
    Resolution,
) {
    let id = gesture.channel();
    if !gesture.is_click_family() {
        (state, Resolution::Passed)
    } else if keymap.metas.contains(id) {
        (ChordState::MetaActive(id), Resolution::Armed(id))
    } else {
        match state {
            ChordState::MetaActive(meta) => (
                ChordState::Idle,
                if keymap.chords.contains_key(meta) && keymap.chords[meta].contains_key(id) {
                    Resolution::Shortcut(keymap.chords[meta][id])
                } else {
                    Resolution::UnknownChord(meta, id)
                },
            ),
            ChordState::Idle => (
                ChordState::Idle,
                if keymap.commands.contains_key(id) {
                    Resolution::Command(keymap.commands[id])
                } else {
                    Resolution::UnknownCommand(id)
                },
            ),
        }
    }
}

/// One step of the resolver: the state after a gesture, and the packet that
/// the gesture gives, if any.
///
/// A holding or held gesture and a click of a meta button give nothing. A
/// click on another button while a meta button is active gives the chord's
/// shortcut, if the chord table has one. A click on another button in the
/// idle state gives the button's command, if the command table has one.
pub open spec fn step(state: ChordState, keymap: Keymap, gesture: Gesture) -> (
    ChordState,
    Option<Packet>,
) {
    let (after, resolution) = resolve(state, keymap, gesture);
    (after, resolution.packet_spec())
}

/// The resolver run over a sequence of gestures, first to last: the state
/// at the end and the packets given, in order.
pub open spec fn run(state: ChordState, keymap: Keymap, gestures: Seq<Gesture>) -> (
    ChordState,
    Seq<Packet>,
)
    decreases gestures.len(),
{
    if gestures.len() == 0 {
        (state, Seq::empty())
    } else {
        let (before, packets) = run(state, keymap, gestures.drop_last());
        let (after, packet) = step(before, keymap, gestures.last());
        match packet {
            Some(p) => (after, packets.push(p)),
            None => (after, packets),
        }
    }
}

/// The chord resolver with its lookup tables.
#[derive(Debug)]
pub struct Resolver {
    channels: Vec<Channel>,
    commands: CommandTable,
    chords: ChordTable,
    state: ChordState,
}

impl Resolver {
    /// The registered channels, in registration order.
    pub closed spec fn channels(&self) -> Seq<Channel> {
        self.channels@
    }

    /// The command table.
    pub closed spec fn commands(&self) -> CommandTable {
        self.commands
    }

    /// The chord table.
    pub closed spec fn chords(&self) -> ChordTable {
        self.chords
    }

    /// The chord state.
    pub closed spec fn state(&self) -> ChordState {
        self.state
    }

    /// What the resolver looks things up in.
    pub open spec fn keymap(&self) -> Keymap {
        Keymap {
            metas: metas_of(self.channels()),
            commands: self.commands()@,
            chords: self.chords()@,
        }
    }

    /// A resolver in the idle state.
    pub fn new(channels: Vec<Channel>, commands: CommandTable, chords: ChordTable) -> (r: Resolver)
        ensures
            r.channels() == channels@,
            r.commands() == commands,
            r.chords() == chords,
            r.state() == ChordState::Idle,
    {
        Resolver { channels, commands, chords, state: ChordState::Idle }
    }

    /// The chord state.
    pub fn chord_state(&self) -> (s: ChordState)
        ensures
            s == self.state(),
    {
        self.state
    }

    /// The registered channels, in registration order.
    pub fn registered(&self) -> (channels: &Vec<Channel>)
        ensures
            channels@ == self.channels(),
    {
        &self.channels
    }

    /// The command table.
    pub fn command_table(&self) -> (table: &CommandTable)
        ensures
            *table == self.commands(),
    {
        &self.commands
    }

    /// The chord table.
    pub fn chord_table(&self) -> (table: &ChordTable)
        ensures
            *table == self.chords(),
    {
        &self.chords
    }

    /// Whether the button is registered as a meta button.
    pub fn is_meta(&self, id: ID) -> (b: bool)
        ensures
            b == self.keymap().metas.contains(id),
    {
        let mut i: usize = 0;
        while i < self.channels.len()
            invariant
                i <= self.channels.len(),
                forall|k: int|
                    0 <= k < i ==> !((#[trigger] self.channels@[k]).id == id
                        && self.channels@[k].role is Meta),
            decreases self.channels.len() - i,
        {
            let channel = self.channels[i];
            let meta = match channel.role {
                Role::Meta => true,
                Role::Button => false,
            };
            if channel.id == id && meta {
                return true;
            }
            i += 1;
        }
        false
    }

    /// Takes one gesture: moves the chord state and says what was made of
    /// the gesture. The tables stay as they are.
    pub fn resolve(&mut self, gesture: Gesture) -> (resolution: Resolution)
        ensures
            (final(self).state(), resolution) == resolve(
                old(self).state(),
                old(self).keymap(),
                gesture,
            ),
            final(self).channels() == old(self).channels(),
            final(self).commands() == old(self).commands(),
            final(self).chords() == old(self).chords(),
    {
        if !gesture.is_click() {
            return Resolution::Passed;
        }
        let id = gesture.id();
        if self.is_meta(id) {
            self.state = ChordState::MetaActive(id);
            return Resolution::Armed(id);
        }
        match self.state {
            ChordState::MetaActive(meta) => {
                self.state = ChordState::Idle;
                match self.chords.get(meta, id) {
                    Some(shortcut) => Resolution::Shortcut(shortcut),
                    None => Resolution::UnknownChord(meta, id),
                }
            },
            ChordState::Idle => {
                match self.commands.get(id) {
                    Some(command) => Resolution::Command(command),
                    None => Resolution::UnknownCommand(id),
                }
            },
        }
    }

    /// Takes one gesture: moves the chord state and returns the packet that
    /// the gesture gives, if any. The tables stay as they are.
    pub fn step(&mut self, gesture: Gesture) -> (packet: Option<Packet>)
        ensures
            (final(self).state(), packet) == step(old(self).state(), old(self).keymap(), gesture),
            final(self).channels() == old(self).channels(),
            final(self).commands() == old(self).commands(),
            final(self).chords() == old(self).chords(),
    {
        self.resolve(gesture).packet()
    }

    /// Takes the gestures in order and returns the packets they give, in
    /// order. The tables stay as they are.
    pub fn run(&mut self, gestures: &Vec<Gesture>) -> (packets: Vec<Packet>)
        ensures
            (final(self).state(), packets@) == run(
                old(self).state(),
                old(self).keymap(),
                gestures@,
            ),
            final(self).channels() == old(self).channels(),
            final(self).commands() == old(self).commands(),
            final(self).chords() == old(self).chords(),
    {
        let mut packets: Vec<Packet> = Vec::new();
        let mut i: usize = 0;
        while i < gestures.len()
            invariant
                i <= gestures.len(),
                (self.state(), packets@) == run(
                    old(self).state(),
                    old(self).keymap(),
                    gestures@.take(i as int),
                ),
                self.channels() == old(self).channels(),
                self.commands() == old(self).commands(),
                self.chords() == old(self).chords(),
            decreases gestures.len() - i,
        {
            assert(gestures@.take(i + 1).drop_last() == gestures@.take(i as int));
            match self.step(gestures[i]) {
                Some(packet) => packets.push(packet),
                None => {},
            }
            i += 1;
        }
        assert(gestures@.take(i as int) == gestures@);
        packets
    }
}

/// A gesture gives at most one packet, and a meta button's click gives none.
pub proof fn lemma_meta_click_is_silent(state: ChordState, keymap: Keymap, gesture: Gesture)
    requires
        gesture.is_click_family(),
        keymap.metas.contains(gesture.channel()),
    ensures
        step(state, keymap, gesture) == (ChordState::MetaActive(gesture.channel()), None::<Packet>),
{
}

/// Holding and held gestures pass the resolver by: however many of them
/// come, an active meta button stays active and no packet is given.
pub proof fn lemma_holds_pass_by(state: ChordState, keymap: Keymap, gestures: Seq<Gesture>)
    requires
        forall|i: int| 0 <= i < gestures.len() ==> !(#[trigger] gestures[i]).is_click_family(),
    ensures
        run(state, keymap, gestures) == (state, Seq::<Packet>::empty()),
    decreases gestures.len(),
{
    if gestures.len() > 0 {
        lemma_holds_pass_by(state, keymap, gestures.drop_last());
    }
}

/// The resolver run over two stretches of gestures, one after the other, is
/// the run over the first followed by the run over the second from where
/// the first ended.
pub proof fn lemma_run_concat(
    state: ChordState,
    keymap: Keymap,
    first: Seq<Gesture>,
    second: Seq<Gesture>,
)
    ensures
        run(state, keymap, first + second) == (
            run(run(state, keymap, first).0, keymap, second).0,
            run(state, keymap, first).1 + run(run(state, keymap, first).0, keymap, second).1,
        ),
    decreases second.len(),
{
    if second.len() > 0 {
        assert((first + second).drop_last() == first + second.drop_last());
        lemma_run_concat(state, keymap, first, second.drop_last());
    }
}

/// A single gesture run from a state is one step.
pub proof fn lemma_run_one(state: ChordState, keymap: Keymap, gesture: Gesture)
    ensures
        run(state, keymap, seq![gesture]) == (
            step(state, keymap, gesture).0,
            match step(state, keymap, gesture).1 {
                Some(p) => seq![p],
                None => Seq::empty(),
            },
        ),
{
    reveal_with_fuel(run, 2);
}

/// Chording. From any state, a click of a meta button followed by a click of
/// an ordinary button gives exactly the one shortcut that the chord table
/// holds for the pair, and leaves the resolver idle. The same button clicked
/// once more, with no meta click before it, gives its command where the
/// command table has one, and nothing where it has none.
pub proof fn lemma_chord(
    state: ChordState,
    keymap: Keymap,
    meta_click: Gesture,
    click: Gesture,
    shortcut: u8,
)
    requires
        meta_click.is_click_family(),
        click.is_click_family(),
        keymap.metas.contains(meta_click.channel()),
        !keymap.metas.contains(click.channel()),
        keymap.chords.contains_key(meta_click.channel()),
        keymap.chords[meta_click.channel()].contains_key(click.channel()),
        keymap.chords[meta_click.channel()][click.channel()] == shortcut,
    ensures
        run(state, keymap, seq![meta_click, click]) == (
            ChordState::Idle,
            seq![Packet::Shortcut(shortcut)],
        ),
        run(ChordState::Idle, keymap, seq![click]) == (
            ChordState::Idle,
            match keymap.command(click.channel()) {
                Some(p) => seq![p],
                None => Seq::empty(),
            },
        ),
{
    lemma_run_one(state, keymap, meta_click);
    lemma_run_one(ChordState::MetaActive(meta_click.channel()), keymap, click);
    lemma_run_concat(state, keymap, seq![meta_click], seq![click]);
    assert(seq![meta_click] + seq![click] == seq![meta_click, click]);
    assert(Seq::<Packet>::empty() + seq![Packet::Shortcut(shortcut)] == seq![
        Packet::Shortcut(shortcut),
    ]);
    lemma_run_one(ChordState::Idle, keymap, click);
}

/// The last meta button wins. From any state, the clicks of two meta
/// buttons followed by a click of an ordinary button resolve the chord
/// against the second meta button: the packets are what the chord table
/// holds for the second and the ordinary button, and the resolver ends idle.
pub proof fn lemma_last_meta_wins(
    state: ChordState,
    keymap: Keymap,
    first_meta: Gesture,
    second_meta: Gesture,
    click: Gesture,
)
    requires
        first_meta.is_click_family(),
        second_meta.is_click_family(),
        click.is_click_family(),
        keymap.metas.contains(first_meta.channel()),
        keymap.metas.contains(second_meta.channel()),
        !keymap.metas.contains(click.channel()),
    ensures
        run(state, keymap, seq![first_meta, second_meta, click]) == (
            ChordState::Idle,
            match keymap.chord(second_meta.channel(), click.channel()) {
                Some(p) => seq![p],
                None => Seq::empty(),
            },
        ),
{
    let armed = ChordState::MetaActive(second_meta.channel());
    lemma_run_one(state, keymap, first_meta);
    lemma_run_one(ChordState::MetaActive(first_meta.channel()), keymap, second_meta);
    lemma_run_one(armed, keymap, click);
    lemma_run_concat(state, keymap, seq![first_meta], seq![second_meta]);
    lemma_run_concat(state, keymap, seq![first_meta] + seq![second_meta], seq![click]);
    assert(seq![first_meta] + seq![second_meta] + seq![click] == seq![
        first_meta,
        second_meta,
        click,
    ]);
}

} // verus!
