//! The dispatcher: once per tick it classifies the sample of every channel
//! and resolves the gestures, in registration order, into packets.

use vstd::prelude::*;
use crate::button::ID;
use crate::classifier::{Classifier, ClassifierState};
use crate::config::{distinct, registered, Config, ConfigError};
use crate::gesture::{Gesture, Packet, RawLevel};
use crate::resolver::{metas_of, run, Channel, ChordState, Keymap, Resolver};
use crate::tables::{ChordTable, CommandTable};
use crate::timing::Timing;

verus! {

/// The sample of the channel at a position. A channel whose read failed,
/// or for which no sample was handed in, has none.
pub open spec fn sample_at(samples: Seq<Option<RawLevel>>, i: int) -> Option<RawLevel> {
    if 0 <= i < samples.len() {
        samples[i]
    } else {
        None
    }
}

/// The state of a classifier after a tick. Without a sample the classifier
/// carries its state forward.
pub open spec fn state_after(
    state: ClassifierState,
    timing: Timing,
    sample: Option<RawLevel>,
    now: u64,
) -> ClassifierState {
    match sample {
        Some(level) => state.next(timing, level, now),
        None => state,
    }
}

/// The gesture that a channel gives at a tick. Without a sample it gives
/// none.
pub open spec fn gesture_at(
    state: ClassifierState,
    id: ID,
    timing: Timing,
    sample: Option<RawLevel>,
    now: u64,
) -> Option<Gesture> {
    match sample {
        Some(level) => state.emits(id, timing, level, now),
        None => None,
    }
}

/// The states of all classifiers after a tick.
pub open spec fn states_after(
    states: Seq<ClassifierState>,
    timing: Timing,
    samples: Seq<Option<RawLevel>>,
    now: u64,
) -> Seq<ClassifierState> {
    Seq::new(states.len(), |i: int| state_after(states[i], timing, sample_at(samples, i), now))
}

/// The gestures that the first `n` channels give at a tick, in registration
/// order.
pub open spec fn gestures_of(
    channels: Seq<Channel>,
    states: Seq<ClassifierState>,
    timing: Timing,
    samples: Seq<Option<RawLevel>>,
    now: u64,
    n: int,
) -> Seq<Gesture>
    decreases n,
{
    if n <= 0 {
        Seq::empty()
    } else {
        let earlier = gestures_of(channels, states, timing, samples, now, n - 1);
        let sample = sample_at(samples, n - 1);
        match gesture_at(states[n - 1], channels[n - 1].id, timing, sample, now) {
            Some(g) => earlier.push(g),
            None => earlier,
        }
    }
}

/// The classifiers of all registered channels and the chord resolver they
/// feed.
#[derive(Debug)]
pub struct Dispatcher {
    timing: Timing,
    resolver: Resolver,
    classifiers: Vec<Classifier>,
}

impl Dispatcher {
    /// The dispatcher is well formed: it keeps one classifier for each
    /// channel, with the channel's identifier and the dispatcher's
    /// durations, and its configuration is sound. [`Dispatcher::new`] makes
    /// it so and every tick keeps it so.
    pub closed spec fn wf(&self) -> bool {
        &&& self.classifiers@.len() == self.resolver.channels().len()
        &&& forall|i: int|
            0 <= i < self.classifiers@.len() ==> {
                &&& (#[trigger] self.classifiers@[i]).id() == self.resolver.channels()[i].id
                &&& self.classifiers@[i].timing() == self.timing
            }
        &&& self.sound()
    }

    /// What well-formedness means.
    pub proof fn lemma_wf(&self)
        requires
            self.wf(),
        ensures
            self.sound(),
            self.states().len() == self.channels().len(),
    {
    }

    /// The durations of the classifiers.
    pub closed spec fn timing(&self) -> Timing {
        self.timing
    }

    /// The registered channels, in registration order.
    pub closed spec fn channels(&self) -> Seq<Channel> {
        self.resolver.channels()
    }

    /// The command table.
    pub closed spec fn commands(&self) -> CommandTable {
        self.resolver.commands()
    }

    /// The chord table.
    pub closed spec fn chords(&self) -> ChordTable {
        self.resolver.chords()
    }

    /// The chord state.
    pub closed spec fn chord_state(&self) -> ChordState {
        self.resolver.state()
    }

    /// The states of the classifiers, one for each channel, in registration
    /// order.
    pub closed spec fn states(&self) -> Seq<ClassifierState> {
        Seq::new(self.classifiers@.len(), |i: int| self.classifiers@[i].state())
    }

    /// What the resolver looks things up in.
    pub open spec fn keymap(&self) -> Keymap {
        Keymap {
            metas: metas_of(self.channels()),
            commands: self.commands()@,
            chords: self.chords()@,
        }
    }

    /// The durations are in order, no channel is registered twice, and
    /// every channel that a table names is registered.
    pub open spec fn sound(&self) -> bool {
        &&& self.timing().valid()
        &&& distinct(self.channels())
        &&& forall|id: ID|
            self.commands()@.contains_key(id) || self.chords().mentions(id) ==> registered(
                self.channels(),
                id,
            )
    }

    /// A dispatcher for a configuration, with every channel and the resolver
    /// idle; or the first fault of the configuration.
    pub fn new(config: Config) -> (r: Result<Dispatcher, ConfigError>)
        ensures
            r is Ok <==> config.valid(),
            match r {
                Ok(d) => {
                    &&& config.verdict() is Ok
                    &&& d.wf()
                    &&& d.timing() == config.timing
                    &&& d.channels() == config.channels@
                    &&& d.commands() == config.commands
                    &&& d.chords() == config.chords
                    &&& d.chord_state() == ChordState::Idle
                    &&& d.states() == Seq::new(
                        config.channels@.len(),
                        |i: int| ClassifierState::initial(),
                    )
                },
                Err(e) => config.verdict() == Err::<(), ConfigError>(e),
            },
    {
        match config.validate() {
            Err(e) => Err(e),
            Ok(()) => {
                let ghost given = config;
                let timing = config.timing;
                let mut classifiers: Vec<Classifier> = Vec::new();
                let mut i: usize = 0;
                while i < config.channels.len()
                    invariant
                        i <= config.channels.len(),
                        config == given,
                        given.valid(),
                        timing == given.timing,
                        classifiers@.len() == i,
                        forall|k: int|
                            0 <= k < i ==> {
                                &&& (#[trigger] classifiers@[k]).id() == given.channels@[k].id
                                &&& classifiers@[k].timing() == timing
                                &&& classifiers@[k].state() == ClassifierState::initial()
                            },
                    decreases config.channels.len() - i,
                {
                    classifiers.push(Classifier::new(config.channels[i].id, timing));
                    i += 1;
                }
                let resolver = Resolver::new(config.channels, config.commands, config.chords);
                let dispatcher = Dispatcher { timing, resolver, classifiers };
                assert forall|id: ID|
                    dispatcher.commands()@.contains_key(id) || dispatcher.chords().mentions(
                        id,
                    ) implies registered(dispatcher.channels(), id) by {
                    assert(given.names(id));
                }
                assert(dispatcher.states() =~= Seq::new(
                    given.channels@.len(),
                    |i: int| ClassifierState::initial(),
                ));
                Ok(dispatcher)
            },
        }
    }

    /// The chord state.
    pub fn chord(&self) -> (s: ChordState)
        ensures
            s == self.chord_state(),
    {
        self.resolver.chord_state()
    }

    /// The durations of the classifiers.
    pub fn durations(&self) -> (timing: Timing)
        ensures
            timing == self.timing(),
    {
        self.timing
    }

    /// The command table.
    pub fn command_table(&self) -> (table: &CommandTable)
        ensures
            *table == self.commands(),
    {
        self.resolver.command_table()
    }

    /// The chord table.
    pub fn chord_table(&self) -> (table: &ChordTable)
        ensures
            *table == self.chords(),
    {
        self.resolver.chord_table()
    }

    /// The number of registered channels.
    pub fn len(&self) -> (n: usize)
        ensures
            n == self.channels().len(),
    {
        self.resolver.registered().len()
    }

    /// The channel registered at a position.
    pub fn channel(&self, i: usize) -> (c: Option<Channel>)
        ensures
            c == if i < self.channels().len() {
                Some(self.channels()[i as int])
            } else {
                None
            },
    {
        let channels = self.resolver.registered();
        if i < channels.len() {
            Some(channels[i])
        } else {
            None
        }
    }

    /// The state of the classifier at a position.
    pub fn state(&self, i: usize) -> (s: Option<ClassifierState>)
        ensures
            s == if i < self.states().len() {
                Some(self.states()[i as int])
            } else {
                None
            },
    {
        if i < self.classifiers.len() {
            Some(self.classifiers[i].snapshot())
        } else {
            None
        }
    }

    /// The first half of a tick. Every channel that has a sample is
    /// classified at the time `now`; the gestures come back in registration
    /// order. A channel without a sample keeps its state and gives nothing.
    pub fn classify(&mut self, samples: &Vec<Option<RawLevel>>, now: u64) -> (gestures: Vec<
        Gesture,
    >)
        requires
            old(self).wf(),
        ensures
            final(self).wf(),
            final(self).states() == states_after(
                old(self).states(),
                old(self).timing(),
                samples@,
                now,
            ),
            gestures@ == gestures_of(
                old(self).channels(),
                old(self).states(),
                old(self).timing(),
                samples@,
                now,
                old(self).channels().len() as int,
            ),
            final(self).chord_state() == old(self).chord_state(),
            final(self).timing() == old(self).timing(),
            final(self).channels() == old(self).channels(),
            final(self).commands() == old(self).commands(),
            final(self).chords() == old(self).chords(),
    {
        let n = self.classifiers.len();
        let mut gestures: Vec<Gesture> = Vec::new();
        let mut i: usize = 0;
        while i < n
            invariant
                i <= n,
                n == self.classifiers@.len(),
                n == old(self).classifiers@.len(),
                old(self).wf(),
                self.timing == old(self).timing,
                self.resolver == old(self).resolver,
                forall|k: int|
                    0 <= k < n ==> {
                        &&& (#[trigger] self.classifiers@[k]).id() == old(self).classifiers@[k].id()
                        &&& self.classifiers@[k].timing() == old(self).classifiers@[k].timing()
                    },
                forall|k: int|
                    0 <= k < i ==> (#[trigger] self.classifiers@[k]).state() == state_after(
                        old(self).classifiers@[k].state(),
                        self.timing,
                        sample_at(samples@, k),
                        now,
                    ),
                forall|k: int|
                    i <= k < n ==> (#[trigger] self.classifiers@[k]).state() == old(
                        self,
                    ).classifiers@[k].state(),
                gestures@ == gestures_of(
                    self.resolver.channels(),
                    old(self).states(),
                    self.timing,
                    samples@,
                    now,
                    i as int,
                ),
            decreases n - i,
        {
            let sample = if i < samples.len() {
                samples[i]
            } else {
                None
            };
            match sample {
                Some(level) => {
                    match self.classifiers[i].tick(level, now) {
                        Some(g) => gestures.push(g),
                        None => {},
                    }
                },
                None => {},
            }
            i += 1;
        }
        gestures
    }

    /// The second half of a tick. The gestures are resolved in order; the
    /// packets come back in the order in which they were given. The
    /// classifiers are not touched.
    pub fn resolve(&mut self, gestures: &Vec<Gesture>) -> (packets: Vec<Packet>)
        requires
            old(self).wf(),
        ensures
            final(self).wf(),
            (final(self).chord_state(), packets@) == run(
                old(self).chord_state(),
                old(self).keymap(),
                gestures@,
            ),
            final(self).states() == old(self).states(),
            final(self).timing() == old(self).timing(),
            final(self).channels() == old(self).channels(),
            final(self).commands() == old(self).commands(),
            final(self).chords() == old(self).chords(),
    {
        self.resolver.run(gestures)
    }

    /// One tick. Every channel that has a sample is classified at the time
    /// `now`; the gestures are resolved in registration order; the packets
    /// come back in the order in which they were given. A channel without a
    /// sample keeps its state and gives nothing. The channels, the durations
    /// and the tables stay as they are.
    pub fn tick(&mut self, samples: &Vec<Option<RawLevel>>, now: u64) -> (packets: Vec<Packet>)
        requires
            old(self).wf(),
        ensures
            final(self).wf(),
            final(self).states() == states_after(
                old(self).states(),
                old(self).timing(),
                samples@,
                now,
            ),
            (final(self).chord_state(), packets@) == run(
                old(self).chord_state(),
                old(self).keymap(),
                gestures_of(
                    old(self).channels(),
                    old(self).states(),
                    old(self).timing(),
                    samples@,
                    now,
                    old(self).channels().len() as int,
                ),
            ),
            final(self).timing() == old(self).timing(),
            final(self).channels() == old(self).channels(),
            final(self).commands() == old(self).commands(),
            final(self).chords() == old(self).chords(),
    {
        let gestures = self.classify(samples, now);
        self.resolve(&gestures)
    }
}

} // verus!
