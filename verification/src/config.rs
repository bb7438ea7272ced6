//! The configuration that a dispatcher is built from, and its validation
//! before any tick runs.

use vstd::prelude::*;
use crate::button::ID;
use crate::resolver::{Channel, Role};
use crate::tables::{ChordTable, CommandTable};
use crate::timing::Timing;

verus! {

/// Why a configuration is refused.
#[derive(Debug, PartialEq, Eq, Copy, Clone, Structural)]
pub enum ConfigError {
    /// The durations are out of order.
    ThresholdOrder,
    /// The channel is registered more than once.
    DuplicateChannel(ID),
    /// A table names the channel and it is not registered.
    UnregisteredChannel(ID),
}

/// Whether some registered channel has the identifier.
pub open spec fn registered(channels: Seq<Channel>, id: ID) -> bool {
    exists|i: int| 0 <= i < channels.len() && (#[trigger] channels[i]).id == id
}

/// No identifier is registered twice.
pub open spec fn distinct(channels: Seq<Channel>) -> bool {
    forall|i: int, j: int|
        0 <= i < j < channels.len() ==> (#[trigger] channels[i]).id != (#[trigger] channels[j]).id
}

/// The identifier of the first channel, in registration order, that
/// repeats the identifier of an earlier one.
pub open spec fn first_repeat(channels: Seq<Channel>) -> Option<ID>
    decreases channels.len(),
{
    if channels.len() == 0 {
        None
    } else {
        match first_repeat(channels.drop_last()) {
            Some(id) => Some(id),
            None => if registered(channels.drop_last(), channels.last().id) {
                Some(channels.last().id)
            } else {
                None
            },
        }
    }
}

/// There is a first repeat exactly where the identifiers are not distinct.
pub proof fn lemma_first_repeat(channels: Seq<Channel>)
    ensures
        first_repeat(channels) is None <==> distinct(channels),
    decreases channels.len(),
{
    if channels.len() > 0 {
        let earlier = channels.drop_last();
        let last = channels.last();
        lemma_first_repeat(earlier);
        if first_repeat(earlier) is Some {
            let (i, j) = choose|i: int, j: int|
                0 <= i < j < earlier.len() && (#[trigger] earlier[i]).id == (
                #[trigger] earlier[j]).id;
            assert(channels[i].id == channels[j].id);
        } else if registered(earlier, last.id) {
            let i = choose|i: int| 0 <= i < earlier.len() && (#[trigger] earlier[i]).id == last.id;
            assert(channels[i].id == channels[channels.len() - 1].id);
        } else {
            assert forall|i: int, j: int| 0 <= i < j < channels.len() implies (
            #[trigger] channels[i]).id != (#[trigger] channels[j]).id by {
                assert(channels[i] == earlier[i]);
                if j < earlier.len() {
                    assert(channels[j] == earlier[j]);
                }
            }
        }
    }
}

/// Everything a dispatcher is configured with.
#[derive(Debug)]
pub struct Config {
    /// The monitored channels, in registration order.
    pub channels: Vec<Channel>,
    /// The durations of the classifiers.
    pub timing: Timing,
    /// The command of each button.
    pub commands: CommandTable,
    /// The shortcut of each meta button and button.
    pub chords: ChordTable,
}

impl Config {
    /// A table names the channel.
    pub open spec fn names(&self, id: ID) -> bool {
        self.commands@.contains_key(id) || self.chords.mentions(id)
    }

    /// A table names the channel and it is not registered.
    pub open spec fn stray(&self, id: ID) -> bool {
        self.names(id) && !registered(self.channels@, id)
    }

    /// The first stray channel among `ids`.
    pub open spec fn first_stray(&self, ids: Seq<ID>) -> Option<ID>
        decreases ids.len(),
    {
        if ids.len() == 0 {
            None
        } else {
            match self.first_stray(ids.drop_last()) {
                Some(id) => Some(id),
                None => if self.stray(ids.last()) {
                    Some(ids.last())
                } else {
                    None
                },
            }
        }
    }

    /// The configuration is sound: the durations are in order, no channel
    /// is registered twice, and every channel that a table names is
    /// registered.
    pub open spec fn valid(&self) -> bool {
        &&& self.timing.valid()
        &&& distinct(self.channels@)
        &&& forall|id: ID| self.names(id) ==> registered(self.channels@, id)
    }

    /// What validation finds: the first fault, looking at the durations,
    /// then at the channels in registration order, then at the tables in the
    /// order in which the identifiers are declared.
    pub open spec fn verdict(&self) -> Result<(), ConfigError> {
        if !self.timing.valid() {
            Err(ConfigError::ThresholdOrder)
        } else {
            match first_repeat(self.channels@) {
                Some(id) => Err(ConfigError::DuplicateChannel(id)),
                None => match self.first_stray(ID::all_spec()) {
                    Some(id) => Err(ConfigError::UnregisteredChannel(id)),
                    None => Ok(()),
                },
            }
        }
    }

    /// The standard channels: all eight buttons in the order in which they
    /// are declared, the two red ones as meta buttons.
    pub open spec fn standard_channels() -> Seq<Channel> {
        seq![
            Channel { id: ID::M1, role: Role::Meta },
            Channel { id: ID::A2, role: Role::Button },
            Channel { id: ID::A3, role: Role::Button },
            Channel { id: ID::A4, role: Role::Button },
            Channel { id: ID::M2, role: Role::Meta },
            Channel { id: ID::B2, role: Role::Button },
            Channel { id: ID::B3, role: Role::Button },
            Channel { id: ID::B4, role: Role::Button },
        ]
    }

    /// The standard configuration: the standard channels, the driver
    /// crate's default durations, the standard bindings and shortcuts.
    pub fn standard() -> (config: Config)
        ensures
            config.channels@ == Config::standard_channels(),
            config.timing == Timing::standard(),
            config.commands@ == CommandTable::standard_bindings(),
            config.chords@ == ChordTable::standard_shortcuts(),
            config.valid(),
    {
        let mut channels: Vec<Channel> = Vec::new();
        channels.push(Channel { id: ID::M1, role: Role::Meta });
        channels.push(Channel { id: ID::A2, role: Role::Button });
        channels.push(Channel { id: ID::A3, role: Role::Button });
        channels.push(Channel { id: ID::A4, role: Role::Button });
        channels.push(Channel { id: ID::M2, role: Role::Meta });
        channels.push(Channel { id: ID::B2, role: Role::Button });
        channels.push(Channel { id: ID::B3, role: Role::Button });
        channels.push(Channel { id: ID::B4, role: Role::Button });
        let config = Config {
            channels,
            timing: Timing::default(),
            commands: CommandTable::standard(),
            chords: ChordTable::standard(),
        };
        proof {
            assert forall|id: ID| registered(config.channels@, id) by {
                assert(config.channels@[id.ordinal()].id == id);
            }
        }
        config
    }

    /// Whether the channel is registered.
    pub fn is_registered(&self, id: ID) -> (b: bool)
        ensures
            b == registered(self.channels@, id),
    {
        assert(self.channels@.take(self.channels.len() as int) == self.channels@);
        has_channel(&self.channels, self.channels.len(), id)
    }

    /// Validates the configuration: `Ok` where it is sound, else its first
    /// fault.
    pub fn validate(&self) -> (r: Result<(), ConfigError>)
        ensures
            r == self.verdict(),
            r is Ok <==> self.valid(),
    {
        proof {
            self.lemma_verdict();
        }
        if !self.timing.is_valid() {
            return Err(ConfigError::ThresholdOrder);
        }
        let mut j: usize = 0;
        while j < self.channels.len()
            invariant
                j <= self.channels.len(),
                self.timing.valid(),
                first_repeat(self.channels@.take(j as int)) is None,
            decreases self.channels.len() - j,
        {
            assert(self.channels@.take(j + 1).drop_last() == self.channels@.take(j as int));
            let id = self.channels[j].id;
            if has_channel(&self.channels, j, id) {
                proof {
                    lemma_first_repeat_extends(self.channels@, j + 1);
                }
                return Err(ConfigError::DuplicateChannel(id));
            }
            j += 1;
        }
        assert(self.channels@.take(j as int) == self.channels@);
        let all = ID::all();
        let mut k: usize = 0;
        while k < 8
            invariant
                k <= 8,
                all@ == ID::all_spec(),
                self.timing.valid(),
                first_repeat(self.channels@) is None,
                self.first_stray(all@.take(k as int)) is None,
            decreases 8 - k,
        {
            assert(all@.take(k + 1).drop_last() == all@.take(k as int));
            let id = all[k];
            if (self.commands.contains(id) || self.chords.uses(id)) && !self.is_registered(id) {
                proof {
                    self.lemma_first_stray_extends(all@, k + 1);
                }
                return Err(ConfigError::UnregisteredChannel(id));
            }
            k += 1;
        }
        assert(all@.take(k as int) == all@);
        Ok(())
    }

    /// A first stray found among the first identifiers is the first among
    /// all of them.
    proof fn lemma_first_stray_extends(&self, ids: Seq<ID>, n: int)
        requires
            0 <= n <= ids.len(),
            self.first_stray(ids.take(n)) is Some,
        ensures
            self.first_stray(ids) == self.first_stray(ids.take(n)),
        decreases ids.len() - n,
    {
        if n < ids.len() {
            assert(ids.take(n + 1).drop_last() == ids.take(n));
            self.lemma_first_stray_extends(ids, n + 1);
        } else {
            assert(ids.take(n) == ids);
        }
    }

    /// There is a first stray among identifiers exactly where one of them is
    /// stray.
    proof fn lemma_first_stray(&self, ids: Seq<ID>)
        ensures
            self.first_stray(ids) is None <==> forall|i: int|
                0 <= i < ids.len() ==> !self.stray(#[trigger] ids[i]),
        decreases ids.len(),
    {
        if ids.len() > 0 {
            let earlier = ids.drop_last();
            self.lemma_first_stray(earlier);
            if self.first_stray(earlier) is Some {
                let i = choose|i: int| 0 <= i < earlier.len() && self.stray(#[trigger] earlier[i]);
                assert(self.stray(ids[i]));
            } else if self.stray(ids.last()) {
                assert(self.stray(ids[ids.len() - 1]));
            } else {
                assert forall|i: int| 0 <= i < ids.len() implies !self.stray(#[trigger] ids[i]) by {
                    if i < earlier.len() {
                        assert(ids[i] == earlier[i]);
                    }
                }
            }
        }
    }

    /// Validation finds no fault exactly in the sound configurations.
    pub proof fn lemma_verdict(&self)
        ensures
            self.verdict() is Ok <==> self.valid(),
    {
        lemma_first_repeat(self.channels@);
        self.lemma_first_stray(ID::all_spec());
        if self.first_stray(ID::all_spec()) is None {
            assert forall|id: ID| self.names(id) implies registered(self.channels@, id) by {
                assert(ID::all_spec()[id.ordinal()] == id);
            }
        } else {
            let i = choose|i: int|
                0 <= i < ID::all_spec().len() && self.stray(#[trigger] ID::all_spec()[i]);
            assert(self.names(ID::all_spec()[i]));
        }
    }
}

/// A first repeat found among the first channels is the first among all of
/// them.
proof fn lemma_first_repeat_extends(channels: Seq<Channel>, n: int)
    requires
        0 <= n <= channels.len(),
        first_repeat(channels.take(n)) is Some,
    ensures
        first_repeat(channels) == first_repeat(channels.take(n)),
    decreases channels.len() - n,
{
    if n < channels.len() {
        assert(channels.take(n + 1).drop_last() == channels.take(n));
        lemma_first_repeat_extends(channels, n + 1);
    } else {
        assert(channels.take(n) == channels);
    }
}

/// Whether one of the first `n` channels has the identifier.
fn has_channel(channels: &Vec<Channel>, n: usize, id: ID) -> (b: bool)
    requires
        n <= channels.len(),
    ensures
        b == registered(channels@.take(n as int), id),
{
    let mut i: usize = 0;
    while i < n
        invariant
            i <= n <= channels.len(),
            forall|k: int| 0 <= k < i ==> (#[trigger] channels@[k]).id != id,
        decreases n - i,
    {
        if channels[i].id == id {
            assert(channels@.take(n as int)[i as int] == channels@[i as int]);
            return true;
        }
        i += 1;
    }
    assert forall|k: int| 0 <= k < channels@.take(n as int).len() implies (
    #[trigger] channels@.take(n as int)[k]).id != id by {
    }
    false
}

} // verus!
