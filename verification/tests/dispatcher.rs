use button_chords::button::ID;
use button_chords::classifier::ClassifierState;
use button_chords::config::{Config, ConfigError};
use button_chords::dispatch::Dispatcher;
use button_chords::gesture::{Gesture, Packet, RawLevel};
use button_chords::media::Command;
use button_chords::resolver::{Channel, ChordState, Role};
use button_chords::tables::{ChordTable, CommandTable};
use button_chords::timing::Timing;

const P: Option<RawLevel> = Some(RawLevel::Pressed);
const R: Option<RawLevel> = Some(RawLevel::Released);

fn two_channels() -> Dispatcher {
    let mut commands = CommandTable::new();
    commands.insert(ID::A2, Command::VolumeDown);
    let mut chords = ChordTable::new();
    chords.insert(ID::M1, ID::A2, 1);
    let config = Config {
        channels: vec![
            Channel { id: ID::M1, role: Role::Meta },
            Channel { id: ID::A2, role: Role::Button },
        ],
        timing: Timing {
            debounce_duration: 1_000,
            multi_click_window: 150_000,
            hold_threshold: 500_000,
        },
        commands,
        chords,
    };
    match Dispatcher::new(config) {
        Ok(dispatcher) => dispatcher,
        Err(e) => panic!("sound configuration refused: {:?}", e),
    }
}

fn play(
    dispatcher: &mut Dispatcher,
    ticks: &[(u64, Option<RawLevel>, Option<RawLevel>)],
) -> Vec<Packet> {
    let mut packets = Vec::new();
    for (now, first, second) in ticks {
        packets.extend(dispatcher.tick(&vec![*first, *second], *now));
    }
    packets
}

#[test]
fn new_dispatcher_is_idle() {
    let dispatcher = two_channels();
    assert_eq!(dispatcher.len(), 2);
    assert_eq!(dispatcher.chord(), ChordState::Idle);
    assert_eq!(dispatcher.channel(0), Some(Channel { id: ID::M1, role: Role::Meta }));
    assert_eq!(dispatcher.channel(1), Some(Channel { id: ID::A2, role: Role::Button }));
    assert_eq!(dispatcher.channel(2), None);
    let idle = ClassifierState {
        level: RawLevel::Released,
        pending_clicks: 0,
        last_transition_time: 0,
        hold_active: false,
    };
    assert_eq!(dispatcher.state(0), Some(idle));
    assert_eq!(dispatcher.state(1), Some(idle));
    assert_eq!(dispatcher.state(2), None);
}

#[test]
fn unsound_configuration_gives_no_dispatcher() {
    let mut config = Config::standard();
    config.timing.hold_threshold = 10;
    assert_eq!(Dispatcher::new(config).err(), Some(ConfigError::ThresholdOrder));
    let mut config = Config::standard();
    config.channels.push(Channel { id: ID::B3, role: Role::Meta });
    assert_eq!(Dispatcher::new(config).err(), Some(ConfigError::DuplicateChannel(ID::B3)));
    let mut config = Config::standard();
    config.channels.pop();
    assert_eq!(Dispatcher::new(config).err(), Some(ConfigError::UnregisteredChannel(ID::B4)));
}

#[test]
fn brief_press_of_a_button_gives_its_command() {
    let mut dispatcher = two_channels();
    let packets = play(
        &mut dispatcher,
        &[
            (0, R, R),
            (10_000, R, P),
            (20_000, R, P),
            (30_000, R, R),
            (100_000, R, R),
            (179_999, R, R),
            (180_000, R, R),
            (400_000, R, R),
        ],
    );
    assert_eq!(packets, vec![Packet::Command(Command::VolumeDown)]);
    assert_eq!(dispatcher.chord(), ChordState::Idle);
}

#[test]
fn command_comes_at_the_tick_the_window_expires() {
    let mut dispatcher = two_channels();
    assert_eq!(dispatcher.tick(&vec![R, P], 10_000), Vec::new());
    assert_eq!(dispatcher.tick(&vec![R, R], 30_000), Vec::new());
    assert_eq!(dispatcher.tick(&vec![R, R], 179_999), Vec::new());
    assert_eq!(
        dispatcher.tick(&vec![R, R], 180_000),
        vec![Packet::Command(Command::VolumeDown)]
    );
    assert_eq!(dispatcher.tick(&vec![R, R], 180_001), Vec::new());
}

#[test]
fn meta_then_button_gives_the_shortcut() {
    let mut dispatcher = two_channels();
    let packets = play(
        &mut dispatcher,
        &[
            (0, R, R),
            (10_000, P, R),
            (30_000, R, R),
            (50_000, R, P),
            (70_000, R, R),
            (100_000, R, R),
            (190_000, R, R),
            (230_000, R, R),
            (500_000, R, R),
        ],
    );
    assert_eq!(packets, vec![Packet::Shortcut(1)]);
    assert_eq!(dispatcher.chord(), ChordState::Idle);
}

#[test]
fn meta_alone_gives_nothing_and_stays_armed() {
    let mut dispatcher = two_channels();
    let packets = play(
        &mut dispatcher,
        &[(10_000, P, R), (30_000, R, R), (200_000, R, R), (90_000_000, R, R)],
    );
    assert_eq!(packets, Vec::new());
    assert_eq!(dispatcher.chord(), ChordState::MetaActive(ID::M1));
    let packets = play(
        &mut dispatcher,
        &[(100_000_000, R, P), (100_020_000, R, R), (100_170_000, R, R)],
    );
    assert_eq!(packets, vec![Packet::Shortcut(1)]);
}

#[test]
fn gestures_of_one_tick_resolve_in_registration_order() {
    let mut dispatcher = two_channels();
    let packets = play(
        &mut dispatcher,
        &[(10_000, P, P), (30_000, R, R), (180_000, R, R)],
    );
    assert_eq!(packets, vec![Packet::Shortcut(1)]);
}

#[test]
fn button_registered_before_the_meta_resolves_first() {
    let mut commands = CommandTable::new();
    commands.insert(ID::A2, Command::VolumeDown);
    let mut chords = ChordTable::new();
    chords.insert(ID::M1, ID::A2, 1);
    let config = Config {
        channels: vec![
            Channel { id: ID::A2, role: Role::Button },
            Channel { id: ID::M1, role: Role::Meta },
        ],
        timing: Timing {
            debounce_duration: 1_000,
            multi_click_window: 150_000,
            hold_threshold: 500_000,
        },
        commands,
        chords,
    };
    let mut dispatcher = Dispatcher::new(config).unwrap();
    let packets = play(
        &mut dispatcher,
        &[(10_000, P, P), (30_000, R, R), (180_000, R, R)],
    );
    assert_eq!(packets, vec![Packet::Command(Command::VolumeDown)]);
    assert_eq!(dispatcher.chord(), ChordState::MetaActive(ID::M1));
}

#[test]
fn bounce_gives_nothing() {
    let mut dispatcher = two_channels();
    let packets = play(
        &mut dispatcher,
        &[(10_000, R, P), (10_500, R, R), (11_000, P, R), (11_999, R, R), (500_000, R, R)],
    );
    assert_eq!(packets, Vec::new());
    assert_eq!(dispatcher.chord(), ChordState::Idle);
}

#[test]
fn held_button_gives_no_packet() {
    let mut dispatcher = two_channels();
    let packets = play(
        &mut dispatcher,
        &[
            (0, R, P),
            (300_000, R, P),
            (600_000, R, P),
            (900_000, R, P),
            (1_000_000, R, R),
            (2_000_000, R, R),
        ],
    );
    assert_eq!(packets, Vec::new());
}

#[test]
fn hold_does_not_disarm_the_meta() {
    let mut dispatcher = two_channels();
    let packets = play(
        &mut dispatcher,
        &[
            (0, P, R),
            (20_000, R, R),
            (170_000, R, P),
            (700_000, R, P),
            (800_000, R, R),
            (1_000_000, R, P),
            (1_020_000, R, R),
            (1_170_000, R, R),
        ],
    );
    assert_eq!(packets, vec![Packet::Shortcut(1)]);
}

#[test]
fn failed_read_carries_the_state_forward() {
    let mut dispatcher = two_channels();
    assert_eq!(dispatcher.tick(&vec![R, P], 10_000), Vec::new());
    let before = dispatcher.state(1);
    assert_eq!(dispatcher.tick(&vec![R, None], 20_000), Vec::new());
    assert_eq!(dispatcher.state(1), before);
    assert_eq!(dispatcher.tick(&vec![None, None], 900_000), Vec::new());
    assert_eq!(dispatcher.state(1), before);
    assert_eq!(dispatcher.tick(&vec![R, R], 30_000), Vec::new());
    assert_eq!(
        dispatcher.tick(&vec![R, R], 180_000),
        vec![Packet::Command(Command::VolumeDown)]
    );
}

#[test]
fn missing_samples_count_as_failed_reads() {
    let mut dispatcher = two_channels();
    assert_eq!(dispatcher.tick(&vec![P], 10_000), Vec::new());
    assert_eq!(
        dispatcher.state(1),
        Some(ClassifierState {
            level: RawLevel::Released,
            pending_clicks: 0,
            last_transition_time: 0,
            hold_active: false,
        })
    );
    assert_eq!(dispatcher.state(0).map(|s| s.level), Some(RawLevel::Pressed));
    assert_eq!(dispatcher.tick(&Vec::new(), 20_000), Vec::new());
    assert_eq!(dispatcher.tick(&vec![R, R, P, P], 30_000), Vec::new());
    assert_eq!(dispatcher.state(0).map(|s| s.pending_clicks), Some(1));
}

#[test]
fn standard_dispatcher_resolves_standard_chords() {
    let mut dispatcher = Dispatcher::new(Config::standard()).unwrap();
    let mut levels = vec![R; 8];
    let mut packets = Vec::new();
    packets.extend(dispatcher.tick(&levels, 0));
    levels[4] = P;
    packets.extend(dispatcher.tick(&levels, 10_000));
    levels[4] = R;
    packets.extend(dispatcher.tick(&levels, 30_000));
    packets.extend(dispatcher.tick(&levels, 180_000));
    assert_eq!(dispatcher.chord(), ChordState::MetaActive(ID::M2));
    levels[7] = P;
    packets.extend(dispatcher.tick(&levels, 200_000));
    levels[7] = R;
    packets.extend(dispatcher.tick(&levels, 220_000));
    packets.extend(dispatcher.tick(&levels, 370_000));
    levels[5] = P;
    packets.extend(dispatcher.tick(&levels, 400_000));
    levels[5] = R;
    packets.extend(dispatcher.tick(&levels, 420_000));
    packets.extend(dispatcher.tick(&levels, 570_000));
    assert_eq!(
        packets,
        vec![Packet::Shortcut(11), Packet::Command(Command::VolumeUp)]
    );
}

#[test]
fn classify_then_resolve_is_a_tick() {
    let ticks = [
        (0u64, R, R),
        (10_000, P, P),
        (30_000, R, P),
        (40_000, R, R),
        (180_000, R, R),
        (190_000, R, R),
        (700_000, P, R),
        (1_300_000, P, R),
        (1_400_000, R, R),
    ];
    let mut whole = two_channels();
    let mut halves = two_channels();
    for (now, first, second) in ticks {
        let samples = vec![first, second];
        let packets = whole.tick(&samples, now);
        let gestures = halves.classify(&samples, now);
        assert_eq!(halves.resolve(&gestures), packets);
        assert_eq!(halves.state(0), whole.state(0));
        assert_eq!(halves.state(1), whole.state(1));
        assert_eq!(halves.chord(), whole.chord());
    }
}

#[test]
fn classify_gives_gestures_in_registration_order() {
    let mut dispatcher = two_channels();
    assert_eq!(dispatcher.classify(&vec![P, P], 10_000), Vec::new());
    assert_eq!(dispatcher.classify(&vec![R, P], 30_000), Vec::new());
    assert_eq!(
        dispatcher.classify(&vec![R, P], 510_000),
        vec![Gesture::Click(ID::M1), Gesture::Holding(ID::A2, 500_000)]
    );
    assert_eq!(dispatcher.chord(), ChordState::Idle);
    assert_eq!(
        dispatcher.classify(&vec![R, R], 520_000),
        vec![Gesture::Held(ID::A2, 510_000)]
    );
}

#[test]
fn resolve_leaves_the_classifiers_alone() {
    let mut dispatcher = two_channels();
    dispatcher.classify(&vec![P, R], 10_000);
    let before = (dispatcher.state(0), dispatcher.state(1));
    let packets = dispatcher.resolve(&vec![Gesture::Click(ID::M1), Gesture::Click(ID::A2)]);
    assert_eq!(packets, vec![Packet::Shortcut(1)]);
    assert_eq!((dispatcher.state(0), dispatcher.state(1)), before);
}

#[test]
fn ticks_leave_the_configuration_alone() {
    let mut dispatcher = two_channels();
    let timing = dispatcher.durations();
    assert_eq!(timing.debounce_duration, 1_000);
    play(
        &mut dispatcher,
        &[(10_000, P, P), (30_000, R, R), (180_000, R, R), (900_000, P, P), (2_000_000, R, R)],
    );
    assert_eq!(dispatcher.durations(), timing);
    assert_eq!(dispatcher.len(), 2);
    assert_eq!(dispatcher.command_table().get(ID::A2), Some(Command::VolumeDown));
    assert_eq!(dispatcher.command_table().get(ID::M1), None);
    assert_eq!(dispatcher.chord_table().get(ID::M1, ID::A2), Some(1));
    assert_eq!(dispatcher.chord_table().get(ID::A2, ID::M1), None);
}
