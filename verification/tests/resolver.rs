use button_chords::button::ID;
use button_chords::gesture::{Gesture, Packet};
use button_chords::media::Command;
use button_chords::resolver::{Channel, ChordState, Resolution, Resolver, Role};
use button_chords::tables::{ChordTable, CommandTable};

fn standard() -> Resolver {
    let channels = vec![
        Channel { id: ID::M1, role: Role::Meta },
        Channel { id: ID::A2, role: Role::Button },
        Channel { id: ID::A3, role: Role::Button },
        Channel { id: ID::M2, role: Role::Meta },
        Channel { id: ID::B4, role: Role::Button },
    ];
    Resolver::new(channels, CommandTable::standard(), ChordTable::standard())
}

#[test]
fn resolver_starts_idle() {
    let resolver = standard();
    assert_eq!(resolver.chord_state(), ChordState::Idle);
    assert_eq!(resolver.registered().len(), 5);
    assert_eq!(resolver.command_table().get(ID::A2), Some(Command::VolumeDown));
    assert_eq!(resolver.chord_table().get(ID::M1, ID::A2), Some(1));
}

#[test]
fn roles_come_from_registration() {
    let resolver = standard();
    assert!(resolver.is_meta(ID::M1));
    assert!(resolver.is_meta(ID::M2));
    assert!(!resolver.is_meta(ID::A2));
    assert!(!resolver.is_meta(ID::B4));
    assert!(!resolver.is_meta(ID::B2));
}

#[test]
fn click_alone_gives_the_command() {
    let mut resolver = standard();
    assert_eq!(resolver.step(Gesture::Click(ID::A2)), Some(Packet::Command(Command::VolumeDown)));
    assert_eq!(resolver.chord_state(), ChordState::Idle);
    assert_eq!(resolver.step(Gesture::Click(ID::B4)), Some(Packet::Command(Command::Eject)));
}

#[test]
fn meta_click_gives_nothing_and_arms() {
    let mut resolver = standard();
    assert_eq!(resolver.step(Gesture::Click(ID::M1)), None);
    assert_eq!(resolver.chord_state(), ChordState::MetaActive(ID::M1));
}

#[test]
fn chord_gives_one_shortcut_and_resets() {
    let mut resolver = standard();
    let packets = resolver.run(&vec![Gesture::Click(ID::M1), Gesture::Click(ID::A2)]);
    assert_eq!(packets, vec![Packet::Shortcut(1)]);
    assert_eq!(resolver.chord_state(), ChordState::Idle);
    let packets = resolver.run(&vec![Gesture::Click(ID::A2)]);
    assert_eq!(packets, vec![Packet::Command(Command::VolumeDown)]);
}

#[test]
fn chord_then_unbound_button_alone_gives_nothing() {
    let mut commands = CommandTable::new();
    commands.insert(ID::A3, Command::PrevTrack);
    let mut chords = ChordTable::new();
    chords.insert(ID::M1, ID::A2, 7);
    let channels = vec![
        Channel { id: ID::M1, role: Role::Meta },
        Channel { id: ID::A2, role: Role::Button },
    ];
    let mut resolver = Resolver::new(channels, commands, chords);
    assert_eq!(resolver.step(Gesture::Click(ID::M1)), None);
    assert_eq!(resolver.step(Gesture::Click(ID::A2)), Some(Packet::Shortcut(7)));
    assert_eq!(resolver.chord_state(), ChordState::Idle);
    assert_eq!(resolver.step(Gesture::Click(ID::A2)), None);
    assert_eq!(resolver.chord_state(), ChordState::Idle);
}

#[test]
fn last_meta_wins() {
    let mut resolver = standard();
    let packets = resolver.run(
        &vec![Gesture::Click(ID::M1), Gesture::Click(ID::M2), Gesture::Click(ID::A2)],
    );
    assert_eq!(packets, vec![Packet::Shortcut(6)]);
    assert_eq!(resolver.chord_state(), ChordState::Idle);
}

#[test]
fn same_meta_twice_stays_armed() {
    let mut resolver = standard();
    assert_eq!(resolver.step(Gesture::Click(ID::M2)), None);
    assert_eq!(resolver.step(Gesture::Click(ID::M2)), None);
    assert_eq!(resolver.chord_state(), ChordState::MetaActive(ID::M2));
    assert_eq!(resolver.step(Gesture::Click(ID::A3)), Some(Packet::Shortcut(7)));
}

#[test]
fn unknown_chord_is_dropped_and_ends_the_chord() {
    let mut chords = ChordTable::new();
    chords.insert(ID::M1, ID::A2, 1);
    let channels = vec![
        Channel { id: ID::M1, role: Role::Meta },
        Channel { id: ID::M2, role: Role::Meta },
        Channel { id: ID::A2, role: Role::Button },
        Channel { id: ID::A3, role: Role::Button },
    ];
    let mut resolver = Resolver::new(channels, CommandTable::standard(), chords);
    assert_eq!(resolver.step(Gesture::Click(ID::M1)), None);
    assert_eq!(resolver.step(Gesture::Click(ID::A3)), None);
    assert_eq!(resolver.chord_state(), ChordState::Idle);
    assert_eq!(resolver.step(Gesture::Click(ID::A3)), Some(Packet::Command(Command::PrevTrack)));
    assert_eq!(resolver.step(Gesture::Click(ID::M2)), None);
    assert_eq!(resolver.step(Gesture::Click(ID::A2)), None);
    assert_eq!(resolver.chord_state(), ChordState::Idle);
}

#[test]
fn a_chord_takes_exactly_one_click() {
    let mut resolver = standard();
    let packets = resolver.run(
        &vec![Gesture::Click(ID::M1), Gesture::Click(ID::A2), Gesture::Click(ID::A3)],
    );
    assert_eq!(packets, vec![Packet::Shortcut(1), Packet::Command(Command::PrevTrack)]);
}

#[test]
fn double_and_triple_clicks_resolve_like_clicks() {
    let mut resolver = standard();
    assert_eq!(
        resolver.step(Gesture::DoubleClick(ID::A2)),
        Some(Packet::Command(Command::VolumeDown))
    );
    assert_eq!(
        resolver.step(Gesture::TripleClick(ID::A3)),
        Some(Packet::Command(Command::PrevTrack))
    );
    assert_eq!(resolver.step(Gesture::TripleClick(ID::M2)), None);
    assert_eq!(resolver.chord_state(), ChordState::MetaActive(ID::M2));
    assert_eq!(resolver.step(Gesture::DoubleClick(ID::B4)), Some(Packet::Shortcut(11)));
    assert_eq!(resolver.chord_state(), ChordState::Idle);
}

#[test]
fn holds_are_not_chorded() {
    let mut resolver = standard();
    assert_eq!(resolver.step(Gesture::Holding(ID::A2, 600_000)), None);
    assert_eq!(resolver.step(Gesture::Held(ID::A2, 700_000)), None);
    assert_eq!(resolver.chord_state(), ChordState::Idle);
    assert_eq!(resolver.step(Gesture::Click(ID::M1)), None);
    assert_eq!(resolver.step(Gesture::Holding(ID::A2, 600_000)), None);
    assert_eq!(resolver.step(Gesture::Held(ID::M2, 700_000)), None);
    assert_eq!(resolver.step(Gesture::Holding(ID::M2, 900_000)), None);
    assert_eq!(resolver.chord_state(), ChordState::MetaActive(ID::M1));
    assert_eq!(resolver.step(Gesture::Click(ID::A2)), Some(Packet::Shortcut(1)));
}

#[test]
fn meta_stays_armed_without_input() {
    let mut resolver = standard();
    assert_eq!(resolver.step(Gesture::Click(ID::M1)), None);
    for _ in 0..1000 {
        assert_eq!(resolver.run(&Vec::new()), Vec::new());
    }
    assert_eq!(resolver.chord_state(), ChordState::MetaActive(ID::M1));
    assert_eq!(resolver.step(Gesture::Click(ID::A3)), Some(Packet::Shortcut(2)));
}

#[test]
fn click_without_command_gives_nothing() {
    let channels = vec![Channel { id: ID::A2, role: Role::Button }];
    let mut resolver = Resolver::new(channels, CommandTable::new(), ChordTable::new());
    assert_eq!(resolver.step(Gesture::Click(ID::A2)), None);
    assert_eq!(resolver.chord_state(), ChordState::Idle);
}

#[test]
fn packets_come_in_the_order_of_the_gestures() {
    let mut resolver = standard();
    let packets = resolver.run(
        &vec![
            Gesture::Click(ID::B4),
            Gesture::Held(ID::A2, 1),
            Gesture::Click(ID::M2),
            Gesture::Click(ID::A2),
            Gesture::Click(ID::A2),
            Gesture::Click(ID::M1),
        ],
    );
    assert_eq!(
        packets,
        vec![
            Packet::Command(Command::Eject),
            Packet::Shortcut(6),
            Packet::Command(Command::VolumeDown),
        ]
    );
    assert_eq!(resolver.chord_state(), ChordState::MetaActive(ID::M1));
}

#[test]
fn tables_stay_after_a_run() {
    let mut resolver = standard();
    resolver.run(&vec![Gesture::Click(ID::M1), Gesture::Click(ID::A2), Gesture::Click(ID::A3)]);
    assert_eq!(resolver.command_table().get(ID::A2), Some(Command::VolumeDown));
    assert_eq!(resolver.chord_table().get(ID::M1, ID::A2), Some(1));
    assert_eq!(resolver.registered().len(), 5);
}

#[test]
fn resolution_names_what_happened() {
    let mut chords = ChordTable::new();
    chords.insert(ID::M1, ID::A2, 1);
    let mut commands = CommandTable::new();
    commands.insert(ID::A2, Command::VolumeDown);
    let channels = vec![
        Channel { id: ID::M1, role: Role::Meta },
        Channel { id: ID::A2, role: Role::Button },
        Channel { id: ID::A3, role: Role::Button },
    ];
    let mut resolver = Resolver::new(channels, commands, chords);
    assert_eq!(resolver.resolve(Gesture::Holding(ID::A2, 500_000)), Resolution::Passed);
    assert_eq!(resolver.resolve(Gesture::Held(ID::M1, 500_000)), Resolution::Passed);
    assert_eq!(resolver.resolve(Gesture::Click(ID::A2)), Resolution::Command(Command::VolumeDown));
    assert_eq!(resolver.resolve(Gesture::Click(ID::A3)), Resolution::UnknownCommand(ID::A3));
    assert_eq!(resolver.resolve(Gesture::Click(ID::M1)), Resolution::Armed(ID::M1));
    assert_eq!(resolver.resolve(Gesture::Click(ID::A3)), Resolution::UnknownChord(ID::M1, ID::A3));
    assert_eq!(resolver.chord_state(), ChordState::Idle);
    assert_eq!(resolver.resolve(Gesture::TripleClick(ID::M1)), Resolution::Armed(ID::M1));
    assert_eq!(resolver.resolve(Gesture::DoubleClick(ID::A2)), Resolution::Shortcut(1));
}

#[test]
fn only_shortcuts_and_commands_go_out() {
    assert_eq!(Resolution::Shortcut(9).packet(), Some(Packet::Shortcut(9)));
    assert_eq!(
        Resolution::Command(Command::PlayPause).packet(),
        Some(Packet::Command(Command::PlayPause))
    );
    assert_eq!(Resolution::Passed.packet(), None);
    assert_eq!(Resolution::Armed(ID::M2).packet(), None);
    assert_eq!(Resolution::UnknownChord(ID::M2, ID::A2).packet(), None);
    assert_eq!(Resolution::UnknownCommand(ID::A2).packet(), None);
}

#[test]
fn unregistered_channel_resolves_as_a_button() {
    let mut resolver = standard();
    assert_eq!(resolver.step(Gesture::Click(ID::B2)), Some(Packet::Command(Command::VolumeUp)));
    assert_eq!(resolver.step(Gesture::Click(ID::M1)), None);
    assert_eq!(resolver.step(Gesture::Click(ID::B2)), Some(Packet::Shortcut(4)));
}
