use midi_capture::manager::{resolve_port, ConnectionError, DriverReply, MidiState};

#[test]
fn open_out_of_range_is_no_op_on_empty_slot() {
    let mut s = MidiState::new();
    let r = s.open_midi_connection(
        5,
        DriverReply::Enumerated { port_count: 2, connect_ok: false },
    );
    assert_eq!(r, Err(ConnectionError::PortNotFound));
    assert!(s.input.is_none());
    assert_eq!(s.next_id, 0);
}

#[test]
fn open_out_of_range_keeps_existing_connection() {
    let mut s = MidiState::new();
    let r = s.open_midi_connection(
        0,
        DriverReply::Enumerated { port_count: 2, connect_ok: true },
    );
    assert_eq!(r, Ok(()));
    let before = s.input;
    let r2 = s.open_midi_connection(
        9,
        DriverReply::Enumerated { port_count: 2, connect_ok: true },
    );
    assert_eq!(r2, Err(ConnectionError::PortNotFound));
    assert_eq!(s.input, before);
}

#[test]
fn successful_open_replaces_previous_connection() {
    let mut s = MidiState::new();
    let r = s.open_midi_connection(
        0,
        DriverReply::Enumerated { port_count: 2, connect_ok: true },
    );
    assert_eq!(r, Ok(()));
    let a = s.input.unwrap();
    let r2 = s.open_midi_connection(
        1,
        DriverReply::Enumerated { port_count: 2, connect_ok: true },
    );
    assert_eq!(r2, Ok(()));
    let b = s.input.unwrap();
    assert_eq!(b.port_index, 1);
    assert_ne!(a.id, b.id);
}

#[test]
fn failed_connect_keeps_existing_connection() {
    let mut s = MidiState::new();
    let r = s.open_midi_connection(
        0,
        DriverReply::Enumerated { port_count: 2, connect_ok: true },
    );
    assert_eq!(r, Ok(()));
    let before = s.input;
    let r2 = s.open_midi_connection(
        1,
        DriverReply::Enumerated { port_count: 2, connect_ok: false },
    );
    assert_eq!(r2, Err(ConnectionError::ConnectFailure));
    assert_eq!(s.input, before);
}

#[test]
fn subsystem_unavailable_is_no_op() {
    let mut s = MidiState::new();
    let r = s.open_midi_connection(0, DriverReply::SubsystemUnavailable);
    assert_eq!(r, Err(ConnectionError::SubsystemUnavailable));
    assert!(s.input.is_none());
}

#[test]
fn serialized_opens_last_success_wins() {
    let mut s = MidiState::new();
    let attempts = [
        (0usize, DriverReply::Enumerated { port_count: 3, connect_ok: true }),
        (2usize, DriverReply::Enumerated { port_count: 3, connect_ok: true }),
        (1usize, DriverReply::Enumerated { port_count: 3, connect_ok: false }),
        (7usize, DriverReply::Enumerated { port_count: 3, connect_ok: true }),
    ];
    for (idx, reply) in attempts {
        let _ = s.open_midi_connection(idx, reply);
    }
    assert_eq!(s.input.unwrap().port_index, 2);
}

#[test]
fn resolve_port_accepts_only_indices_in_range() {
    assert_eq!(resolve_port(1, 2), Ok(1));
    assert_eq!(resolve_port(0, 1), Ok(0));
    assert_eq!(resolve_port(2, 2), Err(ConnectionError::PortNotFound));
    assert_eq!(resolve_port(0, 0), Err(ConnectionError::PortNotFound));
}

#[test]
fn default_state_is_closed() {
    let s = MidiState::default();
    assert!(s.input.is_none());
    assert_eq!(s.next_id, 0);
}
