use loco_controller::backend::{Error as BackendError, LocoIntent, LocoStatus};
use loco_controller::oracle::{ActiveLoco, ActiveSegment, Error, Oracle};
use loco_controller::protocol::{ActuatorId, ActuatorType, Direction, LocoId, SensorId, Speed};
use loco_controller::rail_network::{CheckpointId, SegmentId, TrackId};

fn loco(id: LocoId, speed: Speed, at: CheckpointId, intent: LocoIntent) -> ActiveLoco {
    ActiveLoco { id, speed, location: Some(at), intent: Some(intent) }
}

#[test]
fn single_loco_direct_intent() {
    let mut oracle = Oracle::new();
    let locos = vec![loco(
        LocoId::Loco1,
        Speed::Stop,
        CheckpointId::Checkpoint1,
        LocoIntent::Drive(Direction::Forward, TrackId::Track1),
    )];
    let (actuators, controls) = oracle.process(true, &locos).unwrap();
    assert_eq!(actuators, vec![(ActuatorId::SwitchRails2, ActuatorType::SwitchRails, 1u8)]);
    assert_eq!(controls, vec![(LocoId::Loco1, Direction::Forward, Speed::Normal)]);
}

#[test]
fn contested_segment_keeps_leader() {
    let mut oracle = Oracle::new();
    let drive = LocoIntent::Drive(Direction::Forward, TrackId::Track1);
    // Loco1 moves onto the segment first.
    let first = vec![loco(LocoId::Loco1, Speed::Normal, CheckpointId::Checkpoint2, drive)];
    let (_, controls) = oracle.process(true, &first).unwrap();
    assert_eq!(controls, vec![(LocoId::Loco1, Direction::Forward, Speed::Normal)]);
    // Both now target it; Loco2 is listed first but Loco1 keeps it.
    let both = vec![
        loco(LocoId::Loco2, Speed::Normal, CheckpointId::Checkpoint2, drive),
        loco(LocoId::Loco1, Speed::Normal, CheckpointId::Checkpoint2, drive),
    ];
    let (actuators, controls) = oracle.process(true, &both).unwrap();
    assert!(actuators.is_empty());
    assert_eq!(
        controls,
        vec![
            (LocoId::Loco1, Direction::Forward, Speed::Normal),
            (LocoId::Loco2, Direction::Forward, Speed::Stop),
        ]
    );
}

#[test]
fn arrive_and_stop() {
    let mut oracle = Oracle::new();
    let locos = vec![loco(
        LocoId::Loco1,
        Speed::Normal,
        CheckpointId::Station1,
        LocoIntent::Stop(Direction::Forward, CheckpointId::Station1),
    )];
    let (actuators, controls) = oracle.process(true, &locos).unwrap();
    assert!(actuators.is_empty());
    assert_eq!(controls, vec![(LocoId::Loco1, Direction::Forward, Speed::Stop)]);
}

#[test]
fn disconnected_loco_is_skipped() {
    let status = LocoStatus::new(
        Direction::Forward,
        Speed::Stop,
        Some(SensorId::RfidReader1),
        Some(LocoIntent::Drive(Direction::Forward, TrackId::Track1)),
    );
    let l1 = Oracle::active_loco(LocoId::Loco1, Ok(status)).unwrap().unwrap();
    assert_eq!(l1.location, Some(CheckpointId::Checkpoint1));
    let l2 = Oracle::active_loco(LocoId::Loco2, Err(BackendError::LocoNotConnected(LocoId::Loco2)));
    assert_eq!(l2, Ok(None));
    let mut oracle = Oracle::new();
    let (_, controls) = oracle.process(true, &vec![l1]).unwrap();
    assert_eq!(controls, vec![(LocoId::Loco1, Direction::Forward, Speed::Normal)]);
}

#[test]
fn status_failure_aborts_tick() {
    let r = Oracle::active_loco(LocoId::Loco1, Err(BackendError::Transport));
    assert_eq!(r, Err(Error::LocoStatus(BackendError::Transport)));
}

#[test]
fn station_route_sets_diverted_switch() {
    let mut oracle = Oracle::new();
    let intent = LocoIntent::Drive(Direction::Forward, TrackId::Station2);
    let from_cp2 = vec![loco(LocoId::Loco1, Speed::Stop, CheckpointId::Checkpoint2, intent)];
    let (actuators, controls) = oracle.process(true, &from_cp2).unwrap();
    assert!(actuators.is_empty());
    assert_eq!(controls, vec![(LocoId::Loco1, Direction::Forward, Speed::Normal)]);
    let from_cp3 = vec![loco(LocoId::Loco1, Speed::Normal, CheckpointId::Checkpoint3, intent)];
    let (actuators, _) = oracle.process(true, &from_cp3).unwrap();
    assert_eq!(actuators, vec![(ActuatorId::SwitchRails3, ActuatorType::SwitchRails, 2u8)]);
}

#[test]
fn oracle_off_commands_nothing() {
    let mut oracle = Oracle::new();
    let locos = vec![loco(
        LocoId::Loco1,
        Speed::Stop,
        CheckpointId::Checkpoint1,
        LocoIntent::Drive(Direction::Forward, TrackId::Track1),
    )];
    for _ in 0..100 {
        let (actuators, controls) = oracle.process(false, &locos).unwrap();
        assert!(actuators.is_empty());
        assert!(controls.is_empty());
    }
}

#[test]
fn conflicting_segments_move_one_loco() {
    let mut oracle = Oracle::new();
    // Loco1 goes Checkpoint1 -> Checkpoint2 (Segment1), Loco2 goes Station1 -> Checkpoint2
    // (Segment8); the two segments conflict.
    let locos = vec![
        loco(
            LocoId::Loco2,
            Speed::Normal,
            CheckpointId::Station1,
            LocoIntent::Drive(Direction::Forward, TrackId::Track1),
        ),
        loco(
            LocoId::Loco1,
            Speed::Normal,
            CheckpointId::Checkpoint1,
            LocoIntent::Drive(Direction::Forward, TrackId::Track1),
        ),
    ];
    let (actuators, controls) = oracle.process(true, &locos).unwrap();
    // Segment1 has the better priority and is resolved first.
    assert_eq!(actuators, vec![(ActuatorId::SwitchRails2, ActuatorType::SwitchRails, 1u8)]);
    assert_eq!(
        controls,
        vec![
            (LocoId::Loco1, Direction::Forward, Speed::Normal),
            (LocoId::Loco2, Direction::Forward, Speed::Stop),
        ]
    );
}

#[test]
fn busy_checkpoint_makes_loco_wait() {
    let mut oracle = Oracle::new();
    let locos = vec![
        loco(
            LocoId::Loco1,
            Speed::Stop,
            CheckpointId::Checkpoint2,
            LocoIntent::Stop(Direction::Forward, CheckpointId::Checkpoint2),
        ),
        loco(
            LocoId::Loco2,
            Speed::Normal,
            CheckpointId::Checkpoint1,
            LocoIntent::Drive(Direction::Forward, TrackId::Track1),
        ),
    ];
    let (actuators, controls) = oracle.process(true, &locos).unwrap();
    assert!(actuators.is_empty());
    assert_eq!(
        controls,
        vec![
            (LocoId::Loco1, Direction::Forward, Speed::Stop),
            (LocoId::Loco2, Direction::Forward, Speed::Stop),
        ]
    );
}

#[test]
fn loco_without_location_or_intent_is_left_out() {
    let mut oracle = Oracle::new();
    let locos = vec![
        ActiveLoco { id: LocoId::Loco1, speed: Speed::Stop, location: None, intent: None },
        ActiveLoco {
            id: LocoId::Loco2,
            speed: Speed::Stop,
            location: Some(CheckpointId::Checkpoint4),
            intent: None,
        },
    ];
    let (actuators, controls) = oracle.process(true, &locos).unwrap();
    assert!(actuators.is_empty());
    assert!(controls.is_empty());
}

#[test]
fn stop_intent_with_far_target() {
    let oracle = Oracle::new();
    let locos = vec![loco(
        LocoId::Loco1,
        Speed::Stop,
        CheckpointId::Checkpoint4,
        LocoIntent::Stop(Direction::Forward, CheckpointId::Station1),
    )];
    let v = oracle.determine_active_segments(&locos).unwrap();
    assert_eq!(
        v,
        vec![ActiveSegment {
            id: Some(SegmentId::Segment4),
            direction: Direction::Forward,
            loco_id: LocoId::Loco1
        }]
    );
}

#[test]
fn sort_puts_waiting_locos_last() {
    let oracle = Oracle::new();
    let waiting = ActiveSegment { id: None, direction: Direction::Forward, loco_id: LocoId::Loco1 };
    let moving = ActiveSegment {
        id: Some(SegmentId::Segment7),
        direction: Direction::Backward,
        loco_id: LocoId::Loco2,
    };
    let sorted = oracle.sort_active_segments(vec![waiting, moving]);
    assert_eq!(sorted, vec![moving, waiting]);
}

#[test]
fn two_moves_each_switch_once() {
    let mut oracle = Oracle::new();
    let drive = LocoIntent::Drive(Direction::Forward, TrackId::Track1);
    let locos = vec![
        loco(LocoId::Loco1, Speed::Normal, CheckpointId::Checkpoint1, drive),
        loco(LocoId::Loco2, Speed::Normal, CheckpointId::Checkpoint3, drive),
    ];
    let (actuators, controls) = oracle.process(true, &locos).unwrap();
    assert_eq!(
        actuators,
        vec![
            (ActuatorId::SwitchRails2, ActuatorType::SwitchRails, 1u8),
            (ActuatorId::SwitchRails3, ActuatorType::SwitchRails, 1u8),
        ]
    );
    assert_eq!(
        controls,
        vec![
            (LocoId::Loco1, Direction::Forward, Speed::Normal),
            (LocoId::Loco2, Direction::Forward, Speed::Normal),
        ]
    );
}
