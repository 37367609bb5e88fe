use loco_controller::protocol::{ActuatorId, Direction, SensorId, SwitchRailsState};
use loco_controller::rail_network::{
    CheckpointId, Error, RailNetwork, SegmentId, SegmentPriority, TrackId,
};

const ALL: [CheckpointId; 8] = [
    CheckpointId::Checkpoint1,
    CheckpointId::Checkpoint2,
    CheckpointId::Checkpoint3,
    CheckpointId::Checkpoint4,
    CheckpointId::Checkpoint5,
    CheckpointId::Checkpoint6,
    CheckpointId::Station1,
    CheckpointId::Station2,
];

#[test]
fn segment_lookup_is_symmetric() {
    for a in ALL {
        for b in ALL {
            let ab = SegmentId::try_from((a, b));
            let ba = SegmentId::try_from((b, a));
            assert_eq!(ab, ba);
        }
    }
    assert_eq!(
        SegmentId::try_from((CheckpointId::Checkpoint1, CheckpointId::Checkpoint2)),
        Ok(SegmentId::Segment1)
    );
    assert_eq!(
        SegmentId::try_from((CheckpointId::Station2, CheckpointId::Checkpoint5)),
        Ok(SegmentId::Segment10)
    );
}

#[test]
fn non_adjacent_checkpoints_have_no_segment() {
    assert_eq!(
        SegmentId::try_from((CheckpointId::Checkpoint1, CheckpointId::Checkpoint3)),
        Err(Error::ConvertCheckpointsIntoSegmentId)
    );
    assert_eq!(
        SegmentId::try_from((CheckpointId::Station1, CheckpointId::Station1)),
        Err(Error::ConvertCheckpointsIntoSegmentId)
    );
}

#[test]
fn sensors_map_to_checkpoints() {
    assert_eq!(CheckpointId::from(SensorId::RfidReader1), CheckpointId::Checkpoint1);
    assert_eq!(CheckpointId::from(SensorId::RfidReader7), CheckpointId::Station1);
    assert_eq!(CheckpointId::from(SensorId::RfidReader8), CheckpointId::Station2);
}

#[test]
fn segments_carry_switches_and_conflicts() {
    let net = RailNetwork::new();
    let s1 = net.segment(&SegmentId::Segment1);
    assert_eq!(s1.priority(), SegmentPriority::Priority0);
    assert_eq!(s1.switch_rails().len(), 1);
    assert_eq!(s1.switch_rails()[0].actuator_id(), ActuatorId::SwitchRails2);
    assert!(matches!(s1.switch_rails()[0].state(), SwitchRailsState::Direct));
    assert_eq!(s1.conflicts(), &[SegmentId::Segment8]);
    let s2 = net.segment(&SegmentId::Segment2);
    assert!(s2.switch_rails().is_empty());
    assert!(s2.conflicts().is_empty());
    let s9 = net.segment(&SegmentId::Segment9);
    assert_eq!(s9.priority(), SegmentPriority::Priority1);
    assert!(matches!(s9.switch_rails()[0].state(), SwitchRailsState::Diverted));
    assert_eq!(net.longest_path(), 6);
}

#[test]
fn track_target_direct_neighbor() {
    let net = RailNetwork::new();
    assert_eq!(
        net.next_checkpoint_id_for_track_id_target(
            0,
            CheckpointId::Checkpoint1,
            Direction::Forward,
            TrackId::Track1
        ),
        Some(CheckpointId::Checkpoint2)
    );
}

#[test]
fn track_target_prefers_direct_station() {
    let net = RailNetwork::new();
    assert_eq!(
        net.next_checkpoint_id_for_track_id_target(
            0,
            CheckpointId::Checkpoint3,
            Direction::Forward,
            TrackId::Station2
        ),
        Some(CheckpointId::Station2)
    );
}

#[test]
fn station_route_selection() {
    let net = RailNetwork::new();
    // From Checkpoint2 the only way on is Checkpoint3, which leads to Station2.
    assert_eq!(
        net.next_checkpoint_id_for_track_id_target(
            0,
            CheckpointId::Checkpoint2,
            Direction::Forward,
            TrackId::Station2
        ),
        Some(CheckpointId::Checkpoint3)
    );
    // From Checkpoint6 backward the track goes round to Station2 through Checkpoint5.
    assert_eq!(
        net.next_checkpoint_id_for_track_id_target(
            0,
            CheckpointId::Checkpoint6,
            Direction::Backward,
            TrackId::Station2
        ),
        Some(CheckpointId::Checkpoint5)
    );
}

#[test]
fn search_prefers_lower_priority_branch() {
    let net = RailNetwork::new();
    // From Checkpoint6 forward both Checkpoint1 and Station1 lead to Checkpoint3;
    // Checkpoint1 has the better priority.
    assert_eq!(
        net.next_checkpoint_id_for_checkpoint_id_target(
            0,
            CheckpointId::Checkpoint6,
            Direction::Forward,
            CheckpointId::Checkpoint3
        ),
        Some(CheckpointId::Checkpoint1)
    );
}

#[test]
fn checkpoint_target_direct_and_far() {
    let net = RailNetwork::new();
    assert_eq!(
        net.next_checkpoint_id_for_checkpoint_id_target(
            0,
            CheckpointId::Station1,
            Direction::Forward,
            CheckpointId::Checkpoint2
        ),
        Some(CheckpointId::Checkpoint2)
    );
    assert_eq!(
        net.next_checkpoint_id_for_checkpoint_id_target(
            0,
            CheckpointId::Checkpoint1,
            Direction::Forward,
            CheckpointId::Checkpoint5
        ),
        Some(CheckpointId::Checkpoint2)
    );
}

#[test]
fn search_depth_bound() {
    let net = RailNetwork::new();
    // Already at the bound only direct neighbors count.
    assert_eq!(
        net.next_checkpoint_id_for_checkpoint_id_target(
            6,
            CheckpointId::Checkpoint1,
            Direction::Forward,
            CheckpointId::Checkpoint5
        ),
        None
    );
    assert_eq!(
        net.next_checkpoint_id_for_checkpoint_id_target(
            6,
            CheckpointId::Checkpoint1,
            Direction::Forward,
            CheckpointId::Checkpoint2
        ),
        Some(CheckpointId::Checkpoint2)
    );
    // Station1 cannot be reached going backward from Checkpoint2 except directly.
    assert_eq!(
        net.next_checkpoint_id_for_checkpoint_id_target(
            0,
            CheckpointId::Checkpoint2,
            Direction::Backward,
            CheckpointId::Station1
        ),
        Some(CheckpointId::Station1)
    );
}
