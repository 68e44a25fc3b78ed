use vulkys::physics::collision::{same_collision, CollisionObjectType, ParticipantMatches};
use vulkys::physics::rigidbodies::RigidBodySelection as PickedBody;
use vulkys::physics::rigidbody::{cube_indices, RigidBodyKind};
use vulkys::physics::scene::{fits_index_buffer, index_buffer_data};
use vulkys::rigidbodies::{ParseSelectionError, RigidBodySelection};

#[test]
fn selection_names() {
    assert_eq!(PickedBody::RigidBody.to_string(), "RigidBody");
    assert_eq!(PickedBody::Ball.to_string(), "Ball");
    assert_eq!(PickedBody::Nothing.to_string(), "None");
}

#[test]
fn picker_selection_display_and_parse() {
    assert_eq!(RigidBodySelection::Nothing(4).to_string(), "None");
    assert_eq!(RigidBodySelection::Ball.to_string(), "Ball");
    assert_eq!(RigidBodySelection::from_name("RigidBody"), Ok(RigidBodySelection::RigidBody));
    assert_eq!(RigidBodySelection::from_name("None"), Ok(RigidBodySelection::Nothing(0)));
    assert_eq!("Ball".parse::<RigidBodySelection>(), Ok(RigidBodySelection::Ball));
    assert_eq!(RigidBodySelection::from_name("ball"), Err(ParseSelectionError::VariantNotFound));
    assert_eq!(RigidBodySelection::COUNT, 3);
}

#[test]
fn picker_selection_round_trip() {
    for sel in [RigidBodySelection::Nothing(9), RigidBodySelection::RigidBody, RigidBodySelection::Ball] {
        let back = RigidBodySelection::from_name(&sel.to_string()).unwrap();
        let expected = match sel {
            RigidBodySelection::Nothing(_) => RigidBodySelection::Nothing(0),
            other => other,
        };
        assert_eq!(back, expected);
    }
}

#[test]
fn collision_type_clones() {
    let t = CollisionObjectType::World;
    assert!(matches!(t.clone(), CollisionObjectType::World));
    assert!(matches!(CollisionObjectType::Object.clone(), CollisionObjectType::Object));
}

#[test]
fn same_collision_patterns() {
    let m = |a, b, c, d| ParticipantMatches {
        primary_primary: a,
        primary_secondary: b,
        secondary_primary: c,
        secondary_secondary: d,
    };
    // The same pair in the same order, and in the other order.
    assert!(same_collision(m(true, false, false, true)));
    assert!(same_collision(m(false, true, true, false)));
    assert!(!same_collision(m(true, false, true, false)));
    assert!(!same_collision(m(false, true, false, true)));
    assert!(!same_collision(m(true, true, true, true)));
    assert!(!same_collision(m(false, false, false, false)));
}

#[test]
fn body_type_names() {
    assert_eq!(RigidBodyKind::Ball.type_to_string(), "Ball");
    assert_eq!(RigidBodyKind::Cuboid.type_to_string(), "Cube");
    assert_eq!(RigidBodyKind::Cylinder.type_to_string(), "Cylinder");
}

#[test]
fn cube_indices_name_corners() {
    let v = cube_indices();
    assert_eq!(v.len(), 36);
    assert!(v.iter().all(|&i| i < 8));
    assert_eq!(&v[..6], &[0, 1, 2, 2, 4, 1]);
}

#[test]
fn index_buffer_offsets_each_mesh() {
    let meshes = vec![vec![0u16, 1, 2], vec![0, 2, 1, 3]];
    let counts = vec![3usize, 4];
    let floor = vec![0u16, 1, 2, 2, 3, 0];
    let buffer = index_buffer_data(&meshes, &counts, &floor);
    assert_eq!(buffer, vec![0, 1, 2, 3, 5, 4, 6, 7, 8, 9, 9, 10, 7]);
}

#[test]
fn index_buffer_with_no_meshes_is_floor() {
    let buffer = index_buffer_data(&Vec::new(), &Vec::new(), &vec![2u16, 1]);
    assert_eq!(buffer, vec![2, 1]);
}

#[test]
fn index_buffer_offset_wraps_through_u16() {
    let meshes = vec![vec![0u16]];
    let counts = vec![65536usize + 5];
    let floor = vec![1u16];
    assert_eq!(index_buffer_data(&meshes, &counts, &floor), vec![0, 6]);
}

#[test]
fn index_buffer_fit_test() {
    let meshes = vec![vec![0u16, 1, 2], vec![0, 1]];
    assert!(fits_index_buffer(&meshes, &vec![3, 2], &vec![0, 1]));
    // One vertex count per mesh.
    assert!(!fits_index_buffer(&meshes, &vec![3], &vec![0]));
    // The second mesh starts at 65535, so its index 1 would pass 65535.
    assert!(!fits_index_buffer(&meshes, &vec![65535, 2], &vec![]));
    // The floor starts at 65536 % 65536 = 0.
    assert!(fits_index_buffer(&vec![vec![0u16]], &vec![65536], &vec![7]));
    assert!(fits_index_buffer(&vec![], &vec![], &vec![65535]));
}
