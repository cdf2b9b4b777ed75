//! Tests for sockets, models and the rule compiler: compatibility lookups,
//! rotation expansion, weights, error reporting and rule symmetry.

use procedural_tilemaps::direction::{Direction, DirectionTrait};
use procedural_tilemaps::model::{Model, ModelRotation};
use procedural_tilemaps::rules::{RuleError, RulesBuilder};
use procedural_tilemaps::socket::SocketCollection;

#[test]
fn socket_compatibility_is_symmetric_and_explicit() {
    let mut sockets = SocketCollection::new();
    let a = sockets.create();
    let b = sockets.create();
    let c = sockets.create();
    sockets.register_compatibility(a, b);
    assert!(sockets.is_compatible(a, b));
    assert!(sockets.is_compatible(b, a));
    // A socket with no declared compatibilities matches nothing, itself
    // included.
    assert!(!sockets.is_compatible(c, c));
    assert!(!sockets.is_compatible(a, c));
    assert!(!sockets.is_compatible(a, a));
    sockets.register_compatibility(c, c);
    assert!(sockets.is_compatible(c, c));
}

#[test]
fn model_rotation_angles() {
    assert_eq!(ModelRotation::Rot0.angle_degrees(), 0);
    assert_eq!(ModelRotation::Rot90.angle_degrees(), 90);
    assert_eq!(ModelRotation::Rot180.angle_degrees(), 180);
    assert_eq!(ModelRotation::Rot270.angle_degrees(), 270);
    assert_eq!(ModelRotation::all().len(), 4);
}

fn uniform_model(socket: procedural_tilemaps::socket::Socket, faces: usize) -> Model {
    Model::new(vec![socket; faces])
}

#[test]
fn empty_model_set_is_rejected() {
    let sockets = SocketCollection::new();
    let r = RulesBuilder::new_cartesian_2d(Vec::new(), sockets).build();
    assert_eq!(r.err(), Some(RuleError::EmptyModelSet));
}

#[test]
fn wrong_socket_count_is_rejected() {
    let mut sockets = SocketCollection::new();
    let a = sockets.create();
    let models = vec![uniform_model(a, 4), uniform_model(a, 3)];
    let r = RulesBuilder::new_cartesian_2d(models, sockets).build();
    assert_eq!(r.err(), Some(RuleError::WrongSocketCount { model_index: 1 }));
}

#[test]
fn zero_weight_is_rejected() {
    let mut sockets = SocketCollection::new();
    let a = sockets.create();
    let models = vec![uniform_model(a, 4).with_weight(0)];
    let r = RulesBuilder::new_cartesian_2d(models, sockets).build();
    assert_eq!(r.err(), Some(RuleError::ZeroWeight { model_index: 0 }));
}

#[test]
fn invalid_rotation_axis_is_rejected_in_2d() {
    let mut sockets = SocketCollection::new();
    let a = sockets.create();
    let models = vec![uniform_model(a, 4)];
    let r = RulesBuilder::new_cartesian_2d(models, sockets)
        .with_rotation_axis(Direction::XForward)
        .build();
    assert_eq!(r.err(), Some(RuleError::InvalidRotationAxis));
}

#[test]
fn rotation_axis_is_free_in_3d() {
    let mut sockets = SocketCollection::new();
    let a = sockets.create();
    sockets.register_compatibility(a, a);
    let models = vec![uniform_model(a, 6)];
    let r = RulesBuilder::new_cartesian_3d(models, sockets)
        .with_rotation_axis(Direction::YForward)
        .build();
    assert!(r.is_ok());
}

#[test]
fn rotation_expansion_counts_instances() {
    let mut sockets = SocketCollection::new();
    let a = sockets.create();
    let models = vec![
        uniform_model(a, 4),
        uniform_model(a, 4).with_all_rotations(),
        uniform_model(a, 4).with_rotations(vec![ModelRotation::Rot180]),
        // Rotation 0 is always included, and duplicates collapse.
        uniform_model(a, 4).with_rotations(vec![ModelRotation::Rot0, ModelRotation::Rot0]),
    ];
    let rules = RulesBuilder::new_cartesian_2d(models, sockets).build().unwrap();
    assert_eq!(rules.instance_count(), 1 + 4 + 2 + 1);
    assert_eq!(rules.instances[0].model_index, 0);
    assert_eq!(rules.instances[0].rotation, ModelRotation::Rot0);
    assert_eq!(rules.instances[5].model_index, 2);
    assert_eq!(rules.instances[6].rotation, ModelRotation::Rot180);
}

#[test]
fn instance_weights_split_model_weight() {
    let mut sockets = SocketCollection::new();
    let a = sockets.create();
    let models = vec![
        uniform_model(a, 4).with_weight(5),
        uniform_model(a, 4).with_weight(7).with_all_rotations(),
    ];
    let rules = RulesBuilder::new_cartesian_2d(models, sockets).build().unwrap();
    // The weight scale is twelve, so a one-rotation model carries 12 * w and
    // a four-rotation model carries 3 * w per instance.
    assert_eq!(rules.weights[0], 5 * 12);
    for e in 1..5 {
        assert_eq!(rules.weights[e], 7 * 3);
    }
}

#[test]
fn rule_symmetry_on_concrete_rules() {
    let mut sockets = SocketCollection::new();
    let a = sockets.create();
    let b = sockets.create();
    sockets.register_compatibility(a, b);
    sockets.register_compatibility(a, a);
    // One model showing `a` on x faces and `b` on y faces, plus a uniform
    // `b` model, both rotatable.
    let m0 = Model::new(vec![a, b, a, b]).with_all_rotations();
    let m1 = Model::new(vec![b, b, b, b]);
    let rules = RulesBuilder::new_cartesian_2d(vec![m0, m1], sockets).build().unwrap();
    let n = rules.instance_count();
    let dirs = [
        Direction::XForward,
        Direction::YForward,
        Direction::XBackward,
        Direction::YBackward,
    ];
    for x in 0..n {
        for y in 0..n {
            for d in dirs {
                assert_eq!(
                    rules.is_allowed(x, d, y),
                    rules.is_allowed(y, d.opposite(), x)
                );
            }
        }
    }
}

#[test]
fn rotation_permutes_sockets() {
    let mut sockets = SocketCollection::new();
    let a = sockets.create();
    let b = sockets.create();
    let c = sockets.create();
    let d = sockets.create();
    // Distinct sockets on the four faces: x+ = a, y+ = b, x- = c, y- = d.
    let m = Model::new(vec![a, b, c, d]).with_all_rotations();
    let rules = RulesBuilder::new_cartesian_2d(vec![m], sockets).build().unwrap();
    assert_eq!(rules.instance_count(), 4);
    // Unrotated faces stay put.
    let xf = Direction::XForward.index();
    assert_eq!(rules.sockets[0][xf], a.id);
    // One quarter turn moves the x+ socket onto the y+ face.
    let yf = Direction::YForward.index();
    assert_eq!(rules.instances[1].rotation, ModelRotation::Rot90);
    assert_eq!(rules.sockets[1][yf], a.id);
}
