use td_alphabet::mobs::{movement, MobBundle, MobKind, MobPath, MobRank, MobStats};
use td_alphabet::paths::Point2D;
use td_alphabet::tdcomponents::HP;

const SECOND: u64 = 1_000_000_000;
const MILLI: u64 = 1_000_000;

fn p(x: i32, y: i32) -> Point2D {
    Point2D { x, y }
}

fn path(points: &[(i32, i32)], index: usize) -> MobPath {
    MobPath { path: points.iter().map(|&(x, y)| p(x, y)).collect(), side: 0, path_index: index }
}

fn speed(speed: u32) -> MobStats {
    MobStats { hp: HP { current: 10, max: 10 }, armor: 1, speed }
}

#[test]
fn half_a_second_at_speed_ten_is_half_of_ten_units() {
    let mut pos = p(0, 0);
    let mut path = path(&[(0, 0), (10, 0)], 0);
    movement(&mut pos, &mut path, &speed(10), 500 * MILLI);
    assert_eq!(pos, p(5, 0));
    assert_eq!(path.path_index, 0);
}

#[test]
fn a_second_at_speed_ten_reaches_the_waypoint_ten_units_away() {
    let mut pos = p(0, 0);
    let mut path = path(&[(0, 0), (10, 0)], 0);
    movement(&mut pos, &mut path, &speed(10), SECOND);
    assert_eq!(pos, p(10, 0));
    assert_eq!(path.path_index, 1);
}

#[test]
fn movement_along_a_diagonal() {
    // the way is 50 long, the step 10: a fifth of it
    let mut pos = p(0, 0);
    let mut path = path(&[(0, 0), (30, 40)], 0);
    movement(&mut pos, &mut path, &speed(10), SECOND);
    assert_eq!(pos, p(6, 8));
    assert_eq!(path.path_index, 0);
}

#[test]
fn movement_in_the_falling_directions() {
    let mut pos = p(0, 0);
    let mut path = path(&[(0, 0), (-30, -40)], 0);
    movement(&mut pos, &mut path, &speed(10), SECOND);
    assert_eq!(pos, p(-6, -8));
    let mut pos = p(100, -100);
    let mut path2 = path_of_mixed();
    movement(&mut pos, &mut path2, &speed(25), SECOND);
    assert_eq!(pos, p(85, -80));
    assert_eq!(path2.path_index, 0);
}

fn path_of_mixed() -> MobPath {
    path(&[(100, -100), (70, -60)], 0)
}

#[test]
fn movement_rounds_toward_where_the_unit_stands() {
    // a step of 1500 thousandths of a unit moves one whole unit
    let mut pos = p(0, 0);
    let mut right = path(&[(0, 0), (10, 0)], 0);
    movement(&mut pos, &mut right, &speed(3), 500 * MILLI);
    assert_eq!(pos, p(1, 0));
    let mut pos = p(0, 0);
    let mut left = path(&[(0, 0), (-10, 0)], 0);
    movement(&mut pos, &mut left, &speed(3), 500 * MILLI);
    assert_eq!(pos, p(-1, 0));
    // a step shorter than one unit does not move at all
    let mut pos = p(0, 0);
    let mut up = path(&[(0, 0), (0, 10)], 0);
    movement(&mut pos, &mut up, &speed(3), 300 * MILLI);
    assert_eq!(pos, p(0, 0));
    assert_eq!(up.path_index, 0);
}

#[test]
fn movement_heads_for_the_next_waypoint_from_where_the_unit_is() {
    // off the segment: the way to (10, 0) from (10, 20) is straight down
    let mut pos = p(10, 20);
    let mut path = path(&[(0, 0), (10, 0), (10, 50)], 0);
    movement(&mut pos, &mut path, &speed(5), SECOND);
    assert_eq!(pos, p(10, 15));
    assert_eq!(path.path_index, 0);
}

#[test]
fn movement_drops_what_is_left_of_the_step_at_a_waypoint() {
    let mut pos = p(0, 0);
    let mut path = path(&[(0, 0), (10, 0), (10, 100)], 0);
    movement(&mut pos, &mut path, &speed(60), SECOND);
    assert_eq!(pos, p(10, 0));
    assert_eq!(path.path_index, 1);
    movement(&mut pos, &mut path, &speed(60), SECOND);
    assert_eq!(pos, p(10, 60));
    assert_eq!(path.path_index, 1);
    movement(&mut pos, &mut path, &speed(60), SECOND);
    assert_eq!(pos, p(10, 100));
    assert_eq!(path.path_index, 2);
}

#[test]
fn movement_with_a_step_just_short_of_the_way_does_not_arrive() {
    let mut pos = p(0, 0);
    let mut path = path(&[(0, 0), (10, 0)], 0);
    movement(&mut pos, &mut path, &speed(10), SECOND - 1);
    assert_eq!(pos, p(9, 0));
    assert_eq!(path.path_index, 0);
    // one unit away along both axes: the way is longer than 1414213562 billionths
    let mut pos = p(0, 0);
    let mut diagonal = path_to_one_one();
    movement(&mut pos, &mut diagonal, &speed(1), 1_414_213_562);
    assert_eq!(pos, p(1, 1));
    assert_eq!(diagonal.path_index, 0);
    movement(&mut pos, &mut diagonal, &speed(1), 0);
    assert_eq!(pos, p(1, 1));
    assert_eq!(diagonal.path_index, 1);
}

fn path_to_one_one() -> MobPath {
    path(&[(0, 0), (1, 1)], 0)
}

#[test]
fn movement_for_no_time_changes_nothing() {
    let mut pos = p(3, 4);
    let mut path = path(&[(0, 0), (10, 0), (20, 5)], 1);
    movement(&mut pos, &mut path, &speed(50), 0);
    assert_eq!(pos, p(3, 4));
    assert_eq!(path.path_index, 1);
    assert_eq!(path.path, vec![p(0, 0), p(10, 0), p(20, 5)]);
}

#[test]
fn movement_without_speed_changes_nothing() {
    let mut pos = p(3, 4);
    let mut path = path(&[(0, 0), (10, 0)], 0);
    movement(&mut pos, &mut path, &speed(0), 10 * SECOND);
    assert_eq!(pos, p(3, 4));
    assert_eq!(path.path_index, 0);
}

#[test]
fn movement_of_a_unit_on_the_next_waypoint_reaches_it() {
    let mut pos = p(10, 0);
    let mut path = path(&[(0, 0), (10, 0), (20, 0)], 0);
    movement(&mut pos, &mut path, &speed(50), 0);
    assert_eq!(pos, p(10, 0));
    assert_eq!(path.path_index, 1);
}

#[test]
fn movement_at_the_last_waypoint_does_nothing() {
    let mut pos = p(10, 0);
    let mut path = path(&[(0, 0), (10, 0)], 1);
    for elapsed in [0, 1, SECOND, u64::MAX] {
        movement(&mut pos, &mut path, &speed(50), elapsed);
        assert_eq!(pos, p(10, 0));
        assert_eq!(path.path_index, 1);
    }
    // wherever the unit stands
    let mut pos = p(-7, 13);
    movement(&mut pos, &mut path, &speed(50), SECOND);
    assert_eq!(pos, p(-7, 13));
    assert_eq!(path.path_index, 1);
}

#[test]
fn movement_on_a_path_without_points_does_nothing() {
    let mut pos = p(1, 2);
    let mut path = MobPath::default();
    movement(&mut pos, &mut path, &speed(50), SECOND);
    assert_eq!(pos, p(1, 2));
    assert_eq!(path.path_index, 0);
    let mut beyond = MobPath { path: vec![p(0, 0), p(1, 1)], side: 0, path_index: 9 };
    movement(&mut pos, &mut beyond, &speed(50), SECOND);
    assert_eq!(pos, p(1, 2));
    assert_eq!(beyond.path_index, 9);
}

#[test]
fn movement_across_the_whole_world_in_the_longest_tick() {
    let mut pos = p(i32::MIN, i32::MIN);
    let mut path = path(&[(i32::MIN, i32::MIN), (i32::MAX, i32::MAX)], 0);
    movement(&mut pos, &mut path, &speed(u32::MAX), u64::MAX);
    assert_eq!(pos, p(i32::MAX, i32::MAX));
    assert_eq!(path.path_index, 1);
}

#[test]
fn movement_across_the_whole_world_step_by_step() {
    let mut pos = p(i32::MIN, i32::MAX);
    let mut path = path(&[(i32::MIN, i32::MAX), (i32::MAX, i32::MIN)], 0);
    // a quarter of the way along each axis
    movement(&mut pos, &mut path, &speed(1_518_500_249), SECOND);
    assert_eq!(path.path_index, 0);
    assert_eq!(pos, p(i32::MIN + 1_073_741_823, i32::MAX - 1_073_741_823));
}

#[test]
fn waypoint_index_never_falls_and_never_leaves_the_path() {
    let mut pos = p(0, 0);
    let mut path = path(&[(0, 0), (40, 0), (40, 30), (0, 0), (7, 7)], 0);
    let mut last = 0;
    for i in 0..400u64 {
        movement(&mut pos, &mut path, &speed(17), (i % 7) * 100 * MILLI);
        assert!(path.path_index >= last);
        assert!(path.path_index <= last + 1);
        assert!(path.path_index <= 4);
        last = path.path_index;
    }
    assert_eq!(path.path_index, 4);
    assert_eq!(pos, p(7, 7));
}

#[test]
fn movement_never_goes_past_the_waypoint() {
    let mut pos = p(0, 0);
    let mut path = path(&[(0, 0), (1000, 700)], 0);
    let mut before = pos;
    while path.path_index == 0 {
        movement(&mut pos, &mut path, &speed(333), 160 * MILLI);
        assert!(before.x <= pos.x && pos.x <= 1000);
        assert!(before.y <= pos.y && pos.y <= 700);
        before = pos;
    }
    assert_eq!(pos, p(1000, 700));
}

#[test]
fn defaults_are_empty() {
    assert_eq!(MobKind::default(), MobKind::Normal);
    assert_eq!(MobRank::default(), MobRank::Normal);
    assert_eq!(HP::default(), HP { current: 0, max: 0 });
    assert_eq!(MobStats::default(), MobStats { hp: HP { current: 0, max: 0 }, armor: 0, speed: 0 });
    assert_eq!(MobPath::default(), MobPath { path: Vec::new(), side: 0, path_index: 0 });
    assert_eq!(
        MobBundle::default(),
        MobBundle {
            kind: MobKind::Normal,
            stats: MobStats::default(),
            rank: MobRank::Normal,
            path: MobPath::default(),
        }
    );
}

#[test]
fn clones_are_equal() {
    let path = path(&[(0, 0), (10, 0)], 1);
    assert_eq!(path.clone(), path);
    let bundle = MobBundle { kind: MobKind::Wizard, stats: speed(4), rank: MobRank::General, path };
    assert_eq!(bundle.clone(), bundle);
}

/// The same walk in floating point, in pixels and seconds.
fn float_step(pos: &mut (f64, f64), index: &mut usize, path: &[(f64, f64)], speed: f64, dt: f64) {
    if *index + 1 >= path.len() {
        return;
    }
    let target = path[*index + 1];
    let delta = (target.0 - pos.0, target.1 - pos.1);
    let distance = (delta.0 * delta.0 + delta.1 * delta.1).sqrt();
    let step = speed * dt;
    if step < distance {
        pos.0 += step / distance * delta.0;
        pos.1 += step / distance * delta.1;
    } else {
        *pos = target;
        *index += 1;
    }
}

#[test]
fn movement_in_fine_units_stays_close_to_the_walk_in_floating_point() {
    const UNITS_PER_PIXEL: f64 = 1024.0;
    let pixels: [(f64, f64); 5] =
        [(-110.0, -236.0), (40.0, -236.0), (40.0, 12.5), (-75.25, 90.0), (200.0, 91.0)];
    let frame: u64 = 16_666_667;
    let speed_in_pixels = 50.0;

    let mut walked = MobPath {
        path: pixels
            .iter()
            .map(|&(x, y)| p((x * UNITS_PER_PIXEL) as i32, (y * UNITS_PER_PIXEL) as i32))
            .collect(),
        side: 0,
        path_index: 0,
    };
    let stats = speed((speed_in_pixels * UNITS_PER_PIXEL) as u32);
    let mut pos = walked.path[0];

    let mut float_pos = pixels[0];
    let mut float_index = 0;

    let mut frames = 0;
    let mut float_frames = 0;
    for i in 1..=2000 {
        movement(&mut pos, &mut walked, &stats, frame);
        float_step(&mut float_pos, &mut float_index, &pixels, speed_in_pixels, frame as f64 / 1e9);
        if walked.path_index == float_index {
            let dx = pos.x as f64 / UNITS_PER_PIXEL - float_pos.0;
            let dy = pos.y as f64 / UNITS_PER_PIXEL - float_pos.1;
            assert!(dx.abs() < 1.0 && dy.abs() < 1.0, "frame {}: off by ({}, {})", i, dx, dy);
        }
        if walked.path_index == 4 && frames == 0 {
            frames = i;
        }
        if float_index == 4 && float_frames == 0 {
            float_frames = i;
        }
    }
    assert_eq!(walked.path_index, 4);
    assert_eq!(float_index, 4);
    assert_eq!(pos, walked.path[4]);
    assert!(frames > 0 && float_frames > 0);
    assert!((frames as i64 - float_frames as i64).abs() <= 4, "{} and {}", frames, float_frames);
}
