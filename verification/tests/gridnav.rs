use gridnav::agent::AgentState;
use gridnav::coord::{Coordinate, Direction, Orientation, RobotPosition};
use gridnav::radar::{interpret, ScanError};
use gridnav::threat::{chebyshev_dist, contribution_at, ThreatMap};
use gridnav::tracker::{predict, EnemyPosition, EnemyPositions, EnemyTracker};
use gridnav::{CELLS, REACH, SENTINEL};

fn c(x: i8, y: i8) -> Coordinate {
    Coordinate { x, y }
}

fn idx(x: i8, y: i8) -> usize {
    ((y + 3) as usize) * 7 + ((x + 3) as usize)
}

/// A scan of plain floor with the agent at the center.
fn empty_scan() -> (Vec<char>, Vec<Option<u64>>) {
    let mut cells = vec!['.'; CELLS];
    cells[idx(0, 0)] = '@';
    (cells, vec![None; CELLS])
}

fn positions(s: &EnemyPositions) -> Vec<(u64, i8, i8)> {
    let mut out = Vec::new();
    for i in 0..s.len() {
        let e = s.get(i);
        out.push((e.id, e.position.x, e.position.y));
    }
    out
}

#[test]
fn four_quarter_turns_return_original() {
    for x in -3i8..=3 {
        for y in -3i8..=3 {
            let p = c(x, y);
            for o in [
                Orientation::North,
                Orientation::East,
                Orientation::South,
                Orientation::West,
            ] {
                let start = p.rotate(o);
                let back = start
                    .rotate(Orientation::East)
                    .rotate(Orientation::East)
                    .rotate(Orientation::East)
                    .rotate(Orientation::East);
                assert_eq!(back, start);
            }
        }
    }
}

#[test]
fn rotation_maps_front_to_heading() {
    let front = c(0, 1);
    assert_eq!(front.rotate(Orientation::North), c(0, 1));
    assert_eq!(front.rotate(Orientation::East), c(1, 0));
    assert_eq!(front.rotate(Orientation::South), c(0, -1));
    assert_eq!(front.rotate(Orientation::West), c(-1, 0));
}

#[test]
fn index_round_trip() {
    assert_eq!(c(0, 0).to_index(), Some(24));
    assert_eq!(c(-3, -3).to_index(), Some(0));
    assert_eq!(c(3, 3).to_index(), Some(48));
    assert_eq!(c(4, 0).to_index(), None);
    assert_eq!(c(0, -4).to_index(), None);
    for i in 0..CELLS {
        assert_eq!(Coordinate::from_index(i).to_index(), Some(i));
    }
}

#[test]
fn translation_adds_offsets() {
    assert_eq!(c(1, 2).translate(c(-1, 1)), c(0, 3));
    assert_eq!(c(-3, 0).translate(c(0, 0)), c(-3, 0));
    // Translation may leave the window; indexing then rejects the result.
    assert_eq!(c(3, 3).translate(c(1, 0)).to_index(), None);
}

#[test]
fn orientation_relative_and_turns() {
    assert_eq!(Orientation::East.relative_to(Orientation::North), Orientation::East);
    assert_eq!(Orientation::East.relative_to(Orientation::East), Orientation::North);
    assert_eq!(Orientation::North.relative_to(Orientation::East), Orientation::West);
    assert_eq!(Orientation::North.turned_right(), Orientation::East);
    assert_eq!(Orientation::North.turned_left(), Orientation::West);
    assert_eq!(Orientation::West.turned_right(), Orientation::North);
}

#[test]
fn orientation_group_operations() {
    let all = [
        Orientation::North,
        Orientation::East,
        Orientation::South,
        Orientation::West,
    ];
    for a in all {
        assert_eq!(a.compose(Orientation::North), a);
        assert_eq!(a.compose(a.inverse()), Orientation::North);
        for b in all {
            assert_eq!(a.compose(b), b.compose(a));
        }
    }
    assert_eq!(Orientation::East.compose(Orientation::South), Orientation::West);
}

#[test]
fn pose_apply_moves_and_turns() {
    let mut p = RobotPosition { position: c(0, 0), orientation: Orientation::North };
    p.apply(Direction::Front);
    assert_eq!(p.position, c(0, 1));
    p.apply(Direction::Back);
    assert_eq!(p.position, c(0, 0));
    p.apply(Direction::Left);
    assert_eq!(p.orientation, Orientation::West);
    assert_eq!(p.position, c(0, 0));
    p.apply(Direction::Right);
    assert_eq!(p.orientation, Orientation::North);
}

#[test]
fn re_origin_round_trip() {
    let mut s = EnemyPositions::new();
    s.push(EnemyPosition { id: 1, position: c(3, 0) });
    s.push(EnemyPosition { id: 2, position: c(0, 0) });
    let there = s.re_origin(c(1, 0));
    assert_eq!(positions(&there), vec![(1, 2, 0), (2, -1, 0)]);
    let back = there.re_origin(c(-1, 0));
    assert_eq!(positions(&back), positions(&s));
}

#[test]
fn re_origin_drops_out_of_window() {
    let mut s = EnemyPositions::new();
    s.push(EnemyPosition { id: 1, position: c(3, 0) });
    s.push(EnemyPosition { id: 2, position: c(0, 0) });
    let there = s.re_origin(c(-1, 0));
    assert_eq!(positions(&there), vec![(2, 1, 0)]);
    let back = there.re_origin(c(1, 0));
    assert_eq!(positions(&back), vec![(2, 0, 0)]);
}

#[test]
fn find_by_id_returns_first_match() {
    let mut s = EnemyPositions::new();
    s.push(EnemyPosition { id: 5, position: c(1, 1) });
    s.push(EnemyPosition { id: 5, position: c(2, 2) });
    assert_eq!(s.find_by_id(5), Some(c(1, 1)));
    assert_eq!(s.find_by_id(6), None);
}

#[test]
fn prediction_extrapolates_velocity() {
    let mut tracker = EnemyTracker::new();
    let mut first = EnemyPositions::new();
    first.push(EnemyPosition { id: 9, position: c(0, 1) });
    tracker.observe(first, c(0, 0));
    let mut second = EnemyPositions::new();
    second.push(EnemyPosition { id: 9, position: c(0, 2) });
    tracker.observe(second, c(0, 0));
    let predicted = tracker.predicted();
    assert_eq!(positions(&predicted), vec![(9, 0, 3)]);
}

#[test]
fn prediction_keeps_new_enemy_stationary() {
    let mut cur = EnemyPositions::new();
    cur.push(EnemyPosition { id: 4, position: c(2, -1) });
    let prev = EnemyPositions::new();
    let predicted = predict(&cur, &prev);
    assert_eq!(positions(&predicted), vec![(4, 2, -1)]);
}

#[test]
fn prediction_drops_out_of_window() {
    let mut cur = EnemyPositions::new();
    cur.push(EnemyPosition { id: 4, position: c(3, 3) });
    let mut prev = EnemyPositions::new();
    prev.push(EnemyPosition { id: 4, position: c(2, 2) });
    let predicted = predict(&cur, &prev);
    assert_eq!(positions(&predicted), vec![]);
}

#[test]
fn interpret_classifies_cells() {
    let (mut cells, mut ids) = empty_scan();
    cells[idx(0, 1)] = '@';
    ids[idx(0, 1)] = Some(7);
    cells[idx(-3, 0)] = ' ';
    let (enemies, borders) = interpret(&cells, &ids, Orientation::North).unwrap();
    assert_eq!(positions(&enemies), vec![(7, 0, 1)]);
    assert_eq!(borders.len(), 1);
    assert_eq!(borders.get(0), c(-3, 0));
}

#[test]
fn interpret_rotates_into_stable_frame() {
    let (mut cells, mut ids) = empty_scan();
    // Scan-local "directly in front"; taken while heading east, that is
    // east of the agent in the stable frame.
    cells[idx(0, 1)] = '@';
    ids[idx(0, 1)] = Some(3);
    let (enemies, _) = interpret(&cells, &ids, Orientation::East).unwrap();
    assert_eq!(positions(&enemies), vec![(3, 1, 0)]);
}

#[test]
fn interpret_skips_center() {
    let (cells, ids) = empty_scan();
    // Center is '@' (the agent itself) with no id: not an error, no enemy.
    let (enemies, borders) = interpret(&cells, &ids, Orientation::North).unwrap();
    assert_eq!(enemies.len(), 0);
    assert_eq!(borders.len(), 0);
}

#[test]
fn interpret_reports_first_missing_id() {
    let (mut cells, mut ids) = empty_scan();
    cells[idx(2, -2)] = '@';
    ids[idx(2, -2)] = Some(1);
    let first = idx(-2, 0);
    let second = idx(0, 2);
    cells[first] = '@';
    cells[second] = '@';
    assert!(first < second);
    let r = interpret(&cells, &ids, Orientation::North);
    assert_eq!(r.unwrap_err(), ScanError::MissingBotId { index: first });
}

#[test]
fn chebyshev_and_contribution_values() {
    assert_eq!(chebyshev_dist(c(0, 0), c(2, -1)), 2);
    assert_eq!(chebyshev_dist(c(-3, -3), c(3, 3)), 6);
    assert_eq!(contribution_at(c(0, 0), c(0, 0)), REACH);
    assert_eq!(contribution_at(c(0, 0), c(1, 1)), REACH - 1);
    assert_eq!(contribution_at(c(0, 0), c(0, 3)), 0);
}

#[test]
fn threat_field_decays_with_distance() {
    let enemies = vec![c(0, 0)];
    let map = ThreatMap::calculate(&enemies);
    assert_eq!(map.score(c(0, 0)), Some(3));
    assert_eq!(map.score(c(1, 0)), Some(2));
    assert_eq!(map.score(c(2, 2)), Some(1));
    assert_eq!(map.score(c(0, 3)), Some(0));
    assert_eq!(map.score(c(4, 0)), None);
}

#[test]
fn overlapping_enemies_score_strictly_higher() {
    // A cell within reach of two enemies against a cell at the same
    // distance from exactly one.
    let enemies = vec![c(-1, 0), c(1, 0)];
    let map = ThreatMap::calculate(&enemies);
    let both = map.score(c(0, 0)).unwrap();
    let single = map.score(c(2, 1)).unwrap();
    assert_eq!(both, 4);
    assert_eq!(single, 2);
    assert!(both > single);
}

#[test]
fn mask_border_is_idempotent() {
    let enemies = vec![c(1, 1), c(-2, 0)];
    let mut map = ThreatMap::calculate(&enemies);
    let mut borders = gridnav::radar::Borders::new();
    borders.push(c(1, 1));
    borders.push(c(0, -3));
    map.mask_borders(&borders);
    let mut once = Vec::new();
    for i in 0..CELLS {
        once.push(map.score_at(i));
    }
    map.mask_borders(&borders);
    for i in 0..CELLS {
        assert_eq!(map.score_at(i), once[i]);
    }
    assert_eq!(map.score(c(1, 1)), Some(SENTINEL));
    assert_eq!(map.score(c(0, -3)), Some(SENTINEL));
}

#[test]
fn mask_single_border_cell() {
    let mut map = ThreatMap::calculate(&Vec::new());
    map.mask_border(c(2, 2));
    assert_eq!(map.score(c(2, 2)), Some(SENTINEL));
    assert_eq!(map.score(c(2, 1)), Some(0));
    // Out-of-window coordinates are ignored.
    map.mask_border(c(5, 5));
}

#[test]
fn policy_avoids_enemy_ahead() {
    // Scenario: a single enemy directly in front; stepping forward is the
    // one action the policy must not take.
    let enemies = vec![c(0, 1)];
    let map = ThreatMap::calculate(&enemies);
    let pose = RobotPosition { position: c(0, 0), orientation: Orientation::North };
    let action = gridnav::policy::greedy_next_move(&map, &pose);
    assert_ne!(action, Some(Direction::Front));
    assert_eq!(action, Some(Direction::Back));
}

#[test]
fn policy_stays_when_nothing_improves() {
    // Scenario: no enemies, no borders: every score is 0, nothing is
    // strictly better than the current cell.
    let map = ThreatMap::calculate(&Vec::new());
    let pose = RobotPosition { position: c(0, 0), orientation: Orientation::North };
    assert_eq!(gridnav::policy::greedy_next_move(&map, &pose), None);
}

#[test]
fn policy_prefers_front_on_ties() {
    let enemies = vec![c(1, 0)];
    let map = ThreatMap::calculate(&enemies);
    // On the enemy's row both steps improve equally; Front wins the tie.
    let pose = RobotPosition { position: c(1, 0), orientation: Orientation::North };
    assert_eq!(gridnav::policy::greedy_next_move(&map, &pose), Some(Direction::Front));
}

#[test]
fn policy_never_steps_onto_masked_cell() {
    let enemies = vec![c(0, -1)];
    let mut map = ThreatMap::calculate(&enemies);
    let pose = RobotPosition { position: c(0, 0), orientation: Orientation::North };
    // With the enemy behind, forward is the improving step...
    assert_eq!(gridnav::policy::greedy_next_move(&map, &pose), Some(Direction::Front));
    // ...but once that cell is a known border, it is never chosen.
    map.mask_border(c(0, 1));
    let action = gridnav::policy::greedy_next_move(&map, &pose);
    assert_eq!(action, None);
}

#[test]
fn policy_is_deterministic() {
    let enemies = vec![c(2, 1), c(-1, -1)];
    let map = ThreatMap::calculate(&enemies);
    let pose = RobotPosition { position: c(1, 1), orientation: Orientation::East };
    let first = gridnav::policy::greedy_next_move(&map, &pose);
    let second = gridnav::policy::greedy_next_move(&map, &pose);
    assert_eq!(first, second);
}

#[test]
fn agent_pipeline_scenario() {
    let mut state = AgentState::new(Orientation::North);
    let (mut cells, mut ids) = empty_scan();
    cells[idx(0, 1)] = '@';
    ids[idx(0, 1)] = Some(11);
    state.on_radar(&cells, &ids).unwrap();
    // Fresh scan: pose reset to the origin, enemy ahead, step back.
    assert_eq!(state.pose.position, c(0, 0));
    let action = state.on_motor();
    assert_eq!(action, Some(Direction::Back));
    assert_eq!(state.pose.position, c(0, -1));
}

#[test]
fn agent_tracks_across_two_scans() {
    let mut state = AgentState::new(Orientation::North);
    let (mut cells, mut ids) = empty_scan();
    cells[idx(0, 1)] = '@';
    ids[idx(0, 1)] = Some(9);
    state.on_radar(&cells, &ids).unwrap();
    let (mut cells2, mut ids2) = empty_scan();
    cells2[idx(0, 2)] = '@';
    ids2[idx(0, 2)] = Some(9);
    state.on_radar(&cells2, &ids2).unwrap();
    // The enemy moved away one cell; the field anticipates it at (0, 3).
    let predicted = state.tracker.predicted();
    assert_eq!(positions(&predicted), vec![(9, 0, 3)]);
    assert_eq!(state.threat.score(c(0, 3)), Some(3));
    assert_eq!(state.threat.score(c(0, 2)), Some(2));
    assert_eq!(state.threat.score(c(0, 0)), Some(0));
}

#[test]
fn agent_rejects_incoherent_scan_untouched() {
    let mut state = AgentState::new(Orientation::North);
    let (mut cells, ids) = empty_scan();
    cells[idx(1, 1)] = '@';
    let r = state.on_radar(&cells, &ids);
    assert_eq!(r.unwrap_err(), ScanError::MissingBotId { index: idx(1, 1) });
    // Untouched state: still no sightings, all-zero field.
    assert_eq!(state.tracker.current_set().len(), 0);
    assert_eq!(state.threat.score(c(1, 1)), Some(0));
}

#[test]
fn agent_masks_scanned_borders() {
    let mut state = AgentState::new(Orientation::North);
    let (mut cells, ids) = empty_scan();
    cells[idx(0, 1)] = ' ';
    state.on_radar(&cells, &ids).unwrap();
    assert_eq!(state.threat.score(c(0, 1)), Some(SENTINEL));
    // Void ahead, no enemies: nothing improves on the current cell.
    assert_eq!(state.on_motor(), None);
}
