use automatom::grid::{Cell, Color, Grid};
use automatom::rule::{Neighbor, Offset, RuleContext};
use automatom::scheduler::{engine_seed, next_update, Scheduler};

fn states(g: &Grid) -> Vec<Vec<u8>> {
    g.cells().iter().map(|col| col.iter().map(|c| c.state).collect()).collect()
}

fn stone_grid(width: i32, height: i32) -> Grid {
    let mut g = Grid::new(width, height);
    g.add_state(Color { r: 128, g: 128, b: 128, a: 255 }, None, 1, "stone".to_string());
    g
}

#[test]
fn new_grid_is_air() {
    let g = Grid::new(4, 2);
    assert_eq!(g.width(), 4);
    assert_eq!(g.height(), 2);
    assert_eq!(g.state_count(), 1);
    let air = &g.cell_prescriptors()[0];
    assert_eq!(air.name, "air");
    assert_eq!(air.matter, 255);
    assert_eq!(air.color, Color::black());
    assert!(air.update.is_none());
    assert_eq!(states(&g), vec![vec![0u8, 0], vec![0, 0], vec![0, 0], vec![0, 0]]);
    assert_eq!(g.try_get_cell(3, 1), Some(&Cell { x: 3, y: 1, state: 0 }));
}

#[test]
fn negative_extent_gives_empty_grid() {
    let g = Grid::new(-3, 5);
    assert!(g.cells().is_empty());
    assert_eq!(g.try_get_cell(0, 0), None);
}

#[test]
fn off_grid_reads_and_writes_fail() {
    let mut g = stone_grid(3, 3);
    g.change_cell(2, 2, 1).unwrap();
    let before = states(&g);
    for (x, y) in [(-1, 0), (0, -1), (3, 0), (0, 3), (i32::MIN, i32::MAX)] {
        assert_eq!(g.try_get_cell(x, y), None);
        assert_eq!(g.change_cell(x, y, 1), Err(()));
        assert_eq!(states(&g), before);
    }
}

#[test]
fn write_then_read_back() {
    let mut g = stone_grid(3, 2);
    assert_eq!(g.change_cell(2, 1, 1), Ok(()));
    assert_eq!(g.try_get_cell(2, 1), Some(&Cell { x: 2, y: 1, state: 1 }));
    assert_eq!(g.change_cell(2, 1, 0), Ok(()));
    assert_eq!(g.try_get_cell(2, 1).unwrap().state, 0);
    assert_eq!(states(&g), vec![vec![0u8, 0], vec![0, 0], vec![0, 0]]);
}

#[test]
fn unknown_state_is_rejected() {
    let mut g = stone_grid(3, 3);
    g.change_cell(1, 0, 1).unwrap();
    assert_eq!(g.change_cell(1, 0, 2), Err(()));
    assert_eq!(g.change_cell(1, 0, 255), Err(()));
    assert_eq!(g.cell_state(1, 0), 1);
}

#[test]
fn two_state_registry_rejects_state_two() {
    let mut g = stone_grid(3, 3);
    assert_eq!(g.state_count(), 2);
    assert!(g.change_cell(0, 0, 2).is_err());
    assert_eq!(g.cell_state(0, 0), 0);
}

#[test]
fn end_to_end_three_by_three() {
    let mut g = stone_grid(3, 3);
    assert!(g.change_cell(1, 1, 1).is_ok());
    assert_eq!(g.cell_state(1, 1), 1);
    let ctx = RuleContext { x: 1, y: 1 };
    let stone_matter = g.cell_prescriptors()[1].matter;
    assert_eq!(ctx.kernel(&g, 0, 0), Neighbor { state: 1, matter: stone_matter });
    assert_eq!(ctx.kernel(&g, -2, -2), Neighbor { state: 255, matter: 0 });
}

#[test]
fn off_grid_neighbours_are_void() {
    let g = stone_grid(2, 2);
    for (ox, oy) in [(0, 0), (1, 0), (0, 1), (1, 1)] {
        let ctx = RuleContext { x: ox, y: oy };
        for (dx, dy) in [(-2, 0), (2, 0), (0, -2), (0, 2), (i32::MAX, 0), (0, i32::MIN)] {
            assert_eq!(ctx.kernel(&g, dx, dy), Neighbor { state: 255, matter: 0 });
        }
    }
    assert_eq!(RuleContext { x: 0, y: 0 }.kernel(&g, 1, 1), Neighbor { state: 0, matter: 255 });
}

#[test]
fn absolute_queries() {
    let mut g = stone_grid(3, 3);
    g.change_cell(0, 2, 1).unwrap();
    assert_eq!(g.cell_state(0, 2), 1);
    assert_eq!(g.cell_matter(0, 2), 1);
    assert_eq!(g.cell_matter(1, 1), 255);
    assert_eq!(g.cell_state(5, 5), 255);
    assert_eq!(g.cell_matter(-1, 0), 0);
}

#[test]
fn clear_resets_every_cell() {
    let mut g = stone_grid(4, 3);
    for x in 0..4 {
        for y in 0..3 {
            if (x + y) % 2 == 0 {
                g.change_cell(x, y, 1).unwrap();
            }
        }
    }
    g.clear();
    assert_eq!(states(&g), vec![vec![0u8; 3]; 4]);
    assert_eq!(g.state_count(), 2);
}

#[test]
fn swap_exchanges_two_cells() {
    let mut g = stone_grid(3, 3);
    g.add_state(Color { r: 0, g: 0, b: 255, a: 255 }, Some("x = 1".to_string()), 2, "water".to_string());
    g.change_cell(1, 1, 1).unwrap();
    g.change_cell(2, 1, 2).unwrap();
    let ctx = RuleContext { x: 1, y: 1 };
    assert!(ctx.swap(&mut g, 1, 0));
    assert_eq!(g.cell_state(1, 1), 2);
    assert_eq!(g.cell_state(2, 1), 1);
    assert!(ctx.swap(&mut g, 0, 0));
    assert_eq!(g.cell_state(1, 1), 2);
}

#[test]
fn swap_off_grid_changes_nothing() {
    let mut g = stone_grid(3, 3);
    g.change_cell(2, 2, 1).unwrap();
    let before = states(&g);
    let ctx = RuleContext { x: 2, y: 2 };
    assert!(!ctx.swap(&mut g, 1, 0));
    assert_eq!(states(&g), before);
}

#[test]
fn copy_pulls_neighbour_or_air() {
    let mut g = stone_grid(3, 3);
    g.change_cell(0, 0, 1).unwrap();
    let ctx = RuleContext { x: 1, y: 1 };
    assert!(ctx.copy(&mut g, -1, -1));
    assert_eq!(g.cell_state(1, 1), 1);
    assert!(ctx.copy(&mut g, 5, 5));
    assert_eq!(g.cell_state(1, 1), 0);
    let outside = RuleContext { x: 7, y: 0 };
    assert!(!outside.copy(&mut g, -7, 0));
}

#[test]
fn update_writes_relative_cell() {
    let mut g = stone_grid(3, 3);
    let ctx = RuleContext { x: 1, y: 1 };
    assert!(ctx.update(&mut g, 1, -1, 1));
    assert_eq!(g.cell_state(2, 0), 1);
    assert!(!ctx.update(&mut g, 2, 0, 1));
    assert!(!ctx.update(&mut g, 0, 0, 2));
    assert!(!ctx.update(&mut g, 0, 0, -1));
    assert!(!ctx.update(&mut g, 0, 0, 257));
    assert_eq!(g.cell_state(1, 1), 0);
}

#[test]
fn find_all_scans_column_by_column() {
    let mut g = stone_grid(3, 3);
    g.change_cell(2, 0, 1).unwrap();
    g.change_cell(0, 1, 1).unwrap();
    g.change_cell(1, 2, 1).unwrap();
    let ctx = RuleContext { x: 1, y: 1 };
    assert_eq!(
        ctx.find_all(&g, 1),
        vec![Offset { x: -1, y: 0 }, Offset { x: 0, y: 1 }, Offset { x: 1, y: -1 }]
    );
    assert_eq!(ctx.find_all(&g, 0).len(), 6);
    assert!(ctx.find_all(&g, 255).is_empty());
    let corner = RuleContext { x: 0, y: 0 };
    assert_eq!(corner.find_all(&g, 0), vec![Offset { x: 0, y: 0 }, Offset { x: 1, y: 0 }, Offset { x: 1, y: 1 }]);
}

#[test]
fn count_single_and_two_states() {
    let mut g = stone_grid(3, 3);
    g.add_state(Color { r: 0, g: 0, b: 255, a: 255 }, None, 2, "water".to_string());
    g.change_cell(0, 0, 1).unwrap();
    g.change_cell(2, 2, 1).unwrap();
    g.change_cell(1, 0, 2).unwrap();
    let ctx = RuleContext { x: 1, y: 1 };
    assert_eq!(ctx.count(&g, &vec![1]), 2);
    assert_eq!(ctx.count(&g, &vec![2]), 1);
    assert_eq!(ctx.count(&g, &vec![1, 2]), 3);
    assert_eq!(ctx.count(&g, &vec![0]), 6);
    assert_eq!(ctx.count(&g, &vec![1, 1]), 4);
    assert_eq!(ctx.count(&g, &vec![]), 0);
    assert_eq!(RuleContext { x: 0, y: 0 }.count(&g, &vec![0, 255]), 2);
}

#[test]
fn is_around_looks_at_window_only() {
    let mut g = stone_grid(4, 4);
    g.change_cell(3, 3, 1).unwrap();
    assert!(RuleContext { x: 2, y: 2 }.is_around(&g, &vec![1]));
    assert!(!RuleContext { x: 1, y: 1 }.is_around(&g, &vec![1]));
    assert!(RuleContext { x: 1, y: 1 }.is_around(&g, &vec![7, 0]));
    assert!(!RuleContext { x: 0, y: 0 }.is_around(&g, &vec![255]));
    assert!(!RuleContext { x: 0, y: 0 }.is_around(&g, &vec![]));
}

#[test]
fn random_direction_stays_in_window() {
    let mut seen = vec![false; 9];
    for _ in 0..2000 {
        let d = RuleContext::random_direction();
        assert!((-1..=1).contains(&d.x) && (-1..=1).contains(&d.y));
        seen[((d.x + 1) * 3 + d.y + 1) as usize] = true;
    }
    assert!(seen.iter().all(|s| *s));
}

#[test]
fn next_update_draws_on_grid() {
    let mut g = stone_grid(5, 2);
    g.add_state(Color { r: 1, g: 2, b: 3, a: 255 }, Some("grid:update(0, 1, 0)".to_string()), 3, "sand".to_string());
    for x in 0..5 {
        g.change_cell(x, 0, 2).unwrap();
    }
    let mut scripted = 0;
    for _ in 0..500 {
        let (ctx, script) = next_update(&g);
        assert!(ctx.x >= 0 && ctx.x < 5 && ctx.y >= 0 && ctx.y < 2);
        assert_eq!(script.is_some(), ctx.y == 0);
        if let Some(s) = script {
            assert_eq!(s, "grid:update(0, 1, 0)");
            scripted += 1;
        }
    }
    assert!(scripted > 0 && scripted < 500);
}

#[test]
fn script_lookup() {
    let mut g = stone_grid(2, 2);
    g.add_state(Color { r: 1, g: 2, b: 3, a: 255 }, Some("state = 0".to_string()), 3, "fire".to_string());
    g.change_cell(1, 0, 2).unwrap();
    assert_eq!(g.script_at(1, 0).map(|s| s.as_str()), Some("state = 0"));
    assert_eq!(g.script_at(0, 0), None);
    assert_eq!(g.script_at(2, 0), None);
}

#[test]
fn engine_seed_is_below_max() {
    let a = engine_seed();
    let b = engine_seed();
    assert!(a < u32::MAX && b < u32::MAX);
}

#[test]
fn scheduler_modes_and_adjustment() {
    let mut s = Scheduler::new();
    assert_eq!(s, Scheduler { running: true, auto_adjust: true, iterations: 1000 });
    assert_eq!(s.attempts(), 1000);
    s.end_tick(10);
    assert_eq!(s.iterations, 980);
    s.end_tick(60);
    s.end_tick(24);
    assert_eq!(s.iterations, 1020);
    s.toggle_auto_adjust();
    s.end_tick(10);
    assert_eq!(s.iterations, 1020);
    s.toggle_running();
    assert_eq!(s.attempts(), 0);
    s.toggle_running();
    s.iterations = -5;
    assert_eq!(s.attempts(), 0);
    s.toggle_auto_adjust();
    s.iterations = i32::MAX - 3;
    s.end_tick(30);
    assert_eq!(s.iterations, i32::MAX);
    s.iterations = i32::MIN + 3;
    s.end_tick(3);
    assert_eq!(s.iterations, i32::MIN);
}
