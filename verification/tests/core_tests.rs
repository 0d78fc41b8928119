use neobot::cmdcore::{between_closed, fill_command, is_near, BlockPos, Core, ExecuteStep};

#[test]
fn between_closed_x_fastest() {
    let v = between_closed(BlockPos::new(1, 2, 3), BlockPos::new(2, 3, 3));
    assert_eq!(
        v,
        vec![BlockPos::new(1, 2, 3), BlockPos::new(2, 2, 3), BlockPos::new(1, 3, 3), BlockPos::new(2, 3, 3)]
    );
    let w = between_closed(BlockPos::new(0, 0, 0), BlockPos::new(0, 0, 1));
    assert_eq!(w, vec![BlockPos::new(0, 0, 0), BlockPos::new(0, 0, 1)]);
}

#[test]
fn fill_command_for_bot() {
    assert_eq!(fill_command(BlockPos::new(10, 64, -3)), "/fill 10 0 -3 15 2 -1 command_block");
}

#[test]
fn gen_core_builds_box() {
    let mut core = Core::default();
    let r = core.gen_core_sync(BlockPos::new(10, 64, -3));
    assert_eq!(r.coordinates.len(), 54);
    assert_eq!(core.core_coordinates, r.coordinates);
    assert_eq!(r.coordinates[0], BlockPos::new(10, 0, -3));
    assert_eq!(r.coordinates[5], BlockPos::new(15, 0, -3));
    assert_eq!(r.coordinates[53], BlockPos::new(15, 2, -1));
    assert_eq!(r.command, "/fill 10 0 -3 15 2 -1 command_block");
    let mut other = Core::default();
    assert_eq!(other.gen_core(BlockPos::new(10, 64, -3)).command, r.command);
}

#[test]
fn near_means_within_1000() {
    assert!(is_near(BlockPos::new(0, 0, 0), BlockPos::new(1000, 0, 0)));
    assert!(!is_near(BlockPos::new(0, 0, 0), BlockPos::new(1000, 1, 0)));
    assert!(is_near(BlockPos::new(0, 0, 0), BlockPos::new(600, 0, 800)));
    assert!(!is_near(BlockPos::new(0, 0, 0), BlockPos::new(600, 1, 800)));
}

#[test]
fn plan_near_command_block_writes_only() {
    let mut core = Core::default();
    core.gen_core_sync(BlockPos::new(0, 64, 0));
    let before = core.core_coordinates.clone();
    let steps = core.plan_execute(&"say hi".to_string(), BlockPos::new(1, 0, 0), BlockPos::new(0, 64, 0), true);
    assert_eq!(steps, vec![ExecuteStep::SetCommandBlock { pos: BlockPos::new(1, 0, 0), command: "say hi".to_string() }]);
    assert_eq!(core.core_coordinates, before);
}

#[test]
fn plan_far_and_broken_rebuilds_twice() {
    let mut core = Core::default();
    core.gen_core_sync(BlockPos::new(0, 64, 0));
    let steps = core.plan_execute(&"say hi".to_string(), BlockPos::new(1, 0, 0), BlockPos::new(5000, 64, 7), false);
    let fill = "/fill 5000 0 7 5005 2 9 command_block".to_string();
    assert_eq!(
        steps,
        vec![
            ExecuteStep::Chat(fill.clone()),
            ExecuteStep::Chat(fill),
            ExecuteStep::SetCommandBlock { pos: BlockPos::new(1, 0, 0), command: "say hi".to_string() },
        ]
    );
    assert_eq!(core.core_coordinates[0], BlockPos::new(5000, 0, 7));
}

#[test]
fn pick_target_from_core() {
    let core = Core::default();
    assert_eq!(core.pick_target(), None);
    assert_eq!(core.target_at(0), None);
    let mut core = Core::default();
    core.gen_core_sync(BlockPos::new(3, 64, 4));
    for _ in 0..20 {
        let p = core.pick_target().unwrap();
        assert!(core.core_coordinates.contains(&p));
    }
    assert_eq!(core.target_at(1), Some(BlockPos::new(4, 0, 4)));
    assert_eq!(core.holds_position(BlockPos::new(8, 2, 6)), true);
    assert_eq!(core.holds_position(BlockPos::new(9, 2, 6)), false);
}
