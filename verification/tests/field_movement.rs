use lib::field::avatar::avatar_flag;
use lib::field::avatar::collide;
use lib::field::avatar::{
    AvatarMoveState, EncounterSteps, FrameReport, MoveOutcome, PlayerAvatar, PlayerMoveState,
    PlayerSaveData, PlayerState, OBJ_PLAYER,
};
use lib::field::input::{direction_from_keys, horizontal, vertical, FieldInput, FieldInputContext};
use lib::field::map_object::family;
use lib::field::map_object::flag;
use lib::field::map_object::{
    Collision, Direction, MapObject, MovementCmd, MovementEntry, MovementError, MovementList,
    NoTerrain, TickReport, VecFx32, ATTR_NONE, MOVEMENT_CMD_COUNT,
};
use lib::input::key;
use lib::input::Keys;

#[test]
fn directions_match_the_delta_tables() {
    assert_eq!(Direction::North.delta_z(), -1);
    assert_eq!(Direction::South.delta_z(), 1);
    assert_eq!(Direction::West.delta_x(), -1);
    assert_eq!(Direction::East.delta_x(), 1);
    for dir in Direction::all() {
        assert_eq!(dir.reverse().reverse(), dir);
        assert_eq!(Direction::from_index(dir.index()), Some(dir));
    }
    assert_eq!(Direction::from_index(4), None);
}

#[test]
fn tile_centres_are_fx32() {
    let v = VecFx32::from_tile(6, 0, 6);
    assert_eq!(v, VecFx32 { x: 0x68000, y: 0, z: 0x68000 });
    assert_eq!(VecFx32::from_tile(0, 1, 0).y, 0x8000);
}

#[test]
fn commands_round_trip_and_the_table_is_dense() {
    for value in 0..MOVEMENT_CMD_COUNT {
        let cmd = MovementCmd::from_u8(value).expect("dense");
        assert_eq!(cmd.as_u8(), value);
    }
    assert_eq!(MovementCmd::from_u8(113), None);
    assert_eq!(MovementCmd::from_u8(254), Some(MovementCmd::End));
    assert_eq!(MovementCmd::from_u8(255), Some(MovementCmd::NoCommand));
    assert_eq!(MovementCmd::WalkNormalNorth.as_u8(), 12);
    assert_eq!(MovementCmd::RunEast.as_u8(), 91);
    assert_eq!(MovementCmd::EmoteExclamation.as_u8(), 75);
}

#[test]
fn family_lookup_mirrors_sub_0206234c() {
    assert_eq!(
        MovementCmd::for_direction(family::WALK_NORMAL, Direction::East),
        Some(MovementCmd::WalkNormalEast)
    );
    assert_eq!(
        MovementCmd::for_direction(family::RUN, Direction::South),
        Some(MovementCmd::RunSouth)
    );
    assert_eq!(
        MovementCmd::for_direction(0x0D, Direction::West),
        Some(MovementCmd::WalkNormalWest)
    );
    assert_eq!(MovementCmd::for_direction(0x40, Direction::North), None);
    assert_eq!(
        MovementCmd::for_direction(0x5C, Direction::West).map(MovementCmd::as_u8),
        Some(0x5C)
    );
    assert_eq!(MovementCmd::Cmd093.direction(), Some(Direction::South));
    assert_eq!(MovementCmd::WalkOnSpotFastestWest.direction(), Some(Direction::West));
    assert_eq!(MovementCmd::EmoteExclamation.direction(), None);
    assert!(MovementCmd::WalkOnSpotSlowerNorth.is_bump());
    assert!(!MovementCmd::WalkOnSpotFastestNorth.is_bump());
    assert!(MovementCmd::RunWest.is_run());
}

#[test]
fn held_movement_flags_follow_pret() {
    let mut obj = MapObject::create(1, 2, Direction::South, 0, 1);
    assert!(obj.ready_for_movement());
    assert!(obj.is_movement_idle());
    assert_eq!(obj.movement_cmd, MovementCmd::NoCommand);
    obj.set_held_movement(MovementCmd::WalkNormalNorth).unwrap();
    assert!(!obj.ready_for_movement());
    assert!(!obj.is_movement_idle());
    assert!(!obj.clear_held_movement_if_idle());
    obj.set_flags(flag::HELD_MOVEMENT_DONE);
    assert!(obj.ready_for_movement());
    assert!(obj.clear_held_movement_if_idle());
    assert!(!obj.test_flags(flag::HELD_MOVEMENT));
    assert_eq!(
        obj.set_held_movement(MovementCmd::End),
        Err(MovementError::NotHoldable(MovementCmd::End))
    );
}

#[test]
fn a_normal_step_takes_eight_ticks_at_0x2000() {
    let mut obj = MapObject::create(6, 6, Direction::South, 0, 1);
    obj.set_flags(flag::IGNORE_HEIGHTS);
    let terrain = NoTerrain;
    obj.tick(&terrain);
    obj.set_held_movement(MovementCmd::WalkNormalNorth).unwrap();
    let start = obj.position;
    for frame in 1..=8 {
        let report = obj.tick(&terrain);
        assert_eq!(obj.position.z, start.z - 0x2000 * frame, "frame {frame}");
        assert_eq!(report.started, frame == 1);
        assert_eq!(report.ended, frame == 8);
        assert_eq!(obj.current, [6, 0, 5]);
        assert_eq!(obj.is_movement_idle(), frame == 8);
    }
    assert_eq!(obj.position, VecFx32::from_tile(6, 0, 5));
    assert_eq!(obj.previous, [6, 0, 5]);
    assert_eq!(obj.movement_step, 2);
    let report = obj.tick(&terrain);
    assert_eq!(report, TickReport::default());
    assert_eq!(obj.movement_step, 2);
}

#[test]
fn walk_on_spot_stores_frames_plus_one() {
    let mut obj = MapObject::create(0, 0, Direction::North, 0, 1);
    obj.set_flags(flag::IGNORE_HEIGHTS);
    obj.tick(&NoTerrain);
    obj.set_held_movement(MovementCmd::WalkOnSpotFastestEast).unwrap();
    obj.tick(&NoTerrain);
    assert_eq!(obj.current_facing, Direction::East);
    assert_eq!(obj.work_frames(), 2);
    assert!(!obj.is_movement_idle());
    obj.tick(&NoTerrain);
    assert!(!obj.is_movement_idle());
    let report = obj.tick(&NoTerrain);
    assert!(obj.is_movement_idle());
    assert!(!report.ended, "on-spot never raises END_MOVEMENT");
    assert_eq!(obj.position, VecFx32::from_tile(0, 0, 0));
}

#[test]
fn face_commands_finish_within_the_tick() {
    let mut obj = MapObject::create(0, 0, Direction::North, 0, 1);
    obj.set_flags(flag::IGNORE_HEIGHTS);
    obj.tick(&NoTerrain);
    obj.set_held_movement(MovementCmd::FaceWest).unwrap();
    obj.tick(&NoTerrain);
    assert!(obj.is_movement_idle());
    assert_eq!(obj.current_facing, Direction::West);
    assert_eq!(obj.movement_step, 1);
}

#[test]
fn unimplemented_commands_are_reported_and_retired() {
    let mut obj = MapObject::create(0, 0, Direction::North, 0, 1);
    obj.set_flags(flag::IGNORE_HEIGHTS);
    obj.tick(&NoTerrain);
    obj.set_held_movement(MovementCmd::EmoteExclamation).unwrap();
    let report = obj.tick(&NoTerrain);
    assert_eq!(report.unimplemented, Some(MovementCmd::EmoteExclamation));
    assert!(obj.is_movement_idle());
}

#[test]
fn movement_lists_run_like_the_script_machine() {
    let list = [
        MovementEntry { cmd: MovementCmd::WalkNormalSouth, count: 2 },
        MovementEntry { cmd: MovementCmd::FaceEast, count: 1 },
        MovementEntry { cmd: MovementCmd::End, count: 0 },
    ];
    let mut obj = MapObject::create(3, 3, Direction::North, 0, 1);
    obj.set_flags(flag::IGNORE_HEIGHTS);
    obj.tick(&NoTerrain);
    let mut machine = MovementList::new(&list);
    let mut frames = 0;
    while !machine.is_finished() {
        machine.tick(&mut obj).unwrap();
        obj.tick(&NoTerrain);
        frames += 1;
        assert!(frames < 64, "list never finished");
    }
    assert_eq!(frames, 18);
    assert_eq!(obj.current, [3, 0, 5]);
    assert_eq!(obj.position, VecFx32::from_tile(3, 0, 5));
    assert_eq!(obj.current_facing, Direction::East);
}

#[test]
fn a_list_that_names_no_command_ends_with_the_error() {
    let list = [MovementEntry { cmd: MovementCmd::NoCommand, count: 1 }];
    let mut obj = MapObject::create(0, 0, Direction::North, 0, 1);
    obj.tick(&NoTerrain);
    let mut machine = MovementList::new(&list);
    assert_eq!(
        machine.tick(&mut obj),
        Err(MovementError::NotHoldable(MovementCmd::NoCommand))
    );
    assert!(machine.is_finished());
}

#[test]
fn run_step_rejects_other_families_and_leaves_the_object() {
    let mut obj = MapObject::create(0, 0, Direction::North, 0, 1);
    let before = obj.clone();
    assert_eq!(
        obj.run_step(MovementCmd::Jump2North, 0),
        Err(MovementError::Unimplemented(MovementCmd::Jump2North))
    );
    assert_eq!(obj, before);
}

#[test]
fn a_locked_facing_does_not_turn() {
    let mut obj = MapObject::create(0, 0, Direction::North, 0, 1);
    obj.set_flags(flag::FACING_LOCKED);
    obj.set_facing_direction(Direction::East);
    assert_eq!(obj.current_facing, Direction::North);
    obj.clear_flags(flag::FACING_LOCKED);
    obj.set_facing_direction(Direction::East);
    assert_eq!(obj.current_facing, Direction::East);
    assert_eq!(obj.previous_facing, Direction::North);
}

#[test]
fn advance_tile_then_back_returns_home() {
    let mut obj = MapObject::create(4, 4, Direction::North, 0, 1);
    obj.advance_tile(Direction::West);
    assert_eq!(obj.current, [3, 0, 4]);
    assert_eq!(obj.previous, [4, 0, 4]);
    obj.advance_tile(Direction::East);
    assert_eq!(obj.current, [4, 0, 4]);
}

/// A flat open floor with an impassable ring at |x|,|z| == 3.
struct Room;

impl Collision for Room {
    fn spec_attr(&self, x: i32, z: i32) -> u16 {
        self.attr(x, z)
    }

    fn spec_surfable(&self, x: i32, z: i32) -> bool {
        self.surfable(x, z)
    }

    fn attr(&self, x: i32, z: i32) -> u16 {
        if x.abs() > 3 || z.abs() > 3 {
            ATTR_NONE
        } else if x.abs() == 3 || z.abs() == 3 {
            0x8000
        } else {
            0
        }
    }

    fn surfable(&self, _x: i32, _z: i32) -> bool {
        false
    }
}

fn avatar() -> PlayerAvatar {
    let mut a = PlayerAvatar::new(
        0,
        0,
        Direction::South,
        PlayerState::Walking,
        0,
        0,
        PlayerSaveData::default(),
    );
    a.object.set_flags(flag::IGNORE_HEIGHTS);
    a
}

fn frame<C: Collision>(a: &mut PlayerAvatar, held: u16, terrain: &C) -> FrameReport {
    a.run_frame(Keys::idle(), Keys(held), terrain, FieldInputContext::default(), &mut 0)
}

#[test]
fn creation_matches_pret_setup() {
    let a = avatar();
    assert_eq!(a.object.id, OBJ_PLAYER);
    assert_eq!(a.object.x_range, -1);
    assert_eq!(a.last_command, 255);
    assert!(a.has_flag(avatar_flag::UNK1));
    assert!(a.object.test_flags(flag::KEEP | flag::UNK13 | flag::UNK29));
    assert!(!a.object.test_flags(flag::FACING_LOCKED));
    assert_eq!(a.object.position, VecFx32::from_tile(0, 0, 0));
}

#[test]
fn walking_forward_takes_eight_frames_and_reports_phases() {
    let mut a = avatar();
    let room = Room;
    let mut phases = Vec::new();
    for _ in 0..9 {
        let r = frame(&mut a, key::DOWN, &room);
        phases.push(a.player_move_state);
        if phases.len() == 1 {
            assert_eq!(r.outcome, MoveOutcome::Walk(Direction::South));
        }
    }
    assert_eq!(
        phases,
        [
            PlayerMoveState::Idle,
            PlayerMoveState::Start,
            PlayerMoveState::Moving,
            PlayerMoveState::Moving,
            PlayerMoveState::Moving,
            PlayerMoveState::Moving,
            PlayerMoveState::Moving,
            PlayerMoveState::Moving,
            PlayerMoveState::End,
        ]
    );
    assert_eq!(a.object.current, [0, 0, 2]);
    assert_eq!(a.steps_walked, 2);
}

#[test]
fn a_new_direction_turns_first_then_walks() {
    let mut a = avatar();
    let room = Room;
    let r = frame(&mut a, key::RIGHT, &room);
    assert_eq!(r.outcome, MoveOutcome::Turn(Direction::East));
    assert_eq!(a.facing(), Direction::East);
    assert_eq!(a.move_state, AvatarMoveState::Turning);
    assert_eq!(frame(&mut a, key::RIGHT, &room).outcome, MoveOutcome::Busy);
    assert_eq!(frame(&mut a, key::RIGHT, &room).outcome, MoveOutcome::Busy);
    let r = frame(&mut a, key::RIGHT, &room);
    assert_eq!(r.outcome, MoveOutcome::Walk(Direction::East));
    assert!(r.input.end_movement, "the turn's END phase");
    assert!(!r.input.movement, "a turn is not a step");
    assert_eq!(a.object.current, [1, 0, 0]);
}

#[test]
fn a_tap_turns_and_then_stands() {
    let mut a = avatar();
    let room = Room;
    assert_eq!(frame(&mut a, key::LEFT, &room).outcome, MoveOutcome::Turn(Direction::West));
    assert_eq!(frame(&mut a, 0, &room).outcome, MoveOutcome::Busy);
    assert_eq!(frame(&mut a, 0, &room).outcome, MoveOutcome::Busy);
    assert_eq!(frame(&mut a, 0, &room).outcome, MoveOutcome::Idle);
    assert_eq!(a.facing(), Direction::West);
    assert_eq!(a.move_state, AvatarMoveState::Standing);
    assert_eq!(a.object.current, [0, 0, 0]);
}

#[test]
fn changing_direction_mid_walk_does_not_turn() {
    let mut a = avatar();
    let room = Room;
    for _ in 0..8 {
        frame(&mut a, key::DOWN, &room);
    }
    let r = frame(&mut a, key::RIGHT, &room);
    assert_eq!(r.outcome, MoveOutcome::Walk(Direction::East));
    assert_eq!(a.facing(), Direction::East);
    assert_eq!(a.object.current, [1, 0, 1]);
}

#[test]
fn a_blocked_step_bumps_for_seventeen_frames() {
    let mut a = avatar();
    let room = Room;
    a.object.current = [0, 0, 2];
    a.object.previous = [0, 0, 2];
    a.object.position = VecFx32::from_tile(0, 0, 2);
    let r = frame(&mut a, key::DOWN, &room);
    assert_eq!(r.outcome, MoveOutcome::Bump(Direction::South));
    assert_eq!(a.object.movement_cmd, MovementCmd::WalkOnSpotSlowerSouth);
    for _ in 0..16 {
        assert_eq!(frame(&mut a, key::DOWN, &room).outcome, MoveOutcome::Busy);
    }
    assert_eq!(frame(&mut a, key::DOWN, &room).outcome, MoveOutcome::Bump(Direction::South));
    assert_eq!(a.object.current, [0, 0, 2]);
    assert_eq!(a.object.position, VecFx32::from_tile(0, 0, 2));
    assert_eq!(a.steps_walked, 0);
    assert_eq!(a.player_move_state, PlayerMoveState::Idle, "bumps never report phases");
}

#[test]
fn a_free_direction_interrupts_a_bump() {
    let mut a = avatar();
    let room = Room;
    a.object.current = [0, 0, 2];
    a.object.previous = [0, 0, 2];
    a.object.position = VecFx32::from_tile(0, 0, 2);
    frame(&mut a, key::DOWN, &room);
    frame(&mut a, key::DOWN, &room);
    let r = frame(&mut a, key::LEFT, &room);
    assert_eq!(r.outcome, MoveOutcome::Walk(Direction::West));
    assert_eq!(a.object.current, [-1, 0, 2]);
}

#[test]
fn running_needs_shoes_and_b() {
    let mut a = avatar();
    let room = Room;
    assert_eq!(
        frame(&mut a, key::DOWN | key::B, &room).outcome,
        MoveOutcome::Walk(Direction::South)
    );
    let mut a = avatar();
    a.save.has_running_shoes = true;
    assert_eq!(
        frame(&mut a, key::DOWN | key::B, &room).outcome,
        MoveOutcome::Run(Direction::South)
    );
    assert_eq!(a.object.movement_cmd, MovementCmd::RunSouth);
    for _ in 0..3 {
        frame(&mut a, key::DOWN | key::B, &room);
    }
    assert_eq!(a.object.position, VecFx32::from_tile(0, 0, 1));
}

struct Ledge;

impl Collision for Ledge {
    fn spec_attr(&self, x: i32, z: i32) -> u16 {
        self.attr(x, z)
    }

    fn spec_surfable(&self, x: i32, z: i32) -> bool {
        self.surfable(x, z)
    }

    fn attr(&self, _x: i32, z: i32) -> u16 {
        if z == 1 {
            59
        } else {
            0
        }
    }

    fn surfable(&self, _x: i32, _z: i32) -> bool {
        false
    }
}

#[test]
fn out_of_map_and_edge_rules_block() {
    let mut a = avatar();
    assert_ne!(a.check_collision(Direction::South, &NoTerrain), 0);
    a.object.current_behavior = 73;
    assert_eq!(
        a.check_collision(Direction::South, &Room) & collide::BLOCKED,
        collide::BLOCKED
    );
    assert_eq!(a.check_collision(Direction::East, &Room), 0);
    a.object.current_behavior = 0;
    assert_eq!(a.check_collision(Direction::South, &Ledge), collide::LEDGE);
    assert_eq!(a.check_collision(Direction::North, &Ledge), 0);
}

#[test]
fn encounter_step_counters_follow_the_rules() {
    let mut s = EncounterSteps::default();
    for _ in 0..4 {
        assert!(!s.encounter_allowed());
        s.on_end_movement();
    }
    assert!(s.encounter_allowed());
    s.update_turn_frame_counter(Direction::North);
    assert_eq!(s.reverse_turn_frame_steps, 0);
    s.update_turn_frame_counter(Direction::South);
    assert_eq!(s.reverse_turn_frame_steps, 1);
    s.update_turn_frame_counter(Direction::South);
    assert_eq!(s.reverse_turn_frame_steps, 1);
    s.update_turn_frame_counter(Direction::North);
    assert_eq!(s.reverse_turn_frame_steps, 2);
    s.reset();
    assert_eq!(s.encounter_inhibit_steps, 0);
    assert_eq!(s.last_facing_direction, 0);
}

#[test]
fn the_inhibit_counter_saturates() {
    let mut s = EncounterSteps { encounter_inhibit_steps: 0xFFFF, ..EncounterSteps::default() };
    s.on_end_movement();
    assert_eq!(s.encounter_inhibit_steps, 0xFFFF);
}

#[test]
fn a_range_box_blocks_beyond_it() {
    let mut obj = MapObject::create(5, 5, Direction::North, 0, 2);
    obj.x_range = 1;
    obj.y_range = -1;
    assert!(!obj.out_of_range(6, 100));
    assert!(obj.out_of_range(7, 5));
    assert!(obj.out_of_range(3, 5));
}

#[test]
fn edge_rules_block_leaving_and_entering() {
    let mut obj = MapObject::create(0, 0, Direction::North, 0, 1);
    assert!(obj.edge_blocked(Direction::North, 0xFF));
    assert!(!obj.edge_blocked(Direction::North, 0));
    obj.current_behavior = 50;
    assert!(obj.edge_blocked(Direction::North, 0));
    obj.current_behavior = 0;
    assert!(obj.edge_blocked(Direction::West, 48));
    assert!(!obj.edge_blocked(Direction::East, 48));
}

fn standing_avatar() -> PlayerAvatar {
    PlayerAvatar::new(6, 6, Direction::South, PlayerState::Walking, 0, 0, PlayerSaveData::default())
}

#[test]
fn single_axis_keys_map_to_directions() {
    let a = standing_avatar();
    assert_eq!(direction_from_keys(&a, Keys::idle(), Keys(key::UP)), Some(Direction::North));
    assert_eq!(direction_from_keys(&a, Keys::idle(), Keys(key::DOWN)), Some(Direction::South));
    assert_eq!(direction_from_keys(&a, Keys::idle(), Keys(key::LEFT)), Some(Direction::West));
    assert_eq!(direction_from_keys(&a, Keys::idle(), Keys(key::RIGHT)), Some(Direction::East));
    assert_eq!(direction_from_keys(&a, Keys::idle(), Keys::idle()), None);
    assert_eq!(horizontal(Keys(key::LEFT | key::RIGHT)), Some(Direction::West));
    assert_eq!(vertical(Keys(key::UP | key::DOWN)), Some(Direction::North));
}

#[test]
fn diagonals_resolve_against_the_remembered_components() {
    let mut a = standing_avatar();
    assert_eq!(
        direction_from_keys(&a, Keys::idle(), Keys(key::UP | key::RIGHT)),
        Some(Direction::North)
    );
    a.held_vertical = Some(Direction::North);
    assert_eq!(
        direction_from_keys(&a, Keys::idle(), Keys(key::UP | key::RIGHT)),
        Some(Direction::East)
    );
    a.held_horizontal = Some(Direction::East);
    a.object.set_next_facing_direction(Direction::North);
    assert_eq!(
        direction_from_keys(&a, Keys::idle(), Keys(key::UP | key::RIGHT)),
        Some(Direction::North)
    );
}

#[test]
fn standing_frames_digest_buttons() {
    let a = standing_avatar();
    let mut latch = 0;
    let ctx = FieldInputContext { bag_icon_shown: true, ..Default::default() };
    let input = FieldInput::update(&a, &mut latch, Keys(key::A), Keys(key::A), ctx);
    assert!(input.interact);
    assert!(input.standing);
    assert!(!input.menu);
    let input = FieldInput::update(&a, &mut latch, Keys(key::X), Keys(key::X), ctx);
    assert!(input.menu);
    assert!(!input.interact);
    let input = FieldInput::update(&a, &mut latch, Keys::idle(), Keys(key::DOWN), ctx);
    assert!(input.sign && input.map_transition);
    assert_eq!(input.transition_dir, Some(Direction::South));
    assert_eq!(input.player_dir, Some(Direction::South));
    let input = FieldInput::update(&a, &mut latch, Keys::idle(), Keys(key::UP), ctx);
    assert_eq!(input.transition_dir, None);
}

#[test]
fn running_shoes_lock_forces_b() {
    let mut a = standing_avatar();
    a.save.running_shoes_lock = true;
    let input =
        FieldInput::update(&a, &mut 0, Keys::idle(), Keys::idle(), FieldInputContext::default());
    assert!(input.held_keys.down(key::B));
}

#[test]
fn movement_flags_follow_the_player_move_state() {
    let mut a = standing_avatar();
    a.player_move_state = PlayerMoveState::End;
    a.move_state = AvatarMoveState::Moving;
    let input =
        FieldInput::update(&a, &mut 0, Keys::idle(), Keys::idle(), FieldInputContext::default());
    assert!(input.movement && input.end_movement && input.standing);
    a.move_state = AvatarMoveState::Turning;
    let input =
        FieldInput::update(&a, &mut 0, Keys::idle(), Keys::idle(), FieldInputContext::default());
    assert!(!input.movement && input.end_movement);
    a.player_move_state = PlayerMoveState::Moving;
    let mut latch = 5;
    let input =
        FieldInput::update(&a, &mut latch, Keys(key::A), Keys(key::A), FieldInputContext::default());
    assert!(!input.interact && !input.standing);
    assert_eq!(latch, 0, "a moving frame clears the touch latch");
}

#[test]
fn the_touch_latch_selects_the_registered_item() {
    let a = standing_avatar();
    let ctx = FieldInputContext { registered_item_usable: true, ..Default::default() };
    let mut latch = 10;
    let input = FieldInput::update(&a, &mut latch, Keys::idle(), Keys::idle(), ctx);
    assert_eq!(input.registered_item, 2);
    assert_eq!(latch, 0);
    let mut latch = 11;
    let input = FieldInput::update(&a, &mut latch, Keys::idle(), Keys::idle(), ctx);
    assert!(input.touch_menu);
    assert_eq!(latch, 0);
}
