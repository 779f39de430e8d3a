//! The player avatar: input-driven movement over a [`MapObject`].
//!
//! Frame order: the movement phase is derived from the last tick, the
//! input digest is taken, the movement control decides, then the
//! object ticks. A command loaded by the control therefore takes its
//! first step in the same frame; [`PlayerAvatar::run_frame`] keeps
//! that order.

use vstd::prelude::*;

use super::input::{
    FieldInput, FieldInputContext, direction_from_keys, horizontal, vertical,
    spec_direction_from_keys, spec_field_input, spec_horizontal, spec_vertical,
};
use super::map_object::{
    BEHAVIOR_NONE, Collision, Direction, MapObject, MovementCmd, TickReport, family, flag,
    cmd_value, cmd_with_value, dir_dx, dir_dz, dir_index, dir_reverse, lemma_cmd_value_injective,
    tile_fits, MOVEMENT_CMD_COUNT,
};
use crate::input::Keys;
use crate::input::key;

pub mod avatar_flag;
pub mod collide;

verus! {

/// The player object's id.
pub const OBJ_PLAYER: u32 = 0xFF;

/// What the player is doing on the field.
#[derive(Debug, Clone, Copy, PartialEq, Eq, Hash, Structural)]
pub enum PlayerState {
    /// Walking.
    Walking,
    /// On the bicycle.
    Cycling,
    /// Surfing.
    Surfing,
    /// In the Rocket disguise.
    Rocket,
    /// Using a field move.
    UseHm,
    /// Watering berries.
    Watering,
    /// In the Pokéathlon outfit.
    Pokeathlon,
    /// Fishing.
    Fishing,
    /// Using the Pokétch.
    Poketch,
    /// Saving.
    Saving,
    /// Healing.
    Heal,
    /// On a ladder.
    Ladder,
    /// Healing in the Rocket disguise.
    RocketHeal,
    /// Shaking an Apricorn tree.
    ApricornShake,
    /// Saving in the Rocket disguise.
    RocketSaving,
}

/// What the avatar decided to do with the last accepted input.
#[derive(Debug, Clone, Copy, PartialEq, Eq, Hash, Default, Structural)]
pub enum AvatarMoveState {
    /// Standing.
    #[default]
    Standing,
    /// A step (or bump) is in progress.
    Moving,
    /// A turn in place is in progress.
    Turning,
}

/// The per-frame phase the field event dispatcher reads.
#[derive(Debug, Clone, Copy, PartialEq, Eq, Hash, Default, Structural)]
pub enum PlayerMoveState {
    /// No move.
    #[default]
    Idle,
    /// The first frame after a move began.
    Start,
    /// Moving.
    Moving,
    /// The frame after a move completed.
    End,
}

/// The player's saved data that movement reads.
#[derive(Debug, Clone, Copy, PartialEq, Eq, Default)]
pub struct PlayerSaveData {
    /// False at a new game: B does nothing until it is set.
    pub has_running_shoes: bool,
    /// B is forced on while set.
    pub running_shoes_lock: bool,
    /// The saved player state.
    pub state: i32,
}

/// What the movement control decided for this frame.
#[derive(Debug, Clone, Copy, PartialEq, Eq, Structural)]
pub enum MoveOutcome {
    /// A command is still running and the input cannot interrupt it.
    Busy,
    /// No direction: face the current way.
    Idle,
    /// Turn in place (three ticks).
    Turn(Direction),
    /// Walk one tile (eight ticks).
    Walk(Direction),
    /// Run one tile (four ticks).
    Run(Direction),
    /// Blocked: walk on the spot (seventeen ticks).
    Bump(Direction),
    /// Hop a ledge: issued, but its steps do not run.
    Jump(Direction),
    /// The player state has no control path.
    Unsupported,
}

/// The step counters that walking maintains.
#[derive(Debug, Clone, Copy, PartialEq, Eq, Default)]
pub struct EncounterSteps {
    /// The facing index at the last encounter check, to spot
    /// back-and-forth turning.
    pub last_facing_direction: u16,
    /// Checks that reversed the facing; each raises the effective
    /// encounter rate.
    pub reverse_turn_frame_steps: u16,
    /// Move ends since the map loaded; no encounter in the first four.
    pub encounter_inhibit_steps: u16,
}

impl EncounterSteps {
    /// Counts a move end (walks and turns), saturating.
    pub fn on_end_movement(&mut self)
        ensures
            *final(self) == (EncounterSteps {
                encounter_inhibit_steps: if old(self).encounter_inhibit_steps < 0xFFFF {
                    (old(self).encounter_inhibit_steps + 1) as u16
                } else {
                    0xFFFFu16
                },
                ..*old(self)
            }),
    {
        if self.encounter_inhibit_steps < 0xFFFF {
            self.encounter_inhibit_steps = self.encounter_inhibit_steps + 1;
        }
    }

    /// No encounter while the inhibit count is 3 or less.
    pub fn encounter_allowed(&self) -> (res: bool)
        ensures
            res == (self.encounter_inhibit_steps > 3),
    {
        self.encounter_inhibit_steps > 3
    }

    /// A facing opposite to the last check's counts a reverse turn
    /// (saturating), and the facing is latched.
    pub fn update_turn_frame_counter(&mut self, facing: Direction)
        ensures
            final(self).last_facing_direction == dir_index(facing),
            final(self).encounter_inhibit_steps == old(self).encounter_inhibit_steps,
            final(self).reverse_turn_frame_steps == if old(self).last_facing_direction
                == dir_index(dir_reverse(facing)) && old(self).reverse_turn_frame_steps < 0xFFFF {
                (old(self).reverse_turn_frame_steps + 1) as u16
            } else {
                old(self).reverse_turn_frame_steps
            },
    {
        let reversed = self.last_facing_direction as u32 == facing.reverse().index();
        if reversed && self.reverse_turn_frame_steps < 0xFFFF {
            self.reverse_turn_frame_steps = self.reverse_turn_frame_steps + 1;
        }
        self.last_facing_direction = facing.index() as u16;
    }

    /// On a map change both step counters restart; the last facing is
    /// kept.
    pub fn reset(&mut self)
        ensures
            *final(self) == (EncounterSteps {
                encounter_inhibit_steps: 0,
                reverse_turn_frame_steps: 0,
                ..*old(self)
            }),
    {
        self.encounter_inhibit_steps = 0;
        self.reverse_turn_frame_steps = 0;
    }
}

/// What one [`PlayerAvatar::run_frame`] produced.
#[derive(Debug, Clone, Copy, PartialEq, Eq)]
pub struct FrameReport {
    /// The frame's input digest (taken before the movement).
    pub input: FieldInput,
    /// The movement decision.
    pub outcome: MoveOutcome,
    /// The object tick's edge flags.
    pub tick: TickReport,
}

/// The player avatar, owning its map object.
#[derive(Debug, Clone, PartialEq, Eq)]
pub struct PlayerAvatar {
    /// [`avatar_flag`] bits.
    pub flags: u32,
    /// Pending state-transition bits; none is applied, and the word is
    /// cleared at each accepted control.
    pub transition_flags: u32,
    /// The last movement command issued; 255 at creation.
    pub last_command: u8,
    /// The walk-cycle toggle flipped by turns.
    pub walk_toggle: bool,
    /// What the avatar decided with the last accepted input.
    pub move_state: AvatarMoveState,
    /// The per-frame phase.
    pub player_move_state: PlayerMoveState,
    /// What the player is doing.
    pub state: PlayerState,
    /// 0 male, 1 female.
    pub gender: u32,
    /// The bicycle gear (0 to 3).
    pub bike_gear: i32,
    /// The horizontal pad component recorded by the last accepted
    /// control.
    pub held_horizontal: Option<Direction>,
    /// The vertical pad component likewise.
    pub held_vertical: Option<Direction>,
    /// The player's map object.
    pub object: MapObject,
    /// The saved data movement reads.
    pub save: PlayerSaveData,
    /// Steps issued.
    pub steps_walked: u32,
}

/// Whether a command value stands for a bump.
pub open spec fn bump_value(v: u8) -> bool {
    0x1C <= v <= 0x1F
}

/// The command of `family` for `d`, for the families whose rows run
/// North, South, West, East.
pub open spec fn family_cmd(fam: u8, d: Direction) -> MovementCmd {
    cmd_with_value((fam + dir_index(d)) as u8)
}

/// Whether the target tile behavior forbids leaving a tile with
/// behavior `t` northward (and entering one southward).
pub open spec fn blocks_north(t: u8) -> bool {
    t == 50 || t == 52 || t == 53 || t == 60 || t == 73
}

/// Whether behavior `t` blocks southward.
pub open spec fn blocks_south(t: u8) -> bool {
    t == 51 || t == 54 || t == 55 || t == 61 || t == 73
}

/// Whether behavior `t` blocks westward.
pub open spec fn blocks_west(t: u8) -> bool {
    t == 49 || t == 53 || t == 55 || t == 74
}

/// Whether behavior `t` blocks eastward.
pub open spec fn blocks_east(t: u8) -> bool {
    t == 48 || t == 52 || t == 54 || t == 74
}

/// Whether behavior `t` forbids leaving in `d`.
pub open spec fn blocks_leaving(d: Direction, t: u8) -> bool {
    match d {
        Direction::North => blocks_north(t),
        Direction::South => blocks_south(t),
        Direction::West => blocks_west(t),
        Direction::East => blocks_east(t),
    }
}

/// The behavior of a warp entrance facing a direction, and of a door.
pub open spec fn warp_entrance(d: Direction, here: u8) -> bool {
    match d {
        Direction::North => here == 100 || here == 101 || here == 99 || here == 98,
        Direction::South => here == 101 || here == 99 || here == 98,
        Direction::West => here == 99 || here == 98,
        Direction::East => here == 98,
    }
}

/// The ledge behavior that hops in `d`.
pub open spec fn ledge_behavior(d: Direction) -> u8 {
    match d {
        Direction::North => 58,
        Direction::South => 59,
        Direction::West => 57,
        Direction::East => 56,
    }
}

impl MapObject {
    /// Whether the tile lies outside the object's x/y range box around
    /// its initial tile (-1 = unbounded on that axis).
    pub open spec fn spec_out_of_range(self, x: i32, z: i32) -> bool {
        ||| (self.x_range != -1 && (x < self.initial[0] - self.x_range || x > self.initial[0]
            + self.x_range))
        ||| (self.y_range != -1 && (z < self.initial[2] - self.y_range || z > self.initial[2]
            + self.y_range))
    }

    /// Whether leaving in `direction` onto a tile with `target_behavior`
    /// is forbidden by the edge rules.
    pub open spec fn spec_edge_blocked(self, direction: Direction, target_behavior: u8) -> bool {
        if self.flags2 & 4 != 0 {
            false
        } else if target_behavior == BEHAVIOR_NONE {
            true
        } else {
            blocks_leaving(direction, (self.current_behavior & 0xFF) as u8) || blocks_leaving(
                dir_reverse(direction),
                target_behavior,
            )
        }
    }

    /// Whether the tile lies outside the object's x/y range box around
    /// its initial tile (-1 = unbounded on that axis).
    pub fn out_of_range(&self, x: i32, z: i32) -> (res: bool)
        ensures
            res == self.spec_out_of_range(x, z),
    {
        let ix = self.initial[0] as i64;
        let iz = self.initial[2] as i64;
        let rx = self.x_range as i64;
        let rz = self.y_range as i64;
        let outside_x = self.x_range != -1 && ((x as i64) < ix - rx || (x as i64) > ix + rx);
        let outside_z = self.y_range != -1 && ((z as i64) < iz - rz || (z as i64) > iz + rz);
        outside_x || outside_z
    }

    /// Whether the standing tile's behavior forbids leaving in
    /// `direction`, or the target's forbids entering from it, or the
    /// target has no behavior at all. Objects with `flags2` bit 2 skip
    /// the check.
    pub fn edge_blocked(&self, direction: Direction, target_behavior: u8) -> (res: bool)
        ensures
            res == self.spec_edge_blocked(direction, target_behavior),
    {
        if self.flags2 & 4 != 0 {
            return false;
        }
        if target_behavior == BEHAVIOR_NONE {
            return true;
        }
        let here = (self.current_behavior & 0xFF) as u8;
        let (leave, enter) = match direction {
            Direction::North => (
                here == 50 || here == 52 || here == 53 || here == 60 || here == 73,
                target_behavior == 51 || target_behavior == 54 || target_behavior == 55
                    || target_behavior == 61 || target_behavior == 73,
            ),
            Direction::South => (
                here == 51 || here == 54 || here == 55 || here == 61 || here == 73,
                target_behavior == 50 || target_behavior == 52 || target_behavior == 53
                    || target_behavior == 60 || target_behavior == 73,
            ),
            Direction::West => (
                here == 49 || here == 53 || here == 55 || here == 74,
                target_behavior == 48 || target_behavior == 52 || target_behavior == 54
                    || target_behavior == 74,
            ),
            Direction::East => (
                here == 48 || here == 52 || here == 54 || here == 74,
                target_behavior == 49 || target_behavior == 53 || target_behavior == 55
                    || target_behavior == 74,
            ),
        };
        leave || enter
    }
}

impl PlayerAvatar {
    /// The avatar as created.
    pub open spec fn spec_new(
        x: i32,
        z: i32,
        direction: Direction,
        state: PlayerState,
        gender: u32,
        sprite_id: u32,
        save: PlayerSaveData,
    ) -> PlayerAvatar {
        let o = MapObject::spec_create(x, z, direction, sprite_id, 1);
        let o2 = MapObject { id: OBJ_PLAYER, x_range: -1i32, y_range: -1i32, ..o };
        PlayerAvatar {
            flags: (0u32 & !avatar_flag::UNK2) | avatar_flag::UNK1,
            transition_flags: 0,
            last_command: 255,
            walk_toggle: false,
            move_state: AvatarMoveState::Standing,
            player_move_state: PlayerMoveState::Idle,
            state,
            gender,
            bike_gear: 0,
            held_horizontal: None,
            held_vertical: None,
            object: o2.set(flag::UNK13 | flag::KEEP).cleared(flag::UNK8 | flag::FACING_LOCKED).set(
                flag::UNK29,
            ),
            save,
            steps_walked: 0,
        }
    }

    /// The avatar at tile `(x, z)` facing `direction`. Movement never
    /// reads `sprite_id`.
    pub fn new(
        x: i32,
        z: i32,
        direction: Direction,
        state: PlayerState,
        gender: u32,
        sprite_id: u32,
        save: PlayerSaveData,
    ) -> (res: Self)
        requires
            tile_fits(x, 0, z),
        ensures
            res == Self::spec_new(x, z, direction, state, gender, sprite_id, save),
    {
        let mut object = MapObject::create(x, z, direction, sprite_id, 1);
        object.id = OBJ_PLAYER;
        object.x_range = -1;
        object.y_range = -1;
        object.set_flags(flag::UNK13 | flag::KEEP);
        object.clear_flags(flag::UNK8 | flag::FACING_LOCKED);
        object.set_flags(flag::UNK29);
        let mut avatar = PlayerAvatar {
            flags: 0,
            transition_flags: 0,
            last_command: 255,
            walk_toggle: false,
            move_state: AvatarMoveState::Standing,
            player_move_state: PlayerMoveState::Idle,
            state,
            gender,
            bike_gear: 0,
            held_horizontal: None,
            held_vertical: None,
            object,
            save,
            steps_walked: 0,
        };
        avatar.clear_gear_and_flag2();
        avatar.set_flag(avatar_flag::UNK1, true);
        avatar
    }

    /// The facing.
    pub fn facing(&self) -> (res: Direction)
        ensures
            res == self.object.current_facing,
    {
        self.object.current_facing
    }

    /// The tile x.
    pub fn x(&self) -> (res: i32)
        ensures
            res == self.object.current[0],
    {
        self.object.current[0]
    }

    /// The tile z.
    pub fn z(&self) -> (res: i32)
        ensures
            res == self.object.current[2],
    {
        self.object.current[2]
    }

    /// The avatar with flag `bit` set or cleared.
    pub open spec fn flagged(self, bit: u32, set: bool) -> PlayerAvatar {
        PlayerAvatar {
            flags: if set {
                self.flags | bit
            } else {
                self.flags & !bit
            },
            ..self
        }
    }

    /// Sets or clears flag `bit`.
    pub fn set_flag(&mut self, bit: u32, set: bool)
        ensures
            *final(self) == old(self).flagged(bit, set),
    {
        if set {
            self.flags = self.flags | bit;
        } else {
            self.flags = self.flags & !bit;
        }
    }

    /// Whether `bit` is set.
    pub fn has_flag(&self, bit: u32) -> (res: bool)
        ensures
            res == (self.flags & bit != 0),
    {
        self.flags & bit != 0
    }

    /// Clears the bike gear and its latch flag.
    pub fn clear_gear_and_flag2(&mut self)
        ensures
            *final(self) == (PlayerAvatar { bike_gear: 0, ..*old(self) }).flagged(
                avatar_flag::UNK2,
                false,
            ),
    {
        self.bike_gear = 0;
        self.set_flag(avatar_flag::UNK2, false);
    }

    /// The terrain-forced movement kind (ice sliding); no such terrain
    /// exists here, so always 0, "no forced movement".
    pub fn forced_movement_kind(&self) -> (res: u32)
        ensures
            res == 0,
    {
        0
    }

    /// The avatar after deriving this frame's phase.
    pub open spec fn after_update_movement(self) -> PlayerAvatar {
        let previous = self.player_move_state;
        let idle = PlayerAvatar { player_move_state: PlayerMoveState::Idle, ..self };
        if !self.object.spec_ready() {
            match self.move_state {
                AvatarMoveState::Standing => idle,
                AvatarMoveState::Moving => if bump_value(cmd_value(self.object.movement_cmd)) {
                    idle
                } else if previous == PlayerMoveState::Idle || previous == PlayerMoveState::End {
                    PlayerAvatar { player_move_state: PlayerMoveState::Start, ..self }
                } else {
                    PlayerAvatar { player_move_state: PlayerMoveState::Moving, ..self }
                },
                AvatarMoveState::Turning => PlayerAvatar {
                    player_move_state: PlayerMoveState::Moving,
                    ..self
                },
            }
        } else if self.object.spec_idle() && self.move_state != AvatarMoveState::Standing
            && previous != PlayerMoveState::Idle {
            if previous == PlayerMoveState::End {
                idle
            } else {
                PlayerAvatar { player_move_state: PlayerMoveState::End, ..self }
            }
        } else {
            idle
        }
    }

    /// Derives this frame's phase from the object's held-movement flags
    /// as the previous frame's tick left them: a move in progress is at
    /// its start or moving (bumps report nothing), a finished one is at
    /// its end for one frame. Runs first in the frame.
    pub fn update_movement(&mut self)
        ensures
            *final(self) == old(self).after_update_movement(),
    {
        let move_state = self.move_state;
        let previous = self.player_move_state;
        self.player_move_state = PlayerMoveState::Idle;
        let forced = self.forced_movement_kind();
        if forced != 0 && forced != 2 {
            self.player_move_state = PlayerMoveState::Moving;
            return;
        }
        if !self.object.ready_for_movement() {
            match move_state {
                AvatarMoveState::Standing => {},
                AvatarMoveState::Moving => {
                    if self.object.movement_cmd.is_bump() {
                        return;
                    }
                    self.player_move_state = if previous == PlayerMoveState::Idle || previous
                        == PlayerMoveState::End {
                        PlayerMoveState::Start
                    } else {
                        PlayerMoveState::Moving
                    };
                },
                AvatarMoveState::Turning => self.player_move_state = PlayerMoveState::Moving,
            }
            return;
        }
        if self.object.is_movement_idle() {
            match move_state {
                AvatarMoveState::Standing => {},
                AvatarMoveState::Moving | AvatarMoveState::Turning => {
                    if previous == PlayerMoveState::Idle {
                        return;
                    }
                    self.player_move_state = if previous == PlayerMoveState::End {
                        PlayerMoveState::Idle
                    } else {
                        PlayerMoveState::End
                    };
                },
            }
        }
    }

    /// The avatar after remembering and loading `command`.
    pub open spec fn holding(self, command: MovementCmd) -> PlayerAvatar {
        PlayerAvatar {
            last_command: cmd_value(command),
            object: self.object.holding(command),
            ..self
        }
    }

    /// Remembers and loads `command`.
    fn hold(&mut self, command: MovementCmd)
        requires
            cmd_value(command) < MOVEMENT_CMD_COUNT,
        ensures
            *final(self) == old(self).holding(command),
    {
        self.last_command = command.as_u8();
        let r = self.object.set_held_movement(command);
    }

    /// The tile ahead in `direction`.
    pub open spec fn ahead(self, direction: Direction) -> (i32, i32) {
        (
            self.object.current[0].wrapping_add(dir_dx(direction)),
            self.object.current[2].wrapping_add(dir_dz(direction)),
        )
    }

    /// The raw probe bits of the tile ahead.
    pub open spec fn spec_probe<C: Collision>(self, direction: Direction, terrain: &C) -> u32 {
        let (tx, tz) = self.ahead(direction);
        let a = terrain.spec_attr(tx, tz);
        let range: u32 = if self.object.spec_out_of_range(tx, tz) {
            1
        } else {
            0
        };
        let wall: u32 = if a & 0x8000 != 0 || self.object.spec_edge_blocked(
            direction,
            (a & 0xFF) as u8,
        ) {
            2
        } else {
            0
        };
        range | wall
    }

    /// The raw probe of the tile ahead: bit 0 the range box, bit 1 an
    /// impassable attribute or the edge rules. Bit 2, another object,
    /// is never set: no other objects are tracked.
    pub fn collision_probe<C: Collision>(&self, direction: Direction, terrain: &C) -> (res: u32)
        ensures
            res == self.spec_probe(direction, terrain),
    {
        let tx = self.x().wrapping_add(direction.delta_x());
        let tz = self.z().wrapping_add(direction.delta_z());
        let range: u32 = if self.object.out_of_range(tx, tz) {
            1
        } else {
            0
        };
        let blocked = terrain.impassable(tx, tz);
        let edge = self.object.edge_blocked(direction, terrain.behavior(tx, tz));
        let wall: u32 = if blocked || edge {
            2
        } else {
            0
        };
        range | wall
    }

    /// Whether the avatar stands on a warp entrance it leaves through,
    /// or faces a door.
    pub open spec fn spec_warp_or_door<C: Collision>(
        self,
        direction: Direction,
        terrain: &C,
    ) -> bool {
        let here = (self.object.current_behavior & 0xFF) as u8;
        let (tx, tz) = self.ahead(direction);
        warp_entrance(direction, here) || (terrain.spec_attr(tx, tz) & 0xFF) as u8 == 105
    }

    /// Whether the avatar stands on a warp entrance (north tests all
    /// four, south three, west two, east one) or faces a door.
    pub fn facing_warp_or_door<C: Collision>(&self, direction: Direction, terrain: &C) -> (res:
        bool)
        ensures
            res == self.spec_warp_or_door(direction, terrain),
    {
        let here = (self.object.current_behavior & 0xFF) as u8;
        let entrance = match direction {
            Direction::North => here == 100 || here == 101 || here == 99 || here == 98,
            Direction::South => here == 101 || here == 99 || here == 98,
            Direction::West => here == 99 || here == 98,
            Direction::East => here == 98,
        };
        if entrance {
            return true;
        }
        let tx = self.x().wrapping_add(direction.delta_x());
        let tz = self.z().wrapping_add(direction.delta_z());
        terrain.behavior(tx, tz) == 105
    }

    /// Whether the tile ahead is the ledge that hops in `direction`.
    pub open spec fn spec_ledge<C: Collision>(self, direction: Direction, terrain: &C) -> bool {
        let (tx, tz) = self.ahead(direction);
        (terrain.spec_attr(tx, tz) & 0xFF) as u8 == ledge_behavior(direction)
    }

    /// Whether the tile ahead is the ledge that hops in `direction`.
    pub fn ledge_ahead<C: Collision>(&self, direction: Direction, terrain: &C) -> (res: bool)
        ensures
            res == self.spec_ledge(direction, terrain),
    {
        let tx = self.x().wrapping_add(direction.delta_x());
        let tz = self.z().wrapping_add(direction.delta_z());
        let ahead = terrain.behavior(tx, tz);
        ahead == match direction {
            Direction::North => 58u8,
            Direction::South => 59u8,
            Direction::West => 57u8,
            Direction::East => 56u8,
        }
    }

    /// Whether the tile ahead is water the avatar cannot walk onto.
    pub open spec fn spec_water<C: Collision>(self, direction: Direction, terrain: &C) -> bool {
        let (tx, tz) = self.ahead(direction);
        let ahead = (terrain.spec_attr(tx, tz) & 0xFF) as u8;
        ||| (ahead == 115 && !self.object.has(0x10000000))
        ||| terrain.spec_surfable(tx, tz)
        ||| (ahead == 34 && 0xB2 <= self.object.sprite_id <= 0xB3)
    }

    /// Whether the tile ahead is water the avatar cannot walk onto:
    /// behavior 115 unless the object's bit 28 is set, any surfable
    /// water, or behavior 34 for the two fishing sprites (0xB2, 0xB3).
    pub fn water_ahead<C: Collision>(&self, direction: Direction, terrain: &C) -> (res: bool)
        ensures
            res == self.spec_water(direction, terrain),
    {
        let tx = self.x().wrapping_add(direction.delta_x());
        let tz = self.z().wrapping_add(direction.delta_z());
        let ahead = terrain.behavior(tx, tz);
        if ahead == 115 && !self.object.test_flags(0x10000000) {
            return true;
        }
        if terrain.surfable(tx, tz) {
            return true;
        }
        ahead == 34 && 0xB2 <= self.object.sprite_id && self.object.sprite_id <= 0xB3
    }

    /// The collision bits of a step in `direction`.
    pub open spec fn spec_collision<C: Collision>(self, direction: Direction, terrain: &C) -> u32 {
        let raw = self.spec_probe(direction, terrain);
        let blocked: u32 = if raw & 0xA != 0 {
            if self.spec_warp_or_door(direction, terrain) {
                collide::BLOCKED | collide::DOOR
            } else {
                collide::BLOCKED
            }
        } else {
            0
        };
        let object: u32 = if raw & 4 != 0 {
            collide::OBJECT
        } else {
            0
        };
        let ledge: u32 = if self.spec_ledge(direction, terrain) {
            collide::LEDGE
        } else {
            0
        };
        let water: u32 = if self.spec_water(direction, terrain) {
            collide::WATER
        } else {
            0
        };
        blocked | object | ledge | water
    }

    /// The collision aggregate for a step in `direction`: [`collide`]
    /// bits, 0 meaning free.
    pub fn check_collision<C: Collision>(&self, direction: Direction, terrain: &C) -> (res: u32)
        ensures
            res == self.spec_collision(direction, terrain),
    {
        let raw = self.collision_probe(direction, terrain);
        let blocked: u32 = if raw & 0xA != 0 {
            if self.facing_warp_or_door(direction, terrain) {
                collide::BLOCKED | collide::DOOR
            } else {
                collide::BLOCKED
            }
        } else {
            0
        };
        let object: u32 = if raw & 4 != 0 {
            collide::OBJECT
        } else {
            0
        };
        let ledge: u32 = if self.ledge_ahead(direction, terrain) {
            collide::LEDGE
        } else {
            0
        };
        let water: u32 = if self.water_ahead(direction, terrain) {
            collide::WATER
        } else {
            0
        };
        blocked | object | ledge | water
    }

    /// Whether a new command may start now.
    pub open spec fn spec_can_accept<C: Collision>(
        self,
        direction: Option<Direction>,
        terrain: &C,
    ) -> bool {
        ||| self.object.spec_ready()
        ||| (direction is Some && bump_value(cmd_value(self.object.movement_cmd)) && {
            let bits = self.spec_collision(direction->0, terrain);
            bits == 0 || (bits == collide::WATER && self.state == PlayerState::Surfing)
        })
    }

    /// Whether a new command may start now: yes when the object is
    /// idle; during a bump, yes if the way the pad asks for has become
    /// free (or is water while surfing); otherwise no.
    pub fn can_accept<C: Collision>(&self, direction: Option<Direction>, terrain: &C) -> (res:
        bool)
        ensures
            res == self.spec_can_accept(direction, terrain),
    {
        if self.object.ready_for_movement() {
            return true;
        }
        let direction = match direction {
            Some(d) => d,
            None => return false,
        };
        if !self.object.movement_cmd.is_bump() {
            return false;
        }
        let bits = self.check_collision(direction, terrain);
        bits == 0 || (bits == collide::WATER && self.state == PlayerState::Surfing)
    }

    /// The turn-versus-walk rule: the decision (0 stand, 1 walk, 2
    /// turn) and the avatar with its move state set.
    pub open spec fn spec_decide(self, direction: Option<Direction>) -> (PlayerAvatar, u32) {
        match direction {
            None => (PlayerAvatar { move_state: AvatarMoveState::Standing, ..self }, 0),
            Some(d) => if self.object.current_facing != d && self.move_state
                != AvatarMoveState::Moving {
                (PlayerAvatar { move_state: AvatarMoveState::Turning, ..self }, 2)
            } else {
                (PlayerAvatar { move_state: AvatarMoveState::Moving, ..self }, 1)
            },
        }
    }

    /// The turn-versus-walk rule. No direction: stand (0). A direction
    /// other than the facing while not already walking: turn first (2).
    /// Otherwise walk (1), including a direction change while walking,
    /// which turns and steps in one command. Sets the move state
    /// accordingly.
    pub fn decide(&mut self, direction: Option<Direction>) -> (res: u32)
        ensures
            (*final(self), res) == old(self).spec_decide(direction),
    {
        let direction = match direction {
            Some(d) => d,
            None => {
                self.move_state = AvatarMoveState::Standing;
                return 0;
            },
        };
        if self.facing() != direction && self.move_state != AvatarMoveState::Moving {
            self.move_state = AvatarMoveState::Turning;
            return 2;
        }
        self.move_state = AvatarMoveState::Moving;
        1
    }

    /// The command of `fam` for `d`, for a family whose row runs North,
    /// South, West, East.
    fn family_command(fam: u8, d: Direction) -> (res: MovementCmd)
        requires
            fam == family::FACE || fam == family::WALK_ON_SPOT_FASTEST || fam == family::JUMP_2
                || fam == family::WALK_ON_SPOT_SLOWER || fam == family::RUN || fam
                == family::WALK_NORMAL,
        ensures
            res == family_cmd(fam, d),
            cmd_value(res) == fam + dir_index(d),
            cmd_value(res) < MOVEMENT_CMD_COUNT,
    {
        match MovementCmd::for_direction(fam, d) {
            Some(c) => {
                proof {
                    lemma_cmd_value_injective(c, family_cmd(fam, d));
                }
                c
            },
            None => {
                proof {
                    assert(false);
                }
                MovementCmd::FaceNorth
            },
        }
    }

    /// Standing: face the current way.
    pub open spec fn after_stand(self) -> (PlayerAvatar, MoveOutcome) {
        (
            self.holding(family_cmd(family::FACE, self.object.current_facing)),
            MoveOutcome::Idle,
        )
    }

    fn stand(&mut self) -> (res: MoveOutcome)
        ensures
            (*final(self), res) == old(self).after_stand(),
    {
        let cmd = Self::family_command(family::FACE, self.facing());
        self.hold(cmd);
        MoveOutcome::Idle
    }

    /// Turning in place: the command, the queued facing, and the walk
    /// toggle reset and flipped.
    pub open spec fn after_turn(self, d: Direction) -> (PlayerAvatar, MoveOutcome) {
        let a = self.holding(family_cmd(family::WALK_ON_SPOT_FASTEST, d));
        (
            PlayerAvatar { object: a.object.queued(d), walk_toggle: true, ..a },
            MoveOutcome::Turn(d),
        )
    }

    fn turn(&mut self, direction: Direction) -> (res: MoveOutcome)
        ensures
            (*final(self), res) == old(self).after_turn(direction),
    {
        let cmd = Self::family_command(family::WALK_ON_SPOT_FASTEST, direction);
        self.hold(cmd);
        self.object.set_next_facing_direction(direction);
        self.walk_toggle = false;
        self.walk_toggle = !self.walk_toggle;
        MoveOutcome::Turn(direction)
    }

    /// A step: a ledge ahead hops it; anything else in the way bumps and
    /// queues the facing; a free tile walks or, with running shoes and
    /// B held, runs, counting a step and flagging it.
    pub open spec fn after_walk<C: Collision>(
        self,
        d: Direction,
        held: Keys,
        terrain: &C,
    ) -> (PlayerAvatar, MoveOutcome) {
        let bits = self.spec_collision(d, terrain);
        if bits & collide::LEDGE != 0 {
            (self.holding(family_cmd(family::JUMP_2, d)), MoveOutcome::Jump(d))
        } else if bits != 0 {
            let a = PlayerAvatar { object: self.object.queued(d), ..self };
            (a.holding(family_cmd(family::WALK_ON_SPOT_SLOWER, d)), MoveOutcome::Bump(d))
        } else {
            let running = self.save.has_running_shoes && held.0 & key::B != 0;
            let a = PlayerAvatar {
                steps_walked: self.steps_walked.wrapping_add(1),
                ..self
            }.flagged(avatar_flag::UNK6, true);
            if running {
                (a.holding(family_cmd(family::RUN, d)), MoveOutcome::Run(d))
            } else {
                (a.holding(family_cmd(family::WALK_NORMAL, d)), MoveOutcome::Walk(d))
            }
        }
    }

    fn walk<C: Collision>(&mut self, direction: Direction, held: Keys, terrain: &C) -> (res:
        MoveOutcome)
        ensures
            (*final(self), res) == old(self).after_walk(direction, held, terrain),
    {
        let bits = self.check_collision(direction, terrain);
        let (fam, outcome) = if bits & collide::LEDGE != 0 {
            (family::JUMP_2, MoveOutcome::Jump(direction))
        } else if bits != 0 {
            self.object.set_next_facing_direction(direction);
            (family::WALK_ON_SPOT_SLOWER, MoveOutcome::Bump(direction))
        } else {
            let running = self.save.has_running_shoes && held.any(key::B);
            let fam = if running {
                family::RUN
            } else {
                family::WALK_NORMAL
            };
            self.steps_walked = self.steps_walked.wrapping_add(1);
            self.set_flag(avatar_flag::UNK6, true);
            let outcome = if running {
                MoveOutcome::Run(direction)
            } else {
                MoveOutcome::Walk(direction)
            };
            (fam, outcome)
        };
        let cmd = Self::family_command(fam, direction);
        self.hold(cmd);
        outcome
    }

    /// The walking-state control: decide, then stand, walk or turn.
    pub open spec fn after_walking_control<C: Collision>(
        self,
        direction: Option<Direction>,
        held: Keys,
        terrain: &C,
    ) -> (PlayerAvatar, MoveOutcome) {
        let (a, decision) = self.spec_decide(direction);
        if decision == 0 {
            a.after_stand()
        } else if decision == 1 {
            a.after_walk(direction->0, held, terrain)
        } else {
            a.after_turn(direction->0)
        }
    }

    fn walking_control<C: Collision>(
        &mut self,
        direction: Option<Direction>,
        held: Keys,
        terrain: &C,
    ) -> (res: MoveOutcome)
        ensures
            (*final(self), res) == old(self).after_walking_control(direction, held, terrain),
    {
        let decision = self.decide(direction);
        match direction {
            None => self.stand(),
            Some(d) => if decision == 1 {
                self.walk(d, held, terrain)
            } else {
                self.turn(d)
            },
        }
    }

    /// One frame's movement control on a digest.
    pub open spec fn after_move_control<C: Collision>(
        self,
        input: FieldInput,
        terrain: &C,
    ) -> (PlayerAvatar, MoveOutcome) {
        let held = input.held_keys;
        let direction = spec_direction_from_keys(self, held);
        if !self.spec_can_accept(direction, terrain) {
            (self, MoveOutcome::Busy)
        } else {
            let a = PlayerAvatar {
                held_horizontal: spec_horizontal(held),
                held_vertical: spec_vertical(held),
                transition_flags: 0,
                ..self.flagged(avatar_flag::UNK6, false)
            };
            if a.state == PlayerState::Walking {
                let (b, out) = a.spec_decide(direction).0.after_walking_control(
                    direction,
                    held,
                    terrain,
                );
                if b.flags & avatar_flag::UNK6 != 0 && b.move_state == AvatarMoveState::Moving {
                    (b.flagged(avatar_flag::UNK1, false), out)
                } else {
                    (b, out)
                }
            } else {
                (a, MoveOutcome::Unsupported)
            }
        }
    }

    /// The movement control for the walking state. The direction comes
    /// from the held pad; if the object cannot take a command the frame
    /// is [`MoveOutcome::Busy`]. Otherwise the pad components are
    /// recorded, the transition flags cleared, and the walking control
    /// runs; a step issued while moving clears the creation flag.
    /// Other player states are [`MoveOutcome::Unsupported`].
    pub fn move_control<C: Collision>(&mut self, input: &FieldInput, terrain: &C) -> (res:
        MoveOutcome)
        ensures
            (*final(self), res) == old(self).after_move_control(*input, terrain),
    {
        let held = input.held_keys;
        let direction = direction_from_keys(self, input.new_keys, held);
        if !self.can_accept(direction, terrain) {
            return MoveOutcome::Busy;
        }
        self.held_horizontal = horizontal(held);
        self.held_vertical = vertical(held);
        self.set_flag(avatar_flag::UNK6, false);
        self.transition_flags = 0;
        if self.forced_movement_kind() == 1 {
            return MoveOutcome::Unsupported;
        }
        let outcome = match self.state {
            PlayerState::Walking => {
                self.decide(direction);
                self.walking_control(direction, held, terrain)
            },
            _ => return MoveOutcome::Unsupported,
        };
        if self.has_flag(avatar_flag::UNK6) && self.move_state == AvatarMoveState::Moving {
            self.set_flag(avatar_flag::UNK1, false);
        }
        outcome
    }

    /// One field frame of player movement: the phase, the digest, the
    /// control and the object tick, in that order. Events and menus
    /// that the digest raises are the field system's to run.
    pub fn run_frame<C: Collision>(
        &mut self,
        new_keys: Keys,
        held_keys: Keys,
        terrain: &C,
        ctx: FieldInputContext,
        last_touch_menu_input: &mut u16,
    ) -> (res: FrameReport)
        ensures
            ({
                let a1 = old(self).after_update_movement();
                let (input, latch) = spec_field_input(
                    a1,
                    *old(last_touch_menu_input),
                    new_keys,
                    held_keys,
                    ctx,
                );
                let (a2, outcome) = a1.after_move_control(input, terrain);
                let (o, tick) = a2.object.spec_tick(terrain);
                &&& *final(self) == (PlayerAvatar { object: o, ..a2 })
                &&& *final(last_touch_menu_input) == latch
                &&& res == FrameReport { input, outcome, tick }
            }),
    {
        self.update_movement();
        let input = FieldInput::update(self, last_touch_menu_input, new_keys, held_keys, ctx);
        let outcome = self.move_control(&input, terrain);
        let tick = self.object.tick(terrain);
        FrameReport { input, outcome, tick }
    }
}

/// The ledge bit of the collision bits of a step in `d` is set exactly
/// when the tile ahead is the ledge that hops in `d`.
proof fn lemma_ledge_bit_dir<C: Collision>(a: PlayerAvatar, d: Direction, terrain: &C)
    ensures
        (a.spec_collision(d, terrain) & 0x4u32) != 0 <==> a.spec_ledge(d, terrain),
{
    let raw = a.spec_probe(d, terrain);
    let bl: u32 = if raw & 0xA != 0 {
        if a.spec_warp_or_door(d, terrain) {
            collide::BLOCKED | collide::DOOR
        } else {
            collide::BLOCKED
        }
    } else {
        0
    };
    let ob: u32 = if raw & 4 != 0 {
        collide::OBJECT
    } else {
        0
    };
    let le: u32 = if a.spec_ledge(d, terrain) {
        collide::LEDGE
    } else {
        0
    };
    let wa: u32 = if a.spec_water(d, terrain) {
        collide::WATER
    } else {
        0
    };
    assert(a.spec_collision(d, terrain) == bl | ob | le | wa);
    assert((bl == 0 || bl == 1u32 || bl == (1u32 | 8u32)) && (ob == 0 || ob == 2) && (le == 0 || le == 4) && (wa == 0
        || wa == 0x20) ==> (((bl | ob | le | wa) & 0x4u32) != 0 <==> le != 0)) by (bit_vector);
}

/// The ledge bit of a step's collision bits is set exactly when the
/// tile ahead is the ledge that hops that way: behavior 56 on the tile
/// east of the avatar, 57 west, 58 north and 59 south.
pub proof fn lemma_ledge_bit<C: Collision>(a: PlayerAvatar, terrain: &C)
    ensures
        ({
            let x = a.object.current[0];
            let z = a.object.current[2];
            let ledge = |d: Direction| (a.spec_collision(d, terrain) & 0x4u32) != 0;
            &&& ledge(Direction::East) <==> (terrain.spec_attr(x.wrapping_add(1i32), z) & 0xFF) as u8 == 56u8
            &&& ledge(Direction::West) <==> (terrain.spec_attr(x.wrapping_add(-1i32), z) & 0xFF) as u8 == 57u8
            &&& ledge(Direction::North) <==> (terrain.spec_attr(x, z.wrapping_add(-1i32)) & 0xFF) as u8 == 58u8
            &&& ledge(Direction::South) <==> (terrain.spec_attr(x, z.wrapping_add(1i32)) & 0xFF) as u8 == 59u8
        }),
{
    lemma_ledge_bit_dir(a, Direction::East, terrain);
    lemma_ledge_bit_dir(a, Direction::West, terrain);
    lemma_ledge_bit_dir(a, Direction::North, terrain);
    lemma_ledge_bit_dir(a, Direction::South, terrain);
    assert(a.object.current[0].wrapping_add(0i32) == a.object.current[0]);
    assert(a.object.current[2].wrapping_add(0i32) == a.object.current[2]);
}

/// A step hops exactly when the ledge bit is set, and hops the way the
/// avatar walks; otherwise a step that collides bumps in place and a
/// free one walks or runs that way.
pub proof fn lemma_step_outcome<C: Collision>(a: PlayerAvatar, d: Direction, held: Keys, terrain: &C)
    ensures
        ({
            let bits = a.spec_collision(d, terrain);
            let out = a.after_walk(d, held, terrain).1;
            &&& (bits & 0x4u32) != 0 ==> out == MoveOutcome::Jump(d)
            &&& (bits & 0x4u32) == 0 && bits != 0 ==> out == MoveOutcome::Bump(d)
            &&& bits == 0 ==> (out == MoveOutcome::Walk(d) || out == MoveOutcome::Run(d))
        }),
{
    let bits = a.spec_collision(d, terrain);
    assert(bits == 0 ==> bits & 0x4u32 == 0) by (bit_vector);
}

} // verus!
