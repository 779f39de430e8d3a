//! The per-frame field input digest: the raw pad state turned into the
//! flags the field event dispatcher reads, and the direction the pad
//! asks for.
//!
//! The digest runs once per frame, after the avatar's movement phase
//! is derived and before the movement control.

use vstd::prelude::*;

use super::avatar::{AvatarMoveState, PlayerAvatar, PlayerMoveState};
use super::map_object::Direction;
use crate::input::Keys;
use crate::input::key;

verus! {

/// The four direction keys.
pub const PLUS_KEY_MASK: u16 = key::UP | key::DOWN | key::LEFT | key::RIGHT;

/// The horizontal component of a pad word: LEFT wins over RIGHT.
pub open spec fn spec_horizontal(held: Keys) -> Option<Direction> {
    if held.0 & key::LEFT != 0 {
        Some(Direction::West)
    } else if held.0 & key::RIGHT != 0 {
        Some(Direction::East)
    } else {
        None
    }
}

/// The vertical component of a pad word: UP wins over DOWN.
pub open spec fn spec_vertical(held: Keys) -> Option<Direction> {
    if held.0 & key::UP != 0 {
        Some(Direction::North)
    } else if held.0 & key::DOWN != 0 {
        Some(Direction::South)
    } else {
        None
    }
}

/// The horizontal component of a pad word: LEFT wins over RIGHT.
pub fn horizontal(held: Keys) -> (res: Option<Direction>)
    ensures
        res == spec_horizontal(held),
{
    if held.any(key::LEFT) {
        Some(Direction::West)
    } else if held.any(key::RIGHT) {
        Some(Direction::East)
    } else {
        None
    }
}

/// The vertical component of a pad word: UP wins over DOWN.
pub fn vertical(held: Keys) -> (res: Option<Direction>)
    ensures
        res == spec_vertical(held),
{
    if held.any(key::UP) {
        Some(Direction::North)
    } else if held.any(key::DOWN) {
        Some(Direction::South)
    } else {
        None
    }
}

/// The direction the held pad asks for of an avatar.
pub open spec fn spec_direction_from_keys(avatar: PlayerAvatar, held: Keys) -> Option<
    Direction,
> {
    let x = spec_horizontal(held);
    let y = spec_vertical(held);
    if x is None {
        y
    } else if y is None {
        x
    } else if x == avatar.held_horizontal && y == avatar.held_vertical {
        Some(avatar.object.next_facing)
    } else if y == avatar.held_vertical {
        x
    } else {
        y
    }
}

/// The direction the held pad asks for. One axis held gives that
/// axis. Both held resolves against the components the avatar recorded
/// at its last accepted movement control, and its queued facing:
///
/// * the same diagonal as last time keeps the queued facing;
/// * a vertical that was already held makes the horizontal the new
///   (winning) axis; otherwise the vertical is the new one.
///
/// `new_keys` is not read.
pub fn direction_from_keys(avatar: &PlayerAvatar, new_keys: Keys, held: Keys) -> (res: Option<
    Direction,
>)
    ensures
        res == spec_direction_from_keys(*avatar, held),
{
    let x = horizontal(held);
    let y = vertical(held);
    let x = match x {
        Some(x) => x,
        None => return y,
    };
    let y = match y {
        Some(y) => y,
        None => return Some(x),
    };
    let next = avatar.object.next_facing;
    let same_x = match avatar.held_horizontal {
        Some(h) => h == x,
        None => false,
    };
    let same_y = match avatar.held_vertical {
        Some(v) => v == y,
        None => false,
    };
    if same_x && same_y {
        return Some(next);
    }
    if same_y {
        Some(x)
    } else {
        Some(y)
    }
}

/// What the digest reads off the field system besides the avatar:
/// facts other systems own.
#[derive(Debug, Clone, Copy, PartialEq, Eq, Default)]
pub struct FieldInputContext {
    /// The start menu (and the Y-item shortcut) is available.
    pub bag_icon_shown: bool,
    /// A registered item may be used now.
    pub registered_item_usable: bool,
    /// X opens the menu directly (the touch menu is in its
    /// button-driven state).
    pub x_menu_direct: bool,
}

/// One frame's digest.
#[derive(Debug, Clone, Copy, PartialEq, Eq, Default)]
pub struct FieldInput {
    /// A was pressed while standing.
    pub interact: bool,
    /// The avatar's move ended this frame.
    pub end_movement: bool,
    /// Open the start menu.
    pub menu: bool,
    /// 0 none, 1 the Y slot, 2 the second slot.
    pub registered_item: u8,
    /// A direction is held while standing (signpost check).
    pub sign: bool,
    /// A direction is held while standing.
    pub map_transition: bool,
    /// A walking step completed this frame.
    pub movement: bool,
    /// The avatar was standing this frame.
    pub standing: bool,
    /// The touch menu asked for the button menu.
    pub touch_menu: bool,
    /// The direction the pad asks for.
    pub player_dir: Option<Direction>,
    /// The facing, if the pad holds that same way.
    pub transition_dir: Option<Direction>,
    /// Buttons newly pressed this frame.
    pub new_keys: Keys,
    /// Buttons held (B forced on while running shoes are locked).
    pub held_keys: Keys,
}

/// The key of a direction.
pub open spec fn facing_key(d: Direction) -> u16 {
    match d {
        Direction::North => key::UP,
        Direction::South => key::DOWN,
        Direction::West => key::LEFT,
        Direction::East => key::RIGHT,
    }
}

/// The digest's shortcut part while standing: the registered-item,
/// touch-menu, menu and interact flags, and the latch after.
pub open spec fn standing_shortcuts(
    latch: u16,
    new_keys: Keys,
    ctx: FieldInputContext,
) -> (u8, bool, bool, bool, u16) {
    // (registered_item, touch_menu, menu, interact, latch)
    if (ctx.bag_icon_shown && new_keys.0 & key::Y != 0) || latch == 9 {
        if ctx.registered_item_usable {
            (1, false, false, false, 0)
        } else {
            (0, false, false, false, latch)
        }
    } else if latch == 10 {
        if ctx.registered_item_usable {
            (2, false, false, false, 0)
        } else {
            (0, false, false, false, latch)
        }
    } else if latch == 11 {
        (0, true, false, false, 0)
    } else if new_keys.0 & key::X != 0 || latch != 0 {
        if ctx.x_menu_direct {
            (0, true, true, false, latch)
        } else if ctx.bag_icon_shown {
            (0, false, true, false, if latch == 1 { 0 } else { latch })
        } else {
            (0, false, false, false, latch)
        }
    } else if new_keys.0 & key::A != 0 {
        (0, false, false, true, latch)
    } else {
        (0, false, false, false, latch)
    }
}

/// The digest of one frame, and the touch-menu latch after it.
pub open spec fn spec_field_input(
    avatar: PlayerAvatar,
    latch: u16,
    new_keys: Keys,
    held_keys: Keys,
    ctx: FieldInputContext,
) -> (FieldInput, u16) {
    let held = if avatar.save.running_shoes_lock {
        Keys(held_keys.0 | key::B)
    } else {
        held_keys
    };
    let ms = avatar.player_move_state;
    let standing = ms == PlayerMoveState::End || ms == PlayerMoveState::Idle;
    let (item, touch, menu, interact, latch2) = if standing {
        standing_shortcuts(latch, new_keys, ctx)
    } else {
        (0u8, false, false, false, 0u16)
    };
    let dir_held = standing && held.0 & PLUS_KEY_MASK != 0;
    let facing = avatar.object.current_facing;
    (
        FieldInput {
            interact,
            end_movement: ms == PlayerMoveState::End,
            menu,
            registered_item: item,
            sign: dir_held,
            map_transition: dir_held,
            movement: ms == PlayerMoveState::End && avatar.move_state == AvatarMoveState::Moving,
            standing,
            touch_menu: touch,
            player_dir: spec_direction_from_keys(avatar, held),
            transition_dir: if held.0 & facing_key(facing) != 0 {
                Some(facing)
            } else {
                None
            },
            new_keys,
            held_keys: held,
        },
        latch2,
    )
}

impl FieldInput {
    /// One frame's digest. `last_touch_menu_input` is the field
    /// system's touch-screen shortcut latch, which the digest both
    /// reads and clears.
    pub fn update(
        avatar: &PlayerAvatar,
        last_touch_menu_input: &mut u16,
        new_keys: Keys,
        held_keys: Keys,
        ctx: FieldInputContext,
    ) -> (res: Self)
        ensures
            (res, *final(last_touch_menu_input)) == spec_field_input(
                *avatar,
                *old(last_touch_menu_input),
                new_keys,
                held_keys,
                ctx,
            ),
    {
        let mut held_keys = held_keys;
        let mut input = FieldInput {
            interact: false,
            end_movement: false,
            menu: false,
            registered_item: 0,
            sign: false,
            map_transition: false,
            movement: false,
            standing: false,
            touch_menu: false,
            player_dir: None,
            transition_dir: None,
            new_keys: Keys(0),
            held_keys: Keys(0),
        };
        if avatar.save.running_shoes_lock {
            held_keys = Keys(held_keys.0 | key::B);
        }
        let move_state = avatar.player_move_state;
        let avatar_move_state = avatar.move_state;
        let facing = avatar.facing();
        input.new_keys = new_keys;
        input.held_keys = held_keys;

        if move_state == PlayerMoveState::End || move_state == PlayerMoveState::Idle {
            if (ctx.bag_icon_shown && new_keys.any(key::Y)) || *last_touch_menu_input == 9 {
                if ctx.registered_item_usable {
                    input.registered_item = 1;
                    *last_touch_menu_input = 0;
                }
            } else if *last_touch_menu_input == 10 {
                if ctx.registered_item_usable {
                    input.registered_item = 2;
                    *last_touch_menu_input = 0;
                }
            } else if *last_touch_menu_input == 11 {
                input.touch_menu = true;
                *last_touch_menu_input = 0;
            } else if new_keys.any(key::X) || *last_touch_menu_input != 0 {
                if ctx.x_menu_direct {
                    input.touch_menu = true;
                    input.menu = true;
                } else if ctx.bag_icon_shown {
                    input.menu = true;
                    if *last_touch_menu_input == 1 {
                        *last_touch_menu_input = 0;
                    }
                }
            } else if new_keys.any(key::A) {
                input.interact = true;
            }
            if held_keys.any(PLUS_KEY_MASK) {
                input.sign = true;
                input.map_transition = true;
            }
            input.standing = true;
        } else {
            *last_touch_menu_input = 0;
        }

        if move_state == PlayerMoveState::End && avatar_move_state == AvatarMoveState::Moving {
            input.movement = true;
        }
        if move_state == PlayerMoveState::End {
            input.end_movement = true;
        }

        let facing_key = match facing {
            Direction::North => key::UP,
            Direction::South => key::DOWN,
            Direction::West => key::LEFT,
            Direction::East => key::RIGHT,
        };
        input.transition_dir = if held_keys.any(facing_key) {
            Some(facing)
        } else {
            None
        };
        input.player_dir = direction_from_keys(avatar, new_keys, held_keys);
        input
    }
}

} // verus!
