//! The movable things of a level: the player, the masks that lie in the
//! world, and the treasure.

use crate::math::vec2::Vec2;
use crate::sprite::Sprite;
use vstd::prelude::*;

verus! {

/// What the player carries.
pub enum MaskState {
    Unmasked,
    Masked(usize),
}

/// A mask as plain values: where it lies and its colour.
pub struct MaskModel {
    pub pos: Vec2,
    pub color: usize,
}

/// A mask that lies in the world.
pub struct Mask {
    pub sprite: Sprite,
    pub mask_color: usize,
}

impl View for Mask {
    type V = MaskModel;

    open spec fn view(&self) -> MaskModel {
        MaskModel { pos: self.sprite.pos, color: self.mask_color }
    }
}

impl Mask {
    /// A mask of colour `color` at the origin.
    pub fn new_from_color_id(color: usize) -> (r: Mask)
        ensures
            r@ == (MaskModel { pos: Vec2 { x: 0, y: 0 }, color }),
            r.sprite.is_token(),
    {
        let sprite = Sprite::default();
        Mask { sprite, mask_color: color }
    }
}

/// The goal of a level.
pub struct Treasure {
    pub sprite: Sprite,
}

impl Treasure {
    /// A treasure at the origin.
    pub fn new() -> (r: Treasure)
        ensures
            r.sprite.is_token(),
            r.sprite.pos == (Vec2 { x: 0, y: 0 }),
    {
        Treasure { sprite: Sprite::default() }
    }
}

/// The player: its sprite and the mask it carries. `mask_color` counts only
/// while `has_mask` is set.
pub struct Player {
    pub sprite: Sprite,
    pub has_mask: bool,
    pub mask_color: usize,
}

impl Player {
    /// What the player carries.
    pub open spec fn state(&self) -> MaskState {
        if self.has_mask {
            MaskState::Masked(self.mask_color)
        } else {
            MaskState::Unmasked
        }
    }

    /// A player at the origin that carries no mask.
    pub fn new() -> (r: Player)
        ensures
            r.state() == MaskState::Unmasked,
            r.mask_color == 0,
            r.sprite.is_token(),
            r.sprite.pos == (Vec2 { x: 0, y: 0 }),
    {
        let sprite = Sprite::default();
        Player { sprite, has_mask: false, mask_color: 0 }
    }

    /// Puts `mask` on: the player then carries its colour.
    pub fn take_mask(&mut self, mask: &Mask)
        ensures
            final(self).state() == MaskState::Masked(mask.mask_color),
            final(self).sprite == old(self).sprite,
    {
        self.has_mask = true;
        self.mask_color = mask.mask_color;
    }

    /// Takes the mask off. Returns a mask of the carried colour at the
    /// origin, or `None` where the player carried none.
    pub fn drop_mask(&mut self) -> (r: Option<Mask>)
        ensures
            final(self).state() == MaskState::Unmasked,
            final(self).mask_color == old(self).mask_color,
            final(self).sprite == old(self).sprite,
            old(self).state() matches MaskState::Masked(color) ==> r is Some && r->Some_0@ == (
            MaskModel { pos: Vec2 { x: 0, y: 0 }, color }) && r->Some_0.sprite.is_token(),
            old(self).state() is Unmasked ==> r is None,
    {
        if self.has_mask {
            self.has_mask = false;
            Some(Mask::new_from_color_id(self.mask_color))
        } else {
            None
        }
    }
}

} // verus!
