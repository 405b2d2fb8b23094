//! Full-screen flashes.
use vstd::prelude::*;
use crate::world::{Slot, World};

verus! {

/// Fills the screen with a colour for as long as its entity lives.
#[derive(Clone, Copy, Debug)]
pub struct ScreenFlash(pub u32);

impl ScreenFlash {
    /// A flash in the given colour.
    pub fn new(color: u32) -> (f: ScreenFlash)
        ensures
            f.0 == color,
    {
        ScreenFlash(color)
    }
}

/// Tells in which colour the screen flashes.
pub struct ScreenFlashSystem;

impl ScreenFlashSystem {
    /// The colour of the last flash among the slots before `n`, if there is
    /// one.
    pub open spec fn showing(slots: Seq<Slot>, n: int) -> Option<u32>
        decreases n,
    {
        if n <= 0 {
            None
        } else if slots[n - 1].alive && slots[n - 1].components.screen_flash is Some {
            let flash = slots[n - 1].components.screen_flash->0;
            Some(flash.0)
        } else {
            ScreenFlashSystem::showing(slots, n - 1)
        }
    }

    /// The colour that fills the screen in this frame: every flash paints
    /// over the ones before it, so that of the last flash in the order of the
    /// slots; nothing where no entity is a flash.
    pub fn run(&self, world: &World) -> (color: Option<u32>)
        ensures
            color == ScreenFlashSystem::showing(world.slots@, world.slots@.len() as int),
    {
        let n: usize = world.slots.len();
        let mut color: Option<u32> = None;
        let mut i: usize = 0;
        while i < n
            invariant
                n == world.slots@.len(),
                0 <= i <= n,
                color == ScreenFlashSystem::showing(world.slots@, i as int),
            decreases n - i,
        {
            if world.slots[i].alive {
                match world.slots[i].components.screen_flash {
                    Some(flash) => {
                        color = Some(flash.0);
                    },
                    None => {},
                }
            }
            i = i + 1;
        }
        color
    }
}

impl Default for ScreenFlash {
    /// A flash in the colour zero.
    fn default() -> (f: ScreenFlash)
        ensures
            f.0 == 0,
    {
        ScreenFlash(0)
    }
}

} // verus!
