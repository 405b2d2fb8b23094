//! The roster of enemy ship sprites.
use vstd::prelude::*;
use crate::enemy::EnemyType;
use crate::random::index;
use crate::sprite::SpriteRef;

verus! {

/// The sprites of the enemy ships of one run, a few of each archetype.
#[derive(Debug)]
pub struct Ships {
    enemy_small: Vec<SpriteRef>,
    enemy_medium: Vec<SpriteRef>,
    enemy_big: Vec<SpriteRef>,
}

/// Whether a list of sprites can be drawn from: it is not empty, and a single
/// draw reaches its end.
pub open spec fn drawable(sprites: Seq<SpriteRef>) -> bool {
    0 < sprites.len() <= u32::MAX
}

impl Ships {
    #[verifier::type_invariant]
    spec fn inv(self) -> bool {
        &&& drawable(self.enemy_small@)
        &&& drawable(self.enemy_medium@)
        &&& drawable(self.enemy_big@)
    }

    /// The sprites of one archetype.
    pub closed spec fn roster(self, type_: EnemyType) -> Seq<SpriteRef> {
        match type_ {
            EnemyType::Small => self.enemy_small@,
            EnemyType::Medium => self.enemy_medium@,
            EnemyType::Big => self.enemy_big@,
        }
    }

    /// A roster of the given sprites, or nothing where one of the three lists
    /// cannot be drawn from.
    pub fn new(small: Vec<SpriteRef>, medium: Vec<SpriteRef>, big: Vec<SpriteRef>) -> (ships:
        Option<Ships>)
        ensures
            ships is Some <==> drawable(small@) && drawable(medium@) && drawable(big@),
            ships matches Some(s) ==> {
                &&& s.roster(EnemyType::Small) == small@
                &&& s.roster(EnemyType::Medium) == medium@
                &&& s.roster(EnemyType::Big) == big@
            },
    {
        if small.len() == 0 || medium.len() == 0 || big.len() == 0 {
            return None;
        }
        if small.len() > u32::MAX as usize || medium.len() > u32::MAX as usize || big.len()
            > u32::MAX as usize {
            return None;
        }
        Some(Ships { enemy_small: small, enemy_medium: medium, enemy_big: big })
    }

    /// A sprite drawn at random from those of one archetype.
    pub fn enemy(&self, type_: EnemyType) -> (sprite: SpriteRef)
        ensures
            self.roster(type_).contains(sprite),
    {
        proof {
            use_type_invariant(self);
        }
        match type_ {
            EnemyType::Small => *index(&self.enemy_small),
            EnemyType::Medium => *index(&self.enemy_medium),
            EnemyType::Big => *index(&self.enemy_big),
        }
    }
}

} // verus!
