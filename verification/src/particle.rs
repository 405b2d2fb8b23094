//! Particles and their emitters.
use vstd::prelude::*;
use crate::entity::Lifetime;
use crate::fixed::UNIT;
use crate::physics::{Position, Vec2, Velocity};
use crate::sprite::{Sprite, SpriteRef};
use crate::world::{
    lemma_made_push, lemma_made_skip, made_from, spawned_queue, spawned_slots, Components, Slot,
    World,
};

verus! {

/// Marks an entity that moves but never collides.
#[derive(Clone, Copy, Debug)]
pub struct Particle;

/// Emits a particle each tick for as long as its entity lives.
#[derive(Clone, Copy, Debug)]
pub struct ParticleEmitter {
    /// How many particles to emit every second.
    pub amount: i64,
    /// How long a particle lives.
    pub lifetime: i64,
    /// The greatest speed of a particle along each axis.
    pub dispersion: i64,
    /// The sprite of the particles.
    pub sprite: SpriteRef,
    /// Where the particles start, from the emitter's position.
    pub offset: Vec2,
}

impl ParticleEmitter {
    /// An emitter of one particle a second that disperses at half a unit a
    /// tick, from the emitter's own position.
    pub fn new(lifetime: i64, sprite: SpriteRef) -> (e: ParticleEmitter)
        ensures
            e == (ParticleEmitter {
                amount: UNIT,
                lifetime,
                dispersion: 500,
                sprite,
                offset: Vec2 { x: 0, y: 0 },
            }),
    {
        ParticleEmitter { amount: UNIT, lifetime, dispersion: 500, sprite, offset: Vec2::new(0, 0) }
    }

    pub fn with_offset(self, offset: Vec2) -> (e: ParticleEmitter)
        ensures
            e == (ParticleEmitter { offset, ..self }),
    {
        ParticleEmitter { offset, ..self }
    }

    /// Sets how many whole particles to emit every second.
    pub fn with_amount(self, amount: u8) -> (e: ParticleEmitter)
        ensures
            e == (ParticleEmitter { amount: (amount as i64 * UNIT) as i64, ..self }),
    {
        ParticleEmitter { amount: amount as i64 * UNIT, ..self }
    }

    pub fn with_dispersion(self, dispersion: i64) -> (e: ParticleEmitter)
        ensures
            e == (ParticleEmitter { dispersion, ..self }),
    {
        ParticleEmitter { dispersion, ..self }
    }
}

/// The components of a particle that an emitter at `position` sends off with
/// `velocity`.
pub open spec fn particle_of(
    emitter: ParticleEmitter,
    position: Position,
    velocity: Velocity,
) -> Components {
    Components {
        particle: Some(Particle),
        lifetime: Some(Lifetime(emitter.lifetime)),
        position: Some(Position(position.0.sum(emitter.offset))),
        velocity: Some(velocity),
        sprite: Some(Sprite { reference: emitter.sprite, x: 0, y: 0, rotation: 0 }),
        ..Components::none()
    }
}

/// Whether the slot holds an emitter of particles that is somewhere.
pub open spec fn emits_particles(slot: Slot) -> bool {
    &&& slot.alive
    &&& slot.components.particle_emitter is Some
    &&& slot.components.position is Some
}

/// Whether the components are those of a particle of the emitter of the
/// slot: it starts at the emitter's offset from its position and moves no
/// faster, along each axis, than the emitter disperses.
pub open spec fn particle_from(bundle: Components, slot: Slot) -> bool {
    exists|velocity: Velocity|
        velocity.within(slot.components.particle_emitter->0.dispersion) && bundle
            == #[trigger] particle_of(
            slot.components.particle_emitter->0,
            slot.components.position->0,
            velocity,
        )
}

/// Whether `bundles` are the particles that the emitters in the slots before
/// `n` emit in a tick: one for each emitter that is somewhere, in the order of
/// the slots.
pub open spec fn particles_upto(slots: Seq<Slot>, bundles: Seq<Components>, n: int) -> bool {
    made_from(
        slots,
        bundles,
        |s: Slot| emits_particles(s),
        |c: Components, s: Slot| particle_from(c, s),
        n,
    )
}

/// Whether `bundles` are the particles that the emitters of the slots emit in
/// a tick.
pub open spec fn particles_of(slots: Seq<Slot>, bundles: Seq<Components>) -> bool {
    particles_upto(slots, bundles, slots.len() as int)
}

/// The components of a particle that an emitter at `position` sends off with
/// `velocity`.
pub fn particle(emitter: &ParticleEmitter, position: &Position, velocity: Velocity) -> (c:
    Components)
    ensures
        c == particle_of(*emitter, *position, velocity),
{
    let mut c = Components::empty();
    c.particle = Some(Particle);
    c.lifetime = Some(Lifetime::new(emitter.lifetime));
    c.position = Some(position.add_offset(emitter.offset));
    c.velocity = Some(velocity);
    c.sprite = Some(Sprite::new(emitter.sprite));
    c
}

/// Lets every emitter of particles emit.
pub struct ParticleEmitterSystem;

impl ParticleEmitterSystem {
    /// Whether `after` is what this system makes of `before`: one particle
    /// has been created for each emitter that is somewhere, in the order of
    /// the slots, and nothing else has changed.
    pub open spec fn effect(before: World, after: World) -> bool {
        exists|bundles: Seq<Components>|
            {
                &&& #[trigger] particles_of(before.slots@, bundles)
                &&& after.slots@ == spawned_slots(before.slots@, bundles.len() as int)
                &&& after.pending@ == spawned_queue(
                    before.slots@,
                    before.pending@,
                    bundles,
                    bundles.len() as int,
                )
            }
    }

    /// Creates one particle for each emitter that is somewhere, in the order
    /// of the slots. Nothing else changes.
    pub fn run(&self, world: &mut World)
        ensures
            ParticleEmitterSystem::effect(*old(world), *final(world)),
    {
        let n: usize = world.slots.len();
        let mut bundles: Vec<Components> = Vec::new();
        let mut i: usize = 0;
        while i < n
            invariant
                n == world.slots@.len(),
                *world == *old(world),
                0 <= i <= n,
                particles_upto(world.slots@, bundles@, i as int),
            decreases n - i,
        {
            let ghost mut emitted = false;
            if world.slots[i].alive {
                match (
                    world.slots[i].components.particle_emitter,
                    world.slots[i].components.position,
                ) {
                    (Some(emitter), Some(position)) => {
                        let velocity = Velocity::from_random_range(emitter.dispersion);
                        let bundle = particle(&emitter, &position, velocity);
                        proof {
                            lemma_made_push(
                                world.slots@,
                                bundles@,
                                bundle,
                                |s: Slot| emits_particles(s),
                                |c: Components, s: Slot| particle_from(c, s),
                                i as int,
                            );
                        }
                        bundles.push(bundle);
                        proof {
                            emitted = true;
                        }
                    },
                    _ => {},
                }
            }
            proof {
                if !emitted {
                    lemma_made_skip(
                        world.slots@,
                        bundles@,
                        |s: Slot| emits_particles(s),
                        |c: Components, s: Slot| particle_from(c, s),
                        i as int,
                    );
                }
            }
            i = i + 1;
        }
        assert(particles_of(world.slots@, bundles@));
        world.lazy_spawn_all(bundles);
    }
}

impl Default for Particle {
    /// The mark of a particle.
    fn default() -> (p: Particle)
        ensures
            p == Particle,
    {
        Particle
    }
}

} // verus!
