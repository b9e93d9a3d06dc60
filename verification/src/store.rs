//! The store of molecules and the step that advances all of them.

use rayon::iter::{IntoParallelRefMutIterator, ParallelIterator};
use vstd::prelude::*;
use crate::collision::collided;
use crate::config::{COUNT_LIMIT, NUM_MOLECULES, VELOCITY_LIMIT};
use crate::laws::lemma_step_keeps_identities;
use crate::molecule::{bodies, Body, Molecule};
use crate::random::is_fresh;
use crate::walls::{lemma_moved_range, moved};

verus! {

/// The two passes of a step.
#[derive(Clone, Copy, Debug, PartialEq, Eq, Structural)]
pub enum Phase {
    /// Every molecule travels and meets the walls.
    Travel,
    /// Every molecule meets the others as the travel pass left them.
    Collide,
}

/// What a pass does to one molecule. The snapshot is what all the molecules
/// were when the pass began; only the collision pass looks at it.
pub open spec fn advanced(phase: Phase, b: Body, snapshot: Seq<Body>) -> Body {
    match phase {
        Phase::Travel => moved(b),
        Phase::Collide => collided(b, snapshot),
    }
}

/// The pass accepts the molecule and the snapshot.
pub open spec fn admits(phase: Phase, b: Body, snapshot: Seq<Body>) -> bool {
    match phase {
        Phase::Travel => b.in_range(),
        Phase::Collide => {
            &&& b.in_wide_range()
            &&& snapshot.len() <= COUNT_LIMIT
            &&& forall|i: int|
                0 <= i < snapshot.len() ==> (#[trigger] snapshot[i]).velocity.within(
                    2 * VELOCITY_LIMIT,
                )
        },
    }
}

/// The molecules after one step: all of them travel, then each meets the
/// others as they were after travelling.
pub open spec fn stepped(s: Seq<Body>) -> Seq<Body> {
    let travelled = s.map_values(|b: Body| moved(b));
    travelled.map_values(|b: Body| collided(b, travelled))
}

impl Molecule {
    /// Takes the molecule through one pass of a step.
    pub fn advance(&mut self, phase: Phase, snapshot: &Vec<Molecule>)
        requires
            admits(phase, old(self)@, bodies(snapshot@)),
        ensures
            final(self)@ == advanced(phase, old(self)@, bodies(snapshot@)),
    {
        match phase {
            Phase::Travel => self.make_move(),
            Phase::Collide => {
                assert forall|i: int| 0 <= i < snapshot.len() implies (#[trigger] snapshot[i])@
                    .velocity.within(2 * VELOCITY_LIMIT) by {
                    assert(bodies(snapshot@)[i] == snapshot[i]@);
                }
                self.collide(snapshot)
            },
        }
    }
}

/// Takes every molecule through one pass, in parallel, with rayon's
/// `par_iter_mut` and `for_each`. The contract claims that `for_each` calls
/// `Molecule::advance` once on each molecule and on nothing else, so that
/// what `advance` ensures holds of every entry.
#[verifier::external_body]
fn advance_each(molecules: &mut Vec<Molecule>, phase: Phase, snapshot: &Vec<Molecule>)
    requires
        forall|i: int|
            0 <= i < old(molecules)@.len() ==> admits(
                phase,
                (#[trigger] old(molecules)@[i])@,
                bodies(snapshot@),
            ),
    ensures
        final(molecules)@.len() == old(molecules)@.len(),
        forall|i: int|
            0 <= i < old(molecules)@.len() ==> (#[trigger] final(molecules)@[i])@ == advanced(
                phase,
                old(molecules)@[i]@,
                bodies(snapshot@),
            ),
{
    molecules.par_iter_mut().for_each(|b| b.advance(phase, snapshot));
}

/// The particle store: the molecules in the order of their creation.
#[derive(Debug)]
pub struct Molecules {
    pub molecules: Vec<Molecule>,
}

impl View for Molecules {
    type V = Seq<Body>;

    open spec fn view(&self) -> Seq<Body> {
        bodies(self.molecules@)
    }
}

/// Every molecule bears its place in the sequence as its identity.
pub open spec fn numbered(s: Seq<Body>) -> bool {
    forall|i: int| 0 <= i < s.len() ==> (#[trigger] s[i]).id == i
}

/// A step accepts the molecules: there are not too many, and each is in
/// range.
pub open spec fn steppable(s: Seq<Body>) -> bool {
    &&& s.len() <= COUNT_LIMIT
    &&& forall|i: int| 0 <= i < s.len() ==> (#[trigger] s[i]).in_range()
}

impl Molecules {
    /// A store of `NUM_MOLECULES` molecules at random places, flying in
    /// random directions with the launch speed.
    pub fn new() -> (s: Molecules)
        ensures
            s@.len() == NUM_MOLECULES,
            numbered(s@),
            steppable(s@),
            forall|i: int| 0 <= i < s@.len() ==> is_fresh(#[trigger] s@[i]),
    {
        let mut molecules: Vec<Molecule> = Vec::new();
        let mut id: usize = 0;
        while id < NUM_MOLECULES
            invariant
                id <= NUM_MOLECULES,
                molecules@.len() == id,
                forall|i: int|
                    0 <= i < id ==> {
                        &&& (#[trigger] molecules@[i])@.id == i
                        &&& is_fresh(molecules@[i]@)
                        &&& molecules@[i]@.in_range()
                    },
            decreases NUM_MOLECULES - id,
        {
            molecules.push(Molecule::create_random(id));
            id += 1;
        }
        Molecules { molecules }
    }

    /// Tells whether a step accepts the store.
    pub fn can_step(&self) -> (ok: bool)
        ensures
            ok == steppable(self@),
    {
        if self.molecules.len() > COUNT_LIMIT {
            return false;
        }
        let mut i: usize = 0;
        while i < self.molecules.len()
            invariant
                i <= self.molecules.len(),
                forall|k: int| 0 <= k < i ==> (#[trigger] self@[k]).in_range(),
            decreases self.molecules.len() - i,
        {
            if !self.molecules[i].in_range() {
                assert(!self@[i as int].in_range());
                return false;
            }
            i += 1;
        }
        true
    }

    /// Advances the simulation by one step.
    pub fn next(&mut self)
        requires
            steppable(old(self)@),
        ensures
            final(self)@ == stepped(old(self)@),
            final(self)@.len() == old(self)@.len(),
            forall|i: int|
                0 <= i < old(self)@.len() ==> (#[trigger] final(self)@[i]).id == old(self)@[i].id,
    {
        let nothing: Vec<Molecule> = Vec::new();
        let ghost before = self@;
        let ghost travelled = before.map_values(|b: Body| moved(b));
        proof {
            assert forall|i: int| 0 <= i < self.molecules@.len() implies admits(
                Phase::Travel,
                (#[trigger] self.molecules@[i])@,
                bodies(nothing@),
            ) by {
                assert(before[i] == self.molecules@[i]@);
            }
        }
        advance_each(&mut self.molecules, Phase::Travel, &nothing);
        let cloned_molecules = self.molecules.clone();
        proof {
            assert(cloned_molecules@ =~= self.molecules@);
            assert(bodies(cloned_molecules@) =~= travelled);
            assert forall|i: int| 0 <= i < travelled.len() implies (#[trigger] travelled[i])
                .in_wide_range() by {
                lemma_moved_range(before[i]);
            }
            assert forall|i: int| 0 <= i < self.molecules@.len() implies admits(
                Phase::Collide,
                (#[trigger] self.molecules@[i])@,
                bodies(cloned_molecules@),
            ) by {
                assert(self.molecules@[i]@ == travelled[i]);
            }
        }
        advance_each(&mut self.molecules, Phase::Collide, &cloned_molecules);
        proof {
            assert(self@ =~= stepped(before));
            lemma_step_keeps_identities(before);
        }
    }

    /// Advances the simulation by one step if a step accepts the store, and
    /// says whether it did. A store that is not accepted stays as it is.
    pub fn try_next(&mut self) -> (done: bool)
        ensures
            done == steppable(old(self)@),
            done ==> final(self)@ == stepped(old(self)@),
            !done ==> final(self)@ == old(self)@,
            final(self)@.len() == old(self)@.len(),
    {
        if self.can_step() {
            self.next();
            true
        } else {
            false
        }
    }
}

impl Default for Molecules {
    /// A new store, as `Molecules::new` makes it.
    fn default() -> (s: Molecules)
        ensures
            s@.len() == NUM_MOLECULES,
            numbered(s@),
            steppable(s@),
            forall|i: int| 0 <= i < s@.len() ==> is_fresh(#[trigger] s@[i]),
    {
        Molecules::new()
    }
}

} // verus!
