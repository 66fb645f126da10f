//! OpenGL context generation tracking.
//!
//! Every graphics context takes a fresh generation number when it is created.
//! Objects remember the generation they were created in and only release their GL
//! names while that generation is still the current one.
use vstd::prelude::*;

verus! {

/// The generation counter shared by all graphics contexts.
#[derive(Copy, Clone, Debug, PartialEq, Eq, Structural)]
pub struct GenerationCounter {
    current: u32,
}

impl GenerationCounter {
    /// The generation that is current right now.
    pub closed spec fn spec_current(self) -> u32 {
        self.current
    }

    /// A counter before any context was created (generation 0 is current).
    pub fn new() -> (c: GenerationCounter)
        ensures
            c.spec_current() == 0,
    {
        GenerationCounter { current: 0 }
    }

    /// Returns the current generation.
    pub fn current(&self) -> (r: u32)
        ensures
            r == self.spec_current(),
    {
        self.current
    }
}

/// The generation that follows `g`, wrapping around at `u32::MAX`.
pub open spec fn successor(g: u32) -> u32 {
    if g == u32::MAX { 0 } else { (g + 1) as u32 }
}

/// Starts a new generation and returns it; it becomes the current one.
pub fn next(counter: &mut GenerationCounter) -> (generation: u32)
    ensures
        generation == successor(old(counter).spec_current()),
        final(counter).spec_current() == generation,
{
    counter.current = counter.current.wrapping_add(1);
    counter.current
}

/// Ends `generation`: when it is still current the counter advances past it,
/// otherwise nothing changes.
pub fn drop(counter: &mut GenerationCounter, generation: u32)
    ensures
        final(counter).spec_current() == if old(counter).spec_current() == generation {
            successor(generation)
        } else {
            old(counter).spec_current()
        },
{
    if counter.current == generation {
        counter.current = generation.wrapping_add(1);
    }
}

/// Returns whether `generation` is the current generation.
pub fn is_current(counter: &GenerationCounter, generation: u32) -> (r: bool)
    ensures
        r == (counter.spec_current() == generation),
{
    counter.current == generation
}

/// A generation that was just started is current, and it stops being current once it
/// is dropped.
pub proof fn law_next_then_drop(c0: GenerationCounter, g: u32, c1: GenerationCounter, c2: GenerationCounter)
    requires
        g == successor(c0.spec_current()),
        c1.spec_current() == g,
        c2.spec_current() == (if c1.spec_current() == g { successor(g) } else { c1.spec_current() }),
    ensures
        c1.spec_current() == g,
        c2.spec_current() != g,
{
}

/// Dropping a generation that is no longer current leaves the current one alone.
pub proof fn law_drop_stale(c0: GenerationCounter, g: u32, c1: GenerationCounter)
    requires
        c0.spec_current() != g,
        c1.spec_current() == (if c0.spec_current() == g { successor(g) } else { c0.spec_current() }),
    ensures
        c1.spec_current() == c0.spec_current(),
{
}

} // verus!
