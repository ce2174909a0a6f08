use vstd::prelude::*;

verus! {

/// What kind of renderer a registered pass drives.
#[derive(Clone, Copy, Debug, PartialEq, Eq, Structural)]
pub enum PassKind {
    Batched,
    TimeSeries,
}

/// One registered render pass: the kind of renderer backing it and a
/// caller-chosen identifier for its drawable. The composer holds no owning
/// reference: whether the drawable is still reachable through some strong
/// owner is decided outside and handed to `render` as a liveness flag.
#[derive(Clone, Copy, Debug, PartialEq, Eq, Structural)]
pub struct RenderPass {
    pub kind: PassKind,
    pub id: u64,
}

/// The passes that are still alive, in their registered order: pass `i` is
/// kept exactly when `alive[i]` holds.
pub open spec fn live_passes(passes: Seq<RenderPass>, alive: Seq<bool>) -> Seq<RenderPass>
    decreases passes.len(),
{
    if passes.len() == 0 {
        Seq::empty()
    } else {
        let rest = live_passes(passes.drop_last(), alive.drop_last());
        if alive.len() == passes.len() && alive.last() {
            rest.push(passes.last())
        } else {
            rest
        }
    }
}

/// Ordered multi-pass compositor over one shared drawing surface. Each
/// frame it draws the passes whose drawable is still alive, in
/// registration order, and compacts the pass list to drop the dead ones —
/// releasing a drawable's owner is enough to retire its pass, with no
/// explicit unregistration.
pub struct CanvasComposer {
    /// Registered passes in registration order; treat as read-only.
    pub passes: Vec<RenderPass>,
}

impl CanvasComposer {
    /// A composer with no passes.
    pub fn new() -> (composer: CanvasComposer)
        ensures
            composer.passes@.len() == 0,
    {
        CanvasComposer { passes: Vec::new() }
    }

    /// Registers a pass backed by an instanced-mesh renderer whose
    /// drawable carries the given identifier.
    pub fn add_batched_pass(&mut self, id: u64)
        ensures
            final(self).passes@ == old(self).passes@.push(
                RenderPass { kind: PassKind::Batched, id },
            ),
    {
        self.passes.push(RenderPass { kind: PassKind::Batched, id });
    }

    /// Registers a pass backed by a time-series line renderer whose
    /// drawable carries the given identifier.
    pub fn add_timeseries_pass(&mut self, id: u64)
        ensures
            final(self).passes@ == old(self).passes@.push(
                RenderPass { kind: PassKind::TimeSeries, id },
            ),
    {
        self.passes.push(RenderPass { kind: PassKind::TimeSeries, id });
    }

    /// Number of passes currently registered.
    pub fn pass_count(&self) -> (n: usize)
        ensures
            n == self.passes@.len(),
    {
        self.passes.len()
    }

    /// Runs one frame, given for each registered pass whether its drawable
    /// is still reachable through some strong owner. Returns, in
    /// registration order, exactly the passes whose drawable is alive —
    /// the ones whose draw call the surrounding shell must invoke after
    /// clearing the surface — and compacts the pass list to those same
    /// passes. A dead pass is not an error; it is skipped silently and
    /// dropped.
    pub fn render(&mut self, alive: &Vec<bool>) -> (drawn: Vec<RenderPass>)
        requires
            alive@.len() == old(self).passes@.len(),
        ensures
            drawn@ == live_passes(old(self).passes@, alive@),
            final(self).passes@ == live_passes(old(self).passes@, alive@),
    {
        let ghost passes_old = self.passes@;
        let mut kept: Vec<RenderPass> = Vec::new();
        let mut i: usize = 0;
        while i < self.passes.len()
            invariant
                self == old(self),
                passes_old == old(self).passes@,
                alive@.len() == passes_old.len(),
                i <= passes_old.len(),
                kept@ == live_passes(passes_old.take(i as int), alive@.take(i as int)),
            decreases passes_old.len() - i,
        {
            if alive[i] {
                kept.push(self.passes[i]);
            }
            proof {
                assert(passes_old.take(i as int + 1).drop_last() =~= passes_old.take(i as int));
                assert(alive@.take(i as int + 1).drop_last() =~= alive@.take(i as int));
                assert(passes_old.take(i as int + 1).last() == passes_old[i as int]);
            }
            i = i + 1;
        }
        proof {
            assert(passes_old.take(passes_old.len() as int) =~= passes_old);
            assert(alive@.take(alive@.len() as int) =~= alive@);
        }
        let mut compacted: Vec<RenderPass> = Vec::new();
        let mut j: usize = 0;
        while j < kept.len()
            invariant
                j <= kept@.len(),
                compacted@ == kept@.take(j as int),
                kept@ == live_passes(passes_old, alive@),
            decreases kept@.len() - j,
        {
            compacted.push(kept[j]);
            proof {
                assert(compacted@ =~= kept@.take(j as int + 1));
            }
            j = j + 1;
        }
        proof {
            assert(compacted@ =~= kept@);
        }
        self.passes = compacted;
        kept
    }
}

} // verus!
