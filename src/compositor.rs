use vstd::prelude::*;
use crate::bloom::{bloom_plan, bloom_steps, mip_count, mip_levels, BloomStep};

verus! {

/// The passes of a frame, in dependency order: each reads the output of the
/// one before it.
#[derive(Clone, Copy, Debug, PartialEq, Eq, Structural)]
pub enum PassKind {
    Raytrace,
    Bloom,
    Final,
}

impl PassKind {
    /// The pass's place in the dependency order.
    pub open spec fn index(self) -> nat {
        match self {
            PassKind::Raytrace => 0,
            PassKind::Bloom => 1,
            PassKind::Final => 2,
        }
    }

    /// Returns `index`.
    pub fn position(&self) -> (r: usize)
        ensures
            r == self.index(),
    {
        match self {
            PassKind::Raytrace => 0,
            PassKind::Bloom => 1,
            PassKind::Final => 2,
        }
    }
}

/// The pass at place `i` of the dependency order.
pub open spec fn pass_at(i: nat) -> PassKind {
    if i == 0 {
        PassKind::Raytrace
    } else if i == 1 {
        PassKind::Bloom
    } else {
        PassKind::Final
    }
}

fn pass_at_exec(i: usize) -> (r: PassKind)
    ensures
        r == pass_at(i as nat),
{
    if i == 0 {
        PassKind::Raytrace
    } else if i == 1 {
        PassKind::Bloom
    } else {
        PassKind::Final
    }
}

/// Something that makes pass resources out of date.
#[derive(Clone, Copy, Debug, PartialEq, Eq, Structural)]
pub enum InvalidationEvent {
    /// The output surface changed size.
    SurfaceResized { width: u32, height: u32 },
    /// The program of `pass` was reloaded and changed.
    ShaderReloadRequested { pass: PassKind },
}

/// The first place in the dependency order that an event invalidates: a
/// resize touches every pass, a reload its own pass and what reads it.
///
/// A reload rebuilds the reloaded pass's whole resource bundle, its output
/// texture included, since bundles are never rebuilt in part. That output is
/// then a new texture, and a pass downstream whose binding set still names
/// the old one would read a stale image. So every later pass is rebuilt
/// too. Reloading the last pass, the final composite, rebuilds only that
/// pass.
pub open spec fn event_start(e: InvalidationEvent) -> nat {
    match e {
        InvalidationEvent::SurfaceResized { .. } => 0,
        InvalidationEvent::ShaderReloadRequested { pass } => pass.index(),
    }
}

/// The smaller of two naturals.
pub open spec fn min_nat(a: nat, b: nat) -> nat {
    if a < b {
        a
    } else {
        b
    }
}

/// The first place any of `es` invalidates; 3 (past the end) for none.
pub open spec fn events_start(es: Seq<InvalidationEvent>) -> nat
    decreases es.len(),
{
    if es.len() == 0 {
        3
    } else {
        min_nat(events_start(es.drop_last()), event_start(es.last()))
    }
}

/// The output size after the resizes among `es`: the last one with both
/// sides non-zero wins (a zero side, as from a minimized window, keeps the
/// previous size).
pub open spec fn resized_size(size: (u32, u32), es: Seq<InvalidationEvent>) -> (u32, u32)
    decreases es.len(),
{
    if es.len() == 0 {
        size
    } else {
        let before = resized_size(size, es.drop_last());
        match es.last() {
            InvalidationEvent::SurfaceResized { width, height } => if width > 0 && height > 0 {
                (width, height)
            } else {
                before
            },
            _ => before,
        }
    }
}

/// The GPU resources of one pass, built together and replaced together.
/// `generation` tells one build from another; `input_generation` is the
/// generation of the upstream pass whose output this build binds (0 for the
/// first pass).
#[derive(Clone, Copy, Debug, PartialEq, Eq, Structural)]
pub struct PassBundle {
    pub generation: u64,
    pub width: u32,
    pub height: u32,
    /// Levels of the pass's mip chain: the bloom chain length, 1 otherwise.
    pub mip_levels: u32,
    pub input_generation: u64,
}

/// The generation of a pass's build, 0 when it has none.
pub open spec fn generation_of(b: Option<PassBundle>) -> u64 {
    match b {
        Some(b) => b.generation,
        None => 0,
    }
}

/// What a pass's build depends on, its own generation left out.
pub open spec fn config_of(b: Option<PassBundle>) -> Option<(u32, u32, u32, u64)> {
    match b {
        Some(b) => Some((b.width, b.height, b.mip_levels, b.input_generation)),
        None => None,
    }
}

/// The state of the frame compositor.
pub struct CompositorView {
    pub width: u32,
    pub height: u32,
    pub raytrace: Option<PassBundle>,
    pub bloom: Option<PassBundle>,
    pub final_pass: Option<PassBundle>,
    pub pending: Seq<InvalidationEvent>,
    pub next_generation: u64,
}

impl CompositorView {
    pub open spec fn bundle(self, p: PassKind) -> Option<PassBundle> {
        match p {
            PassKind::Raytrace => self.raytrace,
            PassKind::Bloom => self.bloom,
            PassKind::Final => self.final_pass,
        }
    }

    /// The generation of the build whose output pass `p` binds.
    pub open spec fn upstream_generation(self, p: PassKind) -> u64 {
        match p {
            PassKind::Raytrace => 0,
            PassKind::Bloom => generation_of(self.raytrace),
            PassKind::Final => generation_of(self.bloom),
        }
    }

    /// A new build of pass `p` at the current size, bound to the current
    /// upstream build.
    pub open spec fn fresh_bundle(self, p: PassKind) -> PassBundle {
        PassBundle {
            generation: self.next_generation,
            width: self.width,
            height: self.height,
            mip_levels: if p == PassKind::Bloom {
                mip_count(self.width, self.height) as u32
            } else {
                1
            },
            input_generation: self.upstream_generation(p),
        }
    }

    /// The state after pass `p` is rebuilt.
    pub open spec fn rebuilt(self, p: PassKind) -> CompositorView {
        let b = Some(self.fresh_bundle(p));
        CompositorView {
            raytrace: if p == PassKind::Raytrace {
                b
            } else {
                self.raytrace
            },
            bloom: if p == PassKind::Bloom {
                b
            } else {
                self.bloom
            },
            final_pass: if p == PassKind::Final {
                b
            } else {
                self.final_pass
            },
            next_generation: (self.next_generation + 1) as u64,
            ..self
        }
    }

    /// Pass `p` has a build bound to the current build of its upstream pass.
    pub open spec fn pass_current(self, p: PassKind) -> bool {
        match self.bundle(p) {
            Some(b) => b.input_generation == self.upstream_generation(p),
            None => false,
        }
    }

    /// Every pass is built and binds the current output of the one before it.
    pub open spec fn consistent(self) -> bool {
        &&& self.pass_current(PassKind::Raytrace)
        &&& self.pass_current(PassKind::Bloom)
        &&& self.pass_current(PassKind::Final)
    }

    /// The first pass that is unbuilt or binds a stale upstream build; 3 for
    /// none.
    pub open spec fn stale_start(self) -> nat {
        if !self.pass_current(PassKind::Raytrace) {
            0
        } else if !self.pass_current(PassKind::Bloom) {
            1
        } else if !self.pass_current(PassKind::Final) {
            2
        } else {
            3
        }
    }

    /// Where this frame's rebuild starts: the earliest pass that an event
    /// or a stale binding invalidates.
    pub open spec fn rebuild_start(self) -> nat {
        min_nat(events_start(self.pending), self.stale_start())
    }

    /// The state after rebuilding the passes at places `k..3` in order.
    pub open spec fn rebuild_from(self, k: nat) -> CompositorView
        decreases 3 - k,
    {
        if k >= 3 {
            self
        } else {
            self.rebuilt(pass_at(k)).rebuild_from(k + 1)
        }
    }

    /// The state after a frame whose surface was acquired: the pending
    /// events are applied and cleared, and the invalidated passes rebuilt.
    pub open spec fn after_frame(self) -> CompositorView {
        let size = resized_size((self.width, self.height), self.pending);
        CompositorView {
            width: size.0,
            height: size.1,
            pending: Seq::empty(),
            ..self
        }.rebuild_from(self.rebuild_start())
    }

    /// The bloom chain length the current bloom build has.
    pub open spec fn bloom_levels(self) -> nat {
        match self.bloom {
            Some(b) => b.mip_levels as nat,
            None => 0,
        }
    }
}

/// The passes at places `k..3` of the dependency order.
pub open spec fn passes_from(k: nat) -> Seq<PassKind> {
    seq![PassKind::Raytrace, PassKind::Bloom, PassKind::Final].subrange(k as int, 3)
}

/// One draw of a frame.
#[derive(Clone, Copy, Debug, PartialEq, Eq, Structural)]
pub enum DrawStep {
    Raytrace,
    Bloom(BloomStep),
    Final,
}

/// The draws of a frame in their fixed order: raytrace, the bloom passes for
/// a chain of `l` levels, then the final composite.
pub open spec fn frame_draws(l: nat) -> Seq<DrawStep> {
    seq![DrawStep::Raytrace] + bloom_plan(l).map_values(|s: BloomStep| DrawStep::Bloom(s)) + seq![
        DrawStep::Final,
    ]
}

/// What the surface reported when the frame asked for a texture to draw on.
#[derive(Clone, Copy, Debug, PartialEq, Eq, Structural)]
pub enum SurfaceStatus {
    Acquired,
    Lost,
    Outdated,
    Timeout,
    OutOfMemory,
}

/// What the caller is to do with this frame.
#[derive(Debug)]
pub enum FrameAction {
    /// Rebuild the listed passes in order, then record the draws in order,
    /// submit and present.
    Render { rebuilt: Vec<PassKind>, draws: Vec<DrawStep> },
    /// Reconfigure the surface at this size and draw nothing this frame.
    Reconfigure { width: u32, height: u32 },
    /// Draw nothing this frame.
    Skip,
    /// The device is out of memory: stop.
    Exit,
}

/// Renders and rebuilds the passes of a frame in dependency order, reacting
/// to resize and reload events.
pub struct Compositor {
    width: u32,
    height: u32,
    raytrace: Option<PassBundle>,
    bloom: Option<PassBundle>,
    final_pass: Option<PassBundle>,
    pending: Vec<InvalidationEvent>,
    next_generation: u64,
}

impl View for Compositor {
    type V = CompositorView;

    closed spec fn view(&self) -> CompositorView {
        CompositorView {
            width: self.width,
            height: self.height,
            raytrace: self.raytrace,
            bloom: self.bloom,
            final_pass: self.final_pass,
            pending: self.pending@,
            next_generation: self.next_generation,
        }
    }
}

impl Compositor {
    /// A compositor for a `width` x `height` surface with nothing built yet.
    pub fn new(width: u32, height: u32) -> (r: Self)
        ensures
            r@ == (CompositorView {
                width,
                height,
                raytrace: None,
                bloom: None,
                final_pass: None,
                pending: Seq::empty(),
                next_generation: 1,
            }),
    {
        Compositor {
            width,
            height,
            raytrace: None,
            bloom: None,
            final_pass: None,
            pending: Vec::new(),
            next_generation: 1,
        }
    }

    pub fn width(&self) -> (r: u32)
        ensures
            r == self@.width,
    {
        self.width
    }

    pub fn height(&self) -> (r: u32)
        ensures
            r == self@.height,
    {
        self.height
    }

    /// The generation the next build will get.
    pub fn next_generation(&self) -> (r: u64)
        ensures
            r == self@.next_generation,
    {
        self.next_generation
    }

    /// The current build of pass `p`, if any.
    pub fn bundle(&self, p: PassKind) -> (r: Option<PassBundle>)
        ensures
            r == self@.bundle(p),
    {
        match p {
            PassKind::Raytrace => self.raytrace,
            PassKind::Bloom => self.bloom,
            PassKind::Final => self.final_pass,
        }
    }

    /// Queues an event for the next frame.
    pub fn push_event(&mut self, e: InvalidationEvent)
        ensures
            final(self)@ == (CompositorView { pending: old(self)@.pending.push(e), ..old(self)@ }),
    {
        self.pending.push(e);
    }

    fn upstream_generation(&self, p: PassKind) -> (r: u64)
        ensures
            r == self@.upstream_generation(p),
    {
        match p {
            PassKind::Raytrace => 0,
            PassKind::Bloom => match self.raytrace {
                Some(b) => b.generation,
                None => 0,
            },
            PassKind::Final => match self.bloom {
                Some(b) => b.generation,
                None => 0,
            },
        }
    }

    /// Rebuilds pass `p` at the current size against the current upstream
    /// build.
    pub fn recreate(&mut self, p: PassKind)
        requires
            old(self)@.next_generation < u64::MAX,
        ensures
            final(self)@ == old(self)@.rebuilt(p),
    {
        let mips = match p {
            PassKind::Bloom => mip_levels(self.width, self.height),
            _ => 1,
        };
        let b = PassBundle {
            generation: self.next_generation,
            width: self.width,
            height: self.height,
            mip_levels: mips,
            input_generation: self.upstream_generation(p),
        };
        match p {
            PassKind::Raytrace => self.raytrace = Some(b),
            PassKind::Bloom => self.bloom = Some(b),
            PassKind::Final => self.final_pass = Some(b),
        }
        self.next_generation = self.next_generation + 1;
    }

    /// Rebuilds the passes at places `start..3` in order and lists them.
    fn rebuild_from(&mut self, start: usize) -> (r: Vec<PassKind>)
        requires
            start <= 3,
            old(self)@.next_generation <= u64::MAX - 3,
        ensures
            final(self)@ == old(self)@.rebuild_from(start as nat),
            final(self)@.next_generation == old(self)@.next_generation + (3 - start),
            r@ == passes_from(start as nat),
    {
        let mut rebuilt: Vec<PassKind> = Vec::new();
        let mut i: usize = start;
        while i < 3
            invariant
                start <= i <= 3,
                self@.rebuild_from(i as nat) == old(self)@.rebuild_from(start as nat),
                self@.next_generation == old(self)@.next_generation + (i - start),
                old(self)@.next_generation <= u64::MAX - 3,
                rebuilt@ == passes_from(start as nat).subrange(0, i - start),
            decreases 3 - i,
        {
            let p = pass_at_exec(i);
            self.recreate(p);
            rebuilt.push(p);
            i = i + 1;
            assert(rebuilt@ =~= passes_from(start as nat).subrange(0, i - start));
        }
        assert(passes_from(start as nat).subrange(0, 3 - start) =~= passes_from(start as nat));
        rebuilt
    }

    /// Rebuilds every pass in dependency order.
    pub fn rebuild_all(&mut self) -> (r: Vec<PassKind>)
        requires
            old(self)@.next_generation <= u64::MAX - 3,
        ensures
            final(self)@ == old(self)@.rebuild_from(0),
            final(self)@.next_generation == old(self)@.next_generation + 3,
            r@ == seq![PassKind::Raytrace, PassKind::Bloom, PassKind::Final],
    {
        let r = self.rebuild_from(0);
        assert(passes_from(0) =~= seq![PassKind::Raytrace, PassKind::Bloom, PassKind::Final]);
        r
    }

    fn pass_current(&self, p: PassKind) -> (r: bool)
        ensures
            r == self@.pass_current(p),
    {
        let up = self.upstream_generation(p);
        match self.bundle(p) {
            Some(b) => b.input_generation == up,
            None => false,
        }
    }

    /// Whether every pass is built and binds its upstream pass's current
    /// output.
    pub fn bindings_current(&self) -> (r: bool)
        ensures
            r == self@.consistent(),
    {
        self.pass_current(PassKind::Raytrace) && self.pass_current(PassKind::Bloom)
            && self.pass_current(PassKind::Final)
    }

    fn stale_start(&self) -> (r: usize)
        ensures
            r == self@.stale_start(),
    {
        if !self.pass_current(PassKind::Raytrace) {
            0
        } else if !self.pass_current(PassKind::Bloom) {
            1
        } else if !self.pass_current(PassKind::Final) {
            2
        } else {
            3
        }
    }

    /// Decides a frame from what the surface reported. When the surface was
    /// acquired, the pending events are applied and cleared, the invalidated
    /// passes are rebuilt in dependency order, and the draws follow in their
    /// fixed order. A lost or outdated surface asks for a reconfigure at the
    /// current size, a timeout skips the frame (both keep the events for the
    /// next frame), and running out of memory ends the program.
    pub fn begin_frame(&mut self, status: SurfaceStatus) -> (r: FrameAction)
        requires
            old(self)@.next_generation <= u64::MAX - 3,
        ensures
            match status {
                SurfaceStatus::Acquired => {
                    &&& final(self)@ == old(self)@.after_frame()
                    &&& match r {
                        FrameAction::Render { rebuilt, draws } => {
                            &&& rebuilt@ == passes_from(old(self)@.rebuild_start())
                            &&& final(self)@.next_generation == old(self)@.next_generation
                                + rebuilt@.len()
                            &&& draws@ == frame_draws(final(self)@.bloom_levels())
                        },
                        _ => false,
                    }
                },
                SurfaceStatus::Lost | SurfaceStatus::Outdated => {
                    &&& final(self)@ == old(self)@
                    &&& r matches FrameAction::Reconfigure { width, height } && width
                        == old(self)@.width && height == old(self)@.height
                },
                SurfaceStatus::Timeout => final(self)@ == old(self)@ && r is Skip,
                SurfaceStatus::OutOfMemory => final(self)@ == old(self)@ && r is Exit,
            },
    {
        match status {
            SurfaceStatus::Lost | SurfaceStatus::Outdated => {
                return FrameAction::Reconfigure { width: self.width, height: self.height };
            },
            SurfaceStatus::Timeout => {
                return FrameAction::Skip;
            },
            SurfaceStatus::OutOfMemory => {
                return FrameAction::Exit;
            },
            SurfaceStatus::Acquired => {},
        }
        let ghost start_view = self@;
        let mut start = self.stale_start();
        let mut i: usize = 0;
        while i < self.pending.len()
            invariant
                self@ == (CompositorView {
                    width: self@.width,
                    height: self@.height,
                    ..start_view
                }),
                0 <= i <= self.pending@.len(),
                start as nat == min_nat(
                    events_start(self.pending@.subrange(0, i as int)),
                    start_view.stale_start(),
                ),
                (self.width, self.height) == resized_size(
                    (start_view.width, start_view.height),
                    self.pending@.subrange(0, i as int),
                ),
            decreases self.pending@.len() - i,
        {
            let e = self.pending[i];
            proof {
                let s = self.pending@.subrange(0, i + 1);
                assert(s.drop_last() =~= self.pending@.subrange(0, i as int));
            }
            match e {
                InvalidationEvent::SurfaceResized { width, height } => {
                    if width > 0 && height > 0 {
                        self.width = width;
                        self.height = height;
                    }
                    start = 0;
                },
                InvalidationEvent::ShaderReloadRequested { pass } => {
                    let k = pass.position();
                    if k < start {
                        start = k;
                    }
                },
            }
            i = i + 1;
        }
        proof {
            assert(self.pending@.subrange(0, self.pending@.len() as int) =~= self.pending@);
        }
        self.pending.clear();
        let rebuilt = self.rebuild_from(start);
        let levels = match self.bloom {
            Some(b) => b.mip_levels,
            None => 0,
        };
        let steps = bloom_steps(levels);
        let mut draws: Vec<DrawStep> = Vec::new();
        draws.push(DrawStep::Raytrace);
        let mut j: usize = 0;
        while j < steps.len()
            invariant
                j <= steps@.len(),
                draws@ == seq![DrawStep::Raytrace] + steps@.subrange(0, j as int).map_values(
                    |s: BloomStep| DrawStep::Bloom(s),
                ),
            decreases steps@.len() - j,
        {
            draws.push(DrawStep::Bloom(steps[j]));
            j = j + 1;
            assert(draws@ =~= seq![DrawStep::Raytrace] + steps@.subrange(0, j as int).map_values(
                |s: BloomStep| DrawStep::Bloom(s),
            ));
        }
        draws.push(DrawStep::Final);
        assert(steps@.subrange(0, steps@.len() as int) =~= steps@);
        assert(draws@ =~= frame_draws(self@.bloom_levels()));
        FrameAction::Render { rebuilt, draws }
    }
}

proof fn lemma_rebuild_from_current(w: CompositorView, k: nat)
    requires
        k <= w.stale_start(),
        k <= 3,
        w.next_generation + 3 - k <= u64::MAX,
    ensures
        w.rebuild_from(k).consistent(),
    decreases 3 - k,
{
    if k < 3 {
        let x = w.rebuilt(pass_at(k));
        assert(x.stale_start() >= k + 1);
        lemma_rebuild_from_current(x, k + 1);
    }
}

proof fn lemma_events_start_le(es: Seq<InvalidationEvent>, i: int)
    requires
        0 <= i < es.len(),
    ensures
        events_start(es) <= event_start(es[i]),
    decreases es.len(),
{
    if i < es.len() - 1 {
        lemma_events_start_le(es.drop_last(), i);
        assert(es.drop_last()[i] == es[i]);
    }
}

/// After any frame whose surface was acquired, every pass is built and
/// binds the current output of the pass before it: no binding set is left
/// pointing at a replaced build, whatever events came in.
pub proof fn lemma_frame_leaves_bindings_current(v: CompositorView)
    requires
        v.next_generation <= u64::MAX - 3,
    ensures
        v.after_frame().consistent(),
{
    let size = resized_size((v.width, v.height), v.pending);
    let w = CompositorView { width: size.0, height: size.1, pending: Seq::empty(), ..v };
    assert(w.stale_start() == v.stale_start());
    lemma_rebuild_from_current(w, v.rebuild_start());
}

/// A resize rebuilds every pass, in the order raytrace, bloom, final; the
/// bloom chain length is recomputed from the new size, and each pass binds
/// the build made just before it.
pub proof fn lemma_resize_rebuilds_in_order(v: CompositorView, width: u32, height: u32)
    requires
        v.next_generation <= u64::MAX - 3,
        v.pending.len() > 0,
        v.pending.last() == (InvalidationEvent::SurfaceResized { width, height }),
        width > 0,
        height > 0,
    ensures
        passes_from(v.rebuild_start()) == seq![PassKind::Raytrace, PassKind::Bloom, PassKind::Final],
        ({
            let a = v.after_frame();
            let n = v.next_generation;
            &&& a.width == width && a.height == height
            &&& a.raytrace == Some(
                PassBundle { generation: n, width, height, mip_levels: 1, input_generation: 0 },
            )
            &&& a.bloom == Some(
                PassBundle {
                    generation: (n + 1) as u64,
                    width,
                    height,
                    mip_levels: mip_count(width, height) as u32,
                    input_generation: n,
                },
            )
            &&& a.final_pass == Some(
                PassBundle {
                    generation: (n + 2) as u64,
                    width,
                    height,
                    mip_levels: 1,
                    input_generation: (n + 1) as u64,
                },
            )
            &&& a.pending.len() == 0
        }),
{
    assert(v.rebuild_start() == 0);
    assert(passes_from(0) =~= seq![PassKind::Raytrace, PassKind::Bloom, PassKind::Final]);
    let size = resized_size((v.width, v.height), v.pending);
    assert(size == (width, height));
    let w = CompositorView { width: size.0, height: size.1, pending: Seq::empty(), ..v };
    let w1 = w.rebuilt(PassKind::Raytrace);
    let w2 = w1.rebuilt(PassKind::Bloom);
    let w3 = w2.rebuilt(PassKind::Final);
    assert(w.rebuild_from(0) == w1.rebuild_from(1));
    assert(w1.rebuild_from(1) == w2.rebuild_from(2));
    assert(w2.rebuild_from(2) == w3.rebuild_from(3));
}

/// Rebuilding a pass twice in a row with nothing else changed gives the same
/// resources as rebuilding it once: only the build's own generation differs.
pub proof fn lemma_recreate_idempotent(v: CompositorView, p: PassKind)
    requires
        v.next_generation < u64::MAX - 1,
    ensures
        ({
            let once = v.rebuilt(p);
            let twice = once.rebuilt(p);
            &&& config_of(twice.raytrace) == config_of(once.raytrace)
            &&& config_of(twice.bloom) == config_of(once.bloom)
            &&& config_of(twice.final_pass) == config_of(once.final_pass)
            &&& twice.width == once.width && twice.height == once.height
            &&& twice.pending == once.pending
        }),
{
}

/// A frame with no pending events on passes that are all current rebuilds
/// nothing and leaves the compositor as it was.
pub proof fn lemma_quiet_frame_rebuilds_nothing(v: CompositorView)
    requires
        v.consistent(),
        v.pending.len() == 0,
    ensures
        v.rebuild_start() == 3,
        passes_from(v.rebuild_start()) == Seq::<PassKind>::empty(),
        v.after_frame() == v,
{
    assert(passes_from(3) =~= Seq::<PassKind>::empty());
    assert(v.pending =~= Seq::<InvalidationEvent>::empty());
}

} // verus!
