use forget_me_not::bloom::{bloom_steps, BloomStep};
use forget_me_not::compositor::{
    Compositor, DrawStep, FrameAction, InvalidationEvent, PassKind, SurfaceStatus,
};

fn ready(width: u32, height: u32) -> Compositor {
    let mut c = Compositor::new(width, height);
    assert_eq!(c.rebuild_all(), vec![PassKind::Raytrace, PassKind::Bloom, PassKind::Final]);
    c
}

#[test]
fn resize_rebuilds_raytrace_bloom_final_in_order() {
    let mut c = ready(800, 600);
    assert_eq!(c.bundle(PassKind::Bloom).unwrap().mip_levels, 9);
    c.push_event(InvalidationEvent::SurfaceResized { width: 1600, height: 1200 });
    match c.begin_frame(SurfaceStatus::Acquired) {
        FrameAction::Render { rebuilt, draws } => {
            assert_eq!(rebuilt, vec![PassKind::Raytrace, PassKind::Bloom, PassKind::Final]);
            assert_eq!(draws.len(), 2 + 21);
            assert_eq!(draws[0], DrawStep::Raytrace);
            assert_eq!(draws[22], DrawStep::Final);
        },
        other => panic!("unexpected {:?}", other),
    }
    let r = c.bundle(PassKind::Raytrace).unwrap();
    let b = c.bundle(PassKind::Bloom).unwrap();
    let f = c.bundle(PassKind::Final).unwrap();
    assert_eq!((c.width(), c.height()), (1600, 1200));
    assert_eq!((b.width, b.height, b.mip_levels), (1600, 1200, 10));
    assert!(r.generation < b.generation && b.generation < f.generation);
    assert_eq!(b.input_generation, r.generation);
    assert_eq!(f.input_generation, b.generation);
    assert!(c.bindings_current());
}

#[test]
fn quiet_frame_rebuilds_nothing() {
    let mut c = ready(64, 64);
    let before = c.bundle(PassKind::Final);
    match c.begin_frame(SurfaceStatus::Acquired) {
        FrameAction::Render { rebuilt, draws } => {
            assert!(rebuilt.is_empty());
            let expected: Vec<DrawStep> = std::iter::once(DrawStep::Raytrace)
                .chain(bloom_steps(6).into_iter().map(DrawStep::Bloom))
                .chain(std::iter::once(DrawStep::Final))
                .collect();
            assert_eq!(draws, expected);
        },
        other => panic!("unexpected {:?}", other),
    }
    assert_eq!(c.bundle(PassKind::Final), before);
}

#[test]
fn reload_rebuilds_pass_and_its_readers() {
    let mut c = ready(256, 128);
    let raytrace = c.bundle(PassKind::Raytrace);
    c.push_event(InvalidationEvent::ShaderReloadRequested { pass: PassKind::Bloom });
    match c.begin_frame(SurfaceStatus::Acquired) {
        FrameAction::Render { rebuilt, .. } => {
            assert_eq!(rebuilt, vec![PassKind::Bloom, PassKind::Final]);
        },
        other => panic!("unexpected {:?}", other),
    }
    assert_eq!(c.bundle(PassKind::Raytrace), raytrace);
    assert!(c.bindings_current());
    c.push_event(InvalidationEvent::ShaderReloadRequested { pass: PassKind::Final });
    match c.begin_frame(SurfaceStatus::Acquired) {
        FrameAction::Render { rebuilt, .. } => assert_eq!(rebuilt, vec![PassKind::Final]),
        other => panic!("unexpected {:?}", other),
    }
}

#[test]
fn recreate_twice_matches_once() {
    let mut once = ready(300, 200);
    let mut twice = ready(300, 200);
    once.recreate(PassKind::Bloom);
    twice.recreate(PassKind::Bloom);
    twice.recreate(PassKind::Bloom);
    let a = once.bundle(PassKind::Bloom).unwrap();
    let b = twice.bundle(PassKind::Bloom).unwrap();
    assert_eq!(
        (a.width, a.height, a.mip_levels, a.input_generation),
        (b.width, b.height, b.mip_levels, b.input_generation)
    );
    assert_eq!(a.mip_levels, 7);
}

#[test]
fn stale_binding_is_repaired_next_frame() {
    let mut c = ready(32, 32);
    c.recreate(PassKind::Raytrace);
    assert!(!c.bindings_current());
    match c.begin_frame(SurfaceStatus::Acquired) {
        FrameAction::Render { rebuilt, .. } => {
            assert_eq!(rebuilt, vec![PassKind::Bloom, PassKind::Final]);
        },
        other => panic!("unexpected {:?}", other),
    }
    assert!(c.bindings_current());
}

#[test]
fn first_frame_builds_everything() {
    let mut c = Compositor::new(16, 16);
    assert!(!c.bindings_current());
    match c.begin_frame(SurfaceStatus::Acquired) {
        FrameAction::Render { rebuilt, .. } => {
            assert_eq!(rebuilt, vec![PassKind::Raytrace, PassKind::Bloom, PassKind::Final]);
        },
        other => panic!("unexpected {:?}", other),
    }
    assert!(c.bindings_current());
}

#[test]
fn zero_sized_resize_keeps_size_but_rebuilds() {
    let mut c = ready(100, 80);
    c.push_event(InvalidationEvent::SurfaceResized { width: 0, height: 0 });
    match c.begin_frame(SurfaceStatus::Acquired) {
        FrameAction::Render { rebuilt, .. } => assert_eq!(rebuilt.len(), 3),
        other => panic!("unexpected {:?}", other),
    }
    assert_eq!((c.width(), c.height()), (100, 80));
}

#[test]
fn surface_errors_defer_events() {
    let mut c = ready(100, 100);
    c.push_event(InvalidationEvent::SurfaceResized { width: 50, height: 40 });
    match c.begin_frame(SurfaceStatus::Lost) {
        FrameAction::Reconfigure { width, height } => assert_eq!((width, height), (100, 100)),
        other => panic!("unexpected {:?}", other),
    }
    assert!(matches!(c.begin_frame(SurfaceStatus::Outdated), FrameAction::Reconfigure { .. }));
    assert!(matches!(c.begin_frame(SurfaceStatus::Timeout), FrameAction::Skip));
    assert!(matches!(c.begin_frame(SurfaceStatus::OutOfMemory), FrameAction::Exit));
    assert_eq!((c.width(), c.height()), (100, 100));
    match c.begin_frame(SurfaceStatus::Acquired) {
        FrameAction::Render { rebuilt, draws } => {
            assert_eq!(rebuilt.len(), 3);
            assert!(draws.contains(&DrawStep::Bloom(BloomStep::Merge)));
        },
        other => panic!("unexpected {:?}", other),
    }
    assert_eq!((c.width(), c.height()), (50, 40));
}
