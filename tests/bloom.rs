use forget_me_not::bloom::{bloom_steps, mip_levels, BloomSource, BloomStep};

#[test]
fn one_pixel_input_has_no_levels_and_copies() {
    assert_eq!(mip_levels(1, 1), 0);
    assert_eq!(bloom_steps(0), vec![BloomStep::Copy]);
}

#[test]
fn mip_count_uses_smaller_side() {
    assert_eq!(mip_levels(1024, 1024), 10);
    assert_eq!(mip_levels(1600, 1200), 10);
    assert_eq!(mip_levels(800, 600), 9);
    assert_eq!(mip_levels(2, 3), 1);
    assert_eq!(mip_levels(0, 500), 0);
    assert_eq!(mip_levels(u32::MAX, u32::MAX), 31);
}

#[test]
fn ten_level_chain_order() {
    let steps = bloom_steps(10);
    assert_eq!(steps.len(), 21);
    assert_eq!(steps[0], BloomStep::Downsample { target: 0, source: BloomSource::Input });
    assert_eq!(
        steps[9],
        BloomStep::Downsample { target: 9, source: BloomSource::Downsample { level: 8 } }
    );
    assert_eq!(
        steps[10],
        BloomStep::FirstUpsample { target: 9, source: BloomSource::Downsample { level: 9 } }
    );
    assert_eq!(
        steps[11],
        BloomStep::Upsample {
            target: 8,
            coarser: BloomSource::Upsample { level: 9 },
            same_size: BloomSource::Downsample { level: 8 },
        }
    );
    assert_eq!(
        steps[19],
        BloomStep::Upsample {
            target: 0,
            coarser: BloomSource::Upsample { level: 1 },
            same_size: BloomSource::Downsample { level: 0 },
        }
    );
    assert_eq!(steps[20], BloomStep::Merge);
}

#[test]
fn single_level_chain_has_no_upsample_loop() {
    assert_eq!(
        bloom_steps(1),
        vec![
            BloomStep::Downsample { target: 0, source: BloomSource::Input },
            BloomStep::FirstUpsample { target: 0, source: BloomSource::Downsample { level: 0 } },
            BloomStep::Merge,
        ]
    );
}
