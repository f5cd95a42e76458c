use vstd::prelude::*;

verus! {

/// `floor(log2(n))`, with zero for `n < 2`.
pub open spec fn log2_floor(n: nat) -> nat
    decreases n,
{
    if n < 2 {
        0
    } else {
        1 + log2_floor(n / 2)
    }
}

/// The smaller of two sizes.
pub open spec fn min_u32(a: u32, b: u32) -> u32 {
    if a < b {
        a
    } else {
        b
    }
}

/// How many levels the bloom mip chain has for a `width` x `height` input:
/// `floor(log2(min(width, height)))`.
pub open spec fn mip_count(width: u32, height: u32) -> nat {
    log2_floor(min_u32(width, height) as nat)
}

/// Computes `mip_count`.
pub fn mip_levels(width: u32, height: u32) -> (r: u32)
    ensures
        r == mip_count(width, height),
{
    let mut n: u32 = if width < height {
        width
    } else {
        height
    };
    let ghost start = n as nat;
    proof {
        lemma_log2_bound(start);
    }
    let mut levels: u32 = 0;
    while n >= 2
        invariant
            levels + log2_floor(n as nat) == log2_floor(start),
            log2_floor(start) <= 32,
        decreases n,
    {
        n = n / 2;
        levels = levels + 1;
    }
    levels
}

proof fn lemma_log2_bound(n: nat)
    requires
        n < 0x1_0000_0000,
    ensures
        log2_floor(n) < 32,
{
    reveal_with_fuel(pow2, 33);
    lemma_log2_below(n, 32);
}

proof fn lemma_log2_below(n: nat, k: nat)
    requires
        n < pow2(k),
    ensures
        k > 0 ==> log2_floor(n) < k,
        k == 0 ==> log2_floor(n) == 0,
    decreases k,
{
    if k > 0 && n >= 2 {
        lemma_log2_below(n / 2, (k - 1) as nat);
    }
}

/// `2` to the power `k`.
pub open spec fn pow2(k: nat) -> nat
    decreases k,
{
    if k == 0 {
        1
    } else {
        2 * pow2((k - 1) as nat)
    }
}

/// A texture a bloom step reads or writes: the scene color input, or one
/// mip level of the downsample or the upsample chain.
#[derive(Clone, Copy, Debug, PartialEq, Eq, Structural)]
pub enum BloomSource {
    Input,
    Downsample { level: u32 },
    Upsample { level: u32 },
}

/// One render pass of the bloom effect.
#[derive(Clone, Copy, Debug, PartialEq, Eq, Structural)]
pub enum BloomStep {
    /// Filters `source` down into downsample level `target`.
    Downsample { target: u32, source: BloomSource },
    /// Starts the upsample chain: copies the smallest downsample level
    /// `source` into upsample level `target`.
    FirstUpsample { target: u32, source: BloomSource },
    /// Tent-filters the coarser upsample level and adds the downsample level
    /// of the same size, writing upsample level `target`.
    Upsample { target: u32, coarser: BloomSource, same_size: BloomSource },
    /// Adds upsample level 0 to the scene color, writing the bloom output.
    Merge,
    /// Copies the scene color to the bloom output: the chain is empty.
    Copy,
}

/// Downsample level `i` reads the input for `i == 0`, else level `i - 1`.
pub open spec fn downsample_step(i: nat) -> BloomStep {
    BloomStep::Downsample {
        target: i as u32,
        source: if i == 0 {
            BloomSource::Input
        } else {
            BloomSource::Downsample { level: (i - 1) as u32 }
        },
    }
}

/// Upsample level `i` reads upsample level `i + 1` and downsample level `i`.
pub open spec fn upsample_step(i: nat) -> BloomStep {
    BloomStep::Upsample {
        target: i as u32,
        coarser: BloomSource::Upsample { level: (i + 1) as u32 },
        same_size: BloomSource::Downsample { level: i as u32 },
    }
}

/// The passes of the bloom effect for a chain of `l` levels, in order: the
/// downsample levels `0..l`, the first upsample into level `l - 1`, the
/// upsample levels `l - 2` down to `0`, then the merge. With no levels the
/// effect is a plain copy.
pub open spec fn bloom_plan(l: nat) -> Seq<BloomStep> {
    if l == 0 {
        seq![BloomStep::Copy]
    } else {
        Seq::new(l, |i: int| downsample_step(i as nat)) + seq![
            BloomStep::FirstUpsample {
                target: (l - 1) as u32,
                source: BloomSource::Downsample { level: (l - 1) as u32 },
            },
        ] + Seq::new((l - 1) as nat, |k: int| upsample_step((l - 2 - k) as nat)) + seq![
            BloomStep::Merge,
        ]
    }
}

/// The passes of the bloom effect for a chain of `mip_levels` levels.
pub fn bloom_steps(mip_levels: u32) -> (r: Vec<BloomStep>)
    ensures
        r@ == bloom_plan(mip_levels as nat),
{
    let mut steps: Vec<BloomStep> = Vec::new();
    if mip_levels == 0 {
        steps.push(BloomStep::Copy);
        assert(steps@ =~= bloom_plan(0));
        return steps;
    }
    let l = mip_levels;
    let ghost downs = Seq::new(l as nat, |i: int| downsample_step(i as nat));
    let mut i: u32 = 0;
    while i < l
        invariant
            i <= l,
            downs == Seq::new(l as nat, |j: int| downsample_step(j as nat)),
            steps@ == downs.subrange(0, i as int),
        decreases l - i,
    {
        let source = if i == 0 {
            BloomSource::Input
        } else {
            BloomSource::Downsample { level: i - 1 }
        };
        steps.push(BloomStep::Downsample { target: i, source });
        i = i + 1;
        assert(steps@ =~= downs.subrange(0, i as int));
    }
    assert(downs.subrange(0, l as int) =~= downs);
    steps.push(
        BloomStep::FirstUpsample {
            target: l - 1,
            source: BloomSource::Downsample { level: l - 1 },
        },
    );
    let ghost head = steps@;
    let ghost ups = Seq::new((l - 1) as nat, |k: int| upsample_step((l - 2 - k) as nat));
    let mut k: u32 = 0;
    while k < l - 1
        invariant
            0 < l,
            k <= l - 1,
            ups == Seq::new((l - 1) as nat, |j: int| upsample_step((l - 2 - j) as nat)),
            steps@ == head + ups.subrange(0, k as int),
        decreases l - 1 - k,
    {
        let target = l - 2 - k;
        steps.push(
            BloomStep::Upsample {
                target,
                coarser: BloomSource::Upsample { level: target + 1 },
                same_size: BloomSource::Downsample { level: target },
            },
        );
        k = k + 1;
        assert(steps@ =~= head + ups.subrange(0, k as int));
    }
    assert(ups.subrange(0, (l - 1) as int) =~= ups);
    steps.push(BloomStep::Merge);
    assert(steps@ =~= bloom_plan(l as nat));
    steps
}

/// The chain texture a step writes; `None` for the bloom output.
pub open spec fn step_writes(s: BloomStep) -> Option<BloomSource> {
    match s {
        BloomStep::Downsample { target, .. } => Some(BloomSource::Downsample { level: target }),
        BloomStep::FirstUpsample { target, .. } => Some(BloomSource::Upsample { level: target }),
        BloomStep::Upsample { target, .. } => Some(BloomSource::Upsample { level: target }),
        BloomStep::Merge => None,
        BloomStep::Copy => None,
    }
}

/// The textures a step reads.
pub open spec fn step_reads(s: BloomStep) -> Seq<BloomSource> {
    match s {
        BloomStep::Downsample { source, .. } => seq![source],
        BloomStep::FirstUpsample { source, .. } => seq![source],
        BloomStep::Upsample { coarser, same_size, .. } => seq![coarser, same_size],
        BloomStep::Merge => seq![BloomSource::Input, BloomSource::Upsample { level: 0 }],
        BloomStep::Copy => seq![BloomSource::Input],
    }
}

/// `src` is the input or a level that exists in a chain of `l` levels.
pub open spec fn in_chain(src: BloomSource, l: nat) -> bool {
    match src {
        BloomSource::Input => true,
        BloomSource::Downsample { level } => level < l,
        BloomSource::Upsample { level } => level < l,
    }
}

/// The position in `bloom_plan(l)` of the step that writes chain level `src`.
pub open spec fn writer_index(src: BloomSource, l: nat) -> int {
    match src {
        BloomSource::Input => -1,
        BloomSource::Downsample { level } => level as int,
        BloomSource::Upsample { level } => if level == l - 1 {
            l as int
        } else {
            2 * l - 1 - level
        },
    }
}

/// The bloom passes never touch a level outside the chain, and every chain
/// level a pass reads was written by an earlier pass of the same frame, so
/// the chain can be walked without indexing errors for any level count,
/// none included.
pub proof fn lemma_bloom_plan_sound(l: nat)
    requires
        l < 0x1_0000_0000,
    ensures
        forall|j: int|
            0 <= j < bloom_plan(l).len() ==> match #[trigger] step_writes(bloom_plan(l)[j]) {
                Some(w) => in_chain(w, l) && writer_index(w, l) == j,
                None => true,
            },
        forall|j: int, r: int|
            0 <= j < bloom_plan(l).len() && 0 <= r < step_reads(bloom_plan(l)[j]).len() ==> {
                let src = #[trigger] step_reads(bloom_plan(l)[j])[r];
                &&& in_chain(src, l)
                &&& src != BloomSource::Input ==> {
                    &&& 0 <= writer_index(src, l) < j
                    &&& step_writes(bloom_plan(l)[writer_index(src, l)]) == Some(src)
                }
            },
{
    let p = bloom_plan(l);
    if l > 0 {
        assert forall|j: int| 0 <= j < p.len() implies match #[trigger] step_writes(p[j]) {
            Some(w) => in_chain(w, l) && writer_index(w, l) == j,
            None => true,
        } by {
            if j < l {
                assert(p[j] == downsample_step(j as nat));
            } else if j == l {
            } else if j < 2 * l {
                assert(p[j] == upsample_step((l - 2 - (j - l - 1)) as nat));
            }
        }
        assert forall|j: int, r: int|
            0 <= j < p.len() && 0 <= r < step_reads(p[j]).len() implies {
            let src = #[trigger] step_reads(p[j])[r];
            &&& in_chain(src, l)
            &&& src != BloomSource::Input ==> {
                &&& 0 <= writer_index(src, l) < j
                &&& step_writes(p[writer_index(src, l)]) == Some(src)
            }
        } by {
            if j < l {
                assert(p[j] == downsample_step(j as nat));
                if j > 0 {
                    assert(p[j - 1] == downsample_step((j - 1) as nat));
                }
            } else if j == l {
                assert(p[l - 1] == downsample_step((l - 1) as nat));
            } else if j < 2 * l {
                let i = l - 2 - (j - l - 1);
                assert(p[j] == upsample_step(i as nat));
                assert(p[i] == downsample_step(i as nat));
                if i + 1 < l - 1 {
                    assert(p[j - 1] == upsample_step((i + 1) as nat));
                }
            } else {
                if l > 1 {
                    assert(p[2 * l - 1] == upsample_step(0));
                }
            }
        }
    }
}

} // verus!
