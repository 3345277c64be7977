//! Per-frame renderer statistics for the HUD, tallied from the batches a
//! frame draws: one draw call per batch, each batch drawing its prototype
//! mesh once per instance.

use vstd::prelude::*;

verus! {

/// Draw counts of one instanced batch: the index count of its prototype
/// mesh and the number of instances drawn (for a GPU-culled batch, its
/// source instance count).
#[derive(Debug, Clone, Copy)]
pub struct BatchCounts {
    pub index_count: u32,
    pub instance_count: u32,
}

/// Per-frame stats for the HUD.
#[derive(Debug, Clone, Copy)]
pub struct RenderStats {
    pub draw_calls: u32,
    pub total_instances: u32,
    pub total_triangles: u32,
    /// Source (pre-cull) instance count in cullable batches.
    pub cullable_source: u32,
}

/// Total instances drawn by `batches`.
pub open spec fn instance_sum(batches: Seq<BatchCounts>) -> int
    decreases batches.len(),
{
    if batches.len() == 0 {
        0
    } else {
        instance_sum(batches.drop_last()) + batches.last().instance_count
    }
}

/// Total triangles drawn by `batches`: each instance draws the prototype's
/// `index_count / 3` triangles.
pub open spec fn triangle_sum(batches: Seq<BatchCounts>) -> int
    decreases batches.len(),
{
    if batches.len() == 0 {
        0
    } else {
        triangle_sum(batches.drop_last()) + (batches.last().index_count / 3)
            * batches.last().instance_count
    }
}

proof fn lemma_sums_grow(batches: Seq<BatchCounts>, i: int)
    requires
        0 <= i <= batches.len(),
    ensures
        0 <= instance_sum(batches.subrange(0, i)) <= instance_sum(batches),
        0 <= triangle_sum(batches.subrange(0, i)) <= triangle_sum(batches),
    decreases batches.len(),
{
    if batches.len() > 0 {
        let last = batches.last();
        assert(0 <= (last.index_count / 3) * last.instance_count) by (nonlinear_arith);
        if i == batches.len() {
            assert(batches.subrange(0, i) =~= batches);
            lemma_sums_grow(batches.drop_last(), i - 1);
        } else {
            assert(batches.subrange(0, i) =~= batches.drop_last().subrange(0, i));
            lemma_sums_grow(batches.drop_last(), i);
        }
    }
}

proof fn lemma_sums_step(batches: Seq<BatchCounts>, i: int)
    requires
        0 <= i < batches.len(),
    ensures
        instance_sum(batches.subrange(0, i + 1)) == instance_sum(batches.subrange(0, i))
            + batches[i].instance_count,
        triangle_sum(batches.subrange(0, i + 1)) == triangle_sum(batches.subrange(0, i)) + (
        batches[i].index_count / 3) * batches[i].instance_count,
{
    assert(batches.subrange(0, i + 1).drop_last() =~= batches.subrange(0, i));
}

impl Default for RenderStats {
    fn default() -> (stats: Self)
        ensures
            stats.draw_calls == 0,
            stats.total_instances == 0,
            stats.total_triangles == 0,
            stats.cullable_source == 0,
    {
        RenderStats { draw_calls: 0, total_instances: 0, total_triangles: 0, cullable_source: 0 }
    }
}

impl RenderStats {
    /// Stats of a frame that draws the fixed-count `batches` and then the
    /// GPU-culled `cullable` batches (counted at their source instance count).
    pub fn from_batches(batches: &Vec<BatchCounts>, cullable: &Vec<BatchCounts>) -> (stats: Self)
        requires
            batches@.len() + cullable@.len() <= u32::MAX,
            instance_sum(batches@) + instance_sum(cullable@) <= u32::MAX,
            triangle_sum(batches@) + triangle_sum(cullable@) <= u32::MAX,
        ensures
            stats.draw_calls == batches@.len() + cullable@.len(),
            stats.total_instances == instance_sum(batches@) + instance_sum(cullable@),
            stats.total_triangles == triangle_sum(batches@) + triangle_sum(cullable@),
            stats.cullable_source == instance_sum(cullable@),
    {
        proof {
            lemma_sums_grow(batches@, batches@.len() as int);
            lemma_sums_grow(cullable@, cullable@.len() as int);
        }
        let mut cullable_source: u32 = 0;
        for i in 0..cullable.len()
            invariant
                instance_sum(batches@) + instance_sum(cullable@) <= u32::MAX,
                instance_sum(batches@) >= 0,
                cullable_source == instance_sum(cullable@.subrange(0, i as int)),
        {
            proof {
                lemma_sums_step(cullable@, i as int);
                lemma_sums_grow(cullable@, i + 1);
            }
            cullable_source = cullable_source + cullable[i].instance_count;
        }
        proof {
            assert(cullable@.subrange(0, cullable@.len() as int) =~= cullable@);
        }
        let mut draw_calls: u32 = 0;
        let mut total_instances: u32 = 0;
        let mut total_triangles: u32 = 0;
        for i in 0..batches.len()
            invariant
                batches@.len() + cullable@.len() <= u32::MAX,
                instance_sum(batches@) + instance_sum(cullable@) <= u32::MAX,
                triangle_sum(batches@) + triangle_sum(cullable@) <= u32::MAX,
                instance_sum(cullable@) >= 0,
                triangle_sum(cullable@) >= 0,
                draw_calls == i,
                total_instances == instance_sum(batches@.subrange(0, i as int)),
                total_triangles == triangle_sum(batches@.subrange(0, i as int)),
        {
            proof {
                lemma_sums_step(batches@, i as int);
                lemma_sums_grow(batches@, i + 1);
            }
            let b = batches[i];
            draw_calls = draw_calls + 1;
            total_instances = total_instances + b.instance_count;
            assert((b.index_count / 3) * b.instance_count <= u32::MAX);
            total_triangles = total_triangles + (b.index_count / 3) * b.instance_count;
        }
        proof {
            assert(batches@.subrange(0, batches@.len() as int) =~= batches@);
        }
        for i in 0..cullable.len()
            invariant
                batches@.len() + cullable@.len() <= u32::MAX,
                instance_sum(batches@) + instance_sum(cullable@) <= u32::MAX,
                triangle_sum(batches@) + triangle_sum(cullable@) <= u32::MAX,
                draw_calls == batches@.len() + i,
                total_instances == instance_sum(batches@) + instance_sum(
                    cullable@.subrange(0, i as int),
                ),
                total_triangles == triangle_sum(batches@) + triangle_sum(
                    cullable@.subrange(0, i as int),
                ),
        {
            proof {
                lemma_sums_step(cullable@, i as int);
                lemma_sums_grow(cullable@, i + 1);
            }
            let b = cullable[i];
            draw_calls = draw_calls + 1;
            total_instances = total_instances + b.instance_count;
            assert((b.index_count / 3) * b.instance_count <= u32::MAX);
            total_triangles = total_triangles + (b.index_count / 3) * b.instance_count;
        }
        proof {
            assert(cullable@.subrange(0, cullable@.len() as int) =~= cullable@);
        }
        RenderStats { draw_calls, total_instances, total_triangles, cullable_source }
    }
}

} // verus!
