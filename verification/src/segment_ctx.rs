//! The segmentation controller.
//!
//! A metered run consults the controller every few retired instructions with the
//! current instruction count, the trace height of every AIR and a flag per AIR
//! that says whether its height is constant. The controller decides whether the
//! instructions retired since the last boundary have to be closed off as a
//! segment, and keeps the list of segments closed so far.

use vstd::prelude::*;
use vstd::slice::slice_to_vec;
use crate::error::AotError;

verus! {

/// How many instructions pass between two consultations of the controller by default.
pub const DEFAULT_SEGMENT_CHECK_INSNS: u64 = 1000;

/// Default bound on the height of a single trace: `2^23 - 10000`.
pub const DEFAULT_MAX_TRACE_HEIGHT: u32 = 8378608;

/// Default bound on the number of main trace cells of a segment.
pub const DEFAULT_MAX_CELLS: usize = 2_000_000_000;

/// The order of the Baby Bear field, `2^31 - 2^27 + 1`.
pub const BABY_BEAR_ORDER: u32 = 0x78000001;

/// Reads `<p3_baby_bear::BabyBear as p3_field::PrimeField32>::ORDER_U32`.
/// The contract claims that this constant of the field crate is the Baby Bear
/// prime `0x78000001`, as its parameter block defines it.
#[verifier::external_body]
fn baby_bear_order_u32() -> (order: u32)
    ensures
        order == BABY_BEAR_ORDER,
{
    <p3_baby_bear::BabyBear as p3_field::PrimeField32>::ORDER_U32
}

/// A closed run of retired instructions together with the trace heights
/// that were observed when it was closed.
#[derive(Clone, Debug)]
pub struct Segment {
    pub instret_start: u64,
    pub num_insns: u64,
    pub trace_heights: Vec<u32>,
}

/// The mathematical value of a [`Segment`].
pub ghost struct SegmentView {
    pub instret_start: u64,
    pub num_insns: u64,
    pub trace_heights: Seq<u32>,
}

impl View for Segment {
    type V = SegmentView;

    open spec fn view(&self) -> SegmentView {
        SegmentView {
            instret_start: self.instret_start,
            num_insns: self.num_insns,
            trace_heights: self.trace_heights@,
        }
    }
}

impl Segment {
    pub fn new(instret_start: u64, num_insns: u64, trace_heights: Vec<u32>) -> (segment: Self)
        ensures
            segment.instret_start == instret_start,
            segment.num_insns == num_insns,
            segment.trace_heights == trace_heights,
    {
        Segment { instret_start, num_insns, trace_heights }
    }
}

/// Inclusive upper bounds that a segment has to stay under.
#[derive(Clone, Copy, Debug)]
pub struct SegmentationLimits {
    pub max_trace_height: u32,
    pub max_cells: usize,
    pub max_interactions: usize,
}

impl SegmentationLimits {
    pub fn with_max_trace_height(self, max_trace_height: u32) -> (limits: Self)
        ensures
            limits == (SegmentationLimits { max_trace_height, ..self }),
    {
        SegmentationLimits { max_trace_height, ..self }
    }

    pub fn with_max_cells(self, max_cells: usize) -> (limits: Self)
        ensures
            limits == (SegmentationLimits { max_cells, ..self }),
    {
        SegmentationLimits { max_cells, ..self }
    }

    pub fn with_max_interactions(self, max_interactions: usize) -> (limits: Self)
        ensures
            limits == (SegmentationLimits { max_interactions, ..self }),
    {
        SegmentationLimits { max_interactions, ..self }
    }
}

impl Default for SegmentationLimits {
    fn default() -> (limits: Self)
        ensures
            limits.max_trace_height == DEFAULT_MAX_TRACE_HEIGHT,
            limits.max_cells == DEFAULT_MAX_CELLS,
            limits.max_interactions == BABY_BEAR_ORDER,
    {
        SegmentationLimits {
            max_trace_height: DEFAULT_MAX_TRACE_HEIGHT,
            max_cells: DEFAULT_MAX_CELLS,
            max_interactions: baby_bear_order_u32() as usize,
        }
    }
}

/// The axis on which a sample went over its limit.
#[derive(Clone, Copy, Debug, PartialEq, Eq, Structural)]
pub enum SegmentTrigger {
    /// The AIR with this index has a height that is not constant and lies above the limit.
    Height { air_index: usize },
    /// The heights, weighted by the trace widths, sum to more cells than allowed.
    Cells,
    /// The heights plus one padding row each, weighted by the interaction counts,
    /// sum to more interactions than allowed.
    Interactions,
}

/// Sum of `heights[i] * widths[i]` over the first `n` AIRs.
pub open spec fn cells_upto(heights: Seq<u32>, widths: Seq<usize>, n: int) -> int
    decreases n,
{
    if n <= 0 {
        0
    } else {
        cells_upto(heights, widths, n - 1) + heights[n - 1] * widths[n - 1]
    }
}

/// Total number of trace cells of a sample.
pub open spec fn total_cells(heights: Seq<u32>, widths: Seq<usize>) -> int {
    cells_upto(heights, widths, heights.len() as int)
}

/// Sum of `(heights[i] + 1) * interactions[i]` over the first `n` AIRs. The added
/// row stands for the zero-valued messages of one padding row.
pub open spec fn interactions_upto(heights: Seq<u32>, interactions: Seq<usize>, n: int) -> int
    decreases n,
{
    if n <= 0 {
        0
    } else {
        interactions_upto(heights, interactions, n - 1) + (heights[n - 1] + 1) * interactions[n
            - 1]
    }
}

/// Total number of interactions of a sample.
pub open spec fn total_interactions(heights: Seq<u32>, interactions: Seq<usize>) -> int {
    interactions_upto(heights, interactions, heights.len() as int)
}

/// Whether AIR `i` is over the height limit: its height is not constant and exceeds `max`.
pub open spec fn height_over(heights: Seq<u32>, constant: Seq<bool>, max: u32, i: int) -> bool {
    0 <= i < heights.len() && i < constant.len() && !constant[i] && heights[i] > max
}

/// Whether some AIR among the first `n` is over the height limit.
pub open spec fn height_exceeded_upto(
    heights: Seq<u32>,
    constant: Seq<bool>,
    max: u32,
    n: int,
) -> bool {
    exists|i: int| 0 <= i < n && height_over(heights, constant, max, i)
}

/// Whether some AIR is over the height limit.
pub open spec fn height_exceeded(heights: Seq<u32>, constant: Seq<bool>, max: u32) -> bool {
    height_exceeded_upto(heights, constant, max, heights.len() as int)
}

/// Sum of `num_insns` over the first `n` segments.
pub open spec fn insns_upto(segments: Seq<Segment>, n: int) -> int
    decreases n,
{
    if n <= 0 {
        0
    } else {
        insns_upto(segments, n - 1) + segments[n - 1].num_insns
    }
}

/// Number of instructions that the segments hold together.
pub open spec fn total_insns(segments: Seq<Segment>) -> int {
    insns_upto(segments, segments.len() as int)
}

/// The instruction count at which the next segment starts: the end of the last
/// segment, or zero when there is none yet.
pub open spec fn next_start(segments: Seq<Segment>) -> int {
    if segments.len() == 0 {
        0
    } else {
        segments.last().instret_start + segments.last().num_insns
    }
}

/// The segments are in order, none is empty, they leave no gap and do not overlap,
/// the first one starts at zero and each records `airs` trace heights.
pub open spec fn segments_chained(segments: Seq<Segment>, airs: nat) -> bool {
    &&& forall|k: int|
        0 <= k < segments.len() ==> {
            &&& (#[trigger] segments[k]).num_insns >= 1
            &&& segments[k].instret_start + segments[k].num_insns <= u64::MAX
            &&& segments[k].trace_heights@.len() == airs
        }
    &&& segments.len() > 0 ==> segments[0].instret_start == 0
    &&& forall|k: int|
        0 <= k < segments.len() - 1 ==> (#[trigger] segments[k + 1]).instret_start
            == segments[k].instret_start + segments[k].num_insns
}

/// The controller: the segments closed so far, the per-AIR metadata and the limits.
#[derive(Clone, Debug)]
pub struct SegmentationCtx {
    pub segments: Vec<Segment>,
    pub air_names: Vec<String>,
    pub widths: Vec<usize>,
    pub interactions: Vec<usize>,
    pub segmentation_limits: SegmentationLimits,
    pub instret_last_segment_check: u64,
    pub segment_check_insns: u64,
}

impl SegmentationCtx {
    /// Number of AIRs that the controller was made for.
    pub open spec fn num_airs(&self) -> nat {
        self.air_names@.len()
    }

    /// The invariant of the controller: the three metadata sequences have one
    /// length, and the segments form a gapless chain from zero.
    pub open spec fn wf(&self) -> bool {
        &&& self.widths@.len() == self.num_airs()
        &&& self.interactions@.len() == self.num_airs()
        &&& segments_chained(self.segments@, self.num_airs())
    }

    /// Where the next segment starts.
    pub open spec fn spec_instret_start(&self) -> int {
        next_start(self.segments@)
    }

    /// The axis, if any, on which the sample calls for a segment; the axes are
    /// tried in the order height, cells, interactions, and on the height axis
    /// the AIR with the least index is named. A sample that retires no
    /// instruction since the last boundary never calls for one.
    pub open spec fn spec_trigger(
        &self,
        instret: u64,
        heights: Seq<u32>,
        constant: Seq<bool>,
    ) -> Option<SegmentTrigger> {
        let max = self.segmentation_limits.max_trace_height;
        if instret - self.spec_instret_start() == 0 {
            None
        } else if height_exceeded(heights, constant, max) {
            Some(
                SegmentTrigger::Height {
                    air_index: (choose|i: int|
                        height_over(heights, constant, max, i) && !height_exceeded_upto(
                            heights,
                            constant,
                            max,
                            i,
                        )) as usize,
                },
            )
        } else if total_cells(heights, self.widths@) > self.segmentation_limits.max_cells {
            Some(SegmentTrigger::Cells)
        } else if total_interactions(heights, self.interactions@)
            > self.segmentation_limits.max_interactions {
            Some(SegmentTrigger::Interactions)
        } else {
            None
        }
    }

    /// Whether the sample calls for a segment.
    pub open spec fn spec_should_segment(
        &self,
        instret: u64,
        heights: Seq<u32>,
        constant: Seq<bool>,
    ) -> bool {
        &&& instret - self.spec_instret_start() != 0
        &&& {
            ||| height_exceeded(heights, constant, self.segmentation_limits.max_trace_height)
            ||| total_cells(heights, self.widths@) > self.segmentation_limits.max_cells
            ||| total_interactions(heights, self.interactions@)
                > self.segmentation_limits.max_interactions
        }
    }

    /// The segment that closes the instructions up to `instret`.
    pub open spec fn spec_closing_segment(&self, instret: u64, heights: Seq<u32>) -> SegmentView {
        SegmentView {
            instret_start: self.spec_instret_start() as u64,
            num_insns: (instret - self.spec_instret_start()) as u64,
            trace_heights: heights,
        }
    }

    pub fn new(
        air_names: Vec<String>,
        widths: Vec<usize>,
        interactions: Vec<usize>,
        segmentation_limits: SegmentationLimits,
    ) -> (ctx: Self)
        requires
            air_names@.len() == widths@.len(),
            air_names@.len() == interactions@.len(),
        ensures
            ctx.wf(),
            ctx.segments@.len() == 0,
            ctx.air_names == air_names,
            ctx.widths == widths,
            ctx.interactions == interactions,
            ctx.segmentation_limits == segmentation_limits,
            ctx.segment_check_insns == DEFAULT_SEGMENT_CHECK_INSNS,
            ctx.instret_last_segment_check == 0,
    {
        SegmentationCtx {
            segments: Vec::new(),
            air_names,
            widths,
            interactions,
            segmentation_limits,
            segment_check_insns: DEFAULT_SEGMENT_CHECK_INSNS,
            instret_last_segment_check: 0,
        }
    }

    pub fn new_with_default_segmentation_limits(
        air_names: Vec<String>,
        widths: Vec<usize>,
        interactions: Vec<usize>,
    ) -> (ctx: Self)
        requires
            air_names@.len() == widths@.len(),
            air_names@.len() == interactions@.len(),
        ensures
            ctx.wf(),
            ctx.segments@.len() == 0,
            ctx.air_names == air_names,
            ctx.widths == widths,
            ctx.interactions == interactions,
            ctx.segmentation_limits.max_trace_height == DEFAULT_MAX_TRACE_HEIGHT,
            ctx.segmentation_limits.max_cells == DEFAULT_MAX_CELLS,
            ctx.segmentation_limits.max_interactions == BABY_BEAR_ORDER,
            ctx.segment_check_insns == DEFAULT_SEGMENT_CHECK_INSNS,
            ctx.instret_last_segment_check == 0,
    {
        SegmentationCtx {
            segments: Vec::new(),
            air_names,
            widths,
            interactions,
            segmentation_limits: SegmentationLimits::default(),
            segment_check_insns: DEFAULT_SEGMENT_CHECK_INSNS,
            instret_last_segment_check: 0,
        }
    }

    pub fn with_segment_check_insns(self, segment_check_insns: u64) -> (ctx: Self)
        ensures
            ctx == (SegmentationCtx { segment_check_insns, ..self }),
    {
        SegmentationCtx { segment_check_insns, ..self }
    }

    pub fn set_max_trace_height(&mut self, max_trace_height: u32)
        ensures
            *final(self) == (SegmentationCtx {
                segmentation_limits: SegmentationLimits {
                    max_trace_height,
                    ..old(self).segmentation_limits
                },
                ..*old(self)
            }),
    {
        self.segmentation_limits.max_trace_height = max_trace_height;
    }

    pub fn set_max_cells(&mut self, max_cells: usize)
        ensures
            *final(self) == (SegmentationCtx {
                segmentation_limits: SegmentationLimits {
                    max_cells,
                    ..old(self).segmentation_limits
                },
                ..*old(self)
            }),
    {
        self.segmentation_limits.max_cells = max_cells;
    }

    pub fn set_max_interactions(&mut self, max_interactions: usize)
        ensures
            *final(self) == (SegmentationCtx {
                segmentation_limits: SegmentationLimits {
                    max_interactions,
                    ..old(self).segmentation_limits
                },
                ..*old(self)
            }),
    {
        self.segmentation_limits.max_interactions = max_interactions;
    }

    /// The instruction count at which the next segment starts.
    pub fn instret_start(&self) -> (start: u64)
        requires
            self.wf(),
        ensures
            start == self.spec_instret_start(),
    {
        let n = self.segments.len();
        if n == 0 {
            0
        } else {
            let last = &self.segments[n - 1];
            last.instret_start + last.num_insns
        }
    }

    /// Checks the invariant of the controller, whose fields are open to its
    /// users: the metadata sequences have one length, no segment is empty, and
    /// each segment continues where the one before ended.
    pub fn validate(&self) -> (checked: Result<(), AotError>)
        ensures
            checked is Ok <==> self.wf(),
            checked matches Err(error) ==> error == AotError::SegmentInvariantViolated,
    {
        let airs = self.air_names.len();
        if self.widths.len() != airs || self.interactions.len() != airs {
            return Err(AotError::SegmentInvariantViolated);
        }
        let n = self.segments.len();
        let mut expected_start: u64 = 0;
        let mut k: usize = 0;
        while k < n
            invariant
                n == self.segments@.len(),
                airs == self.num_airs(),
                self.widths@.len() == airs,
                self.interactions@.len() == airs,
                k <= n,
                expected_start == next_start(self.segments@.take(k as int)),
                segments_chained(self.segments@.take(k as int), airs as nat),
            decreases n - k,
        {
            let segment = &self.segments[k];
            let ghost before = self.segments@.take(k as int);
            let ghost after = self.segments@.take(k as int + 1);
            proof {
                assert(after.len() == k + 1);
                assert(after[k as int] == self.segments@[k as int]);
                assert forall|j: int| 0 <= j < k implies after[j] == before[j] by {
                }
            }
            if segment.num_insns == 0 || segment.instret_start != expected_start
                || segment.trace_heights.len() != airs || segment.num_insns > u64::MAX
                - segment.instret_start {
                proof {
                    if self.wf() {
                        assert(self.segments@[k as int].num_insns >= 1);
                        if k > 0 {
                            assert(before.last() == self.segments@[k - 1]);
                            assert(self.segments@[(k - 1) + 1].instret_start == self.segments@[k
                                - 1].instret_start + self.segments@[k - 1].num_insns);
                        }
                    }
                }
                return Err(AotError::SegmentInvariantViolated);
            }
            expected_start = segment.instret_start + segment.num_insns;
            proof {
                assert forall|j: int| 0 <= j < after.len() - 1 implies (#[trigger] after[j
                    + 1]).instret_start == after[j].instret_start + after[j].num_insns by {
                    if j + 1 < k {
                        assert(before[j + 1] == after[j + 1]);
                    } else {
                        assert(before.last() == before[k - 1]);
                    }
                }
                assert(after.last() == self.segments@[k as int]);
            }
            k = k + 1;
        }
        assert(self.segments@.take(n as int) =~= self.segments@);
        Ok(())
    }

    /// The total number of cells of the sample, or `None` when it does not fit a `usize`.
    pub fn calculate_total_cells(&self, trace_heights: &[u32]) -> (total: Option<usize>)
        requires
            trace_heights@.len() == self.widths@.len(),
        ensures
            match total {
                Some(cells) => cells == total_cells(trace_heights@, self.widths@),
                None => total_cells(trace_heights@, self.widths@) > usize::MAX,
            },
    {
        let n = trace_heights.len();
        let mut sum: u128 = 0;
        let mut i: usize = 0;
        while i < n
            invariant
                n == trace_heights@.len(),
                n == self.widths@.len(),
                i <= n,
                sum == cells_upto(trace_heights@, self.widths@, i as int),
                sum <= usize::MAX,
            decreases n - i,
        {
            let height: u128 = trace_heights[i] as u128;
            let width: u128 = self.widths[i] as u128;
            assert(height * width <= 0xffff_ffff * 0xffff_ffff_ffff_ffff) by (nonlinear_arith)
                requires
                    0 <= height <= 0xffff_ffff,
                    0 <= width <= 0xffff_ffff_ffff_ffff,
            ;
            sum = sum + height * width;
            i = i + 1;
            if sum > usize::MAX as u128 {
                proof {
                    lemma_cells_upto_monotone(trace_heights@, self.widths@, i as int, n as int);
                }
                return None;
            }
        }
        Some(sum as usize)
    }

    /// The total number of interactions of the sample, or `None` when it does not fit a `usize`.
    pub fn calculate_total_interactions(&self, trace_heights: &[u32]) -> (total: Option<usize>)
        requires
            trace_heights@.len() == self.interactions@.len(),
        ensures
            match total {
                Some(messages) => messages == total_interactions(
                    trace_heights@,
                    self.interactions@,
                ),
                None => total_interactions(trace_heights@, self.interactions@) > usize::MAX,
            },
    {
        let n = trace_heights.len();
        let mut sum: u128 = 0;
        let mut i: usize = 0;
        while i < n
            invariant
                n == trace_heights@.len(),
                n == self.interactions@.len(),
                i <= n,
                sum == interactions_upto(trace_heights@, self.interactions@, i as int),
                sum <= usize::MAX,
            decreases n - i,
        {
            let rows: u128 = trace_heights[i] as u128 + 1;
            let per_row: u128 = self.interactions[i] as u128;
            assert(rows * per_row <= 0x1_0000_0000 * 0xffff_ffff_ffff_ffff) by (nonlinear_arith)
                requires
                    0 <= rows <= 0x1_0000_0000,
                    0 <= per_row <= 0xffff_ffff_ffff_ffff,
            ;
            sum = sum + rows * per_row;
            i = i + 1;
            if sum > usize::MAX as u128 {
                proof {
                    lemma_interactions_upto_monotone(
                        trace_heights@,
                        self.interactions@,
                        i as int,
                        n as int,
                    );
                }
                return None;
            }
        }
        Some(sum as usize)
    }

    /// The least index of an AIR that is over the height limit, if there is one.
    pub fn first_height_over(&self, trace_heights: &[u32], is_trace_height_constant: &[bool]) -> (found:
        Option<usize>)
        requires
            trace_heights@.len() == is_trace_height_constant@.len(),
        ensures
            match found {
                Some(i) => {
                    &&& height_over(
                        trace_heights@,
                        is_trace_height_constant@,
                        self.segmentation_limits.max_trace_height,
                        i as int,
                    )
                    &&& !height_exceeded_upto(
                        trace_heights@,
                        is_trace_height_constant@,
                        self.segmentation_limits.max_trace_height,
                        i as int,
                    )
                },
                None => !height_exceeded(
                    trace_heights@,
                    is_trace_height_constant@,
                    self.segmentation_limits.max_trace_height,
                ),
            },
    {
        let n = trace_heights.len();
        let max = self.segmentation_limits.max_trace_height;
        let mut i: usize = 0;
        while i < n
            invariant
                n == trace_heights@.len(),
                n == is_trace_height_constant@.len(),
                max == self.segmentation_limits.max_trace_height,
                i <= n,
                !height_exceeded_upto(trace_heights@, is_trace_height_constant@, max, i as int),
            decreases n - i,
        {
            if !is_trace_height_constant[i] && trace_heights[i] > max {
                return Some(i);
            }
            i = i + 1;
        }
        None
    }

    /// Names the axis on which the sample calls for a segment, if it does.
    pub fn segment_trigger(
        &self,
        instret: u64,
        trace_heights: &[u32],
        is_trace_height_constant: &[bool],
    ) -> (trigger: Option<SegmentTrigger>)
        requires
            self.wf(),
            instret >= self.spec_instret_start(),
            trace_heights@.len() == self.num_airs(),
            is_trace_height_constant@.len() == self.num_airs(),
        ensures
            trigger == self.spec_trigger(instret, trace_heights@, is_trace_height_constant@),
            trigger is Some == self.spec_should_segment(
                instret,
                trace_heights@,
                is_trace_height_constant@,
            ),
    {
        let instret_start = self.instret_start();
        let num_insns = instret - instret_start;
        if num_insns == 0 {
            return None;
        }
        let ghost max = self.segmentation_limits.max_trace_height;
        match self.first_height_over(trace_heights, is_trace_height_constant) {
            Some(i) => {
                proof {
                    lemma_first_height_over_unique(
                        trace_heights@,
                        is_trace_height_constant@,
                        max,
                        i as int,
                    );
                }
                return Some(SegmentTrigger::Height { air_index: i });
            },
            None => {},
        }
        let over_cells = match self.calculate_total_cells(trace_heights) {
            Some(total) => total > self.segmentation_limits.max_cells,
            None => true,
        };
        if over_cells {
            return Some(SegmentTrigger::Cells);
        }
        let over_interactions = match self.calculate_total_interactions(trace_heights) {
            Some(total) => total > self.segmentation_limits.max_interactions,
            None => true,
        };
        if over_interactions {
            return Some(SegmentTrigger::Interactions);
        }
        None
    }

    /// Decides whether the instructions retired since the last boundary have to be closed.
    pub fn should_segment(
        &self,
        instret: u64,
        trace_heights: &[u32],
        is_trace_height_constant: &[bool],
    ) -> (decision: bool)
        requires
            self.wf(),
            instret >= self.spec_instret_start(),
            trace_heights@.len() == self.num_airs(),
            is_trace_height_constant@.len() == self.num_airs(),
        ensures
            decision == self.spec_should_segment(
                instret,
                trace_heights@,
                is_trace_height_constant@,
            ),
    {
        self.segment_trigger(instret, trace_heights, is_trace_height_constant).is_some()
    }

    /// Consults the controller: closes a segment when the sample calls for one,
    /// and records the instruction count of this consultation either way.
    pub fn check_and_segment(
        &mut self,
        instret: u64,
        trace_heights: &[u32],
        is_trace_height_constant: &[bool],
    ) -> (segmented: bool)
        requires
            old(self).wf(),
            instret >= old(self).spec_instret_start(),
            trace_heights@.len() == old(self).num_airs(),
            is_trace_height_constant@.len() == old(self).num_airs(),
        ensures
            segmented == old(self).spec_should_segment(
                instret,
                trace_heights@,
                is_trace_height_constant@,
            ),
            final(self).wf(),
            final(self).instret_last_segment_check == instret,
            final(self).air_names == old(self).air_names,
            final(self).widths == old(self).widths,
            final(self).interactions == old(self).interactions,
            final(self).segmentation_limits == old(self).segmentation_limits,
            final(self).segment_check_insns == old(self).segment_check_insns,
            segmented ==> {
                &&& final(self).segments@.len() == old(self).segments@.len() + 1
                &&& final(self).segments@.take(old(self).segments@.len() as int) == old(
                    self,
                ).segments@
                &&& final(self).segments@.last()@ == old(self).spec_closing_segment(
                    instret,
                    trace_heights@,
                )
                &&& final(self).spec_instret_start() == instret
            },
            !segmented ==> final(self).segments == old(self).segments,
            segmented ==> total_insns(final(self).segments@) == instret,
            total_insns(final(self).segments@) == final(self).spec_instret_start(),
    {
        let ret = self.should_segment(instret, trace_heights, is_trace_height_constant);
        if ret {
            self.segment(instret, trace_heights);
        }
        self.instret_last_segment_check = instret;
        proof {
            lemma_segmentation_coverage(*self);
        }
        ret
    }

    /// Closes the instructions retired since the last boundary as a new segment.
    pub fn segment(&mut self, instret: u64, trace_heights: &[u32])
        requires
            old(self).wf(),
            instret > old(self).spec_instret_start(),
            trace_heights@.len() == old(self).num_airs(),
        ensures
            final(self).wf(),
            final(self).segments@.len() == old(self).segments@.len() + 1,
            final(self).segments@.take(old(self).segments@.len() as int) == old(self).segments@,
            final(self).segments@.last()@ == old(self).spec_closing_segment(
                instret,
                trace_heights@,
            ),
            final(self).spec_instret_start() == instret,
            total_insns(final(self).segments@) == instret,
            final(self).air_names == old(self).air_names,
            final(self).widths == old(self).widths,
            final(self).interactions == old(self).interactions,
            final(self).segmentation_limits == old(self).segmentation_limits,
            final(self).segment_check_insns == old(self).segment_check_insns,
            final(self).instret_last_segment_check == old(self).instret_last_segment_check,
    {
        let instret_start = self.instret_start();
        let num_insns = instret - instret_start;
        let ghost before = self.segments@;
        self.segments.push(
            Segment { instret_start, num_insns, trace_heights: slice_to_vec(trace_heights) },
        );
        proof {
            let after = self.segments@;
            assert(after.take(before.len() as int) =~= before);
            assert forall|k: int| 0 <= k < after.len() - 1 implies (#[trigger] after[k
                + 1]).instret_start == after[k].instret_start + after[k].num_insns by {
                if k + 1 < before.len() {
                    assert(after[k + 1] == before[k + 1]);
                    assert(after[k] == before[k]);
                } else if before.len() > 0 {
                    assert(after[k] == before.last());
                }
            }
            assert forall|k: int| 0 <= k < after.len() implies {
                &&& (#[trigger] after[k]).num_insns >= 1
                &&& after[k].instret_start + after[k].num_insns <= u64::MAX
                &&& after[k].trace_heights@.len() == self.num_airs()
            } by {
                if k < before.len() {
                    assert(after[k] == before[k]);
                }
            }
            if before.len() > 0 {
                assert(after[0] == before[0]);
            }
            lemma_segmentation_coverage(*self);
        }
    }
}

/// The prefix sums of the cells do not decrease.
pub proof fn lemma_cells_upto_monotone(heights: Seq<u32>, widths: Seq<usize>, i: int, j: int)
    requires
        0 <= i <= j,
    ensures
        cells_upto(heights, widths, i) <= cells_upto(heights, widths, j),
    decreases j - i,
{
    if i < j {
        lemma_cells_upto_monotone(heights, widths, i, j - 1);
        assert(heights[j - 1] * widths[j - 1] >= 0) by (nonlinear_arith)
            requires
                heights[j - 1] >= 0,
                widths[j - 1] >= 0,
        ;
    }
}

/// The prefix sums of the interactions do not decrease.
pub proof fn lemma_interactions_upto_monotone(
    heights: Seq<u32>,
    interactions: Seq<usize>,
    i: int,
    j: int,
)
    requires
        0 <= i <= j,
    ensures
        interactions_upto(heights, interactions, i) <= interactions_upto(heights, interactions, j),
    decreases j - i,
{
    if i < j {
        lemma_interactions_upto_monotone(heights, interactions, i, j - 1);
        assert((heights[j - 1] + 1) * interactions[j - 1] >= 0) by (nonlinear_arith)
            requires
                heights[j - 1] >= 0,
                interactions[j - 1] >= 0,
        ;
    }
}

/// There is one least AIR over the height limit, so naming it is well defined.
pub proof fn lemma_first_height_over_unique(
    heights: Seq<u32>,
    constant: Seq<bool>,
    max: u32,
    i: int,
)
    requires
        height_over(heights, constant, max, i),
        !height_exceeded_upto(heights, constant, max, i),
    ensures
        height_exceeded(heights, constant, max),
        (choose|j: int|
            height_over(heights, constant, max, j) && !height_exceeded_upto(
                heights,
                constant,
                max,
                j,
            )) == i,
{
    let j = choose|j: int|
        height_over(heights, constant, max, j) && !height_exceeded_upto(heights, constant, max, j);
    if j < i {
        assert(height_over(heights, constant, max, j));
    } else if i < j {
        assert(height_over(heights, constant, max, i));
    }
}

/// The instruction counts of chained segments add up to the end of the last one.
pub proof fn lemma_insns_upto_chain(segments: Seq<Segment>, airs: nat, n: int)
    requires
        segments_chained(segments, airs),
        0 < n <= segments.len(),
    ensures
        insns_upto(segments, n) == segments[n - 1].instret_start + segments[n - 1].num_insns,
    decreases n,
{
    if n == 1 {
        assert(insns_upto(segments, 0) == 0);
    } else {
        lemma_insns_upto_chain(segments, airs, n - 1);
        assert(segments[(n - 2) + 1].instret_start == segments[n - 2].instret_start + segments[n
            - 2].num_insns);
    }
}

/// Segmentation coverage. In every state of a controller the segments follow
/// one another without gap or overlap, and their instruction counts add up to the
/// boundary that the last one ends at. Right after `segment` or a
/// `check_and_segment` that closed one, that boundary is the instruction count
/// handed in; so a run that closes its last segment at the final count is covered
/// in full.
pub proof fn lemma_segmentation_coverage(ctx: SegmentationCtx)
    requires
        ctx.wf(),
    ensures
        total_insns(ctx.segments@) == ctx.spec_instret_start(),
        forall|i: int|
            0 <= i < ctx.segments@.len() - 1 ==> (#[trigger] ctx.segments@[i + 1]).instret_start
                == ctx.segments@[i].instret_start + ctx.segments@[i].num_insns,
        forall|i: int| 0 <= i < ctx.segments@.len() ==> (#[trigger] ctx.segments@[i]).num_insns >= 1,
{
    if ctx.segments@.len() > 0 {
        lemma_insns_upto_chain(ctx.segments@, ctx.num_airs(), ctx.segments@.len() as int);
    }
}

/// Height-axis trigger. When some AIR whose height is not constant lies above
/// the height limit and at least one instruction was retired since the last
/// boundary, the sample calls for a segment, the height axis is the one named,
/// and the segment to close holds exactly the instructions since that boundary.
pub proof fn lemma_height_axis_trigger(
    ctx: SegmentationCtx,
    instret: u64,
    heights: Seq<u32>,
    constant: Seq<bool>,
    air: int,
)
    requires
        ctx.wf(),
        heights.len() <= usize::MAX,
        instret > ctx.spec_instret_start(),
        height_over(heights, constant, ctx.segmentation_limits.max_trace_height, air),
    ensures
        ctx.spec_should_segment(instret, heights, constant),
        ctx.spec_trigger(instret, heights, constant) matches Some(
            SegmentTrigger::Height { air_index },
        ) && air_index <= air && height_over(
            heights,
            constant,
            ctx.segmentation_limits.max_trace_height,
            air_index as int,
        ),
        ctx.spec_closing_segment(instret, heights).instret_start == ctx.spec_instret_start(),
        ctx.spec_closing_segment(instret, heights).num_insns == instret - ctx.spec_instret_start(),
        ctx.spec_closing_segment(instret, heights).trace_heights == heights,
{
    let max = ctx.segmentation_limits.max_trace_height;
    let first = lemma_least_height_over(heights, constant, max, air);
    lemma_first_height_over_unique(heights, constant, max, first);
    if ctx.segments@.len() > 0 {
        assert(ctx.segments@.last() == ctx.segments@[ctx.segments@.len() - 1]);
    }
}

/// Among the AIRs over the height limit there is a least one.
pub proof fn lemma_least_height_over(
    heights: Seq<u32>,
    constant: Seq<bool>,
    max: u32,
    air: int,
) -> (first: int)
    requires
        height_over(heights, constant, max, air),
    ensures
        0 <= first <= air,
        height_over(heights, constant, max, first),
        !height_exceeded_upto(heights, constant, max, first),
    decreases air,
{
    if height_exceeded_upto(heights, constant, max, air) {
        let below = choose|i: int| 0 <= i < air && height_over(heights, constant, max, i);
        lemma_least_height_over(heights, constant, max, below)
    } else {
        air
    }
}

/// Constant-AIR exemption. The height of an AIR that is flagged constant has no
/// part in the height axis: whatever height it holds, the axis reads the same.
pub proof fn lemma_constant_air_exempt(
    heights: Seq<u32>,
    constant: Seq<bool>,
    max: u32,
    air: int,
    height: u32,
)
    requires
        0 <= air < heights.len(),
        air < constant.len(),
        constant[air],
    ensures
        height_exceeded(heights.update(air, height), constant, max) == height_exceeded(
            heights,
            constant,
            max,
        ),
{
    let changed = heights.update(air, height);
    if height_exceeded(heights, constant, max) {
        let i = choose|i: int| 0 <= i < heights.len() && height_over(heights, constant, max, i);
        assert(height_over(changed, constant, max, i));
    }
    if height_exceeded(changed, constant, max) {
        let i = choose|i: int| 0 <= i < changed.len() && height_over(changed, constant, max, i);
        assert(height_over(heights, constant, max, i));
    }
}

/// A sample whose heights are all flagged constant never calls for a segment on
/// the height axis; only the cell and interaction sums can.
pub proof fn lemma_all_constant_never_height(
    ctx: SegmentationCtx,
    instret: u64,
    heights: Seq<u32>,
    constant: Seq<bool>,
)
    requires
        forall|i: int| 0 <= i < constant.len() ==> constant[i],
    ensures
        !height_exceeded(heights, constant, ctx.segmentation_limits.max_trace_height),
        !(ctx.spec_trigger(instret, heights, constant) matches Some(SegmentTrigger::Height { .. })),
        ctx.spec_should_segment(instret, heights, constant) ==> {
            ||| total_cells(heights, ctx.widths@) > ctx.segmentation_limits.max_cells
            ||| total_interactions(heights, ctx.interactions@)
                > ctx.segmentation_limits.max_interactions
        },
{
}

/// A sample within all limits calls for no segment. Where every AIR is flagged
/// constant or lies at or below the height limit, and the cells and the
/// interactions, summed over all AIRs, stay at or below theirs, the decision
/// is not to segment, however high the AIRs flagged constant are.
pub proof fn lemma_within_limits_no_segment(
    ctx: SegmentationCtx,
    instret: u64,
    heights: Seq<u32>,
    constant: Seq<bool>,
)
    requires
        forall|i: int|
            0 <= i < heights.len() && i < constant.len() ==> constant[i] || heights[i]
                <= ctx.segmentation_limits.max_trace_height,
        total_cells(heights, ctx.widths@) <= ctx.segmentation_limits.max_cells,
        total_interactions(heights, ctx.interactions@) <= ctx.segmentation_limits.max_interactions,
    ensures
        !ctx.spec_should_segment(instret, heights, constant),
        ctx.spec_trigger(instret, heights, constant) is None,
{
}

} // verus!
