//! Per-frame render graph: pass ordering and image-layout barriers.
use vstd::prelude::*;

use crate::vk::{
    Extent2D, ImageBarrier, SubresourceRange, ACCESS_COLOR_ATTACHMENT_WRITE, ACCESS_MEMORY_READ,
    ACCESS_MEMORY_WRITE, ACCESS_SHADER_READ, IMAGE_ASPECT_COLOR,
    IMAGE_LAYOUT_COLOR_ATTACHMENT_OPTIMAL, IMAGE_LAYOUT_PRESENT_SRC_KHR,
    IMAGE_LAYOUT_SHADER_READ_ONLY_OPTIMAL, IMAGE_LAYOUT_UNDEFINED, PIPELINE_STAGE_ALL_COMMANDS,
    PIPELINE_STAGE_BOTTOM_OF_PIPE, PIPELINE_STAGE_COLOR_ATTACHMENT_OUTPUT,
    PIPELINE_STAGE_FRAGMENT_SHADER, PIPELINE_STAGE_TOP_OF_PIPE,
};

verus! {

/// Opaque handle to a resource registered with a [`FrameGraph`].
#[derive(Clone, Copy, PartialEq, Eq, Hash, Debug, Structural)]
pub struct ResourceId(usize);

impl ResourceId {
    /// Position of the resource in its graph.
    pub closed spec fn index(self) -> int {
        self.0 as int
    }
}

/// How a pass uses a resource.
#[derive(Clone, Copy, PartialEq, Eq, Debug, Structural)]
pub enum AttachmentUsage {
    /// Pass writes this as a color attachment.
    ///
    /// The render pass starts from `UNDEFINED` and leaves the image in
    /// `COLOR_ATTACHMENT_OPTIMAL`; a barrier stands before any later pass that reads
    /// the resource.
    ColorWrite,
    /// Pass reads this resource in a fragment shader (sampled texture).
    ///
    /// A barrier brings the image to `SHADER_READ_ONLY_OPTIMAL` before the pass.
    ShaderSample,
}

/// Image registered with a graph.
#[derive(Clone, Copy, PartialEq, Eq, Debug, Structural)]
pub struct FrameResource {
    pub image: u64,
    pub view: u64,
    pub format: i32,
    pub extent: Extent2D,
    pub initial_layout: i32,
}

/// One declared use of a resource by a pass.
pub type Attachment = (ResourceId, AttachmentUsage);

struct PassDef {
    attachments: Vec<Attachment>,
}

/// Lightweight per-frame render graph.
///
/// Tracks image layouts across passes, inserts barriers between passes when a
/// resource's layout must change, orders passes by resource dependencies, and adds a
/// final transition to `PRESENT_SRC_KHR` for the resource marked for presentation.
/// The commands of a pass are recorded by the caller, which identifies a pass by its
/// position.
pub struct FrameGraph {
    resources: Vec<FrameResource>,
    passes: Vec<PassDef>,
    present_resource: Option<ResourceId>,
}

/// Contents of a graph: its resources, the attachments of each pass, and the present
/// target.
pub struct FrameGraphView {
    pub resources: Seq<FrameResource>,
    pub passes: Seq<Seq<Attachment>>,
    pub present_resource: Option<ResourceId>,
}

// ── Pass dependencies ──────────────────────────────────────────────────────────

/// Pass `p` declares the use `usage` of resource `res`.
pub open spec fn uses(passes: Seq<Seq<Attachment>>, p: int, res: int, usage: AttachmentUsage) -> bool {
    exists|k: int|
        0 <= k < passes[p].len() && (#[trigger] passes[p][k]).0.index() == res && passes[p][k].1 == usage
}

/// Pass `w` writes resource `res` and pass `r` samples it.
pub open spec fn shares(passes: Seq<Seq<Attachment>>, w: int, r: int, res: int) -> bool {
    uses(passes, w, res, AttachmentUsage::ColorWrite) && uses(
        passes,
        r,
        res,
        AttachmentUsage::ShaderSample,
    )
}

/// Lowest resource below `limit` that `w` writes and `r` samples; `limit` if there is none.
pub open spec fn first_shared(passes: Seq<Seq<Attachment>>, w: int, r: int, limit: nat) -> nat
    decreases limit,
{
    if limit == 0 {
        0
    } else {
        let below = first_shared(passes, w, r, (limit - 1) as nat);
        if below < limit - 1 {
            below
        } else if shares(passes, w, r, limit - 1) {
            (limit - 1) as nat
        } else {
            limit
        }
    }
}

/// Pass `r` must come after pass `w`: it samples one of the first `limit` resources that
/// `w` writes.
pub open spec fn depends(passes: Seq<Seq<Attachment>>, limit: nat, w: int, r: int) -> bool {
    &&& 0 <= w < passes.len()
    &&& 0 <= r < passes.len()
    &&& w != r
    &&& first_shared(passes, w, r, limit) < limit
}

/// Last position before `k` in `order` that holds a pass `v` depends on; -1 if there is none.
pub open spec fn released_at(
    passes: Seq<Seq<Attachment>>,
    limit: nat,
    order: Seq<usize>,
    v: int,
    k: int,
) -> int
    decreases k,
{
    if k <= 0 {
        -1
    } else if depends(passes, limit, order[k - 1] as int, v) {
        k - 1
    } else {
        released_at(passes, limit, order, v, k - 1)
    }
}

/// Pass `a` is taken up before pass `b` in the schedule `order`: its last dependency is
/// done earlier; on a tie, passes without dependencies go by position, and passes that
/// the same pass releases go by the resource that links them to it, then by position.
pub open spec fn taken_before(
    passes: Seq<Seq<Attachment>>,
    limit: nat,
    order: Seq<usize>,
    a: int,
    b: int,
) -> bool {
    let ra = released_at(passes, limit, order, a, order.len() as int);
    let rb = released_at(passes, limit, order, b, order.len() as int);
    if ra != rb {
        ra < rb
    } else if ra < 0 {
        a < b
    } else {
        linked_before(passes, limit, order[ra] as int, a, b)
    }
}

/// Among the passes that depend on `u`, `a` is linked to it before `b`: by a lower resource,
/// or by the same resource and at a lower position.
pub open spec fn linked_before(
    passes: Seq<Seq<Attachment>>,
    limit: nat,
    u: int,
    a: int,
    b: int,
) -> bool {
    let la = first_shared(passes, u, a, limit);
    let lb = first_shared(passes, u, b, limit);
    la < lb || (la == lb && a < b)
}

/// `order` is the schedule of `passes`: each scheduled pass occurs once and after every
/// pass it depends on, a pass is left out only for a dependency that is left out, and
/// passes stand in the order in which they are taken up.
pub open spec fn is_schedule(passes: Seq<Seq<Attachment>>, limit: nat, order: Seq<usize>) -> bool {
    &&& forall|i: int| 0 <= i < order.len() ==> (#[trigger] order[i]) < passes.len()
    &&& forall|i: int, j: int| 0 <= i < j < order.len() ==> #[trigger] order[i] != #[trigger] order[j]
    &&& forall|w: int, j: int|
        0 <= j < order.len() && #[trigger] depends(passes, limit, w, #[trigger] order[j] as int)
            ==> position_before(order, w, j)
    &&& forall|v: int|
        0 <= v < passes.len() && !(#[trigger] scheduled(order, v)) ==> exists|w: int| #[trigger]
            depends(passes, limit, w, v) && !scheduled(order, w)
    &&& forall|i: int, j: int|
        0 <= i < j < order.len() ==> #[trigger] taken_before(
            passes,
            limit,
            order,
            order[i] as int,
            order[j] as int,
        )
}

/// The schedule of `passes`, as far as dependencies give an order; [`schedule_is_unique`] shows
/// that there is no other.
pub open spec fn schedule(passes: Seq<Seq<Attachment>>, limit: nat) -> Seq<usize> {
    choose|order: Seq<usize>| is_schedule(passes, limit, order)
}

/// Passes below `n` that are not in `order`, in the order in which they were added.
pub open spec fn left_over(order: Seq<usize>, n: int) -> Seq<usize>
    decreases n,
{
    if n <= 0 {
        Seq::empty()
    } else if scheduled(order, n - 1) {
        left_over(order, n - 1)
    } else {
        left_over(order, n - 1).push((n - 1) as usize)
    }
}

/// Order in which all `n` passes are recorded: those of a schedule, then the others. The others
/// wait for each other, or for one that does, so that no order meets all their dependencies.
pub open spec fn completed(order: Seq<usize>, n: int) -> Seq<usize> {
    order + left_over(order, n)
}

/// Order in which `passes` are recorded.
pub open spec fn pass_order(passes: Seq<Seq<Attachment>>, limit: nat) -> Seq<usize> {
    completed(schedule(passes, limit), passes.len() as int)
}

/// `v` occurs in `order`.
pub open spec fn scheduled(order: Seq<usize>, v: int) -> bool {
    position_before(order, v, order.len() as int)
}

/// `v` occurs in `order` before position `k`.
pub open spec fn position_before(order: Seq<usize>, v: int, k: int) -> bool {
    exists|i: int| 0 <= i < k && #[trigger] order[i] == v
}

/// `out` lists the passes that depend on `w`, each once, in the order of their links.
spec fn is_successors(passes: Seq<Seq<Attachment>>, limit: nat, w: int, out: Seq<usize>) -> bool {
    &&& forall|i: int| 0 <= i < out.len() ==> #[trigger] depends(passes, limit, w, out[i] as int)
    &&& forall|v: int| #[trigger] depends(passes, limit, w, v) ==> scheduled(out, v)
    &&& forall|i: int, j: int|
        0 <= i < j < out.len() ==> #[trigger] linked_before(
            passes,
            limit,
            w,
            out[i] as int,
            out[j] as int,
        )
}

// ── Layouts and barriers ───────────────────────────────────────────────────────

/// Layout that an image must be in when a pass begins to use it.
pub open spec fn target_layout_of(usage: AttachmentUsage) -> i32 {
    match usage {
        AttachmentUsage::ColorWrite => IMAGE_LAYOUT_COLOR_ATTACHMENT_OPTIMAL,
        AttachmentUsage::ShaderSample => IMAGE_LAYOUT_SHADER_READ_ONLY_OPTIMAL,
    }
}

/// Layout that a pass leaves an image in.
pub open spec fn post_layout_of(usage: AttachmentUsage) -> i32 {
    match usage {
        AttachmentUsage::ColorWrite => IMAGE_LAYOUT_COLOR_ATTACHMENT_OPTIMAL,
        AttachmentUsage::ShaderSample => IMAGE_LAYOUT_SHADER_READ_ONLY_OPTIMAL,
    }
}

/// Stages and accesses that last touched an image in `layout`.
pub open spec fn src_info_of(layout: i32) -> (u32, u32) {
    if layout == IMAGE_LAYOUT_UNDEFINED {
        (PIPELINE_STAGE_TOP_OF_PIPE, 0)
    } else if layout == IMAGE_LAYOUT_COLOR_ATTACHMENT_OPTIMAL {
        (PIPELINE_STAGE_COLOR_ATTACHMENT_OUTPUT, ACCESS_COLOR_ATTACHMENT_WRITE)
    } else if layout == IMAGE_LAYOUT_SHADER_READ_ONLY_OPTIMAL {
        (PIPELINE_STAGE_FRAGMENT_SHADER, ACCESS_SHADER_READ)
    } else if layout == IMAGE_LAYOUT_PRESENT_SRC_KHR {
        (PIPELINE_STAGE_BOTTOM_OF_PIPE, 0)
    } else {
        (PIPELINE_STAGE_ALL_COMMANDS, ACCESS_MEMORY_READ | ACCESS_MEMORY_WRITE)
    }
}

/// Stages and accesses with which a pass first touches an image.
pub open spec fn dst_info_of(usage: AttachmentUsage) -> (u32, u32) {
    match usage {
        AttachmentUsage::ColorWrite => (
            PIPELINE_STAGE_COLOR_ATTACHMENT_OUTPUT,
            ACCESS_COLOR_ATTACHMENT_WRITE,
        ),
        AttachmentUsage::ShaderSample => (PIPELINE_STAGE_FRAGMENT_SHADER, ACCESS_SHADER_READ),
    }
}

/// First mip level and first layer of the color aspect.
pub open spec fn color_range() -> SubresourceRange {
    SubresourceRange {
        aspect_mask: IMAGE_ASPECT_COLOR,
        base_mip_level: 0,
        level_count: 1,
        base_array_layer: 0,
        layer_count: 1,
    }
}

/// An image in layout `cur` needs a transition before the use `usage`. A color write takes
/// an undefined image as it is: its render pass discards the contents.
pub open spec fn needs_barrier(cur: i32, usage: AttachmentUsage) -> bool {
    cur != target_layout_of(usage) && !(cur == IMAGE_LAYOUT_UNDEFINED && usage
        == AttachmentUsage::ColorWrite)
}

/// Transition of `image` from layout `cur` to the one that `usage` needs.
pub open spec fn use_barrier(image: u64, cur: i32, usage: AttachmentUsage) -> ImageBarrier {
    ImageBarrier {
        src_access_mask: src_info_of(cur).1,
        dst_access_mask: dst_info_of(usage).1,
        old_layout: cur,
        new_layout: target_layout_of(usage),
        image,
        subresource_range: color_range(),
    }
}

/// Transition of `image` from layout `cur` to the layout for presentation.
pub open spec fn present_barrier(image: u64, cur: i32) -> ImageBarrier {
    ImageBarrier {
        src_access_mask: src_info_of(cur).1,
        dst_access_mask: 0,
        old_layout: cur,
        new_layout: IMAGE_LAYOUT_PRESENT_SRC_KHR,
        image,
        subresource_range: color_range(),
    }
}

/// Barriers before a pass with attachments `atts`, in the order of the attachments.
pub open spec fn pass_barriers(
    resources: Seq<FrameResource>,
    layouts: Seq<i32>,
    atts: Seq<Attachment>,
) -> Seq<ImageBarrier>
    decreases atts.len(),
{
    if atts.len() == 0 {
        Seq::empty()
    } else {
        let rest = pass_barriers(resources, layouts, atts.drop_last());
        let res = atts.last().0.index();
        if needs_barrier(layouts[res], atts.last().1) {
            rest.push(use_barrier(resources[res].image, layouts[res], atts.last().1))
        } else {
            rest
        }
    }
}

/// Union of the stages that the barriers of a pass wait for.
pub open spec fn pass_src_stages(layouts: Seq<i32>, atts: Seq<Attachment>) -> u32
    decreases atts.len(),
{
    if atts.len() == 0 {
        0
    } else {
        let rest = pass_src_stages(layouts, atts.drop_last());
        let cur = layouts[atts.last().0.index()];
        if needs_barrier(cur, atts.last().1) {
            rest | src_info_of(cur).0
        } else {
            rest
        }
    }
}

/// Union of the stages that the barriers of a pass hold back.
pub open spec fn pass_dst_stages(layouts: Seq<i32>, atts: Seq<Attachment>) -> u32
    decreases atts.len(),
{
    if atts.len() == 0 {
        0
    } else {
        let rest = pass_dst_stages(layouts, atts.drop_last());
        if needs_barrier(layouts[atts.last().0.index()], atts.last().1) {
            rest | dst_info_of(atts.last().1).0
        } else {
            rest
        }
    }
}

/// Layouts after a pass with attachments `atts`: each image it uses is left as its last
/// listed use leaves it.
pub open spec fn layouts_after_pass(layouts: Seq<i32>, atts: Seq<Attachment>) -> Seq<i32>
    decreases atts.len(),
{
    if atts.len() == 0 {
        layouts
    } else {
        layouts_after_pass(layouts, atts.drop_last()).update(
            atts.last().0.index(),
            post_layout_of(atts.last().1),
        )
    }
}

/// Last use of resource `res` that a pass lists.
pub open spec fn last_use(atts: Seq<Attachment>, res: int) -> Option<AttachmentUsage>
    decreases atts.len(),
{
    if atts.len() == 0 {
        None
    } else if atts.last().0.index() == res {
        Some(atts.last().1)
    } else {
        last_use(atts.drop_last(), res)
    }
}

/// Layouts before the pass at position `k` of `order`.
pub open spec fn layouts_at(graph: FrameGraphView, order: Seq<usize>, k: int) -> Seq<i32>
    decreases k,
{
    if k <= 0 {
        Seq::new(graph.resources.len(), |i: int| graph.resources[i].initial_layout)
    } else {
        layouts_after_pass(layouts_at(graph, order, k - 1), graph.passes[order[k - 1] as int])
    }
}

/// One step of a compiled graph.
pub enum FrameStep {
    /// Record one pipeline barrier.
    Barrier { src_stages: u32, dst_stages: u32, barriers: Vec<ImageBarrier> },
    /// Record the commands of the pass added at this position.
    Record(usize),
}

/// Mathematical form of a [`FrameStep`].
pub enum FrameStepView {
    Barrier { src_stages: u32, dst_stages: u32, barriers: Seq<ImageBarrier> },
    Record(usize),
}

impl View for FrameStep {
    type V = FrameStepView;

    open spec fn view(&self) -> FrameStepView {
        match *self {
            FrameStep::Barrier { src_stages, dst_stages, barriers } => FrameStepView::Barrier {
                src_stages,
                dst_stages,
                barriers: barriers@,
            },
            FrameStep::Record(p) => FrameStepView::Record(p),
        }
    }
}

/// Steps for the pass at position `k` of `order`: its barriers, if it needs any, then its
/// commands.
pub open spec fn pass_steps(graph: FrameGraphView, order: Seq<usize>, k: int) -> Seq<FrameStepView> {
    let layouts = layouts_at(graph, order, k);
    let atts = graph.passes[order[k] as int];
    let barriers = pass_barriers(graph.resources, layouts, atts);
    if barriers.len() == 0 {
        seq![FrameStepView::Record(order[k])]
    } else {
        seq![
            FrameStepView::Barrier {
                src_stages: pass_src_stages(layouts, atts),
                dst_stages: pass_dst_stages(layouts, atts),
                barriers,
            },
            FrameStepView::Record(order[k]),
        ]
    }
}

/// Steps for the first `k` passes of `order`.
pub open spec fn steps_up_to(graph: FrameGraphView, order: Seq<usize>, k: int) -> Seq<FrameStepView>
    decreases k,
{
    if k <= 0 {
        Seq::empty()
    } else {
        steps_up_to(graph, order, k - 1) + pass_steps(graph, order, k - 1)
    }
}

/// Steps after the last pass: the transition of the present target, unless it is in the
/// layout for presentation already.
pub open spec fn present_steps(graph: FrameGraphView, order: Seq<usize>) -> Seq<FrameStepView> {
    match graph.present_resource {
        None => Seq::empty(),
        Some(id) => {
            let cur = layouts_at(graph, order, order.len() as int)[id.index()];
            if cur == IMAGE_LAYOUT_PRESENT_SRC_KHR {
                Seq::empty()
            } else {
                seq![
                    FrameStepView::Barrier {
                        src_stages: src_info_of(cur).0,
                        dst_stages: PIPELINE_STAGE_BOTTOM_OF_PIPE,
                        barriers: seq![
                            present_barrier(graph.resources[id.index()].image, cur),
                        ],
                    },
                ]
            }
        },
    }
}

/// Number of steps that record pass `v`.
pub open spec fn records(steps: Seq<FrameStepView>, v: usize) -> nat
    decreases steps.len(),
{
    if steps.len() == 0 {
        0
    } else if steps.last() == FrameStepView::Record(v) {
        records(steps.drop_last(), v) + 1
    } else {
        records(steps.drop_last(), v)
    }
}

/// Steps of a compiled graph.
pub open spec fn frame_steps(graph: FrameGraphView) -> Seq<FrameStepView> {
    let order = pass_order(graph.passes, graph.resources.len());
    steps_up_to(graph, order, order.len() as int) + present_steps(graph, order)
}

/// Steps in their mathematical form.
pub open spec fn step_views(steps: Seq<FrameStep>) -> Seq<FrameStepView> {
    steps.map_values(|step: FrameStep| step@)
}

fn target_layout(usage: AttachmentUsage) -> (layout: i32)
    ensures
        layout == target_layout_of(usage),
{
    match usage {
        AttachmentUsage::ColorWrite => IMAGE_LAYOUT_COLOR_ATTACHMENT_OPTIMAL,
        AttachmentUsage::ShaderSample => IMAGE_LAYOUT_SHADER_READ_ONLY_OPTIMAL,
    }
}

fn post_layout(usage: AttachmentUsage) -> (layout: i32)
    ensures
        layout == post_layout_of(usage),
{
    match usage {
        AttachmentUsage::ColorWrite => IMAGE_LAYOUT_COLOR_ATTACHMENT_OPTIMAL,
        AttachmentUsage::ShaderSample => IMAGE_LAYOUT_SHADER_READ_ONLY_OPTIMAL,
    }
}

pub(crate) fn src_info(layout: i32) -> (info: (u32, u32))
    ensures
        info == src_info_of(layout),
{
    if layout == IMAGE_LAYOUT_UNDEFINED {
        (PIPELINE_STAGE_TOP_OF_PIPE, 0)
    } else if layout == IMAGE_LAYOUT_COLOR_ATTACHMENT_OPTIMAL {
        (PIPELINE_STAGE_COLOR_ATTACHMENT_OUTPUT, ACCESS_COLOR_ATTACHMENT_WRITE)
    } else if layout == IMAGE_LAYOUT_SHADER_READ_ONLY_OPTIMAL {
        (PIPELINE_STAGE_FRAGMENT_SHADER, ACCESS_SHADER_READ)
    } else if layout == IMAGE_LAYOUT_PRESENT_SRC_KHR {
        (PIPELINE_STAGE_BOTTOM_OF_PIPE, 0)
    } else {
        (PIPELINE_STAGE_ALL_COMMANDS, ACCESS_MEMORY_READ | ACCESS_MEMORY_WRITE)
    }
}

fn dst_info(usage: AttachmentUsage) -> (info: (u32, u32))
    ensures
        info == dst_info_of(usage),
{
    match usage {
        AttachmentUsage::ColorWrite => (
            PIPELINE_STAGE_COLOR_ATTACHMENT_OUTPUT,
            ACCESS_COLOR_ATTACHMENT_WRITE,
        ),
        AttachmentUsage::ShaderSample => (PIPELINE_STAGE_FRAGMENT_SHADER, ACCESS_SHADER_READ),
    }
}

fn color_subresource() -> (range: SubresourceRange)
    ensures
        range == color_range(),
{
    SubresourceRange {
        aspect_mask: IMAGE_ASPECT_COLOR,
        base_mip_level: 0,
        level_count: 1,
        base_array_layer: 0,
        layer_count: 1,
    }
}

// ── Laws ───────────────────────────────────────────────────────────────────────

/// A graph has at most one schedule.
pub proof fn schedule_is_unique(
    passes: Seq<Seq<Attachment>>,
    limit: nat,
    a: Seq<usize>,
    b: Seq<usize>,
)
    requires
        is_schedule(passes, limit, a),
        is_schedule(passes, limit, b),
    ensures
        a == b,
{
    lemma_same_members(passes, limit, a, b, a.len() as int);
    lemma_same_members(passes, limit, b, a, b.len() as int);
    lemma_same_prefix(passes, limit, a, b, if a.len() < b.len() { a.len() as int } else { b.len() as int });
    if a.len() < b.len() {
        let x = b[a.len() as int] as int;
        assert(scheduled(a, x));
        let i = choose|i: int| 0 <= i < a.len() && #[trigger] a[i] == x;
        assert(b[i] == a[i]);
        assert(b[i] != b[a.len() as int]);
    } else if b.len() < a.len() {
        let x = a[b.len() as int] as int;
        assert(scheduled(b, x));
        let i = choose|i: int| 0 <= i < b.len() && #[trigger] b[i] == x;
        assert(a[i] == b[i]);
        assert(a[i] != a[b.len() as int]);
    }
    assert(a =~= b);
}

/// Every pass of the first `k` in schedule `a` is in schedule `b`.
proof fn lemma_same_members(
    passes: Seq<Seq<Attachment>>,
    limit: nat,
    a: Seq<usize>,
    b: Seq<usize>,
    k: int,
)
    requires
        is_schedule(passes, limit, a),
        is_schedule(passes, limit, b),
        0 <= k <= a.len(),
    ensures
        forall|i: int| 0 <= i < k ==> scheduled(b, #[trigger] a[i] as int),
    decreases k,
{
    if k > 0 {
        lemma_same_members(passes, limit, a, b, k - 1);
        let v = a[k - 1] as int;
        if !scheduled(b, v) {
            let w = choose|w: int| #[trigger] depends(passes, limit, w, v) && !scheduled(b, w);
            assert(depends(passes, limit, w, a[k - 1] as int));
            assert(position_before(a, w, k - 1));
            let i = choose|i: int| 0 <= i < k - 1 && #[trigger] a[i] == w;
            assert(scheduled(b, a[i] as int));
        }
    }
}

/// Two schedules with the same members agree on their first `k` passes.
proof fn lemma_same_prefix(
    passes: Seq<Seq<Attachment>>,
    limit: nat,
    a: Seq<usize>,
    b: Seq<usize>,
    k: int,
)
    requires
        is_schedule(passes, limit, a),
        is_schedule(passes, limit, b),
        0 <= k <= a.len(),
        k <= b.len(),
        forall|i: int| 0 <= i < a.len() ==> scheduled(b, #[trigger] a[i] as int),
        forall|i: int| 0 <= i < b.len() ==> scheduled(a, #[trigger] b[i] as int),
    ensures
        forall|i: int| 0 <= i < k ==> #[trigger] a[i] == b[i],
    decreases k,
{
    if k > 0 {
        lemma_same_prefix(passes, limit, a, b, k - 1);
        let h = k - 1;
        let x = a[h] as int;
        let y = b[h] as int;
        if x != y {
            assert(scheduled(b, a[h] as int));
            let jb = choose|j: int| 0 <= j < b.len() && #[trigger] b[j] == x;
            assert(scheduled(a, b[h] as int));
            let ja = choose|j: int| 0 <= j < a.len() && #[trigger] a[j] == y;
            if jb < h {
                assert(a[jb] == b[jb]);
                assert(a[jb] != a[h]);
            }
            if ja < h {
                assert(a[ja] == b[ja]);
                assert(b[ja] != b[h]);
            }
            assert(taken_before(passes, limit, a, a[h] as int, a[ja] as int));
            assert(taken_before(passes, limit, b, b[h] as int, b[jb] as int));
            lemma_release_in_prefix(passes, limit, a, b, x, h);
            lemma_release_in_prefix(passes, limit, a, b, y, h);
            lemma_released_at(passes, limit, a, x, a.len() as int);
            lemma_released_at(passes, limit, a, y, a.len() as int);
        }
    }
}

/// A pass that either schedule places at `h` is released at the same position in both, if
/// they agree up to `h`.
proof fn lemma_release_in_prefix(
    passes: Seq<Seq<Attachment>>,
    limit: nat,
    a: Seq<usize>,
    b: Seq<usize>,
    x: int,
    h: int,
)
    requires
        is_schedule(passes, limit, a),
        is_schedule(passes, limit, b),
        0 <= h < a.len(),
        h < b.len(),
        x == a[h] || x == b[h],
        forall|i: int| 0 <= i < h ==> #[trigger] a[i] == b[i],
    ensures
        released_at(passes, limit, a, x, a.len() as int) == released_at(
            passes,
            limit,
            b,
            x,
            b.len() as int,
        ),
        released_at(passes, limit, a, x, a.len() as int) < h,
{
    assert forall|w: int| #[trigger] depends(passes, limit, w, x) implies position_before(a, w, h)
        && position_before(b, w, h) by {
        if x == a[h] {
            assert(depends(passes, limit, w, a[h] as int));
            let i = choose|i: int| 0 <= i < h && #[trigger] a[i] == w;
            assert(b[i] == w);
        } else {
            assert(depends(passes, limit, w, b[h] as int));
            let i = choose|i: int| 0 <= i < h && #[trigger] b[i] == w;
            assert(a[i] == w);
        }
    }
    assert forall|i: int| h <= i < a.len() implies !#[trigger] depends(
        passes,
        limit,
        a[i] as int,
        x,
    ) by {
        if depends(passes, limit, a[i] as int, x) {
            let m = choose|m: int| 0 <= m < h && #[trigger] a[m] == a[i] as int;
            assert(a[m] != a[i]);
        }
    }
    assert forall|i: int| h <= i < b.len() implies !#[trigger] depends(
        passes,
        limit,
        b[i] as int,
        x,
    ) by {
        if depends(passes, limit, b[i] as int, x) {
            let m = choose|m: int| 0 <= m < h && #[trigger] b[m] == b[i] as int;
            assert(b[m] != b[i]);
        }
    }
    lemma_released_at_same(passes, limit, a, b, x, h, a.len() as int, b.len() as int);
    lemma_released_at(passes, limit, a, x, a.len() as int);
}

/// A pass that the dependencies give an order comes after every other pass that writes what it
/// samples. Such passes are recorded first, in this order.
pub proof fn writer_precedes_reader(
    passes: Seq<Seq<Attachment>>,
    limit: nat,
    order: Seq<usize>,
    w: int,
    j: int,
    res: int,
)
    requires
        is_schedule(passes, limit, order),
        0 <= w < passes.len(),
        0 <= j < order.len(),
        w != order[j],
        0 <= res < limit,
        uses(passes, w, res, AttachmentUsage::ColorWrite),
        uses(passes, order[j] as int, res, AttachmentUsage::ShaderSample),
    ensures
        exists|i: int| 0 <= i < j && #[trigger] order[i] == w,
{
    lemma_first_shared(passes, w, order[j] as int, limit);
    assert(shares(passes, w, order[j] as int, res));
    assert(depends(passes, limit, w, order[j] as int));
    assert(position_before(order, w, j));
}

/// If no pass depends on itself, directly or through others, the schedule holds every pass and is
/// the order in which they are recorded. `rank` bears witness: it grows along every dependency.
pub proof fn acyclic_graph_is_scheduled(
    passes: Seq<Seq<Attachment>>,
    limit: nat,
    order: Seq<usize>,
    rank: spec_fn(int) -> nat,
)
    requires
        is_schedule(passes, limit, order),
        forall|w: int, r: int| #[trigger] depends(passes, limit, w, r) ==> rank(w) < rank(r),
    ensures
        forall|v: int| 0 <= v < passes.len() ==> #[trigger] scheduled(order, v),
        completed(order, passes.len() as int) == order,
{
    assert forall|v: int| 0 <= v < passes.len() implies #[trigger] scheduled(order, v) by {
        lemma_ranked(passes, limit, order, rank, v);
    }
    lemma_none_left(order, passes.len() as int);
    assert(completed(order, passes.len() as int) =~= order);
}

proof fn lemma_ranked(
    passes: Seq<Seq<Attachment>>,
    limit: nat,
    order: Seq<usize>,
    rank: spec_fn(int) -> nat,
    v: int,
)
    requires
        is_schedule(passes, limit, order),
        forall|w: int, r: int| #[trigger] depends(passes, limit, w, r) ==> rank(w) < rank(r),
        0 <= v < passes.len(),
    ensures
        scheduled(order, v),
    decreases rank(v),
{
    if !scheduled(order, v) {
        let w = choose|w: int| #[trigger] depends(passes, limit, w, v) && !scheduled(order, w);
        lemma_ranked(passes, limit, order, rank, w);
    }
}

proof fn lemma_none_left(order: Seq<usize>, n: int)
    requires
        forall|v: int| 0 <= v < n ==> #[trigger] scheduled(order, v),
    ensures
        left_over(order, n).len() == 0,
    decreases n,
{
    if n > 0 {
        assert(scheduled(order, n - 1));
        lemma_none_left(order, n - 1);
    }
}

/// Passes that wait for each other come last: if every pass of `knot` depends on a pass of
/// `knot`, those of `knot` are recorded after every pass that the dependencies give an order.
pub proof fn cyclic_passes_come_last(
    passes: Seq<Seq<Attachment>>,
    limit: nat,
    order: Seq<usize>,
    knot: Set<int>,
    j: int,
)
    requires
        is_schedule(passes, limit, order),
        forall|v: int| #[trigger]
            knot.contains(v) ==> exists|w: int| knot.contains(w) && #[trigger] depends(
                passes,
                limit,
                w,
                v,
            ),
        0 <= j < completed(order, passes.len() as int).len(),
        knot.contains(completed(order, passes.len() as int)[j] as int),
    ensures
        j >= order.len(),
    decreases j,
{
    if j < order.len() {
        let w = choose|w: int|
            knot.contains(w) && #[trigger] depends(passes, limit, w, order[j] as int);
        assert(position_before(order, w, j));
        let i = choose|i: int| 0 <= i < j && #[trigger] order[i] == w;
        assert(completed(order, passes.len() as int)[i] == order[i]);
        cyclic_passes_come_last(passes, limit, order, knot, i);
    }
}

/// Every pass is recorded exactly once, whatever the dependencies.
pub proof fn every_pass_is_recorded(graph: FrameGraphView, order: Seq<usize>, v: usize)
    requires
        is_schedule(graph.passes, graph.resources.len(), order),
        graph.passes.len() <= usize::MAX,
        v < graph.passes.len(),
    ensures
        frame_steps(graph) == steps_up_to(
            graph,
            completed(order, graph.passes.len() as int),
            graph.passes.len() as int,
        ) + present_steps(graph, completed(order, graph.passes.len() as int)),
        records(frame_steps(graph), v) == 1,
{
    let n = graph.passes.len() as int;
    let all = completed(order, n);
    schedule_is_unique(
        graph.passes,
        graph.resources.len(),
        order,
        schedule(graph.passes, graph.resources.len()),
    );
    lemma_completed(graph.passes, graph.resources.len(), order);
    lemma_step_records(graph, all, all.len() as int, v);
    lemma_records_concat(steps_up_to(graph, all, all.len() as int), present_steps(graph, all), v);
    reveal_with_fuel(records, 2);
    assert(scheduled(all, v as int));
}

/// A completed schedule holds each pass exactly once.
proof fn lemma_completed(passes: Seq<Seq<Attachment>>, limit: nat, order: Seq<usize>)
    requires
        is_schedule(passes, limit, order),
        passes.len() <= usize::MAX,
    ensures
        ({
            let all = completed(order, passes.len() as int);
            &&& all.len() == passes.len()
            &&& forall|i: int| 0 <= i < all.len() ==> (#[trigger] all[i]) < passes.len()
            &&& forall|i: int, j: int|
                0 <= i < j < all.len() ==> #[trigger] all[i] != #[trigger] all[j]
            &&& forall|v: int| 0 <= v < passes.len() ==> #[trigger] scheduled(all, v)
        }),
{
    let n = passes.len() as int;
    let rest = left_over(order, n);
    let all = completed(order, n);
    lemma_left_over(order, n);
    assert forall|i: int| 0 <= i < all.len() implies (#[trigger] all[i]) < passes.len() by {
        if i >= order.len() {
            assert(all[i] == rest[i - order.len()]);
        }
    }
    assert forall|i: int, j: int| 0 <= i < j < all.len() implies #[trigger] all[i]
        != #[trigger] all[j] by {
        if j >= order.len() {
            assert(all[j] == rest[j - order.len()]);
            if i >= order.len() {
                assert(all[i] == rest[i - order.len()]);
            } else {
                assert(all[i] == order[i]);
                assert(!scheduled(order, rest[j - order.len()] as int));
            }
        }
    }
    assert forall|v: int| 0 <= v < passes.len() implies #[trigger] scheduled(all, v) by {
        if scheduled(order, v) {
            let i = choose|i: int| 0 <= i < order.len() && #[trigger] order[i] == v;
            assert(all[i] == v);
        } else {
            assert(scheduled(rest, v));
            let i = choose|i: int| 0 <= i < rest.len() && #[trigger] rest[i] == v;
            assert(all[order.len() + i] == v);
        }
    }
    lemma_distinct_len(all, passes.len());
    lemma_covers_len(all, passes.len());
}

/// What is left over is in rising order, is not scheduled, and leaves nothing out.
proof fn lemma_left_over(order: Seq<usize>, n: int)
    requires
        0 <= n <= usize::MAX,
    ensures
        ({
            let rest = left_over(order, n);
            &&& forall|i: int|
                0 <= i < rest.len() ==> (#[trigger] rest[i]) < n && !scheduled(
                    order,
                    rest[i] as int,
                )
            &&& forall|i: int, j: int|
                0 <= i < j < rest.len() ==> #[trigger] rest[i] < #[trigger] rest[j]
            &&& forall|v: int|
                0 <= v < n && !scheduled(order, v) ==> #[trigger] scheduled(rest, v)
        }),
    decreases n,
{
    if n > 0 {
        lemma_left_over(order, n - 1);
        let before = left_over(order, n - 1);
        let rest = left_over(order, n);
        assert forall|v: int| 0 <= v < n && !scheduled(order, v) implies #[trigger] scheduled(
            rest,
            v,
        ) by {
            if v < n - 1 {
                assert(scheduled(before, v));
                let i = choose|i: int| 0 <= i < before.len() && #[trigger] before[i] == v;
                assert(rest[i] == v);
            } else {
                assert(rest[before.len() as int] == v);
            }
        }
    }
}

/// A sequence that holds all numbers below `n` has at least `n` members.
proof fn lemma_covers_len(order: Seq<usize>, n: nat)
    requires
        forall|v: int| 0 <= v < n ==> #[trigger] scheduled(order, v),
    ensures
        order.len() >= n,
    decreases n,
{
    if n > 0 {
        assert(scheduled(order, n - 1));
        let i = choose|i: int| 0 <= i < order.len() && #[trigger] order[i] == n - 1;
        let fewer = order.remove(i);
        assert forall|v: int| 0 <= v < n - 1 implies #[trigger] scheduled(fewer, v) by {
            assert(scheduled(order, v));
            let j = choose|j: int| 0 <= j < order.len() && #[trigger] order[j] == v;
            if j < i {
                assert(fewer[j] == v);
            } else {
                assert(fewer[j - 1] == v);
            }
        }
        lemma_covers_len(fewer, (n - 1) as nat);
    }
}

proof fn lemma_records_concat(a: Seq<FrameStepView>, b: Seq<FrameStepView>, v: usize)
    ensures
        records(a + b, v) == records(a, v) + records(b, v),
    decreases b.len(),
{
    if b.len() == 0 {
        assert(a + b =~= a);
    } else {
        lemma_records_concat(a, b.drop_last(), v);
        assert((a + b).drop_last() =~= a + b.drop_last());
        assert((a + b).last() == b.last());
    }
}

/// The steps for the first `k` passes of `order` record `v` once if it is among them.
proof fn lemma_step_records(graph: FrameGraphView, order: Seq<usize>, k: int, v: usize)
    requires
        0 <= k <= order.len(),
        forall|i: int, j: int|
            0 <= i < j < order.len() ==> #[trigger] order[i] != #[trigger] order[j],
    ensures
        records(steps_up_to(graph, order, k), v) == (if position_before(order, v as int, k) {
            1nat
        } else {
            0nat
        }),
    decreases k,
{
    if k > 0 {
        let added = pass_steps(graph, order, k - 1);
        lemma_step_records(graph, order, k - 1, v);
        lemma_records_concat(steps_up_to(graph, order, k - 1), added, v);
        assert(records(added, v) == (if order[k - 1] == v {
            1nat
        } else {
            0nat
        })) by {
            reveal_with_fuel(records, 3);
        }
        if position_before(order, v as int, k - 1) {
            let i = choose|i: int| 0 <= i < k - 1 && #[trigger] order[i] == v as int;
            assert(order[i] != order[k - 1]);
            assert(position_before(order, v as int, k));
        } else if order[k - 1] == v {
            assert(position_before(order, v as int, k));
        } else if position_before(order, v as int, k) {
            let i = choose|i: int| 0 <= i < k && #[trigger] order[i] == v as int;
            assert(i < k - 1);
        }
    }
}

/// Before a pass, each image it uses is in the layout it needs, is undefined and about to be
/// overwritten, or gets a barrier from its tracked layout to the one it needs.
pub proof fn attachments_are_ready(
    resources: Seq<FrameResource>,
    layouts: Seq<i32>,
    atts: Seq<Attachment>,
    k: int,
)
    requires
        0 <= k < atts.len(),
    ensures
        ({
            let res = atts[k].0.index();
            let usage = atts[k].1;
            ||| layouts[res] == target_layout_of(usage)
            ||| layouts[res] == IMAGE_LAYOUT_UNDEFINED && usage == AttachmentUsage::ColorWrite
            ||| pass_barriers(resources, layouts, atts).contains(
                use_barrier(resources[res].image, layouts[res], usage),
            )
        }),
    decreases atts.len(),
{
    let rest = pass_barriers(resources, layouts, atts.drop_last());
    let all = pass_barriers(resources, layouts, atts);
    let res = atts[k].0.index();
    let usage = atts[k].1;
    let barrier = use_barrier(resources[res].image, layouts[res], usage);
    if k < atts.len() - 1 {
        attachments_are_ready(resources, layouts, atts.drop_last(), k);
        assert(atts.drop_last()[k] == atts[k]);
        if rest.contains(barrier) {
            let i = choose|i: int| 0 <= i < rest.len() && rest[i] == barrier;
            assert(all[i] == barrier);
        }
    } else if needs_barrier(layouts[res], usage) {
        assert(all[rest.len() as int] == barrier);
    }
}

/// After a pass, the tracked layout of an image is what its last listed use leaves; images
/// that the pass does not use keep their layout.
pub proof fn layouts_follow_uses(layouts: Seq<i32>, atts: Seq<Attachment>, res: int)
    requires
        0 <= res < layouts.len(),
        forall|k: int| 0 <= k < atts.len() ==> (#[trigger] atts[k]).0.index() < layouts.len(),
    ensures
        layouts_after_pass(layouts, atts).len() == layouts.len(),
        layouts_after_pass(layouts, atts)[res] == match last_use(atts, res) {
            Some(usage) => post_layout_of(usage),
            None => layouts[res],
        },
    decreases atts.len(),
{
    if atts.len() > 0 {
        let rest = atts.drop_last();
        assert forall|k: int| 0 <= k < rest.len() implies (#[trigger] rest[k]).0.index()
            < layouts.len() by {
            assert(rest[k] == atts[k]);
        }
        layouts_follow_uses(layouts, rest, res);
        assert(atts[atts.len() - 1].0.index() < layouts.len());
    }
}

/// The present target ends in the layout for presentation: it is there after the last pass,
/// or the last step of the frame is its transition from its tracked layout.
pub proof fn present_target_is_presentable(graph: FrameGraphView, id: ResourceId)
    requires
        graph.present_resource == Some(id),
    ensures
        ({
            let order = pass_order(graph.passes, graph.resources.len());
            let cur = layouts_at(graph, order, order.len() as int)[id.index()];
            ||| cur == IMAGE_LAYOUT_PRESENT_SRC_KHR
            ||| frame_steps(graph).len() > 0 && frame_steps(graph).last()
                == (FrameStepView::Barrier {
                src_stages: src_info_of(cur).0,
                dst_stages: PIPELINE_STAGE_BOTTOM_OF_PIPE,
                barriers: seq![present_barrier(graph.resources[id.index()].image, cur)],
            })
        }),
{
}

/// A barrier of a pass waits for at least one stage and holds back at least one stage.
pub proof fn barrier_stages_are_set(
    resources: Seq<FrameResource>,
    layouts: Seq<i32>,
    atts: Seq<Attachment>,
)
    requires
        pass_barriers(resources, layouts, atts).len() > 0,
    ensures
        pass_src_stages(layouts, atts) != 0,
        pass_dst_stages(layouts, atts) != 0,
    decreases atts.len(),
{
    if atts.len() > 0 {
        let rest = atts.drop_last();
        if pass_barriers(resources, layouts, rest).len() > 0 {
            barrier_stages_are_set(resources, layouts, rest);
        }
        let a = pass_src_stages(layouts, rest);
        let b = src_info_of(layouts[atts.last().0.index()]).0;
        let c = pass_dst_stages(layouts, rest);
        let d = dst_info_of(atts.last().1).0;
        assert(b != 0 && d != 0);
        assert(a | b != 0 && c | d != 0) by (bit_vector)
            requires
                b != 0,
                d != 0,
        ;
    }
}

// ── Lemmas on dependencies ─────────────────────────────────────────────────────

proof fn lemma_first_shared(passes: Seq<Seq<Attachment>>, w: int, r: int, limit: nat)
    ensures
        first_shared(passes, w, r, limit) <= limit,
        forall|k: int|
            0 <= k < first_shared(passes, w, r, limit) ==> !#[trigger] shares(passes, w, r, k),
        first_shared(passes, w, r, limit) < limit ==> shares(
            passes,
            w,
            r,
            first_shared(passes, w, r, limit) as int,
        ),
    decreases limit,
{
    if limit > 0 {
        lemma_first_shared(passes, w, r, (limit - 1) as nat);
    }
}

proof fn lemma_released_at(
    passes: Seq<Seq<Attachment>>,
    limit: nat,
    order: Seq<usize>,
    v: int,
    k: int,
)
    requires
        0 <= k <= order.len(),
    ensures
        -1 <= released_at(passes, limit, order, v, k) < k || (k == 0 && released_at(
            passes,
            limit,
            order,
            v,
            k,
        ) == -1),
        released_at(passes, limit, order, v, k) >= 0 ==> depends(
            passes,
            limit,
            order[released_at(passes, limit, order, v, k)] as int,
            v,
        ),
        forall|i: int|
            released_at(passes, limit, order, v, k) < i < k ==> !#[trigger] depends(
                passes,
                limit,
                order[i] as int,
                v,
            ),
    decreases k,
{
    if k > 0 {
        lemma_released_at(passes, limit, order, v, k - 1);
    }
}

/// The release position depends only on the part of the order that holds dependencies.
proof fn lemma_released_at_same(
    passes: Seq<Seq<Attachment>>,
    limit: nat,
    a: Seq<usize>,
    b: Seq<usize>,
    v: int,
    h: int,
    ka: int,
    kb: int,
)
    requires
        0 <= h <= ka <= a.len(),
        h <= kb <= b.len(),
        forall|i: int| 0 <= i < h ==> #[trigger] a[i] == b[i],
        forall|i: int| h <= i < ka ==> !#[trigger] depends(passes, limit, a[i] as int, v),
        forall|i: int| h <= i < kb ==> !#[trigger] depends(passes, limit, b[i] as int, v),
    ensures
        released_at(passes, limit, a, v, ka) == released_at(passes, limit, b, v, kb),
    decreases ka + kb,
{
    if ka > h {
        lemma_released_at_same(passes, limit, a, b, v, h, ka - 1, kb);
    } else if kb > h {
        lemma_released_at_same(passes, limit, a, b, v, h, ka, kb - 1);
    } else if h > 0 {
        assert(a[h - 1] == b[h - 1]);
        lemma_released_at_same(passes, limit, a, b, v, h - 1, h - 1, h - 1);
    }
}

/// Number of passes below `n` that `v` depends on and that do not occur in `done`.
spec fn pending(
    passes: Seq<Seq<Attachment>>,
    limit: nat,
    done: Seq<usize>,
    v: int,
    n: int,
) -> nat
    decreases n,
{
    if n <= 0 {
        0
    } else {
        pending(passes, limit, done, v, n - 1) + (if depends(passes, limit, n - 1, v) && !scheduled(
            done,
            n - 1,
        ) {
            1nat
        } else {
            0nat
        })
    }
}

proof fn lemma_pending_bound(
    passes: Seq<Seq<Attachment>>,
    limit: nat,
    done: Seq<usize>,
    v: int,
    n: int,
)
    requires
        0 <= n,
    ensures
        pending(passes, limit, done, v, n) <= n,
        pending(passes, limit, done, v, n) == 0 <==> (forall|w: int|
            0 <= w < n && #[trigger] depends(passes, limit, w, v) ==> scheduled(done, w)),
    decreases n,
{
    if n > 0 {
        lemma_pending_bound(passes, limit, done, v, n - 1);
        let p0 = pending(passes, limit, done, v, n - 1) == 0;
        if pending(passes, limit, done, v, n) == 0 {
            assert forall|w: int|
                0 <= w < n && #[trigger] depends(passes, limit, w, v) implies scheduled(
                done,
                w,
            ) by {
                if w == n - 1 {
                }
            }
        } else if p0 {
            assert(depends(passes, limit, n - 1, v) && !scheduled(done, n - 1));
        }
    }
}

/// Finishing `u` takes it off the pending count of every pass that depends on it.
proof fn lemma_pending_push(
    passes: Seq<Seq<Attachment>>,
    limit: nat,
    done: Seq<usize>,
    u: usize,
    v: int,
    n: int,
)
    requires
        0 <= n,
        !scheduled(done, u as int),
    ensures
        pending(passes, limit, done, v, n) == pending(passes, limit, done.push(u), v, n) + (if u < n
            && depends(passes, limit, u as int, v) {
            1nat
        } else {
            0nat
        }),
    decreases n,
{
    if n > 0 {
        lemma_pending_push(passes, limit, done, u, v, n - 1);
        let w = n - 1;
        if scheduled(done, w) {
            let i = choose|i: int| 0 <= i < done.len() && #[trigger] done[i] == w;
            assert(done.push(u)[i] == w);
            assert(scheduled(done.push(u), w));
        }
        if w == u {
            assert(done.push(u)[done.len() as int] == w);
            assert(scheduled(done.push(u), w));
        } else if scheduled(done.push(u), w) {
            let i = choose|i: int| 0 <= i < done.push(u).len() && #[trigger] done.push(u)[i] == w;
            assert(done[i] == w);
        }
    }
}


/// `order` is a partial schedule in which every pass depends only on the first `h` passes.
spec fn partial_schedule(passes: Seq<Seq<Attachment>>, limit: nat, order: Seq<usize>, h: int) -> bool {
    &&& 0 <= h <= order.len()
    &&& forall|i: int| 0 <= i < order.len() ==> (#[trigger] order[i]) < passes.len()
    &&& forall|i: int, j: int| 0 <= i < j < order.len() ==> #[trigger] order[i] != #[trigger] order[j]
    &&& forall|w: int, j: int|
        0 <= j < order.len() && #[trigger] depends(passes, limit, w, #[trigger] order[j] as int)
            ==> position_before(order, w, j) && position_before(order, w, h)
    &&& forall|i: int, j: int|
        0 <= i < j < order.len() ==> #[trigger] taken_before(
            passes,
            limit,
            order,
            order[i] as int,
            order[j] as int,
        )
}

/// A pass whose dependencies lie among the first `h` may be queued behind all passes that
/// are taken up before it.
proof fn lemma_queue(passes: Seq<Seq<Attachment>>, limit: nat, order: Seq<usize>, h: int, v: usize)
    requires
        partial_schedule(passes, limit, order, h),
        v < passes.len(),
        !scheduled(order, v as int),
        forall|w: int| #[trigger] depends(passes, limit, w, v as int) ==> position_before(order, w, h),
        forall|j: int|
            0 <= j < order.len() ==> taken_before(
                passes,
                limit,
                order,
                #[trigger] order[j] as int,
                v as int,
            ),
    ensures
        partial_schedule(passes, limit, order.push(v), h),
{
    let next = order.push(v);
    assert forall|i: int| 0 <= i < order.len() implies #[trigger] next[i] == order[i] by {}
    assert forall|w: int, k: int| 0 <= k <= order.len() && position_before(order, w, k) implies
        #[trigger] position_before(next, w, k) by {
        let i = choose|i: int| 0 <= i < k && #[trigger] order[i] == w;
        assert(next[i] == w);
    }
    assert forall|x: int|
        #![trigger released_at(passes, limit, next, x, next.len() as int)]
        x == v || scheduled(order, x) implies released_at(passes, limit, next, x, next.len() as int)
        == released_at(passes, limit, order, x, order.len() as int) by {
        assert forall|w: int| #[trigger] depends(passes, limit, w, x) implies position_before(
            order,
            w,
            h,
        ) by {
            if x != v {
                let j = choose|j: int| 0 <= j < order.len() && #[trigger] order[j] == x;
                assert(depends(passes, limit, w, order[j] as int));
            }
        }
        assert forall|i: int| h <= i < next.len() implies !#[trigger] depends(
            passes,
            limit,
            next[i] as int,
            x,
        ) by {
            if depends(passes, limit, next[i] as int, x) {
                assert(position_before(order, next[i] as int, h));
                let m = choose|m: int| 0 <= m < h && #[trigger] order[m] == next[i] as int;
                if i < order.len() {
                    assert(order[m] != order[i]);
                } else {
                    assert(scheduled(order, v as int));
                }
            }
        }
        assert forall|i: int| h <= i < order.len() implies !#[trigger] depends(
            passes,
            limit,
            order[i] as int,
            x,
        ) by {
            assert(next[i] == order[i]);
        }
        lemma_released_at_same(
            passes,
            limit,
            next,
            order,
            x,
            h,
            next.len() as int,
            order.len() as int,
        );
        lemma_released_at(passes, limit, order, x, order.len() as int);
    }
    assert forall|i: int, j: int| 0 <= i < j < next.len() implies #[trigger] taken_before(
        passes,
        limit,
        next,
        next[i] as int,
        next[j] as int,
    ) by {
        assert(order[i] == next[i]);
        assert(scheduled(order, next[i] as int));
        if j < order.len() {
            assert(order[j] == next[j]);
            assert(scheduled(order, next[j] as int));
            assert(taken_before(passes, limit, order, order[i] as int, order[j] as int));
        } else {
            assert(taken_before(passes, limit, order, order[i] as int, v as int));
        }
        lemma_released_at(passes, limit, order, next[i] as int, order.len() as int);
    }
    assert forall|i: int, j: int| 0 <= i < j < next.len() implies #[trigger] next[i]
        != #[trigger] next[j] by {
        assert(order[i] == next[i]);
        if j == order.len() {
            if next[i] == next[j] {
                assert(scheduled(order, v as int));
            }
        } else {
            assert(order[j] == next[j]);
        }
    }
    assert forall|w: int, j: int|
        0 <= j < next.len() && #[trigger] depends(passes, limit, w, #[trigger] next[j] as int) implies
        position_before(next, w, j) && position_before(next, w, h) by {
        if j < order.len() {
            assert(order[j] == next[j]);
            assert(depends(passes, limit, w, order[j] as int));
            assert(position_before(next, w, j));
        } else {
            assert(position_before(order, w, h));
            let i = choose|i: int| 0 <= i < h && #[trigger] order[i] == w;
            assert(next[i] == w);
        }
    }
}

proof fn lemma_distinct_len(order: Seq<usize>, n: nat)
    requires
        forall|i: int| 0 <= i < order.len() ==> (#[trigger] order[i]) < n,
        forall|i: int, j: int| 0 <= i < j < order.len() ==> #[trigger] order[i] != #[trigger] order[j],
    ensures
        order.len() <= n,
{
    let range = vstd::set_lib::set_int_range(0, n as int);
    vstd::set_lib::lemma_int_range(0, n as int);
    let ints = order.map_values(|x: usize| x as int);
    assert(ints.no_duplicates()) by {
        assert forall|i: int, j: int|
            0 <= i < ints.len() && 0 <= j < ints.len() && i != j implies ints[i] != ints[j] by {
            assert(ints[i] == order[i] && ints[j] == order[j]);
            if i < j {
                assert(order[i] != order[j]);
            } else {
                assert(order[j] != order[i]);
            }
        }
    }
    ints.unique_seq_to_set();
    assert(ints.to_set().subset_of(range)) by {
        assert forall|x: int| ints.to_set().contains(x) implies range.contains(x) by {
            let i = choose|i: int| 0 <= i < ints.len() && ints[i] == x;
            assert(order[i] < n);
        }
    }
    vstd::set_lib::lemma_len_subset(ints.to_set(), range);
}

/// Finishes the pass at `head`: takes it off the counts of its successors `succ` and queues
/// those that have no dependency left.
fn release(
    succ: &Vec<usize>,
    head: usize,
    order: &mut Vec<usize>,
    in_deg: &mut Vec<usize>,
    Ghost(passes): Ghost<Seq<Seq<Attachment>>>,
    Ghost(limit): Ghost<nat>,
)
    requires
        head < old(order).len(),
        old(in_deg).len() == passes.len(),
        partial_schedule(passes, limit, old(order)@, head as int),
        is_successors(passes, limit, old(order)@[head as int] as int, succ@),
        forall|v: int|
            0 <= v < passes.len() ==> #[trigger] old(in_deg)@[v] == pending(
                passes,
                limit,
                old(order)@.take(head as int),
                v,
                passes.len() as int,
            ),
        forall|v: int|
            0 <= v < passes.len() ==> (#[trigger] scheduled(old(order)@, v) <==> old(in_deg)@[v]
                == 0),
    ensures
        head < final(order).len(),
        final(in_deg).len() == passes.len(),
        partial_schedule(passes, limit, final(order)@, head + 1),
        forall|v: int|
            0 <= v < passes.len() ==> #[trigger] final(in_deg)@[v] == pending(
                passes,
                limit,
                final(order)@.take(head + 1),
                v,
                passes.len() as int,
            ),
        forall|v: int|
            0 <= v < passes.len() ==> (#[trigger] scheduled(final(order)@, v) <==> final(in_deg)@[v]
                == 0),
{
    let ghost n = passes.len() as int;
    let ghost order0 = order@;
    let ghost u = order0[head as int];
    let ghost done = order0.take(head as int);
    let ghost next = order0.take(head + 1);
    proof {
        assert(next =~= done.push(u));
        assert(!scheduled(done, u as int)) by {
            if scheduled(done, u as int) {
                let i = choose|i: int| 0 <= i < done.len() && #[trigger] done[i] == u as int;
                assert(order0[i] == order0[head as int]);
            }
        }
        assert forall|v: int| 0 <= v < n implies #[trigger] in_deg@[v] == pending(
            passes,
            limit,
            next,
            v,
            n,
        ) + (if depends(passes, limit, u as int, v) && !position_before(succ@, v, 0) {
            1nat
        } else {
            0nat
        }) by {
            lemma_pending_push(passes, limit, done, u, v, n);
        }
        assert(partial_schedule(passes, limit, order@, head + 1)) by {
            assert forall|w: int, j: int|
                0 <= j < order0.len() && #[trigger] depends(
                    passes,
                    limit,
                    w,
                    #[trigger] order0[j] as int,
                ) implies position_before(order0, w, j) && position_before(order0, w, head + 1) by {
                let i = choose|i: int| 0 <= i < head && #[trigger] order0[i] == w;
                assert(order0[i] == w);
            }
        }
    }
    let m: usize = succ.len();
    let mut k: usize = 0;
    while k < m
        invariant
            m == succ.len(),
            k <= m,
            n == passes.len(),
            in_deg.len() == n,
            head < order0.len() <= order.len(),
            next == order0.take(head + 1),
            u == order0[head as int],
            is_successors(passes, limit, u as int, succ@),
            partial_schedule(passes, limit, order0, head as int),
            partial_schedule(passes, limit, order@, head + 1),
            forall|i: int| 0 <= i < order0.len() ==> #[trigger] order@[i] == order0[i],
            forall|j: int|
                order0.len() <= j < order.len() ==> position_before(
                    succ@,
                    #[trigger] order@[j] as int,
                    k as int,
                ),
            forall|v: int|
                0 <= v < n ==> #[trigger] in_deg@[v] == pending(passes, limit, next, v, n) + (
                if depends(passes, limit, u as int, v) && !position_before(succ@, v, k as int) {
                    1nat
                } else {
                    0nat
                }),
            forall|v: int| 0 <= v < n ==> (#[trigger] scheduled(order@, v) <==> in_deg@[v] == 0),
        decreases m - k,
    {
        let v: usize = succ[k];
        assert(depends(passes, limit, u as int, succ@[k as int] as int));
        assert(!position_before(succ@, v as int, k as int)) by {
            if position_before(succ@, v as int, k as int) {
                let i = choose|i: int| 0 <= i < k && #[trigger] succ@[i] == v;
                assert(linked_before(
                    passes,
                    limit,
                    u as int,
                    succ@[i] as int,
                    succ@[k as int] as int,
                ));
            }
        }
        assert forall|x: int| 0 <= x < n implies #[trigger] position_before(succ@, x, k + 1) == (
        position_before(succ@, x, k as int) || x == v) by {
            if position_before(succ@, x, k + 1) {
                let i = choose|i: int| 0 <= i < k + 1 && #[trigger] succ@[i] == x;
                if i < k {
                    assert(position_before(succ@, x, k as int));
                }
            }
            if x == v {
                assert(succ@[k as int] == x);
            }
        }
        let ghost before = order@;
        let ghost counts = in_deg@;
        assert(counts[v as int] >= 1);
        assert(!scheduled(before, v as int));
        let count: usize = in_deg[v] - 1;
        in_deg.set(v, count);
        if count == 0 {
            proof {
                lemma_ready(passes, limit, order0, before, head as int, succ@, k as int, v);
                lemma_queue(passes, limit, before, head + 1, v);
            }
            order.push(v);
            assert(order@[before.len() as int] == v);
            assert forall|j: int| order0.len() <= j < order.len() implies position_before(
                succ@,
                #[trigger] order@[j] as int,
                k + 1,
            ) by {
                if j < before.len() {
                    assert(before[j] == order@[j]);
                    assert(position_before(succ@, before[j] as int, k as int));
                }
            }
        } else {
            assert forall|j: int| order0.len() <= j < order.len() implies position_before(
                succ@,
                #[trigger] order@[j] as int,
                k + 1,
            ) by {
                assert(position_before(succ@, order@[j] as int, k as int));
            }
        }
        assert forall|x: int| 0 <= x < n implies (#[trigger] scheduled(order@, x) <==> in_deg@[x]
            == 0) by {
            if scheduled(before, x) {
                let i = choose|i: int| 0 <= i < before.len() && #[trigger] before[i] == x;
                assert(order@[i] == x);
            }
            if scheduled(order@, x) && x != v {
                let i = choose|i: int| 0 <= i < order@.len() && #[trigger] order@[i] == x;
                assert(before[i] == x);
                assert(scheduled(before, x));
            }
        }
        k += 1;
    }
    proof {
        assert(order@.take(head + 1) =~= next);
        assert forall|v: int| 0 <= v < n implies #[trigger] in_deg@[v] == pending(
            passes,
            limit,
            order@.take(head + 1),
            v,
            n,
        ) by {
            if depends(passes, limit, u as int, v) {
                assert(scheduled(succ@, v));
                assert(position_before(succ@, v, m as int));
            }
        }
    }
}

/// A pass whose last dependency has just been finished goes behind everything queued so far.
proof fn lemma_ready(
    passes: Seq<Seq<Attachment>>,
    limit: nat,
    order0: Seq<usize>,
    order: Seq<usize>,
    head: int,
    succ: Seq<usize>,
    k: int,
    v: usize,
)
    requires
        0 <= head < order0.len() <= order.len(),
        0 <= k < succ.len(),
        v == succ[k],
        is_successors(passes, limit, order0[head] as int, succ),
        partial_schedule(passes, limit, order0, head),
        partial_schedule(passes, limit, order, head + 1),
        forall|i: int| 0 <= i < order0.len() ==> #[trigger] order[i] == order0[i],
        forall|j: int|
            order0.len() <= j < order.len() ==> position_before(succ, #[trigger] order[j] as int, k),
        pending(passes, limit, order0.take(head + 1), v as int, passes.len() as int) == 0,
    ensures
        v < passes.len(),
        forall|w: int| #[trigger]
            depends(passes, limit, w, v as int) ==> position_before(order, w, head + 1),
        forall|j: int|
            0 <= j < order.len() ==> taken_before(
                passes,
                limit,
                order,
                #[trigger] order[j] as int,
                v as int,
            ),
{
    let u = order0[head] as int;
    let len = order.len() as int;
    assert(order[head] == order0[head]);
    assert(depends(passes, limit, u, succ[k] as int));
    lemma_pending_bound(passes, limit, order0.take(head + 1), v as int, passes.len() as int);
    assert forall|w: int| #[trigger] depends(passes, limit, w, v as int) implies position_before(
        order,
        w,
        head + 1,
    ) by {
        assert(scheduled(order0.take(head + 1), w));
        let i = choose|i: int|
            0 <= i < order0.take(head + 1).len() && #[trigger] order0.take(head + 1)[i] == w;
        assert(order[i] == w);
    }
    lemma_released_at(passes, limit, order, v as int, len);
    assert(released_at(passes, limit, order, v as int, len) == head) by {
        let rv = released_at(passes, limit, order, v as int, len);
        assert(depends(passes, limit, order[head] as int, v as int));
        if rv != head {
            assert(rv > head);
            assert(position_before(order, order[rv] as int, head + 1));
            let i = choose|i: int| 0 <= i < head + 1 && #[trigger] order[i] == order[rv];
            assert(order[i] != order[rv]);
        }
    }
    assert forall|j: int| 0 <= j < order.len() implies taken_before(
        passes,
        limit,
        order,
        #[trigger] order[j] as int,
        v as int,
    ) by {
        let x = order[j] as int;
        lemma_released_at(passes, limit, order, x, len);
        let rx = released_at(passes, limit, order, x, len);
        if j < order0.len() {
            if rx >= head {
                assert(depends(passes, limit, order[rx] as int, order0[j] as int));
                assert(position_before(order0, order[rx] as int, head));
                let i = choose|i: int| 0 <= i < head && #[trigger] order0[i] == order[rx];
                assert(order[i] == order[rx]);
            }
        } else {
            let i = choose|i: int| 0 <= i < k && #[trigger] succ[i] == x;
            assert(depends(passes, limit, u, succ[i] as int));
            assert(depends(passes, limit, order[head] as int, x));
            assert(linked_before(passes, limit, u, succ[i] as int, succ[k] as int));
            if rx > head {
                assert(depends(passes, limit, order[rx] as int, order[j] as int));
                assert(position_before(order, order[rx] as int, head + 1));
                let m = choose|m: int| 0 <= m < head + 1 && #[trigger] order[m] == order[rx];
                assert(order[m] != order[rx]);
            }
        }
    }
}

impl View for FrameGraph {
    type V = FrameGraphView;

    closed spec fn view(&self) -> FrameGraphView {
        FrameGraphView {
            resources: self.resources@,
            passes: Seq::new(self.passes@.len(), |p: int| self.passes@[p].attachments@),
            present_resource: self.present_resource,
        }
    }
}

impl FrameGraphView {
    /// Every resource that a pass or the present target names is registered.
    pub open spec fn ids_in_range(self) -> bool {
        &&& forall|p: int, k: int|
            0 <= p < self.passes.len() && 0 <= k < self.passes[p].len()
                ==> 0 <= (#[trigger] self.passes[p][k]).0.index() < self.resources.len()
        &&& self.present_resource matches Some(id) ==> 0 <= id.index() < self.resources.len()
    }
}

impl Default for FrameGraph {
    fn default() -> (graph: Self)
        ensures
            graph@.resources.len() == 0,
            graph@.passes.len() == 0,
            graph@.present_resource is None,
    {
        FrameGraph::new()
    }
}

impl FrameGraph {
    /// Graph without resources, passes or present target.
    pub fn new() -> (graph: Self)
        ensures
            graph@.resources == Seq::<FrameResource>::empty(),
            graph@.passes == Seq::<Seq<Attachment>>::empty(),
            graph@.present_resource is None,
            graph@.ids_in_range(),
    {
        let graph = FrameGraph {
            resources: Vec::new(),
            passes: Vec::new(),
            present_resource: None,
        };
        assert(graph@.passes =~= Seq::<Seq<Attachment>>::empty());
        graph
    }

    /// Registers an image. `initial_layout` is the layout it is in before the first pass uses
    /// it; use `UNDEFINED` for transient or freshly created images.
    pub fn add_resource(
        &mut self,
        image: u64,
        view: u64,
        format: i32,
        extent: Extent2D,
        initial_layout: i32,
    ) -> (id: ResourceId)
        ensures
            id.index() == old(self)@.resources.len(),
            final(self)@.resources == old(self)@.resources.push(
                (FrameResource { image, view, format, extent, initial_layout }),
            ),
            final(self)@.passes == old(self)@.passes,
            final(self)@.present_resource == old(self)@.present_resource,
            old(self)@.ids_in_range() ==> final(self)@.ids_in_range(),
    {
        let id = ResourceId(self.resources.len());
        self.resources.push(FrameResource { image, view, format, extent, initial_layout });
        assert(self@.passes =~= old(self)@.passes);
        id
    }

    /// Adds a pass. `attachments` declares which resources it reads or writes.
    pub fn add_pass(&mut self, attachments: &[Attachment])
        ensures
            final(self)@.resources == old(self)@.resources,
            final(self)@.passes == old(self)@.passes.push(attachments@),
            final(self)@.present_resource == old(self)@.present_resource,
    {
        let mut list: Vec<Attachment> = Vec::new();
        let n: usize = attachments.len();
        let mut i: usize = 0;
        while i < n
            invariant
                n == attachments@.len(),
                i <= n,
                list@ == attachments@.take(i as int),
            decreases n - i,
        {
            list.push(attachments[i]);
            i += 1;
            assert(attachments@.take(i as int) =~= attachments@.take(i - 1).push(
                attachments@[i - 1],
            ));
        }
        assert(list@ =~= attachments@);
        self.passes.push(PassDef { attachments: list });
        assert(self@.passes =~= old(self)@.passes.push(attachments@));
    }

    /// Marks the final present target: after all passes it is brought to `PRESENT_SRC_KHR`.
    pub fn mark_present(&mut self, res: ResourceId)
        ensures
            final(self)@.resources == old(self)@.resources,
            final(self)@.passes == old(self)@.passes,
            final(self)@.present_resource == Some(res),
    {
        self.present_resource = Some(res);
        assert(self@.passes =~= old(self)@.passes);
    }

    /// Number of passes added so far.
    pub fn pass_count(&self) -> (n: usize)
        ensures
            n == self@.passes.len(),
    {
        self.passes.len()
    }

    /// Whether every resource that a pass or the present target names is registered.
    pub fn has_valid_ids(&self) -> (valid: bool)
        ensures
            valid == self@.ids_in_range(),
    {
        let r: usize = self.resources.len();
        let n: usize = self.passes.len();
        let mut p: usize = 0;
        while p < n
            invariant
                n == self@.passes.len(),
                r == self@.resources.len(),
                p <= n,
                forall|q: int, k: int|
                    0 <= q < p && 0 <= k < self@.passes[q].len() ==> (
                    #[trigger] self@.passes[q][k]).0.index() < r,
            decreases n - p,
        {
            let attachments = &self.passes[p].attachments;
            assert(attachments@ == self@.passes[p as int]);
            let m: usize = attachments.len();
            let mut k: usize = 0;
            while k < m
                invariant
                    n == self@.passes.len(),
                    r == self@.resources.len(),
                    p < n,
                    m == attachments.len(),
                    attachments@ == self@.passes[p as int],
                    k <= m,
                    forall|i: int|
                        0 <= i < k ==> (#[trigger] self@.passes[p as int][i]).0.index() < r,
                decreases m - k,
            {
                if attachments[k].0.0 >= r {
                    assert(self@.passes[p as int][k as int].0.index() >= r);
                    return false;
                }
                k += 1;
            }
            p += 1;
        }
        match self.present_resource {
            Some(id) => id.0 < r,
            None => true,
        }
    }

    /// Whether pass `p` declares the use `usage` of resource `res`.
    fn uses_resource(&self, p: usize, res: usize, usage: AttachmentUsage) -> (found: bool)
        requires
            p < self@.passes.len(),
        ensures
            found == uses(self@.passes, p as int, res as int, usage),
    {
        let attachments = &self.passes[p].attachments;
        assert(attachments@ == self@.passes[p as int]);
        let mut k: usize = 0;
        while k < attachments.len()
            invariant
                k <= attachments.len(),
                attachments@ == self@.passes[p as int],
                forall|i: int|
                    0 <= i < k ==> !((#[trigger] attachments@[i]).0.index() == res && attachments@[i].1
                        == usage),
            decreases attachments.len() - k,
        {
            if attachments[k].0.0 == res && attachments[k].1 == usage {
                assert(self@.passes[p as int][k as int].0.index() == res);
                return true;
            }
            k += 1;
        }
        false
    }

    /// Passes that depend on pass `w`, by linking resource, then by position.
    fn successors(&self, w: usize) -> (out: Vec<usize>)
        requires
            w < self@.passes.len(),
        ensures
            is_successors(self@.passes, self@.resources.len(), w as int, out@),
    {
        let ghost passes = self@.passes;
        let ghost limit = self@.resources.len();
        let n: usize = self.passes.len();
        let r: usize = self.resources.len();
        let mut out: Vec<usize> = Vec::new();
        let mut res: usize = 0;
        while res < r
            invariant
                passes == self@.passes,
                limit == self@.resources.len(),
                n == passes.len(),
                r == limit,
                w < n,
                res <= r,
                forall|i: int|
                    0 <= i < out.len() ==> depends(passes, limit, w as int, (#[trigger] out@[i]) as int)
                        && first_shared(passes, w as int, out@[i] as int, limit) < res,
                forall|v: int| #[trigger]
                    depends(passes, limit, w as int, v) && first_shared(passes, w as int, v, limit)
                        < res ==> scheduled(out@, v),
                forall|i: int, j: int|
                    0 <= i < j < out.len() ==> #[trigger] linked_before(
                        passes,
                        limit,
                        w as int,
                        out[i] as int,
                        out[j] as int,
                    ),
            decreases r - res,
        {
            if self.uses_resource(w, res, AttachmentUsage::ColorWrite) {
                let mut p: usize = 0;
                while p < n
                    invariant
                        passes == self@.passes,
                        limit == self@.resources.len(),
                        n == passes.len(),
                        r == limit,
                        w < n,
                        res < r,
                        p <= n,
                        uses(passes, w as int, res as int, AttachmentUsage::ColorWrite),
                        forall|i: int|
                            0 <= i < out.len() ==> depends(
                                passes,
                                limit,
                                w as int,
                                (#[trigger] out@[i]) as int,
                            ) && (first_shared(passes, w as int, out@[i] as int, limit) < res || (
                            first_shared(passes, w as int, out@[i] as int, limit) == res && out@[i]
                                < p)),
                        forall|v: int| #[trigger]
                            depends(passes, limit, w as int, v) && (first_shared(
                                passes,
                                w as int,
                                v,
                                limit,
                            ) < res || (first_shared(passes, w as int, v, limit) == res && v < p))
                                ==> scheduled(out@, v),
                        forall|i: int, j: int|
                            0 <= i < j < out.len() ==> #[trigger] linked_before(
                                passes,
                                limit,
                                w as int,
                                out[i] as int,
                                out[j] as int,
                            ),
                    decreases n - p,
                {
                    let ghost before = out@;
                    proof {
                        lemma_first_shared(passes, w as int, p as int, limit);
                    }
                    if p != w && self.uses_resource(p, res, AttachmentUsage::ShaderSample) {
                        assert(shares(passes, w as int, p as int, res as int));
                        assert(depends(passes, limit, w as int, p as int));
                        if !contains(&out, p) {
                            out.push(p);
                            assert(out@[before.len() as int] == p);
                            assert forall|v: int| scheduled(before, v) implies #[trigger] scheduled(
                                out@,
                                v,
                            ) by {
                                let i = choose|i: int|
                                    0 <= i < before.len() && #[trigger] before[i] == v;
                                assert(out@[i] == v);
                            }
                            assert(scheduled(out@, p as int));
                        }
                    }
                    p += 1;
                }
            } else {
                assert forall|v: int| #[trigger]
                    depends(passes, limit, w as int, v) && first_shared(passes, w as int, v, limit)
                        < res + 1 implies scheduled(out@, v) by {
                    lemma_first_shared(passes, w as int, v, limit);
                }
            }
            res += 1;
        }
        out
    }

    /// Successor list of every pass.
    fn successor_lists(&self) -> (adj: Vec<Vec<usize>>)
        ensures
            adj.len() == self@.passes.len(),
            forall|w: int|
                0 <= w < adj.len() ==> is_successors(
                    self@.passes,
                    self@.resources.len(),
                    w,
                    (#[trigger] adj@[w])@,
                ),
    {
        let n: usize = self.passes.len();
        let mut adj: Vec<Vec<usize>> = Vec::new();
        let mut w: usize = 0;
        while w < n
            invariant
                n == self@.passes.len(),
                w <= n,
                adj.len() == w,
                forall|i: int|
                    0 <= i < w ==> is_successors(
                        self@.passes,
                        self@.resources.len(),
                        i,
                        (#[trigger] adj@[i])@,
                    ),
            decreases n - w,
        {
            adj.push(self.successors(w));
            w += 1;
        }
        adj
    }

    /// Number of passes that each pass depends on.
    fn dependency_counts(&self, adj: &Vec<Vec<usize>>) -> (in_deg: Vec<usize>)
        requires
            adj.len() == self@.passes.len(),
            forall|w: int|
                0 <= w < adj.len() ==> is_successors(
                    self@.passes,
                    self@.resources.len(),
                    w,
                    (#[trigger] adj@[w])@,
                ),
        ensures
            in_deg.len() == adj.len(),
            forall|v: int|
                0 <= v < adj.len() ==> #[trigger] in_deg@[v] == pending(
                    self@.passes,
                    self@.resources.len(),
                    Seq::<usize>::empty(),
                    v,
                    adj.len() as int,
                ),
    {
        let ghost passes = self@.passes;
        let ghost limit = self@.resources.len();
        let ghost none = Seq::<usize>::empty();
        let n: usize = adj.len();
        let mut in_deg: Vec<usize> = Vec::new();
        let mut i: usize = 0;
        while i < n
            invariant
                i <= n,
                in_deg.len() == i,
                forall|v: int| 0 <= v < i ==> #[trigger] in_deg@[v] == 0,
            decreases n - i,
        {
            in_deg.push(0);
            i += 1;
        }
        let mut w: usize = 0;
        while w < n
            invariant
                n == adj.len(),
                n == passes.len(),
                w <= n,
                in_deg.len() == n,
                none == Seq::<usize>::empty(),
                forall|x: int|
                    0 <= x < n ==> is_successors(passes, limit, x, (#[trigger] adj@[x])@),
                forall|v: int|
                    0 <= v < n ==> #[trigger] in_deg@[v] == pending(
                        passes,
                        limit,
                        none,
                        v,
                        w as int,
                    ),
            decreases n - w,
        {
            let succ = &adj[w];
            let m: usize = succ.len();
            let mut k: usize = 0;
            while k < m
                invariant
                    m == succ.len(),
                    n == passes.len(),
                    w < n,
                    k <= m,
                    in_deg.len() == n,
                    none == Seq::<usize>::empty(),
                    is_successors(passes, limit, w as int, succ@),
                    forall|v: int|
                        0 <= v < n ==> #[trigger] in_deg@[v] == pending(
                            passes,
                            limit,
                            none,
                            v,
                            w as int,
                        ) + (if position_before(succ@, v, k as int) {
                            1nat
                        } else {
                            0nat
                        }),
                decreases m - k,
            {
                let v: usize = succ[k];
                assert(depends(passes, limit, w as int, succ@[k as int] as int));
                assert(!position_before(succ@, v as int, k as int)) by {
                    if position_before(succ@, v as int, k as int) {
                        let i = choose|i: int| 0 <= i < k && #[trigger] succ@[i] == v;
                        assert(linked_before(
                            passes,
                            limit,
                            w as int,
                            succ@[i] as int,
                            succ@[k as int] as int,
                        ));
                    }
                }
                proof {
                    lemma_pending_bound(passes, limit, none, v as int, w as int);
                }
                let count: usize = in_deg[v] + 1;
                in_deg.set(v, count);
                assert forall|x: int| 0 <= x < n implies #[trigger] position_before(
                    succ@,
                    x,
                    k + 1,
                ) == (position_before(succ@, x, k as int) || x == v) by {
                    if position_before(succ@, x, k + 1) {
                        let i = choose|i: int| 0 <= i < k + 1 && #[trigger] succ@[i] == x;
                        if i < k {
                            assert(position_before(succ@, x, k as int));
                        }
                    }
                    if x == v {
                        assert(succ@[k as int] == x);
                    }
                }
                k += 1;
            }
            assert forall|v: int| 0 <= v < n implies #[trigger] in_deg@[v] == pending(
                passes,
                limit,
                none,
                v,
                w + 1,
            ) by {
                if position_before(succ@, v, m as int) {
                    let i = choose|i: int| 0 <= i < m && #[trigger] succ@[i] == v;
                    assert(depends(passes, limit, w as int, succ@[i] as int));
                } else {
                    assert(!depends(passes, limit, w as int, v));
                }
            }
            w += 1;
        }
        in_deg
    }

    /// Order in which the passes are recorded: each after those it depends on. Passes on a
    /// dependency cycle, and passes that depend on one, follow in the order in which they were
    /// added.
    pub fn topo_sort(&self) -> (order: Vec<usize>)
        ensures
            order@ == pass_order(self@.passes, self@.resources.len()),
            is_schedule(
                self@.passes,
                self@.resources.len(),
                schedule(self@.passes, self@.resources.len()),
            ),
            order.len() == self@.passes.len(),
            forall|i: int| 0 <= i < order.len() ==> (#[trigger] order@[i]) < self@.passes.len(),
    {
        let mut order = self.ordered_passes();
        let ghost first = order@;
        let n: usize = self.passes.len();
        let mut i: usize = 0;
        assert(order@ =~= completed(first, 0));
        while i < n
            invariant
                n == self@.passes.len(),
                i <= n,
                order@ == completed(first, i as int),
            decreases n - i,
        {
            assert(scheduled(order@, i as int) == scheduled(first, i as int)) by {
                let rest = left_over(first, i as int);
                lemma_left_over(first, i as int);
                if scheduled(first, i as int) {
                    let k = choose|k: int| 0 <= k < first.len() && #[trigger] first[k] == i;
                    assert(order@[k] == i);
                }
                if scheduled(order@, i as int) {
                    let k = choose|k: int| 0 <= k < order@.len() && #[trigger] order@[k] == i;
                    if k < first.len() {
                        assert(first[k] == i);
                    } else {
                        assert(rest[k - first.len()] == i);
                    }
                }
            }
            if !contains(&order, i) {
                order.push(i);
            }
            assert(order@ =~= completed(first, i + 1));
            i += 1;
        }
        proof {
            lemma_completed(self@.passes, self@.resources.len(), first);
        }
        order
    }

    /// Passes in an order that meets their dependencies. Those on a dependency cycle, and those
    /// that depend on one, have no such order and are left out.
    fn ordered_passes(&self) -> (order: Vec<usize>)
        ensures
            order@ == schedule(self@.passes, self@.resources.len()),
            is_schedule(self@.passes, self@.resources.len(), order@),
    {
        let ghost passes = self@.passes;
        let ghost limit = self@.resources.len();
        let n: usize = self.passes.len();
        let adj = self.successor_lists();
        let mut in_deg = self.dependency_counts(&adj);
        // The queue is the part of `order` from `head` on.
        let mut order: Vec<usize> = Vec::new();
        let mut i: usize = 0;
        while i < n
            invariant
                n == passes.len(),
                in_deg.len() == n,
                i <= n,
                partial_schedule(passes, limit, order@, 0),
                forall|v: int|
                    0 <= v < n ==> #[trigger] in_deg@[v] == pending(
                        passes,
                        limit,
                        Seq::<usize>::empty(),
                        v,
                        n as int,
                    ),
                forall|k: int| 0 <= k < order.len() ==> (#[trigger] order@[k]) < i,
                forall|v: int|
                    0 <= v < i ==> (#[trigger] scheduled(order@, v) <==> in_deg@[v] == 0),
            decreases n - i,
        {
            let ghost before = order@;
            if in_deg[i] == 0 {
                proof {
                    lemma_pending_bound(passes, limit, Seq::<usize>::empty(), i as int, n as int);
                    assert forall|w: int| !#[trigger] depends(passes, limit, w, i as int) by {
                        if depends(passes, limit, w, i as int) {
                            assert(scheduled(Seq::<usize>::empty(), w));
                        }
                    }
                    assert forall|j: int| 0 <= j < before.len() implies taken_before(
                        passes,
                        limit,
                        before,
                        #[trigger] before[j] as int,
                        i as int,
                    ) by {
                        lemma_released_at(
                            passes,
                            limit,
                            before,
                            before[j] as int,
                            before.len() as int,
                        );
                        lemma_released_at(passes, limit, before, i as int, before.len() as int);
                        let rj = released_at(
                            passes,
                            limit,
                            before,
                            before[j] as int,
                            before.len() as int,
                        );
                        if rj >= 0 {
                            assert(position_before(before, before[rj] as int, 0));
                        }
                    }
                    lemma_queue(passes, limit, before, 0, i);
                }
                order.push(i);
                assert(order@[before.len() as int] == i);
            }
            assert forall|v: int| 0 <= v < i + 1 implies (#[trigger] scheduled(order@, v)
                <==> in_deg@[v] == 0) by {
                if scheduled(before, v) {
                    let k = choose|k: int| 0 <= k < before.len() && #[trigger] before[k] == v;
                    assert(order@[k] == v);
                }
                if scheduled(order@, v) && v < i {
                    let k = choose|k: int| 0 <= k < order@.len() && #[trigger] order@[k] == v;
                    assert(before[k] == v);
                }
            }
            i += 1;
        }
        let mut head: usize = 0;
        proof {
            lemma_distinct_len(order@, n as nat);
        }
        assert(order@.take(0) =~= Seq::<usize>::empty());
        while head < order.len()
            invariant
                n == passes.len(),
                n == adj.len(),
                in_deg.len() == n,
                head <= order.len(),
                forall|w: int|
                    0 <= w < n ==> is_successors(passes, limit, w, (#[trigger] adj@[w])@),
                partial_schedule(passes, limit, order@, head as int),
                forall|v: int|
                    0 <= v < n ==> #[trigger] in_deg@[v] == pending(
                        passes,
                        limit,
                        order@.take(head as int),
                        v,
                        n as int,
                    ),
                forall|v: int|
                    0 <= v < n ==> (#[trigger] scheduled(order@, v) <==> in_deg@[v] == 0),
                order.len() <= n,
            decreases n - head,
        {
            let u: usize = order[head];
            release(&adj[u], head, &mut order, &mut in_deg, Ghost(passes), Ghost(limit));
            head += 1;
            proof {
                lemma_distinct_len(order@, n as nat);
            }
        }
        proof {
            assert(order@.take(head as int) =~= order@);
            assert forall|v: int| 0 <= v < n && !(#[trigger] scheduled(order@, v)) implies exists|
                w: int,
            | #[trigger] depends(passes, limit, w, v) && !scheduled(order@, w) by {
                assert(in_deg@[v] != 0);
                lemma_pending_bound(passes, limit, order@, v, n as int);
            }
            schedule_is_unique(passes, limit, order@, schedule(passes, limit));
        }
        order
    }

    /// Barriers of pass `p` when the images are in `layouts`, with the stages they order.
    fn pass_transitions(&self, p: usize, layouts: &Vec<i32>) -> (result: (
        u32,
        u32,
        Vec<ImageBarrier>,
    ))
        requires
            self@.ids_in_range(),
            p < self@.passes.len(),
            layouts.len() == self@.resources.len(),
        ensures
            result.0 == pass_src_stages(layouts@, self@.passes[p as int]),
            result.1 == pass_dst_stages(layouts@, self@.passes[p as int]),
            result.2@ == pass_barriers(self@.resources, layouts@, self@.passes[p as int]),
    {
        let attachments = &self.passes[p].attachments;
        let ghost atts = self@.passes[p as int];
        assert(attachments@ == atts);
        let mut barriers: Vec<ImageBarrier> = Vec::new();
        let mut src_stages: u32 = 0;
        let mut dst_stages: u32 = 0;
        let m: usize = attachments.len();
        let mut k: usize = 0;
        assert(atts.take(0) =~= Seq::<Attachment>::empty());
        while k < m
            invariant
                m == attachments.len(),
                attachments@ == atts,
                atts == self@.passes[p as int],
                p < self@.passes.len(),
                self@.ids_in_range(),
                layouts.len() == self@.resources.len(),
                k <= m,
                src_stages == pass_src_stages(layouts@, atts.take(k as int)),
                dst_stages == pass_dst_stages(layouts@, atts.take(k as int)),
                barriers@ == pass_barriers(self@.resources, layouts@, atts.take(k as int)),
            decreases m - k,
        {
            let (ResourceId(res), usage) = attachments[k];
            assert(self@.passes[p as int][k as int].0.index() == res);
            assert(atts.take(k + 1).drop_last() =~= atts.take(k as int));
            let cur: i32 = layouts[res];
            let needed: i32 = target_layout(usage);
            let write = matches!(usage, AttachmentUsage::ColorWrite);
            if !(cur == needed || (cur == IMAGE_LAYOUT_UNDEFINED && write)) {
                let (ss, sa) = src_info(cur);
                let (ds, da) = dst_info(usage);
                src_stages = src_stages | ss;
                dst_stages = dst_stages | ds;
                barriers.push(
                    ImageBarrier {
                        src_access_mask: sa,
                        dst_access_mask: da,
                        old_layout: cur,
                        new_layout: needed,
                        image: self.resources[res].image,
                        subresource_range: color_subresource(),
                    },
                );
            }
            k += 1;
        }
        assert(atts.take(m as int) =~= atts);
        (src_stages, dst_stages, barriers)
    }

    /// Updates `layouts` for the end of pass `p`.
    fn finish_pass(&self, p: usize, layouts: &mut Vec<i32>)
        requires
            self@.ids_in_range(),
            p < self@.passes.len(),
            old(layouts).len() == self@.resources.len(),
        ensures
            final(layouts).len() == self@.resources.len(),
            final(layouts)@ == layouts_after_pass(old(layouts)@, self@.passes[p as int]),
    {
        let attachments = &self.passes[p].attachments;
        let ghost atts = self@.passes[p as int];
        let ghost layouts0 = layouts@;
        assert(attachments@ == atts);
        let m: usize = attachments.len();
        let mut k: usize = 0;
        assert(atts.take(0) =~= Seq::<Attachment>::empty());
        while k < m
            invariant
                m == attachments.len(),
                attachments@ == atts,
                atts == self@.passes[p as int],
                p < self@.passes.len(),
                self@.ids_in_range(),
                layouts.len() == self@.resources.len(),
                k <= m,
                layouts@ == layouts_after_pass(layouts0, atts.take(k as int)),
            decreases m - k,
        {
            let (ResourceId(res), usage) = attachments[k];
            assert(self@.passes[p as int][k as int].0.index() == res);
            assert(atts.take(k + 1).drop_last() =~= atts.take(k as int));
            layouts.set(res, post_layout(usage));
            k += 1;
        }
        assert(atts.take(m as int) =~= atts);
    }

    /// Compiles the graph: all passes in the order of [`FrameGraph::topo_sort`], a barrier before
    /// each pass for the resources whose layout must change, and the final transition of the
    /// present target.
    pub fn execute(&self) -> (steps: Vec<FrameStep>)
        requires
            self@.ids_in_range(),
        ensures
            step_views(steps@) == frame_steps(self@),
            forall|v: usize|
                v < self@.passes.len() ==> #[trigger] records(step_views(steps@), v) == 1,
    {
        let order = self.topo_sort();
        let mut layouts: Vec<i32> = Vec::new();
        let r: usize = self.resources.len();
        let mut i: usize = 0;
        while i < r
            invariant
                r == self@.resources.len(),
                i <= r,
                layouts.len() == i,
                forall|k: int|
                    0 <= k < i ==> #[trigger] layouts@[k] == self@.resources[k].initial_layout,
            decreases r - i,
        {
            layouts.push(self.resources[i].initial_layout);
            i += 1;
        }
        assert(layouts@ =~= layouts_at(self@, order@, 0));
        let mut steps: Vec<FrameStep> = Vec::new();
        let n: usize = order.len();
        let mut k: usize = 0;
        assert(step_views(steps@) =~= steps_up_to(self@, order@, 0));
        while k < n
            invariant
                n == order.len(),
                k <= n,
                self@.ids_in_range(),
                forall|i: int|
                    0 <= i < order.len() ==> (#[trigger] order@[i]) < self@.passes.len(),
                layouts.len() == self@.resources.len(),
                layouts@ == layouts_at(self@, order@, k as int),
                step_views(steps@) == steps_up_to(self@, order@, k as int),
            decreases n - k,
        {
            let ghost before = steps@;
            let p: usize = order[k];
            let (src_stages, dst_stages, barriers) = self.pass_transitions(p, &layouts);
            if barriers.len() != 0 {
                steps.push(FrameStep::Barrier { src_stages, dst_stages, barriers });
            }
            steps.push(FrameStep::Record(p));
            self.finish_pass(p, &mut layouts);
            assert(step_views(steps@) =~= step_views(before) + pass_steps(
                self@,
                order@,
                k as int,
            ));
            k += 1;
        }
        let ghost before = steps@;
        if let Some(ResourceId(res)) = self.present_resource {
            let cur: i32 = layouts[res];
            if cur != IMAGE_LAYOUT_PRESENT_SRC_KHR {
                let (ss, sa) = src_info(cur);
                let mut barriers: Vec<ImageBarrier> = Vec::new();
                barriers.push(
                    ImageBarrier {
                        src_access_mask: sa,
                        dst_access_mask: 0,
                        old_layout: cur,
                        new_layout: IMAGE_LAYOUT_PRESENT_SRC_KHR,
                        image: self.resources[res].image,
                        subresource_range: color_subresource(),
                    },
                );
                assert(barriers@ =~= seq![
                    present_barrier(self@.resources[res as int].image, cur),
                ]);
                steps.push(
                    FrameStep::Barrier {
                        src_stages: ss,
                        dst_stages: PIPELINE_STAGE_BOTTOM_OF_PIPE,
                        barriers,
                    },
                );
            }
        }
        assert(step_views(steps@) =~= step_views(before) + present_steps(self@, order@));
        assert forall|v: usize| v < self@.passes.len() implies #[trigger] records(
            step_views(steps@),
            v,
        ) == 1 by {
            every_pass_is_recorded(self@, schedule(self@.passes, self@.resources.len()), v);
        }
        steps
    }
}

/// Whether `v` occurs in `list`.
fn contains(list: &Vec<usize>, v: usize) -> (found: bool)
    ensures
        found == scheduled(list@, v as int),
{
    let mut i: usize = 0;
    while i < list.len()
        invariant
            i <= list.len(),
            forall|k: int| 0 <= k < i ==> #[trigger] list@[k] != v,
        decreases list.len() - i,
    {
        if list[i] == v {
            assert(list@[i as int] == v as int);
            return true;
        }
        i += 1;
    }
    false
}

// ── Laws on the order of passes ────────────────────────────────────────────────

/// A pass depends on another exactly where it samples a resource that the other writes.
pub proof fn dependency_is_a_shared_resource(
    passes: Seq<Seq<Attachment>>,
    limit: nat,
    w: int,
    r: int,
)
    requires
        0 <= w < passes.len(),
        0 <= r < passes.len(),
    ensures
        depends(passes, limit, w, r) <==> w != r && exists|res: int|
            0 <= res < limit && #[trigger] uses(passes, w, res, AttachmentUsage::ColorWrite)
                && uses(passes, r, res, AttachmentUsage::ShaderSample),
{
    lemma_first_shared(passes, w, r, limit);
    if w != r && exists|res: int|
        0 <= res < limit && #[trigger] uses(passes, w, res, AttachmentUsage::ColorWrite) && uses(
            passes,
            r,
            res,
            AttachmentUsage::ShaderSample,
        ) {
        let res = choose|res: int|
            0 <= res < limit && #[trigger] uses(passes, w, res, AttachmentUsage::ColorWrite)
                && uses(passes, r, res, AttachmentUsage::ShaderSample);
        assert(shares(passes, w, r, res));
    }
    if depends(passes, limit, w, r) {
        let res = first_shared(passes, w, r, limit) as int;
        assert(uses(passes, w, res, AttachmentUsage::ColorWrite));
    }
}

/// Passes that sample nothing that another pass writes are recorded in the order in which they
/// were added, and before every pass that does.
pub proof fn free_passes_come_first_in_order(
    passes: Seq<Seq<Attachment>>,
    limit: nat,
    order: Seq<usize>,
    i: int,
    j: int,
)
    requires
        is_schedule(passes, limit, order),
        0 <= i < j < order.len(),
        forall|w: int| !#[trigger] depends(passes, limit, w, order[j] as int),
    ensures
        forall|w: int| !#[trigger] depends(passes, limit, w, order[i] as int),
        order[i] < order[j],
{
    let n = order.len() as int;
    lemma_released_at(passes, limit, order, order[i] as int, n);
    lemma_released_at(passes, limit, order, order[j] as int, n);
    assert(taken_before(passes, limit, order, order[i] as int, order[j] as int));
    assert forall|w: int| !#[trigger] depends(passes, limit, w, order[i] as int) by {
        if depends(passes, limit, w, order[i] as int) {
            assert(position_before(order, w, i));
            let k = choose|k: int| 0 <= k < i && #[trigger] order[k] == w;
            assert(depends(passes, limit, order[k] as int, order[i] as int));
        }
    }
}

/// Passes that wait for each other are recorded in the order in which they were added.
pub proof fn knotted_passes_keep_their_order(order: Seq<usize>, n: int, i: int, j: int)
    requires
        0 <= n <= usize::MAX,
        order.len() <= i < j < completed(order, n).len(),
    ensures
        completed(order, n)[i] < completed(order, n)[j],
        !scheduled(order, completed(order, n)[i] as int),
{
    lemma_left_over(order, n);
    let rest = left_over(order, n);
    let a = rest[i - order.len()];
    let b = rest[j - order.len()];
    assert(completed(order, n)[i] == a && completed(order, n)[j] == b);
}

// ── Replay ─────────────────────────────────────────────────────────────────────

/// Pass `p` uses the image `image` in the way `usage`.
pub open spec fn touches(
    graph: FrameGraphView,
    p: int,
    image: u64,
    usage: AttachmentUsage,
) -> bool {
    exists|k: int|
        0 <= k < graph.passes[p].len() && graph.resources[(
        #[trigger] graph.passes[p][k]).0.index()].image == image && graph.passes[p][k].1 == usage
}

/// All bits of `wanted` are set in `stages`.
pub open spec fn among(stages: u32, wanted: u32) -> bool {
    stages & wanted == wanted
}

/// A barrier that waits for `stages` and makes `accesses` available waits for all that was done
/// to an image in `layout`: nothing where it is undefined, color writes, reads by fragment
/// shaders, nothing more than presentation, or everything.
pub open spec fn waits_for(layout: i32, stages: u32, accesses: u32) -> bool {
    if layout == IMAGE_LAYOUT_UNDEFINED {
        among(stages, PIPELINE_STAGE_TOP_OF_PIPE) && accesses == 0
    } else if layout == IMAGE_LAYOUT_COLOR_ATTACHMENT_OPTIMAL {
        among(stages, PIPELINE_STAGE_COLOR_ATTACHMENT_OUTPUT) && accesses
            == ACCESS_COLOR_ATTACHMENT_WRITE
    } else if layout == IMAGE_LAYOUT_SHADER_READ_ONLY_OPTIMAL {
        among(stages, PIPELINE_STAGE_FRAGMENT_SHADER) && accesses == ACCESS_SHADER_READ
    } else if layout == IMAGE_LAYOUT_PRESENT_SRC_KHR {
        among(stages, PIPELINE_STAGE_BOTTOM_OF_PIPE) && accesses == 0
    } else {
        among(stages, PIPELINE_STAGE_ALL_COMMANDS) && accesses == ACCESS_MEMORY_READ
            + ACCESS_MEMORY_WRITE
    }
}

/// A barrier that holds back `stages` and makes memory visible to `accesses` holds back all that
/// is done to an image in `layout`, which is one of the three that a frame brings images to.
pub open spec fn holds_back(layout: i32, stages: u32, accesses: u32) -> bool {
    if layout == IMAGE_LAYOUT_COLOR_ATTACHMENT_OPTIMAL {
        among(stages, PIPELINE_STAGE_COLOR_ATTACHMENT_OUTPUT) && accesses
            == ACCESS_COLOR_ATTACHMENT_WRITE
    } else if layout == IMAGE_LAYOUT_SHADER_READ_ONLY_OPTIMAL {
        among(stages, PIPELINE_STAGE_FRAGMENT_SHADER) && accesses == ACCESS_SHADER_READ
    } else {
        layout == IMAGE_LAYOUT_PRESENT_SRC_KHR && among(stages, PIPELINE_STAGE_BOTTOM_OF_PIPE)
            && accesses == 0
    }
}

/// A barrier takes an image from the layout that it is in to another, waits for all that was
/// done in the old layout, and holds back all that is done in the new one. It covers the color
/// of the first level and layer.
pub open spec fn fits(
    layouts: Map<u64, i32>,
    b: ImageBarrier,
    src_stages: u32,
    dst_stages: u32,
) -> bool {
    &&& layouts.dom().contains(b.image)
    &&& b.old_layout == layouts[b.image]
    &&& b.new_layout != b.old_layout
    &&& waits_for(b.old_layout, src_stages, b.src_access_mask)
    &&& holds_back(b.new_layout, dst_stages, b.dst_access_mask)
    &&& b.subresource_range.aspect_mask == IMAGE_ASPECT_COLOR
    &&& b.subresource_range.base_mip_level == 0
    &&& b.subresource_range.level_count == 1
    &&& b.subresource_range.base_array_layer == 0
    &&& b.subresource_range.layer_count == 1
}

/// What has to hold of the images before a step. The transitions of one barrier all start from
/// the layouts before it. A pass samples images that shaders can read, and writes images that
/// are color attachments or undefined.
pub open spec fn step_fits(graph: FrameGraphView, layouts: Map<u64, i32>, step: FrameStepView) -> bool {
    match step {
        FrameStepView::Barrier { src_stages, dst_stages, barriers } => barriers.len() > 0
            && forall|i: int|
            0 <= i < barriers.len() ==> fits(
                layouts,
                #[trigger] barriers[i],
                src_stages,
                dst_stages,
            ),
        FrameStepView::Record(p) => forall|image: u64| #[trigger]
            layouts.dom().contains(image) ==> {
                &&& touches(graph, p as int, image, AttachmentUsage::ShaderSample)
                    ==> layouts[image] == IMAGE_LAYOUT_SHADER_READ_ONLY_OPTIMAL
                &&& touches(graph, p as int, image, AttachmentUsage::ColorWrite)
                    ==> layouts[image] == IMAGE_LAYOUT_COLOR_ATTACHMENT_OPTIMAL || layouts[image]
                    == IMAGE_LAYOUT_UNDEFINED
            },
    }
}

/// Layouts after the first `k` barriers of a step.
pub open spec fn moved(layouts: Map<u64, i32>, barriers: Seq<ImageBarrier>, k: int) -> Map<u64, i32>
    decreases k,
{
    if k <= 0 {
        layouts
    } else {
        moved(layouts, barriers, k - 1).insert(barriers[k - 1].image, barriers[k - 1].new_layout)
    }
}

/// Layouts after a step: a barrier brings its images to their new layouts, and a pass leaves
/// what it writes as a color attachment and what it only samples as readable by shaders.
pub open spec fn after_step(
    graph: FrameGraphView,
    layouts: Map<u64, i32>,
    step: FrameStepView,
) -> Map<u64, i32> {
    match step {
        FrameStepView::Barrier { barriers, .. } => moved(layouts, barriers, barriers.len() as int),
        FrameStepView::Record(p) => layouts.map_entries(
            |image: u64, layout: i32|
                if touches(graph, p as int, image, AttachmentUsage::ColorWrite) {
                    IMAGE_LAYOUT_COLOR_ATTACHMENT_OPTIMAL
                } else if touches(graph, p as int, image, AttachmentUsage::ShaderSample) {
                    IMAGE_LAYOUT_SHADER_READ_ONLY_OPTIMAL
                } else {
                    layout
                },
        ),
    }
}

/// Layouts of the first `n` images before the first step.
pub open spec fn first_layouts(resources: Seq<FrameResource>, n: int) -> Map<u64, i32>
    decreases n,
{
    if n <= 0 {
        Map::empty()
    } else {
        first_layouts(resources, n - 1).insert(
            resources[n - 1].image,
            resources[n - 1].initial_layout,
        )
    }
}

/// Layouts of the images after the first `k` steps.
pub open spec fn replayed(graph: FrameGraphView, steps: Seq<FrameStepView>, k: int) -> Map<u64, i32>
    decreases k,
{
    if k <= 0 {
        first_layouts(graph.resources, graph.resources.len() as int)
    } else {
        after_step(graph, replayed(graph, steps, k - 1), steps[k - 1])
    }
}

/// No two resources are the same image.
pub open spec fn images_differ(resources: Seq<FrameResource>) -> bool {
    forall|i: int, j: int|
        0 <= i < j < resources.len() ==> (#[trigger] resources[i]).image != (
        #[trigger] resources[j]).image
}

/// No pass both writes and samples an image.
pub open spec fn no_feedback(graph: FrameGraphView) -> bool {
    forall|p: int, image: u64|
        0 <= p < graph.passes.len() && #[trigger] touches(
            graph,
            p,
            image,
            AttachmentUsage::ColorWrite,
        ) ==> !touches(graph, p, image, AttachmentUsage::ShaderSample)
}

/// The images follow their tracked layouts: at every step of a frame, each image is in the
/// layout that a barrier takes it from, and is ready for the pass that uses it. So every sampled
/// image is readable by shaders when its pass is recorded, and the present target is in the
/// layout for presentation after the last step.
pub proof fn frame_replays(graph: FrameGraphView, order: Seq<usize>)
    requires
        graph.ids_in_range(),
        graph.passes.len() <= usize::MAX,
        images_differ(graph.resources),
        no_feedback(graph),
        is_schedule(graph.passes, graph.resources.len(), order),
    ensures
        forall|k: int|
            #![trigger frame_steps(graph)[k]]
            0 <= k < frame_steps(graph).len() ==> step_fits(
                graph,
                replayed(graph, frame_steps(graph), k),
                frame_steps(graph)[k],
            ),
        graph.present_resource matches Some(id) ==> replayed(
            graph,
            frame_steps(graph),
            frame_steps(graph).len() as int,
        )[graph.resources[id.index()].image] == IMAGE_LAYOUT_PRESENT_SRC_KHR,
{
    let n = graph.passes.len() as int;
    let all = completed(order, n);
    let steps = frame_steps(graph);
    every_step_is_known(graph, order);
    lemma_completed(graph.passes, graph.resources.len(), order);
    let head = steps_up_to(graph, all, n);
    let m = head.len() as int;
    assert(steps.take(m) =~= head);
    lemma_replay_passes(graph, all, steps, n);
    assert(steps.skip(m) =~= present_steps(graph, all));
    lemma_replay_present(graph, all, steps, m);
    assert forall|k: int|
        #![trigger frame_steps(graph)[k]]
        0 <= k < frame_steps(graph).len() implies step_fits(
        graph,
        replayed(graph, frame_steps(graph), k),
        frame_steps(graph)[k],
    ) by {
        if k < m {
            assert(step_fits(graph, replayed(graph, steps, k), steps[k]));
        } else {
            assert(k == m);
        }
    }
}

/// Replay of the steps after the last pass.
proof fn lemma_replay_present(
    graph: FrameGraphView,
    order: Seq<usize>,
    steps: Seq<FrameStepView>,
    m: int,
)
    requires
        graph.ids_in_range(),
        0 <= m <= steps.len(),
        steps.skip(m) == present_steps(graph, order),
        agrees(
            graph,
            replayed(graph, steps, m),
            layouts_at(graph, order, order.len() as int),
        ),
    ensures
        steps.len() <= m + 1,
        m < steps.len() ==> step_fits(graph, replayed(graph, steps, m), steps[m]),
        graph.present_resource matches Some(id) ==> replayed(
            graph,
            steps,
            steps.len() as int,
        )[graph.resources[id.index()].image] == IMAGE_LAYOUT_PRESENT_SRC_KHR,
{
    let tail = steps.subrange(m, steps.len() as int);
    assert(tail == steps.skip(m));
    assert(tail.len() == steps.len() - m);
    if graph.present_resource is Some {
        let id = graph.present_resource->0;
        let now = replayed(graph, steps, m);
        let cur = layouts_at(graph, order, order.len() as int)[id.index()];
        let image = graph.resources[id.index()].image;
        assert(now[image] == cur);
        if cur != IMAGE_LAYOUT_PRESENT_SRC_KHR {
            let b = present_barrier(image, cur);
            assert(tail[0] == steps[m]);
            lemma_own_stages(cur);
            assert(0x2000u32 & 0x2000 == 0x2000) by (bit_vector);
            assert(fits(now, b, src_info_of(cur).0, PIPELINE_STAGE_BOTTOM_OF_PIPE));
            assert(step_fits(graph, now, steps[m]));
            assert(replayed(graph, steps, m + 1) == after_step(graph, now, steps[m]));
            assert(moved(now, seq![b], 1) == now.insert(image, IMAGE_LAYOUT_PRESENT_SRC_KHR)) by {
                reveal_with_fuel(moved, 2);
            }
        }
    }
}

/// The steps of a frame are those of its passes, in the order in which they are recorded, and
/// the transition of the present target.
proof fn every_step_is_known(graph: FrameGraphView, order: Seq<usize>)
    requires
        is_schedule(graph.passes, graph.resources.len(), order),
        graph.passes.len() <= usize::MAX,
    ensures
        ({
            let all = completed(order, graph.passes.len() as int);
            frame_steps(graph) == steps_up_to(graph, all, graph.passes.len() as int)
                + present_steps(graph, all)
        }),
{
    schedule_is_unique(
        graph.passes,
        graph.resources.len(),
        order,
        schedule(graph.passes, graph.resources.len()),
    );
    lemma_completed(graph.passes, graph.resources.len(), order);
}

/// The layouts of images agree with those that are tracked for resources.
spec fn agrees(graph: FrameGraphView, layouts: Map<u64, i32>, noted: Seq<i32>) -> bool {
    &&& noted.len() == graph.resources.len()
    &&& forall|i: int|
        0 <= i < graph.resources.len() ==> layouts.dom().contains(
            (#[trigger] graph.resources[i]).image,
        ) && layouts[graph.resources[i].image] == noted[i]
    &&& forall|image: u64| #[trigger]
        layouts.dom().contains(image) ==> exists|i: int|
            0 <= i < graph.resources.len() && (#[trigger] graph.resources[i]).image == image
}

proof fn lemma_first_layouts(graph: FrameGraphView, n: int)
    requires
        0 <= n <= graph.resources.len(),
        images_differ(graph.resources),
    ensures
        ({
            let layouts = first_layouts(graph.resources, n);
            &&& forall|i: int|
                0 <= i < n ==> layouts.dom().contains((#[trigger] graph.resources[i]).image)
                    && layouts[graph.resources[i].image] == graph.resources[i].initial_layout
            &&& forall|image: u64| #[trigger]
                layouts.dom().contains(image) ==> exists|i: int|
                    0 <= i < n && (#[trigger] graph.resources[i]).image == image
        }),
    decreases n,
{
    if n > 0 {
        lemma_first_layouts(graph, n - 1);
        let layouts = first_layouts(graph.resources, n);
        let last = graph.resources[n - 1];
        assert forall|i: int| 0 <= i < n implies layouts.dom().contains(
            (#[trigger] graph.resources[i]).image,
        ) && layouts[graph.resources[i].image] == graph.resources[i].initial_layout by {
            if i < n - 1 {
                assert(graph.resources[i].image != graph.resources[n - 1].image);
            }
        }
        assert forall|image: u64| #[trigger] layouts.dom().contains(image) implies exists|i: int|
            0 <= i < n && (#[trigger] graph.resources[i]).image == image by {
            if image != last.image {
                assert(first_layouts(graph.resources, n - 1).dom().contains(image));
                let i = choose|i: int|
                    0 <= i < n - 1 && (#[trigger] graph.resources[i]).image == image;
                assert(graph.resources[i].image == image);
            }
        }
    }
}

proof fn lemma_own_stages(layout: i32)
    ensures
        waits_for(layout, src_info_of(layout).0, src_info_of(layout).1),
{
    assert(0x8000u32 | 0x1_0000u32 == 0x1_8000 && 0x1u32 & 0x1 == 0x1 && 0x400u32 & 0x400 == 0x400
        && 0x80u32 & 0x80 == 0x80 && 0x2000u32 & 0x2000 == 0x2000 && 0x1_0000u32 & 0x1_0000
        == 0x1_0000) by (bit_vector);
}

proof fn lemma_among(a: u32, b: u32)
    ensures
        among(a | b, b),
        forall|x: u32| #[trigger] among(a, x) ==> among(a | b, x),
{
    assert((a | b) & b == b) by (bit_vector);
    assert forall|x: u32| #[trigger] among(a, x) implies among(a | b, x) by {
        assert(a & x == x ==> (a | b) & x == x) by (bit_vector);
    }
}

/// Every barrier of a pass is that of one of its attachments, and fits.
proof fn lemma_barriers_fit(
    graph: FrameGraphView,
    layouts: Map<u64, i32>,
    noted: Seq<i32>,
    atts: Seq<Attachment>,
    i: int,
)
    requires
        agrees(graph, layouts, noted),
        forall|k: int|
            0 <= k < atts.len() ==> 0 <= (#[trigger] atts[k]).0.index() < graph.resources.len(),
        0 <= i < pass_barriers(graph.resources, noted, atts).len(),
    ensures
        fits(
            layouts,
            pass_barriers(graph.resources, noted, atts)[i],
            pass_src_stages(noted, atts),
            pass_dst_stages(noted, atts),
        ),
        exists|k: int|
            0 <= k < atts.len() && needs_barrier(noted[(#[trigger] atts[k]).0.index()], atts[k].1)
                && pass_barriers(graph.resources, noted, atts)[i] == use_barrier(
                graph.resources[atts[k].0.index()].image,
                noted[atts[k].0.index()],
                atts[k].1,
            ),
    decreases atts.len(),
{
    let all = pass_barriers(graph.resources, noted, atts);
    if atts.len() > 0 {
        let rest = atts.drop_last();
        let before = pass_barriers(graph.resources, noted, rest);
        let last = atts.last();
        let res = last.0.index();
        assert(last == atts[atts.len() - 1]);
        assert forall|k: int| 0 <= k < rest.len() implies 0 <= (#[trigger] rest[k]).0.index()
            < graph.resources.len() by {
            assert(rest[k] == atts[k]);
        }
        lemma_among(pass_src_stages(noted, rest), src_info_of(noted[res]).0);
        lemma_among(pass_dst_stages(noted, rest), dst_info_of(last.1).0);
        if i < before.len() {
            lemma_barriers_fit(graph, layouts, noted, rest, i);
            let k = choose|k: int|
                0 <= k < rest.len() && needs_barrier(
                    noted[(#[trigger] rest[k]).0.index()],
                    rest[k].1,
                ) && before[i] == use_barrier(
                    graph.resources[rest[k].0.index()].image,
                    noted[rest[k].0.index()],
                    rest[k].1,
                );
            assert(atts[k] == rest[k]);
            assert(all[i] == before[i]);
        } else {
            let b = use_barrier(graph.resources[res].image, noted[res], last.1);
            assert(needs_barrier(noted[res], last.1));
            assert(all[i] == b);
            lemma_own_stages(noted[res]);
            assert(layouts[graph.resources[res].image] == noted[res]);
            assert(among(dst_info_of(last.1).0, dst_info_of(last.1).0)) by {
                assert(0x400u32 & 0x400 == 0x400 && 0x80u32 & 0x80 == 0x80) by (bit_vector);
            }
        }
    }
}

proof fn lemma_moved(layouts: Map<u64, i32>, barriers: Seq<ImageBarrier>, k: int, image: u64)
    requires
        0 <= k <= barriers.len(),
        forall|i: int|
            0 <= i < barriers.len() ==> layouts.dom().contains((#[trigger] barriers[i]).image),
    ensures
        moved(layouts, barriers, k).dom() =~= layouts.dom(),
        (forall|i: int| 0 <= i < k ==> (#[trigger] barriers[i]).image != image) ==> moved(
            layouts,
            barriers,
            k,
        )[image] == layouts[image],
        (exists|i: int| 0 <= i < k && (#[trigger] barriers[i]).image == image) ==> exists|i: int|
            0 <= i < k && (#[trigger] barriers[i]).image == image && moved(
                layouts,
                barriers,
                k,
            )[image] == barriers[i].new_layout,
    decreases k,
{
    if k > 0 {
        lemma_moved(layouts, barriers, k - 1, image);
        assert(layouts.dom().contains(barriers[k - 1].image));
        if barriers[k - 1].image == image {
            assert(moved(layouts, barriers, k)[image] == barriers[k - 1].new_layout);
        } else if exists|i: int| 0 <= i < k && (#[trigger] barriers[i]).image == image {
            let i = choose|i: int| 0 <= i < k && (#[trigger] barriers[i]).image == image;
            assert(0 <= i < k - 1);
            let j = choose|i: int|
                0 <= i < k - 1 && (#[trigger] barriers[i]).image == image && moved(
                    layouts,
                    barriers,
                    k - 1,
                )[image] == barriers[i].new_layout;
            assert(barriers[j].image == image);
        }
    }
}

/// A last listed use is one of the uses that are listed.
proof fn lemma_last_use(atts: Seq<Attachment>, res: int)
    ensures
        match last_use(atts, res) {
            Some(usage) => exists|k: int|
                0 <= k < atts.len() && (#[trigger] atts[k]).0.index() == res && atts[k].1 == usage,
            None => forall|k: int| 0 <= k < atts.len() ==> (#[trigger] atts[k]).0.index() != res,
        },
    decreases atts.len(),
{
    if atts.len() > 0 {
        let rest = atts.drop_last();
        if atts.last().0.index() == res {
            assert(atts[atts.len() - 1].0.index() == res);
        } else {
            lemma_last_use(rest, res);
            if last_use(rest, res) is Some {
                let k = choose|k: int|
                    0 <= k < rest.len() && (#[trigger] rest[k]).0.index() == res && rest[k].1
                        == last_use(rest, res)->0;
                assert(atts[k] == rest[k]);
            } else {
                assert forall|k: int| 0 <= k < atts.len() implies (#[trigger] atts[k]).0.index()
                    != res by {
                    if k < rest.len() {
                        assert(rest[k] == atts[k]);
                    }
                }
            }
        }
    }
}

/// An image that a pass touches is that of a resource that it lists.
proof fn lemma_touches(graph: FrameGraphView, p: int, i: int, usage: AttachmentUsage)
    requires
        graph.ids_in_range(),
        images_differ(graph.resources),
        0 <= p < graph.passes.len(),
        0 <= i < graph.resources.len(),
    ensures
        touches(graph, p, graph.resources[i].image, usage) == uses(graph.passes, p, i, usage),
{
    let image = graph.resources[i].image;
    if touches(graph, p, image, usage) {
        let k = choose|k: int|
            0 <= k < graph.passes[p].len() && graph.resources[(
            #[trigger] graph.passes[p][k]).0.index()].image == image && graph.passes[p][k].1
                == usage;
        let j = graph.passes[p][k].0.index();
        if j < i {
            assert(graph.resources[j].image != graph.resources[i].image);
        } else if i < j {
            assert(graph.resources[i].image != graph.resources[j].image);
        }
        assert(graph.passes[p][k].0.index() == i);
    }
    if uses(graph.passes, p, i, usage) {
        let k = choose|k: int|
            0 <= k < graph.passes[p].len() && (#[trigger] graph.passes[p][k]).0.index() == i
                && graph.passes[p][k].1 == usage;
        assert(graph.resources[graph.passes[p][k].0.index()].image == image);
    }
}

/// After the barriers of a pass, its images are ready, and all others are as before.
proof fn lemma_ready_after_barriers(
    graph: FrameGraphView,
    layouts: Map<u64, i32>,
    noted: Seq<i32>,
    p: int,
    i: int,
)
    requires
        graph.ids_in_range(),
        images_differ(graph.resources),
        no_feedback(graph),
        0 <= p < graph.passes.len(),
        agrees(graph, layouts, noted),
        0 <= i < graph.resources.len(),
    ensures
        ({
            let barriers = pass_barriers(graph.resources, noted, graph.passes[p]);
            let now = moved(layouts, barriers, barriers.len() as int);
            let image = graph.resources[i].image;
            &&& now.dom() =~= layouts.dom()
            &&& uses(graph.passes, p, i, AttachmentUsage::ShaderSample) ==> now[image]
                == IMAGE_LAYOUT_SHADER_READ_ONLY_OPTIMAL
            &&& uses(graph.passes, p, i, AttachmentUsage::ColorWrite) ==> now[image]
                == IMAGE_LAYOUT_COLOR_ATTACHMENT_OPTIMAL || now[image] == IMAGE_LAYOUT_UNDEFINED
            &&& !uses(graph.passes, p, i, AttachmentUsage::ShaderSample) && !uses(
                graph.passes,
                p,
                i,
                AttachmentUsage::ColorWrite,
            ) ==> now[image] == noted[i]
        }),
{
    let atts = graph.passes[p];
    let barriers = pass_barriers(graph.resources, noted, atts);
    let n = barriers.len() as int;
    let now = moved(layouts, barriers, n);
    let image = graph.resources[i].image;
    assert forall|k: int| 0 <= k < atts.len() implies 0 <= (#[trigger] atts[k]).0.index()
        < graph.resources.len() by {
        assert(graph.passes[p][k] == atts[k]);
    }
    assert forall|b: int| 0 <= b < n implies layouts.dom().contains((#[trigger] barriers[b]).image) by {
        lemma_barriers_fit(graph, layouts, noted, atts, b);
    }
    lemma_moved(layouts, barriers, n, image);
    lemma_touches(graph, p, i, AttachmentUsage::ShaderSample);
    lemma_touches(graph, p, i, AttachmentUsage::ColorWrite);
    assert(layouts[image] == noted[i]);
    if exists|b: int| 0 <= b < n && (#[trigger] barriers[b]).image == image {
        let b = choose|b: int|
            0 <= b < n && (#[trigger] barriers[b]).image == image && now[image]
                == barriers[b].new_layout;
        lemma_barriers_fit(graph, layouts, noted, atts, b);
        let k = choose|k: int|
            0 <= k < atts.len() && needs_barrier(
                noted[(#[trigger] atts[k]).0.index()],
                atts[k].1,
            ) && barriers[b] == use_barrier(
                graph.resources[atts[k].0.index()].image,
                noted[atts[k].0.index()],
                atts[k].1,
            );
        let j = atts[k].0.index();
        if j < i {
            assert(graph.resources[j].image != graph.resources[i].image);
        } else if i < j {
            assert(graph.resources[i].image != graph.resources[j].image);
        }
        assert(graph.passes[p][k].0.index() == i && graph.passes[p][k].1 == atts[k].1);
        assert(uses(graph.passes, p, i, atts[k].1));
    } else {
        if uses(graph.passes, p, i, AttachmentUsage::ShaderSample) {
            lemma_no_barrier(graph, noted, p, i, AttachmentUsage::ShaderSample);
        }
        if uses(graph.passes, p, i, AttachmentUsage::ColorWrite) {
            lemma_no_barrier(graph, noted, p, i, AttachmentUsage::ColorWrite);
        }
    }
}

/// A pass that uses an image and has no barrier for it finds it ready.
proof fn lemma_no_barrier(
    graph: FrameGraphView,
    noted: Seq<i32>,
    p: int,
    i: int,
    usage: AttachmentUsage,
)
    requires
        graph.ids_in_range(),
        0 <= p < graph.passes.len(),
        0 <= i < graph.resources.len(),
        uses(graph.passes, p, i, usage),
        ({
            let barriers = pass_barriers(graph.resources, noted, graph.passes[p]);
            forall|b: int|
                0 <= b < barriers.len() ==> (#[trigger] barriers[b]).image
                    != graph.resources[i].image
        }),
    ensures
        !needs_barrier(noted[i], usage),
{
    let k = choose|k: int|
        0 <= k < graph.passes[p].len() && (#[trigger] graph.passes[p][k]).0.index() == i
            && graph.passes[p][k].1 == usage;
    let barriers = pass_barriers(graph.resources, noted, graph.passes[p]);
    let wanted = use_barrier(graph.resources[i].image, noted[i], usage);
    attachments_are_ready(graph.resources, noted, graph.passes[p], k);
    if needs_barrier(noted[i], usage) {
        assert(barriers.contains(wanted));
        let b = choose|b: int| 0 <= b < barriers.len() && barriers[b] == wanted;
        assert(barriers[b].image == graph.resources[i].image);
    }
}

/// A recorded pass fits the layouts that its barriers leave, and its images then agree with
/// their tracked layouts again.
proof fn lemma_replay_pass(
    graph: FrameGraphView,
    layouts: Map<u64, i32>,
    noted: Seq<i32>,
    p: usize,
)
    requires
        graph.ids_in_range(),
        images_differ(graph.resources),
        no_feedback(graph),
        p < graph.passes.len(),
        agrees(graph, layouts, noted),
    ensures
        ({
            let barriers = pass_barriers(graph.resources, noted, graph.passes[p as int]);
            let now = moved(layouts, barriers, barriers.len() as int);
            &&& step_fits(graph, now, FrameStepView::Record(p))
            &&& agrees(
                graph,
                after_step(graph, now, FrameStepView::Record(p)),
                layouts_after_pass(noted, graph.passes[p as int]),
            )
            &&& barriers.len() > 0 ==> step_fits(
                graph,
                layouts,
                FrameStepView::Barrier {
                    src_stages: pass_src_stages(noted, graph.passes[p as int]),
                    dst_stages: pass_dst_stages(noted, graph.passes[p as int]),
                    barriers,
                },
            )
        }),
{
    let atts = graph.passes[p as int];
    let barriers = pass_barriers(graph.resources, noted, atts);
    let now = moved(layouts, barriers, barriers.len() as int);
    let then = after_step(graph, now, FrameStepView::Record(p));
    let later = layouts_after_pass(noted, atts);
    assert forall|k: int| 0 <= k < atts.len() implies 0 <= (#[trigger] atts[k]).0.index()
        < graph.resources.len() by {
        assert(graph.passes[p as int][k] == atts[k]);
    }
    assert forall|b: int| 0 <= b < barriers.len() implies fits(
        layouts,
        #[trigger] barriers[b],
        pass_src_stages(noted, atts),
        pass_dst_stages(noted, atts),
    ) by {
        lemma_barriers_fit(graph, layouts, noted, atts, b);
    }
    lemma_moved(layouts, barriers, barriers.len() as int, 0);
    assert forall|image: u64| #[trigger] now.dom().contains(image) implies (touches(
        graph,
        p as int,
        image,
        AttachmentUsage::ShaderSample,
    ) ==> now[image] == IMAGE_LAYOUT_SHADER_READ_ONLY_OPTIMAL) && (touches(
        graph,
        p as int,
        image,
        AttachmentUsage::ColorWrite,
    ) ==> now[image] == IMAGE_LAYOUT_COLOR_ATTACHMENT_OPTIMAL || now[image]
        == IMAGE_LAYOUT_UNDEFINED) by {
        assert(layouts.dom().contains(image));
        let i = choose|i: int|
            0 <= i < graph.resources.len() && (#[trigger] graph.resources[i]).image == image;
        lemma_ready_after_barriers(graph, layouts, noted, p as int, i);
        lemma_touches(graph, p as int, i, AttachmentUsage::ShaderSample);
        lemma_touches(graph, p as int, i, AttachmentUsage::ColorWrite);
    }
    assert(then.dom() =~= layouts.dom());
    assert forall|i: int| 0 <= i < graph.resources.len() implies then.dom().contains(
        (#[trigger] graph.resources[i]).image,
    ) && then[graph.resources[i].image] == later[i] by {
        let image = graph.resources[i].image;
        assert(layouts.dom().contains(image));
        lemma_ready_after_barriers(graph, layouts, noted, p as int, i);
        lemma_touches(graph, p as int, i, AttachmentUsage::ShaderSample);
        lemma_touches(graph, p as int, i, AttachmentUsage::ColorWrite);
        layouts_follow_uses(noted, atts, i);
        lemma_last_use(atts, i);
        match last_use(atts, i) {
            Some(usage) => {
                let k = choose|k: int|
                    0 <= k < atts.len() && (#[trigger] atts[k]).0.index() == i && atts[k].1
                        == usage;
                assert(graph.passes[p as int][k].0.index() == i);
                assert(uses(graph.passes, p as int, i, usage));
            },
            None => {
                assert(!uses(graph.passes, p as int, i, AttachmentUsage::ShaderSample));
                assert(!uses(graph.passes, p as int, i, AttachmentUsage::ColorWrite));
            },
        }
    }
    if graph.resources.len() > 0 {
        layouts_follow_uses(noted, atts, 0);
    } else {
        assert(atts.len() == 0) by {
            if atts.len() > 0 {
                assert(atts[0].0.index() < graph.resources.len());
            }
        }
    }
    assert forall|image: u64| #[trigger] then.dom().contains(image) implies exists|i: int|
        0 <= i < graph.resources.len() && (#[trigger] graph.resources[i]).image == image by {
        assert(layouts.dom().contains(image));
    }
}

/// Replay of the steps for the first `k` passes, which begin `steps`.
proof fn lemma_replay_passes(
    graph: FrameGraphView,
    order: Seq<usize>,
    steps: Seq<FrameStepView>,
    k: int,
)
    requires
        graph.ids_in_range(),
        images_differ(graph.resources),
        no_feedback(graph),
        0 <= k <= order.len(),
        forall|i: int| 0 <= i < order.len() ==> (#[trigger] order[i]) < graph.passes.len(),
        steps_up_to(graph, order, k).len() <= steps.len(),
        steps_up_to(graph, order, k) == steps.take(steps_up_to(graph, order, k).len() as int),
    ensures
        ({
            let m = steps_up_to(graph, order, k).len() as int;
            &&& agrees(graph, replayed(graph, steps, m), layouts_at(graph, order, k))
            &&& forall|j: int|
                0 <= j < m ==> step_fits(graph, replayed(graph, steps, j), #[trigger] steps[j])
        }),
    decreases k,
{
    if k == 0 {
        lemma_first_layouts(graph, graph.resources.len() as int);
    } else {
        let before = steps_up_to(graph, order, k - 1);
        let added = pass_steps(graph, order, k - 1);
        let all = steps_up_to(graph, order, k);
        let m = before.len() as int;
        assert(all == before + added);
        assert(before =~= steps.take(m)) by {
            assert forall|j: int| 0 <= j < m implies before[j] == steps[j] by {
                assert(all[j] == steps.take(all.len() as int)[j]);
            }
        }
        lemma_replay_passes(graph, order, steps, k - 1);
        let layouts = replayed(graph, steps, m);
        let noted = layouts_at(graph, order, k - 1);
        let p = order[k - 1];
        let barriers = pass_barriers(graph.resources, noted, graph.passes[p as int]);
        lemma_replay_pass(graph, layouts, noted, p);
        assert forall|j: int| 0 <= j < added.len() implies steps[m + j] == added[j] by {
            assert(all[m + j] == steps.take(all.len() as int)[m + j]);
        }
        assert(steps[m] == added[0]);
        assert(replayed(graph, steps, m + 1) == after_step(graph, layouts, steps[m]));
        if barriers.len() > 0 {
            assert(steps[m + 1] == added[1]);
            assert(replayed(graph, steps, m + 2) == after_step(
                graph,
                replayed(graph, steps, m + 1),
                steps[m + 1],
            ));
        }
        assert forall|j: int| 0 <= j < all.len() implies step_fits(
            graph,
            replayed(graph, steps, j),
            #[trigger] steps[j],
        ) by {
            assert(j < m || j == m || j == m + 1);
        }
    }
}

/// Passes that the same pass releases last are recorded in the order of the resources that link
/// them to it: whatever the later one samples of it, the earlier one samples that or something
/// lower, and where the earlier one was added later, it samples something lower than anything
/// that the later one does.
pub proof fn released_passes_go_by_resource(
    passes: Seq<Seq<Attachment>>,
    limit: nat,
    order: Seq<usize>,
    k: int,
    i: int,
    j: int,
)
    requires
        is_schedule(passes, limit, order),
        0 <= i < j < order.len(),
        0 <= k < order.len(),
        depends(passes, limit, order[k] as int, order[i] as int),
        depends(passes, limit, order[k] as int, order[j] as int),
        forall|m: int|
            k < m < order.len() ==> !depends(passes, limit, #[trigger] order[m] as int, order[i] as int)
                && !depends(passes, limit, order[m] as int, order[j] as int),
    ensures
        forall|r: int|
            0 <= r < limit && #[trigger] shares(passes, order[k] as int, order[j] as int, r) ==> exists|
                q: int,
            |
                0 <= q <= r && #[trigger] shares(passes, order[k] as int, order[i] as int, q),
        order[i] > order[j] ==> exists|q: int|
            0 <= q < limit && #[trigger] shares(passes, order[k] as int, order[i] as int, q)
                && forall|r: int|
                0 <= r <= q ==> !#[trigger] shares(passes, order[k] as int, order[j] as int, r),
{
    let n = order.len() as int;
    let (u, a, b) = (order[k] as int, order[i] as int, order[j] as int);
    lemma_released_at(passes, limit, order, a, n);
    lemma_released_at(passes, limit, order, b, n);
    let ra = released_at(passes, limit, order, a, n);
    let rb = released_at(passes, limit, order, b, n);
    assert(ra == k && rb == k);
    assert(taken_before(passes, limit, order, a, b));
    lemma_first_shared(passes, u, a, limit);
    lemma_first_shared(passes, u, b, limit);
    let q = first_shared(passes, u, a, limit) as int;
    assert(shares(passes, u, a, q));
}

/// Passes are recorded in the order in which their last dependencies are: of two passes, the one
/// that is recorded first was not released later.
pub proof fn passes_go_as_they_are_released(
    passes: Seq<Seq<Attachment>>,
    limit: nat,
    order: Seq<usize>,
    k: int,
    m: int,
    i: int,
    j: int,
)
    requires
        is_schedule(passes, limit, order),
        0 <= i < j < order.len(),
        0 <= k < order.len(),
        0 <= m < order.len(),
        depends(passes, limit, order[k] as int, order[i] as int),
        forall|x: int|
            k < x < order.len() ==> !depends(passes, limit, #[trigger] order[x] as int, order[i] as int),
        depends(passes, limit, order[m] as int, order[j] as int),
        forall|x: int|
            m < x < order.len() ==> !depends(passes, limit, #[trigger] order[x] as int, order[j] as int),
    ensures
        k <= m,
{
    let n = order.len() as int;
    let (a, b) = (order[i] as int, order[j] as int);
    lemma_released_at(passes, limit, order, a, n);
    lemma_released_at(passes, limit, order, b, n);
    assert(released_at(passes, limit, order, a, n) == k);
    assert(released_at(passes, limit, order, b, n) == m);
    assert(taken_before(passes, limit, order, a, b));
}

} // verus!
