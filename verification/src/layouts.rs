//! Image layouts and contents across recorded commands: every command that names a layout is
//! recorded while the image is in it, none reads what a transition discarded, and the layouts that
//! the device tracks are those the images are in.
use vstd::prelude::*;

use crate::command::{CommandOf, CommandView};
use crate::command_list;
use crate::command_list::{ColorAttachment, DepthAttachment};
use crate::device::base_layouts;
use crate::device::textures;
use crate::device::textures::Upload;
use crate::device::{
    DeviceView, TargetHandle, TextureHandle, VulkanRenderTarget, VulkanTexture,
};
use crate::slot_map::Slots;
use crate::surface;
use crate::swapchain_textured;
use crate::vk;

verus! {

/// One level and layer of an image.
#[derive(Clone, Copy)]
pub struct Subresource {
    pub image: u64,
    pub level: u32,
    pub layer: u32,
}

/// A range of an image holds a subresource.
pub open spec fn covers(image: u64, range: vk::SubresourceRange, s: Subresource) -> bool {
    &&& image == s.image
    &&& range.base_mip_level <= s.level < range.base_mip_level + range.level_count
    &&& range.base_array_layer <= s.layer < range.base_array_layer + range.layer_count
}

/// Layers of an image hold a subresource.
pub open spec fn selects(image: u64, layers: vk::SubresourceLayers, s: Subresource) -> bool {
    &&& image == s.image
    &&& layers.mip_level == s.level
    &&& layers.base_array_layer <= s.layer < layers.base_array_layer + layers.layer_count
}

/// What a subresource holds: what it held at first, what a command wrote to it since, or nothing
/// that can be relied on.
#[derive(Clone, Copy)]
pub enum Contents {
    Initial,
    Written,
    Lost,
}

/// Layout and contents of a subresource, and whether none of the reads so far read lost contents.
#[derive(Clone, Copy)]
pub struct State {
    pub layout: i32,
    pub contents: Contents,
    pub reads_ok: bool,
}

/// State after a barrier. A transition may start from the layout that the subresource is in, or
/// from the undefined one, which discards the contents; `None` for any other.
pub open spec fn after_barrier(b: vk::ImageBarrier, s: Subresource, state: State) -> Option<State> {
    if !covers(b.image, b.subresource_range, s) {
        Some(state)
    } else if b.old_layout == vk::IMAGE_LAYOUT_UNDEFINED {
        Some(State { layout: b.new_layout, contents: Contents::Lost, ..state })
    } else if b.old_layout == state.layout {
        Some(State { layout: b.new_layout, ..state })
    } else {
        None
    }
}

/// State after a read, if the subresource is `used`: it must be in the layout `named`.
pub open spec fn after_read(used: bool, named: i32, state: State) -> Option<State> {
    if !used {
        Some(state)
    } else if named != state.layout {
        None
    } else {
        Some(State { reads_ok: state.reads_ok && state.contents !is Lost, ..state })
    }
}

/// State after a write, if the subresource is `used`: it must be in the layout `named`.
pub open spec fn after_write(used: bool, named: i32, state: State) -> Option<State> {
    if !used {
        Some(state)
    } else if named != state.layout {
        None
    } else {
        Some(State { contents: Contents::Written, ..state })
    }
}

/// State of a subresource after a command. `None` if the command takes it to be in another layout
/// than the one it is in.
pub open spec fn after_command(c: CommandView, s: Subresource, state: State) -> Option<State> {
    match c {
        CommandOf::ImageBarrier { src_stages, dst_stages, barrier } => after_barrier(
            barrier,
            s,
            state,
        ),
        CommandOf::ImageBarrierPair { src_stages, dst_stages, first, second } => {
            match after_barrier(first, s, state) {
                Some(next) => after_barrier(second, s, next),
                None => None,
            }
        },
        CommandOf::CopyBufferToImage { buffer, image, image_layout, region } => after_write(
            selects(image, region.image_subresource, s),
            image_layout,
            state,
        ),
        CommandOf::CopyImageToBuffer { image, image_layout, buffer, region } => after_read(
            selects(image, region.image_subresource, s),
            image_layout,
            state,
        ),
        CommandOf::BlitImage { image, src_layout, dst_layout, blit, filter } => {
            match after_read(selects(image, blit.src_subresource, s), src_layout, state) {
                Some(next) => after_write(
                    selects(image, blit.dst_subresource, s),
                    dst_layout,
                    next,
                ),
                None => None,
            }
        },
        CommandOf::ClearColorImage { image, image_layout, color, range } => after_write(
            covers(image, range, s),
            image_layout,
            state,
        ),
        _ => Some(state),
    }
}

/// State of a subresource after the first `k` commands.
pub open spec fn after_first(
    commands: Seq<CommandView>,
    k: int,
    s: Subresource,
    state: State,
) -> Option<State>
    decreases k,
{
    if k <= 0 {
        Some(state)
    } else {
        match after_first(commands, k - 1, s, state) {
            Some(next) => after_command(commands[k - 1], s, next),
            None => None,
        }
    }
}

/// State of a subresource after commands that find it in `state`. `None` if one of them takes it
/// to be in another layout than the one it is in.
pub open spec fn state_after(
    commands: Seq<CommandView>,
    s: Subresource,
    state: State,
) -> Option<State> {
    after_first(commands, commands.len() as int, s, state)
}

proof fn lemma_first_part(
    a: Seq<CommandView>,
    b: Seq<CommandView>,
    k: int,
    s: Subresource,
    state: State,
)
    requires
        0 <= k <= a.len(),
    ensures
        after_first(a + b, k, s, state) == after_first(a, k, s, state),
    decreases k,
{
    if k > 0 {
        lemma_first_part(a, b, k - 1, s, state);
    }
}

proof fn lemma_second_part(
    a: Seq<CommandView>,
    b: Seq<CommandView>,
    k: int,
    s: Subresource,
    state: State,
)
    requires
        0 <= k <= b.len(),
    ensures
        after_first(a + b, a.len() + k, s, state) == (match state_after(a, s, state) {
            Some(next) => after_first(b, k, s, next),
            None => None,
        }),
    decreases k,
{
    if k > 0 {
        lemma_second_part(a, b, k - 1, s, state);
        assert((a + b)[a.len() + k - 1] == b[k - 1]);
    } else {
        lemma_first_part(a, b, a.len() as int, s, state);
    }
}

proof fn lemma_concat(a: Seq<CommandView>, b: Seq<CommandView>, s: Subresource, state: State)
    ensures
        state_after(a + b, s, state) == (match state_after(a, s, state) {
            Some(next) => state_after(b, s, next),
            None => None,
        }),
{
    lemma_second_part(a, b, b.len() as int, s, state);
}

/// An upload is recorded in matching layouts, whatever layout the texture was in. The level and
/// layer that it fills end up written and readable by shaders, and no other changes its layout or
/// contents.
pub proof fn uploaded_layer_is_readable(
    t: VulkanTexture,
    level: u32,
    layer: u32,
    staging: u64,
    s: Subresource,
    state: State,
)
    ensures
        state_after(textures::upload_commands(t, level, layer, staging), s, state) == Some(
            if s == (Subresource { image: t.image, level, layer }) {
                State {
                    layout: vk::IMAGE_LAYOUT_SHADER_READ_ONLY_OPTIMAL,
                    contents: Contents::Written,
                    ..state
                }
            } else {
                state
            },
        ),
{
    reveal_with_fuel(after_first, 4);
}

/// Reading a rendered image back is recorded in matching layouts, reads what was rendered, and
/// leaves every layout and all contents of the image as they were: the first level and layer is a
/// color attachment before and after.
pub proof fn readback_keeps_layouts(t: VulkanTexture, buffer: u64, s: Subresource, state: State)
    requires
        s == (Subresource { image: t.image, level: 0, layer: 0 }) ==> state.layout
            == vk::IMAGE_LAYOUT_COLOR_ATTACHMENT_OPTIMAL && state.contents !is Lost,
    ensures
        state_after(textures::readback_commands(t, buffer), s, state) == Some(state),
{
    reveal_with_fuel(after_first, 4);
}

/// The texture in the slots that have none is recorded in matching layouts and ends up written
/// and readable by shaders.
pub proof fn placeholder_is_readable(image: u64, state: State)
    ensures
        state_after(
            swapchain_textured::placeholder_commands(image),
            (Subresource { image, level: 0, layer: 0 }),
            state,
        ) == Some(
            State {
                layout: vk::IMAGE_LAYOUT_SHADER_READ_ONLY_OPTIMAL,
                contents: Contents::Written,
                ..state
            },
        ),
{
    reveal_with_fuel(after_first, 4);
}

/// The layout of a subresource is tracked truly: of a base level, the tracked layout is the one it
/// is in, or makes no claim.
pub open spec fn is_known(base: Map<u64, Seq<i32>>, s: Subresource, state: State) -> bool {
    s.level == 0 ==> base_layouts::layout_of(base, s.image, s.layer as int) == state.layout
        || base_layouts::layout_of(base, s.image, s.layer as int) == vk::IMAGE_LAYOUT_UNDEFINED
}

/// State once the base level is a transfer source. Contents that nothing is known of are lost.
pub open spec fn base_state(base: Map<u64, Seq<i32>>, s: Subresource, state: State) -> State {
    if s.level != 0 {
        state
    } else if base_layouts::layout_of(base, s.image, s.layer as int) == vk::IMAGE_LAYOUT_UNDEFINED {
        State {
            layout: vk::IMAGE_LAYOUT_TRANSFER_SRC_OPTIMAL,
            contents: Contents::Lost,
            ..state
        }
    } else {
        State { layout: vk::IMAGE_LAYOUT_TRANSFER_SRC_OPTIMAL, ..state }
    }
}

proof fn lemma_base(
    base: Map<u64, Seq<i32>>,
    t: VulkanTexture,
    k: int,
    s: Subresource,
    state: State,
)
    requires
        0 <= k <= t.array_layers,
        s.image == t.image,
        is_known(base, s, state),
    ensures
        state_after(textures::base_commands(base, t, k), s, state) == Some(
            if s.layer < k {
                base_state(base, s, state)
            } else {
                state
            },
        ),
    decreases k,
{
    if k > 0 {
        let before = textures::base_commands(base, t, k - 1);
        let layout = base_layouts::layout_of(base, t.image, k - 1);
        let last = seq![textures::base_command(t, (k - 1) as u32, layout)];
        lemma_base(base, t, k - 1, s, state);
        lemma_concat(before, last, s, state);
        assert(textures::base_commands(base, t, k) =~= before + last);
        reveal_with_fuel(after_first, 2);
    }
}

/// State of a level while a mip chain is built from the state in which its base level is a
/// transfer source: those that were scaled down are readable by shaders, and the one that was last
/// written is a transfer destination. The base level keeps its contents, and every other one that
/// was reached is written.
pub open spec fn chain_state(built: int, level: int, state: State) -> State {
    State {
        layout: if level < built {
            vk::IMAGE_LAYOUT_SHADER_READ_ONLY_OPTIMAL
        } else if level == built && built > 0 {
            vk::IMAGE_LAYOUT_TRANSFER_DST_OPTIMAL
        } else {
            state.layout
        },
        contents: if 0 < level <= built {
            Contents::Written
        } else {
            state.contents
        },
        reads_ok: state.reads_ok && !(level == 0 && built > 0 && state.contents is Lost),
    }
}

proof fn lemma_levels(t: VulkanTexture, k: int, s: Subresource, state: State)
    requires
        0 <= k < t.mip_levels,
        s.image == t.image,
        s.layer < t.array_layers,
        s.level == 0 ==> state.layout == vk::IMAGE_LAYOUT_TRANSFER_SRC_OPTIMAL,
    ensures
        state_after(textures::levels_commands(t, k), s, state) == Some(
            chain_state(k, s.level as int, state),
        ),
    decreases k,
{
    if k > 0 {
        let level = (k - 1) as u32;
        let before = chain_state(k - 1, s.level as int, state);
        let step = textures::level_commands(t, level);
        lemma_levels(t, k - 1, s, state);
        lemma_concat(textures::levels_commands(t, k - 1), step, s, state);
        assert(state_after(step, s, before) == Some(chain_state(k, s.level as int, state))) by {
            reveal(textures::level_commands);
            reveal_with_fuel(after_first, 4);
        }
    }
}

/// A mip chain is built from its base level: whatever layout a layer of the base level is in, if it
/// is tracked truly, the commands are recorded in matching layouts and leave every level readable
/// by shaders. A base layer that something was uploaded or rendered to keeps its texels, every
/// other level is written, and what is read was not lost before.
pub proof fn mip_chain_is_readable(
    base: Map<u64, Seq<i32>>,
    t: VulkanTexture,
    s: Subresource,
    state: State,
)
    requires
        t.mip_levels >= 2,
        s.image == t.image,
        s.level < t.mip_levels,
        s.layer < t.array_layers,
        is_known(base, s, state),
    ensures
        ({
            let layout = base_layouts::layout_of(base, s.image, s.layer as int);
            let end = state_after(textures::mipmap_commands(base, t), s, state);
            let kept = layout != vk::IMAGE_LAYOUT_UNDEFINED && state.contents !is Lost;
            &&& end is Some
            &&& end->0.layout == vk::IMAGE_LAYOUT_SHADER_READ_ONLY_OPTIMAL
            &&& s.level == 0 && kept ==> end->0.contents == state.contents
            &&& s.level == 0 && !kept ==> end->0.contents is Lost
            &&& s.level > 0 ==> end->0.contents is Written
            &&& end->0.reads_ok == (state.reads_ok && (s.level == 0 ==> kept))
        }),
{
    let first = textures::base_commands(base, t, t.array_layers as int);
    let levels = textures::levels_commands(t, t.mip_levels - 1);
    let last = seq![textures::last_level_command(t)];
    let middle = base_state(base, s, state);
    lemma_base(base, t, t.array_layers as int, s, state);
    lemma_levels(t, t.mip_levels - 1, s, middle);
    lemma_concat(levels, last, s, middle);
    lemma_concat(first, levels + last, s, state);
    assert(textures::mipmap_commands(base, t) =~= first + (levels + last));
    reveal_with_fuel(after_first, 2);
}

/// Building a mip chain leaves the layouts of base levels tracked truly.
pub proof fn mip_chain_is_known(v: DeviceView, h: TextureHandle, s: Subresource, state: State)
    requires
        v.textures.live(h),
        v.textures.value(h).mip_levels >= 2,
        s.image == v.textures.value(h).image,
        s.level < v.textures.value(h).mip_levels,
        s.layer < v.textures.value(h).array_layers,
        is_known(v.base_layouts, s, state),
    ensures
        ({
            let t = v.textures.value(h);
            let end = state_after(textures::mipmap_commands(v.base_layouts, t), s, state);
            end is Some && is_known(textures::mipmaps_noted(v, h).base_layouts, s, end->0)
        }),
{
    mip_chain_is_readable(v.base_layouts, v.textures.value(h), s, state);
}

/// An upload leaves the layouts of base levels tracked truly, and a mip chain that is built from
/// the layer it filled keeps what was uploaded.
pub proof fn upload_is_known(
    v: DeviceView,
    upload: Upload,
    staging: u64,
    s: Subresource,
    state: State,
)
    requires
        is_known(v.base_layouts, s, state),
    ensures
        ({
            let commands = textures::upload_commands(
                upload.texture,
                upload.level,
                upload.layer,
                staging,
            );
            let end = state_after(commands, s, state);
            end is Some && is_known(textures::upload_noted(v, upload).base_layouts, s, end->0)
        }),
        ({
            let t = upload.texture;
            let base = textures::upload_noted(v, upload).base_layouts;
            upload.level == 0 && v.base_layouts.contains_key(t.image) && upload.layer
                < v.base_layouts[t.image].len() ==> base_layouts::layout_of(
                base,
                t.image,
                upload.layer as int,
            ) == vk::IMAGE_LAYOUT_SHADER_READ_ONLY_OPTIMAL
        }),
{
    uploaded_layer_is_readable(upload.texture, upload.level, upload.layer, staging, s, state);
}

/// A new texture is tracked truly whatever its image holds: no layout is claimed.
pub proof fn new_texture_is_known(v: DeviceView, entry: VulkanTexture, s: Subresource, state: State)
    requires
        s.image == entry.image,
    ensures
        is_known(textures::texture_entered(v, entry).base_layouts, s, state),
{
}

// ── Tracked layouts ────────────────────────────────────────────────────────────

/// First level and layer of the image of a target: what it renders to.
pub open spec fn rendered(rt: VulkanRenderTarget) -> Subresource {
    Subresource { image: rt.image, level: 0, layer: 0 }
}

/// The target in slot `i` is the only one that renders to its image.
pub open spec fn sole_target(targets: Slots<VulkanRenderTarget>, i: int) -> bool {
    &&& targets.occupied(i)
    &&& forall|j: int|
        #![trigger targets.at(j)]
        targets.occupied(j) && j != i ==> targets.at(j).image != targets.at(i).image
}

/// A tracked layout is the one that an image is in, or makes no claim.
pub open spec fn is_tracked(rt: VulkanRenderTarget, state: State) -> bool {
    rt.layout == state.layout || rt.layout == vk::IMAGE_LAYOUT_UNDEFINED
}

/// The layout of target `i` is tracked in `now`, and if its tracked layout made a claim in
/// `before`, its image has kept its contents.
pub open spec fn stays_tracked(
    before: VulkanRenderTarget,
    now: VulkanRenderTarget,
    first: State,
    last: Option<State>,
) -> bool {
    match last {
        Some(state) => is_tracked(now, state) && (before.layout != vk::IMAGE_LAYOUT_UNDEFINED
            ==> now.layout != vk::IMAGE_LAYOUT_UNDEFINED && state.contents == first.contents),
        None => false,
    }
}

/// After commands that find the image of target `i` in `state`, the layouts are tracked by
/// `now`, which holds the same targets as `before`.
spec fn tracks(
    before: Slots<VulkanRenderTarget>,
    now: Slots<VulkanRenderTarget>,
    base: Map<u64, Seq<i32>>,
    commands: Seq<CommandView>,
    i: int,
    state: State,
) -> bool {
    &&& sole_target(now, i)
    &&& now.at(i).image == before.at(i).image
    &&& stays_tracked(
        before.at(i),
        now.at(i),
        state,
        state_after(commands, rendered(before.at(i)), state),
    )
    &&& is_known(
        base,
        rendered(before.at(i)),
        state_after(commands, rendered(before.at(i)), state)->0,
    )
}

/// Commands that bring the image of a target from its tracked layout to another one.
spec fn moves(commands: Seq<CommandView>, rt: VulkanRenderTarget, new: i32) -> bool {
    if rt.layout == new {
        commands.len() == 0
    } else {
        &&& commands.len() == 1
        &&& commands[0] matches CommandOf::ImageBarrier { src_stages, dst_stages, barrier }
        &&& barrier.image == rt.image
        &&& barrier.old_layout == rt.layout
        &&& barrier.new_layout == new
        &&& covers(rt.image, barrier.subresource_range, rendered(rt))
    }
}

proof fn lemma_move(
    before: Slots<VulkanRenderTarget>,
    now: Slots<VulkanRenderTarget>,
    base: Map<u64, Seq<i32>>,
    commands: Seq<CommandView>,
    i: int,
    state: State,
    j: int,
    added: Seq<CommandView>,
    new: i32,
)
    requires
        tracks(before, now, base, commands, i, state),
        now.occupied(j),
        new != vk::IMAGE_LAYOUT_UNDEFINED,
        moves(added, now.at(j), new),
    ensures
        tracks(
            before,
            now.replace(j, command_list::in_layout(now.at(j), new)),
            base_layouts::noted(base, now.at(j).image, 0, new),
            commands + added,
            i,
            state,
        ),
{
    let next = now.replace(j, command_list::in_layout(now.at(j), new));
    lemma_concat(commands, added, rendered(before.at(i)), state);
    reveal_with_fuel(after_first, 2);
    assert forall|m: int| next.occupied(m) && m != i implies #[trigger] next.at(m).image
        != next.at(i).image by {
        assert(now.occupied(m));
        assert(now.at(m).image != now.at(i).image);
    }
}

proof fn lemma_colors_track(
    targets: Slots<VulkanRenderTarget>,
    base: Map<u64, Seq<i32>>,
    atts: Seq<ColorAttachment>,
    k: int,
    i: int,
    state: State,
)
    requires
        0 <= k <= atts.len(),
        sole_target(targets, i),
        is_tracked(targets.at(i), state),
        is_known(base, rendered(targets.at(i)), state),
    ensures
        tracks(
            targets,
            command_list::pass_colors(targets, atts, k).targets,
            command_list::colored_base(targets, base, atts, k),
            command_list::pass_colors(targets, atts, k).commands,
            i,
            state,
        ),
    decreases k,
{
    if k > 0 {
        let s = command_list::pass_colors(targets, atts, k - 1);
        let att = atts[k - 1];
        lemma_colors_track(targets, base, atts, k - 1, i, state);
        if s.targets.live(att.target) {
            let rt = s.targets.value(att.target);
            lemma_move(
                targets,
                s.targets,
                command_list::colored_base(targets, base, atts, k - 1),
                s.commands,
                i,
                state,
                att.target.slot() as int,
                command_list::color_transition(rt.image, rt.layout),
                vk::IMAGE_LAYOUT_COLOR_ATTACHMENT_OPTIMAL,
            );
        }
    }
}

/// Beginning a pass is recorded in matching layouts, and the layouts that the device tracks stay
/// true: if the layout of a target was tracked before, its image is afterwards in the layout
/// that is tracked then, as is the layout of the base level of its texture. An image whose layout
/// the device knew keeps its contents. The target stays the only one of its image.
pub proof fn pass_tracks_layouts(
    targets: Slots<VulkanRenderTarget>,
    base: Map<u64, Seq<i32>>,
    atts: Seq<ColorAttachment>,
    k: int,
    depth: Option<DepthAttachment>,
    i: int,
    state: State,
)
    requires
        0 <= k <= atts.len(),
        sole_target(targets, i),
        is_tracked(targets.at(i), state),
        is_known(base, rendered(targets.at(i)), state),
    ensures
        ({
            let s = command_list::add_depth(command_list::pass_colors(targets, atts, k), depth);
            let end = state_after(s.commands, rendered(targets.at(i)), state);
            &&& stays_tracked(targets.at(i), s.targets.at(i), state, end)
            &&& is_known(
                command_list::pass_base(targets, base, atts, k, depth),
                rendered(targets.at(i)),
                end->0,
            )
            &&& sole_target(s.targets, i)
            &&& s.targets.at(i).image == targets.at(i).image
        }),
{
    let s = command_list::pass_colors(targets, atts, k);
    lemma_colors_track(targets, base, atts, k, i, state);
    if let Some(d) = depth {
        if s.targets.live(d.target) {
            let rt = s.targets.value(d.target);
            lemma_move(
                targets,
                s.targets,
                command_list::colored_base(targets, base, atts, k),
                s.commands,
                i,
                state,
                d.target.slot() as int,
                command_list::depth_transition(rt.image, rt.layout),
                vk::IMAGE_LAYOUT_DEPTH_ATTACHMENT_OPTIMAL,
            );
        }
    }
}

/// A pass begins with its color attachments in the layout that it names: the image of each live
/// one is a color attachment, unless the pass uses the same target for depth.
pub proof fn color_attachments_are_in_layout(
    targets: Slots<VulkanRenderTarget>,
    atts: Seq<ColorAttachment>,
    k: int,
    depth: Option<DepthAttachment>,
    i: int,
    state: State,
)
    requires
        0 <= i < k <= atts.len(),
        targets.live(atts[i].target),
        sole_target(targets, atts[i].target.slot() as int),
        is_tracked(targets.value(atts[i].target), state),
        depth is Some ==> depth->0.target.slot() != atts[i].target.slot(),
    ensures
        ({
            let s = command_list::add_depth(command_list::pass_colors(targets, atts, k), depth);
            let last = state_after(s.commands, rendered(targets.value(atts[i].target)), state);
            last is Some && last->0.layout == vk::IMAGE_LAYOUT_COLOR_ATTACHMENT_OPTIMAL
        }),
{
    let h = atts[i].target;
    command_list::color_targets_are_attachments(targets, atts, k, i, h);
    pass_tracks_layouts(targets, Map::empty(), atts, k, depth, h.slot() as int, state);
}

proof fn lemma_sampling_tracks(
    targets: Slots<VulkanRenderTarget>,
    base: Map<u64, Seq<i32>>,
    sampled: Seq<TargetHandle>,
    k: int,
    i: int,
    state: State,
)
    requires
        0 <= k <= sampled.len(),
        sole_target(targets, i),
        is_tracked(targets.at(i), state),
        is_known(base, rendered(targets.at(i)), state),
    ensures
        tracks(
            targets,
            command_list::sampled_after(targets, sampled, k).0,
            command_list::sampled_base(targets, base, sampled, k),
            command_list::sampled_after(targets, sampled, k).1,
            i,
            state,
        ),
    decreases k,
{
    if k > 0 {
        let (prev, commands) = command_list::sampled_after(targets, sampled, k - 1);
        let h = sampled[k - 1];
        lemma_sampling_tracks(targets, base, sampled, k - 1, i, state);
        if prev.live(h) {
            let rt = prev.value(h);
            lemma_move(
                targets,
                prev,
                command_list::sampled_base(targets, base, sampled, k - 1),
                commands,
                i,
                state,
                h.slot() as int,
                command_list::sample_transition(rt.image, rt.layout),
                vk::IMAGE_LAYOUT_SHADER_READ_ONLY_OPTIMAL,
            );
        }
    }
}

/// Ending a pass is recorded in matching layouts, the layouts that the device tracks stay true, of
/// the target and of the base level of its texture, and an image whose layout the device knew
/// keeps its contents. The target stays the only one of its image.
pub proof fn sampling_tracks_layouts(
    targets: Slots<VulkanRenderTarget>,
    base: Map<u64, Seq<i32>>,
    sampled: Seq<TargetHandle>,
    k: int,
    i: int,
    state: State,
)
    requires
        0 <= k <= sampled.len(),
        sole_target(targets, i),
        is_tracked(targets.at(i), state),
        is_known(base, rendered(targets.at(i)), state),
    ensures
        ({
            let (now, commands) = command_list::sampled_after(targets, sampled, k);
            let end = state_after(commands, rendered(targets.at(i)), state);
            &&& stays_tracked(targets.at(i), now.at(i), state, end)
            &&& is_known(
                command_list::sampled_base(targets, base, sampled, k),
                rendered(targets.at(i)),
                end->0,
            )
            &&& sole_target(now, i)
            &&& now.at(i).image == targets.at(i).image
        }),
{
    lemma_sampling_tracks(targets, base, sampled, k, i, state);
}

/// Over a whole pass, from its beginning to its end, the commands are recorded in matching layouts,
/// the layouts that the device tracks stay true, and an image whose layout the device knew keeps
/// its contents, so that the next pass can follow.
pub proof fn whole_pass_tracks_layouts(
    targets: Slots<VulkanRenderTarget>,
    base: Map<u64, Seq<i32>>,
    atts: Seq<ColorAttachment>,
    k: int,
    depth: Option<DepthAttachment>,
    i: int,
    state: State,
)
    requires
        0 <= k <= atts.len(),
        sole_target(targets, i),
        is_tracked(targets.at(i), state),
        is_known(base, rendered(targets.at(i)), state),
    ensures
        ({
            let s = command_list::add_depth(command_list::pass_colors(targets, atts, k), depth);
            let n = s.sampled.len() as int;
            let begun = command_list::pass_base(targets, base, atts, k, depth);
            let (now, barriers) = command_list::sampled_after(s.targets, s.sampled, n);
            let commands = s.commands + (seq![CommandOf::EndRendering] + barriers);
            let end = state_after(commands, rendered(targets.at(i)), state);
            &&& stays_tracked(targets.at(i), now.at(i), state, end)
            &&& is_known(
                command_list::sampled_base(s.targets, begun, s.sampled, n),
                rendered(targets.at(i)),
                end->0,
            )
            &&& sole_target(now, i)
            &&& now.at(i).image == targets.at(i).image
        }),
{
    let s = command_list::add_depth(command_list::pass_colors(targets, atts, k), depth);
    let n = s.sampled.len() as int;
    let begun = command_list::pass_base(targets, base, atts, k, depth);
    let barriers = command_list::sampled_after(s.targets, s.sampled, n).1;
    let place = rendered(targets.at(i));
    let end = seq![CommandOf::EndRendering];
    pass_tracks_layouts(targets, base, atts, k, depth, i, state);
    let middle = state_after(s.commands, place, state)->0;
    sampling_tracks_layouts(s.targets, begun, s.sampled, n, i, middle);
    lemma_concat(s.commands, end + barriers, place, state);
    lemma_concat(end, barriers, place, middle);
    reveal_with_fuel(after_first, 2);
}

/// A presented image is presentable: from the tracked layout, the commands that make a target
/// presentable bring its image to the layout of presentation, with its contents if the device
/// knew its layout.
pub proof fn presented_image_is_presentable(v: DeviceView, h: TargetHandle, state: State)
    requires
        v.render_targets.live(h),
        is_tracked(v.render_targets.value(h), state),
        is_known(v.base_layouts, rendered(v.render_targets.value(h)), state),
    ensures
        ({
            let last = state_after(
                surface::present_commands(v, h),
                rendered(v.render_targets.value(h)),
                state,
            );
            &&& last is Some
            &&& last->0.layout == vk::IMAGE_LAYOUT_PRESENT_SRC_KHR
            &&& is_known(
                surface::made_presentable(v, h).base_layouts,
                rendered(v.render_targets.value(h)),
                last->0,
            )
            &&& v.render_targets.value(h).layout != vk::IMAGE_LAYOUT_UNDEFINED
                ==> last->0.contents == state.contents
        }),
        surface::made_presentable(v, h).render_targets.value(h).layout
            == vk::IMAGE_LAYOUT_PRESENT_SRC_KHR,
{
    reveal_with_fuel(after_first, 2);
}

// ── Waits ──────────────────────────────────────────────────────────────────────

/// Stage that uses an image in a layout, and how it accesses it. Nothing uses an image in the
/// undefined layout.
pub open spec fn use_in(layout: i32) -> (u32, u32) {
    if layout == vk::IMAGE_LAYOUT_TRANSFER_SRC_OPTIMAL {
        (vk::PIPELINE_STAGE_TRANSFER, vk::ACCESS_TRANSFER_READ)
    } else if layout == vk::IMAGE_LAYOUT_TRANSFER_DST_OPTIMAL {
        (vk::PIPELINE_STAGE_TRANSFER, vk::ACCESS_TRANSFER_WRITE)
    } else if layout == vk::IMAGE_LAYOUT_SHADER_READ_ONLY_OPTIMAL {
        (vk::PIPELINE_STAGE_FRAGMENT_SHADER, vk::ACCESS_SHADER_READ)
    } else if layout == vk::IMAGE_LAYOUT_COLOR_ATTACHMENT_OPTIMAL {
        (vk::PIPELINE_STAGE_COLOR_ATTACHMENT_OUTPUT, vk::ACCESS_COLOR_ATTACHMENT_WRITE)
    } else {
        (vk::PIPELINE_STAGE_TOP_OF_PIPE, 0)
    }
}

/// A transition of the colors of an image makes its last use visible to its next.
pub open spec fn hands_over(b: vk::ImageBarrier) -> bool {
    &&& b.src_access_mask == use_in(b.old_layout).1
    &&& b.dst_access_mask == use_in(b.new_layout).1
    &&& b.subresource_range.aspect_mask == vk::IMAGE_ASPECT_COLOR
}

/// A command waits for the last use of each image that it transitions, and holds back the next.
/// No wait is needed for an image in the undefined layout.
pub open spec fn waits_as_needed(c: CommandView) -> bool {
    match c {
        CommandOf::ImageBarrier { src_stages, dst_stages, barrier } => {
            &&& src_stages == use_in(barrier.old_layout).0
            &&& dst_stages == use_in(barrier.new_layout).0
            &&& hands_over(barrier)
        },
        CommandOf::ImageBarrierPair { src_stages, dst_stages, first, second } => {
            &&& src_stages == use_in(first.old_layout).0
            &&& dst_stages == use_in(first.new_layout).0
            &&& second.old_layout == vk::IMAGE_LAYOUT_UNDEFINED || src_stages == use_in(
                second.old_layout,
            ).0
            &&& dst_stages == use_in(second.new_layout).0
            &&& hands_over(first)
            &&& hands_over(second)
        },
        _ => true,
    }
}

/// Every command of an upload, of a readback, of the scaling of a level and of the filling of a
/// placeholder waits as needed.
pub proof fn transfers_wait_as_needed(
    t: VulkanTexture,
    level: u32,
    layer: u32,
    buffer: u64,
    image: u64,
    i: int,
)
    requires
        0 <= i < 3,
    ensures
        waits_as_needed(textures::upload_commands(t, level, layer, buffer)[i]),
        waits_as_needed(textures::readback_commands(t, buffer)[i]),
        waits_as_needed(textures::level_commands(t, level)[i]),
        waits_as_needed(textures::last_level_command(t)),
        waits_as_needed(swapchain_textured::placeholder_commands(image)[i]),
{
    reveal(textures::level_commands);
}

/// The base level of a mip chain waits for the last use of each of its layers, whether that was
/// uploaded, rendered to, or never used.
pub proof fn base_waits_as_needed(t: VulkanTexture, layer: u32, layout: i32)
    requires
        layout == vk::IMAGE_LAYOUT_UNDEFINED || layout == vk::IMAGE_LAYOUT_SHADER_READ_ONLY_OPTIMAL
            || layout == vk::IMAGE_LAYOUT_COLOR_ATTACHMENT_OPTIMAL,
    ensures
        waits_as_needed(textures::base_command(t, layer, layout)),
{
}

} // verus!
