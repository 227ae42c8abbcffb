//! What recorded commands draw, command by command.
use vstd::prelude::*;

use crate::command::{ClearValue, CommandOf, CommandView};
use crate::vk;
use crate::vk::Extent2D;

verus! {

/// Render pass that has begun.
#[derive(Clone, Copy, PartialEq, Eq, Structural, Debug)]
pub struct Pass {
    pub render_pass: u64,
    pub framebuffer: u64,
    pub area: Extent2D,
    pub clear: ClearValue,
}

/// One draw, with all that is bound and set when it is recorded.
pub struct Drawing {
    pub pass: Option<Pass>,
    pub pipeline: Option<u64>,
    pub set: Option<u64>,
    pub set_layout: Option<u64>,
    pub viewport: Option<Extent2D>,
    /// Width and height that the vertex shader sees.
    pub vertex_extent: Option<Extent2D>,
    pub extent_layout: Option<u64>,
    /// Constants that the fragment shader sees.
    pub fragment_constants: Option<Seq<u8>>,
    pub constants_layout: Option<u64>,
    /// Buffer of the first vertex stream.
    pub stream: Option<u64>,
    pub vertices: (u32, u32),
    pub instances: (u32, u32),
}

/// What has been drawn so far, and what is bound and set.
pub struct Canvas {
    pub bound: Drawing,
    /// Passes that have begun, each of which clears its area.
    pub passes: Seq<Pass>,
    /// Passes that have ended.
    pub ended: nat,
    pub drawn: Seq<Drawing>,
}

/// Canvas on which nothing is bound or drawn.
pub open spec fn blank() -> Canvas {
    Canvas {
        bound: Drawing {
            pass: None,
            pipeline: None,
            set: None,
            set_layout: None,
            viewport: None,
            vertex_extent: None,
            extent_layout: None,
            fragment_constants: None,
            constants_layout: None,
            stream: None,
            vertices: (0, 0),
            instances: (0, 0),
        },
        passes: Seq::empty(),
        ended: 0,
        drawn: Seq::empty(),
    }
}

/// Canvas after one more command. Only what is bound for graphics counts.
pub open spec fn paint(c: Canvas, command: CommandView) -> Canvas {
    match command {
        CommandOf::BeginRenderPass { render_pass, framebuffer, area, clear } => {
            let pass = Pass { render_pass, framebuffer, area, clear };
            Canvas {
                bound: Drawing { pass: Some(pass), ..c.bound },
                passes: c.passes.push(pass),
                ..c
            }
        },
        CommandOf::EndRenderPass => Canvas {
            bound: Drawing { pass: None, ..c.bound },
            ended: c.ended + 1,
            ..c
        },
        CommandOf::BindPipeline { bind_point, pipeline } => if bind_point
            == vk::PIPELINE_BIND_POINT_GRAPHICS {
            Canvas { bound: Drawing { pipeline: Some(pipeline), ..c.bound }, ..c }
        } else {
            c
        },
        CommandOf::BindDescriptorSet { bind_point, layout, set } => if bind_point
            == vk::PIPELINE_BIND_POINT_GRAPHICS {
            Canvas {
                bound: Drawing { set: Some(set), set_layout: Some(layout), ..c.bound },
                ..c
            }
        } else {
            c
        },
        CommandOf::SetViewport { area } => Canvas {
            bound: Drawing { viewport: Some(area), ..c.bound },
            ..c
        },
        CommandOf::PushExtent { layout, stages, extent } => if stages == vk::SHADER_STAGE_VERTEX {
            Canvas {
                bound: Drawing {
                    vertex_extent: Some(extent),
                    extent_layout: Some(layout),
                    ..c.bound
                },
                ..c
            }
        } else {
            c
        },
        CommandOf::PushConstants { layout, stages, bytes } => if stages
            == vk::SHADER_STAGE_FRAGMENT {
            Canvas {
                bound: Drawing {
                    fragment_constants: Some(bytes),
                    constants_layout: Some(layout),
                    ..c.bound
                },
                ..c
            }
        } else {
            c
        },
        CommandOf::BindVertexBuffer { slot, buffer } => if slot == 0 {
            Canvas { bound: Drawing { stream: Some(buffer), ..c.bound }, ..c }
        } else {
            c
        },
        CommandOf::Draw { vertex_count, instance_count, first_vertex, first_instance } => Canvas {
            drawn: c.drawn.push(
                Drawing {
                    vertices: (first_vertex, vertex_count),
                    instances: (first_instance, instance_count),
                    ..c.bound
                },
            ),
            ..c
        },
        _ => c,
    }
}

/// Canvas after the first `k` commands.
pub open spec fn painted_up_to(commands: Seq<CommandView>, k: int) -> Canvas
    decreases k,
{
    if k <= 0 {
        blank()
    } else {
        paint(painted_up_to(commands, k - 1), commands[k - 1])
    }
}

/// Canvas after all of the commands.
pub open spec fn painted(commands: Seq<CommandView>) -> Canvas {
    painted_up_to(commands, commands.len() as int)
}

/// Where a vertex at `p` pixels lands in the image: the vertex shader divides by the extent that
/// it sees, and the viewport multiplies by its own.
pub open spec fn lands_at(p: int, seen: u32, viewport: u32) -> int {
    (p * viewport) / (seen as int)
}

/// Where the extent that the vertex shader sees is the viewport's, every pixel lands on itself.
pub proof fn pixels_land_on_themselves(p: int, extent: u32)
    requires
        extent > 0,
    ensures
        lands_at(p, extent, extent) == p,
{
    let e = extent as int;
    vstd::arithmetic::div_mod::lemma_div_multiples_vanish(p, e);
    assert(e * p == p * e) by (nonlinear_arith);
}

} // verus!
