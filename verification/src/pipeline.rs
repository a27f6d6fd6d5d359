//! The fixed-function state of a raster pipeline, derived from its description.
use vstd::prelude::*;

verus! {

/// The attachment formats (raw `VkFormat`) a pipeline renders to.
pub struct FramebufferDesc {
    pub color_attachments: Vec<i32>,
    pub depth_attachment: Option<i32>,
    pub stencil_attachment: Option<i32>,
}

#[derive(PartialEq, Eq, Structural, Clone, Copy, Debug, Hash)]
pub struct VertexAttribute {
    pub shader_location: u32,
    /// Raw `VkFormat`.
    pub format: i32,
    pub offset: u32,
}

#[derive(PartialEq, Eq, Clone, Debug, Hash)]
pub struct VertexBufferLayout {
    pub stride: u32,
    /// Raw `VkVertexInputRate`.
    pub input_rate: i32,
    pub attributes: Vec<VertexAttribute>,
}

#[derive(PartialEq, Eq, Clone, Debug, Hash)]
pub struct VertexState {
    /// SPIR-V words of the vertex shader.
    pub shader_code: Vec<u32>,
    pub layouts: Vec<VertexBufferLayout>,
}

pub struct RasterPipelineDescription {
    pub vertex: VertexState,
    pub framebuffer: FramebufferDesc,
    pub fragment_shader: Option<Vec<u32>>,
}

/// `VkVertexInputBindingDescription`
#[derive(PartialEq, Eq, Structural, Clone, Copy, Debug)]
pub struct VertexInputBinding {
    pub binding: u32,
    pub stride: u32,
    pub input_rate: i32,
}

/// `VkVertexInputAttributeDescription`
#[derive(PartialEq, Eq, Structural, Clone, Copy, Debug)]
pub struct VertexInputAttribute {
    pub binding: u32,
    pub location: u32,
    pub format: i32,
    pub offset: u32,
}

/// The binding of the `i`-th vertex buffer.
pub open spec fn binding_of(i: int, layout: VertexBufferLayout) -> VertexInputBinding {
    VertexInputBinding { binding: i as u32, stride: layout.stride, input_rate: layout.input_rate }
}

/// The attributes of the `i`-th vertex buffer, bound to binding `i`.
pub open spec fn attributes_of(i: int, layout: VertexBufferLayout) -> Seq<VertexInputAttribute> {
    layout.attributes@.map_values(
        |a: VertexAttribute| VertexInputAttribute { binding: i as u32, location: a.shader_location, format: a.format, offset: a.offset },
    )
}

/// The attributes of the first `n` vertex buffers, buffer by buffer.
pub open spec fn attributes_upto(layouts: Seq<VertexBufferLayout>, n: int) -> Seq<VertexInputAttribute>
    decreases n,
{
    if n <= 0 {
        Seq::empty()
    } else {
        attributes_upto(layouts, n - 1) + attributes_of(n - 1, layouts[n - 1])
    }
}

/// One binding per vertex buffer, numbered in order, and the attributes of each buffer
/// bound to it.
pub fn vertex_input_descriptions(layouts: &[VertexBufferLayout]) -> (descriptions: (Vec<VertexInputBinding>, Vec<VertexInputAttribute>))
    requires
        layouts@.len() <= u32::MAX + 1,
    ensures
        descriptions.0@ == Seq::new(layouts@.len(), |i: int| binding_of(i, layouts@[i])),
        descriptions.1@ == attributes_upto(layouts@, layouts@.len() as int),
{
    let mut bindings: Vec<VertexInputBinding> = Vec::new();
    let mut attributes: Vec<VertexInputAttribute> = Vec::new();
    let mut i: usize = 0;
    while i < layouts.len()
        invariant
            i <= layouts@.len() <= u32::MAX + 1,
            bindings@ == Seq::new(i as nat, |k: int| binding_of(k, layouts@[k])),
            attributes@ == attributes_upto(layouts@, i as int),
        decreases layouts@.len() - i,
    {
        let layout = &layouts[i];
        let binding = i as u32;
        bindings.push(VertexInputBinding { binding, stride: layout.stride, input_rate: layout.input_rate });
        let ghost before = attributes@;
        let mut j: usize = 0;
        while j < layout.attributes.len()
            invariant
                i < layouts@.len() <= u32::MAX + 1,
                binding == i as u32,
                *layout == layouts@[i as int],
                j <= layout.attributes@.len(),
                attributes@ == before + attributes_of(i as int, *layout).take(j as int),
            decreases layout.attributes@.len() - j,
        {
            let a = layout.attributes[j];
            attributes.push(VertexInputAttribute { binding, location: a.shader_location, format: a.format, offset: a.offset });
            j = j + 1;
            assert(attributes@ =~= before + attributes_of(i as int, *layout).take(j as int));
        }
        assert(attributes_of(i as int, *layout).take(j as int) =~= attributes_of(i as int, *layout));
        i = i + 1;
        assert(bindings@ =~= Seq::new(i as nat, |k: int| binding_of(k, layouts@[k])));
    }
    (bindings, attributes)
}

/// `VK_COMPARE_OP_NEVER`
pub const COMPARE_OP_NEVER: i32 = 0;
/// `VK_COMPARE_OP_LESS`
pub const COMPARE_OP_LESS: i32 = 1;

/// The depth-stencil state of a pipeline.
#[derive(PartialEq, Eq, Structural, Clone, Copy, Debug)]
pub struct DepthStencilConfig {
    pub depth_test_enable: bool,
    pub depth_write_enable: bool,
    pub depth_compare_op: i32,
    pub stencil_test_enable: bool,
}

/// With a depth attachment, depth is tested and written, nearer fragments passing; the
/// stencil test is never enabled.
pub fn depth_stencil_config(framebuffer: &FramebufferDesc) -> (config: DepthStencilConfig)
    ensures
        config == (if framebuffer.depth_attachment is Some {
            DepthStencilConfig { depth_test_enable: true, depth_write_enable: true, depth_compare_op: COMPARE_OP_LESS, stencil_test_enable: false }
        } else {
            DepthStencilConfig { depth_test_enable: false, depth_write_enable: false, depth_compare_op: COMPARE_OP_NEVER, stencil_test_enable: false }
        }),
{
    match framebuffer.depth_attachment {
        Some(_) => DepthStencilConfig {
            depth_test_enable: true,
            depth_write_enable: true,
            depth_compare_op: COMPARE_OP_LESS,
            stencil_test_enable: false,
        },
        None => DepthStencilConfig {
            depth_test_enable: false,
            depth_write_enable: false,
            depth_compare_op: COMPARE_OP_NEVER,
            stencil_test_enable: false,
        },
    }
}

/// `VK_PRIMITIVE_TOPOLOGY_TRIANGLE_LIST`
pub const PRIMITIVE_TOPOLOGY_TRIANGLE_LIST: i32 = 3;
/// `VK_SHADER_STAGE_VERTEX_BIT`
pub const SHADER_STAGE_VERTEX: u32 = 0x1;
/// `VK_SHADER_STAGE_FRAGMENT_BIT`
pub const SHADER_STAGE_FRAGMENT: u32 = 0x10;
/// `VK_POLYGON_MODE_FILL`
pub const POLYGON_MODE_FILL: i32 = 0;
/// `VK_CULL_MODE_NONE`
pub const CULL_MODE_NONE: u32 = 0;
/// `VK_FRONT_FACE_COUNTER_CLOCKWISE`
pub const FRONT_FACE_COUNTER_CLOCKWISE: i32 = 0;
/// `VK_SAMPLE_COUNT_1_BIT`
pub const SAMPLE_COUNT_1: u32 = 0x1;
/// `VK_COLOR_COMPONENT_R_BIT | G | B | A`
pub const COLOR_COMPONENT_RGBA: u32 = 0xf;
/// `VK_DYNAMIC_STATE_VIEWPORT`
pub const DYNAMIC_STATE_VIEWPORT: i32 = 0;
/// `VK_DYNAMIC_STATE_SCISSOR`
pub const DYNAMIC_STATE_SCISSOR: i32 = 1;

/// The blend state of one color attachment (`VkPipelineColorBlendAttachmentState`).
#[derive(PartialEq, Eq, Structural, Clone, Copy, Debug)]
pub struct ColorBlendAttachment {
    pub color_write_mask: u32,
    pub blend_enable: bool,
}

/// The fixed-function state of a raster pipeline, as raw Vulkan values: primitive
/// assembly, the shader stages, rasterization, multisampling, the blend state of each
/// color attachment and the states set dynamically while recording.
#[derive(PartialEq, Eq, Clone, Debug)]
pub struct RasterFixedState {
    pub topology: i32,
    pub primitive_restart_enable: bool,
    pub shader_stages: Vec<u32>,
    pub polygon_mode: i32,
    pub cull_mode: u32,
    pub front_face: i32,
    pub depth_clamp_enable: bool,
    pub depth_bias_enable: bool,
    pub rasterization_samples: u32,
    pub sample_shading_enable: bool,
    pub logic_op_enable: bool,
    pub color_blend_attachments: Vec<ColorBlendAttachment>,
    pub dynamic_states: Vec<i32>,
}

/// The blend state of every color attachment: all components written, no blending.
pub open spec fn opaque_blend() -> ColorBlendAttachment {
    ColorBlendAttachment { color_write_mask: COLOR_COMPONENT_RGBA, blend_enable: false }
}

/// Triangle lists without primitive restart; a vertex stage, and a fragment stage when the
/// description has a fragment shader; filled polygons, no culling, counter-clockwise
/// front faces, no depth clamp or bias; one sample; one opaque blend state per color
/// attachment, without a logic op; viewport and scissor set dynamically.
pub fn raster_fixed_state(desc: &RasterPipelineDescription) -> (state: RasterFixedState)
    ensures
        state.topology == PRIMITIVE_TOPOLOGY_TRIANGLE_LIST,
        !state.primitive_restart_enable,
        state.shader_stages@ == (if desc.fragment_shader is Some {
            seq![SHADER_STAGE_VERTEX, SHADER_STAGE_FRAGMENT]
        } else {
            seq![SHADER_STAGE_VERTEX]
        }),
        state.polygon_mode == POLYGON_MODE_FILL,
        state.cull_mode == CULL_MODE_NONE,
        state.front_face == FRONT_FACE_COUNTER_CLOCKWISE,
        !state.depth_clamp_enable,
        !state.depth_bias_enable,
        state.rasterization_samples == SAMPLE_COUNT_1,
        !state.sample_shading_enable,
        !state.logic_op_enable,
        state.color_blend_attachments@ == Seq::new(
            desc.framebuffer.color_attachments@.len(),
            |i: int| opaque_blend(),
        ),
        state.dynamic_states@ == seq![DYNAMIC_STATE_VIEWPORT, DYNAMIC_STATE_SCISSOR],
{
    let mut shader_stages: Vec<u32> = Vec::new();
    shader_stages.push(SHADER_STAGE_VERTEX);
    if desc.fragment_shader.is_some() {
        shader_stages.push(SHADER_STAGE_FRAGMENT);
    }
    let mut color_blend_attachments: Vec<ColorBlendAttachment> = Vec::new();
    let mut i: usize = 0;
    while i < desc.framebuffer.color_attachments.len()
        invariant
            i <= desc.framebuffer.color_attachments@.len(),
            color_blend_attachments@ == Seq::new(i as nat, |j: int| opaque_blend()),
        decreases desc.framebuffer.color_attachments@.len() - i,
    {
        color_blend_attachments.push(
            ColorBlendAttachment { color_write_mask: COLOR_COMPONENT_RGBA, blend_enable: false },
        );
        i = i + 1;
    }
    let mut dynamic_states: Vec<i32> = Vec::new();
    dynamic_states.push(DYNAMIC_STATE_VIEWPORT);
    dynamic_states.push(DYNAMIC_STATE_SCISSOR);
    RasterFixedState {
        topology: PRIMITIVE_TOPOLOGY_TRIANGLE_LIST,
        primitive_restart_enable: false,
        shader_stages,
        polygon_mode: POLYGON_MODE_FILL,
        cull_mode: CULL_MODE_NONE,
        front_face: FRONT_FACE_COUNTER_CLOCKWISE,
        depth_clamp_enable: false,
        depth_bias_enable: false,
        rasterization_samples: SAMPLE_COUNT_1,
        sample_shading_enable: false,
        logic_op_enable: false,
        color_blend_attachments,
        dynamic_states,
    }
}

} // verus!
