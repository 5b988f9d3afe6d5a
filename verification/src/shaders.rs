use vstd::prelude::*;

verus! {

/// WGSL source of the text overlay pass: glyph quads anchored at projected
/// world points, filled from a single-channel atlas with hard thresholds.
pub const TEXT_OVERLAY_SHADER_WGSL: &'static str = r#"
struct Camera {
    clip_from_world : mat4x4<f32>,
    viewport_and_profile : vec4<f32>,
    view_from_world : mat4x4<f32>,
    clip_plane : vec4<f32>,
    clip_params : vec4<f32>,
};

@group(0) @binding(0)
var<uniform> camera : Camera;

@group(1) @binding(0)
var text_atlas : texture_2d<f32>;

@group(1) @binding(1)
var text_sampler : sampler;

struct GlyphInstance {
    anchor_world_depth : vec4<f32>,
    rect_px : vec4<f32>,
    uv_rect : vec4<f32>,
    color : vec4<f32>,
    outline_color : vec4<f32>,
    sdf_params : vec4<f32>,
};

struct VertexOutput {
    @builtin(position) position : vec4<f32>,
    @location(0) uv : vec2<f32>,
    @location(1) color : vec4<f32>,
    @location(2) outline_color : vec4<f32>,
    @location(3) sdf_params : vec4<f32>,
    @location(4) uv_rect : vec4<f32>,
};

@vertex
fn vs_main(
    @builtin(vertex_index) vertex_index : u32,
    @location(0) anchor_world_depth : vec4<f32>,
    @location(1) rect_px : vec4<f32>,
    @location(2) uv_rect : vec4<f32>,
    @location(3) color : vec4<f32>,
    @location(4) outline_color : vec4<f32>,
    @location(5) sdf_params : vec4<f32>,
) -> VertexOutput {
    let corners = array<vec2<f32>, 6>(
        vec2<f32>(0.0, 0.0),
        vec2<f32>(1.0, 0.0),
        vec2<f32>(0.0, 1.0),
        vec2<f32>(0.0, 1.0),
        vec2<f32>(1.0, 0.0),
        vec2<f32>(1.0, 1.0),
    );
    let corner = corners[vertex_index];

    let anchor_clip = camera.clip_from_world * vec4<f32>(anchor_world_depth.xyz, 1.0);
    let viewport = max(camera.viewport_and_profile.xy, vec2<f32>(1.0, 1.0));
    let anchor_ndc = anchor_clip.xy / anchor_clip.w;
    let anchor_px = (anchor_ndc * vec2<f32>(0.5, -0.5) + vec2<f32>(0.5, 0.5)) * viewport;
    let glyph_min_px = round(anchor_px + rect_px.xy);
    let glyph_max_px = round(anchor_px + rect_px.xy + rect_px.zw);
    let glyph_px = mix(glyph_min_px, glyph_max_px, corner);
    let glyph_ndc = (glyph_px / viewport - vec2<f32>(0.5, 0.5)) * vec2<f32>(2.0, -2.0);

    var out : VertexOutput;
    out.position = vec4<f32>(glyph_ndc * anchor_clip.w, anchor_clip.z, anchor_clip.w);
    out.uv = uv_rect.xy + corner * uv_rect.zw;
    out.color = color;
    out.outline_color = outline_color;
    out.sdf_params = sdf_params;
    out.uv_rect = uv_rect;
    return out;
}

fn atlas_alpha(input : VertexOutput, pixel_offset : vec2<i32>) -> f32 {
    let dims = vec2<i32>(textureDimensions(text_atlas));
    let texel_size = 1.0 / vec2<f32>(max(dims, vec2<i32>(1, 1)));
    let sample_uv = input.uv + vec2<f32>(pixel_offset) * texel_size;
    let uv_min = input.uv_rect.xy;
    let uv_max = input.uv_rect.xy + input.uv_rect.zw;
    if (sample_uv.x < uv_min.x || sample_uv.y < uv_min.y || sample_uv.x >= uv_max.x || sample_uv.y >= uv_max.y) {
        return 0.0;
    }
    let sample_texel = clamp(
        vec2<i32>(floor(sample_uv * vec2<f32>(dims))),
        vec2<i32>(0, 0),
        dims - vec2<i32>(1, 1),
    );
    return textureLoad(text_atlas, sample_texel, 0).r;
}

@fragment
fn fs_main(input : VertexOutput) -> @location(0) vec4<f32> {
    let fill_threshold = clamp(0.5 - max(input.sdf_params.w, 0.0) * 0.25, 0.05, 0.95);
    let center_alpha = atlas_alpha(input, vec2<i32>(0, 0));
    let fill_alpha = select(0.0, 1.0, center_alpha >= fill_threshold);
    let outline_radius = min(max(input.sdf_params.y, 0.0), 4.0);
    var outline_alpha = fill_alpha;
    for (var y = -4; y <= 4; y = y + 1) {
        for (var x = -4; x <= 4; x = x + 1) {
            let offset = vec2<i32>(x, y);
            let distance_px = length(vec2<f32>(offset));
            if (distance_px <= outline_radius && atlas_alpha(input, offset) >= fill_threshold) {
                outline_alpha = 1.0;
            }
        }
    }
    let outline_only_alpha = max(outline_alpha - fill_alpha, 0.0);
    let rgb = mix(input.outline_color.rgb, input.color.rgb, fill_alpha);
    let alpha = input.color.a * fill_alpha + input.outline_color.a * outline_only_alpha;
    if (alpha <= input.sdf_params.z) {
        discard;
    }
    return vec4<f32>(rgb, alpha);
}
"#;

/// Vertices drawn per glyph instance: two triangles.
pub const TEXT_GLYPH_VERTICES_PER_INSTANCE: u32 = 6;

/// Atlas texel value of an empty atlas.
pub const EMPTY_ATLAS_TEXEL: u8 = 0;

} // verus!
