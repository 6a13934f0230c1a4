//! Copies of scenes: a copy has the model of what it was made from.
use crate::scalar::Scalar;
use crate::scene::{DrawCommand, OverlayFrame, PaintDesc, SceneFont, SceneFrame};
use vstd::prelude::*;

verus! {

/// A copy of a list of plain values.
pub fn copy_vec<T: Copy>(v: &Vec<T>) -> (r: Vec<T>)
    ensures
        r@ == v@,
{
    let mut r: Vec<T> = Vec::new();
    let mut i: usize = 0;
    while i < v.len()
        invariant
            i <= v.len(),
            r@ == v@.take(i as int),
        decreases v.len() - i,
    {
        r.push(v[i]);
        proof {
            assert(v@.take(i + 1) =~= v@.take(i as int).push(v@[i as int]));
        }
        i = i + 1;
    }
    proof {
        assert(v@.take(i as int) =~= v@);
    }
    r
}

impl Clone for PaintDesc {
    fn clone(&self) -> (r: PaintDesc)
        ensures
            r@ == self@,
    {
        match self {
            PaintDesc::Solid { r, g, b, a } => PaintDesc::Solid { r: *r, g: *g, b: *b, a: *a },
            PaintDesc::LinearGradient { start_x, start_y, end_x, end_y, stops } => {
                PaintDesc::LinearGradient {
                    start_x: *start_x,
                    start_y: *start_y,
                    end_x: *end_x,
                    end_y: *end_y,
                    stops: copy_vec(stops),
                }
            },
            PaintDesc::RadialGradient { cx, cy, radius, stops } => {
                PaintDesc::RadialGradient {
                    cx: *cx,
                    cy: *cy,
                    radius: *radius,
                    stops: copy_vec(stops),
                }
            },
            PaintDesc::ImagePaint {
                texture_key,
                x,
                y,
                w,
                h,
                tex_x,
                tex_y,
                tex_w,
                tex_h,
                flags,
            } => {
                PaintDesc::ImagePaint {
                    texture_key: *texture_key,
                    x: *x,
                    y: *y,
                    w: *w,
                    h: *h,
                    tex_x: *tex_x,
                    tex_y: *tex_y,
                    tex_w: *tex_w,
                    tex_h: *tex_h,
                    flags: *flags,
                }
            },
        }
    }
}

impl Clone for SceneFont {
    fn clone(&self) -> (r: SceneFont)
        ensures
            r@ == self@,
    {
        SceneFont {
            blob_id: self.blob_id,
            font_index: self.font_index,
            data: copy_vec(&self.data),
        }
    }
}

/// A copy of a list of fonts.
pub fn copy_fonts(fonts: &Vec<SceneFont>) -> (r: Vec<SceneFont>)
    ensures
        crate::scene::font_models(r@) == crate::scene::font_models(fonts@),
{
    let mut r: Vec<SceneFont> = Vec::new();
    let mut i: usize = 0;
    while i < fonts.len()
        invariant
            i <= fonts.len(),
            r.len() == i,
            forall|j: int| 0 <= j < i ==> (#[trigger] r@[j])@ == fonts@[j]@,
        decreases fonts.len() - i,
    {
        r.push(fonts[i].clone());
        i = i + 1;
    }
    proof {
        assert(crate::scene::font_models(r@) =~= crate::scene::font_models(fonts@));
    }
    r
}

/// A copy of a list of commands.
pub fn copy_commands(commands: &Vec<DrawCommand>) -> (r: Vec<DrawCommand>)
    ensures
        r.len() == commands.len(),
        forall|j: int| 0 <= j < r.len() ==> (#[trigger] r@[j])@ == commands@[j]@,
        crate::scene::command_models(r@) == crate::scene::command_models(commands@),
    decreases commands@,
{
    let mut r: Vec<DrawCommand> = Vec::new();
    let mut i: usize = 0;
    while i < commands.len()
        invariant
            i <= commands.len(),
            r.len() == i,
            forall|j: int| 0 <= j < i ==> (#[trigger] r@[j])@ == commands@[j]@,
        decreases commands.len() - i,
    {
        let c: DrawCommand = copy_command(&commands[i]);
        r.push(c);
        i = i + 1;
    }
    proof {
        assert(crate::scene::command_models(r@) =~= crate::scene::command_models(commands@));
    }
    r
}

/// A copy of a command, its nested commands included.
pub fn copy_command(command: &DrawCommand) -> (r: DrawCommand)
    ensures
        r@ == command@,
    decreases command,
{
    match command {
        DrawCommand::Save => DrawCommand::Save,
        DrawCommand::Restore => DrawCommand::Restore,
        DrawCommand::Translate(x, y) => DrawCommand::Translate(*x, *y),
        DrawCommand::Rotate(a) => DrawCommand::Rotate(*a),
        DrawCommand::Scale(x, y) => DrawCommand::Scale(*x, *y),
        DrawCommand::SetGlobalAlpha(a) => DrawCommand::SetGlobalAlpha(*a),
        DrawCommand::CombineClip(rect) => DrawCommand::CombineClip(*rect),
        DrawCommand::FillRect { rect, paint, anti_alias } => {
            DrawCommand::FillRect { rect: *rect, paint: paint.clone(), anti_alias: *anti_alias }
        },
        DrawCommand::FillRoundedRect { rect, paint, radius, anti_alias } => {
            DrawCommand::FillRoundedRect {
                rect: *rect,
                paint: paint.clone(),
                radius: *radius,
                anti_alias: *anti_alias,
            }
        },
        DrawCommand::StrokeRoundedRect { rect, paint, radius, line_width, anti_alias } => {
            DrawCommand::StrokeRoundedRect {
                rect: *rect,
                paint: paint.clone(),
                radius: *radius,
                line_width: *line_width,
                anti_alias: *anti_alias,
            }
        },
        DrawCommand::StrokePath {
            path,
            paint,
            line_width,
            line_cap,
            line_join,
            miter_limit,
            anti_alias,
        } => {
            DrawCommand::StrokePath {
                path: copy_vec(path),
                paint: paint.clone(),
                line_width: *line_width,
                line_cap: *line_cap,
                line_join: *line_join,
                miter_limit: *miter_limit,
                anti_alias: *anti_alias,
            }
        },
        DrawCommand::FillPath { path, paint, fill_rule, anti_alias } => {
            DrawCommand::FillPath {
                path: copy_vec(path),
                paint: paint.clone(),
                fill_rule: *fill_rule,
                anti_alias: *anti_alias,
            }
        },
        DrawCommand::DrawGlyphRun {
            font_blob_id,
            font_index,
            font_size,
            normalized_coords,
            paint,
            y_offset,
            glyphs,
            is_stroke,
        } => {
            DrawCommand::DrawGlyphRun {
                font_blob_id: *font_blob_id,
                font_index: *font_index,
                font_size: *font_size,
                normalized_coords: copy_vec(normalized_coords),
                paint: paint.clone(),
                y_offset: *y_offset,
                glyphs: copy_vec(glyphs),
                is_stroke: *is_stroke,
            }
        },
        DrawCommand::FillTextRect { rect, paint, radius, border } => {
            let border: Option<(PaintDesc, Scalar)> = match border {
                Some(b) => Some((b.0.clone(), b.1)),
                None => None,
            };
            DrawCommand::FillTextRect {
                rect: *rect,
                paint: paint.clone(),
                radius: *radius,
                border,
            }
        },
        DrawCommand::DrawText { x, y, text, font_size, paint, max_width } => {
            DrawCommand::DrawText {
                x: *x,
                y: *y,
                text: text.clone(),
                font_size: *font_size,
                paint: paint.clone(),
                max_width: *max_width,
            }
        },
        DrawCommand::UploadPixmap { key, pixels, width, height } => {
            DrawCommand::UploadPixmap {
                key: *key,
                pixels: copy_vec(pixels),
                width: *width,
                height: *height,
            }
        },
        DrawCommand::BlitPixmap { key, params } => {
            DrawCommand::BlitPixmap { key: *key, params: *params }
        },
        DrawCommand::Layer { width, height, origin, alpha_tint, commands } => {
            let copied: Vec<DrawCommand> = copy_commands(commands);
            let r: DrawCommand = DrawCommand::Layer {
                width: *width,
                height: *height,
                origin: *origin,
                alpha_tint: *alpha_tint,
                commands: copied,
            };
            proof {
                assert(r@->Layer_commands =~= command@->Layer_commands);
            }
            r
        },
        DrawCommand::DrawBoxShadow { color, blur, offset_x, offset_y, width, height, radius } => {
            DrawCommand::DrawBoxShadow {
                color: *color,
                blur: *blur,
                offset_x: *offset_x,
                offset_y: *offset_y,
                width: *width,
                height: *height,
                radius: *radius,
            }
        },
        DrawCommand::CachedPixmap { key, width, height, pixels } => {
            DrawCommand::CachedPixmap {
                key: *key,
                width: *width,
                height: *height,
                pixels: copy_vec(pixels),
            }
        },
    }
}

impl Clone for DrawCommand {
    fn clone(&self) -> (r: DrawCommand)
        ensures
            r@ == self@,
    {
        copy_command(self)
    }
}

impl Clone for SceneFrame {
    fn clone(&self) -> (r: SceneFrame)
        ensures
            r@ == self@,
    {
        SceneFrame {
            width: self.width,
            height: self.height,
            scale_factor: self.scale_factor,
            background: self.background,
            fonts: copy_fonts(&self.fonts),
            commands: copy_commands(&self.commands),
            controls: copy_vec(&self.controls),
        }
    }
}

impl Clone for OverlayFrame {
    fn clone(&self) -> (r: OverlayFrame)
        ensures
            r@ == self@,
    {
        OverlayFrame { fonts: copy_fonts(&self.fonts), commands: copy_commands(&self.commands) }
    }
}

} // verus!
