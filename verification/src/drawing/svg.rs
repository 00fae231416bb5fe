//! Vector fragments: markers given as SVG markup and labels that are turned
//! into markup.

use vstd::prelude::*;
use crate::drawing::canvas::Canvas;
use crate::drawing::canvas::CommandView;
use crate::drawing::Context;
use crate::drawing::Drawable;
use crate::drawing::style::ColorOptions;
use crate::drawing::style::Length;
use crate::error::SnaprError;
use crate::numeric::clamp_i32;
use crate::projection::PixelCoord;

verus! {

/// A fragment of SVG markup and the pixel on which it is centred.
#[derive(Debug, PartialEq, Eq)]
pub struct SpatialSvg {
    pub pixel: PixelCoord,
    pub markup: String,
}

/// An SVG marker: its markup and how far it is moved from the pixel it
/// marks.
#[derive(Debug, PartialEq, Eq)]
pub struct SvgOptions {
    pub offset: (i32, i32),
    pub svg: String,
}

/// A text label: what it says, how it looks and how far it is moved from the
/// pixel it labels.
#[derive(Debug, PartialEq, Eq)]
pub struct LabelOptions {
    pub color_options: ColorOptions,
    pub font_family: String,
    pub font_size: Length,
    pub offset: (i32, i32),
    pub text: String,
}

/// The pixel `offset` before `pixel`, each axis kept within what an `i32`
/// holds.
pub open spec fn moved_back(pixel: PixelCoord, offset: (i32, i32)) -> PixelCoord {
    PixelCoord {
        x: clamp_i32(pixel.x - offset.0) as i32,
        y: clamp_i32(pixel.y - offset.1) as i32,
    }
}

/// One axis of [`moved_back`].
fn moved_back_along(value: i32, offset: i32) -> (moved: i32)
    ensures
        moved == clamp_i32(value - offset),
{
    let difference = value as i64 - offset as i64;
    if difference < -0x8000_0000 {
        -0x8000_0000
    } else if difference > 0x7fff_ffff {
        0x7fff_ffff
    } else {
        difference as i32
    }
}

/// Moves `pixel` back by `offset`.
pub fn move_back(pixel: PixelCoord, offset: (i32, i32)) -> (moved: PixelCoord)
    ensures
        moved == moved_back(pixel, offset),
{
    PixelCoord { x: moved_back_along(pixel.x, offset.0), y: moved_back_along(pixel.y, offset.1) }
}

impl SvgOptions {
    /// The marker for `pixel`: the markup as it is, centred on the pixel
    /// moved back by the offset.
    pub fn try_as_svg(&self, pixel: PixelCoord) -> (svg: SpatialSvg)
        ensures
            svg.pixel == moved_back(pixel, self.offset),
            svg.markup@ == self.svg@,
    {
        SpatialSvg { pixel: move_back(pixel, self.offset), markup: self.svg.clone() }
    }
}

impl Default for SvgOptions {
    fn default() -> (options: SvgOptions)
        ensures
            options.offset == (0i32, 0i32),
            options.svg@ == Seq::<char>::empty(),
    {
        SvgOptions { offset: (0, 0), svg: String::new() }
    }
}

impl LabelOptions {
    /// The width of the outline of the text: the border, and nothing where
    /// there is none.
    pub open spec fn outline(self) -> Length {
        match self.color_options.border {
            Some(width) => width,
            None => Length { hundredths: 0 },
        }
    }

    /// The markup of the label: one text element that is filled with the
    /// foreground, outlined with the background as wide as the border, and
    /// set in the given font and size.
    pub open spec fn markup(self) -> Seq<char> {
        "\n            <svg xmlns=\"http://www.w3.org/2000/svg\">\n                <text style=\"fill: "@
            + self.color_options.foreground.hex_code() + "; font-family: '"@ + self.font_family@
            + "'; font-size: "@ + self.font_size.text() + "px; paint-order: stroke; stroke: "@
            + self.color_options.border_color().hex_code() + "; stroke-width: "@
            + self.outline().text() + "px;\">"@ + self.text@
            + "</text>\n            </svg>\n            "@
    }

    /// The label for `pixel`: its markup, centred on the pixel moved back by
    /// the offset.
    pub fn try_as_svg(&self, pixel: PixelCoord) -> (svg: SpatialSvg)
        ensures
            svg.pixel == moved_back(pixel, self.offset),
            svg.markup@ == self.markup(),
    {
        let outline = match self.color_options.border {
            Some(width) => width,
            None => Length { hundredths: 0 },
        };
        let mut markup = String::from_str(
            "\n            <svg xmlns=\"http://www.w3.org/2000/svg\">\n                <text style=\"fill: ",
        );
        markup.append(self.color_options.foreground_as_hex_code().as_str());
        markup.append("; font-family: '");
        markup.append(self.font_family.as_str());
        markup.append("'; font-size: ");
        markup.append(self.font_size.to_text().as_str());
        markup.append("px; paint-order: stroke; stroke: ");
        markup.append(self.color_options.background_as_hex_code().as_str());
        markup.append("; stroke-width: ");
        markup.append(outline.to_text().as_str());
        markup.append("px;\">");
        markup.append(self.text.as_str());
        markup.append("</text>\n            </svg>\n            ");
        SpatialSvg { pixel: move_back(pixel, self.offset), markup }
    }
}

impl Default for LabelOptions {
    fn default() -> (options: LabelOptions)
        ensures
            options.color_options == ColorOptions::standard(),
            options.font_family@ == "Arial"@,
            options.font_size == (Length { hundredths: 1600 }),
            options.offset == (0i32, 12i32),
            options.text@ == Seq::<char>::empty(),
    {
        LabelOptions {
            color_options: ColorOptions::default(),
            font_family: String::from_str("Arial"),
            font_size: Length::pixels(16),
            offset: (0, 12),
            text: String::new(),
        }
    }
}

impl Drawable for SpatialSvg {
    fn draw(&self, canvas: &mut Canvas, context: &Context) -> (drawn: Result<(), SnaprError>)
        ensures
            drawn is Ok,
            final(canvas)@ == old(canvas)@.push(
                CommandView::RenderSvg { pixel: self.pixel, markup: self.markup@ },
            ),
    {
        canvas.render_svg(SpatialSvg { pixel: self.pixel, markup: self.markup.clone() });
        Ok(())
    }
}

} // verus!
