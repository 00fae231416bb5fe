//! The canvas of the overlay: the list of drawing operations that the
//! geometries of a snapshot ask for, in the order in which they are to be
//! carried out.  Later operations paint over earlier ones.

use vstd::prelude::*;
use crate::drawing::style::Color;
use crate::drawing::style::Length;
use crate::drawing::svg::SpatialSvg;
use crate::projection::PixelCoord;

verus! {

/// An outline on the canvas.
#[derive(Debug, PartialEq, Eq)]
pub enum Path {
    /// A circle round `center`.
    Circle { center: PixelCoord, radius: Length },
    /// Straight segments from each point to the next, and from the last
    /// back to the first where the path is closed.
    Polyline { points: Vec<PixelCoord>, closed: bool },
}

/// What a [`Path`] is, with its points as a sequence.
pub enum PathView {
    Circle { center: PixelCoord, radius: Length },
    Polyline { points: Seq<PixelCoord>, closed: bool },
}

impl View for Path {
    type V = PathView;

    open spec fn view(&self) -> PathView {
        match *self {
            Path::Circle { center, radius } => PathView::Circle { center, radius },
            Path::Polyline { points, closed } => PathView::Polyline { points: points@, closed },
        }
    }
}

/// How a path is painted.
#[derive(Clone, Copy, Debug, PartialEq, Eq, Structural)]
pub struct Paint {
    pub color: Color,
    pub anti_alias: bool,
}

/// One drawing operation.
#[derive(Debug, PartialEq, Eq)]
pub enum DrawCommand {
    /// Fills the inside of a path.
    FillPath { path: Path, paint: Paint },
    /// Strokes a path with a line of the given width.
    StrokePath { path: Path, paint: Paint, width: Length },
    /// Renders a fragment of SVG markup centred on a pixel.
    RenderSvg { svg: SpatialSvg },
}

/// What a [`DrawCommand`] is, with its points and its markup as sequences.
pub enum CommandView {
    FillPath { path: PathView, paint: Paint },
    StrokePath { path: PathView, paint: Paint, width: Length },
    RenderSvg { pixel: PixelCoord, markup: Seq<char> },
}

impl View for DrawCommand {
    type V = CommandView;

    open spec fn view(&self) -> CommandView {
        match *self {
            DrawCommand::FillPath { path, paint } => CommandView::FillPath { path: path@, paint },
            DrawCommand::StrokePath { path, paint, width } => CommandView::StrokePath {
                path: path@,
                paint,
                width,
            },
            DrawCommand::RenderSvg { svg } => CommandView::RenderSvg {
                pixel: svg.pixel,
                markup: svg.markup@,
            },
        }
    }
}

/// The overlay under construction: its size and the operations asked for so
/// far.
#[derive(Debug, PartialEq, Eq)]
pub struct Canvas {
    width: u32,
    height: u32,
    commands: Vec<DrawCommand>,
}

impl View for Canvas {
    type V = Seq<CommandView>;

    closed spec fn view(&self) -> Seq<CommandView> {
        self.commands@.map_values(|command: DrawCommand| command@)
    }
}

impl Canvas {
    /// The width of the canvas in pixels.
    pub closed spec fn spec_width(&self) -> u32 {
        self.width
    }

    /// The height of the canvas in pixels.
    pub closed spec fn spec_height(&self) -> u32 {
        self.height
    }

    /// An empty canvas of the given size.
    pub fn new(width: u32, height: u32) -> (canvas: Canvas)
        ensures
            canvas@ == Seq::<CommandView>::empty(),
            canvas.spec_width() == width,
            canvas.spec_height() == height,
    {
        let canvas = Canvas { width, height, commands: Vec::new() };
        assert(canvas@ =~= Seq::<CommandView>::empty());
        canvas
    }

    /// The width of the canvas in pixels.
    #[verifier::when_used_as_spec(spec_width)]
    pub fn width(&self) -> (width: u32)
        ensures
            width == self.spec_width(),
    {
        self.width
    }

    /// The height of the canvas in pixels.
    #[verifier::when_used_as_spec(spec_height)]
    pub fn height(&self) -> (height: u32)
        ensures
            height == self.spec_height(),
    {
        self.height
    }

    /// The operations asked for so far, in their order.
    pub fn commands(&self) -> (commands: &Vec<DrawCommand>)
        ensures
            commands@.map_values(|command: DrawCommand| command@) == self@,
    {
        &self.commands
    }

    /// Adds an operation after those asked for so far.
    fn record(&mut self, command: DrawCommand)
        ensures
            final(self)@ == old(self)@.push(command@),
            final(self).spec_width() == old(self).spec_width(),
            final(self).spec_height() == old(self).spec_height(),
    {
        self.commands.push(command);
        assert(self@ =~= old(self)@.push(command@));
    }

    /// Asks for the inside of `path` to be filled.
    pub fn fill_path(&mut self, path: Path, paint: Paint)
        ensures
            final(self)@ == old(self)@.push(CommandView::FillPath { path: path@, paint }),
            final(self).spec_width() == old(self).spec_width(),
            final(self).spec_height() == old(self).spec_height(),
    {
        self.record(DrawCommand::FillPath { path, paint });
    }

    /// Asks for `path` to be stroked with a line of the given width.
    pub fn stroke_path(&mut self, path: Path, paint: Paint, width: Length)
        ensures
            final(self)@ == old(self)@.push(CommandView::StrokePath { path: path@, paint, width }),
            final(self).spec_width() == old(self).spec_width(),
            final(self).spec_height() == old(self).spec_height(),
    {
        self.record(DrawCommand::StrokePath { path, paint, width });
    }

    /// Asks for a fragment of SVG markup to be rendered.
    pub fn render_svg(&mut self, svg: SpatialSvg)
        ensures
            final(self)@ == old(self)@.push(
                CommandView::RenderSvg { pixel: svg.pixel, markup: svg.markup@ },
            ),
            final(self).spec_width() == old(self).spec_width(),
            final(self).spec_height() == old(self).spec_height(),
    {
        self.record(DrawCommand::RenderSvg { svg });
    }
}

} // verus!
