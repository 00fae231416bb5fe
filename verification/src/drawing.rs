//! Drawing: the styles of the geometries, the canvas they are drawn on and
//! the routines that draw them.

use vstd::prelude::*;
use crate::drawing::canvas::Canvas;
use crate::drawing::canvas::CommandView;
use crate::error::SnaprError;
use crate::projection::Coord;
use crate::projection::epsg_4326_to_pixel;
use crate::projection::MAX_ZOOM;
use crate::projection::pixel_of;
use crate::projection::PixelCoord;

pub mod canvas;
pub mod geometry;
pub mod style;
pub mod svg;

verus! {

/// What a drawing routine is told about the snapshot it draws into.
#[derive(Clone, Copy, Debug, PartialEq, Eq, Structural)]
pub struct Context {
    /// The length of the side of a tile in pixels.
    pub tile_size: u32,
    /// The width of the snapshot in pixels.
    pub width: u32,
    /// The height of the snapshot in pixels.
    pub height: u32,
    /// The position shown at the centre of the snapshot.
    pub center: Coord,
    /// The zoom level of the snapshot.
    pub zoom: u8,
    /// The place of what is being drawn among its siblings, from 0.
    pub index: usize,
}

impl Context {
    /// The zoom level is one that the tile grid can address.
    pub open spec fn wf(self) -> bool {
        self.zoom <= MAX_ZOOM
    }

    /// The pixel that shows `coord`.
    pub open spec fn pixel(self, coord: Coord) -> PixelCoord {
        pixel_of(self.tile_size, self.width, self.height, self.zoom, self.center, coord)
    }

    /// The same context for the sibling at `index`.
    pub open spec fn at(self, index: usize) -> Context {
        Context { index, ..self }
    }

    /// Converts a position to the pixel that shows it.
    pub fn epsg_4326_to_pixel(&self, coord: &Coord) -> (pixel: PixelCoord)
        requires
            self.wf(),
        ensures
            pixel == self.pixel(*coord),
    {
        epsg_4326_to_pixel(self.tile_size, self.width, self.height, self.zoom, self.center, *coord)
    }

    /// The same context for the sibling at `index`.
    pub fn with_index(&self, index: usize) -> (context: Context)
        ensures
            context == self.at(index),
    {
        Context {
            tile_size: self.tile_size,
            width: self.width,
            height: self.height,
            center: self.center,
            zoom: self.zoom,
            index,
        }
    }
}

/// Whether `later` is `earlier` with more operations after it.
pub open spec fn extends(later: Seq<CommandView>, earlier: Seq<CommandView>) -> bool {
    earlier.len() <= later.len() && later.take(earlier.len() as int) =~= earlier
}

/// Whether a drawing routine left the canvas in order: what was on it is
/// still there, in front of what was added, and its size is the same.
pub open spec fn drawn_onto(later: Canvas, earlier: Canvas) -> bool {
    &&& extends(later@, earlier@)
    &&& later.spec_width() == earlier.spec_width()
    &&& later.spec_height() == earlier.spec_height()
}

/// The operations that a drawing routine added to a canvas.
pub open spec fn added(later: Canvas, earlier: Canvas) -> Seq<CommandView> {
    later@.skip(earlier@.len() as int)
}

/// What was added to a canvas that holds `gained` after what it held.
pub proof fn lemma_added(later: Canvas, earlier: Canvas, gained: Seq<CommandView>)
    requires
        later@ == earlier@ + gained,
    ensures
        added(later, earlier) == gained,
        extends(later@, earlier@),
{
    assert(later@.skip(earlier@.len() as int) =~= gained);
    assert(later@.take(earlier@.len() as int) =~= earlier@);
}

/// What two drawing routines added one after the other is what the first
/// added and then what the second added.
pub proof fn lemma_added_in_turn(last: Canvas, middle: Canvas, first: Canvas)
    requires
        extends(middle@, first@),
        extends(last@, middle@),
    ensures
        added(last, first) == added(middle, first) + added(last, middle),
        last@ == first@ + added(last, first),
        extends(last@, first@),
{
    assert(last@.take(first@.len() as int) =~= middle@.take(first@.len() as int));
    assert(added(last, first) =~= added(middle, first) + added(last, middle));
    assert(last@ =~= first@ + added(last, first));
}

/// Lists of operations put one after the other.
pub open spec fn joined(parts: Seq<Seq<CommandView>>) -> Seq<CommandView>
    decreases parts.len(),
{
    if parts.len() == 0 {
        Seq::empty()
    } else {
        joined(parts.drop_last()) + parts.last()
    }
}

/// Joining one more list puts it after what was joined.
pub proof fn lemma_joined_push(parts: Seq<Seq<CommandView>>, last: Seq<CommandView>)
    ensures
        joined(parts.push(last)) == joined(parts) + last,
{
    assert(parts.push(last).drop_last() =~= parts);
}

/// How many members of a list are drawn or tried when they are drawn in
/// their order up to the first that cannot be drawn: every member before
/// that one, and that one.  `drawable` says of each member whether it can
/// be drawn.
pub open spec fn attempted(drawable: Seq<bool>) -> int
    decreases drawable.len(),
{
    if drawable.len() == 0 {
        0
    } else {
        let before = attempted(drawable.drop_last());
        if before == drawable.len() - 1 && (before == 0 || drawable[before - 1]) {
            drawable.len() as int
        } else {
            before
        }
    }
}

/// How many members of a list are drawn in full when they are drawn in
/// their order up to the first that cannot be drawn: every member before
/// that one.
pub open spec fn fully_drawn(drawable: Seq<bool>) -> int {
    let tried = attempted(drawable);
    if 0 < tried <= drawable.len() && !drawable[tried - 1] {
        tried - 1
    } else {
        tried
    }
}

/// Where the first `count` members can all be drawn, all of them are.
pub proof fn lemma_attempted_all(drawable: Seq<bool>, count: int)
    requires
        0 <= count <= drawable.len(),
        forall|position: int| 0 <= position < count ==> drawable[position],
    ensures
        attempted(drawable.take(count)) == count,
    decreases count,
{
    if count > 0 {
        lemma_attempted_all(drawable, count - 1);
        assert(drawable.take(count).drop_last() =~= drawable.take(count - 1));
    }
}

/// Where the member at `position` is the first that cannot be drawn, it is
/// the last that is tried.
pub proof fn lemma_attempted_stops(drawable: Seq<bool>, position: int)
    requires
        0 <= position < drawable.len(),
        forall|earlier: int| 0 <= earlier < position ==> drawable[earlier],
        !drawable[position],
    ensures
        attempted(drawable) == position + 1,
    decreases drawable.len(),
{
    let before = drawable.drop_last();
    if position == drawable.len() - 1 {
        lemma_attempted_all(drawable, position);
        assert(drawable.take(position) =~= before);
    } else {
        lemma_attempted_stops(before, position);
    }
}

/// Something that can be drawn on the overlay of a snapshot.
pub trait Drawable {
    /// Draws `self` onto `canvas`.  Whatever the outcome, what was on the
    /// canvas stays in front of what is added.
    fn draw(&self, canvas: &mut Canvas, context: &Context) -> (drawn: Result<(), SnaprError>)
        requires
            context.wf(),
        ensures
            drawn_onto(*final(canvas), *old(canvas)),
    ;
}

/// Whether `drawn` is an outcome that the drawable's own `draw` may have
/// when it is handed `step`, a canvas to draw on, and `context`.
pub open spec fn may_draw<D: Drawable + ?Sized>(
    drawable: &D,
    step: &mut Canvas,
    context: &Context,
    drawn: Result<(), SnaprError>,
) -> bool {
    call_ensures(D::draw, (drawable, step, context), drawn)
}

/// Draws one drawable, whatever it is, by its own `draw`: the outcome and
/// the canvas left are those of that one call on the canvas as it was.
pub fn draw_one<D: Drawable + ?Sized>(drawable: &D, canvas: &mut Canvas, context: &Context) -> (drawn: Result<
    (),
    SnaprError,
>)
    requires
        context.wf(),
    ensures
        exists|step: &mut Canvas|
            *step == *old(canvas) && *final(step) == *final(canvas) && #[trigger] may_draw(
                drawable,
                step,
                context,
                drawn,
            ),
        drawn_onto(*final(canvas), *old(canvas)),
{
    let drawn = drawable.draw(canvas, context);
    proof {
        let step = choose|step: &mut Canvas|
            *step == *old(canvas) && *final(step) == *canvas && #[trigger] call_ensures(
                D::draw,
                (drawable, step, context),
                drawn,
            );
        assert(may_draw(drawable, step, context, drawn));
    }
    drawn
}

/// A drawable with the style it is to be drawn in.
pub struct Styled<'a, T: Styleable<S>, S> {
    pub inner: &'a T,
    pub style: S,
}

/// Drawables that can be given a style of type `S`.
pub trait Styleable<S>: Drawable + Sized {
    /// Pairs `self` with `style`.
    fn as_styled(&self, style: S) -> (styled: Styled<'_, Self, S>)
        ensures
            styled.inner == self,
            styled.style == style,
    {
        Styled { inner: self, style }
    }
}

/// A function from the style that a drawable would be drawn in to the style
/// that it is drawn in.
pub trait EffectFn<T, S> {
    /// The style to draw `drawable` in, given the style it has.
    fn restyle(&self, style: &S, drawable: &T, context: &Context) -> (restyled: S);
}

/// Whether `restyled` is a style that `func` may give for the drawable in
/// the style and the context at hand.
pub open spec fn may_restyle<T, S, F: EffectFn<T, S> + ?Sized>(
    func: &F,
    style: &S,
    drawable: &T,
    context: &Context,
    restyled: S,
) -> bool {
    call_ensures(F::restyle, (func, style, drawable, context), restyled)
}

/// An effect: a style computed when a drawable is drawn, from the style it
/// has, from the drawable itself and from the context.
#[verifier::reject_recursive_types(T)]
#[verifier::reject_recursive_types(S)]
pub struct Effect<'a, T, S> {
    /// The function of the effect.
    pub func: Box<dyn EffectFn<T, S> + 'a>,
}

impl<'a, T, S> Effect<'a, T, S> {
    /// Whether `restyled` is a style that the function of the effect may
    /// give for the drawable in the style and the context at hand.
    pub open spec fn may_give(&self, style: &S, drawable: &T, context: &Context, restyled: S) -> bool {
        may_restyle(&*self.func, style, drawable, context, restyled)
    }

    /// The effect that `func` computes.
    pub fn new(func: Box<dyn EffectFn<T, S> + 'a>) -> (effect: Self)
        ensures
            effect == (Effect { func }),
    {
        Effect { func }
    }

    /// The style to draw `drawable` in: what the function of the effect
    /// gives for this style, this drawable and this context.
    pub fn apply(&self, style: &S, drawable: &T, context: &Context) -> (restyled: S)
        ensures
            self.may_give(style, drawable, context, restyled),
    {
        self.func.restyle(style, drawable, context)
    }
}

} // verus!
