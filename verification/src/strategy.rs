//! The policy by which a caller decides, for each path, the color of its
//! material and how its stroke is drawn.

use crate::color::Color;
use crate::number::Number;
use crate::style::{linecap_of, linejoin_of, paint_of, LineCap, LineJoin, SvgStyle};
use crate::error::Property;
use crate::color::svg_paint_color;
use crate::svg_syntax::svg_length_number;
use vstd::prelude::*;

verus! {

/// The alpha channels that the caller derived from the stroke opacity and
/// the fill opacity of a style.
#[derive(Clone, Copy, Debug, PartialEq, Eq, Structural)]
pub struct Opacity {
    pub stroke: u8,
    pub fill: u8,
}

impl Opacity {
    /// The alpha channels of a fully opaque style.
    pub fn opaque() -> (opacity: Opacity)
        ensures
            opacity == (Opacity { stroke: 255, fill: 255 }),
    {
        Opacity { stroke: 255, fill: 255 }
    }
}

/// The double-precision pattern of 0.264583, the stroke width of the default
/// style.
pub const DEFAULT_STROKE_WIDTH: u64 = 0x3fd0_eeed_8904_f6e0u64;

/// The width that a style asks for, or the default where it names none.
pub open spec fn width_or_default(style: Map<Seq<char>, Seq<char>>) -> Number {
    if style.contains_key("stroke-width"@) && svg_length_number(style["stroke-width"@]) is Some {
        svg_length_number(style["stroke-width"@]).unwrap()
    } else {
        Number { bits: DEFAULT_STROKE_WIDTH }
    }
}

/// The cap that a style asks for, or a butt cap where it names none.
pub open spec fn linecap_or_default(style: Map<Seq<char>, Seq<char>>) -> LineCap {
    if style.contains_key("stroke-linecap"@) && linecap_of(style["stroke-linecap"@]) is Some {
        linecap_of(style["stroke-linecap"@]).unwrap()
    } else {
        LineCap::Butt
    }
}

/// The join that a style asks for, or a miter join where it names none.
pub open spec fn linejoin_or_default(style: Map<Seq<char>, Seq<char>>) -> LineJoin {
    if style.contains_key("stroke-linejoin"@) && linejoin_of(style["stroke-linejoin"@]) is Some {
        linejoin_of(style["stroke-linejoin"@]).unwrap()
    } else {
        LineJoin::Miter
    }
}

/// The stroke width of `style`, or the default.
pub fn style_width(style: &SvgStyle) -> (w: Number)
    ensures
        w == width_or_default(style@),
{
    match style.stroke_width() {
        Some(w) => w,
        None => Number { bits: DEFAULT_STROKE_WIDTH },
    }
}

/// The cap of `style`, or a butt cap.
pub fn style_linecap(style: &SvgStyle) -> (cap: LineCap)
    ensures
        cap == linecap_or_default(style@),
{
    match style.stroke_linecap() {
        Some(cap) => cap,
        None => LineCap::Butt,
    }
}

/// The join of `style`, or a miter join.
pub fn style_linejoin(style: &SvgStyle) -> (join: LineJoin)
    ensures
        join == linejoin_or_default(style@),
{
    match style.stroke_linejoin() {
        Some(join) => join,
        None => LineJoin::Miter,
    }
}

/// The handle of a shown mesh in the caller's runtime: that to which the
/// meaning of a style is attached.
pub trait Handle {
    /// Attaches a marker to what the handle stands for.
    fn attach<M: Send + Sync + 'static>(&mut self, marker: M);
}

/// What a caller decides for each path. Every method has a default, so that
/// an implementation overrides only what it needs. What is stated of a
/// default holds of that default alone: an implementation that overrides a
/// method is free in what it returns.
pub trait StyleStrategy {
    /// The color of the material. By default opaque black, whatever the
    /// style and the opacity.
    fn color_decider(&self, style: &SvgStyle, opacity: Opacity) -> (color: Color)
        default_ensures
            color == (Color { red: 0, green: 0, blue: 0, alpha: 255 }),
    {
        Color::black()
    }

    /// The width of the stroke. By default that of the style, or the default
    /// width where the style names none.
    fn width_decider(&self, style: &SvgStyle) -> (width: Number)
        default_ensures
            width == width_or_default(style@),
    {
        style_width(style)
    }

    /// The cap of the stroke. By default that of the style, or a butt cap
    /// where the style names none.
    fn linecap_decider(&self, style: &SvgStyle) -> (cap: LineCap)
        default_ensures
            cap == linecap_or_default(style@),
    {
        style_linecap(style)
    }

    /// The join of the stroke. By default that of the style, or a miter join
    /// where the style names none.
    fn linejoin_decider(&self, style: &SvgStyle) -> (join: LineJoin)
        default_ensures
            join == linejoin_or_default(style@),
    {
        style_linejoin(style)
    }

    /// Attaches what the style means to the handle of a shown mesh. By
    /// default nothing: the handle is left as it is.
    fn component_decider<H: Handle>(&self, style: &SvgStyle, handle: &mut H)
        default_ensures
            *final(handle) == *old(handle),
    {
    }
}

/// Whether `color` is what the strategy decides for a style and its alpha
/// channels: what its `color_decider` states of its result holds of `color`.
pub open spec fn decides_color<S: StyleStrategy>(
    strategy: &S,
    style: &SvgStyle,
    opacity: Opacity,
    color: Color,
) -> bool {
    call_ensures(S::color_decider, (strategy, style, opacity), color)
}

/// The strategy for a document shown as a whole: each path in the color of
/// its stroke.
pub struct SvgWhole;

/// The color that `SvgWhole` gives to a style: that of its stroke, or red
/// where the stroke is absent or is not a plain color.
pub open spec fn whole_color(style: Map<Seq<char>, Seq<char>>, opacity: Opacity) -> Color {
    match paint_of(style, "stroke"@, Property::Stroke, opacity.stroke) {
        Ok(Some(color)) => color,
        _ => Color { red: 255, green: 0, blue: 0, alpha: 255 },
    }
}

/// Where the stroke of a style is a plain color, `SvgWhole` shows the path
/// in that color, with the alpha channel of the stroke.
pub proof fn lemma_whole_color_is_the_stroke(
    style: Map<Seq<char>, Seq<char>>,
    opacity: Opacity,
    red: u8,
    green: u8,
    blue: u8,
)
    requires
        style.contains_key("stroke"@),
        svg_paint_color(style["stroke"@]) == Some((red, green, blue)),
    ensures
        whole_color(style, opacity) == (Color { red, green, blue, alpha: opacity.stroke }),
{
}

impl StyleStrategy for SvgWhole {
    fn color_decider(&self, style: &SvgStyle, opacity: Opacity) -> (color: Color)
        ensures
            color == whole_color(style@, opacity),
    {
        match style.stroke(opacity.stroke) {
            Ok(Some(color)) => color,
            _ => Color::red(),
        }
    }
}

} // verus!
