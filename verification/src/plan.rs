//! The load of a document, as far as it can be decided without drawing: which
//! paths are kept, what their extent is, which passes each path gets, and
//! what was skipped on the way.

use crate::color::Color;
use crate::error::{MalformedPathData, Property, SvgError};
use crate::extent::{document_extent, max_coords, paths_view, DocumentExtent};
use crate::extract::{
    document_segments, segments_view, shape_attributes, tokenize_svg, SegmentModel, StyleSegment,
};
use crate::geometry::{centering, centering_translation, PassKind, Translation};
use crate::number::Number;
use crate::path::{accepted_commands, tokenize_path, PathCommand};
use crate::strategy::StyleStrategy;
use crate::style::{LineCap, LineJoin, SvgStyle};
use crate::markup::xml_attribute_rows;
use crate::color::svg_paint_color;
use crate::svg_syntax::svg_path_data;
use vstd::prelude::*;

verus! {

/// How a stroke is drawn.
#[derive(Clone, Copy, Debug, PartialEq, Eq, Structural)]
pub struct StrokeOptions {
    pub width: Number,
    pub cap: LineCap,
    pub join: LineJoin,
}

/// What is drawn for one path: a stroke pass with its options where the path
/// has a stroke, and whether it has a fill pass.
#[derive(Clone, Copy, Debug, PartialEq, Eq, Structural)]
pub struct ShapePlan {
    pub stroke: Option<StrokeOptions>,
    pub fill: bool,
}

/// Something that was skipped during the load, and where.
#[derive(Clone, Copy, Debug, PartialEq, Eq, Structural)]
pub enum Diagnostic {
    /// The path data of a segment was refused; the segment is not drawn.
    MalformedPathData { segment: usize },
    /// A command of a segment is outside the drawn subset; the rest of the
    /// path is drawn without it.
    UnsupportedPathCommand { segment: usize, command: usize },
}

/// One path that is drawn: the segment it comes from, its commands without
/// the unsupported ones, and its passes.
#[derive(Debug)]
pub struct PlannedShape {
    pub segment: usize,
    pub commands: Vec<PathCommand>,
    pub plan: ShapePlan,
}

/// A loaded document: its extent, where its meshes are placed, the paths
/// that are drawn in document order, and what was skipped.
#[derive(Debug)]
pub struct DocumentPlan {
    pub extent: DocumentExtent,
    pub translation: Translation,
    pub shapes: Vec<PlannedShape>,
    pub diagnostics: Vec<Diagnostic>,
}

/// The plan that the decided values make: a stroke pass where there is a
/// stroke color, a fill pass where there is a fill color.
pub open spec fn passes_for(
    stroke: Option<Color>,
    fill: Option<Color>,
    options: StrokeOptions,
) -> ShapePlan {
    ShapePlan {
        stroke: if stroke is Some {
            Some(options)
        } else {
            None
        },
        fill: fill is Some,
    }
}

/// Whether a style has a stroke color.
pub open spec fn has_stroke(style: Map<Seq<char>, Seq<char>>) -> bool {
    style.contains_key("stroke"@) && svg_paint_color(style["stroke"@]) is Some
}

/// Whether a style has a fill color.
pub open spec fn has_fill(style: Map<Seq<char>, Seq<char>>) -> bool {
    style.contains_key("fill"@) && svg_paint_color(style["fill"@]) is Some
}

/// The required property that a style lacks, if any: the stroke before the
/// fill.
pub open spec fn missing_property(style: Map<Seq<char>, Seq<char>>) -> Option<Property> {
    if !style.contains_key("stroke"@) {
        Some(Property::Stroke)
    } else if !style.contains_key("fill"@) {
        Some(Property::Fill)
    } else {
        None
    }
}

/// The commands of the drawn subset among `commands`, in order.
pub open spec fn supported_of(commands: Seq<PathCommand>) -> Seq<PathCommand> {
    commands.filter(|command: PathCommand| command.supported())
}

/// The positions of the commands outside the drawn subset, in order.
pub open spec fn unsupported_in(commands: Seq<PathCommand>) -> Seq<usize>
    decreases commands.len(),
{
    if commands.len() == 0 {
        Seq::empty()
    } else if commands.last().supported() {
        unsupported_in(commands.drop_last())
    } else {
        unsupported_in(commands.drop_last()).push((commands.len() - 1) as usize)
    }
}

/// The commands of a segment, or the error of its path data.
pub open spec fn tokens_of(segment: SegmentModel) -> Result<Seq<PathCommand>, MalformedPathData> {
    accepted_commands(svg_path_data(segment.traces))
}

/// The positions of the segments whose path data is accepted, in order.
pub open spec fn kept_segments(segments: Seq<SegmentModel>) -> Seq<usize>
    decreases segments.len(),
{
    if segments.len() == 0 {
        Seq::empty()
    } else if tokens_of(segments.last()) is Ok {
        kept_segments(segments.drop_last()).push((segments.len() - 1) as usize)
    } else {
        kept_segments(segments.drop_last())
    }
}

/// The commands of each kept segment, in order.
pub open spec fn kept_paths(segments: Seq<SegmentModel>) -> Seq<Seq<PathCommand>> {
    segments.filter_map(
        |segment: SegmentModel|
            match tokens_of(segment) {
                Ok(commands) => Some(commands),
                Err(_) => None,
            },
    )
}

/// The reports for the unsupported commands of one segment.
pub open spec fn unsupported_reports(segment: usize, commands: Seq<PathCommand>) -> Seq<
    Diagnostic,
> {
    unsupported_in(commands).map_values(
        |command: usize| Diagnostic::UnsupportedPathCommand { segment, command },
    )
}

/// Everything that is skipped in a document, in document order: a refused
/// segment, or the unsupported commands of a kept one.
pub open spec fn diagnostics_of(segments: Seq<SegmentModel>) -> Seq<Diagnostic>
    decreases segments.len(),
{
    if segments.len() == 0 {
        Seq::empty()
    } else {
        let segment = (segments.len() - 1) as usize;
        match tokens_of(segments.last()) {
            Ok(commands) => diagnostics_of(segments.drop_last()) + unsupported_reports(
                segment,
                commands,
            ),
            Err(_) => diagnostics_of(segments.drop_last()).push(
                Diagnostic::MalformedPathData { segment },
            ),
        }
    }
}

/// The required property that a document lacks, if any: that of the first
/// kept segment whose style lacks one.
pub open spec fn first_missing(segments: Seq<SegmentModel>) -> Option<Property>
    decreases segments.len(),
{
    if segments.len() == 0 {
        None
    } else if first_missing(segments.drop_last()) is Some {
        first_missing(segments.drop_last())
    } else if tokens_of(segments.last()) is Ok {
        missing_property(segments.last().style)
    } else {
        None
    }
}

/// Whether a planned shape is the one that the segment at `segment` gives:
/// its supported commands, a stroke pass exactly where its style has a stroke
/// color, a fill pass exactly where it has a fill color.
pub open spec fn shape_of(
    shape: PlannedShape,
    segments: Seq<SegmentModel>,
    segment: usize,
) -> bool {
    &&& shape.segment == segment
    &&& segment < segments.len()
    &&& tokens_of(segments[segment as int]) is Ok
    &&& shape.commands@ == supported_of(tokens_of(segments[segment as int]).unwrap())
    &&& shape.plan.stroke is Some <==> has_stroke(segments[segment as int].style)
    &&& shape.plan.fill <==> has_fill(segments[segment as int].style)
}

/// Whether `options` are what the strategy decides for a style: what its
/// `width_decider`, `linecap_decider` and `linejoin_decider` state of their
/// results holds of the width, the cap and the join.
pub open spec fn decides_options<S: StyleStrategy>(
    strategy: &S,
    style: &SvgStyle,
    options: StrokeOptions,
) -> bool {
    &&& call_ensures(S::width_decider, (strategy, style), options.width)
    &&& call_ensures(S::linecap_decider, (strategy, style), options.cap)
    &&& call_ensures(S::linejoin_decider, (strategy, style), options.join)
}

/// Whether every stroke pass of the shapes has the options that the strategy
/// decides for the style of its segment.
pub open spec fn strokes_decided<S: StyleStrategy>(
    strategy: &S,
    segments: Seq<StyleSegment>,
    shapes: Seq<PlannedShape>,
) -> bool {
    forall|k: int|
        0 <= k < shapes.len() ==> match (#[trigger] shapes[k]).plan.stroke {
            Some(options) => shapes[k].segment < segments.len() && decides_options(
                strategy,
                &segments[shapes[k].segment as int].style,
                options,
            ),
            None => true,
        }
}

/// Puts the decided values together: a stroke pass where there is a stroke
/// color, a fill pass where there is a fill color.
pub fn decide_passes(stroke: Option<Color>, fill: Option<Color>, options: StrokeOptions) -> (plan:
    ShapePlan)
    ensures
        plan == passes_for(stroke, fill, options),
{
    ShapePlan {
        stroke: match stroke {
            Some(_) => Some(options),
            None => None,
        },
        fill: fill.is_some(),
    }
}

impl ShapePlan {
    /// The passes in the order they are drawn: stroke, then fill.
    pub fn passes(&self) -> (kinds: Vec<PassKind>)
        ensures
            kinds@ == (if self.stroke is Some {
                seq![PassKind::Stroke]
            } else {
                Seq::<PassKind>::empty()
            }) + (if self.fill {
                seq![PassKind::Fill]
            } else {
                Seq::<PassKind>::empty()
            }),
    {
        let mut kinds: Vec<PassKind> = Vec::new();
        if self.stroke.is_some() {
            kinds.push(PassKind::Stroke);
        }
        if self.fill {
            kinds.push(PassKind::Fill);
        }
        kinds
    }
}

/// Decides the passes of one path. The style settles which passes there
/// are; the options of a stroke pass are what the strategy decides for the
/// style.
///
/// Fails where the style lacks its stroke or its fill.
pub fn plan_shape<S: StyleStrategy>(style: &SvgStyle, strategy: &S) -> (r: Result<
    ShapePlan,
    SvgError,
>)
    ensures
        match r {
            Ok(plan) => {
                &&& missing_property(style@) is None
                &&& plan.stroke is Some <==> has_stroke(style@)
                &&& plan.fill <==> has_fill(style@)
            },
            Err(e) => missing_property(style@) is Some && e == SvgError::MissingStyleProperty(
                missing_property(style@).unwrap(),
            ),
        },
        r matches Ok(plan) ==> (plan.stroke matches Some(options) ==> decides_options(
            strategy,
            style,
            options,
        )),
{
    // The alpha channel plays no part in whether there is a color.
    let stroke = match style.stroke(255) {
        Ok(color) => color,
        Err(e) => {
            return Err(e);
        },
    };
    let fill = match style.fill(255) {
        Ok(color) => color,
        Err(e) => {
            return Err(e);
        },
    };
    let options = StrokeOptions {
        width: strategy.width_decider(style),
        cap: strategy.linecap_decider(style),
        join: strategy.linejoin_decider(style),
    };
    Ok(decide_passes(stroke, fill, options))
}

/// Parts the commands of a path: those of the drawn subset, in order, and the
/// positions of the others.
pub fn split_supported(commands: &Vec<PathCommand>) -> (r: (Vec<PathCommand>, Vec<usize>))
    ensures
        r.0@ == supported_of(commands@),
        r.1@ == unsupported_in(commands@),
{
    let mut kept: Vec<PathCommand> = Vec::new();
    let mut skipped: Vec<usize> = Vec::new();
    let mut i: usize = 0;
    proof {
        reveal(Seq::filter);
    }
    while i < commands.len()
        invariant
            i <= commands.len(),
            kept@ == supported_of(commands@.take(i as int)),
            skipped@ == unsupported_in(commands@.take(i as int)),
        decreases commands.len() - i,
    {
        proof {
            reveal(Seq::filter);
            assert(commands@.take(i + 1).drop_last() == commands@.take(i as int));
            assert(commands@.take(i + 1).last() == commands@[i as int]);
        }
        if commands[i].is_supported() {
            kept.push(commands[i]);
        } else {
            skipped.push(i);
        }
        i += 1;
    }
    proof {
        assert(commands@.take(commands.len() as int) == commands@);
    }
    (kept, skipped)
}

/// Every unsupported command of a path is among the positions listed.
pub proof fn lemma_unsupported_listed(commands: Seq<PathCommand>, c: int)
    requires
        commands.len() <= usize::MAX,
        0 <= c < commands.len(),
        !commands[c].supported(),
    ensures
        unsupported_in(commands).contains(c as usize),
    decreases commands.len(),
{
    let listed = unsupported_in(commands);
    if c == commands.len() - 1 {
        assert(listed[listed.len() - 1] == c as usize);
    } else {
        let front = commands.drop_last();
        assert(front[c] == commands[c]);
        lemma_unsupported_listed(front, c);
        let k = choose|k: int|
            0 <= k < unsupported_in(front).len() && unsupported_in(front)[k] == c as usize;
        assert(listed[k] == c as usize);
    }
}

/// Nothing is skipped in silence. A segment whose path data is refused is
/// reported and not kept; any other segment is kept, and each of its
/// unsupported commands is reported.
pub proof fn lemma_skips_are_reported(segments: Seq<SegmentModel>, i: int)
    requires
        segments.len() <= usize::MAX,
        0 <= i < segments.len(),
    ensures
        match tokens_of(segments[i]) {
            Err(_) => diagnostics_of(segments).contains(
                Diagnostic::MalformedPathData { segment: i as usize },
            ) && !kept_segments(segments).contains(i as usize),
            Ok(commands) => kept_segments(segments).contains(i as usize) && forall|c: int|
                0 <= c < commands.len() <= usize::MAX && !(#[trigger] commands[c]).supported()
                    ==> diagnostics_of(segments).contains(
                    Diagnostic::UnsupportedPathCommand { segment: i as usize, command: c as usize },
                ),
        },
    decreases segments.len(),
{
    let front = segments.drop_last();
    let last = (segments.len() - 1) as usize;
    let all = diagnostics_of(segments);
    let kept = kept_segments(segments);
    lemma_kept_in_range(front);
    if i == segments.len() - 1 {
        match tokens_of(segments[i]) {
            Err(_) => {
                assert(all[all.len() - 1] == Diagnostic::MalformedPathData { segment: last });
                if kept.contains(last) {
                    let k = choose|k: int| 0 <= k < kept.len() && kept[k] == last;
                    assert(kept_segments(front)[k] < front.len());
                }
            },
            Ok(commands) => {
                assert(kept[kept.len() - 1] == last);
                let reports = unsupported_reports(last, commands);
                assert forall|c: int|
                    0 <= c < commands.len() <= usize::MAX && !(
                    #[trigger] commands[c]).supported() implies all.contains(
                    Diagnostic::UnsupportedPathCommand { segment: last, command: c as usize },
                ) by {
                    lemma_unsupported_listed(commands, c);
                    let k = choose|k: int|
                        0 <= k < unsupported_in(commands).len() && unsupported_in(commands)[k]
                            == c as usize;
                    assert(reports[k] == Diagnostic::UnsupportedPathCommand {
                        segment: last,
                        command: c as usize,
                    });
                    assert(all[diagnostics_of(front).len() + k] == reports[k]);
                }
            },
        }
    } else {
        assert(front[i] == segments[i]);
        lemma_skips_are_reported(front, i);
        let before = diagnostics_of(front);
        assert forall|d: Diagnostic| before.contains(d) implies all.contains(d) by {
            let k = choose|k: int| 0 <= k < before.len() && before[k] == d;
            assert(all[k] == d);
        }
        match tokens_of(segments[i]) {
            Err(_) => {
                if kept.contains(i as usize) {
                    let k = choose|k: int| 0 <= k < kept.len() && kept[k] == i as usize;
                    if k < kept_segments(front).len() {
                        assert(kept_segments(front)[k] == i as usize);
                    }
                }
            },
            Ok(commands) => {
                let k = choose|k: int|
                    0 <= k < kept_segments(front).len() && kept_segments(front)[k] == i as usize;
                assert(kept[k] == i as usize);
            },
        }
    }
}

/// The kept positions are positions of the document.
pub proof fn lemma_kept_in_range(segments: Seq<SegmentModel>)
    requires
        segments.len() <= usize::MAX,
    ensures
        forall|k: int|
            0 <= k < kept_segments(segments).len() ==> (#[trigger] kept_segments(segments)[k])
                < segments.len(),
    decreases segments.len(),
{
    if segments.len() > 0 {
        let front = segments.drop_last();
        lemma_kept_in_range(front);
        assert forall|k: int| 0 <= k < kept_segments(segments).len() implies (
        #[trigger] kept_segments(segments)[k]) < segments.len() by {
            if k < kept_segments(front).len() {
                assert(kept_segments(segments)[k] == kept_segments(front)[k]);
            }
        }
    }
}

/// A required property that a prefix of a document lacks is the one that
/// the whole document lacks.
pub proof fn lemma_first_missing_prefix(segments: Seq<SegmentModel>, n: int)
    requires
        0 <= n <= segments.len(),
        first_missing(segments.take(n)) is Some,
    ensures
        first_missing(segments) == first_missing(segments.take(n)),
    decreases segments.len() - n,
{
    if n < segments.len() {
        assert(segments.take(n + 1).drop_last() == segments.take(n));
        lemma_first_missing_prefix(segments, n + 1);
    } else {
        assert(segments.take(n) == segments);
    }
}

/// Adds the reports for the unsupported commands of one segment.
fn report_unsupported(
    diagnostics: &mut Vec<Diagnostic>,
    segment: usize,
    skipped: &Vec<usize>,
    Ghost(commands): Ghost<Seq<PathCommand>>,
)
    requires
        skipped@ == unsupported_in(commands),
    ensures
        final(diagnostics)@ == old(diagnostics)@ + unsupported_reports(segment, commands),
{
    let ghost before = diagnostics@;
    let ghost reports = unsupported_reports(segment, commands);
    let mut j: usize = 0;
    proof {
        assert(before + reports.take(0) == before);
    }
    while j < skipped.len()
        invariant
            j <= skipped.len(),
            skipped@ == unsupported_in(commands),
            reports == unsupported_reports(segment, commands),
            diagnostics@ == before + reports.take(j as int),
        decreases skipped.len() - j,
    {
        proof {
            assert(reports.take(j + 1) == reports.take(j as int).push(reports[j as int]));
            assert((before + reports.take(j as int)).push(reports[j as int]) == before
                + reports.take(j as int).push(reports[j as int]));
        }
        diagnostics.push(Diagnostic::UnsupportedPathCommand { segment, command: skipped[j] });
        j += 1;
    }
    proof {
        assert(reports.take(skipped.len() as int) == reports);
    }
}

/// Whether a plan is that of a document with the given segments: no kept
/// segment lacks a required property, the extent is that of all accepted path
/// data, the meshes are placed to center it, every skip is reported in
/// document order, and there is one shape for each kept segment, in document
/// order.
pub open spec fn plan_of(plan: DocumentPlan, segments: Seq<SegmentModel>) -> bool {
    &&& first_missing(segments) is None
    &&& plan.extent == document_extent(kept_paths(segments))
    &&& plan.translation == centering(plan.extent)
    &&& plan.diagnostics@ == diagnostics_of(segments)
    &&& plan.shapes.len() == kept_segments(segments).len()
    &&& forall|k: int|
        0 <= k < plan.shapes.len() ==> shape_of(
            #[trigger] plan.shapes[k],
            segments,
            kept_segments(segments)[k],
        )
}

/// A document of one path whose data is accepted gets one shape, that of
/// its only segment, with a stroke pass exactly where its stroke is a color
/// and a fill pass exactly where its fill is a color. So a path with a red
/// stroke and the fill `none` gets one stroke pass and no fill pass.
pub proof fn lemma_plan_of_one_path(plan: DocumentPlan, segment: SegmentModel)
    requires
        plan_of(plan, seq![segment]),
        tokens_of(segment) is Ok,
    ensures
        missing_property(segment.style) is None,
        plan.shapes.len() == 1,
        plan.shapes[0].segment == 0,
        plan.shapes[0].commands@ == supported_of(tokens_of(segment).unwrap()),
        plan.shapes[0].plan.stroke is Some <==> has_stroke(segment.style),
        plan.shapes[0].plan.fill <==> has_fill(segment.style),
{
    let segments = seq![segment];
    assert(segments.drop_last() == Seq::<SegmentModel>::empty());
    assert(segments.last() == segment);
    assert(kept_segments(segments.drop_last()) == Seq::<usize>::empty());
    assert(kept_segments(segments) =~= seq![0usize]);
    assert(shape_of(plan.shapes[0], segments, kept_segments(segments)[0]));
}

/// Plans the load of a document from its segments.
///
/// Every segment is tokenized. One whose path data is refused is reported and
/// left out. Of every other segment the unsupported commands are reported and
/// left out, and the passes are decided with `strategy`. The extent is that
/// of all accepted path data.
///
/// Fails where the style of a kept segment lacks its stroke or its fill.
pub fn plan_svg_map<S: StyleStrategy>(segments: &Vec<StyleSegment>, strategy: &S) -> (r: Result<
    DocumentPlan,
    SvgError,
>)
    ensures
        match r {
            Ok(plan) => plan_of(plan, segments_view(segments@)),
            Err(e) => first_missing(segments_view(segments@)) is Some && e
                == SvgError::MissingStyleProperty(
                first_missing(segments_view(segments@)).unwrap(),
            ),
        },
        r matches Ok(plan) ==> strokes_decided(strategy, segments@, plan.shapes@),
{
    let ghost all = segments_view(segments@);
    let mut paths: Vec<Vec<PathCommand>> = Vec::new();
    let mut shapes: Vec<PlannedShape> = Vec::new();
    let mut diagnostics: Vec<Diagnostic> = Vec::new();
    let mut i: usize = 0;
    proof {
        assert(paths_view(paths@) == kept_paths(all.take(0)));
    }
    while i < segments.len()
        invariant
            i <= segments.len(),
            all == segments_view(segments@),
            first_missing(all.take(i as int)) is None,
            paths_view(paths@) == kept_paths(all.take(i as int)),
            diagnostics@ == diagnostics_of(all.take(i as int)),
            shapes.len() == kept_segments(all.take(i as int)).len(),
            forall|k: int|
                0 <= k < shapes.len() ==> shape_of(
                    #[trigger] shapes[k],
                    all,
                    kept_segments(all.take(i as int))[k],
                ),
            strokes_decided(strategy, segments@, shapes@),
        decreases segments.len() - i,
    {
        let segment = &segments[i];
        let ghost front = all.take(i as int);
        let ghost next = all.take(i + 1);
        proof {
            assert(next.drop_last() == front);
            assert(next.last() == segment@);
        }
        match tokenize_path(segment.traces.as_str()) {
            Err(_) => {
                diagnostics.push(Diagnostic::MalformedPathData { segment: i });
            },
            Ok(commands) => {
                match plan_shape(&segment.style, strategy) {
                    Err(e) => {
                        proof {
                            lemma_first_missing_prefix(all, i + 1);
                        }
                        return Err(e);
                    },
                    Ok(plan) => {
                        let (kept, skipped) = split_supported(&commands);
                        report_unsupported(&mut diagnostics, i, &skipped, Ghost(commands@));
                        let ghost before = paths_view(paths@);
                        let ghost shown = shapes@;
                        shapes.push(PlannedShape { segment: i, commands: kept, plan });
                        proof {
                            assert(paths_view(paths@.push(commands)) == before + seq![commands@]);
                            assert forall|k: int| 0 <= k < shapes.len() implies shape_of(
                                #[trigger] shapes[k],
                                all,
                                kept_segments(next)[k],
                            ) by {
                                if k < shown.len() {
                                    assert(shapes[k] == shown[k]);
                                }
                            }
                            assert forall|k: int| 0 <= k < shapes.len() implies match (
                            #[trigger] shapes[k]).plan.stroke {
                                Some(options) => shapes[k].segment < segments.len()
                                    && decides_options(
                                    strategy,
                                    &segments[shapes[k].segment as int].style,
                                    options,
                                ),
                                None => true,
                            } by {
                                if k < shown.len() {
                                    assert(shapes[k] == shown[k]);
                                }
                            }
                        }
                        paths.push(commands);
                    },
                }
            },
        }
        i += 1;
    }
    proof {
        assert(all.take(segments.len() as int) == all);
    }
    let extent = max_coords(&paths);
    Ok(DocumentPlan { extent, translation: centering_translation(extent), shapes, diagnostics })
}

/// A document as it is loaded: its segments, and the plan made for them.
#[derive(Debug)]
pub struct LoadedMap {
    pub segments: Vec<StyleSegment>,
    pub plan: DocumentPlan,
}

/// What `load_svg_map` returns for the rows of a document: an error where
/// the parser gave none or a kept segment lacks a required property, else the
/// segments of the document with their plan.
pub open spec fn loaded_from(r: Result<LoadedMap, SvgError>, rows: Option<crate::markup::Rows>) -> bool {
    match rows {
        None => r == Err::<LoadedMap, SvgError>(SvgError::DocumentReadError),
        Some(rows) => match r {
            Ok(loaded) => segments_view(loaded.segments@) == document_segments(rows) && plan_of(
                loaded.plan,
                document_segments(rows),
            ),
            Err(e) => first_missing(document_segments(rows)) is Some && e
                == SvgError::MissingStyleProperty(first_missing(document_segments(rows)).unwrap()),
        },
    }
}

/// Loads a document from its text: reads its shapes, then plans them with
/// `strategy` as `plan_svg_map` does.
///
/// Fails where the markup parser refuses the text, and where the style of a
/// kept segment lacks its stroke or its fill.
pub fn load_svg_map<S: StyleStrategy>(text: &str, strategy: &S) -> (r: Result<LoadedMap, SvgError>)
    ensures
        loaded_from(r, xml_attribute_rows(text@, shape_attributes())),
        r matches Ok(loaded) ==> strokes_decided(strategy, loaded.segments@, loaded.plan.shapes@),
{
    let segments = match tokenize_svg(text) {
        Ok(segments) => segments,
        Err(e) => {
            return Err(e);
        },
    };
    match plan_svg_map(&segments, strategy) {
        Ok(plan) => Ok(LoadedMap { segments, plan }),
        Err(e) => Err(e),
    }
}

} // verus!
