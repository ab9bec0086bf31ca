//! From a document to its shapes: every node that carries both a style and
//! path data, in document order.

use crate::error::SvgError;
use crate::markup::{attribute_rows, cell_view, names_view, rows_view, xml_attribute_rows, Rows};
use crate::style::{style_map, SvgStyle};
use vstd::prelude::*;
use vstd::std_specs::convert::FromSpecImpl;

verus! {

/// The attributes read from every node, in the order of the cells of a row.
pub open spec fn shape_attributes() -> Seq<Seq<char>> {
    seq!["style"@, "d"@, "id"@, "class"@]
}

/// Whether a row is that of a shape: it carries a style and path data.
pub open spec fn is_shape(row: Seq<Option<Seq<char>>>) -> bool {
    row.len() == 4 && row[0] is Some && row[1] is Some
}

/// The rows of the shapes among `rows`, in the same order.
pub open spec fn shapes_of(rows: Rows) -> Rows {
    rows.filter(|row: Seq<Option<Seq<char>>>| is_shape(row))
}

/// The attributes of one shape, borrowed from the rows of the document.
#[derive(Clone, Copy, Debug)]
pub struct ShapeLine<'a> {
    pub style: &'a str,
    pub data: &'a str,
    pub id: Option<&'a str>,
    pub class: Option<&'a str>,
}

/// One cell of a row, borrowed.
pub open spec fn borrowed_view(cell: Option<&str>) -> Option<Seq<char>> {
    match cell {
        Some(value) => Some(value@),
        None => None,
    }
}

impl<'a> ShapeLine<'a> {
    /// The row that the shape was read from.
    pub open spec fn row(self) -> Seq<Option<Seq<char>>> {
        seq![
            Some(self.style@),
            Some(self.data@),
            borrowed_view(self.id),
            borrowed_view(self.class),
        ]
    }
}

/// The rows that a vector of shapes was read from.
pub open spec fn lines_view(lines: Seq<ShapeLine>) -> Rows {
    lines.map_values(|line: ShapeLine| line.row())
}

/// A style together with the path data that it applies to, as written in the
/// document.
#[derive(Debug)]
pub struct StyleSegment {
    pub style: SvgStyle,
    pub traces: String,
}

/// What a segment says: the properties of its style, its path data as
/// written, and the `id` and `class` of its node.
pub struct SegmentModel {
    pub style: Map<Seq<char>, Seq<char>>,
    pub traces: Seq<char>,
    pub id: Option<Seq<char>>,
    pub class: Option<Seq<char>>,
}

impl View for StyleSegment {
    type V = SegmentModel;

    open spec fn view(&self) -> SegmentModel {
        SegmentModel {
            style: self.style@,
            traces: self.traces@,
            id: self.style.id_view(),
            class: self.style.class_view(),
        }
    }
}

/// What the row of a shape says.
pub open spec fn segment_of(row: Seq<Option<Seq<char>>>) -> SegmentModel
    recommends
        is_shape(row),
{
    SegmentModel {
        style: style_map(row[0].unwrap()),
        traces: row[1].unwrap(),
        id: row[2],
        class: row[3],
    }
}

/// The segments of a document: one for each of its shapes, in document
/// order.
pub open spec fn document_segments(rows: Rows) -> Seq<SegmentModel> {
    shapes_of(rows).map_values(|row: Seq<Option<Seq<char>>>| segment_of(row))
}

/// What each segment of a vector says.
pub open spec fn segments_view(segments: Seq<StyleSegment>) -> Seq<SegmentModel> {
    segments.map_values(|segment: StyleSegment| segment@)
}

impl From<(&str, &str)> for StyleSegment {
    /// Reads a style and keeps the path data beside it, for a node without
    /// `id` and `class`.
    fn from(tup: (&str, &str)) -> (segment: StyleSegment)
        ensures
            segment@ == (SegmentModel {
                style: style_map(tup.0@),
                traces: tup.1@,
                id: None,
                class: None,
            }),
    {
        let style = SvgStyle::parse(tup.0);
        let traces = tup.1.to_owned();
        StyleSegment { style, traces }
    }
}

impl FromSpecImpl<(&str, &str)> for StyleSegment {
    open spec fn obeys_from_spec() -> bool {
        false
    }

    open spec fn from_spec(tup: (&str, &str)) -> StyleSegment {
        arbitrary()
    }
}

impl StyleSegment {
    /// Reads the style of a shape and keeps its path data as written.
    pub fn from_line(line: ShapeLine) -> (segment: StyleSegment)
        ensures
            segment@ == segment_of(line.row()),
    {
        let id = match line.id {
            Some(id) => Some(id.to_owned()),
            None => None,
        };
        let class = match line.class {
            Some(class) => Some(class.to_owned()),
            None => None,
        };
        let style = SvgStyle::parse(line.style).with_identity(id, class);
        StyleSegment { style, traces: line.data.to_owned() }
    }
}

/// One cell of a row, borrowed.
fn borrow_cell(cell: &Option<String>) -> (r: Option<&str>)
    ensures
        borrowed_view(r) == cell_view(*cell),
{
    match cell {
        Some(value) => Some(value.as_str()),
        None => None,
    }
}

/// Keeps the rows that carry both a style and path data, in document order.
/// A node without path data, or without a style, gives no shape.
pub fn take_lines_with_style<'a>(rows: &'a Vec<Vec<Option<String>>>) -> (lines: Vec<ShapeLine<'a>>)
    ensures
        lines_view(lines@) == shapes_of(rows_view(rows@)),
{
    let ghost all = rows_view(rows@);
    let mut lines: Vec<ShapeLine<'a>> = Vec::new();
    let mut i: usize = 0;
    proof {
        reveal(Seq::filter);
    }
    while i < rows.len()
        invariant
            i <= rows.len(),
            all == rows_view(rows@),
            lines_view(lines@) == shapes_of(all.take(i as int)),
        decreases rows.len() - i,
    {
        let row = &rows[i];
        let ghost before = lines_view(lines@);
        proof {
            reveal(Seq::filter);
            assert(all.take(i + 1).drop_last() == all.take(i as int));
            assert(all.take(i + 1).last() == all[i as int]);
        }
        if row.len() == 4 {
            match (&row[0], &row[1]) {
                (Some(style), Some(data)) => {
                    let line = ShapeLine {
                        style: style.as_str(),
                        data: data.as_str(),
                        id: borrow_cell(&row[2]),
                        class: borrow_cell(&row[3]),
                    };
                    proof {
                        assert(line.row() == all[i as int]);
                        assert(lines_view(lines@.push(line)) == before.push(line.row()));
                    }
                    lines.push(line);
                },
                _ => {},
            }
        }
        i += 1;
    }
    proof {
        assert(all.take(rows.len() as int) == all);
    }
    lines
}

/// Builds one segment per shape.
pub fn segments_from_lines(lines: &Vec<ShapeLine>) -> (segments: Vec<StyleSegment>)
    ensures
        segments_view(segments@) == lines_view(lines@).map_values(
            |row: Seq<Option<Seq<char>>>| segment_of(row),
        ),
{
    let ghost wanted = lines_view(lines@).map_values(
        |row: Seq<Option<Seq<char>>>| segment_of(row),
    );
    let mut segments: Vec<StyleSegment> = Vec::new();
    let mut i: usize = 0;
    while i < lines.len()
        invariant
            i <= lines.len(),
            wanted == lines_view(lines@).map_values(
                |row: Seq<Option<Seq<char>>>| segment_of(row),
            ),
            segments_view(segments@) == wanted.take(i as int),
        decreases lines.len() - i,
    {
        let segment = StyleSegment::from_line(lines[i]);
        proof {
            assert(segments_view(segments@.push(segment)) == segments_view(segments@).push(
                segment@,
            ));
            assert(wanted.take(i + 1) == wanted.take(i as int).push(wanted[i as int]));
        }
        segments.push(segment);
        i += 1;
    }
    proof {
        assert(wanted.take(lines.len() as int) == wanted);
    }
    segments
}

/// Reads the text of a document into its shapes: one segment for every node
/// that carries both a style and path data, in document order.
///
/// Fails where the markup parser refuses the text.
pub fn tokenize_svg(text: &str) -> (r: Result<Vec<StyleSegment>, SvgError>)
    ensures
        match r {
            Ok(segments) => match xml_attribute_rows(text@, shape_attributes()) {
                Some(rows) => segments_view(segments@) == document_segments(rows),
                None => false,
            },
            Err(e) => e == SvgError::DocumentReadError && xml_attribute_rows(
                text@,
                shape_attributes(),
            ) is None,
        },
{
    let names: Vec<&str> = vec!["style", "d", "id", "class"];
    proof {
        assert(names_view(names@) == shape_attributes());
    }
    match attribute_rows(text, &names) {
        None => Err(SvgError::DocumentReadError),
        Some(rows) => {
            let lines = take_lines_with_style(&rows);
            Ok(segments_from_lines(&lines))
        },
    }
}

} // verus!
