//! The call into the `roxmltree` parser: a document is handed over as one
//! row of attribute values per node. The contract is taken on trust.

use vstd::prelude::*;

verus! {

/// One row per node of a document: the value of each asked attribute, or
/// `None` where the node does not carry it.
pub type Rows = Seq<Seq<Option<Seq<char>>>>;

/// The rows that `roxmltree` gives for a document and a list of attribute
/// names: `roxmltree::Document::parse` reads the text, `descendants` walks
/// its nodes in document order, and `roxmltree::Node::attribute` is asked for
/// each name in turn. `None` where the parser reports an error.
pub uninterp spec fn xml_attribute_rows(text: Seq<char>, names: Seq<Seq<char>>) -> Option<Rows>;

/// The names held in a vector of string slices.
pub open spec fn names_view(names: Seq<&str>) -> Seq<Seq<char>> {
    names.map_values(|name: &str| name@)
}

/// One cell of a row.
pub open spec fn cell_view(cell: Option<String>) -> Option<Seq<char>> {
    match cell {
        Some(value) => Some(value@),
        None => None,
    }
}

/// The rows held in a vector of vectors.
pub open spec fn rows_view(rows: Seq<Vec<Option<String>>>) -> Rows {
    rows.map_values(
        |row: Vec<Option<String>>| row@.map_values(|cell: Option<String>| cell_view(cell)),
    )
}

/// Calls `roxmltree::Document::parse`, walks the nodes with `descendants`
/// and asks each node for the named attributes with
/// `roxmltree::Node::attribute`. Every row has one cell per name.
#[verifier::external_body]
pub(crate) fn attribute_rows(text: &str, names: &Vec<&str>) -> (r: Option<Vec<Vec<Option<String>>>>)
    ensures
        match r {
            Some(rows) => xml_attribute_rows(text@, names_view(names@)) == Some(rows_view(rows@))
                && forall|i: int| 0 <= i < rows.len() ==> (#[trigger] rows[i]).len() == names.len(),
            None => xml_attribute_rows(text@, names_view(names@)) is None,
        },
{
    let doc = roxmltree::Document::parse(text).ok()?;
    Some(
        doc.descendants().map(
            |node| names.iter().map(|name| node.attribute(*name).map(String::from)).collect(),
        ).collect(),
    )
}

} // verus!
