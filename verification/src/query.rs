//! The projection query that a partition scan runs.

use crate::tables::OracleColumn;
use vstd::prelude::*;

verus! {

/// Whether a column is of the structured XML type, which cannot be fetched
/// as it stands and is projected through a value-extraction call.
pub open spec fn is_xml_column(column: OracleColumn) -> bool {
    column.data_type@ == "XMLTYPE"@
}

/// The select-list item of one column: the column of the table alias `t`,
/// unwrapped to a character value where the column is XML, under the
/// column's own name.
pub open spec fn projection_item(column: OracleColumn) -> Seq<char> {
    " t.\""@ + column.name@ + "\""@ + (if is_xml_column(column) {
        ".getClobVal()"@
    } else {
        Seq::<char>::empty()
    }) + " as \""@ + column.name@ + "\""@
}

/// The select list: the items of all columns in their declared order,
/// separated by a comma and a space.
pub open spec fn projection_list(columns: Seq<OracleColumn>) -> Seq<char>
    decreases columns.len(),
{
    if columns.len() == 0 {
        Seq::<char>::empty()
    } else if columns.len() == 1 {
        projection_item(columns[0])
    } else {
        projection_list(columns.drop_last()) + ", "@ + projection_item(columns.last())
    }
}

/// The text of the query of one partition. Its two bind positions take the
/// partition's first id and the id just past its last.
pub open spec fn partition_query_text(columns: Seq<OracleColumn>) -> Seq<char> {
    "select "@ + projection_list(columns) + " from test1 t where id >= :1 and id < :2"@
}

/// Tells whether the column is of the XML type.
pub fn is_xml(column: &OracleColumn) -> (xml: bool)
    ensures
        xml == is_xml_column(*column),
{
    column.data_type == "XMLTYPE".to_owned()
}

/// Appends the select-list item of `column` to `text`.
fn push_projection_item(text: &mut String, column: &OracleColumn)
    ensures
        final(text)@ == old(text)@ + projection_item(*column),
{
    text.append(" t.\"");
    text.append(column.name.as_str());
    text.append("\"");
    if is_xml(column) {
        text.append(".getClobVal()");
    }
    text.append(" as \"");
    text.append(column.name.as_str());
    text.append("\"");
}

/// Builds the query that selects every column, in the order given, from the
/// rows whose id lies in a half-open range given by two bind values.
///
/// A table without columns has no such query.
pub fn partition_query(columns: &Vec<OracleColumn>) -> (query: Option<String>)
    ensures
        columns.len() == 0 ==> query is None,
        columns.len() > 0 ==> query is Some && query.unwrap()@ == partition_query_text(columns@),
{
    if columns.len() == 0 {
        return None;
    }
    let mut text = "select ".to_owned();
    let mut i: usize = 0;
    while i < columns.len()
        invariant
            i <= columns.len(),
            text@ == "select "@ + projection_list(columns@.take(i as int)),
        decreases columns.len() - i,
    {
        proof {
            assert(columns@.take(i + 1).drop_last() =~= columns@.take(i as int));
        }
        if i > 0 {
            text.append(", ");
        }
        push_projection_item(&mut text, &columns[i]);
        i = i + 1;
    }
    proof {
        assert(columns@.take(columns.len() as int) =~= columns@);
    }
    text.append(" from test1 t where id >= :1 and id < :2");
    Some(text)
}

} // verus!
