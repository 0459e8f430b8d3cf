//! Tables of HTML from rows of texts.

use vstd::prelude::*;
use vstd::string::StringExecFns;

use crate::text::texts_of;

verus! {

/// The cells of each row, in the same order.
pub open spec fn row_views(rows: Seq<Vec<String>>) -> Seq<Seq<Seq<char>>> {
    Seq::new(rows.len(), |i: int| texts_of(rows[i]@))
}

/// One `td` element for each cell, one after another.
pub open spec fn td_tags_of(cells: Seq<Seq<char>>) -> Seq<char>
    decreases cells.len(),
{
    if cells.len() == 0 {
        Seq::<char>::empty()
    } else {
        td_tags_of(cells.drop_last()) + "<td>"@ + cells.last() + "</td>"@
    }
}

/// One `tr` element for each row, each with a line feed after it.
pub open spec fn tr_tags_of(rows: Seq<Seq<Seq<char>>>) -> Seq<char>
    decreases rows.len(),
{
    if rows.len() == 0 {
        Seq::<char>::empty()
    } else {
        tr_tags_of(rows.drop_last()) + "<tr>"@ + td_tags_of(rows.last()) + "</tr>\n"@
    }
}

/// The `table` element around the rows.
pub open spec fn table_tag_of(rows: Seq<Seq<Seq<char>>>) -> Seq<char> {
    "<table>\n"@ + tr_tags_of(rows) + "</table>\n"@
}

/// Renders texts as `td` elements. The texts are put in as they are.
pub fn html_table_td_tags(cells: &Vec<String>) -> (tags: String)
    ensures
        tags@ == td_tags_of(texts_of(cells@)),
{
    let mut tags = String::new();
    let mut i: usize = 0;
    while i < cells.len()
        invariant
            i <= cells.len(),
            tags@ == td_tags_of(texts_of(cells@).take(i as int)),
        decreases cells.len() - i,
    {
        tags.append("<td>");
        tags.append(cells[i].as_str());
        tags.append("</td>");
        proof {
            let done = texts_of(cells@).take(i + 1);
            assert(done.drop_last() =~= texts_of(cells@).take(i as int));
            assert(done.last() == cells@[i as int]@);
        }
        i += 1;
    }
    assert(texts_of(cells@).take(i as int) =~= texts_of(cells@));
    tags
}

/// Renders rows of texts as `tr` elements.
pub fn html_table_tr_tags(rows: Vec<Vec<String>>) -> (tags: String)
    ensures
        tags@ == tr_tags_of(row_views(rows@)),
{
    let mut tags = String::new();
    let mut i: usize = 0;
    while i < rows.len()
        invariant
            i <= rows.len(),
            tags@ == tr_tags_of(row_views(rows@).take(i as int)),
        decreases rows.len() - i,
    {
        tags.append("<tr>");
        tags.append(html_table_td_tags(&rows[i]).as_str());
        tags.append("</tr>\n");
        proof {
            let done = row_views(rows@).take(i + 1);
            assert(done.drop_last() =~= row_views(rows@).take(i as int));
            assert(done.last() == texts_of(rows@[i as int]@));
        }
        i += 1;
    }
    assert(row_views(rows@).take(i as int) =~= row_views(rows@));
    tags
}

/// Renders rows of texts as a `table` element.
pub fn html_table_tag(table: Vec<Vec<String>>) -> (tag: String)
    ensures
        tag@ == table_tag_of(row_views(table@)),
{
    let mut tag = "<table>\n".to_owned();
    tag.append(html_table_tr_tags(table).as_str());
    tag.append("</table>\n");
    tag
}

} // verus!
