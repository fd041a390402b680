//! The data preview table of a loaded array subset.
use vstd::prelude::*;

use crate::text::{join_strings, join_with, push_text, string_from_chars, texts};

verus! {

/// Tabular preview of array values: column labels and row-major cells.
#[derive(Clone, Debug, Default)]
pub struct ArrayPreview {
    pub column_labels: Vec<String>,
    pub rows: Vec<Vec<String>>,
}

/// The lines of the preview text: a heading, the column labels, one line
/// per row (cells separated by tabs, each line indented by four spaces),
/// and an ellipsis line when eight rows or more are shown.
pub open spec fn preview_lines(labels: Seq<Seq<char>>, rows: Seq<Seq<Seq<char>>>) -> Seq<Seq<char>> {
    let head = seq!["Data preview (subset):"@, "    "@ + join_with(labels, "\t"@)];
    let body = Seq::new(rows.len(), |i: int| "    "@ + join_with(rows[i], "\t"@));
    let tail = if rows.len() >= 8 {
        seq!["    …"@]
    } else {
        Seq::empty()
    };
    head + body + tail
}

/// The rows of a preview as texts.
pub open spec fn row_texts(rows: Seq<Vec<String>>) -> Seq<Seq<Seq<char>>> {
    rows.map_values(|r: Vec<String>| texts(r@))
}

/// The preview as monospace text; `Preview: (empty)` without rows.
pub open spec fn spec_preview_table(p: ArrayPreview) -> Seq<char> {
    if p.rows@.len() == 0 {
        "Preview: (empty)"@
    } else {
        join_with(preview_lines(texts(p.column_labels@), row_texts(p.rows@)), "\n"@)
    }
}

fn indented(line: &str) -> (r: String)
    ensures
        r@ == "    "@ + line@,
{
    let mut buf: Vec<char> = Vec::new();
    push_text(&mut buf, "    ");
    push_text(&mut buf, line);
    string_from_chars(&buf)
}

/// Format a preview table as monospace text for the inspector.
pub fn format_preview_table(preview: &ArrayPreview) -> (r: String)
    ensures
        r@ == spec_preview_table(*preview),
{
    if preview.rows.len() == 0 {
        return String::from_str("Preview: (empty)");
    }
    let ghost labels = texts(preview.column_labels@);
    let ghost rows = row_texts(preview.rows@);
    let mut lines: Vec<String> = Vec::new();
    lines.push(String::from_str("Data preview (subset):"));
    let joined = join_strings(&preview.column_labels, "\t");
    lines.push(indented(joined.as_str()));
    let mut i: usize = 0;
    while i < preview.rows.len()
        invariant
            i <= preview.rows.len(),
            rows == row_texts(preview.rows@),
            texts(lines@) =~= seq!["Data preview (subset):"@, "    "@ + join_with(labels, "\t"@)]
                + Seq::new(i as nat, |k: int| "    "@ + join_with(rows[k], "\t"@)),
        decreases preview.rows.len() - i,
    {
        let row = join_strings(&preview.rows[i], "\t");
        let line = indented(row.as_str());
        let ghost before = lines@;
        lines.push(line);
        proof {
            assert(rows[i as int] == texts(preview.rows@[i as int]@));
            assert(texts(lines@) =~= texts(before).push(line@));
        }
        i = i + 1;
        assert(texts(lines@) =~= seq!["Data preview (subset):"@, "    "@ + join_with(labels, "\t"@)]
            + Seq::new(i as nat, |k: int| "    "@ + join_with(rows[k], "\t"@)));
    }
    if preview.rows.len() >= 8 {
        lines.push(String::from_str("    …"));
    }
    assert(texts(lines@) =~= preview_lines(labels, rows));
    join_strings(&lines, "\n")
}

} // verus!
