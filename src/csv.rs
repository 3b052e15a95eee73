//! The text of a design as comma-separated values, with a header line that
//! names a template column and a value column for each parameter.
use crate::space::{Parameter, SampleSpace};
use vstd::prelude::*;

verus! {

/// For each parameter, `,<name>_Template,<name>`.
pub open spec fn header_fields(ps: Seq<Parameter>) -> Seq<char>
    decreases ps.len(),
{
    if ps.len() == 0 {
        Seq::empty()
    } else {
        header_fields(ps.drop_last()) + ","@ + ps.last().name@ + "_Template,"@ + ps.last().name@
    }
}

/// The header line: `CaseName` and the fields of every parameter.
pub open spec fn header_line(ps: Seq<Parameter>) -> Seq<char> {
    "CaseName"@ + header_fields(ps) + "\n"@
}

/// For each parameter and its value, `,{{{<name>}}},<value>`.
pub open spec fn row_fields(ps: Seq<Parameter>, values: Seq<String>) -> Seq<char>
    decreases ps.len(),
{
    if ps.len() == 0 {
        Seq::empty()
    } else {
        row_fields(ps.drop_last(), values) + ",{{{"@ + ps.last().name@ + "}}},"@
            + values[ps.len() - 1]@
    }
}

/// The line of one sample: its fields, then a closing comma and a newline.
pub open spec fn row_line(ps: Seq<Parameter>, values: Seq<String>) -> Seq<char> {
    row_fields(ps, values) + ",\n"@
}

/// The lines of the samples, one after another.
pub open spec fn row_lines(ps: Seq<Parameter>, rows: Seq<Vec<String>>) -> Seq<char>
    decreases rows.len(),
{
    if rows.len() == 0 {
        Seq::empty()
    } else {
        row_lines(ps, rows.drop_last()) + row_line(ps, rows.last()@)
    }
}

/// The header line of a space's table.
pub fn csv_header(space: &SampleSpace) -> (header: String)
    ensures
        header@ == header_line(space.parameters@),
{
    let ps = &space.parameters;
    let mut fields = String::new();
    let mut i: usize = 0;
    while i < ps.len()
        invariant
            i <= ps@.len(),
            fields@ == header_fields(ps@.subrange(0, i as int)),
        decreases ps@.len() - i,
    {
        let name = ps[i].name.as_str();
        fields.append(",");
        fields.append(name);
        fields.append("_Template,");
        fields.append(name);
        assert(ps@.subrange(0, i + 1).drop_last() =~= ps@.subrange(0, i as int));
        i = i + 1;
    }
    assert(ps@.subrange(0, ps@.len() as int) =~= ps@);
    let mut header = String::from_str("CaseName");
    header.append(fields.as_str());
    header.append("\n");
    header
}

/// The line of one sample, given the text of its value for each parameter.
pub fn csv_row(space: &SampleSpace, values: &Vec<String>) -> (line: String)
    requires
        values@.len() == space.parameters@.len(),
    ensures
        line@ == row_line(space.parameters@, values@),
{
    let ps = &space.parameters;
    let mut line = String::new();
    let mut i: usize = 0;
    while i < ps.len()
        invariant
            values@.len() == ps@.len(),
            i <= ps@.len(),
            line@ == row_fields(ps@.subrange(0, i as int), values@),
        decreases ps@.len() - i,
    {
        line.append(",{{{");
        line.append(ps[i].name.as_str());
        line.append("}}},");
        line.append(values[i].as_str());
        assert(ps@.subrange(0, i + 1).drop_last() =~= ps@.subrange(0, i as int));
        i = i + 1;
    }
    assert(ps@.subrange(0, ps@.len() as int) =~= ps@);
    line.append(",\n");
    line
}

/// The whole table: the header line, then one line per sample, given the
/// text of each value, row by row.
pub fn csv_contents(space: &SampleSpace, rows: &Vec<Vec<String>>) -> (contents: String)
    requires
        forall|i: int|
            0 <= i < rows@.len() ==> (#[trigger] rows@[i])@.len() == space.parameters@.len(),
    ensures
        contents@ == header_line(space.parameters@) + row_lines(space.parameters@, rows@),
{
    let mut contents = csv_header(space);
    let ghost header = contents@;
    let mut i: usize = 0;
    while i < rows.len()
        invariant
            forall|k: int|
                0 <= k < rows@.len() ==> (#[trigger] rows@[k])@.len() == space.parameters@.len(),
            header == header_line(space.parameters@),
            i <= rows@.len(),
            contents@ == header + row_lines(space.parameters@, rows@.subrange(0, i as int)),
        decreases rows@.len() - i,
    {
        let line = csv_row(space, &rows[i]);
        contents.append(line.as_str());
        assert(rows@.subrange(0, i + 1).drop_last() =~= rows@.subrange(0, i as int));
        assert(header + row_lines(space.parameters@, rows@.subrange(0, i + 1)) =~= header
            + row_lines(space.parameters@, rows@.subrange(0, i as int)) + line@);
        i = i + 1;
    }
    assert(rows@.subrange(0, rows@.len() as int) =~= rows@);
    contents
}

} // verus!
