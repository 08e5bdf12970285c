//! The report: a table of fixed-width columns, one row for each process.

use crate::error::Error;
use crate::fields::{Field, FieldKind};
use crate::format::{
    abbreviation, abbreviation_options, align_left, align_right, left_aligned, push_spaces,
    right_aligned, spaces, COLUMN_WIDTH,
};
use crate::options::Options;
use crate::order::{keys_of, order_of, sort_column, sort_order};
use crate::stats::{size_cell, ProcessDetails, ProcessSizes, SizesView};
use humansize::file_size_opts::FileSizeOpts;
use vstd::prelude::*;
use vstd::string::StringExecFns;

verus! {

/// The columns of a report for which none are named: all seven.
pub open spec fn default_fields() -> Seq<Field> {
    seq![
        Field::Pid,
        Field::User,
        Field::Pss,
        Field::Rss,
        Field::Uss,
        Field::Swap,
        Field::Cmdline,
    ]
}

/// The columns of a report: those that are named, in the order in which
/// they are named, or all seven where none is.
pub open spec fn active_fields(fields: Seq<Field>) -> Seq<Field> {
    if fields.len() == 0 {
        default_fields()
    } else {
        fields
    }
}

/// How the cells of a report are written.
pub struct Layout {
    /// Owners are shown by number.
    pub numeric: bool,
    /// Sizes are shown with a unit.
    pub abbreviate: bool,
    /// How sizes are shown with a unit.
    pub size_opts: FileSizeOpts,
}

/// The layout that the options ask for.
pub open spec fn layout_of(options: Options) -> Layout {
    Layout { numeric: options.numeric, abbreviate: options.abbreviate, size_opts: abbreviation() }
}

/// A line of the table.
pub enum Line {
    /// The line of headings.
    Heading,
    /// The line of a process.
    Row(ProcessDetails),
    /// The line of totals.
    Totals(SizesView),
}

/// The cell of a line in a column. A heading stands at the left edge above
/// texts and at the right edge above numbers. The line of totals is blank
/// but in the columns of sizes.
pub open spec fn cell_of(line: Line, field: Field, layout: Layout) -> Seq<char> {
    match line {
        Line::Heading => if field.kind_when(layout.numeric) == FieldKind::Text {
            left_aligned(field.heading(), COLUMN_WIDTH as nat)
        } else {
            right_aligned(field.heading(), COLUMN_WIDTH as nat)
        },
        Line::Row(row) => row.cell(field, layout.numeric, layout.abbreviate, layout.size_opts),
        Line::Totals(totals) => if field.kind_when(layout.numeric) == FieldKind::Size {
            size_cell(totals.of(field), layout.abbreviate, layout.size_opts)
        } else {
            spaces(COLUMN_WIDTH as nat)
        },
    }
}

/// The cells of a line in the given columns, a space after each.
pub open spec fn cells_text(line: Line, fields: Seq<Field>, layout: Layout) -> Seq<char>
    decreases fields.len(),
{
    if fields.len() == 0 {
        Seq::empty()
    } else {
        cells_text(line, fields.drop_last(), layout) + cell_of(line, fields.last(), layout)
            + seq![' ']
    }
}

/// A line of the table as text: its cells and a line feed.
pub open spec fn line_text(line: Line, fields: Seq<Field>, layout: Layout) -> Seq<char> {
    cells_text(line, fields, layout) + seq!['\n']
}

/// The lines of the processes, in the order given.
pub open spec fn rows_text(
    rows: Seq<ProcessDetails>,
    order: Seq<usize>,
    fields: Seq<Field>,
    layout: Layout,
) -> Seq<char>
    decreases order.len(),
{
    if order.len() == 0 {
        Seq::empty()
    } else {
        rows_text(rows, order.drop_last(), fields, layout) + line_text(
            Line::Row(rows[order.last() as int]),
            fields,
            layout,
        )
    }
}

/// The sizes of all rows, summed up size by size: four sizes of nothing for
/// no rows.
pub open spec fn sum_of(rows: Seq<ProcessDetails>) -> SizesView
    decreases rows.len(),
{
    if rows.len() == 0 {
        SizesView::zero()
    } else {
        sum_of(rows.drop_last()).plus(rows.last().sizes@)
    }
}

/// The line that parts the totals from the processes: 80 dashes.
pub open spec fn separator() -> Seq<char> {
    Seq::new(80, |i: int| '-') + seq!['\n']
}

/// The whole table: the headings unless they are switched off, the
/// processes in the order given, and the totals where they are asked for,
/// after a line of dashes.
pub open spec fn table_text(rows: Seq<ProcessDetails>, order: Seq<usize>, options: Options) -> Seq<
    char,
> {
    let fields = active_fields(options.fields@);
    let layout = layout_of(options);
    let head = if options.no_header {
        Seq::empty()
    } else {
        line_text(Line::Heading, fields, layout)
    };
    let foot = if options.totals {
        separator() + line_text(Line::Totals(sum_of(rows)), fields, layout)
    } else {
        Seq::empty()
    };
    head + rows_text(rows, order, fields, layout) + foot
}

/// The sum of no more rows is no larger.
pub proof fn lemma_sum_grows(rows: Seq<ProcessDetails>, n: int)
    requires
        0 <= n <= rows.len(),
    ensures
        sum_of(rows.take(n)).rss <= sum_of(rows).rss,
        sum_of(rows.take(n)).pss <= sum_of(rows).pss,
        sum_of(rows.take(n)).uss <= sum_of(rows).uss,
        sum_of(rows.take(n)).swap <= sum_of(rows).swap,
    decreases rows.len(),
{
    if n == rows.len() {
        assert(rows.take(n) =~= rows);
    } else {
        assert(rows.drop_last().take(n) =~= rows.take(n));
        lemma_sum_grows(rows.drop_last(), n);
    }
}

/// The totals of the rows: each of the four sizes summed up over all rows,
/// where all four sums fit a machine word.
pub fn total_sizes(rows: &Vec<ProcessDetails>) -> (r: Option<ProcessSizes>)
    ensures
        match r {
            Some(totals) => totals@ == sum_of(rows@),
            None => !sum_of(rows@).fits(),
        },
        rows@.len() == 0 ==> r is Some && r->Some_0@ == SizesView::zero(),
{
    let mut totals = ProcessSizes::default();
    let mut i: usize = 0;
    while i < rows.len()
        invariant
            i <= rows@.len(),
            totals@ == sum_of(rows@.take(i as int)),
        decreases rows@.len() - i,
    {
        proof {
            assert(rows@.take(i + 1).drop_last() =~= rows@.take(i as int));
            lemma_sum_grows(rows@, i + 1);
        }
        match totals.checked_add(&rows[i].sizes) {
            Some(sum) => {
                totals = sum;
            },
            None => {
                return None;
            },
        }
        i = i + 1;
    }
    assert(rows@.take(i as int) =~= rows@);
    Some(totals)
}

fn push_cell(out: &mut String, cell: String)
    ensures
        final(out)@ == old(out)@ + cell@ + seq![' '],
{
    out.append(cell.as_str());
    out.push(' ');
}

fn push_heading(out: &mut String, fields: &Vec<Field>, options: &Options)
    ensures
        final(out)@ == old(out)@ + line_text(Line::Heading, fields@, layout_of(*options)),
{
    let ghost layout = layout_of(*options);
    let mut k: usize = 0;
    while k < fields.len()
        invariant
            k <= fields@.len(),
            layout == layout_of(*options),
            out@ == old(out)@ + cells_text(Line::Heading, fields@.take(k as int), layout),
        decreases fields@.len() - k,
    {
        let field = fields[k];
        let cell = match field.kind(options) {
            FieldKind::Text => align_left(field.name(), COLUMN_WIDTH),
            _ => align_right(field.name(), COLUMN_WIDTH),
        };
        proof {
            assert(fields@.take(k + 1).drop_last() =~= fields@.take(k as int));
        }
        push_cell(out, cell);
        k = k + 1;
    }
    assert(fields@.take(k as int) =~= fields@);
    out.push('\n');
}

fn push_row(
    out: &mut String,
    row: &ProcessDetails,
    fields: &Vec<Field>,
    options: &Options,
    size_opts: &FileSizeOpts,
)
    requires
        *size_opts == abbreviation(),
    ensures
        final(out)@ == old(out)@ + line_text(Line::Row(*row), fields@, layout_of(*options)),
{
    let ghost layout = layout_of(*options);
    let mut k: usize = 0;
    while k < fields.len()
        invariant
            k <= fields@.len(),
            layout == layout_of(*options),
            *size_opts == abbreviation(),
            out@ == old(out)@ + cells_text(Line::Row(*row), fields@.take(k as int), layout),
        decreases fields@.len() - k,
    {
        let cell = row.format_field(fields[k], options, size_opts);
        proof {
            assert(fields@.take(k + 1).drop_last() =~= fields@.take(k as int));
        }
        push_cell(out, cell);
        k = k + 1;
    }
    assert(fields@.take(k as int) =~= fields@);
    out.push('\n');
}

fn push_totals(
    out: &mut String,
    totals: &ProcessSizes,
    fields: &Vec<Field>,
    options: &Options,
    size_opts: &FileSizeOpts,
)
    requires
        *size_opts == abbreviation(),
    ensures
        final(out)@ == old(out)@ + line_text(Line::Totals(totals@), fields@, layout_of(*options)),
{
    let ghost layout = layout_of(*options);
    let mut k: usize = 0;
    while k < fields.len()
        invariant
            k <= fields@.len(),
            layout == layout_of(*options),
            *size_opts == abbreviation(),
            out@ == old(out)@ + cells_text(Line::Totals(totals@), fields@.take(k as int), layout),
        decreases fields@.len() - k,
    {
        let field = fields[k];
        let cell = match field.kind(options) {
            FieldKind::Size => totals.format_field(field, options, size_opts),
            _ => {
                let mut blank = String::new();
                push_spaces(&mut blank, COLUMN_WIDTH);
                assert(blank@ =~= spaces(COLUMN_WIDTH as nat));
                blank
            },
        };
        proof {
            assert(fields@.take(k + 1).drop_last() =~= fields@.take(k as int));
        }
        push_cell(out, cell);
        k = k + 1;
    }
    assert(fields@.take(k as int) =~= fields@);
    out.push('\n');
}

fn push_separator(out: &mut String)
    ensures
        final(out)@ == old(out)@ + separator(),
{
    let mut i: usize = 0;
    while i < 80
        invariant
            i <= 80,
            out@ == old(out)@ + Seq::new(i as nat, |k: int| '-'),
        decreases 80 - i,
    {
        out.push('-');
        i = i + 1;
        assert(out@ =~= old(out)@ + Seq::new(i as nat, |k: int| '-'));
    }
    out.push('\n');
    assert(out@ =~= old(out)@ + separator());
}

/// Writes the table of the processes, row after row in the order given.
/// There is no table where the totals do not fit a machine word.
pub fn print_processes(
    process_details: &Vec<ProcessDetails>,
    order: &Vec<usize>,
    options: &Options,
) -> (r: Result<String, Error>)
    requires
        forall|i: int| 0 <= i < order@.len() ==> (#[trigger] order@[i]) < process_details@.len(),
    ensures
        sum_of(process_details@).fits() ==> r is Ok && r->Ok_0@ == table_text(
            process_details@,
            order@,
            *options,
        ),
        !sum_of(process_details@).fits() ==> (r matches Err(Error::Processing(text)) && text@
            == "The total of the sizes is too large"@),
{
    let totals = match total_sizes(process_details) {
        Some(totals) => totals,
        None => {
            return Err(Error::Processing("The total of the sizes is too large".to_owned()));
        },
    };
    proof {
        totals.lemma_fits();
    }
    let all_fields = vec![
        Field::Pid,
        Field::User,
        Field::Pss,
        Field::Rss,
        Field::Uss,
        Field::Swap,
        Field::Cmdline,
    ];
    assert(all_fields@ =~= default_fields());
    let shown = if options.fields.len() == 0 {
        &all_fields
    } else {
        &options.fields
    };
    let ghost fields = active_fields(options.fields@);
    let ghost layout = layout_of(*options);
    let size_opts = abbreviation_options();
    let mut out = String::new();
    if !options.no_header {
        push_heading(&mut out, shown, options);
    }
    let ghost head = out@;
    let mut i: usize = 0;
    while i < order.len()
        invariant
            i <= order@.len(),
            forall|i: int|
                0 <= i < order@.len() ==> (#[trigger] order@[i]) < process_details@.len(),
            shown@ == fields,
            layout == layout_of(*options),
            size_opts == abbreviation(),
            out@ == head + rows_text(process_details@, order@.take(i as int), fields, layout),
        decreases order@.len() - i,
    {
        proof {
            assert(order@.take(i + 1).drop_last() =~= order@.take(i as int));
        }
        push_row(&mut out, &process_details[order[i]], shown, options, &size_opts);
        i = i + 1;
    }
    assert(order@.take(i as int) =~= order@);
    if options.totals {
        push_separator(&mut out);
        push_totals(&mut out, &totals, shown, options, &size_opts);
    }
    assert(out@ =~= table_text(process_details@, order@, *options));
    Ok(out)
}

/// The report on the given processes: the table of them in the order that
/// the options ask for.
pub fn report(process_details: &Vec<ProcessDetails>, options: &Options) -> (r: Result<
    String,
    Error,
>)
    ensures
        sum_of(process_details@).fits() ==> r is Ok && r->Ok_0@ == table_text(
            process_details@,
            order_of(
                keys_of(process_details@, sort_column(options.sort_field), options.numeric),
                options.reverse,
            ),
            *options,
        ),
        !sum_of(process_details@).fits() ==> (r matches Err(Error::Processing(text)) && text@
            == "The total of the sizes is too large"@),
{
    let order = sort_order(process_details, options);
    print_processes(process_details, &order, options)
}

} // verus!
