//! The report as an aligned table: column widths, header and row lines.
//!
//! A line is a list of cells that are already padded to their column's
//! width, together with the colour it is meant to be shown in. Putting the
//! colour on and writing the line out is left to the caller.

use vstd::prelude::*;
use vstd::utf8::encode_utf8;

use crate::drift::{classified, classify, group_views, GroupView, ProjectGroup};
use crate::row::{row_views, EnvironmentRow, RowView};
use crate::text::{pad, padded, string_views};

verus! {

/// The five columns of the table, from left to right.
#[derive(Clone, Copy)]
pub enum Column {
    Project,
    Environment,
    Deployment,
    Commit,
    Updated,
}

/// The width of each column, in characters.
#[derive(Clone, Copy)]
pub struct ColumnWidths {
    pub project: usize,
    pub environment: usize,
    pub deployment: usize,
    pub commit: usize,
    pub updated: usize,
}

/// The colour a line is meant to be shown in.
#[derive(Clone, Copy, PartialEq, Eq, Structural)]
pub enum Tint {
    /// No colour: the header and notices.
    Plain,
    /// The rows of a consistent group.
    Green,
    /// The rows of a drifted group.
    Red,
}

/// One line of output.
pub struct Line {
    /// The cells from left to right, each padded to its column's width.
    pub cells: Vec<String>,
    pub tint: Tint,
}

/// The mathematical content of a [`Line`].
pub struct LineView {
    pub cells: Seq<Seq<char>>,
    pub tint: Tint,
}

impl View for Line {
    type V = LineView;

    open spec fn view(&self) -> LineView {
        LineView { cells: string_views(self.cells@), tint: self.tint }
    }
}

/// The contents of a sequence of lines, in order.
pub open spec fn line_views(lines: Seq<Line>) -> Seq<LineView> {
    lines.map_values(|line: Line| line@)
}

/// What a row shows in a column.
pub open spec fn cell(row: RowView, column: Column) -> Seq<char> {
    match column {
        Column::Project => row.project_name,
        Column::Environment => row.environment_name,
        Column::Deployment => row.deployment_by,
        Column::Commit => row.commit_sha,
        Column::Updated => row.updated,
    }
}

/// The label at the head of a column.
pub open spec fn header_text(column: Column) -> Seq<char> {
    match column {
        Column::Project => "PROJECT"@,
        Column::Environment => "ENVIRONMENT"@,
        Column::Deployment => "DEPLOYMENT"@,
        Column::Commit => "COMMIT"@,
        Column::Updated => "UPDATED"@,
    }
}

/// The least width of a column, whatever the rows hold.
pub open spec fn least_width(column: Column) -> usize {
    match column {
        Column::Project => 7,
        Column::Environment => 11,
        Column::Deployment => 10,
        Column::Commit => 6,
        Column::Updated => 7,
    }
}

/// The least widths of all the columns.
pub open spec fn least_widths() -> ColumnWidths {
    ColumnWidths {
        project: least_width(Column::Project),
        environment: least_width(Column::Environment),
        deployment: least_width(Column::Deployment),
        commit: least_width(Column::Commit),
        updated: least_width(Column::Updated),
    }
}

/// The length that a cell is measured by: the number of bytes of its text.
pub open spec fn measure(text: Seq<char>) -> usize {
    encode_utf8(text).len() as usize
}

/// The greater of two widths.
pub open spec fn wider(left: usize, right: usize) -> usize {
    if left >= right {
        left
    } else {
        right
    }
}

/// The greatest of `least` and the measures of the cells of a column.
pub open spec fn column_width(rows: Seq<RowView>, column: Column, least: usize) -> usize
    decreases rows.len(),
{
    if rows.len() == 0 {
        least
    } else {
        wider(column_width(rows.drop_last(), column, least), measure(cell(rows.last(), column)))
    }
}

/// The widths that the columns need for `rows` when they start out at
/// `start`.
pub open spec fn widths_over(rows: Seq<RowView>, start: ColumnWidths) -> ColumnWidths {
    ColumnWidths {
        project: column_width(rows, Column::Project, start.project),
        environment: column_width(rows, Column::Environment, start.environment),
        deployment: column_width(rows, Column::Deployment, start.deployment),
        commit: column_width(rows, Column::Commit, start.commit),
        updated: column_width(rows, Column::Updated, start.updated),
    }
}

/// The widths of the table for `rows`: for each column the greater of its
/// least width and its longest cell.
pub open spec fn table_widths(rows: Seq<RowView>) -> ColumnWidths {
    widths_over(rows, least_widths())
}

/// The header labels, each padded to its column.
pub open spec fn header_cells(widths: ColumnWidths) -> Seq<Seq<char>> {
    seq![
        padded(header_text(Column::Project), widths.project as nat),
        padded(header_text(Column::Environment), widths.environment as nat),
        padded(header_text(Column::Deployment), widths.deployment as nat),
        padded(header_text(Column::Commit), widths.commit as nat),
        padded(header_text(Column::Updated), widths.updated as nat),
    ]
}

/// The cells of a row, each padded to its column.
pub open spec fn row_cells(row: RowView, widths: ColumnWidths) -> Seq<Seq<char>> {
    seq![
        padded(row.project_name, widths.project as nat),
        padded(row.environment_name, widths.environment as nat),
        padded(row.deployment_by, widths.deployment as nat),
        padded(row.commit_sha, widths.commit as nat),
        padded(row.updated, widths.updated as nat),
    ]
}

/// Green for a consistent group, red for a drifted one.
pub open spec fn tint_of(consistent: bool) -> Tint {
    if consistent {
        Tint::Green
    } else {
        Tint::Red
    }
}

/// The header of the table.
pub open spec fn header_line_of(widths: ColumnWidths) -> LineView {
    LineView { cells: header_cells(widths), tint: Tint::Plain }
}

/// The line of a row that belongs to a group with the given verdict.
pub open spec fn row_line_of(row: RowView, widths: ColumnWidths, consistent: bool) -> LineView {
    LineView { cells: row_cells(row, widths), tint: tint_of(consistent) }
}

/// The lines of the rows of one group, in order.
pub open spec fn group_lines(group: GroupView, widths: ColumnWidths) -> Seq<LineView> {
    group.rows.map_values(|row: RowView| row_line_of(row, widths, group.consistent))
}

/// The lines of the rows of all groups, group after group.
pub open spec fn body_lines(groups: Seq<GroupView>, widths: ColumnWidths) -> Seq<LineView> {
    groups.map_values(|group: GroupView| group_lines(group, widths)).flatten()
}

/// The rows of all groups, group after group.
pub open spec fn all_rows(groups: Seq<GroupView>) -> Seq<RowView> {
    groups.map_values(|group: GroupView| group.rows).flatten()
}

/// What is said when there is no row to show.
pub open spec fn notice_text() -> Seq<char> {
    "There is nothing to show"@
}

/// The single line that stands for an empty report.
pub open spec fn notice_line() -> LineView {
    LineView { cells: seq![notice_text()], tint: Tint::Plain }
}

/// The output for `groups`: the notice when they hold no row, else the
/// header followed by one line per row, in the order of the groups.
pub open spec fn rendered(groups: Seq<GroupView>) -> Seq<LineView> {
    if all_rows(groups).len() == 0 {
        seq![notice_line()]
    } else {
        let widths = table_widths(all_rows(groups));
        seq![header_line_of(widths)] + body_lines(groups, widths)
    }
}

/// A column is never narrower than asked for at the start.
pub proof fn lemma_column_width_at_least(rows: Seq<RowView>, column: Column, least: usize)
    ensures
        column_width(rows, column, least) >= least,
    decreases rows.len(),
{
    if rows.len() > 0 {
        lemma_column_width_at_least(rows.drop_last(), column, least);
    }
}

/// Measuring one batch of rows after another is measuring them all at once.
pub proof fn lemma_column_width_concat(
    first: Seq<RowView>,
    second: Seq<RowView>,
    column: Column,
    least: usize,
)
    ensures
        column_width(first + second, column, least) == column_width(
            second,
            column,
            column_width(first, column, least),
        ),
    decreases second.len(),
{
    if second.len() == 0 {
        assert(first + second =~= first);
    } else {
        lemma_column_width_concat(first, second.drop_last(), column, least);
        assert((first + second).drop_last() =~= first + second.drop_last());
        assert((first + second).last() == second.last());
    }
}

/// The widths for one batch of rows after another are the widths for all of
/// them.
pub proof fn lemma_widths_over_concat(first: Seq<RowView>, second: Seq<RowView>, start: ColumnWidths)
    ensures
        widths_over(first + second, start) == widths_over(second, widths_over(first, start)),
{
    lemma_column_width_concat(first, second, Column::Project, start.project);
    lemma_column_width_concat(first, second, Column::Environment, start.environment);
    lemma_column_width_concat(first, second, Column::Deployment, start.deployment);
    lemma_column_width_concat(first, second, Column::Commit, start.commit);
    lemma_column_width_concat(first, second, Column::Updated, start.updated);
}

/// Adding a group adds its rows behind those of the groups before it.
pub proof fn lemma_all_rows_step(groups: Seq<GroupView>, next: int)
    requires
        0 <= next < groups.len(),
    ensures
        all_rows(groups.take(next + 1)) == all_rows(groups.take(next)) + groups[next].rows,
{
    let before = groups.take(next).map_values(|group: GroupView| group.rows);
    before.lemma_flatten_push(groups[next].rows);
    assert(groups.take(next + 1).map_values(|group: GroupView| group.rows) =~= before.push(
        groups[next].rows,
    ));
}

/// Adding a group adds its lines behind those of the groups before it.
pub proof fn lemma_body_lines_step(groups: Seq<GroupView>, widths: ColumnWidths, next: int)
    requires
        0 <= next < groups.len(),
    ensures
        body_lines(groups.take(next + 1), widths) == body_lines(groups.take(next), widths)
            + group_lines(groups[next], widths),
{
    let before = groups.take(next).map_values(|group: GroupView| group_lines(group, widths));
    before.lemma_flatten_push(group_lines(groups[next], widths));
    assert(groups.take(next + 1).map_values(|group: GroupView| group_lines(group, widths))
        =~= before.push(group_lines(groups[next], widths)));
}

/// The widths after one more row.
fn widen(widths: ColumnWidths, row: &EnvironmentRow) -> (out: ColumnWidths)
    ensures
        out == widths_over(seq![row@], widths),
{
    proof {
        reveal_with_fuel(column_width, 2);
        assert(seq![row@].last() == row@);
    }
    let project = row.project_name.as_str().len();
    let environment = row.environment_name.as_str().len();
    let deployment = row.deployment_by.as_str().len();
    let commit = row.commit_sha.as_str().len();
    let updated = row.updated.as_str().len();
    ColumnWidths {
        project: if widths.project >= project {
            widths.project
        } else {
            project
        },
        environment: if widths.environment >= environment {
            widths.environment
        } else {
            environment
        },
        deployment: if widths.deployment >= deployment {
            widths.deployment
        } else {
            deployment
        },
        commit: if widths.commit >= commit {
            widths.commit
        } else {
            commit
        },
        updated: if widths.updated >= updated {
            widths.updated
        } else {
            updated
        },
    }
}

/// The widths after a batch of rows.
fn widen_over(start: ColumnWidths, rows: &Vec<EnvironmentRow>) -> (out: ColumnWidths)
    ensures
        out == widths_over(row_views(rows@), start),
{
    let mut widths = start;
    let mut i: usize = 0;
    assert(row_views(rows@).take(0) =~= Seq::<RowView>::empty());
    while i < rows.len()
        invariant
            i <= rows.len(),
            widths == widths_over(row_views(rows@).take(i as int), start),
        decreases rows.len() - i,
    {
        proof {
            let seen = row_views(rows@).take(i as int);
            assert(row_views(rows@).take(i + 1) =~= seen + seq![rows[i as int]@]);
            lemma_widths_over_concat(seen, seq![rows[i as int]@], start);
        }
        widths = widen(widths, &rows[i]);
        i += 1;
    }
    assert(row_views(rows@).take(rows.len() as int) =~= row_views(rows@));
    widths
}

/// The least widths of the columns: the lengths of their labels.
pub fn narrowest() -> (widths: ColumnWidths)
    ensures
        widths == least_widths(),
{
    ColumnWidths { project: 7, environment: 11, deployment: 10, commit: 6, updated: 7 }
}

/// Computes the width of each column for the given rows: the length of its
/// longest cell, and at least the length of its label.
pub fn column_widths(rows: &Vec<EnvironmentRow>) -> (widths: ColumnWidths)
    ensures
        widths == table_widths(row_views(rows@)),
        widths.project >= header_text(Column::Project).len(),
        widths.environment >= header_text(Column::Environment).len(),
        widths.deployment >= header_text(Column::Deployment).len(),
        widths.commit >= header_text(Column::Commit).len(),
        widths.updated >= header_text(Column::Updated).len(),
{
    let widths = widen_over(narrowest(), rows);
    proof {
        widths_cover_the_headers(row_views(rows@));
    }
    widths
}

/// The least width of a column is the length of its label.
pub proof fn least_width_is_header_length(column: Column)
    ensures
        least_width(column) == header_text(column).len(),
{
    reveal_strlit("PROJECT");
    reveal_strlit("ENVIRONMENT");
    reveal_strlit("DEPLOYMENT");
    reveal_strlit("COMMIT");
    reveal_strlit("UPDATED");
}

/// Whatever the rows are, and also when there are none, every column is at
/// least as wide as its label is long.
pub proof fn widths_cover_the_headers(rows: Seq<RowView>)
    ensures
        table_widths(rows).project >= header_text(Column::Project).len(),
        table_widths(rows).environment >= header_text(Column::Environment).len(),
        table_widths(rows).deployment >= header_text(Column::Deployment).len(),
        table_widths(rows).commit >= header_text(Column::Commit).len(),
        table_widths(rows).updated >= header_text(Column::Updated).len(),
{
    least_width_is_header_length(Column::Project);
    least_width_is_header_length(Column::Environment);
    least_width_is_header_length(Column::Deployment);
    least_width_is_header_length(Column::Commit);
    least_width_is_header_length(Column::Updated);
    lemma_column_width_at_least(rows, Column::Project, least_width(Column::Project));
    lemma_column_width_at_least(rows, Column::Environment, least_width(Column::Environment));
    lemma_column_width_at_least(rows, Column::Deployment, least_width(Column::Deployment));
    lemma_column_width_at_least(rows, Column::Commit, least_width(Column::Commit));
    lemma_column_width_at_least(rows, Column::Updated, least_width(Column::Updated));
}

/// The width of a column is the greatest of its least width and the
/// measures of its cells: it is below none of them and equal to one.
pub proof fn width_is_the_maximum(rows: Seq<RowView>, column: Column, least: usize)
    ensures
        column_width(rows, column, least) >= least,
        forall|i: int|
            0 <= i < rows.len() ==> column_width(rows, column, least) >= measure(
                cell(#[trigger] rows[i], column),
            ),
        column_width(rows, column, least) == least || exists|i: int|
            0 <= i < rows.len() && column_width(rows, column, least) == measure(
                cell(#[trigger] rows[i], column),
            ),
    decreases rows.len(),
{
    if rows.len() > 0 {
        let front = rows.drop_last();
        width_is_the_maximum(front, column, least);
        let width = column_width(rows, column, least);
        assert forall|i: int| 0 <= i < rows.len() implies width >= measure(
            cell(#[trigger] rows[i], column),
        ) by {
            if i < front.len() {
                assert(front[i] == rows[i]);
            }
        }
        if width != least {
            if width == measure(cell(rows.last(), column)) {
                assert(rows[rows.len() - 1] == rows.last());
            } else {
                let i = choose|i: int|
                    0 <= i < front.len() && column_width(front, column, least) == measure(
                        cell(#[trigger] front[i], column),
                    );
                assert(front[i] == rows[i]);
            }
        }
    }
}

/// Builds the header line for the given widths.
pub fn header_line(widths: &ColumnWidths) -> (line: Line)
    ensures
        line@ == header_line_of(*widths),
{
    let mut cells: Vec<String> = Vec::new();
    cells.push(pad("PROJECT", widths.project));
    cells.push(pad("ENVIRONMENT", widths.environment));
    cells.push(pad("DEPLOYMENT", widths.deployment));
    cells.push(pad("COMMIT", widths.commit));
    cells.push(pad("UPDATED", widths.updated));
    assert(string_views(cells@) =~= header_cells(*widths));
    Line { cells, tint: Tint::Plain }
}

/// Builds the line of a row: its cells padded to the widths, green when the
/// row's group is consistent and red when it is not.
pub fn row_line(row: &EnvironmentRow, widths: &ColumnWidths, consistent: bool) -> (line: Line)
    ensures
        line@ == row_line_of(row@, *widths, consistent),
{
    let mut cells: Vec<String> = Vec::new();
    cells.push(pad(row.project_name.as_str(), widths.project));
    cells.push(pad(row.environment_name.as_str(), widths.environment));
    cells.push(pad(row.deployment_by.as_str(), widths.deployment));
    cells.push(pad(row.commit_sha.as_str(), widths.commit));
    cells.push(pad(row.updated.as_str(), widths.updated));
    assert(string_views(cells@) =~= row_cells(row@, *widths));
    let tint = if consistent {
        Tint::Green
    } else {
        Tint::Red
    };
    Line { cells, tint }
}

/// Builds the line that stands for an empty report.
pub fn notice() -> (line: Line)
    ensures
        line@ == notice_line(),
{
    let mut cells: Vec<String> = Vec::new();
    cells.push(String::from_str("There is nothing to show"));
    assert(string_views(cells@) =~= seq![notice_text()]);
    Line { cells, tint: Tint::Plain }
}

/// The widths of the table that shows the rows of all the groups.
pub fn group_widths(groups: &Vec<ProjectGroup>) -> (widths: ColumnWidths)
    ensures
        widths == table_widths(all_rows(group_views(groups@))),
{
    let ghost views = group_views(groups@);
    let mut widths = narrowest();
    let mut g: usize = 0;
    assert(all_rows(views.take(0)) =~= Seq::<RowView>::empty());
    while g < groups.len()
        invariant
            g <= groups.len(),
            views == group_views(groups@),
            widths == table_widths(all_rows(views.take(g as int))),
        decreases groups.len() - g,
    {
        proof {
            lemma_all_rows_step(views, g as int);
            lemma_widths_over_concat(
                all_rows(views.take(g as int)),
                views[g as int].rows,
                least_widths(),
            );
        }
        widths = widen_over(widths, &groups[g].rows);
        g += 1;
    }
    assert(views.take(groups.len() as int) =~= views);
    widths
}

/// Tells whether the groups hold no row at all.
pub fn holds_no_row(groups: &Vec<ProjectGroup>) -> (none: bool)
    ensures
        none == (all_rows(group_views(groups@)).len() == 0),
{
    let ghost views = group_views(groups@);
    let mut g: usize = 0;
    assert(all_rows(views.take(0)) =~= Seq::<RowView>::empty());
    while g < groups.len()
        invariant
            g <= groups.len(),
            views == group_views(groups@),
            all_rows(views.take(g as int)).len() == 0,
        decreases groups.len() - g,
    {
        proof {
            lemma_all_rows_step(views, g as int);
        }
        if groups[g].rows.len() > 0 {
            proof {
                let seen = all_rows(views.take(g + 1));
                let rest = views.skip(g + 1).map_values(|group: GroupView| group.rows);
                let front = views.take(g + 1).map_values(|group: GroupView| group.rows);
                vstd::seq_lib::lemma_flatten_concat(front, rest);
                assert(front + rest =~= views.map_values(|group: GroupView| group.rows));
                assert(all_rows(views) == seen + rest.flatten());
            }
            return false;
        }
        g += 1;
    }
    assert(views.take(groups.len() as int) =~= views);
    true
}

/// Lays the groups out as lines: the header and then a line per row, in the
/// order of the groups, or a single notice when there is no row.
pub fn render(groups: &Vec<ProjectGroup>) -> (lines: Vec<Line>)
    ensures
        line_views(lines@) == rendered(group_views(groups@)),
{
    let ghost views = group_views(groups@);
    let mut lines: Vec<Line> = Vec::new();
    if holds_no_row(groups) {
        lines.push(notice());
        assert(line_views(lines@) =~= seq![notice_line()]);
        return lines;
    }
    let widths = group_widths(groups);
    lines.push(header_line(&widths));
    let mut g: usize = 0;
    proof {
        assert(views.take(0).map_values(|group: GroupView| group_lines(group, widths))
            =~= Seq::<Seq<LineView>>::empty());
        assert(line_views(lines@) =~= seq![header_line_of(widths)] + body_lines(
            views.take(0),
            widths,
        ));
    }
    while g < groups.len()
        invariant
            g <= groups.len(),
            views == group_views(groups@),
            line_views(lines@) == seq![header_line_of(widths)] + body_lines(
                views.take(g as int),
                widths,
            ),
        decreases groups.len() - g,
    {
        let group = &groups[g];
        let ghost before = line_views(lines@);
        let ghost expected = group_lines(views[g as int], widths);
        let mut i: usize = 0;
        assert(before + expected.take(0) =~= before);
        while i < group.rows.len()
            invariant
                i <= group.rows.len(),
                expected == group_lines(group@, widths),
                line_views(lines@) == before + expected.take(i as int),
            decreases group.rows.len() - i,
        {
            let ghost so_far = line_views(lines@);
            let line = row_line(&group.rows[i], &widths, group.consistent);
            lines.push(line);
            proof {
                assert(line_views(lines@) =~= so_far.push(line@));
                assert(expected[i as int] == line@);
                assert(expected.take(i + 1) =~= expected.take(i as int).push(expected[i as int]));
                assert(before + expected.take(i + 1) =~= (before + expected.take(i as int)).push(
                    expected[i as int],
                ));
            }
            i += 1;
        }
        proof {
            assert(expected.take(group.rows.len() as int) =~= expected);
            lemma_body_lines_step(views, widths, g as int);
            assert(before + expected =~= seq![header_line_of(widths)] + body_lines(
                views.take(g + 1),
                widths,
            ));
        }
        g += 1;
    }
    assert(views.take(groups.len() as int) =~= views);
    lines
}

/// The whole report for the rows that were gathered: drops the rows without
/// a commit, groups and judges the rest, and lays the result out.
pub fn report(rows: &Vec<EnvironmentRow>) -> (lines: Vec<Line>)
    ensures
        line_views(lines@) == rendered(classified(row_views(rows@))),
{
    let groups = classify(rows);
    render(&groups)
}

} // verus!
