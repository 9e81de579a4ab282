use vstd::prelude::*;

use crate::api::{ConnectionSummary, DatabaseKind, QuerySnapshot, TablePreview};
use crate::text::{decimal_text, u64_text};

verus! {

/// The two letters on a connection's badge.
pub open spec fn badge_label(kind: DatabaseKind) -> Seq<char> {
    match kind {
        DatabaseKind::PostgreSql => "PG"@,
        DatabaseKind::MySql => "MY"@,
        DatabaseKind::MariaDb => "MA"@,
        DatabaseKind::Sqlite => "SQ"@,
        DatabaseKind::Redis => "RD"@,
    }
}

/// The product name of a kind of database.
pub open spec fn kind_name(kind: DatabaseKind) -> Seq<char> {
    match kind {
        DatabaseKind::PostgreSql => "PostgreSQL"@,
        DatabaseKind::MySql => "MySQL"@,
        DatabaseKind::MariaDb => "MariaDB"@,
        DatabaseKind::Sqlite => "SQLite"@,
        DatabaseKind::Redis => "Redis"@,
    }
}

pub fn db_badge_label(kind: DatabaseKind) -> (label: &'static str)
    ensures
        label@ == badge_label(kind),
{
    match kind {
        DatabaseKind::PostgreSql => "PG",
        DatabaseKind::MySql => "MY",
        DatabaseKind::MariaDb => "MA",
        DatabaseKind::Sqlite => "SQ",
        DatabaseKind::Redis => "RD",
    }
}

pub fn db_kind_name(kind: DatabaseKind) -> (name: &'static str)
    ensures
        name@ == kind_name(kind),
{
    match kind {
        DatabaseKind::PostgreSql => "PostgreSQL",
        DatabaseKind::MySql => "MySQL",
        DatabaseKind::MariaDb => "MariaDB",
        DatabaseKind::Sqlite => "SQLite",
        DatabaseKind::Redis => "Redis",
    }
}

/// The kinds the form offers, in order.
pub open spec fn kind_order() -> Seq<DatabaseKind> {
    seq![
        DatabaseKind::PostgreSql,
        DatabaseKind::MySql,
        DatabaseKind::MariaDb,
        DatabaseKind::Sqlite,
        DatabaseKind::Redis,
    ]
}

/// The kind selector of the form: every kind, in order, and whether it is
/// the chosen one.
pub fn kind_choices(chosen: DatabaseKind) -> (choices: Vec<(DatabaseKind, bool)>)
    ensures
        choices@.len() == 5,
        forall|i: int|
            0 <= i < 5 ==> (#[trigger] choices@[i]).0 == kind_order()[i] && choices@[i].1 == (
            kind_order()[i] == chosen),
{
    let kinds = vec![
        DatabaseKind::PostgreSql,
        DatabaseKind::MySql,
        DatabaseKind::MariaDb,
        DatabaseKind::Sqlite,
        DatabaseKind::Redis,
    ];
    assert(kinds@ =~= kind_order());
    let mut choices: Vec<(DatabaseKind, bool)> = Vec::new();
    for i in 0..kinds.len()
        invariant
            kinds@ == kind_order(),
            choices@.len() == i,
            forall|j: int|
                0 <= j < i ==> (#[trigger] choices@[j]).0 == kind_order()[j] && choices@[j].1 == (
                kind_order()[j] == chosen),
    {
        let kind = kinds[i];
        choices.push((kind, kind == chosen));
    }
    choices
}

/// The host line of a connection card: the host, or `local` without one.
pub open spec fn card_host_text(connection: ConnectionSummary) -> Seq<char> {
    match connection.host {
        Some(host) => host@,
        None => "local"@,
    }
}

/// The database line of a connection card: the database, or nothing.
pub open spec fn card_database_text(connection: ConnectionSummary) -> Seq<char> {
    match connection.database {
        Some(database) => database@,
        None => Seq::empty(),
    }
}

pub fn card_host(connection: &ConnectionSummary) -> (text: String)
    ensures
        text@ == card_host_text(*connection),
{
    match &connection.host {
        Some(host) => host.clone(),
        None => "local".to_owned(),
    }
}

pub fn card_database(connection: &ConnectionSummary) -> (text: String)
    ensures
        text@ == card_database_text(*connection),
{
    match &connection.database {
        Some(database) => database.clone(),
        None => String::new(),
    }
}

/// Texts joined with a separator between each two.
pub open spec fn joined(list: Seq<Seq<char>>, sep: Seq<char>) -> Seq<char>
    decreases list.len(),
{
    if list.len() == 0 {
        Seq::empty()
    } else if list.len() == 1 {
        list[0]
    } else {
        joined(list.drop_last(), sep) + sep + list.last()
    }
}

/// The cells of a row joined by ` | `, as `[String]::join` does.
pub fn join_cells(cells: &Vec<String>) -> (text: String)
    ensures
        text@ == joined(cells.deep_view(), " | "@),
{
    let mut text = String::new();
    let ghost list = cells.deep_view();
    for i in 0..cells.len()
        invariant
            list == cells.deep_view(),
            text@ == joined(list.take(i as int), " | "@),
    {
        assert(list.take(i + 1).drop_last() =~= list.take(i as int));
        if i != 0 {
            text.append(" | ");
        } else {
            assert(list.take(0) =~= Seq::<Seq<char>>::empty());
        }
        text.append(cells[i].as_str());
        assert(text@ =~= joined(list.take(i + 1), " | "@));
    }
    assert(list.take(cells@.len() as int) =~= list);
    text
}

/// How many rows a result pane shows: at most ten.
pub open spec fn shown_rows(count: nat) -> nat {
    if count < 10 {
        count
    } else {
        10
    }
}

/// The lines of a result pane: its caption, the column names, and the
/// first rows, each joined by ` | `.
pub open spec fn pane_lines(caption: Seq<char>, columns: Seq<Seq<char>>, rows: Seq<Seq<Seq<char>>>) -> Seq<Seq<char>> {
    seq![caption, joined(columns, " | "@)] + rows.take(shown_rows(rows.len()) as int).map_values(
        |row: Seq<Seq<char>>| joined(row, " | "@),
    )
}

fn pane_lines_exec(caption: String, columns: &Vec<String>, rows: &Vec<Vec<String>>) -> (lines: Vec<String>)
    ensures
        lines.deep_view() == pane_lines(caption@, columns.deep_view(), rows.deep_view()),
{
    let mut lines: Vec<String> = Vec::new();
    lines.push(caption);
    lines.push(join_cells(columns));
    let shown: usize = if rows.len() < 10 {
        rows.len()
    } else {
        10
    };
    for i in 0..shown
        invariant
            shown == shown_rows(rows@.len() as nat),
            shown <= rows@.len(),
            lines@.len() == 2 + i,
            lines@[0]@ == caption@,
            lines@[1]@ == joined(columns.deep_view(), " | "@),
            forall|j: int| 0 <= j < i ==> (#[trigger] lines@[2 + j])@ == joined(rows@[j].deep_view(), " | "@),
    {
        lines.push(join_cells(&rows[i]));
    }
    let ghost expected = pane_lines(caption@, columns.deep_view(), rows.deep_view());
    assert forall|j: int| 0 <= j < lines@.len() implies #[trigger] lines.deep_view()[j] == expected[j] by {
        if j >= 2 {
            assert(lines@[2 + (j - 2)] == lines@[j]);
        }
    }
    assert(lines.deep_view() =~= expected);
    lines
}

/// The caption of the preview pane.
pub open spec fn preview_caption(preview: TablePreview) -> Seq<char> {
    decimal_text(preview.columns@.len() as int) + " columns, "@ + decimal_text(preview.rows@.len() as int)
        + " rows"@
}

/// The caption of the query result pane.
pub open spec fn query_caption(result: QuerySnapshot) -> Seq<char> {
    decimal_text(result.columns@.len() as int) + " columns, "@ + decimal_text(result.rows@.len() as int)
        + " rows, "@ + decimal_text(result.execution_time_ms as int) + " ms"@
}

/// The lines the preview pane shows for a table page.
pub fn preview_lines(preview: &TablePreview) -> (lines: Vec<String>)
    ensures
        lines.deep_view() == pane_lines(
            preview_caption(*preview),
            preview.columns.deep_view(),
            preview.rows.deep_view(),
        ),
{
    let mut caption = u64_text(preview.columns.len() as u64);
    caption.append(" columns, ");
    let rows = u64_text(preview.rows.len() as u64);
    caption.append(rows.as_str());
    caption.append(" rows");
    pane_lines_exec(caption, &preview.columns, &preview.rows)
}

/// The lines the result pane shows for a query result.
pub fn query_lines(result: &QuerySnapshot) -> (lines: Vec<String>)
    ensures
        lines.deep_view() == pane_lines(
            query_caption(*result),
            result.columns.deep_view(),
            result.rows.deep_view(),
        ),
{
    let mut caption = u64_text(result.columns.len() as u64);
    caption.append(" columns, ");
    let rows = u64_text(result.rows.len() as u64);
    caption.append(rows.as_str());
    caption.append(" rows, ");
    let ms = u64_text(result.execution_time_ms);
    caption.append(ms.as_str());
    caption.append(" ms");
    pane_lines_exec(caption, &result.columns, &result.rows)
}

} // verus!
