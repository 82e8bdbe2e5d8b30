//! The simulated database: a list of tables that its caller owns.

use crate::database::integration::{DbDiff, DbDiffView};
use crate::database::meta::{
    Column, DatabaseChange, DatabaseChangeView, DatabaseConfig, DatabaseConfigView, DiffError,
    DiffErrorView, MockDbConfig, Table, TableView,
};
use vstd::prelude::*;

verus! {

/// The schema that the simulated database gives every table it hands out.
pub const MOCK_SCHEMA: &'static str = "schema";

/// The first of `tables`, from the position `from` on, that has the name
/// `name`.
pub open spec fn find_table(tables: Seq<TableView>, name: Seq<char>, from: int) -> Option<
    TableView,
>
    decreases tables.len() - from,
{
    if from < 0 || from >= tables.len() {
        None
    } else if tables[from].name == name {
        Some(tables[from])
    } else {
        find_table(tables, name, from + 1)
    }
}

/// A table as the simulated database hands it out: under its own schema.
pub open spec fn spec_copy_table(table: TableView) -> TableView {
    TableView { schema: MOCK_SCHEMA@, name: table.name, columns: table.columns }
}

/// The table that the simulated database holds for a table of the
/// application: the first of that name.
pub open spec fn spec_lookup(tables: Seq<TableView>, name: Seq<char>) -> Option<TableView> {
    match find_table(tables, name, 0) {
        Some(table) => Some(spec_copy_table(table)),
        None => None,
    }
}

/// Applies a change to the simulated database: there is nothing to do, and
/// nothing fails.
pub fn execute_changes(db_changes: &DatabaseChange, db_config: &DatabaseConfig) -> (r: Result<
    (),
    String,
>)
    ensures
        r is Ok,
{
    Ok(())
}

pub fn copy_column(column: &Column) -> (r: Column)
    ensures
        r@ == column@,
{
    Column::new(column.name().as_str(), column.data_type())
}

pub fn copy_columns(columns: &Vec<Column>) -> (r: Vec<Column>)
    ensures
        r.deep_view() == columns.deep_view(),
{
    let mut copies: Vec<Column> = Vec::new();
    let mut k: usize = 0;
    while k < columns.len()
        invariant
            k <= columns.len(),
            copies.len() == k,
            forall|j: int| 0 <= j < k ==> copies@[j]@ == columns@[j]@,
        decreases columns.len() - k,
    {
        copies.push(copy_column(&columns[k]));
        k += 1;
    }
    assert(copies.deep_view() =~= columns.deep_view());
    copies
}

pub fn copy_table(table: &Table) -> (r: Table)
    ensures
        r@ == spec_copy_table(table@),
{
    Table::new(MOCK_SCHEMA, table.name().as_str(), copy_columns(table.columns()))
}

pub fn copy_tables(tables: &Vec<Table>) -> (r: Vec<Table>)
    ensures
        r.deep_view() == tables.deep_view().map_values(|t: TableView| spec_copy_table(t)),
{
    let mut copies: Vec<Table> = Vec::new();
    let mut k: usize = 0;
    while k < tables.len()
        invariant
            k <= tables.len(),
            copies.len() == k,
            forall|j: int| 0 <= j < k ==> copies@[j]@ == spec_copy_table(tables@[j]@),
        decreases tables.len() - k,
    {
        copies.push(copy_table(&tables[k]));
        k += 1;
    }
    assert(copies.deep_view() =~= tables.deep_view().map_values(
        |t: TableView| spec_copy_table(t),
    ));
    copies
}

/// The change that the diffs ask of the simulated database: the tables of
/// the entities, as they are to be.
pub fn diffs_to_changes(db_diffs: &Vec<DbDiff>, db_config: &DatabaseConfig) -> (r: DatabaseChange)
    ensures
        r@ == DatabaseChangeView::MockDb(
            DatabaseConfigView::MockDb(
                db_diffs.deep_view().map_values(|d: DbDiffView| spec_copy_table(d.table)),
            ),
        ),
{
    let mut tables: Vec<Table> = Vec::new();
    let mut k: usize = 0;
    while k < db_diffs.len()
        invariant
            k <= db_diffs.len(),
            tables.len() == k,
            forall|j: int| 0 <= j < k ==> tables@[j]@ == spec_copy_table(db_diffs@[j]@.table),
        decreases db_diffs.len() - k,
    {
        tables.push(copy_table(db_diffs[k].db_table()));
        k += 1;
    }
    assert(tables.deep_view() =~= db_diffs.deep_view().map_values(
        |d: DbDiffView| spec_copy_table(d.table),
    ));
    DatabaseChange::MockDb(DatabaseConfig::MockDb(MockDbConfig { tables }))
}

/// The table that the simulated database holds under a name.
fn held_table(config: &MockDbConfig, name: &String) -> (r: Option<Table>)
    ensures
        r.deep_view() == spec_lookup(config@, name@),
{
    let mut k: usize = 0;
    while k < config.tables.len()
        invariant
            k <= config.tables.len(),
            find_table(config@, name@, 0) == find_table(config@, name@, k as int),
        decreases config.tables.len() - k,
    {
        assert(config@[k as int] == config.tables@[k as int]@);
        if config.tables[k].name() == *name {
            return Some(copy_table(&config.tables[k]));
        }
        k += 1;
    }
    None
}

/// Looks a table of the application up in the simulated database.
///
/// The result is a copy of the first table of the same name, or `None`
/// where the database holds none. The lookup fails where the configuration
/// is not that of a simulated database.
pub fn db_table_for_ast_table(db_config: &DatabaseConfig, ast_table: &Table) -> (r: Result<
    Option<Table>,
    DiffError,
>)
    ensures
        match r {
            Ok(found) => db_config@ matches DatabaseConfigView::MockDb(tables)
                && found.deep_view() == spec_lookup(tables, ast_table@.name),
            Err(e) => !(db_config@ is MockDb) && e@ == DiffErrorView::WrongDriver,
        },
{
    match db_config {
        DatabaseConfig::MockDb(config) => Ok(held_table(config, &ast_table.name())),
        _ => Err(DiffError::WrongDriver),
    }
}

/// A table of the given schema and name that has no columns.
pub open spec fn bare_table(schema: Seq<char>, name: Seq<char>) -> TableView {
    TableView { schema, name, columns: Seq::empty() }
}

/// The tables that the simulated database holds, by schema and name,
/// without their columns.
pub fn tables(config: &MockDbConfig) -> (r: Vec<Table>)
    ensures
        r.deep_view() == config@.map_values(|t: TableView| bare_table(t.schema, t.name)),
{
    let mut all: Vec<Table> = Vec::new();
    let mut k: usize = 0;
    while k < config.tables.len()
        invariant
            k <= config.tables.len(),
            all.len() == k,
            forall|j: int|
                0 <= j < k ==> (#[trigger] all@[j])@ == bare_table(
                    config.tables@[j]@.schema,
                    config.tables@[j]@.name,
                ),
        decreases config.tables.len() - k,
    {
        let columns: Vec<Column> = Vec::new();
        assert(columns.deep_view() =~= Seq::empty());
        all.push(
            Table::new(
                config.tables[k].schema().as_str(),
                config.tables[k].name().as_str(),
                columns,
            ),
        );
        k += 1;
    }
    assert(all.deep_view() =~= config@.map_values(|t: TableView| bare_table(t.schema, t.name)));
    all
}

/// For each of the names, in their order, the table that the simulated
/// database holds under it, if it holds one.
pub fn tables_for_entities(config: &MockDbConfig, entities: Vec<String>) -> (r: Vec<
    (String, Option<Table>),
>)
    ensures
        r.deep_view() == entities.deep_view().map_values(
            |e: Seq<char>| (e, spec_lookup(config@, e)),
        ),
{
    let mut all: Vec<(String, Option<Table>)> = Vec::new();
    let mut k: usize = 0;
    while k < entities.len()
        invariant
            k <= entities.len(),
            all.len() == k,
            forall|j: int|
                0 <= j < k ==> (#[trigger] all@[j]).deep_view() == (
                    entities@[j]@,
                    spec_lookup(config@, entities@[j]@),
                ),
        decreases entities.len() - k,
    {
        let found = held_table(config, &entities[k]);
        all.push((entities[k].clone(), found));
        k += 1;
    }
    assert(all.deep_view() =~= entities.deep_view().map_values(
        |e: Seq<char>| (e, spec_lookup(config@, e)),
    ));
    all
}

pub open spec fn missing() -> spec_fn((Seq<char>, Option<TableView>)) -> Option<TableView> {
    |entry: (Seq<char>, Option<TableView>)|
        match entry.1 {
            None => Some(bare_table(Seq::empty(), entry.0)),
            Some(_) => None,
        }
}

/// Gives the simulated database a table for each name of the list that has
/// none: a table of that name, without schema and columns, behind the
/// tables that the database holds.
pub fn create_missing(config: &mut MockDbConfig, table_list: &Vec<(String, Option<Table>)>)
    ensures
        final(config)@ == old(config)@ + table_list.deep_view().filter_map(missing()),
{
    let ghost start = config@;
    let ghost list = table_list.deep_view();
    let mut k: usize = 0;
    assert(list.take(0).filter_map(missing()) =~= Seq::empty());
    assert(config@ =~= start + Seq::<TableView>::empty());
    while k < table_list.len()
        invariant
            k <= table_list.len(),
            list == table_list.deep_view(),
            config@ == start + list.take(k as int).filter_map(missing()),
        decreases table_list.len() - k,
    {
        proof {
            list.lemma_filter_map_take_succ(missing(), k as int);
        }
        assert(list[k as int] == (table_list@[k as int].0@, table_list@[k as int].1.deep_view()));
        let ghost before = config@;
        match &table_list[k].1 {
            None => {
                let columns: Vec<Column> = Vec::new();
                assert(columns.deep_view() =~= Seq::empty());
                let table = Table::new("", table_list[k].0.as_str(), columns);
                proof {
                    reveal_strlit("");
                    assert(""@ =~= Seq::<char>::empty());
                }
                config.tables.push(table);
                assert(config@ =~= before.push(bare_table(Seq::empty(), list[k as int].0)));
                assert(config@ =~= start + list.take(k + 1).filter_map(missing()));
            },
            Some(_) => {
                assert(config@ =~= start + list.take(k + 1).filter_map(missing()));
            },
        }
        k += 1;
    }
    assert(list.take(k as int) =~= list);
}

} // verus!
