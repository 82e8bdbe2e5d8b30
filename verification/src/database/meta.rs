//! Tables, columns, and the values that pass between the diff engine and
//! the drivers.

use crate::lang::internal::LeafType;
use vstd::prelude::*;
use vstd::string::StringExecFns;

verus! {

/// A column: a name and the type of its values.
#[derive(Debug)]
pub struct Column {
    name: String,
    data_type: LeafType,
}

/// What specifications see of a [`Column`].
pub struct ColumnView {
    pub name: Seq<char>,
    pub data_type: LeafType,
}

impl View for Column {
    type V = ColumnView;

    closed spec fn view(&self) -> ColumnView {
        ColumnView { name: self.name@, data_type: self.data_type }
    }
}

impl DeepView for Column {
    type V = ColumnView;

    open spec fn deep_view(&self) -> ColumnView {
        self@
    }
}

impl Column {
    pub fn new(name: &str, data_type: LeafType) -> (r: Column)
        ensures
            r@ == (ColumnView { name: name@, data_type }),
    {
        Column { name: String::from_str(name), data_type }
    }

    pub fn name(&self) -> (r: String)
        ensures
            r@ == self@.name,
    {
        self.name.clone()
    }

    pub fn data_type(&self) -> (r: LeafType)
        ensures
            r == self@.data_type,
    {
        self.data_type
    }
}

/// A table: the schema it lives in, its name and its columns in order.
#[derive(Debug)]
pub struct Table {
    schema: String,
    name: String,
    columns: Vec<Column>,
}

/// What specifications see of a [`Table`].
pub struct TableView {
    pub schema: Seq<char>,
    pub name: Seq<char>,
    pub columns: Seq<ColumnView>,
}

impl View for Table {
    type V = TableView;

    closed spec fn view(&self) -> TableView {
        TableView { schema: self.schema@, name: self.name@, columns: self.columns.deep_view() }
    }
}

impl DeepView for Table {
    type V = TableView;

    open spec fn deep_view(&self) -> TableView {
        self@
    }
}

impl Table {
    pub fn new(schema: &str, name: &str, columns: Vec<Column>) -> (r: Table)
        ensures
            r@ == (TableView { schema: schema@, name: name@, columns: columns.deep_view() }),
    {
        Table { schema: String::from_str(schema), name: String::from_str(name), columns }
    }

    pub fn name(&self) -> (r: String)
        ensures
            r@ == self@.name,
    {
        self.name.clone()
    }

    pub fn schema(&self) -> (r: String)
        ensures
            r@ == self@.schema,
    {
        self.schema.clone()
    }

    pub fn columns(&self) -> (r: &Vec<Column>)
        ensures
            r.deep_view() == self@.columns,
    {
        &self.columns
    }
}

/// The tables of a database, in order.
#[derive(Debug)]
pub struct Database {
    tables: Vec<Table>,
}

impl View for Database {
    type V = Seq<TableView>;

    closed spec fn view(&self) -> Seq<TableView> {
        self.tables.deep_view()
    }
}

impl DeepView for Database {
    type V = Seq<TableView>;

    open spec fn deep_view(&self) -> Seq<TableView> {
        self@
    }
}

impl Database {
    pub fn new(tables: Vec<Table>) -> (r: Database)
        ensures
            r@ == tables.deep_view(),
    {
        Database { tables }
    }

    pub fn tables(&self) -> (r: &Vec<Table>)
        ensures
            r.deep_view() == self@,
    {
        &self.tables
    }
}

/// The simulated database: the tables it holds.
#[derive(Debug)]
pub struct MockDbConfig {
    pub tables: Vec<Table>,
}

impl View for MockDbConfig {
    type V = Seq<TableView>;

    open spec fn view(&self) -> Seq<TableView> {
        self.tables.deep_view()
    }
}

impl DeepView for MockDbConfig {
    type V = Seq<TableView>;

    open spec fn deep_view(&self) -> Seq<TableView> {
        self@
    }
}

/// Which database to work against.
#[derive(Debug)]
pub enum DatabaseConfig {
    /// The simulated database.
    MockDb(MockDbConfig),
    /// A PostgreSQL server, by its connection string.
    Postgres(String),
}

/// What specifications see of a [`DatabaseConfig`].
pub enum DatabaseConfigView {
    MockDb(Seq<TableView>),
    Postgres(Seq<char>),
}

impl View for DatabaseConfig {
    type V = DatabaseConfigView;

    open spec fn view(&self) -> DatabaseConfigView {
        match self {
            DatabaseConfig::MockDb(c) => DatabaseConfigView::MockDb(c@),
            DatabaseConfig::Postgres(target) => DatabaseConfigView::Postgres(target@),
        }
    }
}

impl DeepView for DatabaseConfig {
    type V = DatabaseConfigView;

    open spec fn deep_view(&self) -> DatabaseConfigView {
        self@
    }
}

/// A compiled migration.
#[derive(Debug)]
pub enum DatabaseChange {
    /// The simulated database as it is to be.
    MockDb(DatabaseConfig),
    /// The commands to execute, in order.
    SqlDb(Vec<String>),
}

/// What specifications see of a [`DatabaseChange`].
pub enum DatabaseChangeView {
    MockDb(DatabaseConfigView),
    SqlDb(Seq<Seq<char>>),
}

impl View for DatabaseChange {
    type V = DatabaseChangeView;

    open spec fn view(&self) -> DatabaseChangeView {
        match self {
            DatabaseChange::MockDb(c) => DatabaseChangeView::MockDb(c@),
            DatabaseChange::SqlDb(commands) => DatabaseChangeView::SqlDb(commands.deep_view()),
        }
    }
}

impl DeepView for DatabaseChange {
    type V = DatabaseChangeView;

    open spec fn deep_view(&self) -> DatabaseChangeView {
        self@
    }
}

/// The texts `parts`, with `separator` between each two of them.
pub open spec fn joined(parts: Seq<Seq<char>>, separator: Seq<char>) -> Seq<char>
    decreases parts.len(),
{
    if parts.len() == 0 {
        Seq::empty()
    } else if parts.len() == 1 {
        parts[0]
    } else {
        joined(parts.drop_last(), separator) + separator + parts.last()
    }
}

/// Joins texts with a separator between each two of them.
pub fn join(parts: &Vec<String>, separator: &str) -> (r: String)
    ensures
        r@ == joined(parts.deep_view(), separator@),
{
    let mut text = String::new();
    let mut k: usize = 0;
    assert(parts.deep_view().take(0) =~= Seq::empty());
    while k < parts.len()
        invariant
            k <= parts.len(),
            text@ == joined(parts.deep_view().take(k as int), separator@),
        decreases parts.len() - k,
    {
        let ghost before = parts.deep_view().take(k as int);
        let ghost after = parts.deep_view().take(k + 1);
        assert(after.drop_last() =~= before);
        assert(after.last() == parts@[k as int]@);
        if k > 0 {
            text.append(separator);
        }
        text.append(parts[k].as_str());
        assert(text@ =~= joined(after, separator@));
        k += 1;
    }
    assert(parts.deep_view().take(k as int) =~= parts.deep_view());
    text
}

impl DatabaseChangeView {
    /// The commands of the change; a simulated change has none.
    pub open spec fn commands(self) -> Seq<Seq<char>> {
        match self {
            DatabaseChangeView::SqlDb(commands) => commands,
            DatabaseChangeView::MockDb(_) => Seq::empty(),
        }
    }

    /// The script of the change: its commands, one per line.
    pub open spec fn script(self) -> Seq<char> {
        joined(self.commands(), "\n"@)
    }
}

impl DatabaseChange {
    /// The commands of the change, in order; a simulated change has none.
    pub fn commands(&self) -> (r: Vec<String>)
        ensures
            r.deep_view() == self@.commands(),
    {
        let mut all: Vec<String> = Vec::new();
        match self {
            DatabaseChange::SqlDb(commands) => {
                let mut k: usize = 0;
                while k < commands.len()
                    invariant
                        k <= commands.len(),
                        all.len() == k,
                        forall|j: int| 0 <= j < k ==> all@[j]@ == commands@[j]@,
                    decreases commands.len() - k,
                {
                    all.push(commands[k].clone());
                    k += 1;
                }
                assert(all.deep_view() =~= commands.deep_view());
            },
            DatabaseChange::MockDb(_) => {
                assert(all.deep_view() =~= Seq::empty());
            },
        }
        all
    }

    /// The script of the change: its commands in order, one per line,
    /// none left out and none twice.
    pub fn to_script(&self) -> (r: String)
        ensures
            r@ == self@.script(),
    {
        match self {
            DatabaseChange::SqlDb(commands) => join(commands, "\n"),
            DatabaseChange::MockDb(_) => String::new(),
        }
    }
}

/// Why the database could not be compared with the application.
#[derive(Debug)]
pub enum DiffError {
    /// The configuration names another driver than the one that was asked.
    WrongDriver,
    /// The application has no entity of this name.
    NoSuchEntity(String),
    /// The catalog holds more than one table of this name.
    AmbiguousTable(String),
    /// The catalog gives a column a type that stands for no leaf type.
    UnknownDataType(String),
}

/// What specifications see of a [`DiffError`].
pub enum DiffErrorView {
    WrongDriver,
    NoSuchEntity(Seq<char>),
    AmbiguousTable(Seq<char>),
    UnknownDataType(Seq<char>),
}

impl View for DiffError {
    type V = DiffErrorView;

    open spec fn view(&self) -> DiffErrorView {
        match self {
            DiffError::WrongDriver => DiffErrorView::WrongDriver,
            DiffError::NoSuchEntity(n) => DiffErrorView::NoSuchEntity(n@),
            DiffError::AmbiguousTable(n) => DiffErrorView::AmbiguousTable(n@),
            DiffError::UnknownDataType(n) => DiffErrorView::UnknownDataType(n@),
        }
    }
}

impl DeepView for DiffError {
    type V = DiffErrorView;

    open spec fn deep_view(&self) -> DiffErrorView {
        self@
    }
}

} // verus!
