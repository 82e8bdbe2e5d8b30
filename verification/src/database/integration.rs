//! The diff engine: an application is projected onto tables, and each table
//! is compared with the one the database holds.

use crate::database::drivers::mock;
use crate::database::drivers::postgres;
use crate::database::meta::{
    Column, ColumnView, Database, DatabaseChange, DatabaseChangeView, DatabaseConfig,
    DatabaseConfigView, DiffError, DiffErrorView, Table, TableView,
};
use crate::lang::ast::{
    all_functions, is_function, lemma_lookup_entry, lemma_lookup_witness, lookup,
    references_resolve, AType, ATypeView, Application, ApplicationView, QualifiedName,
    QualifiedNameView,
};
use crate::lang::internal::LeafType;
use vstd::prelude::*;
use vstd::string::StringExecFns;

verus! {

// ---------------------------------------------------------------------------
// Projection
// ---------------------------------------------------------------------------

/// The schema of every projected table.
pub const TABLE_SCHEMA: &'static str = "schema";

/// What is put behind a function's name where its values are functions.
pub const PARAMETER_MARKER: &'static str = "_param";

/// The column of the function `function`: of the leaf type of its values;
/// an identifier where its values are entities; and a text under a marked
/// name where they are functions. There is none where `function` is no
/// function of `types`, or its codomain no type of them.
pub open spec fn spec_column(
    types: Seq<(QualifiedNameView, ATypeView)>,
    function: QualifiedNameView,
) -> Option<ColumnView> {
    match lookup(types, function) {
        Some(ATypeView::FunctionType(f)) => match lookup(types, f.codom) {
            Some(ATypeView::LeafType(leaf)) => Some(
                ColumnView { name: function.name, data_type: leaf },
            ),
            Some(ATypeView::EntityType(_)) => Some(
                ColumnView { name: function.name, data_type: LeafType::Id },
            ),
            Some(ATypeView::FunctionType(_)) => Some(
                ColumnView {
                    name: function.name + PARAMETER_MARKER@,
                    data_type: LeafType::String,
                },
            ),
            None => None,
        },
        _ => None,
    }
}

/// The columns of the functions `functions`, in their order.
pub open spec fn spec_columns(
    types: Seq<(QualifiedNameView, ATypeView)>,
    functions: Seq<QualifiedNameView>,
) -> Seq<ColumnView> {
    functions.map_values(|f: QualifiedNameView| spec_column(types, f).unwrap())
}

/// The table of the entity `entity` with the functions `functions`.
pub open spec fn spec_table(
    types: Seq<(QualifiedNameView, ATypeView)>,
    entity: QualifiedNameView,
    functions: Seq<QualifiedNameView>,
) -> TableView {
    TableView {
        schema: TABLE_SCHEMA@,
        name: entity.table_name(),
        columns: spec_columns(types, functions),
    }
}

/// The tables of an application: one for each entity, in their order.
pub open spec fn spec_ast_to_db(app: ApplicationView) -> Seq<TableView> {
    app.entity_functions.map_values(
        |e: (QualifiedNameView, Seq<QualifiedNameView>)| spec_table(app.types, e.0, e.1),
    )
}

/// In a well-formed application every function has a column.
pub proof fn lemma_function_has_column(app: ApplicationView, function: QualifiedNameView)
    requires
        app.well_formed(),
    ensures
        spec_column(app.types, function) is Some <==> is_function(app.types, function),
{
    if is_function(app.types, function) {
        let at = lemma_lookup_witness(app.types, function, 0);
        assert(references_resolve(app.types, app.types[at].1));
    }
}

/// The column that a function is projected to; none where the name is not
/// that of a function.
pub fn function_to_column(ast: &Application, qn: &QualifiedName) -> (r: Option<Column>)
    ensures
        r.deep_view() == spec_column(ast@.types, qn@),
        r is Some <==> is_function(ast@.types, qn@),
{
    proof {
        use_type_invariant(ast);
        lemma_function_has_column(ast@, qn@);
    }
    let codom = match ast.get_type(qn) {
        Some(AType::FunctionType(f)) => f.codom(),
        _ => { return None; },
    };
    match ast.get_type(&codom) {
        Some(AType::LeafType(leaf)) => Some(Column::new(qn.name().as_str(), *leaf)),
        Some(AType::EntityType(_)) => Some(Column::new(qn.name().as_str(), LeafType::Id)),
        Some(AType::FunctionType(_)) => {
            let mut name = qn.name();
            name.append(PARAMETER_MARKER);
            Some(Column::new(name.as_str(), LeafType::String))
        },
        None => None,
    }
}

/// The columns that functions are projected to, in the order of the
/// functions; none where one of the names is not that of a function.
pub fn functions_to_columns(ast: &Application, qn: &Vec<QualifiedName>) -> (r: Option<Vec<Column>>)
    ensures
        r is Some <==> all_functions(ast@.types, qn.deep_view()),
        r matches Some(columns) ==> columns.deep_view() == spec_columns(
            ast@.types,
            qn.deep_view(),
        ),
{
    let mut columns: Vec<Column> = Vec::new();
    let mut k: usize = 0;
    while k < qn.len()
        invariant
            k <= qn.len(),
            columns.len() == k,
            forall|m: int| 0 <= m < k ==> is_function(ast@.types, #[trigger] qn.deep_view()[m]),
            forall|m: int|
                0 <= m < k ==> Some((#[trigger] columns@[m])@) == spec_column(
                    ast@.types,
                    qn.deep_view()[m],
                ),
        decreases qn.len() - k,
    {
        assert(qn.deep_view()[k as int] == qn@[k as int]@);
        match function_to_column(ast, &qn[k]) {
            Some(column) => {
                columns.push(column);
            },
            None => {
                return None;
            },
        }
        k += 1;
    }
    assert(columns.deep_view() =~= spec_columns(ast@.types, qn.deep_view()));
    Some(columns)
}

/// The table that an entity is projected to; none where the name is not
/// that of an entity of the application.
pub fn entity_to_table(ast: &Application, qn: &QualifiedName) -> (r: Option<Table>)
    ensures
        match r {
            Some(table) => ast@.functions_of(qn@) matches Some(functions) && table@ == spec_table(
                ast@.types,
                qn@,
                functions,
            ),
            None => ast@.functions_of(qn@) is None,
        },
{
    let functions = match ast.get_entity_functions(qn) {
        Some(functions) => functions,
        None => { return None; },
    };
    proof {
        use_type_invariant(ast);
        let at = lemma_lookup_witness(ast@.entity_functions, qn@, 0);
        assert(all_functions(ast@.types, ast@.entity_functions[at].1));
    }
    match functions_to_columns(ast, functions) {
        Some(columns) => Some(Table::new(TABLE_SCHEMA, qn.table_name().as_str(), columns)),
        None => None,
    }
}

/// The tables that an application is projected to: one for each entity, in
/// the order of the entities, with a column for each function of the entity,
/// in the order of the functions.
pub fn ast_to_db(ast: &Application) -> (r: Database)
    ensures
        r@ == spec_ast_to_db(ast@),
{
    let entities = ast.entity_functions();
    let mut tables: Vec<Table> = Vec::new();
    let mut k: usize = 0;
    while k < entities.len()
        invariant
            k <= entities.len(),
            entities.deep_view() == ast@.entity_functions,
            tables.len() == k,
            forall|j: int| 0 <= j < k ==> (#[trigger] tables@[j])@ == spec_ast_to_db(ast@)[j],
        decreases entities.len() - k,
    {
        proof {
            use_type_invariant(ast);
            assert(entities.deep_view()[k as int] == (
                entities@[k as int].0@,
                entities@[k as int].1.deep_view(),
            ));
            lemma_lookup_entry(ast@.entity_functions, k as int);
        }
        let table = match entity_to_table(ast, &entities[k].0) {
            Some(table) => table,
            None => vstd::pervasive::unreached(),
        };
        tables.push(table);
        k += 1;
    }
    assert(tables.deep_view() =~= spec_ast_to_db(ast@));
    Database::new(tables)
}

// ---------------------------------------------------------------------------
// Diagnosis
// ---------------------------------------------------------------------------

/// How a column of an entity, or its whole table, compares with the
/// database.
#[derive(Debug, PartialEq)]
pub enum DiffDiagnosis {
    /// The database has the column, with the same type.
    NoDiff,
    /// The database has no table for the entity.
    TableMissing,
    /// The table has no column of this name.
    ColumnMissing(String),
    /// The table has the column of this name with another type: the name,
    /// the type that the entity asks for, and the type that the table has.
    ColumnTypeMismatch(String, LeafType, LeafType),
}

/// What specifications see of a [`DiffDiagnosis`].
pub enum DiffDiagnosisView {
    NoDiff,
    TableMissing,
    ColumnMissing(Seq<char>),
    ColumnTypeMismatch(Seq<char>, LeafType, LeafType),
}

impl View for DiffDiagnosis {
    type V = DiffDiagnosisView;

    open spec fn view(&self) -> DiffDiagnosisView {
        match self {
            DiffDiagnosis::NoDiff => DiffDiagnosisView::NoDiff,
            DiffDiagnosis::TableMissing => DiffDiagnosisView::TableMissing,
            DiffDiagnosis::ColumnMissing(name) => DiffDiagnosisView::ColumnMissing(name@),
            DiffDiagnosis::ColumnTypeMismatch(name, expected, actual) => {
                DiffDiagnosisView::ColumnTypeMismatch(name@, *expected, *actual)
            },
        }
    }
}

impl DeepView for DiffDiagnosis {
    type V = DiffDiagnosisView;

    open spec fn deep_view(&self) -> DiffDiagnosisView {
        self@
    }
}

/// The table of an entity, with the entity's name.
#[derive(Debug)]
pub struct AstTable {
    entity_name: QualifiedName,
    table: Table,
}

/// The table of an entity, with how each of its columns compares with the
/// database.
#[derive(Debug)]
pub struct DbDiff {
    entity_table: AstTable,
    diff_diagnosis: Vec<DiffDiagnosis>,
}

/// What specifications see of a [`DbDiff`].
pub struct DbDiffView {
    pub entity_name: QualifiedNameView,
    pub table: TableView,
    pub diff_diagnosis: Seq<DiffDiagnosisView>,
}

impl View for DbDiff {
    type V = DbDiffView;

    closed spec fn view(&self) -> DbDiffView {
        DbDiffView {
            entity_name: self.entity_table.entity_name@,
            table: self.entity_table.table@,
            diff_diagnosis: self.diff_diagnosis.deep_view(),
        }
    }
}

impl DeepView for DbDiff {
    type V = DbDiffView;

    open spec fn deep_view(&self) -> DbDiffView {
        self@
    }
}

impl DbDiff {
    /// The diff of an entity: its name, its table and the diagnoses.
    pub fn new(entity_name: QualifiedName, table: Table, diff_diagnosis: Vec<DiffDiagnosis>) -> (r:
        DbDiff)
        ensures
            r@ == (DbDiffView {
                entity_name: entity_name@,
                table: table@,
                diff_diagnosis: diff_diagnosis.deep_view(),
            }),
    {
        DbDiff { entity_table: AstTable { entity_name, table }, diff_diagnosis }
    }

    pub fn diff_diagnosis(&self) -> (r: &Vec<DiffDiagnosis>)
        ensures
            r.deep_view() == self@.diff_diagnosis,
    {
        &self.diff_diagnosis
    }

    pub fn db_table(&self) -> (r: &Table)
        ensures
            r@ == self@.table,
    {
        &self.entity_table.table
    }

    /// The name of the entity.
    pub fn entity_name(&self) -> (r: &QualifiedName)
        ensures
            r@ == self@.entity_name,
    {
        &self.entity_table.entity_name
    }
}

/// The first of `columns`, from the position `from` on, that has the name
/// `name`.
pub open spec fn find_column(columns: Seq<ColumnView>, name: Seq<char>, from: int) -> Option<
    ColumnView,
>
    decreases columns.len() - from,
{
    if from < 0 || from >= columns.len() {
        None
    } else if columns[from].name == name {
        Some(columns[from])
    } else {
        find_column(columns, name, from + 1)
    }
}

/// How a column of an entity compares with the columns of the database's
/// table: it is missing where none has its name; its type is mismatched
/// where the first of its name has another type; else there is no
/// difference.
pub open spec fn spec_diagnose_column(
    entity_column: ColumnView,
    database_columns: Seq<ColumnView>,
) -> DiffDiagnosisView {
    match find_column(database_columns, entity_column.name, 0) {
        None => DiffDiagnosisView::ColumnMissing(entity_column.name),
        Some(found) => if entity_column.data_type != found.data_type {
            DiffDiagnosisView::ColumnTypeMismatch(
                entity_column.name,
                entity_column.data_type,
                found.data_type,
            )
        } else {
            DiffDiagnosisView::NoDiff
        },
    }
}

/// The diagnoses of the columns of an entity, in their order.
pub open spec fn spec_diagnose_columns(
    entity_columns: Seq<ColumnView>,
    database_columns: Seq<ColumnView>,
) -> Seq<DiffDiagnosisView> {
    entity_columns.map_values(|c: ColumnView| spec_diagnose_column(c, database_columns))
}

/// The diagnoses of an entity's table: that the table is missing, once,
/// where the database has none; else one for each column of the entity.
pub open spec fn spec_diagnose_table(entity_table: TableView, database_table: Option<TableView>) -> Seq<
    DiffDiagnosisView,
> {
    match database_table {
        None => seq![DiffDiagnosisView::TableMissing],
        Some(table) => spec_diagnose_columns(entity_table.columns, table.columns),
    }
}

/// The diff of an entity against the tables of a simulated database.
pub open spec fn spec_diagnose_diff(
    types: Seq<(QualifiedNameView, ATypeView)>,
    tables: Seq<TableView>,
    entity: QualifiedNameView,
    functions: Seq<QualifiedNameView>,
) -> DbDiffView {
    let table = spec_table(types, entity, functions);
    DbDiffView {
        entity_name: entity,
        table,
        diff_diagnosis: spec_diagnose_table(table, mock::spec_lookup(tables, table.name)),
    }
}

/// The diffs of an application against the tables of a simulated
/// database: one for each entity, in the order of the entities.
pub open spec fn spec_diagnose_db_diffs(app: ApplicationView, tables: Seq<TableView>) -> Seq<
    DbDiffView,
> {
    app.entity_functions.map_values(
        |e: (QualifiedNameView, Seq<QualifiedNameView>)|
            spec_diagnose_diff(app.types, tables, e.0, e.1),
    )
}

pub fn diagnose_column(entity_column: &Column, database_columns: &Vec<Column>) -> (r:
    DiffDiagnosis)
    ensures
        r@ == spec_diagnose_column(entity_column@, database_columns.deep_view()),
{
    let name = entity_column.name();
    let mut k: usize = 0;
    while k < database_columns.len()
        invariant
            k <= database_columns.len(),
            name@ == entity_column@.name,
            find_column(database_columns.deep_view(), name@, 0) == find_column(
                database_columns.deep_view(),
                name@,
                k as int,
            ),
        decreases database_columns.len() - k,
    {
        assert(database_columns.deep_view()[k as int] == database_columns@[k as int]@);
        if database_columns[k].name() == name {
            let expected = entity_column.data_type();
            let actual = database_columns[k].data_type();
            if expected != actual {
                return DiffDiagnosis::ColumnTypeMismatch(name, expected, actual);
            } else {
                return DiffDiagnosis::NoDiff;
            }
        }
        k += 1;
    }
    DiffDiagnosis::ColumnMissing(name)
}

pub fn diagnose_columns(entity_columns: &Vec<Column>, database_columns: &Vec<Column>) -> (r: Vec<
    DiffDiagnosis,
>)
    ensures
        r.deep_view() == spec_diagnose_columns(
            entity_columns.deep_view(),
            database_columns.deep_view(),
        ),
{
    let mut all: Vec<DiffDiagnosis> = Vec::new();
    let mut k: usize = 0;
    while k < entity_columns.len()
        invariant
            k <= entity_columns.len(),
            all.len() == k,
            forall|j: int|
                0 <= j < k ==> (#[trigger] all@[j])@ == spec_diagnose_column(
                    entity_columns@[j]@,
                    database_columns.deep_view(),
                ),
        decreases entity_columns.len() - k,
    {
        all.push(diagnose_column(&entity_columns[k], database_columns));
        k += 1;
    }
    assert(all.deep_view() =~= spec_diagnose_columns(
        entity_columns.deep_view(),
        database_columns.deep_view(),
    ));
    all
}

fn diagnose_found(entity_table: &Table, database_table: &Option<Table>) -> (r: Vec<DiffDiagnosis>)
    ensures
        r.deep_view() == spec_diagnose_table(entity_table@, database_table.deep_view()),
{
    match database_table {
        None => {
            let all = vec![DiffDiagnosis::TableMissing];
            assert(all.deep_view() =~= seq![DiffDiagnosisView::TableMissing]);
            all
        },
        Some(table) => diagnose_columns(entity_table.columns(), table.columns()),
    }
}

/// Compares the table of an entity with what a driver found for it.
pub fn diagnose_table(entity_table: &Table, database_table: Option<Table>) -> (r: Vec<
    DiffDiagnosis,
>)
    ensures
        r.deep_view() == spec_diagnose_table(entity_table@, database_table.deep_view()),
{
    diagnose_found(entity_table, &database_table)
}

/// The diff of an entity against what a driver found for its table.
pub open spec fn spec_diagnose_answer(
    types: Seq<(QualifiedNameView, ATypeView)>,
    entity: (QualifiedNameView, Seq<QualifiedNameView>),
    answer: Option<TableView>,
) -> DbDiffView {
    let table = spec_table(types, entity.0, entity.1);
    DbDiffView {
        entity_name: entity.0,
        table,
        diff_diagnosis: spec_diagnose_table(table, answer),
    }
}

/// The diffs of an application against what a driver found for the table
/// of each entity, in the order of the entities.
pub open spec fn spec_diagnose_answers(app: ApplicationView, answers: Seq<Option<TableView>>) -> Seq<
    DbDiffView,
> {
    Seq::new(
        app.entity_functions.len(),
        |e: int| spec_diagnose_answer(app.types, app.entity_functions[e], answers[e]),
    )
}

/// Compares every entity of the application with what a driver found for
/// its table.
///
/// `answers` holds, for each table of the application in the order of
/// [`ast_to_db`], the table that the database has for it, or `None` where
/// it has none. The result holds one diff for each entity, in the order of
/// the entities; there is none where the answers are not as many as the
/// entities.
pub fn diagnose_answers(ast: &Application, answers: &Vec<Option<Table>>) -> (r: Option<Vec<DbDiff>>)
    ensures
        match r {
            Some(diffs) => answers.len() == ast@.entity_functions.len() && diffs.deep_view()
                == spec_diagnose_answers(ast@, answers.deep_view()),
            None => answers.len() != ast@.entity_functions.len(),
        },
{
    let entities = ast.entity_functions();
    if answers.len() != entities.len() {
        return None;
    }
    let mut diffs: Vec<DbDiff> = Vec::new();
    let mut k: usize = 0;
    while k < entities.len()
        invariant
            k <= entities.len(),
            entities.deep_view() == ast@.entity_functions,
            answers.len() == entities.len(),
            diffs.len() == k,
            forall|j: int|
                0 <= j < k ==> (#[trigger] diffs@[j])@ == spec_diagnose_answers(
                    ast@,
                    answers.deep_view(),
                )[j],
        decreases entities.len() - k,
    {
        proof {
            use_type_invariant(ast);
            assert(entities.deep_view()[k as int] == (
                entities@[k as int].0@,
                entities@[k as int].1.deep_view(),
            ));
            lemma_lookup_entry(ast@.entity_functions, k as int);
            assert(answers.deep_view()[k as int] == answers@[k as int].deep_view());
        }
        let entity_table = match entity_to_table(ast, &entities[k].0) {
            Some(table) => table,
            None => vstd::pervasive::unreached(),
        };
        let diff_diagnosis = diagnose_found(&entity_table, &answers[k]);
        diffs.push(DbDiff::new(entities[k].0.clone(), entity_table, diff_diagnosis));
        k += 1;
    }
    assert(diffs.deep_view() =~= spec_diagnose_answers(ast@, answers.deep_view()));
    Some(diffs)
}

/// Compares one entity of the application with the simulated database.
pub fn diagnose_diff(
    ast: &Application,
    db_config: &DatabaseConfig,
    entity_qname: &QualifiedName,
) -> (r: Result<DbDiff, DiffError>)
    ensures
        match r {
            Ok(diff) => db_config@ matches DatabaseConfigView::MockDb(tables) && ast@.functions_of(
                entity_qname@,
            ) matches Some(functions) && diff@ == spec_diagnose_diff(
                ast@.types,
                tables,
                entity_qname@,
                functions,
            ),
            Err(e) => if ast@.functions_of(entity_qname@) is None {
                e@ == DiffErrorView::NoSuchEntity(entity_qname@.name)
            } else {
                !(db_config@ is MockDb) && e@ == DiffErrorView::WrongDriver
            },
        },
{
    let entity_table = match entity_to_table(ast, entity_qname) {
        Some(table) => table,
        None => { return Err(DiffError::NoSuchEntity(entity_qname.name())); },
    };
    let database_table = match mock::db_table_for_ast_table(db_config, &entity_table) {
        Ok(found) => found,
        Err(e) => { return Err(e); },
    };
    let diff_diagnosis = diagnose_table(&entity_table, database_table);
    Ok(DbDiff::new(entity_qname.clone(), entity_table, diff_diagnosis))
}

/// Compares every entity of the application with the simulated database.
///
/// The result holds one diff for each entity, in the order of the
/// entities. It is an error where the configuration is not that of a
/// simulated database.
pub fn diagnose_db_diffs(ast: &Application, db_config: &DatabaseConfig) -> (r: Result<
    Vec<DbDiff>,
    DiffError,
>)
    ensures
        match r {
            Ok(diffs) => db_config@ matches DatabaseConfigView::MockDb(tables)
                && diffs.deep_view() == spec_diagnose_db_diffs(ast@, tables),
            Err(e) => !(db_config@ is MockDb) && e@ == DiffErrorView::WrongDriver,
        },
{
    let config = match db_config {
        DatabaseConfig::MockDb(config) => config,
        _ => { return Err(DiffError::WrongDriver); },
    };
    let entities = ast.entity_functions();
    let mut diffs: Vec<DbDiff> = Vec::new();
    let mut k: usize = 0;
    while k < entities.len()
        invariant
            k <= entities.len(),
            entities.deep_view() == ast@.entity_functions,
            db_config@ == DatabaseConfigView::MockDb(config@),
            diffs.len() == k,
            forall|j: int|
                0 <= j < k ==> (#[trigger] diffs@[j])@ == spec_diagnose_db_diffs(ast@, config@)[j],
        decreases entities.len() - k,
    {
        proof {
            use_type_invariant(ast);
            assert(entities.deep_view()[k as int] == (
                entities@[k as int].0@,
                entities@[k as int].1.deep_view(),
            ));
            lemma_lookup_entry(ast@.entity_functions, k as int);
        }
        let diff = match diagnose_diff(ast, db_config, &entities[k].0) {
            Ok(diff) => diff,
            Err(_) => vstd::pervasive::unreached(),
        };
        diffs.push(diff);
        k += 1;
    }
    assert(diffs.deep_view() =~= spec_diagnose_db_diffs(ast@, config@));
    Ok(diffs)
}

// ---------------------------------------------------------------------------
// Compilation
// ---------------------------------------------------------------------------

/// The change that diffs compile to for a database.
pub open spec fn spec_diffs_to_script(
    db_diffs: Seq<DbDiffView>,
    db_config: DatabaseConfigView,
) -> DatabaseChangeView {
    match db_config {
        DatabaseConfigView::MockDb(_) => DatabaseChangeView::MockDb(
            DatabaseConfigView::MockDb(
                db_diffs.map_values(|d: DbDiffView| mock::spec_copy_table(d.table)),
            ),
        ),
        DatabaseConfigView::Postgres(_) => DatabaseChangeView::SqlDb(
            postgres::spec_commands(db_diffs),
        ),
    }
}

/// Compiles the diffs into the change that the configured database is to
/// undergo: for a simulated database its tables, for PostgreSQL the
/// commands.
pub fn diffs_to_script(db_diffs: &Vec<DbDiff>, db_config: &DatabaseConfig) -> (r: DatabaseChange)
    ensures
        r@ == spec_diffs_to_script(db_diffs.deep_view(), db_config@),
{
    match db_config {
        DatabaseConfig::MockDb(_) => mock::diffs_to_changes(db_diffs, db_config),
        DatabaseConfig::Postgres(_) => postgres::diffs_to_changes(db_diffs, db_config),
    }
}

/// The tables that the configured database holds, by schema and name. They
/// are known where the database is a simulated one.
pub fn tables(db: &DatabaseConfig) -> (r: Result<Vec<Table>, DiffError>)
    ensures
        match r {
            Ok(all) => db@ matches DatabaseConfigView::MockDb(held) && all.deep_view()
                == held.map_values(|t: TableView| mock::bare_table(t.schema, t.name)),
            Err(e) => !(db@ is MockDb) && e@ == DiffErrorView::WrongDriver,
        },
{
    match db {
        DatabaseConfig::MockDb(config) => Ok(mock::tables(config)),
        _ => Err(DiffError::WrongDriver),
    }
}

// ---------------------------------------------------------------------------
// What holds of projection and diagnosis
// ---------------------------------------------------------------------------

/// The first column of a name, where there is one from `from` on.
pub proof fn lemma_find_column_first(columns: Seq<ColumnView>, name: Seq<char>, from: int, at: int)
    requires
        0 <= from <= at < columns.len(),
        columns[at].name == name,
        forall|j: int| from <= j < at ==> (#[trigger] columns[j]).name != name,
    ensures
        find_column(columns, name, from) == Some(columns[at]),
    decreases at - from,
{
    if from < at {
        lemma_find_column_first(columns, name, from + 1, at);
    }
}

/// No column is found where none has the name.
pub proof fn lemma_find_column_absent(columns: Seq<ColumnView>, name: Seq<char>, from: int)
    requires
        0 <= from,
        forall|j: int| from <= j < columns.len() ==> (#[trigger] columns[j]).name != name,
    ensures
        find_column(columns, name, from) is None,
    decreases columns.len() - from,
{
    if from < columns.len() {
        lemma_find_column_absent(columns, name, from + 1);
    }
}

/// A column that is found has the name, and none before it has.
pub proof fn lemma_find_column_witness(columns: Seq<ColumnView>, name: Seq<char>, from: int) -> (at:
    int)
    requires
        0 <= from,
        find_column(columns, name, from) is Some,
    ensures
        from <= at < columns.len(),
        columns[at].name == name,
        find_column(columns, name, from) == Some(columns[at]),
        forall|j: int| from <= j < at ==> (#[trigger] columns[j]).name != name,
    decreases columns.len() - from,
{
    if columns[from].name == name {
        from
    } else {
        lemma_find_column_witness(columns, name, from + 1)
    }
}

/// A column is found where one has the name.
pub proof fn lemma_find_column_some(columns: Seq<ColumnView>, name: Seq<char>, from: int, at: int)
    requires
        0 <= from <= at < columns.len(),
        columns[at].name == name,
    ensures
        find_column(columns, name, from) is Some,
    decreases at - from,
{
    if from < at && columns[from].name != name {
        lemma_find_column_some(columns, name, from + 1, at);
    }
}

/// Against a database without tables, every entity's table is missing: the
/// diffs are as many as the entities, and each holds that one diagnosis.
pub proof fn law_no_tables(app: ApplicationView)
    ensures
        spec_diagnose_db_diffs(app, Seq::empty()).len() == app.entity_functions.len(),
        forall|b: int|
            0 <= b < app.entity_functions.len() ==> (#[trigger] spec_diagnose_db_diffs(
                app,
                Seq::empty(),
            )[b]).diff_diagnosis == seq![DiffDiagnosisView::TableMissing],
{
}

/// An application of one entity, diffed against a database without
/// tables, yields exactly one diff, and its diagnoses are the single one
/// that the table is missing.
pub proof fn law_one_entity_no_tables(app: ApplicationView)
    requires
        app.entity_functions.len() == 1,
    ensures
        spec_diagnose_db_diffs(app, Seq::empty()).len() == 1,
        spec_diagnose_db_diffs(app, Seq::empty())[0].diff_diagnosis
            == seq![DiffDiagnosisView::TableMissing],
{
    law_no_tables(app);
}

/// Columns of one name have one type.
pub open spec fn names_fix_types(columns: Seq<ColumnView>) -> bool {
    forall|i: int, j: int|
        0 <= i < columns.len() && 0 <= j < columns.len() && (#[trigger] columns[i]).name == (
        #[trigger] columns[j]).name ==> columns[i].data_type == columns[j].data_type
}

/// Where the table of the database has exactly the columns of the entity's
/// table, with the same names and types, every diagnosis is that there is
/// no difference. This is stated of entities whose columns of one name have
/// one type: the diagnosis goes by the first column of a name.
pub proof fn law_same_columns(entity_table: TableView, database_table: TableView)
    requires
        database_table.columns == entity_table.columns,
        names_fix_types(entity_table.columns),
    ensures
        spec_diagnose_table(entity_table, Some(database_table)).len()
            == entity_table.columns.len(),
        forall|i: int|
            0 <= i < entity_table.columns.len() ==> (#[trigger] spec_diagnose_table(
                entity_table,
                Some(database_table),
            )[i]) == DiffDiagnosisView::NoDiff,
{
    let columns = entity_table.columns;
    assert forall|i: int| 0 <= i < columns.len() implies (#[trigger] spec_diagnose_table(
        entity_table,
        Some(database_table),
    )[i]) == DiffDiagnosisView::NoDiff by {
        let name = columns[i].name;
        lemma_find_column_some(columns, name, 0, i);
        let at = lemma_find_column_witness(columns, name, 0);
        assert(columns[at].name == columns[i].name);
    }
}

/// Where the table of the database has no column of the name of a column
/// of the entity, the diagnosis of that column is that it is missing.
pub proof fn law_missing_column(entity_table: TableView, database_table: TableView, i: int)
    requires
        0 <= i < entity_table.columns.len(),
        forall|k: int|
            0 <= k < database_table.columns.len() ==> (#[trigger] database_table.columns[k]).name
                != entity_table.columns[i].name,
    ensures
        spec_diagnose_table(entity_table, Some(database_table))[i]
            == DiffDiagnosisView::ColumnMissing(entity_table.columns[i].name),
{
    lemma_find_column_absent(database_table.columns, entity_table.columns[i].name, 0);
}

/// The diagnosis of a column goes by that column and the table of the
/// database alone: whatever stands in the place of another column of the
/// entity, it stays the same.
pub proof fn law_other_columns_unaffected(
    entity_columns: Seq<ColumnView>,
    database_columns: Seq<ColumnView>,
    i: int,
    other: ColumnView,
    j: int,
)
    requires
        0 <= i < entity_columns.len(),
        0 <= j < entity_columns.len(),
        i != j,
    ensures
        spec_diagnose_columns(entity_columns.update(i, other), database_columns)[j]
            == spec_diagnose_columns(entity_columns, database_columns)[j],
{
}

/// The diagnosis of a column goes by the columns of its name alone: a
/// column of another name, put into the table of the database at any
/// place, changes nothing of it.
pub proof fn law_other_names_unaffected(
    entity_column: ColumnView,
    database_columns: Seq<ColumnView>,
    at: int,
    other: ColumnView,
)
    requires
        0 <= at <= database_columns.len(),
        other.name != entity_column.name,
    ensures
        spec_diagnose_column(entity_column, database_columns.insert(at, other))
            == spec_diagnose_column(entity_column, database_columns),
{
    lemma_find_column_insert(database_columns, entity_column.name, 0, at, other);
}

proof fn lemma_find_column_insert(
    columns: Seq<ColumnView>,
    name: Seq<char>,
    from: int,
    at: int,
    other: ColumnView,
)
    requires
        0 <= from <= at <= columns.len(),
        other.name != name,
    ensures
        find_column(columns.insert(at, other), name, from) == find_column(columns, name, from),
    decreases columns.len() - from,
{
    let longer = columns.insert(at, other);
    if from < at {
        assert(longer[from] == columns[from]);
        if columns[from].name != name {
            lemma_find_column_insert(columns, name, from + 1, at, other);
        }
    } else {
        assert(longer[at] == other);
        lemma_find_column_shift(columns, name, at, at, other);
    }
}

proof fn lemma_find_column_shift(
    columns: Seq<ColumnView>,
    name: Seq<char>,
    from: int,
    at: int,
    other: ColumnView,
)
    requires
        0 <= at <= from <= columns.len(),
    ensures
        find_column(columns.insert(at, other), name, from + 1) == find_column(columns, name, from),
    decreases columns.len() - from,
{
    let longer = columns.insert(at, other);
    if from < columns.len() {
        assert(longer[from + 1] == columns[from]);
        if columns[from].name != name {
            lemma_find_column_shift(columns, name, from + 1, at, other);
        }
    }
}

/// Where the first column of the table of the database that has the name
/// of a column of the entity has another type, the diagnosis of that column
/// is a mismatch of types: it names the column, the type that the entity
/// asks for and the type that the table has, and these two differ.
pub proof fn law_type_mismatch(
    entity_table: TableView,
    database_table: TableView,
    i: int,
    at: int,
)
    requires
        0 <= i < entity_table.columns.len(),
        0 <= at < database_table.columns.len(),
        database_table.columns[at].name == entity_table.columns[i].name,
        forall|j: int|
            0 <= j < at ==> (#[trigger] database_table.columns[j]).name
                != entity_table.columns[i].name,
        database_table.columns[at].data_type != entity_table.columns[i].data_type,
    ensures
        spec_diagnose_table(entity_table, Some(database_table))[i]
            == DiffDiagnosisView::ColumnTypeMismatch(
            entity_table.columns[i].name,
            entity_table.columns[i].data_type,
            database_table.columns[at].data_type,
        ),
{
    lemma_find_column_first(database_table.columns, entity_table.columns[i].name, 0, at);
}

/// A mismatch of types is never diagnosed of two equal types: the type that
/// the entity asks for, which is the column's, differs from the one found.
pub proof fn law_mismatch_differs(entity_column: ColumnView, database_columns: Seq<ColumnView>)
    ensures
        spec_diagnose_column(entity_column, database_columns) matches DiffDiagnosisView::ColumnTypeMismatch(
            name,
            expected,
            actual,
        ) ==> name == entity_column.name && expected == entity_column.data_type && expected
            != actual,
{
}

/// The diagnoses of a table that the database has are as many as the
/// columns of the entity, in their order; of a table that it lacks there
/// is one.
pub proof fn law_one_diagnosis_per_column(
    entity_table: TableView,
    database_table: Option<TableView>,
)
    ensures
        database_table is Some ==> spec_diagnose_table(entity_table, database_table).len()
            == entity_table.columns.len(),
        database_table is None ==> spec_diagnose_table(entity_table, database_table).len() == 1,
{
}

/// Against a simulated database the diffs are those against its answers:
/// for the table of each entity, the first table of that name that the
/// database holds.
pub proof fn law_mock_answers(app: ApplicationView, tables: Seq<TableView>)
    ensures
        spec_diagnose_db_diffs(app, tables) == spec_diagnose_answers(
            app,
            spec_ast_to_db(app).map_values(|t: TableView| mock::spec_lookup(tables, t.name)),
        ),
{
    assert(spec_diagnose_db_diffs(app, tables) =~= spec_diagnose_answers(
        app,
        spec_ast_to_db(app).map_values(|t: TableView| mock::spec_lookup(tables, t.name)),
    ));
}

/// Projection goes by the types and the entities of an application alone:
/// two applications that agree in them have the same tables, with the same
/// names and the same columns in the same order. There is one table for
/// each entity, and in it one column for each function of the entity.
pub proof fn law_projection_is_a_function(a: ApplicationView, b: ApplicationView)
    requires
        a.types == b.types,
        a.entity_functions == b.entity_functions,
    ensures
        spec_ast_to_db(a) == spec_ast_to_db(b),
        spec_ast_to_db(a).len() == a.entity_functions.len(),
        forall|e: int|
            0 <= e < a.entity_functions.len() ==> (#[trigger] spec_ast_to_db(a)[e]).columns.len()
                == a.entity_functions[e].1.len(),
{
    assert(spec_ast_to_db(a) =~= spec_ast_to_db(b));
}

/// Diagnosis goes by the application and the tables of the database
/// alone: the same application against the same tables has the same diffs
/// in the same order, one for each entity.
pub proof fn law_diagnosis_is_a_function(
    a: ApplicationView,
    a_tables: Seq<TableView>,
    b: ApplicationView,
    b_tables: Seq<TableView>,
)
    requires
        a.types == b.types,
        a.entity_functions == b.entity_functions,
        a_tables == b_tables,
    ensures
        spec_diagnose_db_diffs(a, a_tables) == spec_diagnose_db_diffs(b, b_tables),
        spec_diagnose_db_diffs(a, a_tables).len() == a.entity_functions.len(),
        forall|e: int|
            0 <= e < a.entity_functions.len() ==> (#[trigger] spec_diagnose_db_diffs(
                a,
                a_tables,
            )[e]).table == spec_ast_to_db(a)[e],
{
    assert(spec_diagnose_db_diffs(a, a_tables) =~= spec_diagnose_db_diffs(b, b_tables));
}

} // verus!
