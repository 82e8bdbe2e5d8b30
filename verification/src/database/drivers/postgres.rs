//! PostgreSQL: the commands that a diff compiles to, and what the catalog
//! and the execution of commands hand back.
//!
//! The connection is the caller's. What is sent to the server and what to
//! make of its answers is decided here.

use crate::database::integration::{DbDiff, DbDiffView, DiffDiagnosis, DiffDiagnosisView};
use crate::database::meta::{
    join, joined, Column, ColumnView, DatabaseChange, DatabaseChangeView, DatabaseConfig,
    DiffError, DiffErrorView, Table, TableView,
};
use crate::lang::internal::LeafType;
use vstd::prelude::*;
use vstd::string::StringExecFns;

verus! {

// ---------------------------------------------------------------------------
// Commands
// ---------------------------------------------------------------------------

/// The SQL type of a leaf type.
pub open spec fn spec_data_type_ddl(data_type: LeafType) -> Seq<char> {
    match data_type {
        LeafType::String => "varchar(255)"@,
        LeafType::Int => "integer"@,
        LeafType::Float => "double precision"@,
        LeafType::Bool => "boolean"@,
        LeafType::Id => "uuid"@,
    }
}

/// The definition of a column: its name, a space and its SQL type.
pub open spec fn spec_column_ddl(column: ColumnView) -> Seq<char> {
    column.name + " "@ + spec_data_type_ddl(column.data_type)
}

/// The definitions of the columns, separated by a comma and a space, in
/// round brackets.
pub open spec fn spec_columns_for_create_ddl(columns: Seq<ColumnView>) -> Seq<char> {
    "("@ + joined(columns.map_values(|c: ColumnView| spec_column_ddl(c)), ", "@) + ")"@
}

/// The command that creates a table.
pub open spec fn spec_table_ddl(table: TableView) -> Seq<char> {
    "CREATE TABLE "@ + table.name + " "@ + spec_columns_for_create_ddl(table.columns)
}

/// The command that a diagnosis asks for: where the table is missing, the
/// one that creates it; else none.
pub open spec fn spec_diagnosis_to_ddl(table: TableView, diagnosis: DiffDiagnosisView) -> Option<
    Seq<char>,
> {
    match diagnosis {
        DiffDiagnosisView::TableMissing => Some(spec_table_ddl(table)),
        _ => None,
    }
}

pub open spec fn commands_for(table: TableView) -> spec_fn(DiffDiagnosisView) -> Option<Seq<char>> {
    |d: DiffDiagnosisView| spec_diagnosis_to_ddl(table, d)
}

/// The commands that the diagnoses of a diff ask for, in the order of the
/// diagnoses.
pub open spec fn spec_diff_to_command(table: TableView, db_diff: DbDiffView) -> Seq<Seq<char>> {
    db_diff.diff_diagnosis.filter_map(commands_for(table))
}

/// The commands of all diffs: those of each diff, in the order of the diffs.
pub open spec fn spec_commands(db_diffs: Seq<DbDiffView>) -> Seq<Seq<char>> {
    db_diffs.map_values(|d: DbDiffView| spec_diff_to_command(d.table, d)).flatten()
}

pub fn data_type_ddl(data_type: LeafType) -> (r: String)
    ensures
        r@ == spec_data_type_ddl(data_type),
{
    match data_type {
        LeafType::String => String::from_str("varchar(255)"),
        LeafType::Int => String::from_str("integer"),
        LeafType::Float => String::from_str("double precision"),
        LeafType::Bool => String::from_str("boolean"),
        LeafType::Id => String::from_str("uuid"),
    }
}

pub fn column_ddl(column: &Column) -> (r: String)
    ensures
        r@ == spec_column_ddl(column@),
{
    let mut text = column.name();
    text.append(" ");
    text.append(data_type_ddl(column.data_type()).as_str());
    text
}

pub fn columns_for_create_ddl(columns: &Vec<Column>) -> (r: String)
    ensures
        r@ == spec_columns_for_create_ddl(columns.deep_view()),
{
    let mut definitions: Vec<String> = Vec::new();
    let mut k: usize = 0;
    while k < columns.len()
        invariant
            k <= columns.len(),
            definitions.len() == k,
            forall|j: int| 0 <= j < k ==> (#[trigger] definitions@[j])@ == spec_column_ddl(
                columns@[j]@,
            ),
        decreases columns.len() - k,
    {
        definitions.push(column_ddl(&columns[k]));
        k += 1;
    }
    assert(definitions.deep_view() =~= columns.deep_view().map_values(
        |c: ColumnView| spec_column_ddl(c),
    ));
    let mut text = String::from_str("(");
    text.append(join(&definitions, ", ").as_str());
    text.append(")");
    text
}

pub fn table_ddl(table: &Table) -> (r: String)
    ensures
        r@ == spec_table_ddl(table@),
{
    let mut text = String::from_str("CREATE TABLE ");
    text.append(table.name().as_str());
    text.append(" ");
    text.append(columns_for_create_ddl(table.columns()).as_str());
    text
}

/// The command that a diagnosis asks for, if it asks for one.
pub fn diagnosis_to_ddl(table: &Table, diagnosis: &DiffDiagnosis) -> (r: Option<String>)
    ensures
        r.deep_view() == spec_diagnosis_to_ddl(table@, diagnosis@),
{
    match diagnosis {
        DiffDiagnosis::TableMissing => Some(table_ddl(table)),
        _ => None,
    }
}

/// The commands that the diagnoses of a diff ask of the table `table`.
pub fn diff_to_command(table: &Table, db_diff: &DbDiff) -> (r: Vec<String>)
    ensures
        r.deep_view() == spec_diff_to_command(table@, db_diff@),
{
    let diagnoses = db_diff.diff_diagnosis();
    let ghost all = diagnoses.deep_view();
    let mut commands: Vec<String> = Vec::new();
    let mut k: usize = 0;
    assert(all.take(0).filter_map(commands_for(table@)) =~= Seq::empty());
    assert(commands.deep_view() =~= Seq::empty());
    while k < diagnoses.len()
        invariant
            k <= diagnoses.len(),
            all == diagnoses.deep_view(),
            commands.deep_view() == all.take(k as int).filter_map(commands_for(table@)),
        decreases diagnoses.len() - k,
    {
        proof {
            all.lemma_filter_map_take_succ(commands_for(table@), k as int);
        }
        assert(all[k as int] == diagnoses@[k as int]@);
        let ghost before = commands.deep_view();
        match diagnosis_to_ddl(table, &diagnoses[k]) {
            Some(command) => {
                commands.push(command);
                assert(commands.deep_view() =~= before + seq![command@]);
            },
            None => {
                assert(before =~= before + Seq::<Seq<char>>::empty());
            },
        }
        k += 1;
    }
    assert(all.take(k as int) =~= all);
    commands
}

/// Compiles the diffs into the commands that reconcile the database: for
/// each diff, in order, the commands that its diagnoses ask for.
pub fn diffs_to_changes(db_diffs: &Vec<DbDiff>, db_config: &DatabaseConfig) -> (r: DatabaseChange)
    ensures
        r@ == DatabaseChangeView::SqlDb(spec_commands(db_diffs.deep_view())),
{
    let ghost per_diff = db_diffs.deep_view().map_values(
        |d: DbDiffView| spec_diff_to_command(d.table, d),
    );
    let mut commands: Vec<String> = Vec::new();
    let mut k: usize = 0;
    assert(per_diff.take(0) =~= Seq::empty());
    assert(commands.deep_view() =~= Seq::<Seq<char>>::empty());
    while k < db_diffs.len()
        invariant
            k <= db_diffs.len(),
            per_diff == db_diffs.deep_view().map_values(
                |d: DbDiffView| spec_diff_to_command(d.table, d),
            ),
            commands.deep_view() == per_diff.take(k as int).flatten(),
        decreases db_diffs.len() - k,
    {
        let more = diff_to_command(db_diffs[k].db_table(), &db_diffs[k]);
        proof {
            assert(per_diff[k as int] == more.deep_view());
            per_diff.take(k as int).lemma_flatten_push(per_diff[k as int]);
            assert(per_diff.take(k as int).push(per_diff[k as int]) =~= per_diff.take(k + 1));
        }
        let ghost before = commands.deep_view();
        let mut m: usize = 0;
        while m < more.len()
            invariant
                m <= more.len(),
                commands.deep_view() == before + more.deep_view().take(m as int),
            decreases more.len() - m,
        {
            let ghost sofar = commands.deep_view();
            commands.push(more[m].clone());
            assert(commands.deep_view() =~= sofar.push(more@[m as int]@));
            assert(sofar.push(more@[m as int]@) =~= before + more.deep_view().take(m + 1));
            m += 1;
        }
        assert(more.deep_view().take(m as int) =~= more.deep_view());
        k += 1;
    }
    assert(per_diff.take(k as int) =~= per_diff);
    DatabaseChange::SqlDb(commands)
}

// ---------------------------------------------------------------------------
// Diagnoses without a command
// ---------------------------------------------------------------------------

/// The diagnosis asks for a change that no command makes yet: a column is
/// to be added, or its type changed.
pub open spec fn is_pending(diagnosis: DiffDiagnosisView) -> bool {
    diagnosis is ColumnMissing || diagnosis is ColumnTypeMismatch
}

pub open spec fn pending_only() -> spec_fn(DiffDiagnosisView) -> Option<DiffDiagnosisView> {
    |d: DiffDiagnosisView|
        if is_pending(d) {
            Some(d)
        } else {
            None
        }
}

/// The diagnoses of a diff that ask for a change that no command makes, in
/// their order: they are to be shown to the operator.
pub fn pending_diagnoses(db_diff: &DbDiff) -> (r: Vec<&DiffDiagnosis>)
    ensures
        r.deep_view() == db_diff@.diff_diagnosis.filter_map(pending_only()),
{
    let diagnoses = db_diff.diff_diagnosis();
    let ghost all = diagnoses.deep_view();
    let mut pending: Vec<&DiffDiagnosis> = Vec::new();
    let mut k: usize = 0;
    assert(all.take(0).filter_map(pending_only()) =~= Seq::empty());
    assert(pending.deep_view() =~= Seq::empty());
    while k < diagnoses.len()
        invariant
            k <= diagnoses.len(),
            all == diagnoses.deep_view(),
            pending.deep_view() == all.take(k as int).filter_map(pending_only()),
        decreases diagnoses.len() - k,
    {
        proof {
            all.lemma_filter_map_take_succ(pending_only(), k as int);
        }
        assert(all[k as int] == diagnoses@[k as int]@);
        let ghost before = pending.deep_view();
        match &diagnoses[k] {
            DiffDiagnosis::ColumnMissing(_) => {
                pending.push(&diagnoses[k]);
                assert(pending.deep_view() =~= before + seq![all[k as int]]);
            },
            DiffDiagnosis::ColumnTypeMismatch(_, _, _) => {
                pending.push(&diagnoses[k]);
                assert(pending.deep_view() =~= before + seq![all[k as int]]);
            },
            _ => {
                assert(before =~= before + Seq::<DiffDiagnosisView>::empty());
            },
        }
        k += 1;
    }
    assert(all.take(k as int) =~= all);
    pending
}

// ---------------------------------------------------------------------------
// Execution
// ---------------------------------------------------------------------------

pub open spec fn failure() -> spec_fn(Result<(), Seq<char>>) -> Option<Seq<char>> {
    |outcome: Result<(), Seq<char>>|
        match outcome {
            Err(message) => Some(message),
            Ok(_) => None,
        }
}

/// The messages of the commands that failed, in the order of the commands.
pub open spec fn failures(outcomes: Seq<Result<(), Seq<char>>>) -> Seq<Seq<char>> {
    outcomes.filter_map(failure())
}

/// What specifications see of the outcomes of the commands.
pub open spec fn outcomes_view(outcomes: Seq<Result<(), String>>) -> Seq<Result<(), Seq<char>>> {
    outcomes.map_values(
        |o: Result<(), String>|
            match o {
                Ok(_) => Ok(()),
                Err(message) => Err(message@),
            },
    )
}

/// The result of applying a change, from the outcome of each of its
/// commands: every command was attempted; where one or more failed, the
/// result holds the messages of all that did, one per line.
pub fn execute_changes(outcomes: &Vec<Result<(), String>>) -> (r: Result<(), String>)
    ensures
        match r {
            Ok(_) => failures(outcomes_view(outcomes@)).len() == 0,
            Err(message) => failures(outcomes_view(outcomes@)).len() > 0 && message@ == joined(
                failures(outcomes_view(outcomes@)),
                "\n"@,
            ),
        },
{
    let ghost all = outcomes_view(outcomes@);
    let mut errors: Vec<String> = Vec::new();
    let mut k: usize = 0;
    assert(all.take(0).filter_map(failure()) =~= Seq::empty());
    assert(errors.deep_view() =~= Seq::empty());
    while k < outcomes.len()
        invariant
            k <= outcomes.len(),
            all == outcomes_view(outcomes@),
            errors.deep_view() == all.take(k as int).filter_map(failure()),
        decreases outcomes.len() - k,
    {
        proof {
            all.lemma_filter_map_take_succ(failure(), k as int);
        }
        let ghost before = errors.deep_view();
        match &outcomes[k] {
            Err(message) => {
                errors.push(message.clone());
                assert(errors.deep_view() =~= before + seq![message@]);
            },
            Ok(_) => {
                assert(before =~= before + Seq::<Seq<char>>::empty());
            },
        }
        k += 1;
    }
    assert(all.take(k as int) =~= all);
    if errors.len() > 0 {
        Err(join(&errors, "\n"))
    } else {
        Ok(())
    }
}

// ---------------------------------------------------------------------------
// The catalog
// ---------------------------------------------------------------------------

/// The query that asks the catalog for the tables of a name.
pub const TABLE_QUERY: &'static str =
    "SELECT table_name FROM information_schema.tables WHERE table_name = $1";

/// The query that asks the catalog for the columns of a table: of each its
/// name and the name of its type.
pub const COLUMN_QUERY: &'static str =
    "SELECT column_name, udt_name from information_schema.columns where table_name = $1";

/// The lower-case form of a text, as `str::to_lowercase` gives it.
pub uninterp spec fn lowercase(text: Seq<char>) -> Seq<char>;

/// `str::to_lowercase` of the standard library. The contract only names
/// its result: the lower-case form is a function of the text alone.
#[verifier::external_body]
fn to_lowercase(text: &str) -> (r: String)
    ensures
        r@ == lowercase(text@),
{
    text.to_lowercase()
}

/// The name under which the catalog is asked for a table: the server folds
/// the names of tables to lower case, so the name is asked for in lower
/// case.
pub fn catalog_name(table_name: &str) -> (r: String)
    ensures
        r@ == lowercase(table_name@),
{
    to_lowercase(table_name)
}

/// The leaf type that a type of the catalog stands for.
pub open spec fn spec_data_type_to_leaf_type(data_type: Seq<char>) -> Option<LeafType> {
    if data_type == "varchar"@ {
        Some(LeafType::String)
    } else if data_type == "integer"@ || data_type == "int4"@ {
        Some(LeafType::Int)
    } else if data_type == "double precision"@ || data_type == "float8"@ {
        Some(LeafType::Float)
    } else if data_type == "boolean"@ || data_type == "bool"@ {
        Some(LeafType::Bool)
    } else if data_type == "uuid"@ {
        Some(LeafType::Id)
    } else {
        None
    }
}

fn same(text: &String, expected: &str) -> (r: bool)
    ensures
        r == (text@ == expected@),
{
    *text == String::from_str(expected)
}

/// The leaf type that a type of the catalog stands for; none where it
/// stands for no leaf type.
pub fn data_type_to_leaf_type(data_type: &str) -> (r: Option<LeafType>)
    ensures
        r == spec_data_type_to_leaf_type(data_type@),
{
    let name = String::from_str(data_type);
    if same(&name, "varchar") {
        Some(LeafType::String)
    } else if same(&name, "integer") || same(&name, "int4") {
        Some(LeafType::Int)
    } else if same(&name, "double precision") || same(&name, "float8") {
        Some(LeafType::Float)
    } else if same(&name, "boolean") || same(&name, "bool") {
        Some(LeafType::Bool)
    } else if same(&name, "uuid") {
        Some(LeafType::Id)
    } else {
        None
    }
}

/// The name of the type of the first row, from the position `from` on,
/// whose type stands for no leaf type.
pub open spec fn first_unknown_type(rows: Seq<(Seq<char>, Seq<char>)>, from: int) -> Option<
    Seq<char>,
>
    decreases rows.len() - from,
{
    if from < 0 || from >= rows.len() {
        None
    } else if spec_data_type_to_leaf_type(rows[from].1) is None {
        Some(rows[from].1)
    } else {
        first_unknown_type(rows, from + 1)
    }
}

/// The columns that the rows of the catalog describe.
pub open spec fn spec_columns_of_rows(rows: Seq<(Seq<char>, Seq<char>)>) -> Seq<ColumnView> {
    rows.map_values(
        |row: (Seq<char>, Seq<char>)|
            ColumnView { name: row.0, data_type: spec_data_type_to_leaf_type(row.1).unwrap() },
    )
}

/// The columns of a table, from the rows that the catalog holds for it:
/// of each column its name and the name of its type.
pub fn db_columns_for_table(rows: &Vec<(String, String)>) -> (r: Result<Vec<Column>, DiffError>)
    ensures
        match r {
            Ok(columns) => first_unknown_type(rows.deep_view(), 0) is None && columns.deep_view()
                == spec_columns_of_rows(rows.deep_view()),
            Err(e) => first_unknown_type(rows.deep_view(), 0) matches Some(name) && e@
                == DiffErrorView::UnknownDataType(name),
        },
{
    let mut columns: Vec<Column> = Vec::new();
    let mut k: usize = 0;
    while k < rows.len()
        invariant
            k <= rows.len(),
            columns.len() == k,
            first_unknown_type(rows.deep_view(), 0) == first_unknown_type(
                rows.deep_view(),
                k as int,
            ),
            forall|j: int|
                0 <= j < k ==> (#[trigger] columns@[j])@ == spec_columns_of_rows(
                    rows.deep_view(),
                )[j],
        decreases rows.len() - k,
    {
        assert(rows.deep_view()[k as int] == (rows@[k as int].0@, rows@[k as int].1@));
        match data_type_to_leaf_type(rows[k].1.as_str()) {
            Some(leaf) => {
                columns.push(Column::new(rows[k].0.as_str(), leaf));
            },
            None => {
                return Err(DiffError::UnknownDataType(rows[k].1.clone()));
            },
        }
        k += 1;
    }
    assert(columns.deep_view() =~= spec_columns_of_rows(rows.deep_view()));
    Ok(columns)
}

/// The table that the database holds for a table of the application, from
/// what the catalog answers: the names of the tables that it holds under
/// the table's catalog name, and the rows of their columns.
///
/// There is no table where the catalog names none. It is an error where it
/// names more than one, and where a column has a type that stands for no
/// leaf type.
pub fn db_table_for_ast_table(
    table_names: &Vec<String>,
    column_rows: &Vec<(String, String)>,
) -> (r: Result<Option<Table>, DiffError>)
    ensures
        match r {
            Ok(None) => table_names.len() == 0,
            Ok(Some(table)) => table_names.len() == 1 && first_unknown_type(
                column_rows.deep_view(),
                0,
            ) is None && table@ == (TableView {
                schema: Seq::empty(),
                name: table_names@[0]@,
                columns: spec_columns_of_rows(column_rows.deep_view()),
            }),
            Err(e) => if table_names.len() > 1 {
                e@ == DiffErrorView::AmbiguousTable(table_names@[0]@)
            } else {
                first_unknown_type(column_rows.deep_view(), 0) matches Some(name) && e@
                    == DiffErrorView::UnknownDataType(name) && table_names.len() == 1
            },
        },
{
    if table_names.len() == 0 {
        Ok(None)
    } else if table_names.len() == 1 {
        match db_columns_for_table(column_rows) {
            Ok(columns) => {
                let table = Table::new("", table_names[0].as_str(), columns);
                proof {
                    reveal_strlit("");
                    assert(""@ =~= Seq::<char>::empty());
                }
                Ok(Some(table))
            },
            Err(e) => Err(e),
        }
    } else {
        Err(DiffError::AmbiguousTable(table_names[0].clone()))
    }
}

} // verus!
