//! The resolved application model: qualified names, semantic types and the
//! application that maps the one to the other.

use crate::lang::internal::LeafType;
use vstd::prelude::*;
use vstd::std_specs::cmp::PartialEqSpecImpl;
use vstd::string::StringExecFns;

verus! {

/// The name of a declaration: a namespace, a name and, for a function, the
/// entity it is declared on.
#[derive(Debug, Eq, PartialOrd, Ord, Hash)]
pub struct QualifiedName {
    namespace: String,
    type_scope: Option<(String, String)>,
    name: String,
}

/// What specifications see of a [`QualifiedName`].
pub struct QualifiedNameView {
    pub namespace: Seq<char>,
    pub type_scope: Option<(Seq<char>, Seq<char>)>,
    pub name: Seq<char>,
}

impl View for QualifiedName {
    type V = QualifiedNameView;

    closed spec fn view(&self) -> QualifiedNameView {
        QualifiedNameView {
            namespace: self.namespace@,
            type_scope: match self.type_scope {
                Some(s) => Some((s.0@, s.1@)),
                None => None,
            },
            name: self.name@,
        }
    }
}

impl DeepView for QualifiedName {
    type V = QualifiedNameView;

    open spec fn deep_view(&self) -> QualifiedNameView {
        self@
    }
}

impl PartialEq for QualifiedName {
    fn eq(&self, other: &QualifiedName) -> (r: bool) {
        let scopes = match (&self.type_scope, &other.type_scope) {
            (Some(a), Some(b)) => a.0 == b.0 && a.1 == b.1,
            (None, None) => true,
            _ => false,
        };
        scopes && self.namespace == other.namespace && self.name == other.name
    }
}

impl PartialEqSpecImpl for QualifiedName {
    open spec fn obeys_eq_spec() -> bool {
        true
    }

    open spec fn eq_spec(&self, other: &QualifiedName) -> bool {
        self@ == other@
    }
}

impl Clone for QualifiedName {
    fn clone(&self) -> (r: QualifiedName)
        ensures
            r@ == self@,
    {
        QualifiedName {
            namespace: self.namespace.clone(),
            type_scope: match &self.type_scope {
                Some(s) => Some((s.0.clone(), s.1.clone())),
                None => None,
            },
            name: self.name.clone(),
        }
    }
}

impl QualifiedName {
    pub fn new(namespace: &str, name: &str, type_scope: Option<(&str, &str)>) -> (r: QualifiedName)
        ensures
            r@.namespace == namespace@,
            r@.name == name@,
            r@.type_scope == match type_scope {
                Some(s) => Some((s.0@, s.1@)),
                None => None,
            },
    {
        QualifiedName {
            namespace: String::from_str(namespace),
            type_scope: match type_scope {
                Some(s) => Some((String::from_str(s.0), String::from_str(s.1))),
                None => None,
            },
            name: String::from_str(name),
        }
    }

    pub fn name(&self) -> (r: String)
        ensures
            r@ == self@.name,
    {
        self.name.clone()
    }

    pub fn namespace(&self) -> (r: String)
        ensures
            r@ == self@.namespace,
    {
        self.namespace.clone()
    }

    /// The name of the table that holds the entity of this name.
    pub fn table_name(&self) -> (r: String)
        ensures
            r@ == self@.table_name(),
    {
        let mut table = self.namespace.clone();
        table.append("_");
        table.append(self.name.as_str());
        table
    }
}

impl QualifiedNameView {
    /// The namespace, an underscore and the name.
    pub open spec fn table_name(self) -> Seq<char> {
        self.namespace + "_"@ + self.name
    }
}

// ---------------------------------------------------------------------------
// Errors
// ---------------------------------------------------------------------------

/// Why a set of source files is no application.
#[derive(Debug)]
pub enum AstError {
    /// A declaration refers to a type that is not declared.
    NoSuchAType(String),
    DupAType(String),
    DupModule(String),
    NoSuchModule(String),
    DupDType(String),
    /// The entry file declares no application.
    NoAppName,
    /// A file is not written in the language. `file` is 0 for the entry
    /// file and `k + 1` for the import `k`; `offset` counts characters.
    Syntax { file: usize, offset: usize },
}

/// What specifications see of an [`AstError`].
pub enum AstErrorView {
    NoSuchAType(Seq<char>),
    DupAType(Seq<char>),
    DupModule(Seq<char>),
    NoSuchModule(Seq<char>),
    DupDType(Seq<char>),
    NoAppName,
    Syntax { file: int, offset: int },
}

impl View for AstError {
    type V = AstErrorView;

    open spec fn view(&self) -> AstErrorView {
        match self {
            AstError::NoSuchAType(n) => AstErrorView::NoSuchAType(n@),
            AstError::DupAType(n) => AstErrorView::DupAType(n@),
            AstError::DupModule(n) => AstErrorView::DupModule(n@),
            AstError::NoSuchModule(n) => AstErrorView::NoSuchModule(n@),
            AstError::DupDType(n) => AstErrorView::DupDType(n@),
            AstError::NoAppName => AstErrorView::NoAppName,
            AstError::Syntax { file, offset } => AstErrorView::Syntax {
                file: *file as int,
                offset: *offset as int,
            },
        }
    }
}

impl AstErrorView {
    /// The sentence that tells a user of the error.
    pub open spec fn message(self) -> Seq<char> {
        match self {
            AstErrorView::NoSuchAType(n) => "I couldn't find an attribute called "@ + n + "."@,
            AstErrorView::DupAType(n) => "I've already got an attribute called "@ + n
                + " but you've tried to define it again."@,
            AstErrorView::DupModule(n) => "I've already got a module called "@ + n
                + " but you've tried to define it again."@,
            AstErrorView::NoSuchModule(n) => "I've couldn't find a module called "@ + n + "."@,
            AstErrorView::DupDType(n) => "I've already got a datatype called "@ + n
                + " but you've tried to define it again."@,
            AstErrorView::NoAppName => "I couldn't find the name of the application."@,
            AstErrorView::Syntax { file, offset } => "I couldn't read one of the source files."@,
        }
    }
}

fn sentence(before: &str, name: &String, after: &str) -> (r: String)
    ensures
        r@ == before@ + name@ + after@,
{
    let mut text = String::from_str(before);
    text.append(name.as_str());
    text.append(after);
    text
}

impl AstError {
    /// The sentence that tells a user of the error.
    pub fn message(&self) -> (r: String)
        ensures
            r@ == self@.message(),
    {
        match self {
            AstError::NoSuchAType(n) => sentence("I couldn't find an attribute called ", n, "."),
            AstError::DupAType(n) => sentence(
                "I've already got an attribute called ",
                n,
                " but you've tried to define it again.",
            ),
            AstError::DupModule(n) => sentence(
                "I've already got a module called ",
                n,
                " but you've tried to define it again.",
            ),
            AstError::NoSuchModule(n) => sentence("I've couldn't find a module called ", n, "."),
            AstError::DupDType(n) => sentence(
                "I've already got a datatype called ",
                n,
                " but you've tried to define it again.",
            ),
            AstError::NoAppName => String::from_str("I couldn't find the name of the application."),
            AstError::Syntax { file, offset } => String::from_str(
                "I couldn't read one of the source files.",
            ),
        }
    }
}

// ---------------------------------------------------------------------------
// Types
// ---------------------------------------------------------------------------

fn clone_names(names: &Vec<QualifiedName>) -> (r: Vec<QualifiedName>)
    ensures
        r.deep_view() == names.deep_view(),
{
    let mut copy: Vec<QualifiedName> = Vec::new();
    let mut k: usize = 0;
    while k < names.len()
        invariant
            k <= names.len(),
            copy.len() == k,
            forall|j: int| 0 <= j < k ==> copy@[j]@ == names@[j]@,
        decreases names.len() - k,
    {
        copy.push(names[k].clone());
        k += 1;
    }
    assert(copy.deep_view() =~= names.deep_view());
    copy
}

/// An entity: its name and the names of its functions, in the order of
/// their declaration.
#[derive(Debug)]
pub struct EntityType {
    qualified_name: QualifiedName,
    function_types: Vec<QualifiedName>,
}

/// What specifications see of an [`EntityType`].
pub struct EntityTypeView {
    pub qualified_name: QualifiedNameView,
    pub function_types: Seq<QualifiedNameView>,
}

impl View for EntityType {
    type V = EntityTypeView;

    closed spec fn view(&self) -> EntityTypeView {
        EntityTypeView {
            qualified_name: self.qualified_name@,
            function_types: self.function_types.deep_view(),
        }
    }
}

impl DeepView for EntityType {
    type V = EntityTypeView;

    open spec fn deep_view(&self) -> EntityTypeView {
        self@
    }
}

impl Clone for EntityType {
    fn clone(&self) -> (r: EntityType)
        ensures
            r@ == self@,
    {
        EntityType {
            qualified_name: self.qualified_name.clone(),
            function_types: clone_names(&self.function_types),
        }
    }
}

impl EntityType {
    /// An entity without functions.
    pub fn new(qualified_name: QualifiedName) -> (r: EntityType)
        ensures
            r@ == (EntityTypeView {
                qualified_name: qualified_name@,
                function_types: Seq::empty(),
            }),
    {
        let r = EntityType { qualified_name, function_types: Vec::new() };
        assert(r.function_types.deep_view() =~= Seq::empty());
        r
    }

    pub fn qualified_name(&self) -> (r: QualifiedName)
        ensures
            r@ == self@.qualified_name,
    {
        self.qualified_name.clone()
    }

    pub fn name(&self) -> (r: String)
        ensures
            r@ == self@.qualified_name.name,
    {
        self.qualified_name.name()
    }

    /// The names of the entity's functions.
    pub fn function_types(&self) -> (r: Vec<QualifiedName>)
        ensures
            r.deep_view() == self@.function_types,
    {
        clone_names(&self.function_types)
    }
}

/// The entity with one more function behind those it has.
pub fn add_function_to_entity_type(entity: EntityType, qualified_name: QualifiedName) -> (r:
    EntityType)
    ensures
        r@ == (EntityTypeView {
            qualified_name: entity@.qualified_name,
            function_types: entity@.function_types.push(qualified_name@),
        }),
{
    let mut new_entity = entity;
    let ghost before = new_entity.function_types.deep_view();
    new_entity.function_types.push(qualified_name);
    assert(new_entity.function_types.deep_view() =~= before.push(qualified_name@));
    new_entity
}

/// A function of an entity: its name, the entity it is declared on and the
/// type of its values.
#[derive(Debug)]
pub struct FunctionType {
    qualified_name: QualifiedName,
    dom: QualifiedName,
    codom: QualifiedName,
}

/// What specifications see of a [`FunctionType`].
pub struct FunctionTypeView {
    pub qualified_name: QualifiedNameView,
    pub dom: QualifiedNameView,
    pub codom: QualifiedNameView,
}

impl View for FunctionType {
    type V = FunctionTypeView;

    closed spec fn view(&self) -> FunctionTypeView {
        FunctionTypeView {
            qualified_name: self.qualified_name@,
            dom: self.dom@,
            codom: self.codom@,
        }
    }
}

impl DeepView for FunctionType {
    type V = FunctionTypeView;

    open spec fn deep_view(&self) -> FunctionTypeView {
        self@
    }
}

impl Clone for FunctionType {
    fn clone(&self) -> (r: FunctionType)
        ensures
            r@ == self@,
    {
        FunctionType {
            qualified_name: self.qualified_name.clone(),
            dom: self.dom.clone(),
            codom: self.codom.clone(),
        }
    }
}

impl FunctionType {
    pub fn new(qualified_name: QualifiedName, dom: QualifiedName, codom: QualifiedName) -> (r:
        FunctionType)
        ensures
            r@ == (FunctionTypeView {
                qualified_name: qualified_name@,
                dom: dom@,
                codom: codom@,
            }),
    {
        FunctionType { qualified_name, dom, codom }
    }

    pub fn qualified_name(&self) -> (r: QualifiedName)
        ensures
            r@ == self@.qualified_name,
    {
        self.qualified_name.clone()
    }

    pub fn name(&self) -> (r: String)
        ensures
            r@ == self@.qualified_name.name,
    {
        self.qualified_name.name()
    }

    pub fn dom(&self) -> (r: QualifiedName)
        ensures
            r@ == self@.dom,
    {
        self.dom.clone()
    }

    pub fn codom(&self) -> (r: QualifiedName)
        ensures
            r@ == self@.codom,
    {
        self.codom.clone()
    }

    /// Whether the function is declared on the entity of the given name.
    pub fn is_declared_on(&self, entity: &QualifiedName) -> (r: bool)
        ensures
            r == (self@.dom == entity@),
    {
        self.dom == *entity
    }
}

/// A type of the application: a function, an entity or a built-in leaf.
#[derive(Debug)]
pub enum AType {
    FunctionType(FunctionType),
    EntityType(EntityType),
    LeafType(LeafType),
}

/// What specifications see of an [`AType`].
pub enum ATypeView {
    FunctionType(FunctionTypeView),
    EntityType(EntityTypeView),
    LeafType(LeafType),
}

impl View for AType {
    type V = ATypeView;

    open spec fn view(&self) -> ATypeView {
        match self {
            AType::FunctionType(f) => ATypeView::FunctionType(f@),
            AType::EntityType(e) => ATypeView::EntityType(e@),
            AType::LeafType(l) => ATypeView::LeafType(*l),
        }
    }
}

impl DeepView for AType {
    type V = ATypeView;

    open spec fn deep_view(&self) -> ATypeView {
        self@
    }
}

impl Clone for AType {
    fn clone(&self) -> (r: AType)
        ensures
            r@ == self@,
    {
        match self {
            AType::FunctionType(f) => AType::FunctionType(f.clone()),
            AType::EntityType(e) => AType::EntityType(e.clone()),
            AType::LeafType(l) => AType::LeafType(*l),
        }
    }
}

impl ATypeView {
    /// The name of a function or an entity; a leaf type has the empty name.
    pub open spec fn name(self) -> Seq<char> {
        match self {
            ATypeView::EntityType(e) => e.qualified_name.name,
            ATypeView::FunctionType(f) => f.qualified_name.name,
            ATypeView::LeafType(_) => Seq::empty(),
        }
    }
}

impl AType {
    pub fn name(&self) -> (r: String)
        ensures
            r@ == self@.name(),
    {
        match self {
            AType::EntityType(e) => e.name(),
            AType::FunctionType(f) => f.name(),
            _ => String::new(),
        }
    }

    pub fn try_to_function_type(&self) -> (r: Option<&FunctionType>)
        ensures
            match r {
                Some(f) => self@ == ATypeView::FunctionType(f@),
                None => !(self@ is FunctionType),
            },
    {
        match self {
            AType::FunctionType(f) => Some(f),
            _ => None,
        }
    }
}

// ---------------------------------------------------------------------------
// The application
// ---------------------------------------------------------------------------

/// The value that `entries` holds under `key`, looked for from the
/// position `from` on: that of the first entry with this key.
pub open spec fn lookup_from<V>(
    entries: Seq<(QualifiedNameView, V)>,
    key: QualifiedNameView,
    from: int,
) -> Option<V>
    decreases entries.len() - from,
{
    if from < 0 || from >= entries.len() {
        None
    } else if entries[from].0 == key {
        Some(entries[from].1)
    } else {
        lookup_from(entries, key, from + 1)
    }
}

/// The value that `entries` holds under `key`.
pub open spec fn lookup<V>(entries: Seq<(QualifiedNameView, V)>, key: QualifiedNameView) -> Option<
    V,
> {
    lookup_from(entries, key, 0)
}

/// No key occurs twice.
pub open spec fn distinct_keys<V>(entries: Seq<(QualifiedNameView, V)>) -> bool {
    forall|i: int, j: int|
        0 <= i < j < entries.len() ==> (#[trigger] entries[i]).0 != (#[trigger] entries[j]).0
}

/// A function or an entity stands under its own name.
pub open spec fn own_name(entry: (QualifiedNameView, ATypeView)) -> bool {
    match entry.1 {
        ATypeView::FunctionType(f) => f.qualified_name == entry.0,
        ATypeView::EntityType(e) => e.qualified_name == entry.0,
        ATypeView::LeafType(_) => true,
    }
}

/// `name` is the name of an entity in `types`.
pub open spec fn is_entity(types: Seq<(QualifiedNameView, ATypeView)>, name: QualifiedNameView) -> bool {
    lookup(types, name) matches Some(t) && t is EntityType
}

/// `name` is the name of a function in `types`.
pub open spec fn is_function(
    types: Seq<(QualifiedNameView, ATypeView)>,
    name: QualifiedNameView,
) -> bool {
    lookup(types, name) matches Some(t) && t is FunctionType
}

/// What a type refers to is there: the domain of a function is an entity
/// of `types`, and its codomain a type of `types`.
pub open spec fn references_resolve(
    types: Seq<(QualifiedNameView, ATypeView)>,
    t: ATypeView,
) -> bool {
    t matches ATypeView::FunctionType(f) ==> is_entity(types, f.dom) && lookup(types, f.codom)
        is Some
}

/// The names in `names` are names of functions in `types`.
pub open spec fn all_functions(
    types: Seq<(QualifiedNameView, ATypeView)>,
    names: Seq<QualifiedNameView>,
) -> bool {
    forall|m: int| 0 <= m < names.len() ==> is_function(types, #[trigger] names[m])
}

/// The first entry of `entries` whose key is `key`, from `from` on, is the
/// entry `at`.
pub proof fn lemma_lookup_first<V>(
    entries: Seq<(QualifiedNameView, V)>,
    key: QualifiedNameView,
    from: int,
    at: int,
)
    requires
        0 <= from <= at < entries.len(),
        entries[at].0 == key,
        forall|j: int| from <= j < at ==> (#[trigger] entries[j]).0 != key,
    ensures
        lookup_from(entries, key, from) == Some(entries[at].1),
    decreases at - from,
{
    if from < at {
        lemma_lookup_first(entries, key, from + 1, at);
    }
}

/// Where no entry from `from` on has the key, there is no value.
pub proof fn lemma_lookup_absent<V>(
    entries: Seq<(QualifiedNameView, V)>,
    key: QualifiedNameView,
    from: int,
)
    requires
        0 <= from,
        forall|j: int| from <= j < entries.len() ==> (#[trigger] entries[j]).0 != key,
    ensures
        lookup_from(entries, key, from) is None,
    decreases entries.len() - from,
{
    if from < entries.len() {
        lemma_lookup_absent(entries, key, from + 1);
    }
}

/// A value that is found stands in an entry under the key.
pub proof fn lemma_lookup_witness<V>(
    entries: Seq<(QualifiedNameView, V)>,
    key: QualifiedNameView,
    from: int,
) -> (at: int)
    requires
        0 <= from,
        lookup_from(entries, key, from) is Some,
    ensures
        from <= at < entries.len(),
        entries[at].0 == key,
        lookup_from(entries, key, from) == Some(entries[at].1),
        forall|j: int| from <= j < at ==> (#[trigger] entries[j]).0 != key,
    decreases entries.len() - from,
{
    if entries[from].0 == key {
        from
    } else {
        lemma_lookup_witness(entries, key, from + 1)
    }
}

/// Where there is no value, no entry from `from` on has the key.
pub proof fn lemma_lookup_none<V>(
    entries: Seq<(QualifiedNameView, V)>,
    key: QualifiedNameView,
    from: int,
)
    requires
        0 <= from,
        lookup_from(entries, key, from) is None,
    ensures
        forall|j: int| from <= j < entries.len() ==> (#[trigger] entries[j]).0 != key,
    decreases entries.len() - from,
{
    if from < entries.len() {
        lemma_lookup_none(entries, key, from + 1);
    }
}

/// Where no key occurs twice, each entry is the one found under its key.
pub proof fn lemma_lookup_entry<V>(entries: Seq<(QualifiedNameView, V)>, at: int)
    requires
        distinct_keys(entries),
        0 <= at < entries.len(),
    ensures
        lookup(entries, entries[at].0) == Some(entries[at].1),
{
    lemma_lookup_first(entries, entries[at].0, 0, at);
}

/// What is found behind one more entry: what was found before; else the
/// value of the new entry, where it has the key.
pub proof fn lemma_lookup_push<V>(
    entries: Seq<(QualifiedNameView, V)>,
    entry: (QualifiedNameView, V),
    key: QualifiedNameView,
    from: int,
)
    requires
        0 <= from <= entries.len(),
    ensures
        lookup_from(entries.push(entry), key, from) == match lookup_from(entries, key, from) {
            Some(v) => Some(v),
            None => if entry.0 == key {
                Some(entry.1)
            } else {
                None
            },
        },
    decreases entries.len() - from,
{
    let longer = entries.push(entry);
    if from < entries.len() {
        assert(longer[from] == entries[from]);
        if entries[from].0 != key {
            lemma_lookup_push(entries, entry, key, from + 1);
        }
    } else {
        assert(longer[from] == entry);
        assert(lookup_from(longer, key, from + 1) is None);
    }
}

/// The resolved program: its name, its types by name, and for each entity
/// the names of its functions.
#[derive(Debug)]
pub struct Application {
    name: String,
    types: Vec<(QualifiedName, AType)>,
    entity_functions: Vec<(QualifiedName, Vec<QualifiedName>)>,
}

/// What specifications see of an [`Application`].
pub struct ApplicationView {
    pub name: Seq<char>,
    /// The types, each under its name, in the order of their registration.
    pub types: Seq<(QualifiedNameView, ATypeView)>,
    /// The entities in the order of their registration, each with the names
    /// of its functions in the order of theirs.
    pub entity_functions: Seq<(QualifiedNameView, Seq<QualifiedNameView>)>,
}

impl ApplicationView {
    /// The type of the given name.
    pub open spec fn type_of(self, name: QualifiedNameView) -> Option<ATypeView> {
        lookup(self.types, name)
    }

    /// The functions of the entity of the given name.
    pub open spec fn functions_of(self, name: QualifiedNameView) -> Option<Seq<QualifiedNameView>> {
        lookup(self.entity_functions, name)
    }

    /// What holds of every application: no name stands for two types or two
    /// entities, every type stands under its own name, what a function
    /// refers to is declared, and the entities' functions are functions.
    pub open spec fn well_formed(self) -> bool {
        &&& distinct_keys(self.types)
        &&& distinct_keys(self.entity_functions)
        &&& forall|i: int|
            0 <= i < self.types.len() ==> own_name(#[trigger] self.types[i]) && references_resolve(
                self.types,
                self.types[i].1,
            )
        &&& forall|b: int|
            0 <= b < self.entity_functions.len() ==> is_entity(
                self.types,
                (#[trigger] self.entity_functions[b]).0,
            ) && all_functions(self.types, self.entity_functions[b].1)
    }
}

impl View for Application {
    type V = ApplicationView;

    closed spec fn view(&self) -> ApplicationView {
        ApplicationView {
            name: self.name@,
            types: self.types.deep_view(),
            entity_functions: self.entity_functions.deep_view(),
        }
    }
}

impl DeepView for Application {
    type V = ApplicationView;

    open spec fn deep_view(&self) -> ApplicationView {
        self@
    }
}

/// The position of the first entry under `key`.
pub(crate) fn position<T: DeepView>(entries: &Vec<(QualifiedName, T)>, key: &QualifiedName) -> (r: Option<
    usize,
>)
    ensures
        match r {
            Some(at) => at < entries.len() && entries@[at as int].0@ == key@ && lookup(
                entries.deep_view(),
                key@,
            ) == Some(entries@[at as int].1.deep_view()),
            None => lookup(entries.deep_view(), key@) is None,
        },
{
    let mut k: usize = 0;
    while k < entries.len()
        invariant
            k <= entries.len(),
            forall|j: int| 0 <= j < k ==> (#[trigger] entries.deep_view()[j]).0 != key@,
        decreases entries.len() - k,
    {
        if entries[k].0 == *key {
            proof {
                assert(entries.deep_view()[k as int].0 == key@);
                lemma_lookup_first(entries.deep_view(), key@, 0, k as int);
            }
            return Some(k);
        }
        assert(entries.deep_view()[k as int].0 != key@);
        k += 1;
    }
    proof {
        lemma_lookup_absent(entries.deep_view(), key@, 0);
    }
    None
}

/// Whether no key occurs twice.
fn keys_are_distinct<T: DeepView>(entries: &Vec<(QualifiedName, T)>) -> (r: bool)
    ensures
        r == distinct_keys(entries.deep_view()),
{
    let ghost all = entries.deep_view();
    let mut j: usize = 0;
    while j < entries.len()
        invariant
            j <= entries.len(),
            all == entries.deep_view(),
            forall|a: int, b: int| 0 <= a < b < j ==> (#[trigger] all[a]).0 != (#[trigger] all[b]).0,
        decreases entries.len() - j,
    {
        let mut i: usize = 0;
        while i < j
            invariant
                i <= j < entries.len(),
                all == entries.deep_view(),
                forall|a: int| 0 <= a < i ==> (#[trigger] all[a]).0 != all[j as int].0,
            decreases j - i,
        {
            assert(all[i as int].0 == entries@[i as int].0@);
            assert(all[j as int].0 == entries@[j as int].0@);
            if entries[i].0 == entries[j].0 {
                return false;
            }
            i += 1;
        }
        j += 1;
    }
    true
}

/// Whether the name is that of an entity among the types.
fn names_entity(types: &Vec<(QualifiedName, AType)>, name: &QualifiedName) -> (r: bool)
    ensures
        r == is_entity(types.deep_view(), name@),
{
    match position(types, name) {
        Some(at) => match &types[at].1 {
            AType::EntityType(_) => true,
            _ => false,
        },
        None => false,
    }
}

/// Whether the name is that of a function among the types.
fn names_function(types: &Vec<(QualifiedName, AType)>, name: &QualifiedName) -> (r: bool)
    ensures
        r == is_function(types.deep_view(), name@),
{
    match position(types, name) {
        Some(at) => match &types[at].1 {
            AType::FunctionType(_) => true,
            _ => false,
        },
        None => false,
    }
}

/// Whether the types are as those of an application must be.
fn types_are_sound(types: &Vec<(QualifiedName, AType)>) -> (r: bool)
    ensures
        r == forall|i: int|
            0 <= i < types.deep_view().len() ==> own_name(#[trigger] types.deep_view()[i])
                && references_resolve(types.deep_view(), types.deep_view()[i].1),
{
    let ghost all = types.deep_view();
    let mut k: usize = 0;
    while k < types.len()
        invariant
            k <= types.len(),
            all == types.deep_view(),
            forall|i: int|
                0 <= i < k ==> own_name(#[trigger] all[i]) && references_resolve(all, all[i].1),
        decreases types.len() - k,
    {
        assert(all[k as int] == (types@[k as int].0@, types@[k as int].1@));
        let sound = match &types[k].1 {
            AType::FunctionType(f) => f.qualified_name == types[k].0 && names_entity(types, &f.dom)
                && position(types, &f.codom).is_some(),
            AType::EntityType(e) => e.qualified_name == types[k].0,
            AType::LeafType(_) => true,
        };
        if !sound {
            assert(!(own_name(all[k as int]) && references_resolve(all, all[k as int].1)));
            return false;
        }
        k += 1;
    }
    true
}

/// Whether the entities are entities of the types, and their functions
/// functions of them.
fn entities_are_sound(
    types: &Vec<(QualifiedName, AType)>,
    entity_functions: &Vec<(QualifiedName, Vec<QualifiedName>)>,
) -> (r: bool)
    ensures
        r == forall|b: int|
            0 <= b < entity_functions.deep_view().len() ==> is_entity(
                types.deep_view(),
                (#[trigger] entity_functions.deep_view()[b]).0,
            ) && all_functions(types.deep_view(), entity_functions.deep_view()[b].1),
{
    let ghost all = entity_functions.deep_view();
    let mut b: usize = 0;
    while b < entity_functions.len()
        invariant
            b <= entity_functions.len(),
            all == entity_functions.deep_view(),
            forall|a: int|
                0 <= a < b ==> is_entity(types.deep_view(), (#[trigger] all[a]).0) && all_functions(
                    types.deep_view(),
                    all[a].1,
                ),
        decreases entity_functions.len() - b,
    {
        assert(all[b as int] == (
            entity_functions@[b as int].0@,
            entity_functions@[b as int].1.deep_view(),
        ));
        if !names_entity(types, &entity_functions[b].0) {
            return false;
        }
        let functions = &entity_functions[b].1;
        let mut k: usize = 0;
        while k < functions.len()
            invariant
                k <= functions.len(),
                b < entity_functions.len(),
                all == entity_functions.deep_view(),
                functions.deep_view() == all[b as int].1,
                forall|m: int|
                    0 <= m < k ==> is_function(types.deep_view(), #[trigger] all[b as int].1[m]),
            decreases functions.len() - k,
        {
            assert(functions.deep_view()[k as int] == functions@[k as int]@);
            if !names_function(types, &functions[k]) {
                assert(!is_function(types.deep_view(), all[b as int].1[k as int]));
                assert(!all_functions(types.deep_view(), all[b as int].1));
                return false;
            }
            k += 1;
        }
        assert(all_functions(types.deep_view(), all[b as int].1));
        b += 1;
    }
    true
}

impl Application {
    #[verifier::type_invariant]
    pub open spec fn inv(self) -> bool {
        self@.well_formed()
    }

    /// The application of the given types and entities.
    pub fn new(
        name: &str,
        atypes: Vec<(QualifiedName, AType)>,
        entity_functions: Vec<(QualifiedName, Vec<QualifiedName>)>,
    ) -> (r: Application)
        requires
            (ApplicationView {
                name: name@,
                types: atypes.deep_view(),
                entity_functions: entity_functions.deep_view(),
            }).well_formed(),
        ensures
            r@ == (ApplicationView {
                name: name@,
                types: atypes.deep_view(),
                entity_functions: entity_functions.deep_view(),
            }),
    {
        Application { name: String::from_str(name), types: atypes, entity_functions }
    }

    /// The application of the given types and entities, where these are
    /// well formed; none where they are not.
    pub fn try_new(
        name: &str,
        atypes: Vec<(QualifiedName, AType)>,
        entity_functions: Vec<(QualifiedName, Vec<QualifiedName>)>,
    ) -> (r: Option<Application>)
        ensures
            match r {
                Some(app) => app@ == (ApplicationView {
                    name: name@,
                    types: atypes.deep_view(),
                    entity_functions: entity_functions.deep_view(),
                }),
                None => !(ApplicationView {
                    name: name@,
                    types: atypes.deep_view(),
                    entity_functions: entity_functions.deep_view(),
                }).well_formed(),
            },
    {
        if keys_are_distinct(&atypes) && keys_are_distinct(&entity_functions) && types_are_sound(
            &atypes,
        ) && entities_are_sound(&atypes, &entity_functions) {
            Some(Application::new(name, atypes, entity_functions))
        } else {
            None
        }
    }

    pub fn name(&self) -> (r: String)
        ensures
            r@ == self@.name,
    {
        self.name.clone()
    }

    /// The type of the given name.
    pub fn get_type(&self, qualified_name: &QualifiedName) -> (r: Option<&AType>)
        ensures
            r.deep_view() == self@.type_of(qualified_name@),
    {
        match position(&self.types, qualified_name) {
            Some(at) => Some(&self.types[at].1),
            None => None,
        }
    }

    /// The functions of the entity of the given name.
    pub fn get_entity_functions(&self, qualified_name: &QualifiedName) -> (r: Option<
        &Vec<QualifiedName>,
    >)
        ensures
            r.deep_view() == self@.functions_of(qualified_name@),
    {
        match position(&self.entity_functions, qualified_name) {
            Some(at) => Some(&self.entity_functions[at].1),
            None => None,
        }
    }

    /// The entities, each with the names of its functions.
    pub fn entity_functions(&self) -> (r: &Vec<(QualifiedName, Vec<QualifiedName>)>)
        ensures
            r.deep_view() == self@.entity_functions,
    {
        &self.entity_functions
    }
}

} // verus!
