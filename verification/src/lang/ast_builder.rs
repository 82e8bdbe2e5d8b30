//! The name resolver: from the records of the source files to the
//! application they declare.

use crate::lang::ast::{
    add_function_to_entity_type, all_functions, distinct_keys, is_entity, is_function,
    lemma_lookup_entry, lemma_lookup_push,
    lemma_lookup_none, lookup, lookup_from, own_name, position, references_resolve, AType,
    ATypeView, Application, ApplicationView, AstError, AstErrorView, EntityType, EntityTypeView,
    FunctionType, FunctionTypeView, QualifiedName, QualifiedNameView,
};
use crate::lang::cst;
use crate::lang::internal::{LeafType, INTERNAL_NAMESPACE};
use vstd::prelude::*;

verus! {

/// A type under the name it is registered with.
pub type Entry = (QualifiedNameView, ATypeView);

/// The name that a reference means in a file of the namespace
/// `default_namespace`: the namespace it is written with; without one, the
/// reserved namespace where the name is that of a leaf type, and the file's
/// own otherwise.
pub open spec fn spec_qn_default(
    default_namespace: Seq<char>,
    qualified_pair: cst::ReferenceView,
) -> QualifiedNameView {
    QualifiedNameView {
        namespace: match qualified_pair.0 {
            Some(n) => n,
            None => if LeafType::spec_is_leaf_type(qualified_pair.1) {
                INTERNAL_NAMESPACE@
            } else {
                default_namespace
            },
        },
        type_scope: None,
        name: qualified_pair.1,
    }
}

pub fn qn_default(default_namespace: &str, qualified_pair: (Option<String>, String)) -> (r:
    QualifiedName)
    ensures
        r@ == spec_qn_default(default_namespace@, qualified_pair.deep_view()),
{
    match qualified_pair.0 {
        None => {
            if LeafType::is_leaf_type(qualified_pair.1.as_str()) {
                QualifiedName::new(INTERNAL_NAMESPACE, qualified_pair.1.as_str(), None)
            } else {
                QualifiedName::new(default_namespace, qualified_pair.1.as_str(), None)
            }
        },
        Some(n) => QualifiedName::new(n.as_str(), qualified_pair.1.as_str(), None),
    }
}

// ---------------------------------------------------------------------------
// Registration
// ---------------------------------------------------------------------------

/// What an entity declaration registers in a file of the given namespace.
pub open spec fn entity_entry(namespace: Seq<char>, e: cst::EntityTypeView) -> Entry {
    let name = QualifiedNameView { namespace, type_scope: None, name: e.name };
    (
        name,
        ATypeView::EntityType(EntityTypeView { qualified_name: name, function_types: Seq::empty() }),
    )
}

/// What a function declaration registers in a file of the given namespace:
/// the function under its name within the entity of its domain.
pub open spec fn function_entry(namespace: Seq<char>, f: cst::FunctionTypeView) -> Entry {
    let dom = spec_qn_default(namespace, f.dom);
    let codom = spec_qn_default(namespace, f.codom);
    let name = QualifiedNameView {
        namespace,
        type_scope: Some((dom.namespace, dom.name)),
        name: f.name,
    };
    (name, ATypeView::FunctionType(FunctionTypeView { qualified_name: name, dom, codom }))
}

/// What is registered for a leaf type.
pub open spec fn leaf_entry(l: LeafType) -> Entry {
    (
        QualifiedNameView { namespace: INTERNAL_NAMESPACE@, type_scope: None, name: l.spec_name() },
        ATypeView::LeafType(l),
    )
}

/// The entries of the leaf types that declarations may name.
pub open spec fn leaf_entries() -> Seq<Entry> {
    LeafType::spec_all().map_values(|l: LeafType| leaf_entry(l))
}

/// The entries of a file's entities, in the order of their declaration.
pub open spec fn entity_entries(file: cst::FileRootView) -> Seq<Entry> {
    file.entity_types.map_values(|e: cst::EntityTypeView| entity_entry(file.namespace, e))
}

/// The entries of a file's functions, in the order of their declaration.
pub open spec fn function_entries(file: cst::FileRootView) -> Seq<Entry> {
    file.function_types.map_values(|f: cst::FunctionTypeView| function_entry(file.namespace, f))
}

/// The entries of a file: its entities, then its functions.
pub open spec fn file_entries(file: cst::FileRootView) -> Seq<Entry> {
    entity_entries(file) + function_entries(file)
}

/// The types after one more registration: a name that is taken keeps the
/// type it has.
pub open spec fn keep_first(types: Seq<Entry>, entry: Entry) -> Seq<Entry> {
    if lookup(types, entry.0) is Some {
        types
    } else {
        types.push(entry)
    }
}

/// The types after registering `entries` in their order.
pub open spec fn register_all(types: Seq<Entry>, entries: Seq<Entry>) -> Seq<Entry> {
    entries.fold_left(types, |t: Seq<Entry>, e: Entry| keep_first(t, e))
}

/// The types after registering the entries of `files`, file by file.
pub open spec fn register_files(types: Seq<Entry>, files: Seq<cst::FileRootView>) -> Seq<Entry> {
    files.fold_left(
        types,
        |t: Seq<Entry>, file: cst::FileRootView| register_all(t, file_entries(file)),
    )
}

/// The types that `files` declare: the leaf types, then the declarations of
/// each file.
pub open spec fn spec_types(files: Seq<cst::FileRootView>) -> Seq<Entry> {
    register_files(register_all(Seq::empty(), leaf_entries()), files)
}

/// What registration keeps true of the types.
pub open spec fn sound(types: Seq<Entry>) -> bool {
    &&& distinct_keys(types)
    &&& forall|i: int| 0 <= i < types.len() ==> own_name(#[trigger] types[i])
}

proof fn lemma_register_push(types: Seq<Entry>, entries: Seq<Entry>, entry: Entry)
    ensures
        register_all(types, entries.push(entry)) == keep_first(
            register_all(types, entries),
            entry,
        ),
{
    assert(entries.push(entry).drop_last() =~= entries);
}

proof fn lemma_register_files_push(
    types: Seq<Entry>,
    files: Seq<cst::FileRootView>,
    file: cst::FileRootView,
)
    ensures
        register_files(types, files.push(file)) == register_all(
            register_files(types, files),
            file_entries(file),
        ),
{
    assert(files.push(file).drop_last() =~= files);
}

fn register(types: &mut Vec<(QualifiedName, AType)>, name: QualifiedName, atype: AType)
    requires
        sound(old(types).deep_view()),
        own_name((name@, atype@)),
    ensures
        final(types).deep_view() == keep_first(old(types).deep_view(), (name@, atype@)),
        sound(final(types).deep_view()),
{
    let ghost before = types.deep_view();
    if position(types, &name).is_none() {
        proof {
            lemma_lookup_none(before, name@, 0);
        }
        types.push((name, atype));
        assert(types.deep_view() =~= before.push((name@, atype@)));
    }
}

fn register_file(types: &mut Vec<(QualifiedName, AType)>, file: &cst::FileRoot)
    requires
        sound(old(types).deep_view()),
    ensures
        final(types).deep_view() == register_all(old(types).deep_view(), file_entries(file@)),
        sound(final(types).deep_view()),
{
    let ghost start = types.deep_view();
    let ghost mut seen: Seq<Entry> = Seq::empty();
    let namespace = file.namespace();
    let entities = file.entity_types();
    let mut k: usize = 0;
    while k < entities.len()
        invariant
            k <= entities.len(),
            entities.deep_view() == file@.entity_types,
            namespace@ == file@.namespace,
            seen == entity_entries(file@).take(k as int),
            types.deep_view() == register_all(start, seen),
            sound(types.deep_view()),
        decreases entities.len() - k,
    {
        let e = entities[k];
        assert(entities.deep_view()[k as int] == e@);
        let name = QualifiedName::new(namespace.as_str(), e.name().as_str(), None);
        let entity = EntityType::new(name.clone());
        proof {
            let entry = entity_entries(file@)[k as int];
            assert(entry == (name@, ATypeView::EntityType(entity@)));
            lemma_register_push(start, seen, entry);
            assert(seen.push(entry) =~= entity_entries(file@).take(k + 1));
            seen = seen.push(entry);
        }
        register(types, name, AType::EntityType(entity));
        k += 1;
    }
    assert(seen =~= entity_entries(file@));
    let functions = file.function_types();
    let mut k: usize = 0;
    while k < functions.len()
        invariant
            k <= functions.len(),
            functions.deep_view() == file@.function_types,
            namespace@ == file@.namespace,
            seen == entity_entries(file@) + function_entries(file@).take(k as int),
            types.deep_view() == register_all(start, seen),
            sound(types.deep_view()),
        decreases functions.len() - k,
    {
        let f = functions[k];
        assert(functions.deep_view()[k as int] == f@);
        let dom = qn_default(namespace.as_str(), f.dom());
        let codom = qn_default(namespace.as_str(), f.codom());
        let name = QualifiedName::new(
            namespace.as_str(),
            f.name().as_str(),
            Some((dom.namespace().as_str(), dom.name().as_str())),
        );
        let function = FunctionType::new(name.clone(), dom, codom);
        proof {
            let entry = function_entries(file@)[k as int];
            assert(entry == (name@, ATypeView::FunctionType(function@)));
            lemma_register_push(start, seen, entry);
            assert(seen.push(entry) =~= entity_entries(file@) + function_entries(file@).take(
                k + 1,
            ));
            seen = seen.push(entry);
        }
        register(types, name, AType::FunctionType(function));
        k += 1;
    }
    assert(seen =~= file_entries(file@));
}

// ---------------------------------------------------------------------------
// References
// ---------------------------------------------------------------------------

/// What is wrong with the references of a type: a function whose domain is
/// no entity of `types`, or else whose codomain is no type of `types`.
pub open spec fn reference_error(types: Seq<Entry>, t: ATypeView) -> Option<AstErrorView> {
    match t {
        ATypeView::FunctionType(f) => if !is_entity(types, f.dom) {
            Some(AstErrorView::NoSuchAType(f.dom.name))
        } else if lookup(types, f.codom) is None {
            Some(AstErrorView::NoSuchAType(f.codom.name))
        } else {
            None
        },
        _ => None,
    }
}

/// The error of the first type, from the position `from` on, whose
/// references do not resolve.
pub open spec fn first_reference_error(types: Seq<Entry>, from: int) -> Option<AstErrorView>
    decreases types.len() - from,
{
    if from < 0 || from >= types.len() {
        None
    } else {
        match reference_error(types, types[from].1) {
            Some(e) => Some(e),
            None => first_reference_error(types, from + 1),
        }
    }
}

fn check_references(types: &Vec<(QualifiedName, AType)>) -> (r: Result<(), AstError>)
    ensures
        match r {
            Ok(_) => first_reference_error(types.deep_view(), 0) is None && forall|i: int|
                0 <= i < types.len() ==> references_resolve(
                    types.deep_view(),
                    (#[trigger] types.deep_view()[i]).1,
                ),
            Err(e) => first_reference_error(types.deep_view(), 0) == Some(e@),
        },
{
    let mut k: usize = 0;
    while k < types.len()
        invariant
            k <= types.len(),
            first_reference_error(types.deep_view(), 0) == first_reference_error(
                types.deep_view(),
                k as int,
            ),
            forall|i: int|
                0 <= i < k ==> references_resolve(
                    types.deep_view(),
                    (#[trigger] types.deep_view()[i]).1,
                ),
        decreases types.len() - k,
    {
        assert(types.deep_view()[k as int].1 == types@[k as int].1@);
        match &types[k].1 {
            AType::FunctionType(f) => {
                let dom = f.dom();
                let found = match position(types, &dom) {
                    Some(at) => match &types[at].1 {
                        AType::EntityType(_) => true,
                        _ => false,
                    },
                    None => false,
                };
                if !found {
                    return Err(AstError::NoSuchAType(dom.name()));
                }
                let codom = f.codom();
                if position(types, &codom).is_none() {
                    return Err(AstError::NoSuchAType(codom.name()));
                }
            },
            _ => {},
        }
        k += 1;
    }
    Ok(())
}

// ---------------------------------------------------------------------------
// The functions of each entity
// ---------------------------------------------------------------------------

/// The name of the entry, where it is a function on `entity`.
pub open spec fn function_on(entity: QualifiedNameView, e: Entry) -> Option<QualifiedNameView> {
    match e.1 {
        ATypeView::FunctionType(f) => if f.dom == entity {
            Some(e.0)
        } else {
            None
        },
        _ => None,
    }
}

pub open spec fn on(entity: QualifiedNameView) -> spec_fn(Entry) -> Option<QualifiedNameView> {
    |e: Entry| function_on(entity, e)
}

/// The names of the functions on `entity`, in the order of `types`.
pub open spec fn functions_on(types: Seq<Entry>, entity: QualifiedNameView) -> Seq<
    QualifiedNameView,
> {
    types.filter_map(on(entity))
}

/// The entity of the entry with its functions, where the entry is an entity.
pub open spec fn bucket_of(types: Seq<Entry>, e: Entry) -> Option<
    (QualifiedNameView, Seq<QualifiedNameView>),
> {
    match e.1 {
        ATypeView::EntityType(_) => Some((e.0, functions_on(types, e.0))),
        _ => None,
    }
}

pub open spec fn buckets(types: Seq<Entry>) -> spec_fn(Entry) -> Option<
    (QualifiedNameView, Seq<QualifiedNameView>),
> {
    |e: Entry| bucket_of(types, e)
}

/// The entities of `types` in their order, each with its functions in theirs.
pub open spec fn domain_index(types: Seq<Entry>) -> Seq<
    (QualifiedNameView, Seq<QualifiedNameView>),
> {
    types.filter_map(buckets(types))
}

/// The entry, an entity with the functions that `types` declare on it.
pub open spec fn populate(types: Seq<Entry>, e: Entry) -> Entry {
    match e.1 {
        ATypeView::EntityType(entity) => (
            e.0,
            ATypeView::EntityType(
                EntityTypeView {
                    qualified_name: entity.qualified_name,
                    function_types: functions_on(types, e.0),
                },
            ),
        ),
        _ => e,
    }
}

/// The types, each entity with its functions.
pub open spec fn populated(types: Seq<Entry>) -> Seq<Entry> {
    types.map_values(|e: Entry| populate(types, e))
}

fn entity_functions(types: &Vec<(QualifiedName, AType)>, entity: &QualifiedName) -> (r: Vec<
    QualifiedName,
>)
    requires
        distinct_keys(types.deep_view()),
    ensures
        r.deep_view() == functions_on(types.deep_view(), entity@),
        all_functions(types.deep_view(), r.deep_view()),
{
    let ghost tv = types.deep_view();
    let mut found: Vec<QualifiedName> = Vec::new();
    let mut k: usize = 0;
    assert(tv.take(0).filter_map(on(entity@)) =~= Seq::empty());
    assert(found.deep_view() =~= Seq::empty());
    while k < types.len()
        invariant
            k <= types.len(),
            tv == types.deep_view(),
            distinct_keys(tv),
            found.deep_view() == tv.take(k as int).filter_map(on(entity@)),
            all_functions(tv, found.deep_view()),
        decreases types.len() - k,
    {
        proof {
            tv.lemma_filter_map_take_succ(on(entity@), k as int);
        }
        assert(tv[k as int] == (types@[k as int].0@, types@[k as int].1@));
        let ghost before = found.deep_view();
        match &types[k].1 {
            AType::FunctionType(f) => {
                if f.is_declared_on(entity) {
                    found.push(types[k].0.clone());
                    proof {
                        assert(found.deep_view() =~= before.push(tv[k as int].0));
                        assert(before.push(tv[k as int].0) =~= before + seq![tv[k as int].0]);
                        lemma_lookup_entry(tv, k as int);
                        assert forall|m: int| 0 <= m < found.deep_view().len() implies is_function(
                            tv,
                            #[trigger] found.deep_view()[m],
                        ) by {
                            if m < before.len() {
                                assert(found.deep_view()[m] == before[m]);
                            }
                        }
                    }
                } else {
                    assert(before =~= before + Seq::<QualifiedNameView>::empty());
                }
            },
            _ => {
                assert(before =~= before + Seq::<QualifiedNameView>::empty());
            },
        }
        k += 1;
    }
    assert(tv.take(k as int) =~= tv);
    found
}

/// `key` is the name of an entity among the first `below` of `types`.
pub open spec fn entity_below(types: Seq<Entry>, key: QualifiedNameView, below: int) -> bool {
    exists|i: int| 0 <= i < below && (#[trigger] types[i]).0 == key && types[i].1 is EntityType
}

/// The keys of `index` are names of entities among the first `below` of
/// `types`.
pub open spec fn keys_entities(
    types: Seq<Entry>,
    index: Seq<(QualifiedNameView, Seq<QualifiedNameView>)>,
    below: int,
) -> bool {
    forall|b: int| 0 <= b < index.len() ==> entity_below(types, (#[trigger] index[b]).0, below)
}

/// The functions in `index` are functions of `types`.
pub open spec fn buckets_functions(
    types: Seq<Entry>,
    index: Seq<(QualifiedNameView, Seq<QualifiedNameView>)>,
) -> bool {
    forall|b: int| 0 <= b < index.len() ==> all_functions(types, (#[trigger] index[b]).1)
}

proof fn lemma_index_push(
    types: Seq<Entry>,
    index: Seq<(QualifiedNameView, Seq<QualifiedNameView>)>,
    at: int,
    functions: Seq<QualifiedNameView>,
)
    requires
        distinct_keys(types),
        0 <= at < types.len(),
        types[at].1 is EntityType,
        distinct_keys(index),
        keys_entities(types, index, at),
        buckets_functions(types, index),
        all_functions(types, functions),
    ensures
        distinct_keys(index.push((types[at].0, functions))),
        keys_entities(types, index.push((types[at].0, functions)), at + 1),
        buckets_functions(types, index.push((types[at].0, functions))),
{
    let longer = index.push((types[at].0, functions));
    assert forall|b: int| 0 <= b < longer.len() implies entity_below(
        types,
        (#[trigger] longer[b]).0,
        at + 1,
    ) by {
        if b < index.len() {
            assert(longer[b] == index[b]);
            assert(entity_below(types, index[b].0, at));
            let i = choose|i: int|
                0 <= i < at && (#[trigger] types[i]).0 == index[b].0 && types[i].1 is EntityType;
            assert(types[i].0 == longer[b].0);
        } else {
            assert(types[at].0 == longer[b].0);
        }
    }
    assert forall|a: int, b: int| 0 <= a < b < longer.len() implies (#[trigger] longer[a]).0 != (
    #[trigger] longer[b]).0 by {
        assert(longer[a] == index[a]);
        if b < index.len() {
            assert(longer[b] == index[b]);
        } else {
            assert(entity_below(types, index[a].0, at));
            let i = choose|i: int|
                0 <= i < at && (#[trigger] types[i]).0 == index[a].0 && types[i].1 is EntityType;
            assert(types[i].0 != types[at].0);
        }
    }
    assert forall|b: int| 0 <= b < longer.len() implies all_functions(
        types,
        (#[trigger] longer[b]).1,
    ) by {
        if b < index.len() {
            assert(longer[b] == index[b]);
        }
    }
}

proof fn lemma_index_skip(
    types: Seq<Entry>,
    index: Seq<(QualifiedNameView, Seq<QualifiedNameView>)>,
    at: int,
)
    requires
        keys_entities(types, index, at),
    ensures
        keys_entities(types, index, at + 1),
{
    assert forall|b: int| 0 <= b < index.len() implies entity_below(
        types,
        (#[trigger] index[b]).0,
        at + 1,
    ) by {
        assert(entity_below(types, index[b].0, at));
        let i = choose|i: int|
            0 <= i < at && (#[trigger] types[i]).0 == index[b].0 && types[i].1 is EntityType;
        assert(types[i].0 == index[b].0);
    }
}

/// Gives each entity its functions: in its entry among the types, and in
/// the index of the entities.
fn assemble(types: &Vec<(QualifiedName, AType)>) -> (r: (
    Vec<(QualifiedName, AType)>,
    Vec<(QualifiedName, Vec<QualifiedName>)>,
))
    requires
        distinct_keys(types.deep_view()),
    ensures
        r.0.deep_view() == populated(types.deep_view()),
        r.1.deep_view() == domain_index(types.deep_view()),
        distinct_keys(r.1.deep_view()),
        keys_entities(types.deep_view(), r.1.deep_view(), types.len() as int),
        buckets_functions(types.deep_view(), r.1.deep_view()),
{
    let ghost tv = types.deep_view();
    let mut full: Vec<(QualifiedName, AType)> = Vec::new();
    let mut index: Vec<(QualifiedName, Vec<QualifiedName>)> = Vec::new();
    let mut k: usize = 0;
    assert(tv.take(0).filter_map(buckets(tv)) =~= Seq::empty());
    assert(index.deep_view() =~= Seq::empty());
    assert(full.deep_view() =~= populated(tv).take(0));
    while k < types.len()
        invariant
            k <= types.len(),
            tv == types.deep_view(),
            distinct_keys(tv),
            full.deep_view() == populated(tv).take(k as int),
            index.deep_view() == tv.take(k as int).filter_map(buckets(tv)),
            distinct_keys(index.deep_view()),
            keys_entities(tv, index.deep_view(), k as int),
            buckets_functions(tv, index.deep_view()),
        decreases types.len() - k,
    {
        proof {
            tv.lemma_filter_map_take_succ(buckets(tv), k as int);
        }
        assert(tv[k as int] == (types@[k as int].0@, types@[k as int].1@));
        let ghost full_before = full.deep_view();
        let ghost index_before = index.deep_view();
        match &types[k].1 {
            AType::EntityType(e) => {
                let functions = entity_functions(types, &types[k].0);
                let mut entity = EntityType::new(e.qualified_name());
                let mut m: usize = 0;
                assert(functions.deep_view().take(0) =~= Seq::empty());
                while m < functions.len()
                    invariant
                        m <= functions.len(),
                        entity@ == (EntityTypeView {
                            qualified_name: e@.qualified_name,
                            function_types: functions.deep_view().take(m as int),
                        }),
                    decreases functions.len() - m,
                {
                    entity = add_function_to_entity_type(entity, functions[m].clone());
                    assert(functions.deep_view().take(m as int).push(functions@[m as int]@)
                        =~= functions.deep_view().take(m + 1));
                    m += 1;
                }
                assert(functions.deep_view().take(m as int) =~= functions.deep_view());
                let ghost bucket = (tv[k as int].0, functions.deep_view());
                full.push((types[k].0.clone(), AType::EntityType(entity)));
                index.push((types[k].0.clone(), functions));
                proof {
                    assert(full.deep_view() =~= full_before.push(populate(tv, tv[k as int])));
                    assert(index.deep_view() =~= index_before.push(bucket));
                    assert(index_before.push(bucket) =~= index_before + seq![bucket]);
                    lemma_index_push(tv, index_before, k as int, functions.deep_view());
                }
            },
            other => {
                full.push((types[k].0.clone(), other.clone()));
                proof {
                    assert(full.deep_view() =~= full_before.push(populate(tv, tv[k as int])));
                    assert(index_before =~= index_before + Seq::<
                        (QualifiedNameView, Seq<QualifiedNameView>),
                    >::empty());
                    lemma_index_skip(tv, index_before, k as int);
                }
            },
        }
        assert(full_before.push(populate(tv, tv[k as int])) =~= populated(tv).take(k + 1));
        k += 1;
    }
    assert(tv.take(k as int) =~= tv);
    assert(populated(tv).take(k as int) =~= populated(tv));
    (full, index)
}

// ---------------------------------------------------------------------------
// Resolution
// ---------------------------------------------------------------------------

/// The application that the entry file `main` and the files `imports`
/// declare. The imports are registered first, in their order, and the entry
/// file last.
pub open spec fn spec_resolve(main: cst::FileRootView, imports: Seq<cst::FileRootView>) -> Result<
    ApplicationView,
    AstErrorView,
> {
    match main.app_name {
        None => Err(AstErrorView::NoAppName),
        Some(name) => {
            let types = spec_types(imports.push(main));
            match first_reference_error(types, 0) {
                Some(e) => Err(e),
                None => Ok(
                    ApplicationView {
                        name,
                        types: populated(types),
                        entity_functions: domain_index(types),
                    },
                ),
            }
        },
    }
}

/// The error of the first of the texts `codes`, from the position `from`
/// on, that is no source file.
pub open spec fn syntax_error_from(codes: Seq<Seq<char>>, from: int) -> Option<AstErrorView>
    decreases codes.len() - from,
{
    if from < 0 || from >= codes.len() {
        None
    } else {
        match cst::spec_parse(codes[from]) {
            Err(offset) => Some(AstErrorView::Syntax { file: from + 1, offset }),
            Ok(_) => syntax_error_from(codes, from + 1),
        }
    }
}

/// The record of a text that is a source file.
pub open spec fn record_of(code: Seq<char>) -> cst::FileRootView {
    match cst::spec_parse(code) {
        Ok(root) => root,
        Err(_) => cst::empty_root(),
    }
}

/// The application that the text of the entry file and the texts of the
/// imported files declare.
pub open spec fn spec_build(main_code: Seq<char>, import_codes: Seq<Seq<char>>) -> Result<
    ApplicationView,
    AstErrorView,
> {
    match cst::spec_parse(main_code) {
        Err(offset) => Err(AstErrorView::Syntax { file: 0, offset }),
        Ok(main) => if main.app_name is None {
            Err(AstErrorView::NoAppName)
        } else {
            match syntax_error_from(import_codes, 0) {
                Some(e) => Err(e),
                None => spec_resolve(main, import_codes.map_values(|c: Seq<char>| record_of(c))),
            }
        },
    }
}

proof fn lemma_populated_lookup(types: Seq<Entry>, key: QualifiedNameView, from: int)
    requires
        0 <= from,
    ensures
        match lookup_from(types, key, from) {
            Some(t) => lookup_from(populated(types), key, from) == Some(
                populate(types, (key, t)).1,
            ),
            None => lookup_from(populated(types), key, from) is None,
        },
    decreases types.len() - from,
{
    if from < types.len() {
        assert(populated(types)[from] == populate(types, types[from]));
        if types[from].0 != key {
            lemma_populated_lookup(types, key, from + 1);
        }
    }
}

proof fn lemma_populated_well_formed(
    name: Seq<char>,
    types: Seq<Entry>,
    index: Seq<(QualifiedNameView, Seq<QualifiedNameView>)>,
)
    requires
        sound(types),
        forall|i: int| 0 <= i < types.len() ==> references_resolve(types, (#[trigger] types[i]).1),
        distinct_keys(index),
        keys_entities(types, index, types.len() as int),
        buckets_functions(types, index),
    ensures
        (ApplicationView { name, types: populated(types), entity_functions: index }).well_formed(),
{
    let full = populated(types);
    assert forall|i: int, j: int| 0 <= i < j < full.len() implies (#[trigger] full[i]).0 != (
    #[trigger] full[j]).0 by {
        assert(full[i] == populate(types, types[i]));
        assert(full[j] == populate(types, types[j]));
    }
    assert forall|i: int| 0 <= i < full.len() implies own_name(#[trigger] full[i])
        && references_resolve(full, full[i].1) by {
        assert(full[i] == populate(types, types[i]));
        assert(own_name(types[i]));
        assert(references_resolve(types, types[i].1));
        match types[i].1 {
            ATypeView::FunctionType(f) => {
                lemma_populated_lookup(types, f.dom, 0);
                lemma_populated_lookup(types, f.codom, 0);
            },
            _ => {},
        }
    }
    assert forall|b: int| 0 <= b < index.len() implies is_entity(full, (#[trigger] index[b]).0)
        && all_functions(full, index[b].1) by {
        assert(entity_below(types, index[b].0, types.len() as int));
        let i = choose|i: int|
            0 <= i < types.len() && (#[trigger] types[i]).0 == index[b].0 && types[i].1
                is EntityType;
        lemma_lookup_entry(types, i);
        lemma_populated_lookup(types, index[b].0, 0);
        assert(all_functions(types, index[b].1));
        assert forall|k: int| 0 <= k < index[b].1.len() implies is_function(
            full,
            #[trigger] index[b].1[k],
        ) by {
            assert(is_function(types, index[b].1[k]));
            lemma_populated_lookup(types, index[b].1[k], 0);
        }
    }
}

/// Resolves the records of an entry file and of the files it imports into
/// the application they declare.
///
/// The leaf types are registered first, then the declarations of each
/// import in the order given, then those of the entry file; a name that is
/// declared twice keeps its first type. Resolution fails where the entry
/// file names no application, and where a function's domain is no entity or
/// its codomain no type.
pub fn resolve(main: &cst::FileRoot, imports: &Vec<cst::FileRoot>) -> (r: Result<
    Application,
    AstError,
>)
    ensures
        match r {
            Ok(app) => spec_resolve(main@, imports.deep_view()) == Ok::<
                ApplicationView,
                AstErrorView,
            >(app@),
            Err(e) => spec_resolve(main@, imports.deep_view()) == Err::<
                ApplicationView,
                AstErrorView,
            >(e@),
        },
{
    let app_name = match main.app_name() {
        None => { return Err(AstError::NoAppName); },
        Some(name) => name,
    };
    let mut types: Vec<(QualifiedName, AType)> = Vec::new();
    let leaves = LeafType::all();
    let ghost mut seen: Seq<Entry> = Seq::empty();
    let mut k: usize = 0;
    assert(types.deep_view() =~= Seq::empty());
    while k < leaves.len()
        invariant
            k <= leaves.len(),
            leaves@ == LeafType::spec_all(),
            seen == leaf_entries().take(k as int),
            types.deep_view() == register_all(Seq::empty(), seen),
            sound(types.deep_view()),
        decreases leaves.len() - k,
    {
        let leaf = leaves[k];
        let name = QualifiedName::new(INTERNAL_NAMESPACE, leaf.as_str(), None);
        proof {
            let entry = leaf_entries()[k as int];
            assert(entry == (name@, ATypeView::LeafType(leaf)));
            lemma_register_push(Seq::empty(), seen, entry);
            assert(seen.push(entry) =~= leaf_entries().take(k + 1));
            seen = seen.push(entry);
        }
        register(&mut types, name, AType::LeafType(leaf));
        k += 1;
    }
    assert(seen =~= leaf_entries());
    let ghost base = types.deep_view();
    let mut k: usize = 0;
    assert(imports.deep_view().take(0) =~= Seq::empty());
    while k < imports.len()
        invariant
            k <= imports.len(),
            types.deep_view() == register_files(base, imports.deep_view().take(k as int)),
            sound(types.deep_view()),
        decreases imports.len() - k,
    {
        proof {
            lemma_register_files_push(
                base,
                imports.deep_view().take(k as int),
                imports.deep_view()[k as int],
            );
            assert(imports.deep_view().take(k as int).push(imports.deep_view()[k as int])
                =~= imports.deep_view().take(k + 1));
        }
        register_file(&mut types, &imports[k]);
        k += 1;
    }
    proof {
        assert(imports.deep_view().take(k as int) =~= imports.deep_view());
        lemma_register_files_push(base, imports.deep_view(), main@);
    }
    register_file(&mut types, main);
    assert(types.deep_view() == spec_types(imports.deep_view().push(main@)));
    match check_references(&types) {
        Err(e) => { return Err(e); },
        Ok(_) => {},
    }
    let (full, index) = assemble(&types);
    proof {
        lemma_populated_well_formed(app_name@, types.deep_view(), index.deep_view());
    }
    Ok(Application::new(app_name.as_str(), full, index))
}

/// Reads the entry file and the files it imports, and resolves them into
/// the application they declare.
///
/// `import_codes` holds the texts of the imported files in the order in
/// which they are to be registered.
pub fn build(main_code: &str, import_codes: &Vec<String>) -> (r: Result<Application, AstError>)
    ensures
        match r {
            Ok(app) => spec_build(main_code@, import_codes.deep_view()) == Ok::<
                ApplicationView,
                AstErrorView,
            >(app@),
            Err(e) => spec_build(main_code@, import_codes.deep_view()) == Err::<
                ApplicationView,
                AstErrorView,
            >(e@),
        },
{
    let main = match cst::parse(main_code) {
        Err(e) => { return Err(AstError::Syntax { file: 0, offset: e.offset }); },
        Ok(root) => root,
    };
    if !main.is_main_file() {
        return Err(AstError::NoAppName);
    }
    let ghost codes = import_codes.deep_view();
    let ghost records = codes.map_values(|c: Seq<char>| record_of(c));
    let mut imports: Vec<cst::FileRoot> = Vec::new();
    let mut k: usize = 0;
    assert(imports.deep_view() =~= records.take(0));
    while k < import_codes.len()
        invariant
            k <= import_codes.len(),
            codes == import_codes.deep_view(),
            records == codes.map_values(|c: Seq<char>| record_of(c)),
            cst::spec_parse(main_code@) == Ok::<cst::FileRootView, int>(main@),
            main@.app_name is Some,
            syntax_error_from(codes, 0) == syntax_error_from(codes, k as int),
            imports.deep_view() == records.take(k as int),
        decreases import_codes.len() - k,
    {
        assert(codes[k as int] == import_codes@[k as int]@);
        let ghost before = imports.deep_view();
        match cst::parse(import_codes[k].as_str()) {
            Err(e) => {
                return Err(AstError::Syntax { file: k + 1, offset: e.offset });
            },
            Ok(root) => {
                imports.push(root);
                assert(imports.deep_view() =~= before.push(records[k as int]));
                assert(before.push(records[k as int]) =~= records.take(k + 1));
            },
        }
        k += 1;
    }
    assert(records.take(k as int) =~= records);
    resolve(&main, &imports)
}

// ---------------------------------------------------------------------------
// What holds of resolution
// ---------------------------------------------------------------------------

/// The first registration of a name wins: under every name, the types
/// after registering `entries` hold what the types before and the entries,
/// taken as one sequence, hold first.
pub proof fn law_first_registration_wins(
    types: Seq<Entry>,
    entries: Seq<Entry>,
    key: QualifiedNameView,
)
    ensures
        lookup(register_all(types, entries), key) == lookup(types + entries, key),
    decreases entries.len(),
{
    if entries.len() == 0 {
        assert(types + entries =~= types);
    } else {
        let before = entries.drop_last();
        let entry = entries.last();
        assert(before.push(entry) =~= entries);
        lemma_register_push(types, before, entry);
        law_first_registration_wins(types, before, key);
        law_first_registration_wins(types, before, entry.0);
        assert((types + before).push(entry) =~= types + entries);
        lemma_lookup_push(types + before, entry, key, 0);
        lemma_lookup_push(types + before, entry, entry.0, 0);
        let registered = register_all(types, before);
        if lookup(registered, entry.0) is None {
            lemma_lookup_push(registered, entry, key, 0);
        }
    }
}

proof fn lemma_register_all_sound(types: Seq<Entry>, entries: Seq<Entry>)
    requires
        sound(types),
        forall|i: int| 0 <= i < entries.len() ==> own_name(#[trigger] entries[i]),
    ensures
        sound(register_all(types, entries)),
    decreases entries.len(),
{
    if entries.len() > 0 {
        let before = entries.drop_last();
        let entry = entries.last();
        assert(before.push(entry) =~= entries);
        lemma_register_push(types, before, entry);
        assert forall|i: int| 0 <= i < before.len() implies own_name(#[trigger] before[i]) by {
            assert(before[i] == entries[i]);
        }
        lemma_register_all_sound(types, before);
        let registered = register_all(types, before);
        if lookup(registered, entry.0) is None {
            lemma_lookup_none(registered, entry.0, 0);
            let longer = registered.push(entry);
            assert forall|i: int| 0 <= i < longer.len() implies own_name(#[trigger] longer[i]) by {
                if i < registered.len() {
                    assert(longer[i] == registered[i]);
                }
            }
        }
    }
}

proof fn lemma_register_files_sound(types: Seq<Entry>, files: Seq<cst::FileRootView>)
    requires
        sound(types),
    ensures
        sound(register_files(types, files)),
    decreases files.len(),
{
    if files.len() > 0 {
        let before = files.drop_last();
        let file = files.last();
        assert(before.push(file) =~= files);
        lemma_register_files_push(types, before, file);
        lemma_register_files_sound(types, before);
        lemma_register_all_sound(register_files(types, before), file_entries(file));
    }
}

proof fn lemma_references_resolve(types: Seq<Entry>, from: int)
    requires
        0 <= from,
        first_reference_error(types, from) is None,
    ensures
        forall|i: int|
            from <= i < types.len() ==> references_resolve(types, (#[trigger] types[i]).1),
    decreases types.len() - from,
{
    if from < types.len() {
        lemma_references_resolve(types, from + 1);
    }
}

proof fn lemma_functions_on(types: Seq<Entry>, entity: QualifiedNameView, below: int)
    requires
        distinct_keys(types),
        0 <= below <= types.len(),
    ensures
        all_functions(types, types.take(below).filter_map(on(entity))),
    decreases below,
{
    if below > 0 {
        lemma_functions_on(types, entity, below - 1);
        types.lemma_filter_map_take_succ(on(entity), below - 1);
        lemma_lookup_entry(types, below - 1);
    }
}

proof fn lemma_domain_index(types: Seq<Entry>, below: int)
    requires
        distinct_keys(types),
        0 <= below <= types.len(),
    ensures
        distinct_keys(types.take(below).filter_map(buckets(types))),
        keys_entities(types, types.take(below).filter_map(buckets(types)), below),
        buckets_functions(types, types.take(below).filter_map(buckets(types))),
    decreases below,
{
    if below > 0 {
        let at = below - 1;
        lemma_domain_index(types, at);
        types.lemma_filter_map_take_succ(buckets(types), at);
        let index = types.take(at).filter_map(buckets(types));
        match types[at].1 {
            ATypeView::EntityType(_) => {
                let functions = functions_on(types, types[at].0);
                assert(types.take(types.len() as int) =~= types);
                lemma_functions_on(types, types[at].0, types.len() as int);
                lemma_index_push(types, index, at, functions);
                assert(index.push((types[at].0, functions)) =~= index + seq![
                    (types[at].0, functions),
                ]);
            },
            _ => {
                lemma_index_skip(types, index, at);
                assert(index =~= index + Seq::<
                    (QualifiedNameView, Seq<QualifiedNameView>),
                >::empty());
            },
        }
    }
}

/// What resolution yields is an application as it must be: no name stands
/// for two types, every type stands under its own name, the domain of every
/// function is an entity and its codomain a type of the application, and
/// the functions of the entities are functions of it.
pub proof fn law_resolved_is_well_formed(
    main: cst::FileRootView,
    imports: Seq<cst::FileRootView>,
)
    ensures
        spec_resolve(main, imports) matches Ok(app) ==> app.well_formed(),
{
    if let Ok(app) = spec_resolve(main, imports) {
        let files = imports.push(main);
        let leaves = register_all(Seq::empty(), leaf_entries());
        lemma_register_all_sound(Seq::empty(), leaf_entries());
        lemma_register_files_sound(leaves, files);
        let types = spec_types(files);
        lemma_references_resolve(types, 0);
        assert(types.take(types.len() as int) =~= types);
        lemma_domain_index(types, types.len() as int);
        lemma_populated_well_formed(app.name, types, domain_index(types));
    }
}

// ---------------------------------------------------------------------------
// The files to read
// ---------------------------------------------------------------------------

/// The paths that the files import, file by file.
pub open spec fn all_imports(files: Seq<cst::FileRootView>) -> Seq<Seq<char>> {
    files.map_values(|f: cst::FileRootView| f.imports).flatten()
}

/// The first of `paths`, from the position `from` on, that is not among
/// `read`.
pub open spec fn first_unread(paths: Seq<Seq<char>>, read: Seq<Seq<char>>, from: int) -> Option<
    Seq<char>,
>
    decreases paths.len() - from,
{
    if from < 0 || from >= paths.len() {
        None
    } else if !read.contains(paths[from]) {
        Some(paths[from])
    } else {
        first_unread(paths, read, from + 1)
    }
}

fn is_among(texts: &Vec<String>, text: &String) -> (r: bool)
    ensures
        r == texts.deep_view().contains(text@),
{
    let mut k: usize = 0;
    while k < texts.len()
        invariant
            k <= texts.len(),
            forall|j: int| 0 <= j < k ==> texts.deep_view()[j] != text@,
        decreases texts.len() - k,
    {
        if texts[k] == *text {
            assert(texts.deep_view()[k as int] == text@);
            return true;
        }
        k += 1;
    }
    false
}

/// The next file to read: the first path, in the order of the files and of
/// their import statements, that one of `files` imports and that is not
/// among the paths `read`. Where there is none, every import has been read.
pub fn next_import(files: &Vec<cst::FileRoot>, read: &Vec<String>) -> (r: Option<String>)
    ensures
        r.deep_view() == first_unread(all_imports(files.deep_view()), read.deep_view(), 0),
{
    let ghost per_file = files.deep_view().map_values(|f: cst::FileRootView| f.imports);
    let mut paths: Vec<String> = Vec::new();
    let mut k: usize = 0;
    assert(per_file.take(0) =~= Seq::empty());
    assert(paths.deep_view() =~= Seq::<Seq<char>>::empty());
    while k < files.len()
        invariant
            k <= files.len(),
            per_file == files.deep_view().map_values(|f: cst::FileRootView| f.imports),
            paths.deep_view() == per_file.take(k as int).flatten(),
        decreases files.len() - k,
    {
        let more = files[k].import_paths();
        proof {
            assert(per_file[k as int] == more.deep_view());
            per_file.take(k as int).lemma_flatten_push(per_file[k as int]);
            assert(per_file.take(k as int).push(per_file[k as int]) =~= per_file.take(k + 1));
        }
        let ghost before = paths.deep_view();
        let mut m: usize = 0;
        while m < more.len()
            invariant
                m <= more.len(),
                paths.deep_view() == before + more.deep_view().take(m as int),
            decreases more.len() - m,
        {
            let ghost sofar = paths.deep_view();
            paths.push(more[m].clone());
            assert(paths.deep_view() =~= sofar.push(more@[m as int]@));
            assert(sofar.push(more@[m as int]@) =~= before + more.deep_view().take(m + 1));
            m += 1;
        }
        assert(more.deep_view().take(m as int) =~= more.deep_view());
        k += 1;
    }
    assert(per_file.take(k as int) =~= per_file);
    let mut k: usize = 0;
    while k < paths.len()
        invariant
            k <= paths.len(),
            paths.deep_view() == all_imports(files.deep_view()),
            first_unread(paths.deep_view(), read.deep_view(), 0) == first_unread(
                paths.deep_view(),
                read.deep_view(),
                k as int,
            ),
        decreases paths.len() - k,
    {
        assert(paths.deep_view()[k as int] == paths@[k as int]@);
        if !is_among(read, &paths[k]) {
            return Some(paths[k].clone());
        }
        k += 1;
    }
    None
}

} // verus!
