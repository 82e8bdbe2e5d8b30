use gimbal::lang::ast::{
    add_function_to_entity_type, AType, AstError, EntityType, FunctionType, QualifiedName,
};
use gimbal::lang::ast_builder::{build, next_import, qn_default, resolve};
use gimbal::lang::cst::parse;
use gimbal::lang::internal::{LeafType, INTERNAL_NAMESPACE};

fn texts(all: &[&str]) -> Vec<String> {
    all.iter().map(|s| s.to_string()).collect()
}

#[test]
fn leaf_types_are_always_there() {
    let app = build("app empty", &Vec::new()).unwrap();
    for leaf in LeafType::all() {
        let qn = QualifiedName::new(INTERNAL_NAMESPACE, &leaf.name(), None);
        assert!(matches!(app.get_type(&qn), Some(AType::LeafType(l)) if *l == leaf));
    }
    let id = QualifiedName::new(INTERNAL_NAMESPACE, "Id", None);
    assert!(app.get_type(&id).is_none());
    assert!(app.entity_functions().is_empty());
}

#[test]
fn leaf_type_names() {
    assert_eq!(LeafType::String.name(), "String");
    assert_eq!(LeafType::Int.name(), "Int");
    assert_eq!(LeafType::Float.name(), "Float");
    assert_eq!(LeafType::Bool.name(), "Bool");
    assert_eq!(LeafType::Id.name(), "Id");
    assert_eq!(LeafType::Float.as_str(), "Float");
    assert_eq!(
        LeafType::all(),
        vec![LeafType::String, LeafType::Int, LeafType::Float, LeafType::Bool]
    );
    assert_eq!(INTERNAL_NAMESPACE, "_internal_");
}

#[test]
fn is_leaf_type_knows_the_four_names() {
    assert!(LeafType::is_leaf_type("String"));
    assert!(LeafType::is_leaf_type("Int"));
    assert!(LeafType::is_leaf_type("Float"));
    assert!(LeafType::is_leaf_type("Bool"));
    assert!(!LeafType::is_leaf_type("Id"));
    assert!(!LeafType::is_leaf_type("string"));
    assert!(!LeafType::is_leaf_type(""));
}

#[test]
fn qn_default_picks_the_namespace() {
    let explicit = qn_default("here", (Some("there".to_string()), "String".to_string()));
    assert_eq!(explicit, QualifiedName::new("there", "String", None));
    let leaf = qn_default("here", (None, "Bool".to_string()));
    assert_eq!(leaf, QualifiedName::new("_internal_", "Bool", None));
    let own = qn_default("here", (None, "Agent".to_string()));
    assert_eq!(own, QualifiedName::new("here", "Agent", None));
}

#[test]
fn qualified_name_parts() {
    let qn = QualifiedName::new("db", "name", Some(("db", "Agent")));
    assert_eq!(qn.namespace(), "db");
    assert_eq!(qn.name(), "name");
    assert_eq!(qn.table_name(), "db_name");
    assert_ne!(qn, QualifiedName::new("db", "name", None));
    assert_ne!(qn, QualifiedName::new("db", "name", Some(("db", "Other"))));
    assert_ne!(qn, QualifiedName::new("db", "name", Some(("other", "Agent"))));
    assert_ne!(qn, QualifiedName::new("other", "name", Some(("db", "Agent"))));
    assert_ne!(qn, QualifiedName::new("db", "other", Some(("db", "Agent"))));
    assert_eq!(qn.clone(), qn);
}

#[test]
fn functions_are_scoped_under_their_domain() {
    let app = build(
        "app a namespace db where entity persists Agent name :: Agent -> String",
        &Vec::new(),
    )
    .unwrap();
    let scoped = QualifiedName::new("db", "name", Some(("db", "Agent")));
    let f = app.get_type(&scoped).unwrap().try_to_function_type().unwrap();
    assert_eq!(f.qualified_name(), scoped);
    assert_eq!(f.name(), "name");
    assert_eq!(f.dom(), QualifiedName::new("db", "Agent", None));
    assert_eq!(f.codom(), QualifiedName::new("_internal_", "String", None));
    assert!(f.is_declared_on(&QualifiedName::new("db", "Agent", None)));
    assert!(app.get_type(&QualifiedName::new("db", "name", None)).is_none());
}

#[test]
fn entities_hold_their_functions_in_order() {
    let code = "app a namespace db where
        entity persists Agent
        entity persists Thing
        name :: Agent -> String
        weight :: Thing -> Float
        age :: Agent -> Int
        owner :: Thing -> Agent";
    let app = build(code, &Vec::new()).unwrap();
    let agent = QualifiedName::new("db", "Agent", None);
    let thing = QualifiedName::new("db", "Thing", None);
    let name = QualifiedName::new("db", "name", Some(("db", "Agent")));
    let age = QualifiedName::new("db", "age", Some(("db", "Agent")));
    let weight = QualifiedName::new("db", "weight", Some(("db", "Thing")));
    let owner = QualifiedName::new("db", "owner", Some(("db", "Thing")));
    assert_eq!(app.get_entity_functions(&agent).unwrap(), &vec![name.clone(), age.clone()]);
    assert_eq!(app.get_entity_functions(&thing).unwrap(), &vec![weight.clone(), owner.clone()]);
    let keys: Vec<QualifiedName> = app.entity_functions().iter().map(|e| e.0.clone()).collect();
    assert_eq!(keys, vec![agent.clone(), thing.clone()]);
    match app.get_type(&agent).unwrap() {
        AType::EntityType(e) => {
            assert_eq!(e.qualified_name(), agent);
            assert_eq!(e.name(), "Agent");
            assert_eq!(e.function_types(), vec![name, age]);
        }
        _ => panic!("Agent is an entity"),
    }
    assert!(app.get_entity_functions(&weight).is_none());
}

#[test]
fn an_entity_without_functions_has_an_empty_list() {
    let app = build("app a namespace db where entity persists Lonely", &Vec::new()).unwrap();
    let lonely = QualifiedName::new("db", "Lonely", None);
    assert_eq!(app.get_entity_functions(&lonely).unwrap().len(), 0);
    assert_eq!(app.entity_functions().len(), 1);
}

#[test]
fn imports_are_registered_before_the_entry_file() {
    let main = "app a namespace db where entity persists Late first :: Early -> String";
    let import = "namespace db where entity persists Early";
    let app = build(main, &texts(&[import])).unwrap();
    let keys: Vec<String> = app.entity_functions().iter().map(|e| e.0.name()).collect();
    assert_eq!(keys, vec!["Early".to_string(), "Late".to_string()]);
}

#[test]
fn the_first_registration_of_a_name_wins() {
    let main = "app a namespace db where f :: A -> Int entity persists A";
    let import = "namespace db where entity persists A f :: A -> String";
    let app = build(main, &texts(&[import])).unwrap();
    let f = QualifiedName::new("db", "f", Some(("db", "A")));
    let found = app.get_type(&f).unwrap().try_to_function_type().unwrap();
    assert_eq!(found.codom(), QualifiedName::new("_internal_", "String", None));
    assert_eq!(app.entity_functions().len(), 1);
    assert_eq!(app.entity_functions()[0].1, vec![f]);
}

#[test]
fn a_leaf_type_cannot_be_shadowed() {
    let main = "app a namespace _internal_ where entity persists String";
    let app = build(main, &Vec::new()).unwrap();
    let qn = QualifiedName::new("_internal_", "String", None);
    assert!(matches!(app.get_type(&qn), Some(AType::LeafType(LeafType::String))));
    assert!(app.entity_functions().is_empty());
}

#[test]
fn no_application_name_is_an_error() {
    let r = build("namespace db where entity persists Agent", &Vec::new());
    assert!(matches!(r, Err(AstError::NoAppName)));
    let root = parse("namespace db where").unwrap();
    assert!(matches!(resolve(&root, &Vec::new()), Err(AstError::NoAppName)));
}

#[test]
fn a_syntax_error_names_the_file() {
    let r = build("app a ?", &Vec::new());
    assert!(matches!(r, Err(AstError::Syntax { file: 0, offset: 6 })));
    let r = build("app a", &texts(&["namespace x where", "entity"]));
    assert!(matches!(r, Err(AstError::Syntax { file: 2, offset: 0 })));
    let r = build("?", &texts(&["?"]));
    assert!(matches!(r, Err(AstError::Syntax { file: 0, offset: 0 })));
}

#[test]
fn no_application_name_comes_before_the_imports() {
    let r = build("namespace db where", &texts(&["?"]));
    assert!(matches!(r, Err(AstError::NoAppName)));
}

#[test]
fn an_unknown_domain_is_an_error() {
    let r = build("app a namespace db where name :: Agent -> String", &Vec::new());
    assert!(matches!(r, Err(AstError::NoSuchAType(n)) if n == "Agent"));
}

#[test]
fn a_domain_that_is_no_entity_is_an_error() {
    let r = build("app a namespace db where size :: Int -> Int", &Vec::new());
    assert!(matches!(r, Err(AstError::NoSuchAType(n)) if n == "Int"));
}

#[test]
fn an_unknown_codomain_is_an_error() {
    let code = "app a namespace db where entity persists Agent name :: Agent -> Text";
    let r = build(code, &Vec::new());
    assert!(matches!(r, Err(AstError::NoSuchAType(n)) if n == "Text"));
}

#[test]
fn the_first_unresolved_reference_is_reported() {
    let code = "app a namespace db where entity persists Agent
        one :: Agent -> Missing1
        two :: Missing2 -> Missing3";
    let r = build(code, &Vec::new());
    assert!(matches!(r, Err(AstError::NoSuchAType(n)) if n == "Missing1"));
    let code = "app a namespace db where two :: Missing2 -> Missing3";
    let r = build(code, &Vec::new());
    assert!(matches!(r, Err(AstError::NoSuchAType(n)) if n == "Missing2"));
}

#[test]
fn an_entity_of_another_namespace_resolves_by_its_namespace() {
    let main = "app a namespace here where entity persists Local far :: there.Remote -> Local";
    let import = "namespace there where entity persists Remote";
    let app = build(main, &texts(&[import])).unwrap();
    let remote = QualifiedName::new("there", "Remote", None);
    let far = QualifiedName::new("here", "far", Some(("there", "Remote")));
    assert_eq!(app.get_entity_functions(&remote).unwrap(), &vec![far]);
}

#[test]
fn error_messages() {
    let name = "thing".to_string();
    assert_eq!(
        AstError::NoSuchAType(name.clone()).message(),
        "I couldn't find an attribute called thing."
    );
    assert_eq!(
        AstError::DupAType(name.clone()).message(),
        "I've already got an attribute called thing but you've tried to define it again."
    );
    assert_eq!(
        AstError::DupModule(name.clone()).message(),
        "I've already got a module called thing but you've tried to define it again."
    );
    assert_eq!(
        AstError::NoSuchModule(name.clone()).message(),
        "I've couldn't find a module called thing."
    );
    assert_eq!(
        AstError::DupDType(name).message(),
        "I've already got a datatype called thing but you've tried to define it again."
    );
    assert_eq!(AstError::NoAppName.message(), "I couldn't find the name of the application.");
    assert_eq!(
        AstError::Syntax { file: 1, offset: 2 }.message(),
        "I couldn't read one of the source files."
    );
}

#[test]
fn entity_type_gains_functions_at_its_end() {
    let agent = QualifiedName::new("db", "Agent", None);
    let entity = EntityType::new(agent.clone());
    assert!(entity.function_types().is_empty());
    let one = QualifiedName::new("db", "one", Some(("db", "Agent")));
    let two = QualifiedName::new("db", "two", Some(("db", "Agent")));
    let entity = add_function_to_entity_type(entity, one.clone());
    let entity = add_function_to_entity_type(entity, two.clone());
    assert_eq!(entity.qualified_name(), agent);
    assert_eq!(entity.function_types(), vec![one, two]);
    assert_eq!(entity.clone().function_types(), entity.function_types());
}

#[test]
fn atype_names() {
    let agent = QualifiedName::new("db", "Agent", None);
    let name = QualifiedName::new("db", "name", Some(("db", "Agent")));
    let leaf = QualifiedName::new("_internal_", "String", None);
    let e = AType::EntityType(EntityType::new(agent.clone()));
    let f = AType::FunctionType(FunctionType::new(name, agent, leaf));
    let l = AType::LeafType(LeafType::Int);
    assert_eq!(e.name(), "Agent");
    assert_eq!(f.name(), "name");
    assert_eq!(l.name(), "");
    assert!(e.try_to_function_type().is_none());
    assert!(l.try_to_function_type().is_none());
    assert_eq!(f.try_to_function_type().unwrap().name(), "name");
    assert_eq!(f.clone().name(), "name");
}

#[test]
fn next_import_walks_the_files_in_order() {
    let main = parse("import \"a\" import \"b\" app x").unwrap();
    let a = parse("import \"c\" import \"a\"").unwrap();
    let mut roots = vec![main];
    let mut read: Vec<String> = Vec::new();
    assert_eq!(next_import(&roots, &read), Some("a".to_string()));
    roots.push(a);
    read.push("a".to_string());
    assert_eq!(next_import(&roots, &read), Some("b".to_string()));
    read.push("b".to_string());
    assert_eq!(next_import(&roots, &read), Some("c".to_string()));
    read.push("c".to_string());
    assert_eq!(next_import(&roots, &read), None);
    assert_eq!(next_import(&Vec::new(), &read), None);
}
