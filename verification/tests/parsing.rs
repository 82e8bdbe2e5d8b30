use gimbal::lang::cst::{parse, CodeNode, DbParser, FunctionType, SyntaxError};

#[test]
fn empty_text_is_an_empty_file() {
    let root = parse("").unwrap();
    assert_eq!(root.app_name(), None);
    assert!(!root.is_main_file());
    assert_eq!(root.namespace(), "");
    assert!(root.import_paths().is_empty());
    assert!(root.entity_types().is_empty());
    assert!(root.function_types().is_empty());
    assert!(root.used_namespaces().is_empty());
}

#[test]
fn white_space_alone_is_an_empty_file() {
    let root = parse(" \t\r\n  \n").unwrap();
    assert!(root.entity_types().is_empty());
    assert_eq!(root.app_name(), None);
}

#[test]
fn statements_are_read_in_order() {
    let nodes = DbParser::parse("import \"a/b.gim\" app shop use std namespace db where").unwrap();
    assert_eq!(nodes.len(), 4);
    assert!(matches!(&nodes[0], CodeNode::Import(p) if p == "a/b.gim"));
    assert!(matches!(&nodes[1], CodeNode::AppDef(n) if n == "shop"));
    assert!(matches!(&nodes[2], CodeNode::UsedNamespace(n) if n == "std"));
    assert!(matches!(&nodes[3], CodeNode::Namespace(n) if n == "db"));
}

#[test]
fn entity_and_struct_declare_entities() {
    let root = parse("entity persists Agent struct lasts Person").unwrap();
    let names: Vec<String> = root.entity_types().iter().map(|e| e.name()).collect();
    assert_eq!(names, vec!["Agent".to_string(), "Person".to_string()]);
}

#[test]
fn function_with_qualified_references() {
    let root = parse("owner :: shop.Order -> people.Person").unwrap();
    let f = root.function_type("owner").unwrap();
    assert_eq!(f.name(), "owner");
    assert_eq!(f.dom(), (Some("shop".to_string()), "Order".to_string()));
    assert_eq!(f.codom(), (Some("people".to_string()), "Person".to_string()));
}

#[test]
fn function_with_bare_references() {
    let root = parse("name::Agent->String").unwrap();
    let f = root.function_type("name").unwrap();
    assert_eq!(f.dom(), (None, "Agent".to_string()));
    assert_eq!(f.codom(), (None, "String".to_string()));
}

#[test]
fn function_type_new_keeps_its_parts() {
    let f = FunctionType::new(
        "age",
        (None, "Agent".to_string()),
        (Some("x".to_string()), "Int".to_string()),
    );
    assert_eq!(f.name(), "age");
    assert_eq!(f.dom(), (None, "Agent".to_string()));
    assert_eq!(f.codom(), (Some("x".to_string()), "Int".to_string()));
}

#[test]
fn first_entity_of_a_name_stays() {
    let root = parse("entity persists Agent entity fades Agent entity persists Other").unwrap();
    assert_eq!(root.entity_types().len(), 2);
    assert_eq!(root.entity_types()[0].name(), "Agent");
    assert_eq!(root.entity_types()[1].name(), "Other");
}

#[test]
fn first_function_of_a_name_stays() {
    let root = parse("name :: Agent -> String name :: Other -> Int").unwrap();
    assert_eq!(root.function_types().len(), 1);
    assert_eq!(root.function_type("name").unwrap().dom(), (None, "Agent".to_string()));
}

#[test]
fn imports_are_kept_once_in_order() {
    let root = parse("import \"b\" import \"a\" import \"b\"").unwrap();
    assert_eq!(root.import_paths(), vec!["b".to_string(), "a".to_string()]);
}

#[test]
fn last_namespace_and_application_stay() {
    let root = parse("app one namespace a where app two namespace b where").unwrap();
    assert_eq!(root.app_name(), Some("two".to_string()));
    assert_eq!(root.namespace(), "b");
    assert!(root.is_main_file());
}

#[test]
fn used_namespaces_are_kept_once() {
    let root = parse("use std use other use std").unwrap();
    assert_eq!(root.used_namespaces(), vec!["std".to_string(), "other".to_string()]);
}

#[test]
fn unknown_entity_is_not_found() {
    let root = parse("entity persists Agent").unwrap();
    assert!(root.entity_type("Nobody").is_none());
    assert!(root.function_type("Agent").is_none());
}

#[test]
fn a_character_that_starts_no_token_is_an_error() {
    assert_eq!(parse("app x\n  ? y").unwrap_err(), SyntaxError { offset: 8 });
    assert_eq!(parse(": x").unwrap_err(), SyntaxError { offset: 0 });
    assert_eq!(parse("a - b").unwrap_err(), SyntaxError { offset: 2 });
    assert_eq!(parse("9lives").unwrap_err(), SyntaxError { offset: 0 });
}

#[test]
fn an_open_quote_is_an_error() {
    assert_eq!(parse("import \"never closed").unwrap_err(), SyntaxError { offset: 7 });
}

#[test]
fn a_broken_statement_is_an_error_at_its_start() {
    assert_eq!(parse("app one\nnamespace db").unwrap_err(), SyntaxError { offset: 8 });
    assert_eq!(parse("app").unwrap_err(), SyntaxError { offset: 0 });
    assert_eq!(parse("  import file").unwrap_err(), SyntaxError { offset: 2 });
    assert_eq!(parse("entity Agent").unwrap_err(), SyntaxError { offset: 0 });
    assert_eq!(parse("name :: Agent String").unwrap_err(), SyntaxError { offset: 0 });
    assert_eq!(parse("name :: a. -> String").unwrap_err(), SyntaxError { offset: 0 });
    assert_eq!(parse("app x \"text\"").unwrap_err(), SyntaxError { offset: 6 });
    assert_eq!(parse("app x .").unwrap_err(), SyntaxError { offset: 6 });
}

#[test]
fn offsets_count_characters() {
    assert_eq!(parse("import \"é\" ?").unwrap_err(), SyntaxError { offset: 11 });
}

#[test]
fn the_grammar_reports_the_same_error_as_parse() {
    assert_eq!(DbParser::parse("use").unwrap_err(), parse("use").unwrap_err());
}
