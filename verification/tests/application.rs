use gimbal::lang::ast::{AType, Application, EntityType, FunctionType, QualifiedName};
use gimbal::lang::internal::LeafType;

fn agent() -> QualifiedName {
    QualifiedName::new("db", "Agent", None)
}

fn leaf() -> QualifiedName {
    QualifiedName::new("_internal_", "Int", None)
}

fn age() -> QualifiedName {
    QualifiedName::new("db", "age", Some(("db", "Agent")))
}

fn entity_entry(name: QualifiedName) -> (QualifiedName, AType) {
    (name.clone(), AType::EntityType(EntityType::new(name)))
}

fn function_entry(
    name: QualifiedName,
    dom: QualifiedName,
    codom: QualifiedName,
) -> (QualifiedName, AType) {
    (name.clone(), AType::FunctionType(FunctionType::new(name, dom, codom)))
}

fn types() -> Vec<(QualifiedName, AType)> {
    vec![
        (leaf(), AType::LeafType(LeafType::Int)),
        entity_entry(agent()),
        function_entry(age(), agent(), leaf()),
    ]
}

#[test]
fn a_well_formed_application_is_made() {
    let app = Application::try_new("a", types(), vec![(agent(), vec![age()])]).unwrap();
    assert_eq!(app.name(), "a");
    assert_eq!(app.get_type(&agent()).unwrap().name(), "Agent");
    assert_eq!(app.get_entity_functions(&agent()).unwrap(), &vec![age()]);
    assert!(app.get_type(&QualifiedName::new("db", "Nobody", None)).is_none());
    assert!(app.get_entity_functions(&age()).is_none());
    assert_eq!(app.entity_functions().len(), 1);
    let made = Application::new("b", types(), vec![(agent(), vec![age()])]);
    assert_eq!(made.name(), "b");
    assert_eq!(made.entity_functions()[0].0, agent());
    assert!(Application::try_new("empty", Vec::new(), Vec::new()).is_some());
}

#[test]
fn a_name_for_two_types_is_refused() {
    let mut twice = types();
    twice.push(entity_entry(agent()));
    assert!(Application::try_new("a", twice, Vec::new()).is_none());
}

#[test]
fn an_entity_listed_twice_is_refused() {
    let index = vec![(agent(), vec![age()]), (agent(), Vec::new())];
    assert!(Application::try_new("a", types(), index).is_none());
}

#[test]
fn a_type_under_another_name_is_refused() {
    let other = QualifiedName::new("db", "Other", None);
    let wrong = vec![(other, AType::EntityType(EntityType::new(agent())))];
    assert!(Application::try_new("a", wrong, Vec::new()).is_none());
    let wrong = vec![
        (leaf(), AType::LeafType(LeafType::Int)),
        entity_entry(agent()),
        (agent().clone(), AType::FunctionType(FunctionType::new(age(), agent(), leaf()))),
    ];
    assert!(Application::try_new("a", wrong, Vec::new()).is_none());
}

#[test]
fn a_function_on_what_is_no_entity_is_refused() {
    let size = QualifiedName::new("db", "size", Some(("_internal_", "Int")));
    let wrong = vec![
        (leaf(), AType::LeafType(LeafType::Int)),
        function_entry(size, leaf(), leaf()),
    ];
    assert!(Application::try_new("a", wrong, Vec::new()).is_none());
    let wrong = vec![
        (leaf(), AType::LeafType(LeafType::Int)),
        function_entry(age(), agent(), leaf()),
    ];
    assert!(Application::try_new("a", wrong, Vec::new()).is_none());
}

#[test]
fn a_function_to_what_is_not_declared_is_refused() {
    let wrong = vec![entity_entry(agent()), function_entry(age(), agent(), leaf())];
    assert!(Application::try_new("a", wrong, Vec::new()).is_none());
}

#[test]
fn an_index_of_what_is_not_declared_is_refused() {
    let nobody = QualifiedName::new("db", "Nobody", None);
    assert!(Application::try_new("a", types(), vec![(nobody, Vec::new())]).is_none());
    assert!(Application::try_new("a", types(), vec![(age(), Vec::new())]).is_none());
    assert!(Application::try_new("a", types(), vec![(agent(), vec![agent()])]).is_none());
    assert!(Application::try_new("a", types(), vec![(agent(), vec![age(), leaf()])]).is_none());
    let unknown = QualifiedName::new("db", "unknown", Some(("db", "Agent")));
    assert!(Application::try_new("a", types(), vec![(agent(), vec![unknown])]).is_none());
    assert!(Application::try_new("a", types(), vec![(agent(), vec![age(), age()])]).is_some());
}
