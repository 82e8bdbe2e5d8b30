use gimbal::lang::ast;
use gimbal::lang::ast_builder::build;

#[test]
fn main_test() {
    let main_code = r#"
app my_app"#;
    let app = build(main_code, &Vec::new());
    assert_eq!(app.unwrap().name(), "my_app");
}

#[test]
fn imports_resolve_across_namespaces() {
    let main_code = r#"
import "elsewhere.gim"
app my_app

use elsewhere
namespace example where

entity persists Agent
entity persists Resource

name :: Agent -> elsewhere.Resource
"#;
    let elsewhere_code = r#"
namespace elsewhere where

entity persists Resource
"#;
    let app = build(main_code, &vec![elsewhere_code.to_string()]).unwrap();
    assert_eq!(app.name(), "my_app");
    let resource_qn = ast::QualifiedName::new("example", "Resource", None);
    assert_eq!(app.get_type(&resource_qn).unwrap().name(), "Resource");

    let name_fn_qn = ast::QualifiedName::new("example", "name", Some(("example", "Agent")));
    assert_eq!(app.get_type(&name_fn_qn).unwrap().name(), "name");

    assert_eq!(
        app.get_type(&name_fn_qn).unwrap().try_to_function_type().unwrap().dom().namespace(),
        "example"
    );
    assert_eq!(
        app.get_type(&name_fn_qn).unwrap().try_to_function_type().unwrap().codom().namespace(),
        "elsewhere"
    );
    assert_eq!(
        app.get_type(&name_fn_qn).unwrap().try_to_function_type().unwrap().codom().namespace(),
        "elsewhere"
    );

    let agent_qn = ast::QualifiedName::new("example", "Agent", None);
    assert_eq!(app.get_entity_functions(&agent_qn).unwrap()[0].name(), "name");
}
