use passenger::model::{ScaffoldKind, ScaffoldOutput};
use passenger::scaffolds::{get_scaffold_plan, ScaffoldPlan};
use passenger::types::PassengerError;

#[test]
fn scaffold_kind_parse_ignores_case_and_space() {
    assert_eq!(ScaffoldKind::parse(" Module "), Some(ScaffoldKind::Module));
    assert_eq!(ScaffoldKind::parse("SERVICE"), Some(ScaffoldKind::Service));
    assert_eq!(ScaffoldKind::parse("component"), Some(ScaffoldKind::Component));
    assert_eq!(ScaffoldKind::parse("test\n"), Some(ScaffoldKind::Test));
    assert_eq!(ScaffoldKind::parse("widget"), None);
}

#[test]
fn scaffold_kind_from_lowercase_is_exact() {
    assert_eq!(ScaffoldKind::from_lowercase("module"), Some(ScaffoldKind::Module));
    assert_eq!(ScaffoldKind::from_lowercase("Module"), None);
}

#[test]
fn unsupported_scaffold_has_no_files() {
    assert!(ScaffoldOutput::unsupported().files.is_empty());
}

#[test]
fn scaffold_plan_lookup() {
    let p = get_scaffold_plan("default").unwrap();
    assert_eq!(p.id(), "default");
    assert!(p.template(ScaffoldKind::Component).contains("pub struct {Ty};"));
    assert!(matches!(get_scaffold_plan("fancy"), Err(PassengerError::Unsupported(_))));
}
