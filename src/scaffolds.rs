//! Scaffold templates: the text a new file starts from, by kind. Templates
//! hold the placeholders `{snake}` (snake-case name) and `{Ty}` (type name).

use vstd::prelude::*;
use crate::model::ScaffoldKind;
use crate::text::str_eq;
use crate::types::PassengerError;

verus! {

/// A set of scaffold templates.
pub trait ScaffoldPlan {
    /// The name the plan is known by.
    spec fn plan_id(&self) -> Seq<char>;

    fn id(&self) -> (r: &'static str)
        ensures
            r@ == self.plan_id();

    /// The template of a kind of file.
    fn template(&self, kind: ScaffoldKind) -> &'static str;
}

/// The built-in templates.
#[derive(Debug, Default)]
pub struct DefaultScaffoldPlan;

impl ScaffoldPlan for DefaultScaffoldPlan {
    open spec fn plan_id(&self) -> Seq<char> {
        "default"@
    }

    fn id(&self) -> (r: &'static str) {
        "default"
    }

    fn template(&self, kind: ScaffoldKind) -> &'static str {
        match kind {
            ScaffoldKind::Module => "//! {snake}.rs\n//! code_passenger scaffold (module)\n\npub mod {snake} {\n}\n",
            ScaffoldKind::Component => "//! {snake}.rs\n//! code_passenger scaffold (component)\n\n#[derive(Debug, Default)]\npub struct {Ty};\n\nimpl {Ty} {\n    pub fn new() -> Self { Self::default() }\n}\n",
            ScaffoldKind::Service => "//! {snake}.rs\n//! code_passenger scaffold (service)\n\n#[derive(Debug, Default)]\npub struct {Ty};\n\nimpl {Ty} {\n    pub fn run(&self) {\n    }\n}\n",
            ScaffoldKind::Test => "//! {snake}.rs\n//! code_passenger scaffold (test)\n\n#[test]\nfn {snake}_smoke() {\n    assert!(true);\n}\n",
        }
    }
}

/// The scaffold templates named `id`; only `default` exists.
pub fn get_scaffold_plan(id: &str) -> (r: Result<DefaultScaffoldPlan, PassengerError>)
    ensures
        r is Ok <==> id@ == "default"@,
        r is Ok ==> r->Ok_0.plan_id() == "default"@,
        r is Err ==> r->Err_0 is Unsupported,
{
    if str_eq(id, "default") {
        Ok(DefaultScaffoldPlan)
    } else {
        let msg = String::from_str("scaffold plan '").concat(id).concat("' not available");
        Err(PassengerError::Unsupported(msg))
    }
}

} // verus!
