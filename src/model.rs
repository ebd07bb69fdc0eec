//! Records of the source scan whose output a checkpoint may keep beside a
//! commit, and the requests of scaffold generation.

use vstd::prelude::*;
use std::collections::{BTreeMap, BTreeSet};
use crate::text::{str_eq, trim, trim_str};

verus! {

/// What a crate's manifest declares about its dependencies and features.
#[derive(Debug, Clone)]
pub struct ManifestInfo {
    pub crate_name: String,
    /// Feature and its raw members.
    pub features_raw: BTreeMap<String, Vec<String>>,
    /// All dependency keys, `-` written `_`.
    pub all_deps: BTreeSet<String>,
    /// Optional dependency keys, `-` written `_`.
    pub optional_deps: BTreeSet<String>,
    /// Feature and the optional dependencies it enables.
    pub feature_deps: BTreeMap<String, BTreeSet<String>>,
    /// Dependency and the features that enable it.
    pub dep_features: BTreeMap<String, BTreeSet<String>>,
}

#[derive(Debug, Clone)]
pub struct DocumentDetails {
    pub filename: String,
    /// Path relative to the source root.
    pub relative_path: String,
}

#[derive(Debug, Clone)]
pub struct UsedSymbols {
    /// Dependencies a file uses.
    pub packages: BTreeSet<String>,
    /// Internal module paths a file uses.
    pub modules: BTreeSet<String>,
}

#[derive(Debug, Clone)]
pub struct FeatureNote {
    pub feature_name: String,
    pub deps: Vec<String>,
    pub scope: Vec<String>,
    pub corpus: bool,
    pub used_in_file: bool,
}

/// How a dependency is used at a site.
#[derive(Debug, Clone, Copy, PartialEq, Eq, Structural)]
pub enum UseKind {
    UseStmt,
    ExternCrate,
    Attribute,
    MacroCall,
    Path,
}

#[derive(Debug, Clone)]
pub struct UseSite {
    pub dep: String,
    pub path: String,
    /// First segment after the dependency.
    pub head: String,
    pub kind: UseKind,
    /// 1-based line.
    pub line: usize,
    pub scope: String,
}

/// The scan's report on one source file.
#[derive(Debug, Clone)]
pub struct FileReport {
    pub document: DocumentDetails,
    pub used: UsedSymbols,
    pub notes: Vec<FeatureNote>,
    pub corpus_features: Vec<String>,
    pub external_use_sites: Vec<UseSite>,
    pub internal_use_sites: Vec<UseSite>,
    /// Dependency, symbol and count.
    pub external_dep_symbol_counts: BTreeMap<String, BTreeMap<String, usize>>,
    pub internal_dep_symbol_counts: BTreeMap<String, BTreeMap<String, usize>>,
}

/// A section of a file header.
#[derive(Debug, Clone, Copy)]
pub enum PlanSection {
    DocumentDetails,
    FeatureNotes,
    CorpusGates,
    Custom(&'static str),
}

/// The kinds of file a scaffold can produce.
#[derive(Debug, Clone, Copy, PartialEq, Eq, Structural)]
pub enum ScaffoldKind {
    Module,
    Component,
    Service,
    Test,
}

/// The lowercase form of a string, as `str::to_lowercase` gives it.
pub uninterp spec fn lower_of(s: Seq<char>) -> Seq<char>;

/// Relies on std's `str::to_lowercase`: the result depends on the characters alone.
#[verifier::external_body]
fn lowercase(s: &str) -> (r: String)
    ensures
        r@ == lower_of(s@),
{
    s.to_lowercase()
}

/// The kind a lowercase name stands for.
pub open spec fn kind_named(t: Seq<char>) -> Option<ScaffoldKind> {
    if t == "module"@ {
        Some(ScaffoldKind::Module)
    } else if t == "component"@ {
        Some(ScaffoldKind::Component)
    } else if t == "service"@ {
        Some(ScaffoldKind::Service)
    } else if t == "test"@ {
        Some(ScaffoldKind::Test)
    } else {
        None
    }
}

impl ScaffoldKind {
    /// The kind a name stands for, ignoring white space at either end and case.
    pub fn parse(s: &str) -> (r: Option<Self>)
        ensures
            r == kind_named(lower_of(trim(s@))),
    {
        let t = trim_str(s);
        let l = lowercase(t.as_str());
        Self::from_lowercase(l.as_str())
    }

    /// The kind a lowercase name stands for.
    pub fn from_lowercase(t: &str) -> (r: Option<Self>)
        ensures
            r == kind_named(t@),
    {
        if str_eq(t, "module") {
            Some(ScaffoldKind::Module)
        } else if str_eq(t, "component") {
            Some(ScaffoldKind::Component)
        } else if str_eq(t, "service") {
            Some(ScaffoldKind::Service)
        } else if str_eq(t, "test") {
            Some(ScaffoldKind::Test)
        } else {
            None
        }
    }
}

/// A request to scaffold a new file.
#[derive(Debug, Clone)]
pub struct ScaffoldRequest {
    pub kind: ScaffoldKind,
    /// Snake-case name of the new item.
    pub name: String,
    pub module_segments: Vec<String>,
}

/// Files a scaffold produces: path and content.
#[derive(Debug, Clone)]
pub struct ScaffoldOutput {
    pub files: Vec<(String, String)>,
}

impl ScaffoldOutput {
    /// The output of a pack that cannot scaffold: no files.
    pub fn unsupported() -> (r: Self)
        ensures
            r.files@.len() == 0,
    {
        ScaffoldOutput { files: Vec::new() }
    }
}

} // verus!
