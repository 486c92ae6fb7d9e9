//! The records the pipeline produces, stores and serves.
use vstd::prelude::*;
use crate::ids::ModuleId;

verus! {

/// How risky a module was judged to be.
#[derive(Clone, Copy, Debug, PartialEq, Eq, Structural)]
pub enum SecurityLevel {
    CriticalRisk,
    HighRisk,
    MediumRisk,
    LowRisk,
    BestPracticesCompliant,
    UnknownUnassessed,
}

impl Default for SecurityLevel {
    fn default() -> (r: Self)
        ensures
            r == SecurityLevel::UnknownUnassessed,
    {
        SecurityLevel::UnknownUnassessed
    }
}

/// The stored label of each security level.
pub open spec fn level_label(l: SecurityLevel) -> Seq<char> {
    match l {
        SecurityLevel::CriticalRisk => "Critical Risk"@,
        SecurityLevel::HighRisk => "High Risk"@,
        SecurityLevel::MediumRisk => "Medium Risk"@,
        SecurityLevel::LowRisk => "Low Risk"@,
        SecurityLevel::BestPracticesCompliant => "Best Practices Compliant"@,
        SecurityLevel::UnknownUnassessed => "Unknown / Unassessed"@,
    }
}

impl SecurityLevel {
    /// The label under which the level is stored.
    pub fn label(&self) -> (r: &'static str)
        ensures
            r@ == level_label(*self),
    {
        match self {
            SecurityLevel::CriticalRisk => "Critical Risk",
            SecurityLevel::HighRisk => "High Risk",
            SecurityLevel::MediumRisk => "Medium Risk",
            SecurityLevel::LowRisk => "Low Risk",
            SecurityLevel::BestPracticesCompliant => "Best Practices Compliant",
            SecurityLevel::UnknownUnassessed => "Unknown / Unassessed",
        }
    }

    /// The level stored under `label`, if it is one of the six labels.
    pub fn from_label(label: &str) -> (r: Option<SecurityLevel>)
        ensures
            match r {
                Some(l) => level_label(l) == label@,
                None => forall|l: SecurityLevel| level_label(l) != label@,
            },
    {
        let all = [
            SecurityLevel::CriticalRisk,
            SecurityLevel::HighRisk,
            SecurityLevel::MediumRisk,
            SecurityLevel::LowRisk,
            SecurityLevel::BestPracticesCompliant,
            SecurityLevel::UnknownUnassessed,
        ];
        let mut i: usize = 0;
        while i < 6
            invariant
                i <= 6,
                all@ == seq![
                    SecurityLevel::CriticalRisk,
                    SecurityLevel::HighRisk,
                    SecurityLevel::MediumRisk,
                    SecurityLevel::LowRisk,
                    SecurityLevel::BestPracticesCompliant,
                    SecurityLevel::UnknownUnassessed,
                ],
                forall|k: int| 0 <= k < i ==> level_label(#[trigger] all@[k]) != label@,
            decreases 6 - i,
        {
            let l = all[i];
            let name = l.label();
            if crate::text::str_equal(name, label) {
                return Some(l);
            }
            i = i + 1;
        }
        assert forall|l: SecurityLevel| level_label(l) != label@ by {
            match l {
                SecurityLevel::CriticalRisk => assert(all@[0] == l),
                SecurityLevel::HighRisk => assert(all@[1] == l),
                SecurityLevel::MediumRisk => assert(all@[2] == l),
                SecurityLevel::LowRisk => assert(all@[3] == l),
                SecurityLevel::BestPracticesCompliant => assert(all@[4] == l),
                SecurityLevel::UnknownUnassessed => assert(all@[5] == l),
            }
        }
        None
    }
}

/// What an entity of a function description is: a parameter, or a value the
/// function creates.
#[derive(Clone, Copy, Debug, PartialEq, Eq, Structural)]
pub enum EntityKind {
    Parameter,
    Created,
}

/// Visibility of a function in its module.
#[derive(Clone, Copy, Debug, PartialEq, Eq, Structural)]
pub enum Visibility {
    Private,
    Public,
    Friend,
    Package,
}

/// Who owns an on-chain object.
#[derive(Clone, Copy, Debug, PartialEq, Eq, Structural)]
pub enum OwnerType {
    AddressOwner,
    ObjectOwner,
    Shared,
    Immutable,
    ConsensusV2,
}

/// Decompiled or disassembled text of one module on one network, with the
/// modules it immediately depends on.
#[derive(Clone, Debug)]
pub struct ModuleSource {
    pub id: ModuleId,
    pub network: String,
    pub source: String,
    /// The tool that produced the text.
    pub kind: String,
    pub dependencies: Vec<ModuleId>,
}

/// A module's description as the model gave it.
#[derive(Clone, Debug)]
pub struct ModuleDescription {
    pub id: ModuleId,
    pub network: String,
    pub description: String,
    pub security_level: SecurityLevel,
    pub warnings: Vec<String>,
}

/// How instances of a struct may be owned. An absent value means "never";
/// a present one is `always` or the condition under which it applies.
#[derive(Clone, Debug)]
pub struct Ownership {
    pub address_owned: Option<String>,
    pub object_owned: Option<String>,
    pub wrapped: Option<String>,
    pub shared: Option<String>,
    pub immutable: Option<String>,
    pub event: Option<String>,
}

/// A struct's description.
#[derive(Clone, Debug)]
pub struct StructDescription {
    pub module: ModuleId,
    pub network: String,
    pub struct_name: String,
    pub description: String,
    pub address_owned: Option<String>,
    pub object_owned: Option<String>,
    pub wrapped: Option<String>,
    pub shared: Option<String>,
    pub immutable: Option<String>,
    pub event: Option<String>,
    pub warnings: Vec<String>,
}

/// A function's description.
#[derive(Clone, Debug)]
pub struct FunctionDescription {
    pub module: ModuleId,
    pub network: String,
    pub function_name: String,
    pub description: String,
    pub security_level: SecurityLevel,
    pub warnings: Vec<String>,
}

/// The description of one parameter of a function, or of one value it creates.
#[derive(Clone, Debug)]
pub struct FunctionEntityDescription {
    pub module: ModuleId,
    pub network: String,
    pub function: String,
    pub description: String,
    pub kind: EntityKind,
    pub index: Option<i32>,
    pub name: String,
    pub proper_name: Option<String>,
    pub type_: String,
    pub returned: Option<String>,
    pub transferred: Option<String>,
    pub shared: Option<String>,
    pub frozen: Option<String>,
    pub wrapped: Option<String>,
    pub modified: Option<String>,
    pub dropped: Option<String>,
    pub warnings: Vec<String>,
}

/// A function's description with those of its entities.
#[derive(Clone, Debug)]
pub struct FullFunctionDescription {
    pub function: FunctionDescription,
    pub entities: Vec<FunctionEntityDescription>,
}

/// Everything described of one module: the unit that is cached and saved as
/// a whole.
#[derive(Clone, Debug)]
pub struct FullModuleDescription {
    pub module: ModuleDescription,
    pub structs: Vec<StructDescription>,
    pub functions: Vec<FullFunctionDescription>,
}

impl FullModuleDescription {
    /// The module this aggregate describes.
    pub open spec fn key(&self) -> (Seq<u8>, Seq<char>) {
        self.module.id.key()
    }

    /// Every struct belongs to the aggregate's module and network, and no
    /// two structs share a name.
    pub open spec fn consistent(&self) -> bool {
        &&& forall|i: int|
            0 <= i < self.structs@.len() ==> (#[trigger] self.structs@[i]).module.key() == self.key()
                && self.structs@[i].network@ == self.module.network@
        &&& forall|i: int, j: int|
            0 <= i < j < self.structs@.len() ==> (#[trigger] self.structs@[i]).struct_name@
                != (#[trigger] self.structs@[j]).struct_name@
    }

    /// Whether every struct belongs to the aggregate's module and network and
    /// no two structs share a name.
    pub fn is_consistent(&self) -> (r: bool)
        ensures
            r == self.consistent(),
    {
        let n = self.structs.len();
        let mut i: usize = 0;
        while i < n
            invariant
                n == self.structs@.len(),
                i <= n,
                forall|k: int|
                    0 <= k < i ==> (#[trigger] self.structs@[k]).module.key() == self.key()
                        && self.structs@[k].network@ == self.module.network@,
                forall|k: int, j: int|
                    0 <= k < j < i ==> (#[trigger] self.structs@[k]).struct_name@
                        != (#[trigger] self.structs@[j]).struct_name@,
            decreases n - i,
        {
            let s = &self.structs[i];
            if !crate::ids::same_module(&s.module, &self.module.id) || s.network != self.module.network {
                return false;
            }
            let mut j: usize = 0;
            while j < i
                invariant
                    n == self.structs@.len(),
                    i < n,
                    j <= i,
                    forall|k: int| 0 <= k < j ==> (#[trigger] self.structs@[k]).struct_name@ != self.structs@[i as int].struct_name@,
                decreases i - j,
            {
                if self.structs[j].struct_name == self.structs[i].struct_name {
                    return false;
                }
                j = j + 1;
            }
            i = i + 1;
        }
        true
    }
}

/// A function of a module as recorded when its package was downloaded.
#[derive(Clone, Debug)]
pub struct Function {
    pub package_id: String,
    pub network: String,
    pub module_name: String,
    pub function_name: String,
    pub visibility: Visibility,
    pub is_entry: bool,
    pub is_initializer: bool,
    pub type_argument_count: i32,
    pub parameter_count: i32,
    pub return_count: i32,
    pub source_code: Option<String>,
}

/// A struct of a module as recorded when its package was downloaded.
#[derive(Clone, Debug)]
pub struct Structure {
    pub package_id: String,
    pub network: String,
    pub module_name: String,
    pub datatype_name: String,
    pub origin: String,
    pub field_count: i32,
    pub type_argument_count: i32,
    pub source_code: Option<String>,
    pub has_key: bool,
    pub has_copy: bool,
    pub has_drop: bool,
    pub has_store: bool,
}

/// A module of a package with its bytecode.
#[derive(Clone, Debug)]
pub struct PackageModule {
    pub package_id: String,
    pub network: String,
    pub module_name: String,
    pub module_bytecode: Vec<u8>,
}

/// The version of a dependency a package was linked against.
#[derive(Clone, Debug)]
pub struct PackageLinkage {
    pub package_id: String,
    pub network: String,
    pub dependency_id: String,
    pub upgraded_id: String,
    pub upgraded_version: i64,
}

} // verus!
