//! Turning stored rows back into records.
use vstd::prelude::*;
use crate::ids::{address_literal, parse_address, valid_identifier, is_valid_identifier, ModuleId};
use crate::records::{
    level_label, EntityKind, Ownership, FunctionDescription, FunctionEntityDescription, ModuleDescription,
    SecurityLevel, StructDescription,
};
use crate::rounds::ownership_of;
use crate::text::chars_of;

verus! {

/// Why a stored row could not be read back.
#[derive(Clone, Copy, Debug, PartialEq, Eq, Structural)]
pub enum RowError {
    /// A column the record needs is absent.
    MissingColumn,
    /// The package id is not an address literal.
    BadAddress,
    /// The module name is not a valid identifier.
    BadName,
    /// The stored security level is not one of the six labels.
    BadLevel,
    /// The stored entity kind is not one of the two labels.
    BadKind,
}

/// The position of the first column named `name`.
pub fn column_position(columns: &Vec<String>, name: &str) -> (r: Result<usize, RowError>)
    ensures
        match r {
            Ok(i) => i < columns.len() && columns@[i as int]@ == name@ && forall|k: int|
                0 <= k < i ==> #[trigger] columns@[k]@ != name@,
            Err(e) => e == RowError::MissingColumn && forall|k: int|
                0 <= k < columns.len() ==> #[trigger] columns@[k]@ != name@,
        },
{
    let mut i: usize = 0;
    while i < columns.len()
        invariant
            i <= columns.len(),
            forall|k: int| 0 <= k < i ==> #[trigger] columns@[k]@ != name@,
        decreases columns.len() - i,
    {
        if crate::text::str_equal(columns[i].as_str(), name) {
            return Ok(i);
        }
        i = i + 1;
    }
    Err(RowError::MissingColumn)
}

/// The module a row's package id and module name name.
pub open spec fn row_module(package_id: Seq<char>, module: Seq<char>) -> Result<(Seq<u8>, Seq<char>), RowError> {
    match address_literal(package_id) {
        None => Err(RowError::BadAddress),
        Some(a) => if valid_identifier(module) {
            Ok((a, module))
        } else {
            Err(RowError::BadName)
        },
    }
}

/// Reads the module of a row from its package id and module name.
pub fn module_from_columns(package_id: &str, module: String) -> (r: Result<ModuleId, RowError>)
    ensures
        match row_module(package_id@, module@) {
            Ok(k) => r matches Ok(id) && id.key() == k,
            Err(e) => r == Err::<ModuleId, RowError>(e),
        },
{
    match parse_address(package_id) {
        None => Err(RowError::BadAddress),
        Some(address) => {
            if is_valid_identifier(&chars_of(module.as_str())) {
                Ok(ModuleId { address, name: module })
            } else {
                Err(RowError::BadName)
            }
        },
    }
}

/// The stored label of each entity kind.
pub open spec fn kind_label(k: EntityKind) -> Seq<char> {
    match k {
        EntityKind::Parameter => "parameter"@,
        EntityKind::Created => "created"@,
    }
}

impl EntityKind {
    /// The label under which the kind is stored.
    pub fn label(&self) -> (r: &'static str)
        ensures
            r@ == kind_label(*self),
    {
        match self {
            EntityKind::Parameter => "parameter",
            EntityKind::Created => "created",
        }
    }

    /// The kind stored under `label`, if it is one of the two labels.
    pub fn from_label(label: &str) -> (r: Option<EntityKind>)
        ensures
            match r {
                Some(k) => kind_label(k) == label@,
                None => kind_label(EntityKind::Parameter) != label@ && kind_label(EntityKind::Created)
                    != label@,
            },
    {
        if crate::text::str_equal("parameter", label) {
            Some(EntityKind::Parameter)
        } else if crate::text::str_equal("created", label) {
            Some(EntityKind::Created)
        } else {
            None
        }
    }
}

fn level_from_column(label: &str) -> (r: Result<SecurityLevel, RowError>)
    ensures
        match r {
            Ok(l) => level_label(l) == label@,
            Err(e) => e == RowError::BadLevel && forall|l: SecurityLevel| level_label(l) != label@,
        },
{
    match SecurityLevel::from_label(label) {
        Some(l) => Ok(l),
        None => Err(RowError::BadLevel),
    }
}

impl ModuleDescription {
    /// Rebuilds a module description from the values of its row.
    pub fn from_columns(
        package_id: &str,
        network: String,
        module: String,
        description: String,
        security_level: &str,
        warnings: Vec<String>,
    ) -> (r: Result<ModuleDescription, RowError>)
        ensures
            match row_module(package_id@, module@) {
                Err(e) => r == Err::<ModuleDescription, RowError>(e),
                Ok(k) => match r {
                    Ok(d) => d.id.key() == k && d.network == network && d.description == description
                        && level_label(d.security_level) == security_level@ && d.warnings == warnings,
                    Err(e) => e == RowError::BadLevel && forall|l: SecurityLevel| level_label(l) != security_level@,
                },
            },
    {
        let id = module_from_columns(package_id, module)?;
        let security_level = level_from_column(security_level)?;
        Ok(ModuleDescription { id, network, description, security_level, warnings })
    }
}

impl StructDescription {
    /// Rebuilds a struct description from the values of its row.
    pub fn from_columns(
        package_id: &str,
        network: String,
        module: String,
        struct_name: String,
        description: String,
        ownership: Ownership,
        warnings: Vec<String>,
    ) -> (r: Result<StructDescription, RowError>)
        ensures
            match row_module(package_id@, module@) {
                Err(e) => r == Err::<StructDescription, RowError>(e),
                Ok(k) => r matches Ok(d) && d.module.key() == k && d.network == network && d.struct_name
                    == struct_name && d.description == description && d.warnings == warnings
                    && ownership_of(d) == ownership,
            },
    {
        let module = module_from_columns(package_id, module)?;
        let Ownership { address_owned, object_owned, wrapped, shared, immutable, event } = ownership;
        Ok(StructDescription {
            module,
            network,
            struct_name,
            description,
            address_owned,
            object_owned,
            wrapped,
            shared,
            immutable,
            event,
            warnings,
        })
    }
}

impl FunctionDescription {
    /// Rebuilds a function description from the values of its row.
    pub fn from_columns(
        package_id: &str,
        network: String,
        module: String,
        function_name: String,
        description: String,
        security_level: &str,
        warnings: Vec<String>,
    ) -> (r: Result<FunctionDescription, RowError>)
        ensures
            match row_module(package_id@, module@) {
                Err(e) => r == Err::<FunctionDescription, RowError>(e),
                Ok(k) => match r {
                    Ok(d) => d.module.key() == k && d.network == network && d.function_name == function_name
                        && d.description == description && level_label(d.security_level)
                        == security_level@ && d.warnings == warnings,
                    Err(e) => e == RowError::BadLevel && forall|l: SecurityLevel| level_label(l) != security_level@,
                },
            },
    {
        let module = module_from_columns(package_id, module)?;
        let security_level = level_from_column(security_level)?;
        Ok(FunctionDescription { module, network, function_name, description, security_level, warnings })
    }
}

/// The text columns of an entity row, in the order they are stored.
pub struct EntityColumns {
    pub function: String,
    pub description: String,
    pub name: String,
    pub proper_name: Option<String>,
    pub type_: String,
    pub returned: Option<String>,
    pub transferred: Option<String>,
    pub shared: Option<String>,
    pub frozen: Option<String>,
    pub wrapped: Option<String>,
    pub modified: Option<String>,
    pub dropped: Option<String>,
    pub warnings: Vec<String>,
}

impl FunctionEntityDescription {
    /// Rebuilds an entity description from the values of its row.
    pub fn from_columns(
        package_id: &str,
        network: String,
        module: String,
        kind: &str,
        index: Option<i32>,
        c: EntityColumns,
    ) -> (r: Result<FunctionEntityDescription, RowError>)
        ensures
            match row_module(package_id@, module@) {
                Err(e) => r == Err::<FunctionEntityDescription, RowError>(e),
                Ok(k) => match r {
                    Ok(d) => d.module.key() == k && d.network == network && kind_label(d.kind) == kind@
                        && d.index == index && d.function == c.function && d.description == c.description
                        && d.name == c.name && d.proper_name == c.proper_name && d.type_ == c.type_
                        && d.returned == c.returned && d.transferred == c.transferred && d.shared
                        == c.shared && d.frozen == c.frozen && d.wrapped == c.wrapped && d.modified
                        == c.modified && d.dropped == c.dropped && d.warnings == c.warnings,
                    Err(e) => e == RowError::BadKind && kind_label(EntityKind::Parameter) != kind@
                        && kind_label(EntityKind::Created) != kind@,
                },
            },
    {
        let module = module_from_columns(package_id, module)?;
        let kind = match EntityKind::from_label(kind) {
            Some(k) => k,
            None => {
                return Err(RowError::BadKind);
            },
        };
        Ok(FunctionEntityDescription {
            module,
            network,
            function: c.function,
            description: c.description,
            kind,
            index,
            name: c.name,
            proper_name: c.proper_name,
            type_: c.type_,
            returned: c.returned,
            transferred: c.transferred,
            shared: c.shared,
            frozen: c.frozen,
            wrapped: c.wrapped,
            modified: c.modified,
            dropped: c.dropped,
            warnings: c.warnings,
        })
    }
}

} // verus!
