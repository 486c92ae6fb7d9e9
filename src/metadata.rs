//! The rows recorded for a module's datatypes and functions when its package
//! is stored, built from the module's metadata as plain values.
use vstd::prelude::*;
use crate::records::{Function, Structure, Visibility};

verus! {

/// Abilities a datatype declares.
#[derive(Clone, Copy, Debug, PartialEq, Eq, Structural)]
pub struct Abilities {
    pub key: bool,
    pub copy: bool,
    pub drop: bool,
    pub store: bool,
}

/// A struct or an enum declared by a module.
pub struct DatatypeInfo {
    pub name: String,
    pub is_enum: bool,
    /// Fields of a struct, variants of an enum.
    pub member_count: u32,
    pub type_parameter_count: u32,
    pub abilities: Abilities,
}

/// A function declared by a module.
pub struct FunctionInfo {
    pub name: String,
    pub visibility: Visibility,
    pub is_entry: bool,
    pub type_parameter_count: u32,
    pub parameter_count: u32,
    pub return_count: u32,
}

/// The stored field count: the number of fields of a struct, the negated
/// number of variants of an enum.
pub open spec fn field_count_of(d: DatatypeInfo) -> int {
    if d.is_enum {
        -(d.member_count as int)
    } else {
        d.member_count as int
    }
}

/// The row recorded for a datatype of `module_name`, whose defining package
/// is `origin`.
pub fn structure_row(
    package_id: &String,
    network: &String,
    module_name: &String,
    d: &DatatypeInfo,
    origin: String,
) -> (r: Structure)
    requires
        d.member_count <= i32::MAX,
        d.type_parameter_count <= i32::MAX,
    ensures
        r.package_id == *package_id,
        r.network == *network,
        r.module_name == *module_name,
        r.datatype_name == d.name,
        r.origin == origin,
        r.field_count as int == field_count_of(*d),
        r.type_argument_count as int == d.type_parameter_count as int,
        r.source_code is None,
        r.has_key == d.abilities.key,
        r.has_copy == d.abilities.copy,
        r.has_drop == d.abilities.drop,
        r.has_store == d.abilities.store,
{
    let count = d.member_count as i32;
    Structure {
        package_id: package_id.clone(),
        network: network.clone(),
        module_name: module_name.clone(),
        datatype_name: d.name.clone(),
        origin,
        field_count: if d.is_enum { -count } else { count },
        type_argument_count: d.type_parameter_count as i32,
        source_code: None,
        has_key: d.abilities.key,
        has_copy: d.abilities.copy,
        has_drop: d.abilities.drop,
        has_store: d.abilities.store,
    }
}

/// The name of a module's initializer.
pub open spec fn initializer_name() -> Seq<char> {
    "init"@
}

/// The row recorded for a function of `module_name`.
pub fn function_row(package_id: &String, network: &String, module_name: &String, f: &FunctionInfo) -> (r: Function)
    requires
        f.type_parameter_count <= i32::MAX,
        f.parameter_count <= i32::MAX,
        f.return_count <= i32::MAX,
    ensures
        r.package_id == *package_id,
        r.network == *network,
        r.module_name == *module_name,
        r.function_name == f.name,
        r.visibility == f.visibility,
        r.is_entry == f.is_entry,
        r.is_initializer == (f.name@ == initializer_name()),
        r.type_argument_count as int == f.type_parameter_count as int,
        r.parameter_count as int == f.parameter_count as int,
        r.return_count as int == f.return_count as int,
        r.source_code is None,
{
    Function {
        package_id: package_id.clone(),
        network: network.clone(),
        module_name: module_name.clone(),
        function_name: f.name.clone(),
        visibility: f.visibility,
        is_entry: f.is_entry,
        is_initializer: crate::text::str_equal(f.name.as_str(), "init"),
        type_argument_count: f.type_parameter_count as i32,
        parameter_count: f.parameter_count as i32,
        return_count: f.return_count as i32,
        source_code: None,
    }
}


/// Where a datatype was first defined: the origin of the first entry for it
/// in the package's type origin table, entries being (module, datatype, package).
pub fn find_origin<'a>(
    origins: &'a Vec<(String, String, String)>,
    module_name: &String,
    datatype: &String,
) -> (r: Option<&'a String>)
    ensures
        match r {
            Some(o) => exists|i: int|
                0 <= i < origins@.len() && origins@[i].0@ == module_name@ && origins@[i].1@ == datatype@
                    && origins@[i].2 == *o && forall|k: int|
                    0 <= k < i ==> !(#[trigger] origins@[k].0@ == module_name@ && origins@[k].1@
                        == datatype@),
            None => forall|i: int|
                0 <= i < origins@.len() ==> !(#[trigger] origins@[i].0@ == module_name@ && origins@[i].1@
                    == datatype@),
        },
{
    let mut i: usize = 0;
    while i < origins.len()
        invariant
            i <= origins.len(),
            forall|k: int|
                0 <= k < i ==> !(#[trigger] origins@[k].0@ == module_name@ && origins@[k].1@ == datatype@),
        decreases origins.len() - i,
    {
        let e = &origins[i];
        if e.0 == *module_name && e.1 == *datatype {
            assert(origins@[i as int].2 == e.2);
            return Some(&e.2);
        }
        i = i + 1;
    }
    None
}

} // verus!
