//! What the command line asks for, as plain values.
use vstd::prelude::*;
use crate::ids::{address_literal, module_literal, parse_address, parse_module_id, ModuleId};

verus! {

/// The tool that turns bytecode into readable text.
#[derive(Clone, Copy, Debug, PartialEq, Eq, Structural)]
pub enum Kind {
    Revela,
    Disassembled,
}

/// The name under which each tool's output is stored.
pub open spec fn kind_name(k: Kind) -> Seq<char> {
    match k {
        Kind::Revela => "revela"@,
        Kind::Disassembled => "disassembled"@,
    }
}

impl Kind {
    /// The name under which the tool's output is stored.
    pub fn name(&self) -> (r: &'static str)
        ensures
            r@ == kind_name(*self),
    {
        match self {
            Kind::Revela => "revela",
            Kind::Disassembled => "disassembled",
        }
    }
}

/// Decompile one package, or every known one when no id is given.
pub struct DecompileCommand {
    pub id: Option<String>,
    pub kind: Kind,
}

/// What to describe.
pub enum DescribeType {
    Package { package_id: String },
    Module { full_name: String },
    Transaction { digest: String },
}

/// Describe a package, a module, or a transaction.
pub struct DescribeCommand {
    pub command: DescribeType,
}

impl DescribeCommand {
    /// The module to describe, when a module was asked for and its name reads
    /// as `address::name`.
    pub fn target_module(&self) -> (r: Option<ModuleId>)
        ensures
            match self.command {
                DescribeType::Module { full_name } => match module_literal(full_name@) {
                    Some(m) => r matches Some(id) && id.key() == m,
                    None => r is None,
                },
                _ => r is None,
            },
    {
        match &self.command {
            DescribeType::Module { full_name } => parse_module_id(full_name.as_str()),
            _ => None,
        }
    }

    /// The package whose modules to describe, when a package was asked for
    /// and its id reads as an address literal.
    pub fn target_package(&self) -> (r: Option<[u8; 32]>)
        ensures
            match self.command {
                DescribeType::Package { package_id } => match address_literal(package_id@) {
                    Some(a) => r matches Some(x) && x@ == a,
                    None => r is None,
                },
                _ => r is None,
            },
    {
        match &self.command {
            DescribeType::Package { package_id } => parse_address(package_id.as_str()),
            _ => None,
        }
    }
}

} // verus!
