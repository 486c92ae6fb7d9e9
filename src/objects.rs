//! Ownership of on-chain objects and how it is stored in three columns.
use vstd::prelude::*;
use vstd::string::*;
use crate::ids::{address_hex, address_literal, hex_of, parse_address};
use crate::records::OwnerType;

verus! {

/// Who owns an on-chain object.
pub enum Owner {
    AddressOwner([u8; 32]),
    ObjectOwner([u8; 32]),
    Shared { initial_shared_version: u64 },
    Immutable,
    ConsensusV2,
}

/// Why stored owner columns could not be read back.
#[derive(Clone, Copy, Debug, PartialEq, Eq, Structural)]
pub enum OwnerError {
    /// The owner address is absent.
    MissingOwner,
    /// The owner address is not an address literal.
    BadOwner,
    /// The initial shared version is absent or negative.
    BadVersion,
    /// Consensus-managed ownership is not stored in enough detail to rebuild.
    Unsupported,
}

/// The full text of an address: `0x` and 64 hexadecimal digits.
pub open spec fn address_text(a: Seq<u8>) -> Seq<char> {
    seq!['0', 'x'] + hex_of(a)
}

/// Writes the full text of an address.
pub fn full_address(a: &[u8; 32]) -> (r: String)
    ensures
        r@ == address_text(a@),
{
    let mut r = String::from_str("0x");
    proof {
        reveal_strlit("0x");
    }
    r.append(address_hex(a).as_str());
    r
}

/// The three stored columns of an owner: its type, its address, and the
/// version at which it became shared.
pub open spec fn owner_columns_of(o: Owner) -> (OwnerType, Option<Seq<char>>, Option<int>) {
    match o {
        Owner::AddressOwner(a) => (OwnerType::AddressOwner, Some(address_text(a@)), None),
        Owner::ObjectOwner(a) => (OwnerType::ObjectOwner, Some(address_text(a@)), None),
        Owner::Shared { initial_shared_version } => (OwnerType::Shared, None, Some(initial_shared_version as int)),
        Owner::Immutable => (OwnerType::Immutable, None, None),
        Owner::ConsensusV2 => (OwnerType::ConsensusV2, None, None),
    }
}

/// Splits an owner into its stored columns. A shared version must fit the
/// signed column.
pub fn owner_columns(o: &Owner) -> (r: (OwnerType, Option<String>, Option<i64>))
    requires
        o matches Owner::Shared { initial_shared_version } ==> initial_shared_version <= i64::MAX,
    ensures
        r.0 == owner_columns_of(*o).0,
        match r.1 {
            Some(s) => owner_columns_of(*o).1 == Some(s@),
            None => owner_columns_of(*o).1 is None,
        },
        match r.2 {
            Some(v) => owner_columns_of(*o).2 == Some(v as int),
            None => owner_columns_of(*o).2 is None,
        },
{
    match o {
        Owner::AddressOwner(a) => (OwnerType::AddressOwner, Some(full_address(a)), None),
        Owner::ObjectOwner(a) => (OwnerType::ObjectOwner, Some(full_address(a)), None),
        Owner::Shared { initial_shared_version } => (OwnerType::Shared, None, Some(*initial_shared_version as i64)),
        Owner::Immutable => (OwnerType::Immutable, None, None),
        Owner::ConsensusV2 => (OwnerType::ConsensusV2, None, None),
    }
}

/// What reading the owner columns back gives.
pub open spec fn owner_from(t: OwnerType, owner: Option<Seq<char>>, version: Option<int>) -> Result<
    (OwnerType, Option<Seq<u8>>, Option<int>),
    OwnerError,
> {
    match t {
        OwnerType::AddressOwner | OwnerType::ObjectOwner => match owner {
            None => Err(OwnerError::MissingOwner),
            Some(s) => match address_literal(s) {
                Some(a) => Ok((t, Some(a), None)),
                None => Err(OwnerError::BadOwner),
            },
        },
        OwnerType::Shared => match version {
            Some(v) => if v >= 0 {
                Ok((t, None, Some(v)))
            } else {
                Err(OwnerError::BadVersion)
            },
            None => Err(OwnerError::BadVersion),
        },
        OwnerType::Immutable => Ok((t, None, None)),
        OwnerType::ConsensusV2 => Err(OwnerError::Unsupported),
    }
}

/// The owner as plain values: its type, its address, its shared version.
pub open spec fn owner_view(o: Owner) -> (OwnerType, Option<Seq<u8>>, Option<int>) {
    match o {
        Owner::AddressOwner(a) => (OwnerType::AddressOwner, Some(a@), None),
        Owner::ObjectOwner(a) => (OwnerType::ObjectOwner, Some(a@), None),
        Owner::Shared { initial_shared_version } => (OwnerType::Shared, None, Some(initial_shared_version as int)),
        Owner::Immutable => (OwnerType::Immutable, None, None),
        Owner::ConsensusV2 => (OwnerType::ConsensusV2, None, None),
    }
}

/// Rebuilds an owner from its stored columns.
pub fn owner_from_columns(t: OwnerType, owner: Option<&str>, version: Option<i64>) -> (r: Result<Owner, OwnerError>)
    ensures
        match owner_from(
            t,
            match owner {
                Some(s) => Some(s@),
                None => None,
            },
            match version {
                Some(v) => Some(v as int),
                None => None,
            },
        ) {
            Ok(v) => r matches Ok(o) && owner_view(o) == v,
            Err(e) => r == Err::<Owner, OwnerError>(e),
        },
{
    match t {
        OwnerType::AddressOwner | OwnerType::ObjectOwner => match owner {
            None => Err(OwnerError::MissingOwner),
            Some(s) => match parse_address(s) {
                Some(a) => if t == OwnerType::AddressOwner {
                    Ok(Owner::AddressOwner(a))
                } else {
                    Ok(Owner::ObjectOwner(a))
                },
                None => Err(OwnerError::BadOwner),
            },
        },
        OwnerType::Shared => match version {
            Some(v) => if v >= 0 {
                Ok(Owner::Shared { initial_shared_version: v as u64 })
            } else {
                Err(OwnerError::BadVersion)
            },
            None => Err(OwnerError::BadVersion),
        },
        OwnerType::Immutable => Ok(Owner::Immutable),
        OwnerType::ConsensusV2 => Err(OwnerError::Unsupported),
    }
}

} // verus!
