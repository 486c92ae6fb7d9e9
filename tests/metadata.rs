use dominion_protector::metadata::{find_origin, function_row, structure_row, Abilities, DatatypeInfo, FunctionInfo};
use dominion_protector::objects::{owner_columns, owner_from_columns, Owner, OwnerError};
use dominion_protector::records::{OwnerType, Visibility};

fn s(x: &str) -> String {
    x.to_string()
}

#[test]
fn enum_rows_count_variants_negatively() {
    let abilities = Abilities { key: false, copy: true, drop: true, store: true };
    let e = DatatypeInfo { name: s("Side"), is_enum: true, member_count: 2, type_parameter_count: 0, abilities };
    let r = structure_row(&s("0x5"), &s("mainnet"), &s("book"), &e, s("0x5"));
    assert_eq!(r.field_count, -2);
    assert_eq!(r.datatype_name, "Side");
    assert!(r.has_copy && !r.has_key);
    let st = DatatypeInfo { name: s("Book"), is_enum: false, member_count: 3, type_parameter_count: 1, abilities };
    let r = structure_row(&s("0x5"), &s("mainnet"), &s("book"), &st, s("0x4"));
    assert_eq!(r.field_count, 3);
    assert_eq!(r.type_argument_count, 1);
    assert_eq!(r.origin, "0x4");
}

#[test]
fn init_is_the_initializer() {
    let f = FunctionInfo {
        name: s("init"),
        visibility: Visibility::Private,
        is_entry: false,
        type_parameter_count: 0,
        parameter_count: 2,
        return_count: 0,
    };
    let r = function_row(&s("0x5"), &s("mainnet"), &s("book"), &f);
    assert!(r.is_initializer);
    assert_eq!(r.parameter_count, 2);
    let g = FunctionInfo { name: s("initialize"), ..f };
    assert!(!function_row(&s("0x5"), &s("mainnet"), &s("book"), &g).is_initializer);
}

#[test]
fn origins_are_looked_up() {
    let origins = vec![(s("a"), s("X"), s("0x1")), (s("b"), s("X"), s("0x2"))];
    assert_eq!(find_origin(&origins, &s("b"), &s("X")), Some(&s("0x2")));
    assert_eq!(find_origin(&origins, &s("c"), &s("X")), None);
}

#[test]
fn owners_round_trip_through_columns() {
    let mut a = [0u8; 32];
    a[31] = 0x42;
    let (t, owner, version) = owner_columns(&Owner::AddressOwner(a));
    assert_eq!(t, OwnerType::AddressOwner);
    assert_eq!(owner, Some(format!("0x{}42", "0".repeat(62))));
    assert_eq!(version, None);
    match owner_from_columns(t, owner.as_deref(), version) {
        Ok(Owner::AddressOwner(b)) => assert_eq!(b, a),
        _ => panic!("expected an address owner"),
    }
    let (t, owner, version) = owner_columns(&Owner::Shared { initial_shared_version: 7 });
    assert_eq!((t, owner, version), (OwnerType::Shared, None, Some(7)));
}

#[test]
fn bad_owner_columns_are_rejected() {
    assert_eq!(owner_from_columns(OwnerType::ObjectOwner, None, None).err(), Some(OwnerError::MissingOwner));
    assert_eq!(owner_from_columns(OwnerType::ObjectOwner, Some("zz"), None).err(), Some(OwnerError::BadOwner));
    assert_eq!(owner_from_columns(OwnerType::Shared, None, Some(-1)).err(), Some(OwnerError::BadVersion));
    assert_eq!(owner_from_columns(OwnerType::ConsensusV2, None, None).err(), Some(OwnerError::Unsupported));
    assert!(matches!(owner_from_columns(OwnerType::Immutable, None, None), Ok(Owner::Immutable)));
}
