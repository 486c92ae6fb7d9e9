use dominion_protector::ids::{parse_address, to_hex_literal};
use dominion_protector::records::{
    EntityKind, FunctionDescription, FunctionEntityDescription, ModuleDescription, Ownership,
    SecurityLevel, StructDescription,
};
use dominion_protector::rows::{column_position, module_from_columns, EntityColumns, RowError};

#[test]
fn hex_literal_is_short() {
    let mut a = [0u8; 32];
    a[31] = 2;
    assert_eq!(to_hex_literal(&a), "0x2");
    assert_eq!(to_hex_literal(&[0u8; 32]), "0x0");
    a[30] = 0x1f;
    assert_eq!(to_hex_literal(&a), "0x1f02");
    assert_eq!(to_hex_literal(&[0xabu8; 32]), format!("0x{}", "ab".repeat(32)));
}

#[test]
fn hex_literal_reads_back() {
    let mut a = [7u8; 32];
    a[0] = 0;
    assert_eq!(parse_address(&to_hex_literal(&a)), Some(a));
}

#[test]
fn columns_are_found_by_name() {
    let cols: Vec<String> = ["package_id", "network", "module", "network"].iter().map(|s| s.to_string()).collect();
    assert_eq!(column_position(&cols, "network"), Ok(1));
    assert_eq!(column_position(&cols, "module"), Ok(2));
    assert_eq!(column_position(&cols, "warnings"), Err(RowError::MissingColumn));
}

#[test]
fn module_row_is_read() {
    let d = ModuleDescription::from_columns(
        "0x2",
        "mainnet".to_string(),
        "coin".to_string(),
        "Coins.".to_string(),
        "High Risk",
        vec!["w".to_string()],
    )
    .unwrap();
    assert_eq!(d.id.address[31], 2);
    assert_eq!(d.id.name, "coin");
    assert_eq!(d.security_level, SecurityLevel::HighRisk);
    assert_eq!(d.warnings, vec!["w".to_string()]);
}

#[test]
fn bad_rows_are_rejected() {
    let level = |l: &str| {
        ModuleDescription::from_columns("0x2", String::new(), "coin".to_string(), String::new(), l, vec![])
            .err()
    };
    assert_eq!(level("Extreme"), Some(RowError::BadLevel));
    assert_eq!(module_from_columns("2", "coin".to_string()).err(), Some(RowError::BadAddress));
    assert_eq!(module_from_columns("0x2", "1coin".to_string()).err(), Some(RowError::BadName));
    let f = FunctionDescription::from_columns(
        "0xzz",
        String::new(),
        "coin".to_string(),
        "mint".to_string(),
        String::new(),
        "Low Risk",
        vec![],
    );
    assert_eq!(f.err(), Some(RowError::BadAddress));
}

#[test]
fn struct_row_is_read() {
    let s = StructDescription::from_columns(
        "0xab",
        "testnet".to_string(),
        "pool".to_string(),
        "Pool".to_string(),
        "A pool.".to_string(),
        Ownership {
            address_owned: None,
            object_owned: None,
            wrapped: Some("inside a vault".to_string()),
            shared: Some("always".to_string()),
            immutable: None,
            event: None,
        },
        vec![],
    )
    .unwrap();
    assert_eq!(s.module.address[31], 0xab);
    assert_eq!(s.wrapped, Some("inside a vault".to_string()));
    assert_eq!(s.shared, Some("always".to_string()));
}

fn entity_columns() -> EntityColumns {
    EntityColumns {
        function: "swap".to_string(),
        description: "the input coin".to_string(),
        name: "coin_in".to_string(),
        proper_name: None,
        type_: "Coin<T>".to_string(),
        returned: None,
        transferred: Some("always".to_string()),
        shared: None,
        frozen: None,
        wrapped: None,
        modified: None,
        dropped: None,
        warnings: vec![],
    }
}

#[test]
fn entity_row_is_read() {
    let e = FunctionEntityDescription::from_columns("0x5", "devnet".to_string(), "amm".to_string(), "parameter", Some(0), entity_columns())
        .unwrap();
    assert_eq!(e.kind, EntityKind::Parameter);
    assert_eq!(e.index, Some(0));
    assert_eq!(e.transferred, Some("always".to_string()));
    assert_eq!(EntityKind::Created.label(), "created");
    let bad = FunctionEntityDescription::from_columns("0x5", "devnet".to_string(), "amm".to_string(), "returned", None, entity_columns());
    assert_eq!(bad.err(), Some(RowError::BadKind));
}
