use dominion_protector::commands::{DescribeCommand, DescribeType, Kind};
use dominion_protector::deps::resolve_dependencies;
use dominion_protector::ids::{canonical_display, is_reserved, parse_address, parse_module_id, ModuleId};
use dominion_protector::prompts::fill_struct_name;
use dominion_protector::records::SecurityLevel;

fn addr(last: u8) -> [u8; 32] {
    let mut a = [0u8; 32];
    a[31] = last;
    a
}

fn id(last: u8, name: &str) -> ModuleId {
    ModuleId { address: addr(last), name: name.to_string() }
}

#[test]
fn short_address_is_padded() {
    assert_eq!(parse_address("0x2"), Some(addr(2)));
    assert_eq!(parse_address("0x"), Some([0u8; 32]));
    let mut a = [0u8; 32];
    a[30] = 0xab;
    a[31] = 0xCD;
    assert_eq!(parse_address("0xabCD"), Some(a));
}

#[test]
fn full_address_is_read() {
    let text = format!("0x{}", "11".repeat(32));
    assert_eq!(parse_address(&text), Some([0x11u8; 32]));
}

#[test]
fn bad_addresses_are_rejected() {
    assert_eq!(parse_address("2"), None);
    assert_eq!(parse_address("0xg"), None);
    assert_eq!(parse_address(&format!("0x{}", "1".repeat(65))), None);
}

#[test]
fn module_id_is_read() {
    let m = parse_module_id("0x2::coin").unwrap();
    assert_eq!(m.address, addr(2));
    assert_eq!(m.name, "coin");
    assert!(parse_module_id("0x2coin").is_none());
    assert!(parse_module_id("0x2::").is_none());
    assert!(parse_module_id("0x2::9lives").is_none());
    assert!(parse_module_id("0x2::a::b").is_none());
    assert!(parse_module_id("0x2::_").is_none());
    assert!(parse_module_id("0x2::_x1").is_some());
}

#[test]
fn canonical_text_has_full_address() {
    let text = canonical_display(&id(0xab, "pool"));
    assert_eq!(text, format!("0x{}ab::pool", "0".repeat(62)));
}

#[test]
fn reserved_addresses() {
    assert!(is_reserved(&id(1, "vector")));
    assert!(is_reserved(&id(2, "coin")));
    assert!(!is_reserved(&id(3, "x")));
    let mut a = addr(2);
    a[0] = 1;
    assert!(!is_reserved(&ModuleId { address: a, name: "coin".to_string() }));
}

#[test]
fn dependencies_are_ordered_unique_and_unreserved() {
    let own = id(9, "me");
    let handles = vec![
        id(9, "me"),
        id(1, "vector"),
        id(5, "b"),
        id(2, "coin"),
        id(4, "a"),
        id(5, "b"),
    ];
    let deps = resolve_dependencies(&own, &handles);
    let names: Vec<&str> = deps.iter().map(|d| d.name.as_str()).collect();
    assert_eq!(names, vec!["b", "a"]);
    assert!(resolve_dependencies(&own, &vec![]).is_empty());
}

#[test]
fn struct_name_is_filled_in() {
    assert_eq!(
        fill_struct_name("Describe {struct_name}; own {struct_name}?", "Pool"),
        "Describe Pool; own Pool?"
    );
    assert_eq!(fill_struct_name("no placeholder", "Pool"), "no placeholder");
    assert_eq!(fill_struct_name("{struct_name", "Pool"), "{struct_name");
}

#[test]
fn level_labels_round_trip() {
    for l in [
        SecurityLevel::CriticalRisk,
        SecurityLevel::HighRisk,
        SecurityLevel::MediumRisk,
        SecurityLevel::LowRisk,
        SecurityLevel::BestPracticesCompliant,
        SecurityLevel::UnknownUnassessed,
    ] {
        assert_eq!(SecurityLevel::from_label(l.label()), Some(l));
    }
    assert_eq!(SecurityLevel::CriticalRisk.label(), "Critical Risk");
    assert_eq!(SecurityLevel::from_label("Critical"), None);
    assert_eq!(SecurityLevel::default(), SecurityLevel::UnknownUnassessed);
}

#[test]
fn kind_names() {
    assert_eq!(Kind::Revela.name(), "revela");
    assert_eq!(Kind::Disassembled.name(), "disassembled");
}

#[test]
fn describe_command_target() {
    let c = DescribeCommand { command: DescribeType::Module { full_name: "0x3::pool".to_string() } };
    assert_eq!(c.target_module().map(|m| m.name), Some("pool".to_string()));
    let p = DescribeCommand { command: DescribeType::Package { package_id: "0x3".to_string() } };
    assert!(p.target_module().is_none());
}

#[test]
fn describe_command_package() {
    let p = DescribeCommand { command: DescribeType::Package { package_id: "0x3".to_string() } };
    assert_eq!(p.target_package(), Some(addr(3)));
    let bad = DescribeCommand { command: DescribeType::Package { package_id: "3".to_string() } };
    assert_eq!(bad.target_package(), None);
    let t = DescribeCommand { command: DescribeType::Transaction { digest: "abc".to_string() } };
    assert!(t.target_package().is_none() && t.target_module().is_none());
}
