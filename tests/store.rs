use dominion_protector::ids::ModuleId;
use dominion_protector::records::{FullModuleDescription, ModuleDescription, SecurityLevel, StructDescription};
use dominion_protector::store::{save_plan, DescriptionStore, StoreOp};
use dominion_protector::conversation::summarize_dependency;

fn id(last: u8, name: &str) -> ModuleId {
    let mut address = [0u8; 32];
    address[31] = last;
    ModuleId { address, name: name.to_string() }
}

fn aggregate(m: &ModuleId, desc: &str, structs: &[&str]) -> FullModuleDescription {
    FullModuleDescription {
        module: ModuleDescription {
            id: m.clone(),
            network: "testnet".to_string(),
            description: desc.to_string(),
            security_level: SecurityLevel::LowRisk,
            warnings: vec![],
        },
        structs: structs
            .iter()
            .map(|s| StructDescription {
                module: m.clone(),
                network: "testnet".to_string(),
                struct_name: s.to_string(),
                description: format!("{} desc", s),
                address_owned: None,
                object_owned: None,
                wrapped: None,
                shared: Some("always".to_string()),
                immutable: None,
                event: None,
                warnings: vec![],
            })
            .collect(),
        functions: vec![],
    }
}

#[test]
fn save_then_read() {
    let a = id(0xa, "a");
    let net = "testnet".to_string();
    let store = DescriptionStore::new();
    assert!(store.read_full(&a, &net).is_none());
    let store = store.save_full(aggregate(&a, "first", &["S", "T"]));
    let f = store.read_full(&a, &net).unwrap();
    assert_eq!(f.module.description, "first");
    assert_eq!(f.structs.len(), 2);
    assert!(store.read_full(&a, &"mainnet".to_string()).is_none());
    assert_eq!(store.read_module(&a, &net).unwrap().description, "first");
    assert_eq!(store.read_struct(&a, &net, &"T".to_string()).unwrap().description, "T desc");
    assert!(store.read_struct(&a, &net, &"U".to_string()).is_none());
}

#[test]
fn resave_replaces_children() {
    let a = id(0xa, "a");
    let b = id(0xb, "b");
    let net = "testnet".to_string();
    let store = DescriptionStore::new()
        .save_full(aggregate(&a, "old", &["S", "T"]))
        .save_full(aggregate(&b, "other", &["X"]))
        .save_full(aggregate(&a, "new", &["U"]));
    let f = store.read_full(&a, &net).unwrap();
    assert_eq!(f.module.description, "new");
    assert_eq!(f.structs.len(), 1);
    assert!(store.read_struct(&a, &net, &"S".to_string()).is_none());
    assert_eq!(store.read_full(&b, &net).unwrap().module.description, "other");
    assert_eq!(store.entries.len(), 2);
}

#[test]
fn saving_twice_is_saving_once() {
    let a = id(0xa, "a");
    let once = DescriptionStore::new().save_full(aggregate(&a, "d", &["S"]));
    let twice = DescriptionStore::new()
        .save_full(aggregate(&a, "d", &["S"]))
        .save_full(aggregate(&a, "d", &["S"]));
    assert_eq!(once.entries.len(), twice.entries.len());
    assert_eq!(
        twice.read_full(&a, &"testnet".to_string()).unwrap().structs.len(),
        once.read_full(&a, &"testnet".to_string()).unwrap().structs.len()
    );
}

#[test]
fn interrupted_save_keeps_old_aggregate() {
    let a = id(0xa, "a");
    let net = "testnet".to_string();
    let store = DescriptionStore::new().save_full(aggregate(&a, "old", &["S", "T"]));
    let mut tx = store.begin();
    tx.remove(a.clone(), net.clone());
    // The process dies here: the new rows were never inserted.
    let store = tx.rollback();
    let f = store.read_full(&a, &net).unwrap();
    assert_eq!(f.module.description, "old");
    assert_eq!(f.structs.len(), 2);
    assert_eq!(f.structs[1].struct_name, "T");
}

#[test]
fn committed_transaction_applies_all_writes() {
    let a = id(0xa, "a");
    let net = "testnet".to_string();
    let store = DescriptionStore::new().save_full(aggregate(&a, "old", &["S"]));
    let mut tx = store.begin();
    tx.remove(a.clone(), net.clone());
    tx.put(aggregate(&a, "new", &[]));
    let store = tx.commit();
    let f = store.read_full(&a, &net).unwrap();
    assert_eq!(f.module.description, "new");
    assert!(f.structs.is_empty());
}

#[test]
fn dependency_summary_text() {
    let a = id(0xa, "a");
    let text = summarize_dependency(&aggregate(&a, "Does things.", &["S"]));
    let expected = format!(
        "*** Dependency 0x{}0a::a ***\n  - description ```Does things.```\n  - structs:\n    - Struct S description ```S desc```\n  - functions\n",
        "0".repeat(62)
    );
    assert_eq!(text, expected);
}

#[test]
fn consistency_of_aggregates() {
    let a = id(0xa, "a");
    assert!(aggregate(&a, "d", &["S", "T"]).is_consistent());
    assert!(!aggregate(&a, "d", &["S", "S"]).is_consistent());
    let mut f = aggregate(&a, "d", &["S"]);
    f.structs[0].module = id(0xb, "a");
    assert!(!f.is_consistent());
    let mut g = aggregate(&a, "d", &["S"]);
    g.structs[0].network = "mainnet".to_string();
    assert!(!g.is_consistent());
}

#[test]
fn save_plan_deletes_then_inserts() {
    let a = id(0xa, "a");
    let plan = save_plan(aggregate(&a, "d", &["S"]));
    assert_eq!(plan.len(), 2);
    match &plan[0] {
        StoreOp::Remove { id, network } => {
            assert_eq!(id.name, "a");
            assert_eq!(network, "testnet");
        }
        _ => panic!("the plan starts with the deletion"),
    }
    assert!(matches!(&plan[1], StoreOp::Put(f) if f.module.description == "d"));
}
