use std::collections::VecDeque;

use dominion_protector::conversation::{ModelRequest, ResponseFormat, Role};
use dominion_protector::error::DescribeError;
use dominion_protector::ids::ModuleId;
use dominion_protector::prompts::{ModulePrompts, Prompts, StructPrompts};
use dominion_protector::records::{FullModuleDescription, ModuleSource, SecurityLevel, StructDescription};
use dominion_protector::rounds::{ModuleRounds, Stage};
use dominion_protector::store::DescriptionStore;
use dominion_protector::walk::{Action, Event, Walk};

const NET: &str = "mainnet";

fn id(last: u8, name: &str) -> ModuleId {
    let mut address = [0u8; 32];
    address[31] = last;
    ModuleId { address, name: name.to_string() }
}

fn prompts() -> Prompts {
    Prompts {
        developer: "You audit Move modules.".to_string(),
        module: ModulePrompts {
            description: "Describe the module.".to_string(),
            security_level: "Rate the module.".to_string(),
            warnings: "List warnings.".to_string(),
        },
        structure: StructPrompts {
            description: "Describe {struct_name}.".to_string(),
            ownership: "Ownership of {struct_name}?".to_string(),
            warnings: "Warnings for {struct_name}.".to_string(),
        },
    }
}

fn source(m: &ModuleId, text: &str, deps: Vec<ModuleId>) -> ModuleSource {
    ModuleSource {
        id: m.clone(),
        network: NET.to_string(),
        source: text.to_string(),
        kind: "disassembled".to_string(),
        dependencies: deps,
    }
}

struct World {
    store: Option<DescriptionStore>,
    sources: Vec<ModuleSource>,
    structs: Vec<(String, Vec<String>)>,
    replies: VecDeque<Option<String>>,
    requests: Vec<(String, ModelRequest)>,
    lookups: Vec<ModuleId>,
}

impl World {
    fn new(sources: Vec<ModuleSource>, replies: Vec<&str>) -> World {
        World {
            store: Some(DescriptionStore::new()),
            sources,
            structs: vec![],
            replies: replies.into_iter().map(|r| Some(r.to_string())).collect(),
            requests: vec![],
            lookups: vec![],
        }
    }

    fn describe(&mut self, target: ModuleId) -> Result<FullModuleDescription, DescribeError> {
        let net = NET.to_string();
        let p = prompts();
        let mut walk = Walk::new(target, p.developer.clone());
        loop {
            let event = match walk.next_action() {
                Action::Lookup(m) => {
                    self.lookups.push(m.clone());
                    match self.store.as_ref().unwrap().read_full(&m, &net) {
                        Some(f) => Event::CacheHit(f.clone()),
                        None => Event::CacheMiss,
                    }
                }
                Action::FetchSource(m) => {
                    match self.sources.iter().find(|s| s.id.address == m.address && s.id.name == m.name) {
                        Some(s) => Event::SourceReady(s.clone()),
                        None => Event::Failure(DescribeError::NotFound),
                    }
                }
                Action::Describe(job) => {
                    let names = self
                        .structs
                        .iter()
                        .find(|(n, _)| *n == job.target.name)
                        .map(|(_, v)| v.clone())
                        .unwrap_or_default();
                    let who = job.target.name.clone();
                    let mut rounds = ModuleRounds::new(p.clone(), job.target, net.clone(), job.conversation, names);
                    while let Some(req) = rounds.request() {
                        self.requests.push((who.clone(), req));
                        let reply = self.replies.pop_front().expect("the model was asked more than the fixture holds");
                        rounds.receive(reply);
                    }
                    match rounds.outcome() {
                        Some(Ok(full)) => {
                            let store = self.store.take().unwrap();
                            self.store = Some(store.save_full(full.clone()));
                            Event::Persisted(full)
                        }
                        Some(Err(e)) => Event::Failure(e),
                        None => Event::Failure(DescribeError::UnexpectedEvent),
                    }
                }
                Action::Finished => return Ok(walk.result().unwrap().clone()),
                Action::Failed(e) => return Err(e),
            };
            walk.advance(event);
        }
    }
}

fn module_replies(desc: &str) -> Vec<&str> {
    vec![desc, "[\"w1\"]", "Medium Risk"]
}

#[test]
fn dependency_is_described_first_and_quoted() {
    let a = id(0xa, "a");
    let b = id(0xb, "b");
    let sources = vec![source(&a, "module a {}", vec![b.clone()]), source(&b, "module b {}", vec![])];
    let mut replies = module_replies("B keeps balances.");
    replies.extend(module_replies("<think>hmm</think>A trades."));
    let mut w = World::new(sources, replies);
    let full = w.describe(a.clone()).unwrap();
    assert_eq!(full.module.description, "A trades.");
    assert_eq!(full.module.security_level, SecurityLevel::MediumRisk);
    assert_eq!(full.module.warnings, vec!["w1".to_string()]);
    let net = NET.to_string();
    let store = w.store.as_ref().unwrap();
    assert_eq!(store.read_full(&b, &net).unwrap().module.description, "B keeps balances.");
    assert_eq!(store.read_full(&a, &net).unwrap().module.description, "A trades.");
    // A's first request: instruction, B's description, then A's source.
    let (who, first_a) = w.requests.iter().find(|(n, _)| n == "a").unwrap();
    assert_eq!(who, "a");
    let m = &first_a.messages;
    assert_eq!(m.len(), 4);
    assert_eq!(m[0].role, Role::Developer);
    assert_eq!(m[1].role, Role::Assistant);
    assert!(m[1].content.contains("```B keeps balances.```"));
    assert_eq!(m[2].role, Role::User);
    assert!(m[2].content.contains("module a {}"));
    assert_eq!(m[3].content, "Describe the module.");
    assert_eq!(first_a.format, ResponseFormat::Text);
}

#[test]
fn second_description_comes_from_cache() {
    let a = id(0xa, "a");
    let mut w = World::new(vec![source(&a, "module a {}", vec![])], module_replies("A."));
    w.describe(a.clone()).unwrap();
    let asked = w.requests.len();
    // The fixture is empty now: any model call would panic.
    let again = w.describe(a.clone()).unwrap();
    assert_eq!(again.module.description, "A.");
    assert_eq!(w.requests.len(), asked);
}

#[test]
fn reserved_dependencies_are_never_targets() {
    let a = id(0xa, "a");
    let deps = vec![id(1, "vector"), id(2, "coin")];
    let mut w = World::new(vec![source(&a, "module a {}", deps)], module_replies("A."));
    w.describe(a.clone()).unwrap();
    assert_eq!(w.lookups.len(), 1);
    assert_eq!(w.lookups[0].name, "a");
    let m = &w.requests[0].1.messages;
    assert_eq!(m.len(), 3);
    assert_eq!(m[1].role, Role::User);
}

#[test]
fn cycle_is_reported() {
    let a = id(0xa, "a");
    let b = id(0xb, "b");
    let sources = vec![source(&a, "a", vec![b.clone()]), source(&b, "b", vec![a.clone()])];
    let mut w = World::new(sources, vec![]);
    assert_eq!(w.describe(a).err(), Some(DescribeError::CyclicDependency));
}

#[test]
fn missing_source_is_not_found() {
    let mut w = World::new(vec![], vec![]);
    assert_eq!(w.describe(id(0xa, "a")).err(), Some(DescribeError::NotFound));
}

#[test]
fn structs_get_their_own_rounds() {
    let a = id(0xa, "a");
    let mut w = World::new(
        vec![source(&a, "module a {}", vec![])],
        vec![
            "A.",
            "[]",
            "Low",
            "Pool holds coins.",
            "not json",
            "[\"drainable\"]",
            "{\"shared\": \"always\", \"address_owned\": null}",
        ],
    );
    w.structs.push(("a".to_string(), vec!["Pool".to_string()]));
    let full = w.describe(a).unwrap();
    assert_eq!(full.structs.len(), 1);
    let s: &StructDescription = &full.structs[0];
    assert_eq!(s.struct_name, "Pool");
    assert_eq!(s.description, "Pool holds coins.");
    assert_eq!(s.warnings, vec!["drainable".to_string()]);
    assert_eq!(s.shared, Some("always".to_string()));
    assert_eq!(s.address_owned, None);
    // The struct's description round starts from the opening, not from the
    // module's rounds.
    let (_, first_struct) = &w.requests[3];
    assert_eq!(first_struct.messages.len(), 3);
    assert_eq!(first_struct.messages[2].content, "Describe Pool.");
    // The retried warnings round repeats the same request.
    assert_eq!(w.requests[4].1.messages.len(), w.requests[5].1.messages.len());
    // The ownership round starts from the opening again.
    let (_, own) = &w.requests[6];
    assert_eq!(own.messages.len(), 3);
    assert_eq!(own.messages[2].content, "Ownership of Pool?");
    assert_eq!(own.format, ResponseFormat::Ownership);
}

#[test]
fn unrecognised_level_is_a_classification_error() {
    let a = id(0xa, "a");
    let mut w = World::new(vec![source(&a, "m", vec![])], vec!["A.", "[]", "no idea"]);
    assert_eq!(w.describe(a).err(), Some(DescribeError::Classification));
}

#[test]
fn endless_bad_json_is_a_parse_error() {
    let a = id(0xa, "a");
    let mut w = World::new(vec![source(&a, "m", vec![])], vec!["A.", "x", "y", "z"]);
    assert_eq!(w.describe(a).err(), Some(DescribeError::Parse));
}

#[test]
fn no_description_text_fails_generation() {
    let mut r = ModuleRounds::new(prompts(), id(0xa, "a"), NET.to_string(), vec![], vec![]);
    r.receive(None);
    r.receive(Some("<think>never closed".to_string()));
    assert_eq!(r.stage, Stage::ModuleDescription);
    r.receive(None);
    assert_eq!(r.stage, Stage::Failed(DescribeError::DescriptionGeneration));
    assert!(r.request().is_none());
    assert_eq!(r.outcome().unwrap().err(), Some(DescribeError::DescriptionGeneration));
}

#[test]
fn event_that_does_not_answer_is_rejected() {
    let mut walk = Walk::new(id(0xa, "a"), String::new());
    walk.advance(Event::SourceReady(source(&id(0xa, "a"), "m", vec![])));
    assert!(matches!(walk.next_action(), Action::Failed(DescribeError::UnexpectedEvent)));
}

#[test]
fn cache_hit_for_another_module_is_rejected() {
    let a = id(0xa, "a");
    let b = id(0xb, "b");
    let mut w = World::new(vec![source(&b, "b", vec![])], module_replies("B."));
    let full_b = w.describe(b).unwrap();
    let mut walk = Walk::new(a, String::new());
    walk.advance(Event::CacheHit(full_b));
    assert!(matches!(walk.next_action(), Action::Failed(DescribeError::UnexpectedEvent)));
}

#[test]
fn next_lookup_is_first_pending_dependency() {
    let a = id(0xa, "a");
    let b = id(0xb, "b");
    let c = id(0xc, "c");
    // B is cached already; the reserved one is skipped; C is next.
    let mut w = World::new(vec![source(&b, "b", vec![])], module_replies("B."));
    let full_b = w.describe(b.clone()).unwrap();
    let mut walk = Walk::new(a.clone(), String::new());
    walk.advance(Event::CacheMiss);
    assert!(matches!(walk.next_action(), Action::FetchSource(ref m) if m.name == "a"));
    let deps = vec![id(2, "coin"), b.clone(), c.clone(), b.clone()];
    walk.advance(Event::SourceReady(source(&a, "a", deps)));
    assert!(matches!(walk.next_action(), Action::Lookup(ref m) if m.name == "b"));
    walk.advance(Event::CacheHit(full_b));
    assert!(matches!(walk.next_action(), Action::Lookup(ref m) if m.name == "c"));
}
