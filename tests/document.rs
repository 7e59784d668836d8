use paperclip_actix::assoc::AssocMap;
use paperclip_actix::builder::{Assembly, UsageFault};
use paperclip_actix::document::{ApiSpec, Contribution, Method};
use paperclip_actix::mountable::Mountable;
use paperclip_core::v2::models::{DefaultOperationRaw, DefaultSchemaRaw, SecurityScheme};

fn op(id: &str) -> DefaultOperationRaw {
    let mut o = DefaultOperationRaw::default();
    o.operation_id = Some(id.to_string());
    o
}

fn schema(desc: &str) -> DefaultSchemaRaw {
    let mut s = DefaultSchemaRaw::default();
    s.description = Some(desc.to_string());
    s
}

fn scheme(kind: &str) -> SecurityScheme {
    let mut s = SecurityScheme::default();
    s.type_ = kind.to_string();
    s
}

fn contribution(
    path: &str,
    ops: Vec<(Method, &str)>,
    defs: Vec<(&str, &str)>,
) -> Contribution {
    Contribution {
        path: path.to_string(),
        operations: ops.into_iter().map(|(m, id)| (m, op(id))).collect(),
        definitions: defs.into_iter().map(|(n, d)| (n.to_string(), schema(d))).collect(),
        security_definitions: Vec::new(),
    }
}

fn op_id(spec: &ApiSpec, path: &str, m: Method) -> Option<String> {
    let item = spec.paths.get(&path.to_string())?;
    item.methods.get(&m).and_then(|o| o.operation_id.clone())
}

fn path_keys(spec: &ApiSpec) -> Vec<String> {
    let mut keys: Vec<String> = spec.paths.entries.iter().map(|(k, _)| k.clone()).collect();
    keys.sort();
    keys
}

#[test]
fn pets_scenario_two_paths_one_definition() {
    let mut spec = ApiSpec::new();
    spec.merge(contribution("/pets", vec![(Method::Get, "listPets")], vec![("Pet", "a pet")]));
    spec.merge(contribution("/pets/{id}", vec![(Method::Get, "getPet")], vec![("Pet", "a pet")]));
    assert_eq!(path_keys(&spec), vec!["/pets".to_string(), "/pets/{id}".to_string()]);
    assert_eq!(spec.definitions.len(), 1);
    assert_eq!(op_id(&spec, "/pets", Method::Get), Some("listPets".to_string()));
    assert_eq!(op_id(&spec, "/pets/{id}", Method::Get), Some("getPet".to_string()));
}

#[test]
fn methods_at_one_path_are_united() {
    let mut spec = ApiSpec::new();
    spec.merge(contribution("/pets", vec![(Method::Get, "listPets")], vec![]));
    spec.merge(contribution("/pets", vec![(Method::Post, "addPet")], vec![]));
    spec.merge(contribution("/owners", vec![(Method::Delete, "dropOwner")], vec![]));
    assert_eq!(path_keys(&spec), vec!["/owners".to_string(), "/pets".to_string()]);
    let pets = spec.paths.get(&"/pets".to_string()).unwrap();
    assert_eq!(pets.methods.len(), 2);
    assert_eq!(op_id(&spec, "/pets", Method::Get), Some("listPets".to_string()));
    assert_eq!(op_id(&spec, "/pets", Method::Post), Some("addPet".to_string()));
    assert_eq!(op_id(&spec, "/pets", Method::Delete), None);
    assert_eq!(op_id(&spec, "/owners", Method::Get), None);
}

#[test]
fn same_method_at_same_path_takes_later_operation() {
    let mut spec = ApiSpec::new();
    spec.merge(contribution("/pets", vec![(Method::Get, "old"), (Method::Put, "put")], vec![]));
    spec.merge(contribution("/pets", vec![(Method::Get, "new")], vec![]));
    assert_eq!(op_id(&spec, "/pets", Method::Get), Some("new".to_string()));
    assert_eq!(op_id(&spec, "/pets", Method::Put), Some("put".to_string()));
}

#[test]
fn colliding_schema_names_keep_the_last() {
    let mut spec = ApiSpec::new();
    spec.merge(contribution("/a", vec![(Method::Get, "a")], vec![("Pet", "first")]));
    spec.merge(contribution("/b", vec![(Method::Get, "b")], vec![("Pet", "second")]));
    assert_eq!(spec.definitions.len(), 1);
    let pet = spec.definitions.get(&"Pet".to_string()).unwrap();
    assert_eq!(pet.description, Some("second".to_string()));
}

#[test]
fn colliding_security_schemes_keep_the_last() {
    let mut spec = ApiSpec::new();
    let mut first = contribution("/a", vec![], vec![]);
    first.security_definitions = vec![("auth".to_string(), scheme("basic"))];
    let mut second = contribution("/b", vec![], vec![]);
    second.security_definitions = vec![("auth".to_string(), scheme("apiKey"))];
    spec.merge(first);
    spec.merge(second);
    assert_eq!(spec.security_definitions.len(), 1);
    let auth = spec.security_definitions.get(&"auth".to_string()).unwrap();
    assert_eq!(auth.type_, "apiKey");
}

#[test]
fn earlier_document_has_only_earlier_contributions() {
    let mut early = ApiSpec::new();
    let mut late = ApiSpec::new();
    for p in ["/one", "/two"] {
        early.merge(contribution(p, vec![(Method::Get, p)], vec![]));
        late.merge(contribution(p, vec![(Method::Get, p)], vec![]));
    }
    let snapshot = path_keys(&early);
    for p in ["/three", "/four", "/five"] {
        late.merge(contribution(p, vec![(Method::Get, p)], vec![]));
    }
    assert_eq!(snapshot, vec!["/one".to_string(), "/two".to_string()]);
    assert_eq!(path_keys(&early), snapshot);
    assert_eq!(late.paths.len(), 5);
}

#[test]
fn empty_contribution_adds_an_empty_path() {
    let mut spec = ApiSpec::new();
    spec.merge(contribution("/empty", vec![], vec![]));
    assert_eq!(path_keys(&spec), vec!["/empty".to_string()]);
    assert_eq!(spec.paths.get(&"/empty".to_string()).unwrap().methods.len(), 0);
}

#[test]
fn build_twice_is_refused() {
    let mut a = Assembly::new(7u32);
    assert!(!a.built());
    assert_eq!(a.build(), Ok(7));
    assert!(a.built());
    assert_eq!(a.build(), Err(UsageFault::AlreadyBuilt));
}

#[test]
fn take_and_restore_keep_the_application() {
    let mut a = Assembly::new(String::from("app"));
    let inner = a.take();
    assert!(a.built());
    a.restore(inner.map(|s| s + "!"));
    assert_eq!(a.build(), Ok("app!".to_string()));
}

struct Element {
    path: String,
    ops: Vec<(Method, &'static str)>,
    defs: Vec<(&'static str, &'static str)>,
}

impl Mountable for Element {
    fn path(&self) -> &str {
        &self.path
    }

    fn operations(&mut self) -> Vec<(Method, DefaultOperationRaw)> {
        self.ops.iter().map(|(m, id)| (*m, op(id))).collect()
    }

    fn definitions(&mut self) -> Vec<(String, DefaultSchemaRaw)> {
        self.defs.iter().map(|(n, d)| (n.to_string(), schema(d))).collect()
    }

    fn security_definitions(&mut self) -> Vec<(String, SecurityScheme)> {
        vec![("key".to_string(), scheme("apiKey"))]
    }
}

#[test]
fn mountable_element_is_merged() {
    let mut spec = ApiSpec::new();
    let mut e = Element {
        path: "/pets".to_string(),
        ops: vec![(Method::Get, "listPets"), (Method::Post, "addPet")],
        defs: vec![("Pet", "a pet")],
    };
    spec.update_from_mountable(&mut e);
    assert_eq!(path_keys(&spec), vec!["/pets".to_string()]);
    assert_eq!(op_id(&spec, "/pets", Method::Post), Some("addPet".to_string()));
    assert_eq!(spec.definitions.len(), 1);
    assert_eq!(spec.security_definitions.len(), 1);
}

#[test]
fn assoc_map_insert_replaces_and_take_removes() {
    let mut m: AssocMap<String, u32> = AssocMap::new();
    m.insert("a".to_string(), 1);
    m.insert("b".to_string(), 2);
    m.insert("a".to_string(), 3);
    assert_eq!(m.len(), 2);
    assert_eq!(m.get(&"a".to_string()), Some(&3));
    assert_eq!(m.take(&"b".to_string()), Some(2));
    assert_eq!(m.take(&"b".to_string()), None);
    assert_eq!(m.len(), 1);
}

#[test]
fn assoc_map_extend_prefers_later_pairs() {
    let mut m: AssocMap<String, u32> = AssocMap::new();
    m.insert("a".to_string(), 1);
    m.extend(vec![("a".to_string(), 2), ("c".to_string(), 4), ("a".to_string(), 5)]);
    assert_eq!(m.len(), 2);
    assert_eq!(m.get(&"a".to_string()), Some(&5));
    assert_eq!(m.get(&"c".to_string()), Some(&4));
    assert_eq!(m.find(&"c".to_string()).is_some(), true);
    assert_eq!(m.find(&"z".to_string()), None);
}
