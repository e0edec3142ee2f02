use wdsm::registry::store::{registry_file, Registry};
use wdsm::registry::{find_by_name, list_all, register, unregister, FnService};

fn service(id: &str, name: &str, port: u16) -> FnService {
    FnService {
        id: id.to_string(),
        name: name.to_string(),
        endpoint: format!("/{}", name),
        port,
        method: "GET".to_string(),
        wasm_path: format!("/tmp/{}.wasm", name),
    }
}

#[test]
fn register_find_and_unregister() {
    let mut reg = Registry::new();
    register(&mut reg, service("1", "hello", 3001));
    register(&mut reg, service("2", "add", 3002));
    assert_eq!(find_by_name(&reg, "add").unwrap().port, 3002);
    assert_eq!(list_all(&reg).len(), 2);

    unregister(&mut reg, "1");
    let all = list_all(&reg);
    assert_eq!(all.len(), 1);
    assert_eq!(all[0].name, "add");
    assert_eq!(find_by_name(&reg, "hello").unwrap_err(), "FnService 'hello' not found");
}

#[test]
fn registering_an_id_again_replaces_it() {
    let mut reg = Registry::new();
    register(&mut reg, service("1", "hello", 3001));
    register(&mut reg, service("1", "hello", 4001));
    let all = list_all(&reg);
    assert_eq!(all.len(), 1);
    assert_eq!(all[0].port, 4001);
}

#[test]
fn unregistering_an_unknown_id_changes_nothing() {
    let mut reg = Registry::new();
    register(&mut reg, service("1", "hello", 3001));
    unregister(&mut reg, "nope");
    assert_eq!(list_all(&reg).len(), 1);
}

#[test]
fn registry_from_pairs_keeps_the_last_of_a_key() {
    let pairs = vec![
        ("a".to_string(), service("a", "one", 1)),
        ("b".to_string(), service("b", "two", 2)),
        ("a".to_string(), service("a", "three", 3)),
    ];
    let reg = Registry::from_pairs(&pairs);
    let back = reg.to_pairs();
    assert_eq!(back.len(), 2);
    assert_eq!(back[0].0, "a");
    assert_eq!(back[0].1.name, "three");
    assert_eq!(back[1].1.name, "two");
}

#[test]
fn registry_file_lives_under_home() {
    assert_eq!(registry_file(&Some("/home/me".to_string())), "/home/me/.wdsm/registry/deployments.json");
    assert_eq!(registry_file(&Some("/home/me/".to_string())), "/home/me/.wdsm/registry/deployments.json");
    assert_eq!(registry_file(&None), "./.wdsm/registry/deployments.json");
}
