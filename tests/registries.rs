use orchestrator::registry::Registry;

#[test]
fn register_and_heartbeat_worker() {
    let mut reg = Registry::new();
    assert!(reg.register_worker_with_id("w1".to_string(), "Worker".to_string(), vec!["rust".to_string()], 10));
    assert!(!reg.register_worker_with_id("w1".to_string(), "Again".to_string(), vec![], 11));
    let w = reg.worker("w1").unwrap();
    assert_eq!(w.last_heartbeat, 10);
    assert_eq!(w.name, "Worker");
    assert_eq!(w.capabilities, vec!["rust".to_string()]);
    assert!(reg.heartbeat_at("w1", 99));
    assert_eq!(reg.worker("w1").unwrap().last_heartbeat, 99);
    assert!(!reg.heartbeat_at("nobody", 5));
    assert!(reg.worker("nobody").is_none());
}

#[test]
fn heartbeat_with_the_clock() {
    let mut reg = Registry::new();
    let id = reg.register_worker("w".to_string(), vec![]).unwrap();
    assert_eq!(id.len(), 36);
    assert!(reg.heartbeat(&id));
    assert!(reg.worker(&id).unwrap().last_heartbeat > 0);
    assert!(!reg.heartbeat("missing"));
}

#[test]
fn bots_have_unique_ids() {
    let mut reg = Registry::new();
    assert!(reg.register_bot_with_id("b1".to_string(), "Bot".to_string(), vec![]));
    assert!(!reg.register_bot_with_id("b1".to_string(), "Bot2".to_string(), vec![]));
    let a = reg.register_bot("x".to_string(), vec!["c".to_string()]).unwrap();
    let b = reg.register_bot("y".to_string(), vec![]).unwrap();
    assert_ne!(a, b);
}

#[test]
fn clients_listed_by_name() {
    let mut reg = Registry::new();
    assert!(reg.create_client_with_id("c1".to_string(), "Zeta".to_string(), "z@x".to_string()));
    assert!(reg.create_client_with_id("c2".to_string(), "Acme".to_string(), "a@x".to_string()));
    assert!(!reg.create_client_with_id("c2".to_string(), "Dup".to_string(), "d@x".to_string()));
    let id = reg.create_client("Mid".to_string(), "m@x".to_string()).unwrap();
    let names: Vec<String> = reg.list_clients().into_iter().map(|c| c.name).collect();
    assert_eq!(names, vec!["Acme", "Mid", "Zeta"]);
    assert_eq!(id.len(), 36);
}

#[test]
fn projects_listed_by_name() {
    let mut reg = Registry::new();
    assert!(reg.create_project_with_id("p1".to_string(), "c1".to_string(), "web".to_string(), "d".to_string()));
    assert!(reg.create_project_with_id("p2".to_string(), "c1".to_string(), "api".to_string(), "d".to_string()));
    assert!(!reg.create_project_with_id("p1".to_string(), "c9".to_string(), "x".to_string(), "d".to_string()));
    assert!(reg.create_project("c2".to_string(), "mobile".to_string(), "d".to_string()).is_some());
    let projects = reg.list_projects();
    let names: Vec<&str> = projects.iter().map(|p| p.name.as_str()).collect();
    assert_eq!(names, vec!["api", "mobile", "web"]);
    assert_eq!(projects[2].client_id, "c1");
}

#[test]
fn registries_keep_registration_order() {
    let mut reg = Registry::new();
    assert!(reg.register_bot_with_id("b2".to_string(), "second".to_string(), vec!["x".to_string()]));
    assert!(reg.register_bot_with_id("b1".to_string(), "first".to_string(), vec![]));
    let bots: Vec<String> = reg.bots().into_iter().map(|b| b.id).collect();
    assert_eq!(bots, vec!["b2", "b1"]);
    assert_eq!(reg.bots()[0].capabilities, vec!["x".to_string()]);
    assert!(reg.create_client_with_id("c2".to_string(), "B".to_string(), "b".to_string()));
    assert!(reg.create_client_with_id("c1".to_string(), "A".to_string(), "a".to_string()));
    let clients: Vec<String> = reg.clients().into_iter().map(|c| c.id).collect();
    assert_eq!(clients, vec!["c2", "c1"]);
    assert!(reg.create_project_with_id("p9".to_string(), "c1".to_string(), "Z".to_string(), "d".to_string()));
    assert_eq!(reg.projects()[0].id, "p9");
    assert!(reg.register_worker_with_id("w".to_string(), "W".to_string(), vec![], 1));
    assert_eq!(reg.workers().len(), 1);
}
