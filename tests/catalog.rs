use singbox_gui::catalog::{Config, State};

const DIR: &str = "/home/user/.config/singbox-gui/configs";

fn entry(id: &str, name: &str, path: &str) -> Config {
    Config { id: id.to_string(), name: name.to_string(), path: path.to_string() }
}

#[test]
fn add_rewrites_foreign_path_by_id() {
    let mut s = State::new();
    s.add_config(entry("a", "A", "ignored"), DIR);
    let list = s.get_configs();
    assert_eq!(list.len(), 1);
    assert_eq!(list[0].id, "a");
    assert_eq!(list[0].name, "A");
    assert_eq!(list[0].path, format!("{}/a.json", DIR));
}

#[test]
fn add_keeps_path_inside_config_dir() {
    let mut s = State::new();
    let inside = format!("{}/mine.json", DIR);
    s.add_config(entry("b", "B", &inside), DIR);
    assert_eq!(s.get_configs()[0].path, inside);
}

#[test]
fn add_then_list_has_entry_once() {
    let mut s = State::new();
    s.add_config(entry("a", "A", "x"), DIR);
    s.add_config(entry("b", "B", "y"), DIR);
    let n = s.get_configs().iter().filter(|c| c.id == "b").count();
    assert_eq!(n, 1);
    let ids: Vec<&str> = s.get_configs().iter().map(|c| c.id.as_str()).collect();
    assert_eq!(ids, vec!["a", "b"]);
}

#[test]
fn remove_drops_every_entry_with_id() {
    let mut s = State::new();
    s.add_config(entry("a", "A", "x"), DIR);
    s.add_config(entry("b", "B", "y"), DIR);
    s.add_config(entry("a", "A2", "z"), DIR);
    s.remove_config("a");
    let ids: Vec<&str> = s.get_configs().iter().map(|c| c.id.as_str()).collect();
    assert_eq!(ids, vec!["b"]);
}

#[test]
fn remove_active_clears_pointer() {
    let mut s = State::new();
    s.add_config(entry("a", "A", "x"), DIR);
    s.set_active_config(Some("a".to_string()));
    s.remove_config("a");
    assert!(s.get_active_config().is_none());
    assert_eq!(s.active_config_id(), None);
}

#[test]
fn remove_other_keeps_pointer() {
    let mut s = State::new();
    s.add_config(entry("a", "A", "x"), DIR);
    s.add_config(entry("b", "B", "y"), DIR);
    s.set_active_config(Some("a".to_string()));
    s.remove_config("b");
    assert_eq!(s.get_active_config().map(|c| c.id.clone()), Some("a".to_string()));
}

#[test]
fn unknown_active_id_is_accepted_and_finds_nothing() {
    let mut s = State::new();
    s.add_config(entry("a", "A", "x"), DIR);
    s.set_active_config(Some("zzz".to_string()));
    assert_eq!(s.active_config_id(), Some("zzz".to_string()));
    assert!(s.get_active_config().is_none());
}

#[test]
fn active_lookup_takes_first_match() {
    let mut s = State::new();
    s.add_config(entry("a", "First", "x"), DIR);
    s.add_config(entry("a", "Second", "y"), DIR);
    s.set_active_config(Some("a".to_string()));
    assert_eq!(s.get_active_config().unwrap().name, "First");
}

#[test]
fn load_without_document_is_empty() {
    let s = State::load(None);
    assert!(s.get_configs().is_empty());
    assert_eq!(s.active_config_id(), None);
}

#[test]
fn load_keeps_persisted_catalog() {
    let parts = vec![entry("a", "A", "/p/a.json"), entry("b", "B", "/p/b.json")];
    let s = State::load(Some(State::from_parts(parts, Some("b".to_string()))));
    let ids: Vec<&str> = s.get_configs().iter().map(|c| c.id.as_str()).collect();
    assert_eq!(ids, vec!["a", "b"]);
    assert_eq!(s.get_active_config().unwrap().path, "/p/b.json");
}

#[test]
fn end_to_end_catalog_scenario() {
    let mut s = State::load(None);
    assert!(s.get_configs().is_empty());
    s.add_config(entry("a", "A", "ignored"), DIR);
    assert_eq!(s.get_configs().len(), 1);
    assert_eq!(s.get_configs()[0].path, format!("{}/a.json", DIR));
    s.set_active_config(Some("a".to_string()));
    assert_eq!(s.get_active_config().unwrap().id, "a");
    s.remove_config("a");
    assert!(s.get_active_config().is_none());
}

#[test]
fn parts_round_trip_keeps_order_and_pointer() {
    let mut s = State::default();
    s.add_config(entry("b", "B", "x"), DIR);
    s.add_config(entry("a", "A", "y"), DIR);
    s.set_active_config(Some("a".to_string()));
    let back = State::load(Some(State::from_parts(s.get_configs().to_vec(), s.active_config_id())));
    let ids: Vec<&str> = back.get_configs().iter().map(|c| c.id.as_str()).collect();
    assert_eq!(ids, vec!["b", "a"]);
    let paths: Vec<&str> = back.get_configs().iter().map(|c| c.path.as_str()).collect();
    assert_eq!(paths, vec![format!("{}/b.json", DIR), format!("{}/a.json", DIR)]);
    assert_eq!(back.active_config_id(), Some("a".to_string()));
}

#[test]
fn path_containing_dir_text_but_outside_is_rewritten() {
    let mut s = State::new();
    s.add_config(entry("a", "A", "/x/d/y"), "/d");
    assert_eq!(s.get_configs()[0].path, "/d/a.json");
    s.add_config(entry("b", "B", "/d/sub/b.json"), "/d/");
    assert_eq!(s.get_configs()[1].path, "/d/sub/b.json");
}
