use cc_switch::json::{json_eq, Json};
use cc_switch::mcp::{normalize_spec, set_mcp_servers_map, McpRegistry};
use cc_switch::store::CoreError;

fn s(x: &str) -> Json {
    Json::Str(x.to_string())
}

fn obj(pairs: Vec<(&str, Json)>) -> Json {
    Json::Obj(pairs.into_iter().map(|(k, v)| (k.to_string(), v)).collect())
}

fn def(cmd: &str) -> Json {
    obj(vec![("command", s(cmd))])
}

fn keys(j: &Json) -> Vec<String> {
    match j {
        Json::Obj(e) => e.iter().map(|(k, _)| k.clone()).collect(),
        _ => panic!("not an object"),
    }
}

fn three() -> McpRegistry {
    let mut r = McpRegistry::new();
    r.upsert("a".to_string(), &def("x")).unwrap();
    r.upsert("b".to_string(), &def("y")).unwrap();
    r.upsert("c".to_string(), &def("z")).unwrap();
    r
}

#[test]
fn projection_holds_exactly_enabled_ids() {
    let mut r = three();
    assert_eq!(r.set_enabled(&"a".to_string(), true), Ok(true));
    assert_eq!(r.set_enabled(&"c".to_string(), true), Ok(true));
    let p = r.project();
    assert_eq!(keys(&p), vec!["a".to_string(), "c".to_string()]);
    assert_eq!(p, obj(vec![("a", def("x")), ("c", def("z"))]));
}

#[test]
fn enabling_twice_reports_no_change() {
    let mut r = three();
    let id = "b".to_string();
    assert_eq!(r.set_enabled(&id, true), Ok(true));
    let first = r.project();
    assert_eq!(r.set_enabled(&id, true), Ok(false));
    let second = r.project();
    assert!(json_eq(&first, &second));
    assert_eq!(r.set_enabled(&"nope".to_string(), true), Err(CoreError::NotFound));
}

#[test]
fn copy_conflict_leaves_destination_untouched() {
    let src = three();
    let mut dest = McpRegistry::new();
    dest.upsert("a".to_string(), &def("other")).unwrap();
    let id = "a".to_string();
    assert_eq!(src.copy_to(&mut dest, &id, false), Err(CoreError::Conflict));
    assert_eq!(dest.servers.len(), 1);
    assert_eq!(dest.servers[0].spec, def("other"));
    assert_eq!(src.copy_to(&mut dest, &"zz".to_string(), true), Err(CoreError::NotFound));
    dest.set_enabled(&id, true).unwrap();
    assert_eq!(src.copy_to(&mut dest, &id, true), Ok(true));
    assert_eq!(dest.servers[0].spec, def("x"));
    assert_eq!(src.copy_to(&mut dest, &"b".to_string(), false), Ok(false));
    assert_eq!(dest.servers.len(), 2);
}

#[test]
fn upsert_normalizes_and_reports_change() {
    let mut r = McpRegistry::new();
    let wrapped = obj(vec![
        ("server", obj(vec![("command", s("x")), ("name", s("n"))])),
        ("enabled", Json::Bool(true)),
    ]);
    let c = r.upsert("a".to_string(), &wrapped).unwrap();
    assert!(c.changed);
    assert!(!c.resync);
    assert_eq!(r.servers[0].spec, def("x"));
    let again = r.upsert("a".to_string(), &def("x")).unwrap();
    assert!(!again.changed);
    r.set_enabled(&"a".to_string(), true).unwrap();
    let edit = r.upsert("a".to_string(), &def("y")).unwrap();
    assert!(edit.changed);
    assert!(edit.resync);
    assert_eq!(r.upsert("b".to_string(), &s("bad")).err(), Some(CoreError::Validation));
}

#[test]
fn normalize_strips_decoration() {
    let d = obj(vec![
        ("command", s("x")),
        ("source", s("ui")),
        ("tags", Json::Arr(vec![])),
        ("homepage", s("h")),
        ("docs", s("d")),
        ("description", s("e")),
        ("id", s("i")),
    ]);
    assert_eq!(normalize_spec(&d), Ok(def("x")));
    assert_eq!(normalize_spec(&obj(vec![("server", s("no"))])), Err(CoreError::Validation));
}

#[test]
fn delete_then_projection_drops_id() {
    let mut r = three();
    r.set_enabled(&"a".to_string(), true).unwrap();
    assert!(r.delete(&"a".to_string()));
    assert!(!r.delete(&"a".to_string()));
    assert_eq!(r.project(), obj(vec![]));
}

#[test]
fn import_from_live_counts_changes() {
    let mut r = three();
    let live = obj(vec![("a", def("x")), ("b", def("changed")), ("n", def("new")), ("bad", s("no"))]);
    assert_eq!(r.import_from_live(&live), Ok(2));
    assert_eq!(r.servers.len(), 4);
    assert!(r.is_enabled(&"n".to_string()));
    assert!(!r.is_enabled(&"a".to_string()));
    assert_eq!(r.import_from_live(&s("x")), Err(CoreError::Validation));
}

#[test]
fn servers_map_replaces_only_collection() {
    let root = obj(vec![("keep", s("1")), ("mcpServers", obj(vec![("old", def("o"))]))]);
    let servers = vec![("a".to_string(), obj(vec![("command", s("x")), ("enabled", Json::Bool(true))]))];
    let out = set_mcp_servers_map(root, &servers).unwrap();
    assert_eq!(out, obj(vec![("keep", s("1")), ("mcpServers", obj(vec![("a", def("x"))]))]));
    assert_eq!(set_mcp_servers_map(s("x"), &servers).err(), Some(CoreError::Validation));
}
