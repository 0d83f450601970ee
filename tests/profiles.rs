use cc_switch::json::Json;
use cc_switch::store::{
    plan_disable, validate_provider_settings, AppType, CodexLive, CoreError, LiveConfig,
    LiveWrite, Provider, ProviderManager, Store,
};

fn s(x: &str) -> Json {
    Json::Str(x.to_string())
}

fn obj(pairs: Vec<(&str, Json)>) -> Json {
    Json::Obj(pairs.into_iter().map(|(k, v)| (k.to_string(), v)).collect())
}

fn env(token: &str, url: &str) -> Json {
    obj(vec![("env", obj(vec![("ANTHROPIC_AUTH_TOKEN", s(token)), ("ANTHROPIC_BASE_URL", s(url))]))])
}

fn provider(id: &str, settings: Json) -> Provider {
    Provider { id: id.to_string(), name: id.to_string(), settings_config: settings, alternative_urls: None }
}

fn member<'a>(j: &'a Json, k: &str) -> Option<&'a Json> {
    match j {
        Json::Obj(e) => e.iter().find(|(key, _)| key == k).map(|(_, v)| v),
        _ => None,
    }
}

fn url_of(j: &Json) -> Option<&Json> {
    member(j, "env").and_then(|e| member(e, "ANTHROPIC_BASE_URL"))
}

fn two_profiles() -> ProviderManager {
    let mut m = ProviderManager::new();
    m.insert_provider(provider("p1", env("t1", "https://a")));
    m.insert_provider(provider("p2", env("t2", "https://b")));
    m
}

fn do_switch(m: &mut ProviderManager, id: &str, live: Json) -> Json {
    let plan = m.plan_switch(&id.to_string(), LiveConfig::Claude(Some(live))).unwrap();
    let doc = match plan.write {
        LiveWrite::Claude(d) => d,
        other => panic!("unexpected write {:?}", other),
    };
    m.commit_switch(id.to_string(), plan.backfill);
    doc
}

#[test]
fn switch_backfills_outgoing_and_projects_target() {
    let mut m = two_profiles();
    let live0 = obj(vec![("model", s("x"))]);
    let live1 = do_switch(&mut m, "p1", live0);
    assert_eq!(m.get_current_provider(), "p1");
    let mut live1 = live1;
    if let Json::Obj(e) = &mut live1 {
        e.push(("theme".to_string(), s("dark")));
    }
    let live2 = do_switch(&mut m, "p2", live1);
    assert_eq!(url_of(&live2), Some(&s("https://b")));
    assert_eq!(member(&live2, "model"), Some(&s("x")));
    assert_eq!(member(&live2, "theme"), Some(&s("dark")));
    assert_eq!(url_of(&m.providers[0].settings_config), Some(&s("https://a")));
    assert_eq!(m.get_current_provider(), "p2");
}

#[test]
fn backfill_captures_out_of_band_edit() {
    let mut m = two_profiles();
    let live = do_switch(&mut m, "p1", obj(vec![]));
    let edited = match live {
        Json::Obj(mut e) => {
            e[0].1 = obj(vec![("ANTHROPIC_AUTH_TOKEN", s("t1")), ("ANTHROPIC_BASE_URL", s("https://edited"))]);
            Json::Obj(e)
        }
        other => other,
    };
    let live2 = do_switch(&mut m, "p2", edited);
    assert_eq!(url_of(&m.providers[0].settings_config), Some(&s("https://edited")));
    let live3 = do_switch(&mut m, "p1", live2);
    assert_eq!(url_of(&live3), Some(&s("https://edited")));
    assert_eq!(m.get_current_provider(), "p1");
}

#[test]
fn switch_to_unknown_profile_is_not_found() {
    let m = two_profiles();
    let r = m.plan_switch(&"nope".to_string(), LiveConfig::Claude(None));
    assert_eq!(r.err(), Some(CoreError::NotFound));
}

#[test]
fn failed_plan_leaves_manager_unchanged() {
    let mut m = ProviderManager::new();
    m.insert_provider(provider("c1", obj(vec![("config", s("x"))])));
    let r = m.plan_switch(&"c1".to_string(), LiveConfig::Codex(None));
    assert_eq!(r.err(), Some(CoreError::Validation));
    assert_eq!(m.get_current_provider(), "");
}

#[test]
fn delete_current_profile_is_refused() {
    let mut m = two_profiles();
    do_switch(&mut m, "p1", obj(vec![]));
    let before = m.providers.len();
    assert_eq!(m.delete_provider(&"p1".to_string()).err(), Some(CoreError::Conflict));
    assert_eq!(m.providers.len(), before);
    assert_eq!(m.get_current_provider(), "p1");
    assert_eq!(m.delete_provider(&"zz".to_string()).err(), Some(CoreError::NotFound));
    let removed = m.delete_provider(&"p2".to_string()).unwrap();
    assert_eq!(removed.id, "p2");
    assert_eq!(m.providers.len(), 1);
}

#[test]
fn codex_settings_validation() {
    let ok = provider("c", obj(vec![("auth", obj(vec![("KEY", s("k"))])), ("config", s("model = \"o3\"\n"))]));
    assert_eq!(validate_provider_settings(&AppType::Codex, &ok), Ok(()));
    let no_auth = provider("c", obj(vec![("config", s(""))]));
    assert_eq!(validate_provider_settings(&AppType::Codex, &no_auth), Err(CoreError::Validation));
    let bad_toml = provider("c", obj(vec![("auth", obj(vec![])), ("config", s("model = = ["))]));
    assert_eq!(validate_provider_settings(&AppType::Codex, &bad_toml), Err(CoreError::Validation));
    let not_obj = provider("c", s("text"));
    assert_eq!(validate_provider_settings(&AppType::Claude, &not_obj), Err(CoreError::Validation));
}

#[test]
fn codex_switch_writes_auth_and_config() {
    let mut m = ProviderManager::new();
    let settings = obj(vec![("auth", obj(vec![("KEY", s("k2"))])), ("config", s("a = 1\n"))]);
    m.insert_provider(provider("c2", settings));
    let plan = m.plan_switch(&"c2".to_string(), LiveConfig::Codex(None)).unwrap();
    assert_eq!(plan.write, LiveWrite::Codex(obj(vec![("KEY", s("k2"))]), Some("a = 1\n".to_string())));
    assert_eq!(plan.backfill, None);
}

#[test]
fn disable_per_application() {
    assert_eq!(plan_disable(LiveConfig::Codex(None)).err(), Some(CoreError::Unsupported));
    let w = plan_disable(LiveConfig::Claude(Some(env("t", "u")))).unwrap();
    assert_eq!(w, LiveWrite::Claude(obj(vec![("env", obj(vec![]))])));
    assert_eq!(plan_disable(LiveConfig::Droid(Some("k".to_string()))).unwrap(), LiveWrite::Droid(None));
    let mut m = two_profiles();
    do_switch(&mut m, "p1", obj(vec![]));
    m.commit_disable();
    assert_eq!(m.get_current_provider(), "");
}

#[test]
fn switch_endpoint_rules() {
    let mut m = ProviderManager::new();
    let mut p = provider("p1", env("t1", "https://a"));
    p.alternative_urls = Some(vec!["https://a".to_string(), "https://b".to_string()]);
    m.insert_provider(p);
    let u = "https://b".to_string();
    assert_eq!(m.plan_switch_endpoint(&u, None).err(), Some(CoreError::NotFound));
    do_switch(&mut m, "p1", obj(vec![]));
    let other = "https://c".to_string();
    assert_eq!(m.plan_switch_endpoint(&other, None).err(), Some(CoreError::Validation));
    let doc = m.plan_switch_endpoint(&u, Some(env("t1", "https://a"))).unwrap();
    assert_eq!(url_of(&doc), Some(&s("https://b")));
    m.commit_switch_endpoint(&u);
    assert_eq!(url_of(&m.providers[0].settings_config), Some(&s("https://b")));
}

#[test]
fn save_provider_writes_live_only_when_active() {
    let mut m = two_profiles();
    let p3 = provider("p3", env("t3", "https://c"));
    assert_eq!(m.plan_save_provider(&AppType::Claude, &p3, false, LiveConfig::Claude(None)), Ok(None));
    assert_eq!(
        m.plan_save_provider(&AppType::Claude, &p3, true, LiveConfig::Claude(None)).err(),
        Some(CoreError::NotFound)
    );
    do_switch(&mut m, "p1", obj(vec![]));
    let p1 = provider("p1", env("t9", "https://z"));
    let w = m.plan_save_provider(&AppType::Claude, &p1, true, LiveConfig::Claude(None)).unwrap();
    assert_eq!(w, Some(LiveWrite::Claude(env("t9", "https://z"))));
    m.insert_provider(p1);
    assert_eq!(m.providers.len(), 2);
    assert_eq!(url_of(&m.providers[0].settings_config), Some(&s("https://z")));
}

#[test]
fn import_default_only_when_empty() {
    let mut m = ProviderManager::new();
    assert_eq!(m.import_default(LiveConfig::Claude(None)), Err(CoreError::NotFound));
    let live = obj(vec![("env", obj(vec![("ANTHROPIC_AUTH_TOKEN", s("t"))])), ("x", s("y"))]);
    assert_eq!(m.import_default(LiveConfig::Claude(Some(live))), Ok(true));
    assert_eq!(m.get_current_provider(), "default");
    assert_eq!(m.providers[0].settings_config, obj(vec![("env", obj(vec![("ANTHROPIC_AUTH_TOKEN", s("t"))]))]));
    assert_eq!(m.import_default(LiveConfig::Claude(Some(obj(vec![])))), Ok(false));
    let mut c = ProviderManager::new();
    let bad = CodexLive { auth: obj(vec![]), config: "= nope".to_string() };
    assert_eq!(c.import_default(LiveConfig::Codex(Some(bad))), Err(CoreError::Validation));
}

#[test]
fn absorb_legacy_store_wins() {
    let mut m = two_profiles();
    let changed = m.absorb_legacy(vec![provider("p1", env("x", "y")), provider("p9", env("a", "b"))]);
    assert!(changed);
    assert_eq!(m.providers.len(), 3);
    assert_eq!(url_of(&m.providers[0].settings_config), Some(&s("https://a")));
    assert!(!m.absorb_legacy(vec![provider("p2", obj(vec![]))]));
}

#[test]
fn sync_current_from_live_refreshes_env() {
    let mut m = two_profiles();
    do_switch(&mut m, "p2", obj(vec![]));
    assert_eq!(m.sync_current_from_live(&LiveConfig::Claude(None)), Err(CoreError::NotFound));
    let live = env("t7", "https://q");
    assert_eq!(m.sync_current_from_live(&LiveConfig::Claude(Some(live))), Ok(()));
    assert_eq!(url_of(&m.providers[1].settings_config), Some(&s("https://q")));
}

#[test]
fn store_managers_per_application() {
    let st = Store::new();
    assert!(st.get_manager(AppType::Codex).get_providers().is_empty());
    assert_eq!(st.get_manager(AppType::Droid).get_current_provider(), "");
}

#[test]
fn droid_switch_sets_variable() {
    let mut m = ProviderManager::new();
    m.insert_provider(provider("d1", obj(vec![("apiKey", s("fk-1"))])));
    let plan = m.plan_switch(&"d1".to_string(), LiveConfig::Droid(None)).unwrap();
    assert_eq!(plan.write, LiveWrite::Droid(Some("fk-1".to_string())));
}

#[test]
fn disable_keeps_other_env_keys() {
    let live = obj(vec![
        ("env", obj(vec![("ANTHROPIC_AUTH_TOKEN", s("t")), ("OTHER", s("keep")), ("ANTHROPIC_BASE_URL", s("u"))])),
        ("model", s("m")),
    ]);
    let w = plan_disable(LiveConfig::Claude(Some(live))).unwrap();
    assert_eq!(
        w,
        LiveWrite::Claude(obj(vec![("env", obj(vec![("OTHER", s("keep"))])), ("model", s("m"))]))
    );
    let odd = obj(vec![("env", s("not an object"))]);
    assert_eq!(plan_disable(LiveConfig::Claude(Some(odd))).unwrap(), LiveWrite::Claude(obj(vec![("env", obj(vec![]))])));
}

#[test]
fn droid_settings_need_api_key() {
    let ok = provider("d", obj(vec![("apiKey", s("fk"))]));
    assert_eq!(validate_provider_settings(&AppType::Droid, &ok), Ok(()));
    let missing = provider("d", obj(vec![]));
    assert_eq!(validate_provider_settings(&AppType::Droid, &missing), Err(CoreError::Validation));
    let wrong = provider("d", obj(vec![("apiKey", Json::Bool(true))]));
    assert_eq!(validate_provider_settings(&AppType::Droid, &wrong), Err(CoreError::Validation));
}

#[test]
fn delete_non_active_profile_succeeds() {
    let mut m = two_profiles();
    do_switch(&mut m, "p2", obj(vec![]));
    let removed = m.delete_provider(&"p1".to_string()).unwrap();
    assert_eq!(removed.id, "p1");
    assert_eq!(m.providers.len(), 1);
    assert_eq!(m.providers[0].id, "p2");
    assert_eq!(m.get_current_provider(), "p2");
}
