use cc_switch::json::Json;
use cc_switch::menu::{app_menu, MenuAction, MenuItem, MenuNode};
use cc_switch::store::{AppType, LiveConfig, Provider, ProviderManager};

fn s(x: &str) -> Json {
    Json::Str(x.to_string())
}

fn obj(pairs: Vec<(&str, Json)>) -> Json {
    Json::Obj(pairs.into_iter().map(|(k, v)| (k.to_string(), v)).collect())
}

fn with_urls(id: &str, url: &str, urls: &[&str]) -> Provider {
    Provider {
        id: id.to_string(),
        name: format!("{} name", id),
        settings_config: obj(vec![("env", obj(vec![("ANTHROPIC_BASE_URL", s(url))]))]),
        alternative_urls: Some(urls.iter().map(|u| u.to_string()).collect()),
    }
}

#[test]
fn empty_section_shows_hint() {
    let m = ProviderManager::new();
    let menu = app_menu(AppType::Codex, &m);
    assert_eq!(
        menu,
        vec![MenuNode::Item(MenuItem { label: "(no providers)".to_string(), checked: false, action: None })]
    );
}

#[test]
fn endpoints_group_and_disable_entry() {
    let mut m = ProviderManager::new();
    m.insert_provider(with_urls("p1", "https://b", &["https://a", "https://b"]));
    m.insert_provider(with_urls("p2", "https://c", &["https://c"]));
    let plan = m.plan_switch(&"p1".to_string(), LiveConfig::Claude(None)).unwrap();
    m.commit_switch("p1".to_string(), plan.backfill);
    let menu = app_menu(AppType::Claude, &m);
    assert_eq!(menu.len(), 3);
    match &menu[0] {
        MenuNode::Submenu(label, items) => {
            assert_eq!(label, "p1 name \u{2713}");
            assert_eq!(items.len(), 2);
            assert!(!items[0].checked);
            assert!(items[1].checked);
            assert_eq!(
                items[1].action,
                Some(MenuAction::SwitchEndpoint("p1".to_string(), "https://b".to_string()))
            );
        }
        other => panic!("expected a group, got {:?}", other),
    }
    assert_eq!(
        menu[1],
        MenuNode::Item(MenuItem {
            label: "p2 name".to_string(),
            checked: false,
            action: Some(MenuAction::Switch(AppType::Claude, "p2".to_string())),
        })
    );
    assert_eq!(menu[2], MenuNode::Item(MenuItem {
        label: "Disable current provider".to_string(),
        checked: false,
        action: Some(MenuAction::Disable(AppType::Claude)),
    }));
    let codex = app_menu(AppType::Codex, &m);
    assert_eq!(codex.len(), 2);
}
