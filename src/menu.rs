//! The selection menu offered by a tray or similar presentation layer:
//! its structure is computed from the store, and each entry carries a typed
//! action rather than an encoded identifier.

use vstd::prelude::*;
use crate::droid::concat;
use crate::json::{get_member, member, Json, JsonV};
use crate::store::{key_env, key_url, AppType, ManagerV, ProviderManager, ProviderV};

verus! {

/// What choosing a menu entry asks the core to do.
#[derive(Debug, PartialEq)]
pub enum MenuAction {
    /// Make the profile active.
    Switch(AppType, String),
    /// Deactivate the active profile.
    Disable(AppType),
    /// Make the profile active and select one of its alternative endpoints.
    SwitchEndpoint(String, String),
}

pub enum ActionV {
    Switch(AppType, Seq<char>),
    Disable(AppType),
    SwitchEndpoint(Seq<char>, Seq<char>),
}

impl View for MenuAction {
    type V = ActionV;

    open spec fn view(&self) -> ActionV {
        match self {
            MenuAction::Switch(a, id) => ActionV::Switch(*a, id@),
            MenuAction::Disable(a) => ActionV::Disable(*a),
            MenuAction::SwitchEndpoint(id, url) => ActionV::SwitchEndpoint(id@, url@),
        }
    }
}

/// One selectable (or, without an action, informational) entry.
#[derive(Debug, PartialEq)]
pub struct MenuItem {
    pub label: String,
    pub checked: bool,
    pub action: Option<MenuAction>,
}

pub struct ItemV {
    pub label: Seq<char>,
    pub checked: bool,
    pub action: Option<ActionV>,
}

impl View for MenuItem {
    type V = ItemV;

    open spec fn view(&self) -> ItemV {
        ItemV {
            label: self.label@,
            checked: self.checked,
            action: match self.action {
                Some(a) => Some(a@),
                None => None,
            },
        }
    }
}

/// An entry, or a labelled group of entries.
#[derive(Debug, PartialEq)]
pub enum MenuNode {
    Item(MenuItem),
    Submenu(String, Vec<MenuItem>),
}

pub enum NodeV {
    Item(ItemV),
    Submenu(Seq<char>, Seq<ItemV>),
}

impl View for MenuNode {
    type V = NodeV;

    open spec fn view(&self) -> NodeV {
        match self {
            MenuNode::Item(i) => NodeV::Item(i@),
            MenuNode::Submenu(l, items) => NodeV::Submenu(l@, items@.map_values(|i: MenuItem| i@)),
        }
    }
}

pub open spec fn check_mark() -> Seq<char> {
    " \u{2713}"@
}

pub open spec fn empty_hint() -> Seq<char> {
    "(no providers)"@
}

pub open spec fn disable_label() -> Seq<char> {
    "Disable current provider"@
}

/// The endpoint a profile's settings select; empty when there is none.
pub open spec fn selected_url(s: JsonV) -> Seq<char> {
    match member(s, key_env()) {
        Some(e) => match member(e, key_url()) {
            Some(JsonV::Str(u)) => u,
            _ => Seq::empty(),
        },
        None => Seq::empty(),
    }
}

/// The entry of one profile: a group of its endpoints when it has several
/// (for the application that supports them), else a single entry.
pub open spec fn provider_node(app: AppType, p: ProviderV, current: Seq<char>) -> NodeV {
    let is_cur = current == p.id;
    if app == AppType::Claude && p.urls is Some && p.urls->Some_0.len() > 1 {
        let us = p.urls->Some_0;
        NodeV::Submenu(
            if is_cur { p.name + check_mark() } else { p.name },
            Seq::new(
                us.len(),
                |k: int|
                    ItemV {
                        label: us[k],
                        checked: is_cur && us[k] == selected_url(p.settings),
                        action: Some(ActionV::SwitchEndpoint(p.id, us[k])),
                    },
            ),
        )
    } else {
        NodeV::Item(
            ItemV { label: p.name, checked: is_cur, action: Some(ActionV::Switch(app, p.id)) },
        )
    }
}

/// The menu section of one application type.
pub open spec fn app_menu_spec(app: AppType, m: ManagerV) -> Seq<NodeV> {
    if m.providers.len() == 0 {
        seq![NodeV::Item(ItemV { label: empty_hint(), checked: false, action: None })]
    } else {
        let ps = Seq::new(m.providers.len(), |i: int| provider_node(app, m.providers[i], m.current));
        if m.current.len() > 0 && app != AppType::Codex {
            ps.push(
                NodeV::Item(
                    ItemV { label: disable_label(), checked: false, action: Some(ActionV::Disable(app)) },
                ),
            )
        } else {
            ps
        }
    }
}

fn selected_url_of(s: &Json) -> (r: String)
    ensures
        r@ == selected_url(s@),
{
    match get_member(s, &"env".to_owned()) {
        Some(e) => match get_member(e, &"ANTHROPIC_BASE_URL".to_owned()) {
            Some(Json::Str(u)) => u.clone(),
            _ => String::new(),
        },
        None => String::new(),
    }
}

/// The menu section of one application type, computed from its profiles.
pub fn app_menu(app: AppType, m: &ProviderManager) -> (r: Vec<MenuNode>)
    ensures
        r@.map_values(|n: MenuNode| n@) == app_menu_spec(app, m@),
{
    let mut out: Vec<MenuNode> = Vec::new();
    if m.providers.len() == 0 {
        out.push(MenuNode::Item(MenuItem { label: "(no providers)".to_owned(), checked: false, action: None }));
        assert(out@.map_values(|n: MenuNode| n@) =~= app_menu_spec(app, m@));
        return out;
    }
    let mut i: usize = 0;
    while i < m.providers.len()
        invariant
            i <= m.providers.len(),
            m.providers.len() > 0,
            out.len() == i,
            forall|j: int|
                0 <= j < i ==> #[trigger] out@[j]@ == provider_node(app, m@.providers[j], m@.current),
        decreases m.providers.len() - i,
    {
        let p = &m.providers[i];
        let is_cur = m.current == p.id;
        let node = match &p.alternative_urls {
            Some(us) if app == AppType::Claude && us.len() > 1 => {
                let label = if is_cur {
                    concat(p.name.as_str(), " \u{2713}")
                } else {
                    p.name.clone()
                };
                let sel = selected_url_of(&p.settings_config);
                let mut items: Vec<MenuItem> = Vec::new();
                let mut k: usize = 0;
                while k < us.len()
                    invariant
                        k <= us.len(),
                        items.len() == k,
                        forall|q: int|
                            0 <= q < k ==> #[trigger] items@[q]@ == (ItemV {
                                label: us@[q]@,
                                checked: is_cur && us@[q]@ == sel@,
                                action: Some(ActionV::SwitchEndpoint(p.id@, us@[q]@)),
                            }),
                    decreases us.len() - k,
                {
                    let checked = is_cur && us[k] == sel;
                    items.push(
                        MenuItem {
                            label: us[k].clone(),
                            checked,
                            action: Some(MenuAction::SwitchEndpoint(p.id.clone(), us[k].clone())),
                        },
                    );
                    k = k + 1;
                }
                let node = MenuNode::Submenu(label, items);
                proof {
                    let pv = m@.providers[i as int];
                    assert(pv.urls->Some_0 =~= us@.map_values(|s: String| s@));
                    if let NodeV::Submenu(_, a) = node@ {
                        if let NodeV::Submenu(_, b) = provider_node(app, pv, m@.current) {
                            assert(a =~= b);
                        }
                    }
                }
                node
            },
            _ => MenuNode::Item(
                MenuItem {
                    label: p.name.clone(),
                    checked: is_cur,
                    action: Some(MenuAction::Switch(app, p.id.clone())),
                },
            ),
        };
        out.push(node);
        i = i + 1;
    }
    if !m.current.as_str().is_empty() && app != AppType::Codex {
        out.push(
            MenuNode::Item(
                MenuItem {
                    label: "Disable current provider".to_owned(),
                    checked: false,
                    action: Some(MenuAction::Disable(app)),
                },
            ),
        );
    }
    assert(out@.map_values(|n: MenuNode| n@) =~= app_menu_spec(app, m@));
    out
}

} // verus!
