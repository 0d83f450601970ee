//! Profiles per client application, and the rules for switching between them.

use vstd::prelude::*;
use crate::json::{
    entries_clone, ev, find_key, get, get_member, is_first, json_clone, jv, lemma_absent,
    lemma_find_key, lemma_find_same_keys, lemma_first_unique, lemma_obj_view, member, obj_find,
    obj_put, put, Json, JsonV, ObjV,
};

verus! {

broadcast use lemma_obj_view;

/// The client applications whose configuration is managed.
#[derive(Clone, Copy, Debug, PartialEq, Eq, Structural)]
pub enum AppType {
    /// Settings document with an `env` block.
    Claude,
    /// Credential document plus a text configuration file.
    Codex,
    /// Credential held in an environment variable.
    Droid,
}

/// Failures of the synchronization core.
#[derive(Clone, Copy, Debug, PartialEq, Eq, Structural)]
pub enum CoreError {
    /// An unknown profile, service or live artifact.
    NotFound,
    /// A malformed profile document or configuration text.
    Validation,
    /// A same-id collision, or removing the profile in use.
    Conflict,
    /// The operation is not available for this application type.
    Unsupported,
}

/// A named configuration bundle for one client application.
#[derive(Debug, PartialEq)]
pub struct Provider {
    pub id: String,
    pub name: String,
    pub settings_config: Json,
    pub alternative_urls: Option<Vec<String>>,
}

pub struct ProviderV {
    pub id: Seq<char>,
    pub name: Seq<char>,
    pub settings: JsonV,
    pub urls: Option<Seq<Seq<char>>>,
}

pub open spec fn urls_view(u: Option<Vec<String>>) -> Option<Seq<Seq<char>>> {
    match u {
        Some(v) => Some(v@.map_values(|s: String| s@)),
        None => None,
    }
}

impl View for Provider {
    type V = ProviderV;

    open spec fn view(&self) -> ProviderV {
        ProviderV {
            id: self.id@,
            name: self.name@,
            settings: self.settings_config@,
            urls: urls_view(self.alternative_urls),
        }
    }
}

/// The profiles of one application type and the id of the active one
/// (empty when none is active).
#[derive(Debug, PartialEq)]
pub struct ProviderManager {
    pub providers: Vec<Provider>,
    pub current: String,
}

pub struct ManagerV {
    pub providers: Seq<ProviderV>,
    pub current: Seq<char>,
}

impl View for ProviderManager {
    type V = ManagerV;

    open spec fn view(&self) -> ManagerV {
        ManagerV { providers: self.providers@.map_values(|p: Provider| p@), current: self.current@ }
    }
}

pub open spec fn pviews(v: Seq<Provider>) -> Seq<ProviderV> {
    v.map_values(|p: Provider| p@)
}

/// Profiles as id/settings pairs, so that lookups share the object rules.
pub open spec fn pkeys(ps: Seq<ProviderV>) -> ObjV {
    Seq::new(ps.len(), |i: int| (ps[i].id, ps[i].settings))
}

/// Index of the profile with id `id`, or -1.
pub open spec fn pfind(ps: Seq<ProviderV>, id: Seq<char>) -> int {
    find_key(pkeys(ps), id)
}

impl ManagerV {
    /// Ids are unique, and a non-empty `current` names a stored profile.
    pub open spec fn wf(self) -> bool {
        &&& forall|i: int, j: int|
            0 <= i < j < self.providers.len() ==> self.providers[i].id != self.providers[j].id
        &&& (self.current.len() == 0 || pfind(self.providers, self.current) >= 0)
    }
}

pub open spec fn with_settings(ps: Seq<ProviderV>, i: int, s: JsonV) -> Seq<ProviderV> {
    ps.update(i, ProviderV { settings: s, ..ps[i] })
}

/// `ps` with `p` replacing the profile of the same id, or appended.
pub open spec fn upsert_spec(ps: Seq<ProviderV>, p: ProviderV) -> Seq<ProviderV> {
    let i = pfind(ps, p.id);
    if i >= 0 {
        ps.update(i, p)
    } else {
        ps.push(p)
    }
}

pub open spec fn key_env() -> Seq<char> {
    "env"@
}

pub open spec fn key_token() -> Seq<char> {
    "ANTHROPIC_AUTH_TOKEN"@
}

pub open spec fn key_url() -> Seq<char> {
    "ANTHROPIC_BASE_URL"@
}

pub open spec fn key_auth() -> Seq<char> {
    "auth"@
}

pub open spec fn key_config() -> Seq<char> {
    "config"@
}

pub open spec fn key_api_key() -> Seq<char> {
    "apiKey"@
}

/// Whether the text is accepted by the TOML parser.
pub uninterp spec fn toml_accepts(text: Seq<char>) -> bool;

/// Relies on toml::from_str into a toml::Table: it succeeds exactly on
/// syntactically valid TOML documents, and depends on the text alone.
#[verifier::external_body]
fn toml_text_ok(text: &str) -> (r: bool)
    ensures
        r == toml_accepts(text@),
{
    toml::from_str::<toml::Table>(text).is_ok()
}

/// The shape rules of a profile's settings document for each application type.
pub open spec fn settings_valid(app: AppType, s: JsonV) -> bool {
    match app {
        AppType::Claude => s is Obj,
        AppType::Droid => member(s, key_api_key()) matches Some(JsonV::Str(_)),
        AppType::Codex => {
            &&& s is Obj
            &&& member(s, key_auth()) matches Some(a) && a is Obj
            &&& match member(s, key_config()) {
                None => true,
                Some(JsonV::Null) => true,
                Some(JsonV::Str(t)) => toml_accepts(t),
                Some(_) => false,
            }
        },
    }
}

/// Checks the settings document of `provider` against the rules of `app_type`.
pub fn validate_provider_settings(app_type: &AppType, provider: &Provider) -> (r: Result<
    (),
    CoreError,
>)
    ensures
        r is Ok <==> settings_valid(*app_type, provider.settings_config@),
        r matches Err(e) ==> e == CoreError::Validation,
{
    let s = &provider.settings_config;
    match app_type {
        AppType::Claude => {
            if let Json::Obj(_) = s {
                Ok(())
            } else {
                Err(CoreError::Validation)
            }
        },
        AppType::Droid => match get_member(s, &"apiKey".to_owned()) {
            Some(Json::Str(_)) => Ok(()),
            _ => Err(CoreError::Validation),
        },
        AppType::Codex => {
            if let Json::Obj(_) = s {
            } else {
                return Err(CoreError::Validation);
            }
            match get_member(s, &"auth".to_owned()) {
                Some(Json::Obj(_)) => {},
                _ => return Err(CoreError::Validation),
            }
            match get_member(s, &"config".to_owned()) {
                None => Ok(()),
                Some(Json::Null) => Ok(()),
                Some(Json::Str(t)) => {
                    if toml_text_ok(t.as_str()) {
                        Ok(())
                    } else {
                        Err(CoreError::Validation)
                    }
                },
                Some(_) => Err(CoreError::Validation),
            }
        },
    }
}


/// The live artifacts of the credential-document application type.
#[derive(Debug, PartialEq)]
pub struct CodexLive {
    pub auth: Json,
    pub config: String,
}

/// What was read from one application's live configuration.
#[derive(Debug, PartialEq)]
pub enum LiveConfig {
    /// The settings document; `None` when it is absent or unreadable.
    Claude(Option<Json>),
    /// The credential document and configuration text; `None` when the
    /// credential document is absent.
    Codex(Option<CodexLive>),
    /// The credential environment variable, when set.
    Droid(Option<String>),
}

/// What is to be written to one application's live configuration.
#[derive(Debug, PartialEq)]
pub enum LiveWrite {
    /// The whole settings document.
    Claude(Json),
    /// The credential document, and the configuration text when there is one.
    Codex(Json, Option<String>),
    /// The credential environment variable's value; `None` clears it.
    Droid(Option<String>),
}

/// The application type a live configuration belongs to.
pub open spec fn live_app(live: LiveConfig) -> AppType {
    match live {
        LiveConfig::Claude(_) => AppType::Claude,
        LiveConfig::Codex(_) => AppType::Codex,
        LiveConfig::Droid(_) => AppType::Droid,
    }
}

pub enum LiveWriteV {
    Claude(JsonV),
    Codex(JsonV, Option<Seq<char>>),
    Droid(Option<Seq<char>>),
}

pub open spec fn opt_str(o: Option<String>) -> Option<Seq<char>> {
    match o {
        Some(s) => Some(s@),
        None => None,
    }
}

pub open spec fn opt_jv(o: Option<Json>) -> Option<JsonV> {
    match o {
        Some(j) => Some(j@),
        None => None,
    }
}

impl View for LiveWrite {
    type V = LiveWriteV;

    open spec fn view(&self) -> LiveWriteV {
        match self {
            LiveWrite::Claude(d) => LiveWriteV::Claude(d@),
            LiveWrite::Codex(a, c) => LiveWriteV::Codex(a@, opt_str(*c)),
            LiveWrite::Droid(k) => LiveWriteV::Droid(opt_str(*k)),
        }
    }
}

pub open spec fn empty_obj() -> JsonV {
    JsonV::Obj(Seq::empty())
}

/// The live settings document, an empty object when there is none.
pub open spec fn doc_or_empty(d: Option<Json>) -> JsonV {
    match d {
        Some(j) => j@,
        None => empty_obj(),
    }
}

/// The `env` block of a document's entries as entries: an absent block counts
/// as empty; `None` when it is present but not an object.
pub open spec fn env_entries(o: ObjV) -> Option<ObjV> {
    match get(o, key_env()) {
        None => Some(Seq::empty()),
        Some(JsonV::Obj(e)) => Some(e),
        Some(_) => None,
    }
}

/// The two owned `env` values of a profile, merged into a live `env` block.
pub open spec fn merge_env(e: ObjV, penv: JsonV) -> ObjV {
    let a = match member(penv, key_token()) {
        Some(t) => put(e, key_token(), t),
        None => e,
    };
    match member(penv, key_url()) {
        Some(u) => put(a, key_url(), u),
        None => a,
    }
}

/// The live settings document after projecting a profile's owned fields;
/// every other key stays as it was.
pub open spec fn claude_project(doc: JsonV, settings: JsonV) -> JsonV {
    match member(settings, key_env()) {
        None => doc,
        Some(penv) => match doc {
            JsonV::Obj(o) => match env_entries(o) {
                Some(e) => JsonV::Obj(put(o, key_env(), JsonV::Obj(merge_env(e, penv)))),
                None => doc,
            },
            _ => doc,
        },
    }
}

/// The owned subset of a live configuration, stored into the outgoing profile.
pub open spec fn backfill_spec(live: LiveConfig) -> Option<JsonV> {
    match live {
        LiveConfig::Claude(Some(d)) => match member(d@, key_env()) {
            Some(e) => Some(JsonV::Obj(seq![(key_env(), e)])),
            None => None,
        },
        LiveConfig::Codex(Some(c)) => Some(
            JsonV::Obj(seq![(key_auth(), c.auth@), (key_config(), JsonV::Str(c.config@))]),
        ),
        LiveConfig::Droid(Some(k)) => Some(JsonV::Obj(seq![(key_api_key(), JsonV::Str(k@))])),
        _ => None,
    }
}

/// What a profile's settings project into the live configuration.
pub open spec fn project_spec(settings: JsonV, live: LiveConfig) -> Result<LiveWriteV, CoreError> {
    match live {
        LiveConfig::Claude(d) => Ok(LiveWriteV::Claude(claude_project(doc_or_empty(d), settings))),
        LiveConfig::Codex(_) => match member(settings, key_auth()) {
            None => Err(CoreError::Validation),
            Some(a) => match member(settings, key_config()) {
                Some(JsonV::Str(t)) => if toml_accepts(t) {
                    Ok(LiveWriteV::Codex(a, Some(t)))
                } else {
                    Err(CoreError::Validation)
                },
                _ => Ok(LiveWriteV::Codex(a, None)),
            },
        },
        LiveConfig::Droid(_) => match member(settings, key_api_key()) {
            Some(JsonV::Str(k)) => Ok(LiveWriteV::Droid(Some(k))),
            _ => Err(CoreError::Validation),
        },
    }
}

pub open spec fn write_result_view(r: Result<LiveWrite, CoreError>) -> Result<LiveWriteV, CoreError> {
    match r {
        Ok(w) => Ok(w@),
        Err(e) => Err(e),
    }
}

/// An object with no entries.
pub fn empty_object() -> (r: Json)
    ensures
        r@ == empty_obj(),
{
    let v: Vec<(String, Json)> = Vec::new();
    assert(ev(v@) =~= Seq::<(Seq<char>, JsonV)>::empty());
    Json::Obj(v)
}

/// Merges the owned `env` values of a profile into a live `env` block.
pub fn merge_owned_env(e: &mut Vec<(String, Json)>, penv: &Json)
    ensures
        ev(final(e)@) == merge_env(ev(old(e)@), penv@),
{
    let tk = "ANTHROPIC_AUTH_TOKEN".to_owned();
    if let Some(t) = get_member(penv, &tk) {
        obj_put(e, tk, json_clone(t));
    }
    let uk = "ANTHROPIC_BASE_URL".to_owned();
    if let Some(u) = get_member(penv, &uk) {
        obj_put(e, uk, json_clone(u));
    }
}

/// The entries of the `env` block of `o`; see [`env_entries`].
fn env_entries_of(o: &Vec<(String, Json)>) -> (r: Option<Vec<(String, Json)>>)
    ensures
        match r {
            Some(e) => env_entries(ev(o@)) == Some(ev(e@)),
            None => env_entries(ev(o@)) is None,
        },
{
    match obj_find(o, &"env".to_owned()) {
        None => Some(Vec::new()),
        Some(i) => match &o[i].1 {
            Json::Obj(e) => Some(entries_clone(e)),
            _ => None,
        },
    }
}

/// Projects a profile's owned fields into the live settings document.
pub fn claude_project_doc(doc: Json, settings: &Json) -> (r: Json)
    ensures
        r@ == claude_project(doc@, settings@),
{
    let penv = match get_member(settings, &"env".to_owned()) {
        Some(p) => p,
        None => return doc,
    };
    match doc {
        Json::Obj(mut o) => match env_entries_of(&o) {
            Some(mut e) => {
                merge_owned_env(&mut e, penv);
                obj_put(&mut o, "env".to_owned(), Json::Obj(e));
                Json::Obj(o)
            },
            None => Json::Obj(o),
        },
        other => other,
    }
}

/// The owned subset of a live configuration.
pub fn backfill_from_live(live: &LiveConfig) -> (r: Option<Json>)
    ensures
        opt_jv(r) == backfill_spec(*live),
{
    match live {
        LiveConfig::Claude(Some(d)) => match get_member(d, &"env".to_owned()) {
            Some(e) => {
                let v = vec![("env".to_owned(), json_clone(e))];
                assert(ev(v@) =~= seq![(key_env(), e@)]);
                Some(Json::Obj(v))
            },
            None => None,
        },
        LiveConfig::Codex(Some(c)) => {
            let v = vec![
                ("auth".to_owned(), json_clone(&c.auth)),
                ("config".to_owned(), Json::Str(c.config.clone())),
            ];
            assert(ev(v@) =~= seq![(key_auth(), c.auth@), (key_config(), JsonV::Str(c.config@))]);
            Some(Json::Obj(v))
        },
        LiveConfig::Droid(Some(k)) => {
            let v = vec![("apiKey".to_owned(), Json::Str(k.clone()))];
            assert(ev(v@) =~= seq![(key_api_key(), JsonV::Str(k@))]);
            Some(Json::Obj(v))
        },
        _ => None,
    }
}

/// What a profile's settings project into the live configuration.
pub fn project_to_live(settings: &Json, live: LiveConfig) -> (r: Result<LiveWrite, CoreError>)
    ensures
        write_result_view(r) == project_spec(settings@, live),
{
    match live {
        LiveConfig::Claude(d) => {
            let doc = match d {
                Some(j) => j,
                None => empty_object(),
            };
            Ok(LiveWrite::Claude(claude_project_doc(doc, settings)))
        },
        LiveConfig::Codex(_) => {
            let a = match get_member(settings, &"auth".to_owned()) {
                Some(a) => json_clone(a),
                None => return Err(CoreError::Validation),
            };
            match get_member(settings, &"config".to_owned()) {
                Some(Json::Str(t)) => {
                    if toml_text_ok(t.as_str()) {
                        Ok(LiveWrite::Codex(a, Some(t.clone())))
                    } else {
                        Err(CoreError::Validation)
                    }
                },
                _ => Ok(LiveWrite::Codex(a, None)),
            }
        },
        LiveConfig::Droid(_) => match get_member(settings, &"apiKey".to_owned()) {
            Some(Json::Str(k)) => Ok(LiveWrite::Droid(Some(k.clone()))),
            _ => Err(CoreError::Validation),
        },
    }
}


/// Lookups of profiles depend on the ids alone.
pub proof fn lemma_same_ids(p1: Seq<ProviderV>, p2: Seq<ProviderV>, k: Seq<char>)
    requires
        p1.len() == p2.len(),
        forall|i: int| 0 <= i < p1.len() ==> p1[i].id == p2[i].id,
    ensures
        pfind(p1, k) == pfind(p2, k),
{
    lemma_find_same_keys(pkeys(p1), pkeys(p2), k);
}

/// A profile whose id occurs is found.
pub proof fn lemma_pfind_present(ps: Seq<ProviderV>, k: Seq<char>, j: int)
    requires
        0 <= j < ps.len(),
        ps[j].id == k,
    ensures
        0 <= pfind(ps, k) < ps.len(),
        ps[pfind(ps, k)].id == k,
{
    lemma_find_key(pkeys(ps), k);
    assert(pkeys(ps)[j].0 == k);
}

/// The settings document `{"env": ...}` holding a live document's `env` block
/// (an empty object when it has none).
pub open spec fn env_snapshot(doc: JsonV) -> JsonV {
    JsonV::Obj(
        seq![
            (key_env(), match member(doc, key_env()) {
                Some(e) => e,
                None => empty_obj(),
            }),
        ],
    )
}

/// Switching away from the active profile stores into it exactly the owned
/// fields read from the live configuration at that moment (so a later switch
/// back projects what was live, out-of-band edits included), and makes the
/// target active.
pub proof fn lemma_switch_backfills_outgoing(m: ManagerV, target: Seq<char>, live: LiveConfig)
    requires
        m.wf(),
        m.current.len() > 0,
        switch_spec(m, target, live) is Ok,
    ensures
        ({
            let b = switch_spec(m, target, live)->Ok_0.1;
            let m2 = commit_spec(m, target, b);
            &&& b == backfill_spec(live)
            &&& m2.current == target
            &&& m2.wf()
            &&& pfind(m2.providers, m.current) == pfind(m.providers, m.current)
            &&& (backfill_spec(live) matches Some(s) ==> m2.providers[pfind(m.providers, m.current)].settings == s)
            &&& (backfill_spec(live) is None ==> m2.providers == m.providers)
        }),
{
    let b = switch_spec(m, target, live)->Ok_0.1;
    let m2 = commit_spec(m, target, b);
    lemma_same_ids(m.providers, m2.providers, m.current);
    lemma_same_ids(m.providers, m2.providers, target);
    assert forall|a: int, c: int| 0 <= a < c < m2.providers.len() implies m2.providers[a].id
        != m2.providers[c].id by {
        assert(m2.providers[a].id == m.providers[a].id);
        assert(m2.providers[c].id == m.providers[c].id);
    }
}

/// Legacy profile copies absorbed into `ps`, in order: a copy whose id is
/// already stored is ignored (the store wins); the flag says whether any was added.
pub open spec fn absorb_spec(ps: Seq<ProviderV>, cs: Seq<ProviderV>) -> (Seq<ProviderV>, bool)
    decreases cs.len(),
{
    if cs.len() == 0 {
        (ps, false)
    } else {
        let (p0, ch) = absorb_spec(ps, cs.drop_last());
        if pfind(p0, cs.last().id) >= 0 {
            (p0, ch)
        } else {
            (p0.push(cs.last()), true)
        }
    }
}

/// The result of planning a switch: what to write live, and the settings to
/// store into the outgoing profile once that write has succeeded.
#[derive(Debug, PartialEq)]
pub struct SwitchPlan {
    pub write: LiveWrite,
    pub backfill: Option<Json>,
}

pub open spec fn switch_spec(m: ManagerV, id: Seq<char>, live: LiveConfig) -> Result<
    (LiveWriteV, Option<JsonV>),
    CoreError,
> {
    let i = pfind(m.providers, id);
    if i < 0 {
        Err(CoreError::NotFound)
    } else {
        match project_spec(m.providers[i].settings, live) {
            Err(e) => Err(e),
            Ok(w) => Ok((w, if m.current.len() > 0 { backfill_spec(live) } else { None })),
        }
    }
}

pub open spec fn plan_view(r: Result<SwitchPlan, CoreError>) -> Result<(LiveWriteV, Option<JsonV>), CoreError> {
    match r {
        Ok(p) => Ok((p.write@, opt_jv(p.backfill))),
        Err(e) => Err(e),
    }
}

/// The manager after a successful live write: the outgoing profile takes the
/// backfilled settings, and `id` becomes current.
pub open spec fn commit_spec(m: ManagerV, id: Seq<char>, b: Option<JsonV>) -> ManagerV {
    ManagerV {
        providers: match b {
            Some(s) => if m.current.len() > 0 {
                with_settings(m.providers, pfind(m.providers, m.current), s)
            } else {
                m.providers
            },
            None => m.providers,
        },
        current: id,
    }
}

/// Whether a profile may be stored, and what must be written live first.
pub open spec fn save_spec(
    m: ManagerV,
    app: AppType,
    p: ProviderV,
    must_exist: bool,
    live: LiveConfig,
) -> Result<Option<LiveWriteV>, CoreError> {
    if !settings_valid(app, p.settings) {
        Err(CoreError::Validation)
    } else if must_exist && pfind(m.providers, p.id) < 0 {
        Err(CoreError::NotFound)
    } else if m.current == p.id {
        match project_spec(p.settings, live) {
            Ok(w) => Ok(Some(w)),
            Err(e) => Err(e),
        }
    } else {
        Ok(None)
    }
}

pub open spec fn opt_write_view(r: Result<Option<LiveWrite>, CoreError>) -> Result<Option<LiveWriteV>, CoreError> {
    match r {
        Ok(Some(w)) => Ok(Some(w@)),
        Ok(None) => Ok(None),
        Err(e) => Err(e),
    }
}

/// An `env` block without the two values the tool owns.
pub open spec fn drop_owned(e: ObjV) -> ObjV
    decreases e.len(),
{
    if e.len() == 0 {
        e
    } else {
        let r = drop_owned(e.drop_last());
        if e.last().0 == key_token() || e.last().0 == key_url() {
            r
        } else {
            r.push(e.last())
        }
    }
}

/// The live settings document with the owned `env` values removed; other
/// `env` keys stay. An `env` that is not an object becomes an empty one.
pub open spec fn claude_cleared(doc: JsonV) -> JsonV {
    match doc {
        JsonV::Obj(o) => match env_entries(o) {
            Some(e) => JsonV::Obj(put(o, key_env(), JsonV::Obj(drop_owned(e)))),
            None => JsonV::Obj(put(o, key_env(), empty_obj())),
        },
        _ => doc,
    }
}

/// What deactivating the current profile writes live.
pub open spec fn disable_spec(live: LiveConfig) -> Result<LiveWriteV, CoreError> {
    match live {
        LiveConfig::Claude(d) => Ok(LiveWriteV::Claude(claude_cleared(doc_or_empty(d)))),
        LiveConfig::Codex(_) => Err(CoreError::Unsupported),
        LiveConfig::Droid(_) => Ok(LiveWriteV::Droid(None)),
    }
}

/// The live settings document with its endpoint set to `url`.
pub open spec fn set_url_doc(doc: JsonV, url: Seq<char>) -> JsonV {
    match doc {
        JsonV::Obj(o) => match env_entries(o) {
            Some(e) => JsonV::Obj(put(o, key_env(), JsonV::Obj(put(e, key_url(), JsonV::Str(url))))),
            None => doc,
        },
        _ => doc,
    }
}

/// A profile's settings with the endpoint of an existing `env` object set to `url`.
pub open spec fn set_url_settings(s: JsonV, url: Seq<char>) -> JsonV {
    match s {
        JsonV::Obj(o) => match get(o, key_env()) {
            Some(JsonV::Obj(e)) => JsonV::Obj(
                put(o, key_env(), JsonV::Obj(put(e, key_url(), JsonV::Str(url)))),
            ),
            _ => s,
        },
        _ => s,
    }
}

/// What changing the active profile's endpoint writes live.
pub open spec fn endpoint_spec(m: ManagerV, url: Seq<char>, live: Option<Json>) -> Result<
    JsonV,
    CoreError,
> {
    let i = pfind(m.providers, m.current);
    if m.current.len() == 0 || i < 0 {
        Err(CoreError::NotFound)
    } else {
        match m.providers[i].urls {
            None => Err(CoreError::Validation),
            Some(us) => if us.contains(url) {
                Ok(set_url_doc(doc_or_empty(live), url))
            } else {
                Err(CoreError::Validation)
            },
        }
    }
}

pub open spec fn json_result_view(r: Result<Json, CoreError>) -> Result<JsonV, CoreError> {
    match r {
        Ok(j) => Ok(j@),
        Err(e) => Err(e),
    }
}

/// The settings of the profile made from the live configuration when none exists.
pub open spec fn default_settings(live: LiveConfig) -> Result<JsonV, CoreError> {
    match live {
        LiveConfig::Claude(Some(d)) => Ok(env_snapshot(d@)),
        LiveConfig::Codex(Some(c)) => if toml_accepts(c.config@) {
            Ok(JsonV::Obj(seq![(key_auth(), c.auth@), (key_config(), JsonV::Str(c.config@))]))
        } else {
            Err(CoreError::Validation)
        },
        LiveConfig::Droid(Some(k)) => Ok(JsonV::Obj(seq![(key_api_key(), JsonV::Str(k@))])),
        _ => Err(CoreError::NotFound),
    }
}

pub open spec fn default_id() -> Seq<char> {
    "default"@
}

/// An `env` block without the two values the tool owns.
pub fn drop_owned_entries(v: &Vec<(String, Json)>) -> (r: Vec<(String, Json)>)
    ensures
        ev(r@) == drop_owned(ev(v@)),
{
    let tk = "ANTHROPIC_AUTH_TOKEN".to_owned();
    let uk = "ANTHROPIC_BASE_URL".to_owned();
    let mut out: Vec<(String, Json)> = Vec::new();
    let mut i: usize = 0;
    while i < v.len()
        invariant
            i <= v.len(),
            tk@ == key_token(),
            uk@ == key_url(),
            ev(out@) == drop_owned(ev(v@).subrange(0, i as int)),
        decreases v.len() - i,
    {
        let ghost pre = ev(v@).subrange(0, i as int);
        let ghost nxt = ev(v@).subrange(0, i + 1);
        assert(nxt.drop_last() =~= pre);
        if v[i].0 != tk && v[i].0 != uk {
            out.push((v[i].0.clone(), json_clone(&v[i].1)));
            assert(ev(out@) =~= drop_owned(pre).push(nxt.last()));
        }
        i = i + 1;
    }
    assert(ev(v@).subrange(0, v.len() as int) =~= ev(v@));
    out
}

/// What deactivating writes live: the owned `env` values removed, or the
/// variable cleared; refused where credentials may not be empty.
pub fn plan_disable(live: LiveConfig) -> (r: Result<LiveWrite, CoreError>)
    ensures
        write_result_view(r) == disable_spec(live),
{
    match live {
        LiveConfig::Claude(d) => {
            let doc = match d {
                Some(j) => j,
                None => empty_object(),
            };
            match doc {
                Json::Obj(mut o) => {
                    let cleared = match env_entries_of(&o) {
                        Some(e) => Json::Obj(drop_owned_entries(&e)),
                        None => empty_object(),
                    };
                    obj_put(&mut o, "env".to_owned(), cleared);
                    Ok(LiveWrite::Claude(Json::Obj(o)))
                },
                other => Ok(LiveWrite::Claude(other)),
            }
        },
        LiveConfig::Codex(_) => Err(CoreError::Unsupported),
        LiveConfig::Droid(_) => Ok(LiveWrite::Droid(None)),
    }
}

/// The live settings document with its endpoint set to `url`.
pub fn set_url_in_doc(doc: Json, url: &String) -> (r: Json)
    ensures
        r@ == set_url_doc(doc@, url@),
{
    match doc {
        Json::Obj(mut o) => match env_entries_of(&o) {
            Some(mut e) => {
                obj_put(&mut e, "ANTHROPIC_BASE_URL".to_owned(), Json::Str(url.clone()));
                obj_put(&mut o, "env".to_owned(), Json::Obj(e));
                Json::Obj(o)
            },
            None => Json::Obj(o),
        },
        other => other,
    }
}

/// A profile's settings with the endpoint of its `env` object set to `url`.
pub fn set_url_in_settings(s: Json, url: &String) -> (r: Json)
    ensures
        r@ == set_url_settings(s@, url@),
{
    match s {
        Json::Obj(mut o) => match obj_find(&o, &"env".to_owned()) {
            Some(i) => match &o[i].1 {
                Json::Obj(e) => {
                    let mut e2 = entries_clone(e);
                    obj_put(&mut e2, "ANTHROPIC_BASE_URL".to_owned(), Json::Str(url.clone()));
                    obj_put(&mut o, "env".to_owned(), Json::Obj(e2));
                    Json::Obj(o)
                },
                _ => Json::Obj(o),
            },
            None => Json::Obj(o),
        },
        other => other,
    }
}

/// The `{"env": ...}` settings document of a live settings document.
pub fn env_snapshot_of(doc: &Json) -> (r: Json)
    ensures
        r@ == env_snapshot(doc@),
{
    let e = match get_member(doc, &"env".to_owned()) {
        Some(e) => json_clone(e),
        None => empty_object(),
    };
    let v = vec![("env".to_owned(), e)];
    assert(ev(v@) =~= seq![(key_env(), e@)]);
    Json::Obj(v)
}

impl ProviderManager {
    /// A manager with no profiles and none active.
    pub fn new() -> (r: Self)
        ensures
            r@.providers.len() == 0,
            r@.current.len() == 0,
            r@.wf(),
    {
        ProviderManager { providers: Vec::new(), current: String::new() }
    }

    /// Index of the profile with id `id`.
    pub fn find(&self, id: &String) -> (r: Option<usize>)
        ensures
            match r {
                Some(i) => pfind(self@.providers, id@) == i as int && i < self.providers.len(),
                None => pfind(self@.providers, id@) == -1,
            },
    {
        let mut i: usize = 0;
        while i < self.providers.len()
            invariant
                i <= self.providers.len(),
                forall|m: int| 0 <= m < i ==> pkeys(self@.providers)[m].0 != id@,
            decreases self.providers.len() - i,
        {
            if self.providers[i].id == *id {
                proof {
                    assert(is_first(pkeys(self@.providers), id@, i as int));
                    lemma_first_unique(pkeys(self@.providers), id@, i as int);
                }
                return Some(i);
            }
            i = i + 1;
        }
        proof {
            lemma_absent(pkeys(self@.providers), id@);
        }
        None
    }

    fn set_settings(&mut self, i: usize, s: Json)
        requires
            i < old(self).providers.len(),
        ensures
            final(self)@.providers == with_settings(old(self)@.providers, i as int, s@),
            final(self)@.current == old(self)@.current,
    {
        let mut p = self.providers.remove(i);
        p.settings_config = s;
        self.providers.insert(i, p);
        assert(self@.providers =~= with_settings(old(self)@.providers, i as int, s@));
    }

    /// Plans a switch to profile `id`: the live write that projects its owned
    /// fields, and the backfill of the outgoing profile from `live`.
    /// Nothing changes until [`Self::commit_switch`].
    pub fn plan_switch(&self, id: &String, live: LiveConfig) -> (r: Result<SwitchPlan, CoreError>)
        requires
            self@.wf(),
        ensures
            plan_view(r) == switch_spec(self@, id@, live),
    {
        let i = match self.find(id) {
            Some(i) => i,
            None => return Err(CoreError::NotFound),
        };
        let backfill = if !self.current.as_str().is_empty() {
            backfill_from_live(&live)
        } else {
            None
        };
        proof {
            assert(self.current@.len() > 0 <==> self@.current.len() > 0);
        }
        match project_to_live(&self.providers[i].settings_config, live) {
            Ok(w) => Ok(SwitchPlan { write: w, backfill }),
            Err(e) => Err(e),
        }
    }

    /// Completes a switch after its live write succeeded.
    pub fn commit_switch(&mut self, id: String, backfill: Option<Json>)
        requires
            old(self)@.wf(),
            pfind(old(self)@.providers, id@) >= 0,
        ensures
            final(self)@ == commit_spec(old(self)@, id@, opt_jv(backfill)),
            final(self)@.wf(),
    {
        if let Some(b) = backfill {
            if !self.current.as_str().is_empty() {
                let cur = self.current.clone();
                match self.find(&cur) {
                    Some(ci) => {
                        self.set_settings(ci, b);
                    },
                    None => {},
                }
            }
        }
        self.current = id;
        proof {
            lemma_same_ids(old(self)@.providers, self@.providers, id@);
            assert forall|a: int, b: int| 0 <= a < b < self@.providers.len() implies self@.providers[a].id
                != self@.providers[b].id by {
                assert(self@.providers[a].id == old(self)@.providers[a].id);
                assert(self@.providers[b].id == old(self)@.providers[b].id);
            }
            assert(self@ == commit_spec(old(self)@, id@, opt_jv(backfill)));
        }
    }

    /// Plans storing `provider` (requiring it to exist already when
    /// `must_exist`): when it is the active profile, its owned fields must be
    /// written live first.
    pub fn plan_save_provider(
        &self,
        app_type: &AppType,
        provider: &Provider,
        must_exist: bool,
        live: LiveConfig,
    ) -> (r: Result<Option<LiveWrite>, CoreError>)
        requires
            live_app(live) == *app_type,
        ensures
            opt_write_view(r) == save_spec(self@, *app_type, provider@, must_exist, live),
    {
        validate_provider_settings(app_type, provider)?;
        if must_exist {
            if self.find(&provider.id).is_none() {
                return Err(CoreError::NotFound);
            }
        }
        if self.current == provider.id {
            match project_to_live(&provider.settings_config, live) {
                Ok(w) => Ok(Some(w)),
                Err(e) => Err(e),
            }
        } else {
            Ok(None)
        }
    }

    /// Stores `provider`, replacing the profile with the same id.
    pub fn insert_provider(&mut self, provider: Provider)
        requires
            old(self)@.wf(),
        ensures
            final(self)@.providers == upsert_spec(old(self)@.providers, provider@),
            final(self)@.current == old(self)@.current,
            final(self)@.wf(),
    {
        let ghost pv = provider@;
        match self.find(&provider.id) {
            Some(i) => {
                self.providers.set(i, provider);
                proof {
                    assert(self@.providers =~= old(self)@.providers.update(i as int, pv));
                    lemma_same_ids(old(self)@.providers, self@.providers, self@.current);
                    assert forall|a: int, b: int| 0 <= a < b < self@.providers.len() implies self@.providers[a].id
                        != self@.providers[b].id by {
                        assert(self@.providers[a].id == old(self)@.providers[a].id);
                        assert(self@.providers[b].id == old(self)@.providers[b].id);
                    }
                }
            },
            None => {
                self.providers.push(provider);
                proof {
                    let ops = old(self)@.providers;
                    let ps = self@.providers;
                    assert(ps =~= ops.push(pv));
                    lemma_find_key(pkeys(ops), pv.id);
                    assert forall|a: int| 0 <= a < ops.len() implies ops[a].id != pv.id by {
                        assert(pkeys(ops)[a].0 == ops[a].id);
                    }
                    if self@.current.len() > 0 {
                        let j = pfind(ops, self@.current);
                        lemma_pfind_present(ops, self@.current, pfind(ops, self@.current));
                        lemma_pfind_present(ps, self@.current, j);
                    }
                }
            },
        }
    }

    /// Removes the profile `id`; the active profile cannot be removed.
    pub fn delete_provider(&mut self, id: &String) -> (r: Result<Provider, CoreError>)
        requires
            old(self)@.wf(),
        ensures
            final(self)@.wf(),
            old(self)@.current == id@ ==> r == Err::<Provider, CoreError>(CoreError::Conflict),
            old(self)@.current != id@ && pfind(old(self)@.providers, id@) < 0 ==> r == Err::<
                Provider,
                CoreError,
            >(CoreError::NotFound),
            old(self)@.current != id@ && pfind(old(self)@.providers, id@) >= 0 ==> r is Ok,
            r is Err ==> final(self)@ == old(self)@,
            r matches Ok(p) ==> {
                let i = pfind(old(self)@.providers, id@);
                &&& old(self)@.current != id@
                &&& i >= 0
                &&& p@ == old(self)@.providers[i]
                &&& final(self)@.providers == old(self)@.providers.remove(i)
                &&& final(self)@.current == old(self)@.current
            },
    {
        if self.current == *id {
            return Err(CoreError::Conflict);
        }
        let i = match self.find(id) {
            Some(i) => i,
            None => return Err(CoreError::NotFound),
        };
        let p = self.providers.remove(i);
        proof {
            let ops = old(self)@.providers;
            let ps = self@.providers;
            assert(ps =~= ops.remove(i as int));
            if self@.current.len() > 0 {
                let j = pfind(ops, self@.current);
                lemma_pfind_present(ops, self@.current, j);
                assert(j != i);
                if j < i {
                    assert(ps[j].id == self@.current);
                    lemma_pfind_present(ps, self@.current, j);
                } else {
                    assert(ps[j - 1].id == self@.current);
                    lemma_pfind_present(ps, self@.current, j - 1);
                }
            }
            assert forall|a: int, b: int| 0 <= a < b < ps.len() implies ps[a].id != ps[b].id by {
                if a >= i {
                    assert(ps[a] == ops[a + 1]);
                }
                if b >= i {
                    assert(ps[b] == ops[b + 1]);
                }
            }
        }
        Ok(p)
    }

    /// Plans changing the active profile's endpoint to `url`, which must be
    /// one of its alternative endpoints: returns the live settings document to write.
    pub fn plan_switch_endpoint(&self, url: &String, live: Option<Json>) -> (r: Result<Json, CoreError>)
        requires
            self@.wf(),
        ensures
            json_result_view(r) == endpoint_spec(self@, url@, live),
    {
        if self.current.as_str().is_empty() {
            return Err(CoreError::NotFound);
        }
        let i = match self.find(&self.current) {
            Some(i) => i,
            None => return Err(CoreError::NotFound),
        };
        let urls = match &self.providers[i].alternative_urls {
            Some(u) => u,
            None => return Err(CoreError::Validation),
        };
        let ghost us = urls_view(self.providers[i as int].alternative_urls);
        let mut k: usize = 0;
        let mut found = false;
        while k < urls.len()
            invariant
                us == Some(urls@.map_values(|s: String| s@)),
                k <= urls.len(),
                found ==> us.unwrap().contains(url@),
                !found ==> forall|m: int| 0 <= m < k ==> urls[m]@ != url@,
            decreases urls.len() - k,
        {
            if urls[k] == *url {
                proof {
                    assert(us.unwrap()[k as int] == url@);
                }
                found = true;
            }
            k = k + 1;
        }
        if !found {
            proof {
                assert(!us.unwrap().contains(url@));
            }
            return Err(CoreError::Validation);
        }
        let doc = match live {
            Some(j) => j,
            None => empty_object(),
        };
        Ok(set_url_in_doc(doc, url))
    }

    /// Mirrors a changed endpoint into the active profile's stored settings.
    pub fn commit_switch_endpoint(&mut self, url: &String)
        requires
            old(self)@.wf(),
            old(self)@.current.len() > 0,
        ensures
            final(self)@.current == old(self)@.current,
            final(self)@.providers == ({
                let i = pfind(old(self)@.providers, old(self)@.current);
                with_settings(
                    old(self)@.providers,
                    i,
                    set_url_settings(old(self)@.providers[i].settings, url@),
                )
            }),
            final(self)@.wf(),
    {
        let cur = self.current.clone();
        match self.find(&cur) {
            Some(i) => {
                let s = json_clone(&self.providers[i].settings_config);
                let s2 = set_url_in_settings(s, url);
                self.set_settings(i, s2);
                proof {
                    lemma_same_ids(old(self)@.providers, self@.providers, self@.current);
                    assert forall|a: int, b: int| 0 <= a < b < self@.providers.len() implies self@.providers[a].id
                        != self@.providers[b].id by {
                        assert(self@.providers[a].id == old(self)@.providers[a].id);
                        assert(self@.providers[b].id == old(self)@.providers[b].id);
                    }
                }
            },
            None => {},
        }
    }

    /// Deactivates the current profile, after [`plan_disable`]'s write succeeded.
    pub fn commit_disable(&mut self)
        requires
            old(self)@.wf(),
        ensures
            final(self)@.providers == old(self)@.providers,
            final(self)@.current.len() == 0,
            final(self)@.wf(),
    {
        self.current = String::new();
    }

    /// Absorbs profiles parsed from legacy per-profile copies; returns whether
    /// any was added.
    pub fn absorb_legacy(&mut self, candidates: Vec<Provider>) -> (r: bool)
        requires
            old(self)@.wf(),
        ensures
            final(self)@.wf(),
            final(self)@.current == old(self)@.current,
            (final(self)@.providers, r) == absorb_spec(
                old(self)@.providers,
                pviews(candidates@),
            ),
    {
        let ghost cs = pviews(candidates@);
        let n = candidates.len();
        let mut rest = candidates;
        let mut changed = false;
        let mut i: usize = 0;
        while rest.len() > 0
            invariant
                i + rest.len() == cs.len(),
                cs.len() == n,
                pviews(rest@) == cs.subrange(i as int, cs.len() as int),
                self@.wf(),
                self@.current == old(self)@.current,
                (self@.providers, changed) == absorb_spec(old(self)@.providers, cs.subrange(0, i as int)),
            decreases rest.len(),
        {
            let ghost before = rest@;
            let c = rest.remove(0);
            let ghost cv = c@;
            assert(pviews(before)[0] == cv);
            assert(cv == cs[i as int]);
            assert(cs.subrange(0, i + 1).drop_last() =~= cs.subrange(0, i as int));
            assert forall|k: int| 0 <= k < rest.len() implies #[trigger] pviews(rest@)[k]
                == cs.subrange(i + 1, cs.len() as int)[k] by {
                assert(rest@[k] == before[k + 1]);
                assert(pviews(before)[k + 1] == cs.subrange(
                    i as int,
                    cs.len() as int,
                )[k + 1]);
            }
            assert(pviews(rest@) =~= cs.subrange(i + 1, cs.len() as int));
            if self.find(&c.id).is_none() {
                self.insert_provider(c);
                changed = true;
            }
            i = i + 1;
        }
        assert(cs.subrange(0, cs.len() as int) =~= cs);
        changed
    }

    /// When no profile exists yet, adopts the live configuration as the
    /// active profile `default`; returns whether one was added.
    pub fn import_default(&mut self, live: LiveConfig) -> (r: Result<bool, CoreError>)
        requires
            old(self)@.wf(),
        ensures
            final(self)@.wf(),
            old(self)@.providers.len() > 0 ==> r == Ok::<bool, CoreError>(false) && final(self)@ == old(self)@,
            old(self)@.providers.len() == 0 ==> match default_settings(live) {
                Err(e) => r == Err::<bool, CoreError>(e) && final(self)@ == old(self)@,
                Ok(s) => {
                    &&& r == Ok::<bool, CoreError>(true)
                    &&& final(self)@.providers == seq![
                        ProviderV { id: default_id(), name: default_id(), settings: s, urls: None },
                    ]
                    &&& final(self)@.current == default_id()
                },
            },
    {
        if self.providers.len() > 0 {
            return Ok(false);
        }
        let settings = match &live {
            LiveConfig::Claude(Some(d)) => env_snapshot_of(d),
            LiveConfig::Codex(Some(c)) => {
                if !toml_text_ok(c.config.as_str()) {
                    return Err(CoreError::Validation);
                }
                let v = vec![
                    ("auth".to_owned(), json_clone(&c.auth)),
                    ("config".to_owned(), Json::Str(c.config.clone())),
                ];
                assert(ev(v@) =~= seq![(key_auth(), c.auth@), (key_config(), JsonV::Str(c.config@))]);
                Json::Obj(v)
            },
            LiveConfig::Droid(Some(k)) => {
                let v = vec![("apiKey".to_owned(), Json::Str(k.clone()))];
                assert(ev(v@) =~= seq![(key_api_key(), JsonV::Str(k@))]);
                Json::Obj(v)
            },
            _ => return Err(CoreError::NotFound),
        };
        let p = Provider {
            id: "default".to_owned(),
            name: "default".to_owned(),
            settings_config: settings,
            alternative_urls: None,
        };
        self.providers.push(p);
        self.current = "default".to_owned();
        proof {
            assert(self@.providers =~= seq![
                ProviderV { id: default_id(), name: default_id(), settings: settings@, urls: None },
            ]);
            lemma_pfind_present(self@.providers, default_id(), 0);
        }
        Ok(true)
    }

    /// Refreshes the active profile's settings from the live settings document.
    pub fn sync_current_from_live(&mut self, live: &LiveConfig) -> (r: Result<(), CoreError>)
        requires
            old(self)@.wf(),
        ensures
            final(self)@.wf(),
            final(self)@.current == old(self)@.current,
            match *live {
                LiveConfig::Claude(None) => {
                    &&& r == Err::<(), CoreError>(CoreError::NotFound)
                    &&& final(self)@ == old(self)@
                },
                LiveConfig::Claude(Some(d)) => {
                    &&& r is Ok
                    &&& final(self)@.providers == if old(self)@.current.len() > 0 {
                        with_settings(
                            old(self)@.providers,
                            pfind(old(self)@.providers, old(self)@.current),
                            env_snapshot(d@),
                        )
                    } else {
                        old(self)@.providers
                    }
                },
                _ => r is Ok && final(self)@ == old(self)@,
            },
    {
        match live {
            LiveConfig::Claude(None) => Err(CoreError::NotFound),
            LiveConfig::Claude(Some(d)) => {
                if !self.current.as_str().is_empty() {
                    let cur = self.current.clone();
                    match self.find(&cur) {
                        Some(i) => {
                            let s = env_snapshot_of(d);
                            self.set_settings(i, s);
                            proof {
                                lemma_same_ids(old(self)@.providers, self@.providers, self@.current);
                                assert forall|a: int, b: int|
                                    0 <= a < b < self@.providers.len() implies self@.providers[a].id
                                    != self@.providers[b].id by {
                                    assert(self@.providers[a].id == old(self)@.providers[a].id);
                                    assert(self@.providers[b].id == old(self)@.providers[b].id);
                                }
                            }
                        },
                        None => {},
                    }
                }
                Ok(())
            },
            _ => Ok(()),
        }
    }
}


/// The persisted store: the profiles of every application type.
#[derive(Debug, PartialEq)]
pub struct Store {
    pub claude: ProviderManager,
    pub codex: ProviderManager,
    pub droid: ProviderManager,
}

impl Store {
    /// A store with no profiles.
    pub fn new() -> (r: Self)
        ensures
            r.wf(),
            r.claude@.providers.len() == 0,
            r.codex@.providers.len() == 0,
            r.droid@.providers.len() == 0,
    {
        Store {
            claude: ProviderManager::new(),
            codex: ProviderManager::new(),
            droid: ProviderManager::new(),
        }
    }

    pub open spec fn wf(&self) -> bool {
        self.claude@.wf() && self.codex@.wf() && self.droid@.wf()
    }

    /// The profiles of `app_type`.
    pub fn get_manager(&self, app_type: AppType) -> (r: &ProviderManager)
        ensures
            *r == match app_type {
                AppType::Claude => self.claude,
                AppType::Codex => self.codex,
                AppType::Droid => self.droid,
            },
    {
        match app_type {
            AppType::Claude => &self.claude,
            AppType::Codex => &self.codex,
            AppType::Droid => &self.droid,
        }
    }
}

impl ProviderManager {
    /// The id of the active profile; empty when none is active.
    pub fn get_current_provider(&self) -> (r: String)
        ensures
            r@ == self@.current,
    {
        self.current.clone()
    }

    /// The stored profiles, in order.
    pub fn get_providers(&self) -> (r: &Vec<Provider>)
        ensures
            r@.map_values(|p: Provider| p@) == self@.providers,
    {
        &self.providers
    }
}

} // verus!
