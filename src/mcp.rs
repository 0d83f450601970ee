//! Shared service definitions, enabled per application, projected into the
//! live configuration.

use vstd::prelude::*;
use crate::json::{
    entries_clone, ev, find_key, get, is_first, json_clone, json_eq, jv, lemma_absent,
    lemma_find_key, lemma_find_push, lemma_find_same_keys, lemma_first_unique, lemma_obj_view, obj_find, obj_put,
    put, Json, JsonV, ObjV,
};
use crate::store::CoreError;

verus! {

broadcast use lemma_obj_view;

/// One service definition of an application's scope.
#[derive(Debug, PartialEq)]
pub struct McpServer {
    pub id: String,
    pub spec: Json,
    pub enabled: bool,
}

pub struct ServerV {
    pub id: Seq<char>,
    pub spec: JsonV,
    pub enabled: bool,
}

impl View for McpServer {
    type V = ServerV;

    open spec fn view(&self) -> ServerV {
        ServerV { id: self.id@, spec: self.spec@, enabled: self.enabled }
    }
}

/// The service definitions of one application's scope, in insertion order.
#[derive(Debug, PartialEq)]
pub struct McpRegistry {
    pub servers: Vec<McpServer>,
}

impl View for McpRegistry {
    type V = Seq<ServerV>;

    open spec fn view(&self) -> Seq<ServerV> {
        self.servers@.map_values(|s: McpServer| s@)
    }
}

/// Ids are unique.
pub open spec fn reg_wf(r: Seq<ServerV>) -> bool {
    forall|i: int, j: int| 0 <= i < j < r.len() ==> r[i].id != r[j].id
}

pub open spec fn skeys(r: Seq<ServerV>) -> ObjV {
    Seq::new(r.len(), |i: int| (r[i].id, r[i].spec))
}

/// Index of the definition with id `id`, or -1.
pub open spec fn sfind(r: Seq<ServerV>, id: Seq<char>) -> int {
    find_key(skeys(r), id)
}

/// Decoration keys that only the user interface reads.
pub open spec fn is_ui_key(k: Seq<char>) -> bool {
    ||| k == "enabled"@
    ||| k == "source"@
    ||| k == "id"@
    ||| k == "name"@
    ||| k == "description"@
    ||| k == "tags"@
    ||| k == "homepage"@
    ||| k == "docs"@
}

/// The entries without decoration keys.
pub open spec fn strip(o: ObjV) -> ObjV
    decreases o.len(),
{
    if o.len() == 0 {
        o
    } else {
        let r = strip(o.drop_last());
        if is_ui_key(o.last().0) {
            r
        } else {
            r.push(o.last())
        }
    }
}

/// A definition as it is stored and projected: an object, unwrapped from a
/// `server` envelope when it has one, without decoration keys.
pub open spec fn normalize(j: JsonV) -> Result<JsonV, CoreError> {
    match j {
        JsonV::Obj(o) => match get(o, "server"@) {
            Some(JsonV::Obj(inner)) => Ok(JsonV::Obj(strip(inner))),
            Some(_) => Err(CoreError::Validation),
            None => Ok(JsonV::Obj(strip(o))),
        },
        _ => Err(CoreError::Validation),
    }
}

/// The entries `id -> definition` of every enabled definition, in order.
pub open spec fn projection(r: Seq<ServerV>) -> ObjV
    decreases r.len(),
{
    if r.len() == 0 {
        Seq::empty()
    } else {
        let p = projection(r.drop_last());
        if r.last().enabled {
            p.push((r.last().id, r.last().spec))
        } else {
            p
        }
    }
}

/// The registry with the flag of `id` set to `b`.
pub open spec fn set_flag(r: Seq<ServerV>, id: Seq<char>, b: bool) -> Seq<ServerV> {
    let i = sfind(r, id);
    if i < 0 {
        r
    } else {
        r.update(i, ServerV { enabled: b, ..r[i] })
    }
}

/// The registry with definition `n` stored under `id`; a new id starts with
/// flag `flag`, an existing one keeps its flag.
pub open spec fn store_def(r: Seq<ServerV>, id: Seq<char>, n: JsonV, flag: bool) -> Seq<ServerV> {
    let i = sfind(r, id);
    if i < 0 {
        r.push(ServerV { id, spec: n, enabled: flag })
    } else {
        r.update(i, ServerV { spec: n, ..r[i] })
    }
}

pub open spec fn result_jv(r: Result<Json, CoreError>) -> Result<JsonV, CoreError> {
    match r {
        Ok(j) => Ok(j@),
        Err(e) => Err(e),
    }
}

pub proof fn lemma_same_sids(r1: Seq<ServerV>, r2: Seq<ServerV>, k: Seq<char>)
    requires
        r1.len() == r2.len(),
        forall|i: int| 0 <= i < r1.len() ==> r1[i].id == r2[i].id,
    ensures
        sfind(r1, k) == sfind(r2, k),
{
    lemma_find_same_keys(skeys(r1), skeys(r2), k);
}

/// Whether `k` is a decoration key.
pub fn ui_key(k: &String) -> (r: bool)
    ensures
        r == is_ui_key(k@),
{
    *k == "enabled".to_owned() || *k == "source".to_owned() || *k == "id".to_owned() || *k
        == "name".to_owned() || *k == "description".to_owned() || *k == "tags".to_owned() || *k
        == "homepage".to_owned() || *k == "docs".to_owned()
}

/// The entries without decoration keys.
pub fn strip_entries(v: &Vec<(String, Json)>) -> (r: Vec<(String, Json)>)
    ensures
        ev(r@) == strip(ev(v@)),
{
    let mut out: Vec<(String, Json)> = Vec::new();
    let mut i: usize = 0;
    while i < v.len()
        invariant
            i <= v.len(),
            ev(out@) == strip(ev(v@).subrange(0, i as int)),
        decreases v.len() - i,
    {
        let ghost pre = ev(v@).subrange(0, i as int);
        let ghost nxt = ev(v@).subrange(0, i + 1);
        assert(nxt.drop_last() =~= pre);
        if !ui_key(&v[i].0) {
            out.push((v[i].0.clone(), json_clone(&v[i].1)));
            assert(ev(out@) =~= strip(pre).push(nxt.last()));
        }
        i = i + 1;
    }
    assert(ev(v@).subrange(0, v.len() as int) =~= ev(v@));
    out
}

/// Normalizes a definition; see [`normalize`].
pub fn normalize_spec(spec: &Json) -> (r: Result<Json, CoreError>)
    ensures
        result_jv(r) == normalize(spec@),
{
    match spec {
        Json::Obj(o) => match obj_find(o, &"server".to_owned()) {
            Some(i) => match &o[i].1 {
                Json::Obj(inner) => Ok(Json::Obj(strip_entries(inner))),
                _ => Err(CoreError::Validation),
            },
            None => Ok(Json::Obj(strip_entries(o))),
        },
        _ => Err(CoreError::Validation),
    }
}


/// One live entry absorbed into the registry, with the running count of changes.
pub open spec fn import_step(acc: (Seq<ServerV>, nat), e: (Seq<char>, JsonV)) -> (Seq<ServerV>, nat) {
    let (r, c) = acc;
    match normalize(e.1) {
        Err(_) => acc,
        Ok(n) => {
            let i = sfind(r, e.0);
            if i < 0 {
                (r.push(ServerV { id: e.0, spec: n, enabled: true }), c + 1)
            } else if r[i].spec == n {
                acc
            } else {
                (r.update(i, ServerV { id: e.0, spec: n, enabled: true }), c + 1)
            }
        },
    }
}

/// Absorbing the live entries `es`, in order.
pub open spec fn import_spec(r: Seq<ServerV>, es: ObjV) -> (Seq<ServerV>, nat)
    decreases es.len(),
{
    if es.len() == 0 {
        (r, 0)
    } else {
        import_step(import_spec(r, es.drop_last()), es.last())
    }
}

/// Outcome of storing a definition.
#[derive(Debug, Clone, Copy, PartialEq, Eq, Structural)]
pub struct McpChange {
    /// The stored content changed.
    pub changed: bool,
    /// The id is enabled, so the live collection must be written again.
    pub resync: bool,
}

impl McpRegistry {
    /// An empty registry.
    pub fn new() -> (r: Self)
        ensures
            r@.len() == 0,
    {
        McpRegistry { servers: Vec::new() }
    }

    /// Index of the definition with id `id`.
    pub fn find(&self, id: &String) -> (r: Option<usize>)
        ensures
            match r {
                Some(i) => sfind(self@, id@) == i as int && i < self.servers.len(),
                None => sfind(self@, id@) == -1,
            },
    {
        let mut i: usize = 0;
        while i < self.servers.len()
            invariant
                i <= self.servers.len(),
                forall|m: int| 0 <= m < i ==> skeys(self@)[m].0 != id@,
            decreases self.servers.len() - i,
        {
            if self.servers[i].id == *id {
                proof {
                    assert(is_first(skeys(self@), id@, i as int));
                    lemma_first_unique(skeys(self@), id@, i as int);
                }
                return Some(i);
            }
            i = i + 1;
        }
        proof {
            lemma_absent(skeys(self@), id@);
        }
        None
    }

    /// Whether `id` is registered and enabled.
    pub fn is_enabled(&self, id: &String) -> (r: bool)
        ensures
            r == (sfind(self@, id@) >= 0 && self@[sfind(self@, id@)].enabled),
    {
        match self.find(id) {
            Some(i) => self.servers[i].enabled,
            None => false,
        }
    }

    /// Stores definition `n` under `id`; see [`store_def`].
    fn store(&mut self, id: String, n: Json, flag: bool)
        requires
            reg_wf(old(self)@),
        ensures
            final(self)@ == store_def(old(self)@, id@, n@, flag),
            reg_wf(final(self)@),
    {
        let ghost nv = n@;
        match self.find(&id) {
            Some(i) => {
                let en = self.servers[i].enabled;
                let old_id = self.servers[i].id.clone();
                self.servers.set(i, McpServer { id: old_id, spec: n, enabled: en });
                proof {
                    assert(self@ =~= old(self)@.update(i as int, ServerV { spec: nv, ..old(self)@[i as int] }));
                    assert forall|a: int, b: int| 0 <= a < b < self@.len() implies self@[a].id
                        != self@[b].id by {
                        assert(self@[a].id == old(self)@[a].id);
                        assert(self@[b].id == old(self)@[b].id);
                    }
                }
            },
            None => {
                let ghost idv = id@;
                self.servers.push(McpServer { id, spec: n, enabled: flag });
                proof {
                    let o = old(self)@;
                    assert(self@ =~= o.push(ServerV { id: idv, spec: nv, enabled: flag }));
                    lemma_find_key(skeys(o), idv);
                    assert forall|a: int| 0 <= a < o.len() implies o[a].id != idv by {
                        assert(skeys(o)[a].0 == o[a].id);
                    }
                }
            },
        }
    }

    /// Stores a definition under `id` after normalizing it; reports whether
    /// the stored content changed and whether the id is enabled.
    pub fn upsert(&mut self, id: String, spec: &Json) -> (r: Result<McpChange, CoreError>)
        requires
            reg_wf(old(self)@),
        ensures
            reg_wf(final(self)@),
            match normalize(spec@) {
                Err(e) => r == Err::<McpChange, CoreError>(e) && final(self)@ == old(self)@,
                Ok(n) => {
                    let i = sfind(old(self)@, id@);
                    let same = i >= 0 && old(self)@[i].spec == n;
                    &&& r is Ok
                    &&& r->Ok_0.changed == !same
                    &&& r->Ok_0.resync == (i >= 0 && old(self)@[i].enabled)
                    &&& final(self)@ == if same { old(self)@ } else { store_def(old(self)@, id@, n, false) }
                },
            },
    {
        let n = normalize_spec(spec)?;
        let (same, resync) = match self.find(&id) {
            Some(i) => (json_eq(&self.servers[i].spec, &n), self.servers[i].enabled),
            None => (false, false),
        };
        if same {
            return Ok(McpChange { changed: false, resync });
        }
        self.store(id, n, false);
        Ok(McpChange { changed: true, resync })
    }

    /// Removes the definition `id`; returns whether it existed.
    pub fn delete(&mut self, id: &String) -> (r: bool)
        requires
            reg_wf(old(self)@),
        ensures
            reg_wf(final(self)@),
            r == (sfind(old(self)@, id@) >= 0),
            final(self)@ == if r { old(self)@.remove(sfind(old(self)@, id@)) } else { old(self)@ },
    {
        match self.find(id) {
            Some(i) => {
                self.servers.remove(i);
                proof {
                    let o = old(self)@;
                    assert(self@ =~= o.remove(i as int));
                    assert forall|a: int, b: int| 0 <= a < b < self@.len() implies self@[a].id
                        != self@[b].id by {
                        if a >= i {
                            assert(self@[a] == o[a + 1]);
                        }
                        if b >= i {
                            assert(self@[b] == o[b + 1]);
                        }
                    }
                }
                true
            },
            None => false,
        }
    }

    /// Sets the flag of `id`; returns whether it changed.
    pub fn set_enabled(&mut self, id: &String, enabled: bool) -> (r: Result<bool, CoreError>)
        requires
            reg_wf(old(self)@),
        ensures
            reg_wf(final(self)@),
            final(self)@ == set_flag(old(self)@, id@, enabled),
            sfind(old(self)@, id@) < 0 ==> r == Err::<bool, CoreError>(CoreError::NotFound),
            sfind(old(self)@, id@) >= 0 ==> r == Ok::<bool, CoreError>(
                old(self)@[sfind(old(self)@, id@)].enabled != enabled,
            ),
    {
        match self.find(id) {
            Some(i) => {
                let was = self.servers[i].enabled;
                let old_id = self.servers[i].id.clone();
                let sp = json_clone(&self.servers[i].spec);
                self.servers.set(i, McpServer { id: old_id, spec: sp, enabled });
                proof {
                    let o = old(self)@;
                    assert(self@ =~= o.update(i as int, ServerV { enabled: enabled, ..o[i as int] }));
                    assert forall|a: int, b: int| 0 <= a < b < self@.len() implies self@[a].id
                        != self@[b].id by {
                        assert(self@[a].id == o[a].id);
                        assert(self@[b].id == o[b].id);
                    }
                }
                Ok(was != enabled)
            },
            None => Err(CoreError::NotFound),
        }
    }

    /// The live managed-services collection: every enabled definition under its id.
    pub fn project(&self) -> (r: Json)
        ensures
            r@ == JsonV::Obj(projection(self@)),
    {
        let mut out: Vec<(String, Json)> = Vec::new();
        let mut i: usize = 0;
        while i < self.servers.len()
            invariant
                i <= self.servers.len(),
                ev(out@) == projection(self@.subrange(0, i as int)),
            decreases self.servers.len() - i,
        {
            let ghost pre = self@.subrange(0, i as int);
            let ghost nxt = self@.subrange(0, i + 1);
            assert(nxt.drop_last() =~= pre);
            if self.servers[i].enabled {
                out.push((self.servers[i].id.clone(), json_clone(&self.servers[i].spec)));
                assert(ev(out@) =~= projection(pre).push((nxt.last().id, nxt.last().spec)));
            }
            i = i + 1;
        }
        assert(self@.subrange(0, self.servers.len() as int) =~= self@);
        Json::Obj(out)
    }

    /// Copies the definition `id` into `dest`, refusing to replace one of the
    /// same id there unless `overwrite`; on success returns whether `id` is
    /// enabled in `dest`, so that its live collection must be written again.
    pub fn copy_to(&self, dest: &mut McpRegistry, id: &String, overwrite: bool) -> (r: Result<
        bool,
        CoreError,
    >)
        requires
            reg_wf(old(dest)@),
        ensures
            reg_wf(final(dest)@),
            sfind(self@, id@) < 0 ==> {
                &&& r == Err::<bool, CoreError>(CoreError::NotFound)
                &&& final(dest)@ == old(dest)@
            },
            sfind(self@, id@) >= 0 && sfind(old(dest)@, id@) >= 0 && !overwrite ==> {
                &&& r == Err::<bool, CoreError>(CoreError::Conflict)
                &&& final(dest)@ == old(dest)@
            },
            r matches Ok(b) ==> {
                let j = sfind(old(dest)@, id@);
                &&& final(dest)@ == store_def(old(dest)@, id@, self@[sfind(self@, id@)].spec, false)
                &&& b == (j >= 0 && old(dest)@[j].enabled)
            },
            sfind(self@, id@) >= 0 && (sfind(old(dest)@, id@) < 0 || overwrite) ==> r is Ok,
    {
        let i = match self.find(id) {
            Some(i) => i,
            None => return Err(CoreError::NotFound),
        };
        let enabled_there = match dest.find(id) {
            Some(j) => {
                if !overwrite {
                    return Err(CoreError::Conflict);
                }
                dest.servers[j].enabled
            },
            None => false,
        };
        let sp = json_clone(&self.servers[i].spec);
        dest.store(id.clone(), sp, false);
        Ok(enabled_there)
    }

    /// Adopts the definitions of a live managed-services collection: each
    /// valid one that is new or whose content differs is stored enabled.
    /// Returns the number of definitions changed.
    pub fn import_from_live(&mut self, live: &Json) -> (r: Result<usize, CoreError>)
        requires
            reg_wf(old(self)@),
        ensures
            reg_wf(final(self)@),
            match live@ {
                JsonV::Obj(es) => {
                    let (r2, c) = import_spec(old(self)@, es);
                    r == Ok::<usize, CoreError>(c as usize) && final(self)@ == r2
                },
                _ => r == Err::<usize, CoreError>(CoreError::Validation) && final(self)@ == old(self)@,
            },
    {
        let es = match live {
            Json::Obj(es) => es,
            _ => return Err(CoreError::Validation),
        };
        let mut count: usize = 0;
        let mut i: usize = 0;
        while i < es.len()
            invariant
                i <= es.len(),
                *live == Json::Obj(*es),
                reg_wf(self@),
                (self@, count as nat) == import_spec(old(self)@, ev(es@).subrange(0, i as int)),
                count <= i,
            decreases es.len() - i,
        {
            let ghost pre = ev(es@).subrange(0, i as int);
            let ghost nxt = ev(es@).subrange(0, i + 1);
            assert(nxt.drop_last() =~= pre);
            assert(nxt.last() == (es[i as int].0@, es[i as int].1@));
            match normalize_spec(&es[i].1) {
                Err(_) => {},
                Ok(n) => {
                    match self.find(&es[i].0) {
                        None => {
                            self.store(es[i].0.clone(), n, true);
                            count = count + 1;
                        },
                        Some(j) => {
                            if !json_eq(&self.servers[j].spec, &n) {
                                let ghost nv = n@;
                                let ghost o = self@;
                                self.servers.set(j, McpServer { id: es[i].0.clone(), spec: n, enabled: true });
                                proof {
                                    assert(self@ =~= o.update(j as int, ServerV { id: es[i as int].0@, spec: nv, enabled: true }));
                                    assert forall|a: int, b: int| 0 <= a < b < self@.len() implies self@[a].id
                                        != self@[b].id by {
                                        assert(self@[a].id == o[a].id);
                                        assert(self@[b].id == o[b].id);
                                    }
                                }
                                count = count + 1;
                            }
                        },
                    }
                },
            }
            i = i + 1;
        }
        assert(ev(es@).subrange(0, es.len() as int) =~= ev(es@));
        Ok(count)
    }
}

/// Enabling (or disabling) the same id twice: the second call reports no
/// change and leaves the registry, and so the projected collection, exactly
/// as the first call left it.
pub proof fn lemma_set_enabled_idempotent(r: Seq<ServerV>, id: Seq<char>, b: bool)
    requires
        sfind(r, id) >= 0,
    ensures
        ({
            let r1 = set_flag(r, id, b);
            let i = sfind(r1, id);
            &&& i >= 0
            &&& r1[i].enabled == b
            &&& set_flag(r1, id, b) == r1
            &&& projection(set_flag(r1, id, b)) == projection(r1)
        }),
{
    let r1 = set_flag(r, id, b);
    let i = sfind(r, id);
    lemma_same_sids(r, r1, id);
    assert(r1.update(i, ServerV { enabled: b, ..r1[i] }) =~= r1);
}

/// The projected collection holds exactly the enabled ids, each with its
/// stored definition; disabled or unknown ids are absent.
pub proof fn lemma_projection_members(r: Seq<ServerV>, id: Seq<char>)
    requires
        reg_wf(r),
    ensures
        get(projection(r), id) == if sfind(r, id) >= 0 && r[sfind(r, id)].enabled {
            Some(r[sfind(r, id)].spec)
        } else {
            None
        },
    decreases r.len(),
{
    if r.len() == 0 {
        lemma_find_key(skeys(r), id);
        lemma_find_key(projection(r), id);
    } else {
        let r0 = r.drop_last();
        let l = r.last();
        lemma_projection_members(r0, id);
        assert(skeys(r) =~= skeys(r0).push((l.id, l.spec)));
        lemma_find_push(skeys(r0), l.id, l.spec, id);
        if l.enabled {
            lemma_find_push(projection(r0), l.id, l.spec, id);
        }
        if l.id == id {
            lemma_find_key(skeys(r0), id);
            assert forall|j: int| 0 <= j < r0.len() implies skeys(r0)[j].0 != id by {
                assert(r[j].id != r[r.len() - 1].id);
            }
        }
    }
}

/// Normalizes every definition of a collection.
pub open spec fn normalize_all(es: ObjV) -> Result<ObjV, CoreError>
    decreases es.len(),
{
    if es.len() == 0 {
        Ok(Seq::empty())
    } else {
        match normalize_all(es.drop_last()) {
            Err(e) => Err(e),
            Ok(p) => match normalize(es.last().1) {
                Err(e) => Err(e),
                Ok(n) => Ok(p.push((es.last().0, n))),
            },
        }
    }
}

/// The live document with its managed-services collection replaced by the
/// normalized `servers`; every other key stays as it was.
pub open spec fn servers_map_spec(root: JsonV, servers: ObjV) -> Result<JsonV, CoreError> {
    match normalize_all(servers) {
        Err(e) => Err(e),
        Ok(n) => match root {
            JsonV::Obj(o) => Ok(JsonV::Obj(put(o, "mcpServers"@, JsonV::Obj(n)))),
            _ => Err(CoreError::Validation),
        },
    }
}

/// Writes the given definitions, normalized, as the whole managed-services
/// collection of the live document `root`.
pub fn set_mcp_servers_map(root: Json, servers: &Vec<(String, Json)>) -> (r: Result<Json, CoreError>)
    ensures
        result_jv(r) == servers_map_spec(root@, ev(servers@)),
{
    let mut out: Vec<(String, Json)> = Vec::new();
    let mut i: usize = 0;
    assert(ev(out@) =~= Seq::<(Seq<char>, JsonV)>::empty());
    assert(ev(servers@).subrange(0, 0) =~= Seq::<(Seq<char>, JsonV)>::empty());
    while i < servers.len()
        invariant
            i <= servers.len(),
            normalize_all(ev(servers@).subrange(0, i as int)) == Ok::<ObjV, CoreError>(ev(out@)),
        decreases servers.len() - i,
    {
        let ghost pre = ev(servers@).subrange(0, i as int);
        let ghost nxt = ev(servers@).subrange(0, i + 1);
        assert(nxt.drop_last() =~= pre);
        let n = match normalize_spec(&servers[i].1) {
            Ok(n) => n,
            Err(e) => {
                proof {
                    lemma_normalize_all_err(ev(servers@), i as int + 1);
                }
                return Err(e);
            },
        };
        let ghost prev = ev(out@);
        let ghost nv = n@;
        out.push((servers[i].0.clone(), n));
        assert(ev(out@) =~= prev.push((nxt.last().0, nv)));
        i = i + 1;
    }
    assert(ev(servers@).subrange(0, servers.len() as int) =~= ev(servers@));
    match root {
        Json::Obj(mut o) => {
            obj_put(&mut o, "mcpServers".to_owned(), Json::Obj(out));
            Ok(Json::Obj(o))
        },
        _ => Err(CoreError::Validation),
    }
}

/// A failure on a prefix is a failure of the whole collection.
proof fn lemma_normalize_all_err(es: ObjV, k: int)
    requires
        0 <= k <= es.len(),
        normalize_all(es.subrange(0, k)) is Err,
    ensures
        normalize_all(es) == normalize_all(es.subrange(0, k)),
    decreases es.len() - k,
{
    if k == es.len() {
        assert(es.subrange(0, k) =~= es);
    } else {
        assert(es.subrange(0, k + 1).drop_last() =~= es.subrange(0, k));
        lemma_normalize_all_err(es, k + 1);
    }
}

} // verus!
