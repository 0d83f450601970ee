//! A structured document value, with a mathematical view.

use vstd::prelude::*;

verus! {

broadcast use vstd::std_specs::vec::axiom_vec_index_decreases;

/// A structured document value. Numbers are kept as their literal text.
#[derive(Debug, PartialEq)]
pub enum Json {
    Null,
    Bool(bool),
    Num(String),
    Str(String),
    Arr(Vec<Json>),
    Obj(Vec<(String, Json)>),
}

/// The mathematical model of a [`Json`] value.
pub enum JsonV {
    Null,
    Bool(bool),
    Num(Seq<char>),
    Str(Seq<char>),
    Arr(Seq<JsonV>),
    Obj(Seq<(Seq<char>, JsonV)>),
}

pub open spec fn jv(j: Json) -> JsonV
    decreases j,
{
    match j {
        Json::Null => JsonV::Null,
        Json::Bool(b) => JsonV::Bool(b),
        Json::Num(s) => JsonV::Num(s@),
        Json::Str(s) => JsonV::Str(s@),
        Json::Arr(v) => JsonV::Arr(
            Seq::new(v.len() as nat, |i: int| if 0 <= i < v.len() { jv(v[i]) } else { JsonV::Null }),
        ),
        Json::Obj(v) => JsonV::Obj(
            Seq::new(
                v.len() as nat,
                |i: int| if 0 <= i < v.len() { (v[i].0@, jv(v[i].1)) } else { (Seq::empty(), JsonV::Null) },
            ),
        ),
    }
}

/// The view of an object is the view of its entries.
pub broadcast proof fn lemma_obj_view(v: Vec<(String, Json)>)
    ensures
        #[trigger] jv(Json::Obj(v)) == JsonV::Obj(ev(v@)),
{
    if let JsonV::Obj(s) = jv(Json::Obj(v)) {
        assert(s =~= ev(v@));
    }
}

impl View for Json {
    type V = JsonV;

    open spec fn view(&self) -> JsonV {
        jv(*self)
    }
}


/// The view of a sequence of object entries.
pub open spec fn ev(e: Seq<(String, Json)>) -> Seq<(Seq<char>, JsonV)> {
    Seq::new(e.len(), |i: int| (e[i].0@, e[i].1@))
}

/// An object's entries, in the model.
pub type ObjV = Seq<(Seq<char>, JsonV)>;

/// Entry `i` is the first one whose key is `k`.
pub open spec fn is_first(o: ObjV, k: Seq<char>, i: int) -> bool {
    &&& 0 <= i < o.len()
    &&& o[i].0 == k
    &&& forall|j: int| 0 <= j < i ==> o[j].0 != k
}

/// Index of the first entry with key `k`, or -1 when there is none.
pub open spec fn find_key(o: ObjV, k: Seq<char>) -> int {
    if exists|i: int| is_first(o, k, i) {
        choose|i: int| is_first(o, k, i)
    } else {
        -1
    }
}

/// The value under key `k` (the first entry with that key wins).
pub open spec fn get(o: ObjV, k: Seq<char>) -> Option<JsonV> {
    let i = find_key(o, k);
    if i >= 0 {
        Some(o[i].1)
    } else {
        None
    }
}

/// `o` with the value under `k` replaced, or `(k, v)` appended when `k` is absent.
pub open spec fn put(o: ObjV, k: Seq<char>, v: JsonV) -> ObjV {
    let i = find_key(o, k);
    if i >= 0 {
        o.update(i, (k, v))
    } else {
        o.push((k, v))
    }
}

/// The member `k` of a value, when the value is an object that has it.
pub open spec fn member(j: JsonV, k: Seq<char>) -> Option<JsonV> {
    match j {
        JsonV::Obj(o) => get(o, k),
        _ => None,
    }
}

pub proof fn lemma_first_unique(o: ObjV, k: Seq<char>, i: int)
    requires
        is_first(o, k, i),
    ensures
        find_key(o, k) == i,
{
    let c = choose|c: int| is_first(o, k, c);
    assert(is_first(o, k, c));
    if c < i {
        assert(o[c].0 != k);
    } else if c > i {
        assert(o[i].0 != k);
    }
}

pub proof fn lemma_absent(o: ObjV, k: Seq<char>)
    requires
        forall|j: int| 0 <= j < o.len() ==> o[j].0 != k,
    ensures
        find_key(o, k) == -1,
{
}

/// Every key with an entry has a first entry.
pub proof fn lemma_find_present(o: ObjV, k: Seq<char>, j: int)
    requires
        0 <= j < o.len(),
        o[j].0 == k,
    ensures
        0 <= find_key(o, k) <= j,
        is_first(o, k, find_key(o, k)),
    decreases j,
{
    if exists|m: int| 0 <= m < j && o[m].0 == k {
        let m = choose|m: int| 0 <= m < j && o[m].0 == k;
        lemma_find_present(o, k, m);
    } else {
        assert(is_first(o, k, j));
        lemma_first_unique(o, k, j);
    }
}

/// The first entry with a key, in terms of its index.
pub proof fn lemma_find_key(o: ObjV, k: Seq<char>)
    ensures
        find_key(o, k) == -1 <==> (forall|j: int| 0 <= j < o.len() ==> o[j].0 != k),
        find_key(o, k) != -1 ==> is_first(o, k, find_key(o, k)),
{
    if exists|j: int| 0 <= j < o.len() && o[j].0 == k {
        let j = choose|j: int| 0 <= j < o.len() && o[j].0 == k;
        lemma_find_present(o, k, j);
    }
}

/// Lookups depend on the keys alone.
pub proof fn lemma_find_same_keys(o1: ObjV, o2: ObjV, k: Seq<char>)
    requires
        o1.len() == o2.len(),
        forall|i: int| 0 <= i < o1.len() ==> o1[i].0 == o2[i].0,
    ensures
        find_key(o1, k) == find_key(o2, k),
{
    lemma_find_key(o1, k);
    lemma_find_key(o2, k);
    if find_key(o1, k) >= 0 {
        assert(is_first(o2, k, find_key(o1, k)));
        lemma_first_unique(o2, k, find_key(o1, k));
    }
}

/// Looking up a key after appending an entry.
pub proof fn lemma_find_push(o: ObjV, k: Seq<char>, v: JsonV, k2: Seq<char>)
    ensures
        find_key(o.push((k, v)), k2) == if find_key(o, k2) >= 0 {
            find_key(o, k2)
        } else if k2 == k {
            o.len() as int
        } else {
            -1
        },
        get(o.push((k, v)), k2) == if get(o, k2) is Some {
            get(o, k2)
        } else if k2 == k {
            Some(v)
        } else {
            None
        },
{
    let p = o.push((k, v));
    lemma_find_key(o, k2);
    lemma_find_key(p, k2);
    if find_key(o, k2) >= 0 {
        lemma_first_unique(p, k2, find_key(o, k2));
    } else if k2 == k {
        assert(is_first(p, k2, o.len() as int));
        lemma_first_unique(p, k2, o.len() as int);
    } else {
        lemma_absent(p, k2);
    }
}

/// A copy of `j` with the same view.
pub fn json_clone(j: &Json) -> (r: Json)
    ensures
        r@ == j@,
    decreases j@,
{
    match j {
        Json::Null => Json::Null,
        Json::Bool(b) => Json::Bool(*b),
        Json::Num(s) => Json::Num(s.clone()),
        Json::Str(s) => Json::Str(s.clone()),
        Json::Arr(v) => {
            let mut out: Vec<Json> = Vec::new();
            let mut i: usize = 0;
            while i < v.len()
                invariant
                    *j == Json::Arr(*v),
                    i <= v.len(),
                    out.len() == i,
                    forall|m: int| 0 <= m < i ==> out[m]@ == v[m]@,
                decreases v.len() - i,
            {
                proof {
                    if let JsonV::Arr(s) = j@ {
                        assert(s[i as int] == v[i as int]@);
                        assert(decreases_to!(j@ => s[i as int]));
                    }
                }
                let c = json_clone(&v[i]);
                out.push(c);
                i = i + 1;
            }
            let r = Json::Arr(out);
            assert(r@ == j@) by {
                if let JsonV::Arr(a) = r@ {
                    if let JsonV::Arr(b) = j@ {
                        assert(a =~= b);
                    }
                }
            }
            r
        },
        Json::Obj(v) => {
            proof {
                if let JsonV::Obj(s) = j@ {
                    assert(s =~= ev(v@));
                }
            }
            let out = entries_clone(v);
            Json::Obj(out)
        },
    }
}

/// A copy of a list of object entries with the same view.
pub fn entries_clone(v: &Vec<(String, Json)>) -> (r: Vec<(String, Json)>)
    ensures
        ev(r@) == ev(v@),
        Json::Obj(r)@ == Json::Obj(*v)@,
    decreases ev(v@),
{
    let mut out: Vec<(String, Json)> = Vec::new();
    let mut i: usize = 0;
    while i < v.len()
        invariant
            i <= v.len(),
            out.len() == i,
            forall|m: int| 0 <= m < i ==> out[m].0@ == v[m].0@ && out[m].1@ == v[m].1@,
        decreases v.len() - i,
    {
        proof {
            assert(ev(v@)[i as int] == (v[i as int].0@, v[i as int].1@));
            assert(decreases_to!(ev(v@) => ev(v@)[i as int]));
            assert(decreases_to!(ev(v@)[i as int] => ev(v@)[i as int].1));
            assert(decreases_to!(ev(v@) => v[i as int].1@));
        }
        let c = json_clone(&v[i].1);
        out.push((v[i].0.clone(), c));
        i = i + 1;
    }
    assert(ev(out@) =~= ev(v@));
    assert(Json::Obj(out)@ == Json::Obj(*v)@) by {
        if let JsonV::Obj(a) = Json::Obj(out)@ {
            if let JsonV::Obj(b) = Json::Obj(*v)@ {
                assert(a =~= b);
            }
        }
    }
    out
}


/// Whether two values have the same view.
pub fn json_eq(a: &Json, b: &Json) -> (r: bool)
    ensures
        r == (a@ == b@),
    decreases a@,
{
    match (a, b) {
        (Json::Null, Json::Null) => true,
        (Json::Bool(x), Json::Bool(y)) => *x == *y,
        (Json::Num(x), Json::Num(y)) => *x == *y,
        (Json::Str(x), Json::Str(y)) => *x == *y,
        (Json::Arr(x), Json::Arr(y)) => {
            if x.len() != y.len() {
                proof {
                    if let JsonV::Arr(s) = a@ {
                        if let JsonV::Arr(t) = b@ {
                            assert(s.len() != t.len());
                        }
                    }
                }
                return false;
            }
            let mut i: usize = 0;
            while i < x.len()
                invariant
                    *a == Json::Arr(*x),
                    *b == Json::Arr(*y),
                    x.len() == y.len(),
                    i <= x.len(),
                    forall|m: int| 0 <= m < i ==> x[m]@ == y[m]@,
                decreases x.len() - i,
            {
                proof {
                    if let JsonV::Arr(s) = a@ {
                        assert(s[i as int] == x[i as int]@);
                        assert(decreases_to!(a@ => s[i as int]));
                    }
                }
                if !json_eq(&x[i], &y[i]) {
                    proof {
                        if let JsonV::Arr(s) = a@ {
                            if let JsonV::Arr(t) = b@ {
                                assert(s[i as int] != t[i as int]);
                            }
                        }
                    }
                    return false;
                }
                i = i + 1;
            }
            proof {
                if let JsonV::Arr(s) = a@ {
                    if let JsonV::Arr(t) = b@ {
                        assert(s =~= t);
                    }
                }
            }
            true
        },
        (Json::Obj(x), Json::Obj(y)) => {
            proof {
                if let JsonV::Obj(s) = a@ {
                    assert(s =~= ev(x@));
                }
                if let JsonV::Obj(t) = b@ {
                    assert(t =~= ev(y@));
                }
            }
            entries_eq(x, y)
        },
        _ => false,
    }
}

/// Whether two lists of entries have the same view.
pub fn entries_eq(x: &Vec<(String, Json)>, y: &Vec<(String, Json)>) -> (r: bool)
    ensures
        r == (ev(x@) == ev(y@)),
    decreases ev(x@),
{
    if x.len() != y.len() {
        assert(ev(x@).len() != ev(y@).len());
        return false;
    }
    let mut i: usize = 0;
    while i < x.len()
        invariant
            x.len() == y.len(),
            i <= x.len(),
            forall|m: int| 0 <= m < i ==> ev(x@)[m] == ev(y@)[m],
        decreases x.len() - i,
    {
        proof {
            assert(decreases_to!(ev(x@) => ev(x@)[i as int]));
            assert(decreases_to!(ev(x@)[i as int] => ev(x@)[i as int].1));
            assert(decreases_to!(ev(x@) => x[i as int].1@));
        }
        if x[i].0 != y[i].0 {
            assert(ev(x@)[i as int] != ev(y@)[i as int]);
            return false;
        }
        if !json_eq(&x[i].1, &y[i].1) {
            assert(ev(x@)[i as int] != ev(y@)[i as int]);
            return false;
        }
        i = i + 1;
    }
    assert(ev(x@) =~= ev(y@));
    true
}

/// Index of the first entry whose key is `k`.
pub fn obj_find(e: &Vec<(String, Json)>, k: &String) -> (r: Option<usize>)
    ensures
        match r {
            Some(i) => find_key(ev(e@), k@) == i as int,
            None => find_key(ev(e@), k@) == -1,
        },
{
    let mut i: usize = 0;
    while i < e.len()
        invariant
            i <= e.len(),
            forall|m: int| 0 <= m < i ==> ev(e@)[m].0 != k@,
        decreases e.len() - i,
    {
        if e[i].0 == *k {
            proof {
                assert(is_first(ev(e@), k@, i as int));
                lemma_first_unique(ev(e@), k@, i as int);
            }
            return Some(i);
        }
        i = i + 1;
    }
    proof {
        lemma_absent(ev(e@), k@);
    }
    None
}

/// The member `k` of `j`, when `j` is an object that has it.
pub fn get_member<'a>(j: &'a Json, k: &String) -> (r: Option<&'a Json>)
    ensures
        match r {
            Some(x) => member(j@, k@) == Some(x@),
            None => member(j@, k@) == None::<JsonV>,
        },
{
    match j {
        Json::Obj(e) => {
            proof {
                if let JsonV::Obj(s) = j@ {
                    assert(s =~= ev(e@));
                }
            }
            match obj_find(e, k) {
                Some(i) => Some(&e[i].1),
                None => None,
            }
        },
        _ => None,
    }
}

/// Sets the value under `k`, replacing the first entry with that key or appending one.
pub fn obj_put(e: &mut Vec<(String, Json)>, k: String, v: Json)
    ensures
        ev(final(e)@) == put(ev(old(e)@), k@, v@),
{
    match obj_find(e, &k) {
        Some(i) => {
            e.set(i, (k, v));
            assert(ev(e@) =~= put(ev(old(e)@), k@, v@));
        },
        None => {
            e.push((k, v));
            assert(ev(e@) =~= put(ev(old(e)@), k@, v@));
        },
    }
}

} // verus!
