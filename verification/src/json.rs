//! A model of JSON documents.
//!
//! Configuration files reach the library as values of this type: the I/O
//! layer reads a file, parses the text, and hands the parsed document over
//! as plain data. Everything the library decides about a document — schema
//! validation, field extraction — is verified against the mathematical view
//! [`JsonV`].
//!
//! Numbers are carried as their decimal text, which the manifest schema
//! never inspects; object key order is preserved.

use vstd::prelude::*;

verus! {

/// A JSON document.
#[derive(Debug)]
pub enum Json {
    Null,
    Bool(bool),
    /// A number, held as its decimal text.
    Num(String),
    Str(String),
    Arr(Vec<Json>),
    /// An object as key-value pairs, in document order.
    Obj(Vec<(String, Json)>),
}

/// The mathematical view of a JSON document.
#[verifier::ext_equal]
pub enum JsonV {
    Null,
    Bool(bool),
    Num(Seq<char>),
    Str(Seq<char>),
    Arr(Seq<JsonV>),
    Obj(Seq<(Seq<char>, JsonV)>),
}

/// The view of a document: every string replaced by its character sequence.
pub open spec fn json_view(j: Json) -> JsonV
    decreases j,
{
    match j {
        Json::Null => JsonV::Null,
        Json::Bool(b) => JsonV::Bool(b),
        Json::Num(s) => JsonV::Num(s@),
        Json::Str(s) => JsonV::Str(s@),
        Json::Arr(items) => JsonV::Arr(
            Seq::new(
                items@.len(),
                |i: int|
                    if 0 <= i < items@.len() {
                        json_view(items@[i])
                    } else {
                        JsonV::Null
                    },
            ),
        ),
        Json::Obj(entries) => JsonV::Obj(
            Seq::new(
                entries@.len(),
                |i: int|
                    if 0 <= i < entries@.len() {
                        (entries@[i].0@, json_view(entries@[i].1))
                    } else {
                        (Seq::empty(), JsonV::Null)
                    },
            ),
        ),
    }
}

impl View for Json {
    type V = JsonV;

    open spec fn view(&self) -> JsonV {
        json_view(*self)
    }
}

/// A document and its view are always of the same variant.
pub proof fn lemma_view_variants(d: Json)
    ensures
        d is Null <==> d@ is Null,
        d is Bool <==> d@ is Bool,
        d is Num <==> d@ is Num,
        d is Str <==> d@ is Str,
        d is Arr <==> d@ is Arr,
        d is Obj <==> d@ is Obj,
{
    match d {
        Json::Null => {},
        Json::Bool(_) => {},
        Json::Num(_) => {},
        Json::Str(_) => {},
        Json::Arr(_) => {},
        Json::Obj(_) => {},
    }
}

/// Look a key up among an object's entries: the first pair with that key
/// wins.
pub open spec fn spec_obj_lookup(entries: Seq<(Seq<char>, JsonV)>, key: Seq<char>) -> Option<JsonV>
    decreases entries.len(),
{
    if entries.len() == 0 {
        None
    } else if entries[0].0 == key {
        Some(entries[0].1)
    } else {
        spec_obj_lookup(entries.drop_first(), key)
    }
}

/// A lookup skips any prefix of entries whose keys all differ from `key`.
proof fn lemma_obj_lookup_skip(entries: Seq<(Seq<char>, JsonV)>, key: Seq<char>, i: int)
    requires
        0 <= i <= entries.len(),
        forall|j: int| 0 <= j < i ==> entries[j].0 != key,
    ensures
        spec_obj_lookup(entries, key) == spec_obj_lookup(entries.skip(i), key),
    decreases i,
{
    if i > 0 {
        lemma_obj_lookup_skip(entries.drop_first(), key, i - 1);
        assert(entries.drop_first().skip(i - 1) =~= entries.skip(i));
    } else {
        assert(entries.skip(0) =~= entries);
    }
}

impl Json {
    /// A structurally equal copy of the document.
    pub fn deep_clone(&self) -> (r: Json)
        ensures
            r@ == self@,
        decreases self,
    {
        match self {
            Json::Null => Json::Null,
            Json::Bool(b) => Json::Bool(*b),
            Json::Num(s) => Json::Num(s.clone()),
            Json::Str(s) => Json::Str(s.clone()),
            Json::Arr(items) => {
                let mut out: Vec<Json> = Vec::new();
                let mut i: usize = 0;
                while i < items.len()
                    invariant
                        self matches Json::Arr(its) && its == items,
                        i <= items@.len(),
                        out@.len() == i,
                        forall|k: int| 0 <= k < i ==> out@[k]@ == items@[k]@,
                    decreases items@.len() - i,
                {
                    proof {
                        assert(decreases_to!(*self => self->Arr_0));
                        assert(self->Arr_0 == *items);
                        assert(decreases_to!(*items => items@[i as int]));
                    }
                    out.push(items[i].deep_clone());
                    i = i + 1;
                }
                let r = Json::Arr(out);
                proof {
                    assert(r@->Arr_0 =~= json_view(*self)->Arr_0);
                }
                r
            },
            Json::Obj(entries) => {
                let mut out: Vec<(String, Json)> = Vec::new();
                let mut i: usize = 0;
                while i < entries.len()
                    invariant
                        self matches Json::Obj(es) && es == entries,
                        i <= entries@.len(),
                        out@.len() == i,
                        forall|k: int|
                            0 <= k < i ==> out@[k].0@ == entries@[k].0@ && out@[k].1@
                                == entries@[k].1@,
                    decreases entries@.len() - i,
                {
                    proof {
                        assert(decreases_to!(*self => self->Obj_0));
                        assert(self->Obj_0 == *entries);
                        assert(decreases_to!(*entries => entries@[i as int]));
                        assert(decreases_to!(entries@[i as int] => entries@[i as int].1));
                    }
                    let pair = &entries[i];
                    out.push((pair.0.clone(), pair.1.deep_clone()));
                    i = i + 1;
                }
                let r = Json::Obj(out);
                proof {
                    assert(r@->Obj_0 =~= json_view(*self)->Obj_0);
                }
                r
            },
        }
    }

    /// Look `key` up in this document, which must be an object; the first
    /// pair with that key wins.
    pub fn get<'a>(&'a self, key: &str) -> (r: Option<&'a Json>)
        requires
            self is Obj,
        ensures
            match r {
                Some(j) => spec_obj_lookup(self@->Obj_0, key@) == Some(j@),
                None => spec_obj_lookup(self@->Obj_0, key@) is None,
            },
    {
        match self {
            Json::Obj(entries) => {
                let ghost entries_v = self@->Obj_0;
                let mut i: usize = 0;
                while i < entries.len()
                    invariant
                        self matches Json::Obj(e) && e == entries,
                        entries_v == json_view(*self)->Obj_0,
                        entries_v.len() == entries@.len(),
                        forall|j: int|
                            0 <= j < entries@.len() ==> entries_v[j] == (
                            entries@[j].0@,
                            json_view(entries@[j].1),
                            ),
                        i <= entries@.len(),
                        forall|j: int| 0 <= j < i ==> entries_v[j].0 != key@,
                    decreases entries@.len() - i,
                {
                    let pair = &entries[i];
                    if crate::strutil::str_eq(pair.0.as_str(), key) {
                        proof {
                            lemma_obj_lookup_skip(entries_v, key@, i as int);
                            assert(entries_v.skip(i as int)[0] == entries_v[i as int]);
                        }
                        return Some(&pair.1);
                    }
                    i = i + 1;
                }
                proof {
                    lemma_obj_lookup_skip(entries_v, key@, entries_v.len() as int);
                    assert(entries_v.skip(entries_v.len() as int) =~= Seq::<(Seq<char>, JsonV)>::empty());
                }
                None
            },
            _ => {
                proof {
                    assert(false);
                }
                None
            },
        }
    }
}

} // verus!
