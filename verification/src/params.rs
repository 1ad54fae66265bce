//! The parameter bag: an insertion-ordered map from names to JSON values,
//! threaded by reference through one request's whole dispatch.  Path
//! captures, query-string pairs and body members are merged into it in that
//! priority order, each layer only filling names not already present.
use vstd::prelude::*;

verus! {

use crate::json::{JsonValue, JsonV, view_json, view_json_obj, lemma_view_obj, spec_json_entries};
use crate::strutil::str_eq;

/// The shadow of a parameter bag: its name/value pairs in order.
pub type ParamsV = Seq<(Seq<char>, JsonV)>;

/// The position of `key` among the entries, or -1 when absent.
pub open spec fn spec_key_index(entries: ParamsV, key: Seq<char>) -> int
    decreases entries.len(),
{
    if entries.len() == 0 {
        -1
    } else if entries[0].0 == key {
        0
    } else {
        let rest = spec_key_index(entries.drop_first(), key);
        if rest == -1 {
            -1
        } else {
            rest + 1
        }
    }
}

/// Whether some entry carries `key`.
pub open spec fn spec_has_key(entries: ParamsV, key: Seq<char>) -> bool {
    spec_key_index(entries, key) != -1
}

/// The value stored under `key` (meaningful only when the key is there).
pub open spec fn spec_lookup(entries: ParamsV, key: Seq<char>) -> JsonV
    recommends
        spec_has_key(entries, key),
{
    entries[spec_key_index(entries, key)].1
}

/// The entries after writing `key = value`: an entry already under that
/// key is replaced in place, otherwise the pair is appended.
pub open spec fn spec_insert(entries: ParamsV, key: Seq<char>, value: JsonV) -> ParamsV {
    let i = spec_key_index(entries, key);
    if i == -1 {
        entries.push((key, value))
    } else {
        entries.update(i, (key, value))
    }
}

/// `spec_key_index` names the first entry with the given key, and -1 means
/// no entry has it.
pub proof fn lemma_key_index(entries: ParamsV, key: Seq<char>)
    ensures
        ({
            let i = spec_key_index(entries, key);
            &&& (i == -1 <==> (forall|j: int| 0 <= j < entries.len() ==> entries[j].0 != key))
            &&& (i != -1 ==> 0 <= i < entries.len() && entries[i].0 == key && (forall|j: int|
                0 <= j < i ==> entries[j].0 != key))
        }),
    decreases entries.len(),
{
    if entries.len() > 0 && entries[0].0 != key {
        lemma_key_index(entries.drop_first(), key);
        let rest = spec_key_index(entries.drop_first(), key);
        if rest == -1 {
            assert forall|j: int| 0 <= j < entries.len() implies entries[j].0 != key by {
                if j >= 1 {
                    assert(entries.drop_first()[j - 1] == entries[j]);
                }
            }
        } else {
            assert(entries.drop_first()[rest] == entries[rest + 1]);
            assert forall|j: int| 0 <= j < rest + 1 implies entries[j].0 != key by {
                if j >= 1 {
                    assert(entries.drop_first()[j - 1] == entries[j]);
                }
            }
        }
    }
}

/// The parameter bag.
#[derive(Debug, PartialEq)]
pub struct Params {
    pub entries: Vec<(String, JsonValue)>,
}

impl Params {
    /// The shadow of the bag.
    pub open spec fn view(&self) -> ParamsV {
        view_json_obj(self.entries@, 0)
    }

    /// An empty bag.
    pub fn new() -> (r: Params)
        ensures
            r.view() =~= Seq::<(Seq<char>, JsonV)>::empty(),
    {
        Params { entries: Vec::new() }
    }

    /// How many entries the bag holds.
    pub fn len(&self) -> (r: usize)
        ensures
            r == self.view().len(),
    {
        proof {
            lemma_view_obj(self.entries@, 0);
        }
        self.entries.len()
    }

    /// Whether `key` is present.
    pub fn contains_key(&self, key: &str) -> (r: bool)
        ensures
            r == spec_has_key(self.view(), key@),
    {
        match self.position(key) {
            Some(_) => true,
            None => false,
        }
    }

    /// The value under `key`, when the bag holds one.
    pub fn find(&self, key: &str) -> (r: Option<&JsonValue>)
        ensures
            match r {
                Some(v) => spec_has_key(self.view(), key@) && view_json(*v) == spec_lookup(
                    self.view(),
                    key@,
                ),
                None => !spec_has_key(self.view(), key@),
            },
    {
        match self.position(key) {
            Some(i) => {
                proof {
                    lemma_view_obj(self.entries@, 0);
                }
                Some(&self.entries[i].1)
            },
            None => None,
        }
    }

    /// The position of the entry under `key`.
    fn position(&self, key: &str) -> (r: Option<usize>)
        ensures
            match r {
                Some(i) => i == spec_key_index(self.view(), key@) && i < self.entries@.len()
                    && self.entries@[i as int].0@ == key@,
                None => !spec_has_key(self.view(), key@),
            },
    {
        proof {
            lemma_view_obj(self.entries@, 0);
            lemma_key_index(self.view(), key@);
        }
        let mut i: usize = 0;
        while i < self.entries.len()
            invariant
                0 <= i <= self.entries@.len(),
                forall|j: int| 0 <= j < i ==> self.entries@[j].0@ != key@,
            decreases self.entries@.len() - i,
        {
            if str_eq(self.entries[i].0.as_str(), key) {
                proof {
                    lemma_view_obj(self.entries@, 0);
                    lemma_key_index(self.view(), key@);
                    assert forall|j: int| 0 <= j < i implies self.view()[j].0 != key@ by {
                        assert(self.view()[j].0 == self.entries@[j].0@);
                    }
                    assert(self.view()[i as int].0 == key@);
                    assert(spec_key_index(self.view(), key@) == i);
                }
                return Some(i);
            }
            i += 1;
        }
        proof {
            lemma_view_obj(self.entries@, 0);
            lemma_key_index(self.view(), key@);
            assert forall|j: int| 0 <= j < self.view().len() implies self.view()[j].0 != key@ by {
                assert(self.view()[j].0 == self.entries@[j].0@);
            }
        }
        None
    }

    /// Writes `key = value`, replacing any value already under that key.
    pub fn insert(&mut self, key: String, value: JsonValue)
        ensures
            final(self).view() == spec_insert(old(self).view(), key@, view_json(value)),
    {
        proof {
            lemma_view_obj(self.entries@, 0);
        }
        let ghost target = spec_insert(self.view(), key@, view_json(value));
        match self.position(key.as_str()) {
            Some(i) => {
                self.entries.set(i, (key, value));
                proof {
                    lemma_view_obj(old(self).entries@, 0);
                    lemma_view_obj(self.entries@, 0);
                    assert forall|k: int| 0 <= k < self.view().len() implies self.view()[k]
                        == target[k] by {
                        assert(self.view()[k] == (self.entries@[k].0@, view_json(
                            self.entries@[k].1,
                        )));
                        assert(old(self).view()[k] == (old(self).entries@[k].0@, view_json(
                            old(self).entries@[k].1,
                        )));
                        if k != i {
                            assert(self.entries@[k] == old(self).entries@[k]);
                        }
                    }
                    assert(self.view() =~= target);
                }
            },
            None => {
                self.entries.push((key, value));
                proof {
                    lemma_view_obj(old(self).entries@, 0);
                    lemma_view_obj(self.entries@, 0);
                    assert forall|k: int| 0 <= k < self.view().len() implies self.view()[k]
                        == target[k] by {
                        assert(self.view()[k] == (self.entries@[k].0@, view_json(
                            self.entries@[k].1,
                        )));
                        if k < old(self).entries@.len() {
                            assert(old(self).view()[k] == (old(self).entries@[k].0@, view_json(
                                old(self).entries@[k].1,
                            )));
                            assert(self.entries@[k] == old(self).entries@[k]);
                        }
                    }
                    assert(self.view() =~= target);
                }
            },
        }
    }

    /// The bag serialized as a compact JSON object, entries in insertion
    /// order.
    pub fn to_json_string(&self) -> (r: String)
        ensures
            r@ == seq!['{'] + spec_json_entries(self.view(), 0) + seq!['}'],
    {
        let mut out = String::new();
        JsonValue::write_object_body(&self.entries, &mut out);
        proof {
            assert(out@ =~= seq!['{'] + spec_json_entries(self.view(), 0) + seq!['}']);
        }
        out
    }
}

} // verus!
