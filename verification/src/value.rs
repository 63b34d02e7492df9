//! The dynamically typed value tree, its mathematical model, and the lookup
//! of dotted paths in it.

use vstd::prelude::*;
use vstd::slice::slice_subrange;
use crate::json::{compact_text, json_text};
use crate::text::{find_char, scan_for, string_of};

verus! {

/// A node of the value tree.
///
/// A number is held as its decimal text. A mapping is an association list in
/// which, for a key that occurs more than once, the last entry counts.
#[derive(Debug, PartialEq)]
pub enum Json {
    Null,
    Bool(bool),
    Number(String),
    String(String),
    Sequence(Vec<Json>),
    Mapping(Vec<(String, Json)>),
}

/// The mathematical model of a [`Json`].
pub enum Tree {
    Null,
    Bool(bool),
    Number(Seq<char>),
    Text(Seq<char>),
    List(Seq<Tree>),
    Record(Map<Seq<char>, Tree>),
}

/// The model of a value.
pub open spec fn tree_of(v: Json) -> Tree
    decreases v, 0nat,
{
    match v {
        Json::Null => Tree::Null,
        Json::Bool(b) => Tree::Bool(b),
        Json::Number(t) => Tree::Number(t@),
        Json::String(s) => Tree::Text(s@),
        Json::Sequence(items) => Tree::List(list_of(items@)),
        Json::Mapping(entries) => Tree::Record(record_of(entries@)),
    }
}

/// The models of the values of a sequence, in order.
pub open spec fn list_of(items: Seq<Json>) -> Seq<Tree>
    decreases items, 1nat,
{
    if items.len() == 0 {
        Seq::empty()
    } else {
        list_of(items.drop_last()).push(tree_of(items.last()))
    }
}

/// The map that an association list stands for: a later entry overrides an
/// earlier one with the same key.
pub open spec fn record_of(entries: Seq<(String, Json)>) -> Map<Seq<char>, Tree>
    decreases entries, 1nat,
{
    if entries.len() == 0 {
        Map::empty()
    } else {
        record_of(entries.drop_last()).insert(entries.last().0@, tree_of(entries.last().1))
    }
}

impl View for Json {
    type V = Tree;

    open spec fn view(&self) -> Tree {
        tree_of(*self)
    }
}

/// The value found by going down from `v` key by key along the dotted path
/// that starts at position `from` of `path`. Only a mapping has keys.
pub open spec fn descend(v: Tree, path: Seq<char>, from: int) -> Option<Tree>
    decreases path.len() - from,
{
    let e = find_char(path, from, '.');
    let key = path.subrange(from, e);
    match v {
        Tree::Record(m) => if !m.contains_key(key) {
            None
        } else if from <= e < path.len() {
            descend(m[key], path, e + 1)
        } else {
            Some(m[key])
        },
        _ => None,
    }
}

/// The value at a dotted path below `v`, if every key of the path is there.
pub open spec fn resolve(v: Tree, path: Seq<char>) -> Option<Tree> {
    descend(v, path, 0)
}

/// The text a value is rendered as: a string as it is, anything else as
/// compact JSON.
pub open spec fn text_of(v: Tree) -> Seq<char> {
    match v {
        Tree::Text(s) => s,
        _ => json_text(v),
    }
}

/// The items a loop runs over: those of a list, and any other value alone.
pub open spec fn items_of(v: Tree) -> Seq<Tree> {
    match v {
        Tree::List(items) => items,
        _ => seq![v],
    }
}

/// The model of a list, item by item.
pub proof fn lemma_list_of(items: Seq<Json>)
    ensures
        list_of(items).len() == items.len(),
        forall|i: int| 0 <= i < items.len() ==> #[trigger] list_of(items)[i] == tree_of(items[i]),
    decreases items.len(),
{
    if items.len() > 0 {
        lemma_list_of(items.drop_last());
    }
}

/// Pushing an item onto a list pushes its model onto the list's model.
pub proof fn lemma_list_push(items: Seq<Json>, v: Json)
    ensures
        list_of(items.push(v)) == list_of(items).push(tree_of(v)),
{
    assert(items.push(v).drop_last() =~= items);
}

/// Pushing an entry onto an association list inserts it into the map.
pub proof fn lemma_record_push(entries: Seq<(String, Json)>, e: (String, Json))
    ensures
        record_of(entries.push(e)) == record_of(entries).insert(e.0@, tree_of(e.1)),
{
    assert(entries.push(e).drop_last() =~= entries);
}

/// A key that no entry from `i` on holds is looked up among the entries
/// before `i`.
pub proof fn lemma_record_skip(entries: Seq<(String, Json)>, key: Seq<char>, i: int)
    requires
        0 <= i <= entries.len(),
        forall|j: int| i <= j < entries.len() ==> (#[trigger] entries[j]).0@ != key,
    ensures
        record_of(entries).contains_key(key) == record_of(entries.take(i)).contains_key(key),
        record_of(entries).contains_key(key) ==> record_of(entries)[key] == record_of(
            entries.take(i),
        )[key],
    decreases entries.len() - i,
{
    if i == entries.len() {
        assert(entries.take(i) =~= entries);
    } else {
        let shorter = entries.drop_last();
        assert forall|j: int| i <= j < shorter.len() implies (#[trigger] shorter[j]).0@ != key by {
            assert(shorter[j] == entries[j]);
        }
        lemma_record_skip(shorter, key, i);
        assert(shorter.take(i) =~= entries.take(i));
        assert(entries.last() == entries[entries.len() - 1]);
    }
}

impl Clone for Json {
    #[verifier::loop_isolation(false)]
    fn clone(&self) -> (r: Self)
        ensures
            r@ == self@,
        decreases self,
    {
        match self {
            Json::Null => Json::Null,
            Json::Bool(b) => Json::Bool(*b),
            Json::Number(t) => Json::Number(t.clone()),
            Json::String(s) => Json::String(s.clone()),
            Json::Sequence(items) => {
                let mut out: Vec<Json> = Vec::new();
                let mut i: usize = 0;
                while i < items.len()
                    invariant
                        i <= items.len(),
                        list_of(out@) == list_of(items@.take(i as int)),
                    decreases items.len() - i,
                {
                    proof {
                        vstd::std_specs::vec::axiom_vec_index_decreases(*items, i as int);
                    }
                    let c = items[i].clone();
                    proof {
                        lemma_list_push(out@, c);
                        lemma_list_push(items@.take(i as int), items@[i as int]);
                        assert(items@.take(i + 1) =~= items@.take(i as int).push(items@[i as int]));
                    }
                    out.push(c);
                    i += 1;
                }
                assert(items@.take(items.len() as int) =~= items@);
                Json::Sequence(out)
            },
            Json::Mapping(entries) => {
                let mut out: Vec<(String, Json)> = Vec::new();
                let mut i: usize = 0;
                while i < entries.len()
                    invariant
                        i <= entries.len(),
                        record_of(out@) == record_of(entries@.take(i as int)),
                    decreases entries.len() - i,
                {
                    proof {
                        vstd::std_specs::vec::axiom_vec_index_decreases(*entries, i as int);
                    }
                    let k = entries[i].0.clone();
                    let c = entries[i].1.clone();
                    proof {
                        lemma_record_push(out@, (k, c));
                        lemma_record_push(entries@.take(i as int), entries@[i as int]);
                        assert(entries@.take(i + 1) =~= entries@.take(i as int).push(
                            entries@[i as int],
                        ));
                    }
                    out.push((k, c));
                    i += 1;
                }
                assert(entries@.take(entries.len() as int) =~= entries@);
                Json::Mapping(out)
            },
        }
    }
}

/// A copy of an association list that stands for the same map.
pub fn clone_entries(entries: &Vec<(String, Json)>) -> (out: Vec<(String, Json)>)
    ensures
        record_of(out@) == record_of(entries@),
{
    let mut out: Vec<(String, Json)> = Vec::new();
    let mut i: usize = 0;
    while i < entries.len()
        invariant
            i <= entries.len(),
            record_of(out@) == record_of(entries@.take(i as int)),
        decreases entries.len() - i,
    {
        let k = entries[i].0.clone();
        let c = entries[i].1.clone();
        proof {
            lemma_record_push(out@, (k, c));
            lemma_record_push(entries@.take(i as int), entries@[i as int]);
            assert(entries@.take(i + 1) =~= entries@.take(i as int).push(entries@[i as int]));
        }
        out.push((k, c));
        i += 1;
    }
    assert(entries@.take(entries.len() as int) =~= entries@);
    out
}

/// Looks a key up in an association list; the last entry with the key counts.
pub fn lookup<'a>(entries: &'a Vec<(String, Json)>, key: &String) -> (r: Option<&'a Json>)
    ensures
        match r {
            Some(v) => record_of(entries@).contains_key(key@) && record_of(entries@)[key@] == v@,
            None => !record_of(entries@).contains_key(key@),
        },
{
    let mut i: usize = entries.len();
    while i > 0
        invariant
            i <= entries.len(),
            forall|j: int| i <= j < entries.len() ==> (#[trigger] entries@[j]).0@ != key@,
        decreases i,
    {
        i -= 1;
        if entries[i].0 == *key {
            proof {
                lemma_record_skip(entries@, key@, i + 1);
                assert(entries@.take(i + 1).drop_last() =~= entries@.take(i as int));
                assert(entries@.take(i + 1).last() == entries@[i as int]);
            }
            return Some(&entries[i].1);
        }
    }
    proof {
        lemma_record_skip(entries@, key@, 0);
    }
    None
}

/// Goes down from `root` along the dotted path that starts at position `from`
/// of `path`.
pub fn resolve_from<'a>(root: &'a Json, path: &[char], from: usize) -> (r: Option<&'a Json>)
    requires
        from <= path@.len(),
    ensures
        match r {
            Some(v) => descend(root@, path@, from as int) == Some(v@),
            None => descend(root@, path@, from as int) is None,
        },
{
    let n = path.len();
    let mut cur: &Json = root;
    let mut at: usize = from;
    loop
        invariant
            n == path@.len(),
            at <= n,
            descend(cur@, path@, at as int) == descend(root@, path@, from as int),
        decreases n - at,
    {
        let e = scan_for(path, at, '.');
        let key = string_of(slice_subrange(path, at, e));
        match cur {
            Json::Mapping(entries) => {
                match lookup(entries, &key) {
                    Some(v) => {
                        if e < n {
                            cur = v;
                            at = e + 1;
                        } else {
                            return Some(v);
                        }
                    },
                    None => {
                        return None;
                    },
                }
            },
            _ => {
                return None;
            },
        }
    }
}

/// Resolves a dotted path below a value.
pub fn resolve_path<'a>(root: &'a Json, path: &[char]) -> (r: Option<&'a Json>)
    ensures
        match r {
            Some(v) => resolve(root@, path@) == Some(v@),
            None => resolve(root@, path@) is None,
        },
{
    resolve_from(root, path, 0)
}

/// Resolves a dotted path in a context given as an association list.
pub fn resolve_in<'a>(entries: &'a Vec<(String, Json)>, path: &[char]) -> (r: Option<&'a Json>)
    ensures
        match r {
            Some(v) => resolve(Tree::Record(record_of(entries@)), path@) == Some(v@),
            None => resolve(Tree::Record(record_of(entries@)), path@) is None,
        },
{
    let e = scan_for(path, 0, '.');
    let key = string_of(slice_subrange(path, 0, e));
    match lookup(entries, &key) {
        Some(v) => {
            if e < path.len() {
                resolve_from(v, path, e + 1)
            } else {
                Some(v)
            }
        },
        None => None,
    }
}

/// The text a value is rendered as.
pub fn value_to_string(v: &Json) -> (s: String)
    ensures
        s@ == text_of(v@),
{
    match v {
        Json::String(s) => s.clone(),
        _ => compact_text(v),
    }
}

} // verus!
