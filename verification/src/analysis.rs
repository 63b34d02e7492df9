//! The shape analyser: a read-only pass over a template that infers, for each
//! top-level variable, whether the template uses it as a scalar, as a list of
//! scalars, or as a list of records with given fields.

use vstd::prelude::*;
use vstd::slice::slice_subrange;
use crate::nesting::{closing_tag, find_close, lemma_closing_tag};
use crate::pattern::{
    find_open, find_var, first_open, first_var, lemma_find_open, lemma_find_var, LoopOpen,
    OpenSpan,
};
use crate::text::{chars_of, find_char, scan_for, string_of};
use crate::value::{lemma_list_of, lemma_record_push, list_of, record_of, Json, Tree};

verus! {

/// How a template uses a variable.
#[derive(Debug, PartialEq)]
pub enum VarUsage {
    /// A scalar: `{{ var }}`.
    Simple,
    /// A list of scalars: a loop over it whose body reads no field of the item.
    CollectionOfSimple,
    /// A list of records: a loop over it whose body reads these fields of the
    /// item. The fields are an association list; for a name that occurs more
    /// than once the last entry counts.
    CollectionOfObjects(Vec<(String, VarUsage)>),
}

/// The mathematical model of a [`VarUsage`].
pub enum Shape {
    Simple,
    CollectionOfSimple,
    CollectionOfObjects(Map<Seq<char>, Shape>),
}

/// The model of a usage.
pub open spec fn shape_of(u: VarUsage) -> Shape
    decreases u, 0nat,
{
    match u {
        VarUsage::Simple => Shape::Simple,
        VarUsage::CollectionOfSimple => Shape::CollectionOfSimple,
        VarUsage::CollectionOfObjects(fields) => Shape::CollectionOfObjects(fields_of(fields@)),
    }
}

/// The map that an association list of usages stands for: a later entry
/// overrides an earlier one with the same name.
pub open spec fn fields_of(fields: Seq<(String, VarUsage)>) -> Map<Seq<char>, Shape>
    decreases fields, 1nat,
{
    if fields.len() == 0 {
        Map::empty()
    } else {
        fields_of(fields.drop_last()).insert(fields.last().0@, shape_of(fields.last().1))
    }
}

impl View for VarUsage {
    type V = Shape;

    open spec fn view(&self) -> Shape {
        shape_of(*self)
    }
}

/// Whether no name occurs twice in an association list.
pub open spec fn distinct_names(fields: Seq<(String, VarUsage)>) -> bool {
    forall|i: int, j: int|
        0 <= i < j < fields.len() ==> (#[trigger] fields[i]).0@ != (#[trigger] fields[j]).0@
}

/// Whether no name occurs twice among the fields of a usage, nor among the
/// fields of the usages below it.
pub open spec fn tidy(u: VarUsage) -> bool
    decreases u, 0nat,
{
    match u {
        VarUsage::CollectionOfObjects(fields) => tidy_fields(fields@),
        _ => true,
    }
}

/// Whether no name occurs twice in an association list, nor among the fields
/// of the usages in it.
pub open spec fn tidy_fields(fields: Seq<(String, VarUsage)>) -> bool
    decreases fields, 1nat,
{
    &&& distinct_names(fields)
    &&& forall|i: int| 0 <= i < fields.len() ==> tidy((#[trigger] fields[i]).1)
}

/// The names that a list of names holds.
pub open spec fn name_set(names: Seq<String>) -> Set<Seq<char>> {
    Set::new(|n: Seq<char>| exists|i: int| 0 <= i < names.len() && (#[trigger] names[i])@ == n)
}

/// A word that the template language keeps for itself.
pub open spec fn is_reserved(name: Seq<char>) -> bool {
    name == "endfor"@ || name == "in"@
}

/// The first segment of a dotted path.
pub open spec fn head(path: Seq<char>) -> Seq<char> {
    path.subrange(0, find_char(path, 0, '.'))
}

/// The field of the loop item `item` that the dotted path `path` reads: the
/// segment that follows the item's name.
pub open spec fn property_of(path: Seq<char>, item: Seq<char>) -> Option<Seq<char>> {
    if path.len() > item.len() && path.subrange(0, item.len() as int) == item && path[item.len() as int]
        == '.' {
        Some(head(path.subrange(item.len() as int + 1, path.len() as int)))
    } else {
        None
    }
}

/// The shape of a list whose items have the given fields.
pub open spec fn usage_of(fields: Map<Seq<char>, Shape>) -> Shape {
    if fields == Map::<Seq<char>, Shape>::empty() {
        Shape::CollectionOfSimple
    } else {
        Shape::CollectionOfObjects(fields)
    }
}

/// The body of the loop that `open` opens in `s`: the text between the tag and
/// the tag that closes the loop. Empty where no tag closes it.
pub open spec fn body_of(s: Seq<char>, open: OpenSpan) -> Seq<char> {
    let rest = s.subrange(open.end, s.len() as int);
    match closing_tag(rest) {
        Some(close) => rest.subrange(0, close.start),
        None => Seq::empty(),
    }
}

/// The item names of all the loops that open in `s` from `from` on.
pub open spec fn loop_names(s: Seq<char>, from: int) -> Set<Seq<char>>
    decreases s.len() - from,
{
    match find_open(s, from) {
        Some(o) => if from < o.end <= s.len() {
            loop_names(s, o.end).insert(o.item)
        } else {
            set![o.item]
        },
        None => Set::empty(),
    }
}

/// The fields of `item` that the loops of `body` from `from` on run over,
/// added to `acc`. A loop over `item.field` gives `field` the shape found in
/// that loop's own body.
pub open spec fn loop_fields(body: Seq<char>, from: int, item: Seq<char>, acc: Map<Seq<char>, Shape>) -> Map<
    Seq<char>,
    Shape,
>
    decreases body.len(), body.len() - from,
{
    match find_open(body, from) {
        Some(o) => if from < o.end <= body.len() {
            let inner = body_of(body, o);
            let found = if inner.len() < body.len() {
                fields(inner, o.item)
            } else {
                Map::empty()
            };
            let next = match property_of(o.source, item) {
                Some(field) => acc.insert(field, usage_of(found)),
                None => acc,
            };
            loop_fields(body, o.end, item, next)
        } else {
            acc
        },
        None => acc,
    }
}

/// The fields of `item` that the variable references of `body` from `from` on
/// read, added to `acc` as scalars where `acc` does not hold them yet.
pub open spec fn var_fields(body: Seq<char>, from: int, item: Seq<char>, acc: Map<Seq<char>, Shape>) -> Map<
    Seq<char>,
    Shape,
>
    decreases body.len() - from,
{
    match find_var(body, from) {
        Some(v) => if from < v.end <= body.len() {
            let next = match property_of(v.path, item) {
                Some(field) => if acc.contains_key(field) {
                    acc
                } else {
                    acc.insert(field, Shape::Simple)
                },
                None => acc,
            };
            var_fields(body, v.end, item, next)
        } else {
            acc
        },
        None => acc,
    }
}

/// The fields of the loop item `item` that a loop body uses: those that a
/// loop in the body runs over, with the shape of that loop, and those that a
/// variable reference reads, as scalars.
pub open spec fn fields(body: Seq<char>, item: Seq<char>) -> Map<Seq<char>, Shape>
    decreases body.len(), body.len() + 1,
{
    var_fields(body, 0, item, loop_fields(body, 0, item, Map::empty()))
}

/// The variables that the loops of `s` from `from` on run over, added to
/// `acc`. A loop counts where its source is a plain path whose first segment
/// is no loop item.
pub open spec fn loop_vars(s: Seq<char>, from: int, names: Set<Seq<char>>, acc: Map<Seq<char>, Shape>) -> Map<
    Seq<char>,
    Shape,
>
    decreases s.len() - from,
{
    match find_open(s, from) {
        Some(o) => if from < o.end <= s.len() {
            let base = head(o.source);
            let next = if names.contains(base) || o.args is Some {
                acc
            } else {
                acc.insert(base, usage_of(fields(body_of(s, o), o.item)))
            };
            loop_vars(s, o.end, names, next)
        } else {
            acc
        },
        None => acc,
    }
}

/// The variables that the variable references of `s` from `from` on read,
/// added to `acc` as scalars: those that are no reserved word and no loop
/// item, and that `acc` does not hold yet.
pub open spec fn plain_vars(s: Seq<char>, from: int, names: Set<Seq<char>>, acc: Map<Seq<char>, Shape>) -> Map<
    Seq<char>,
    Shape,
>
    decreases s.len() - from,
{
    match find_var(s, from) {
        Some(v) => if from < v.end <= s.len() {
            let base = head(v.path);
            let next = if is_reserved(base) || names.contains(base) || acc.contains_key(base) {
                acc
            } else {
                acc.insert(base, Shape::Simple)
            };
            plain_vars(s, v.end, names, next)
        } else {
            acc
        },
        None => acc,
    }
}

/// The top-level variables of a template, each with the shape the template
/// uses it in.
pub open spec fn variables(s: Seq<char>) -> Map<Seq<char>, Shape> {
    let names = loop_names(s, 0);
    plain_vars(s, 0, names, loop_vars(s, 0, names, Map::empty()))
}

/// The example value for a shape: an empty string for a scalar, an empty list
/// for a list of scalars, and a list of one record, with an example value for
/// each field, for a list of records.
pub open spec fn scaffold(shape: Shape) -> Tree
    decreases shape,
{
    match shape {
        Shape::Simple => Tree::Text(Seq::empty()),
        Shape::CollectionOfSimple => Tree::List(Seq::empty()),
        Shape::CollectionOfObjects(fields) => Tree::List(
            seq![
                Tree::Record(
                    Map::new(
                        |k: Seq<char>| fields.contains_key(k),
                        |k: Seq<char>|
                            if fields.contains_key(k) {
                                scaffold(fields[k])
                            } else {
                                Tree::Null
                            },
                    ),
                ),
            ],
        ),
    }
}

/// The example record for the fields of a list of records: each field with
/// the example value for its shape.
pub open spec fn scaffold_fields(fields: Map<Seq<char>, Shape>) -> Map<Seq<char>, Tree> {
    Map::new(
        |k: Seq<char>| fields.contains_key(k),
        |k: Seq<char>|
            if fields.contains_key(k) {
                scaffold(fields[k])
            } else {
                Tree::Null
            },
    )
}

/// The example value for a list of records is a list of one example record.
pub proof fn lemma_scaffold_records(fields: Map<Seq<char>, Shape>)
    ensures
        scaffold(Shape::CollectionOfObjects(fields)) == Tree::List(
            seq![Tree::Record(scaffold_fields(fields))],
        ),
{
    let whole = scaffold(Shape::CollectionOfObjects(fields));
    let items = whole->List_0;
    assert(items.len() == 1);
    assert(items[0]->Record_0 =~= scaffold_fields(fields));
    assert(items =~= seq![Tree::Record(scaffold_fields(fields))]);
}

/// Pushing an entry onto an association list inserts it into the map.
pub proof fn lemma_fields_push(fields: Seq<(String, VarUsage)>, e: (String, VarUsage))
    ensures
        fields_of(fields.push(e)) == fields_of(fields).insert(e.0@, shape_of(e.1)),
{
    assert(fields.push(e).drop_last() =~= fields);
}

/// Only the empty association list stands for the empty map.
pub proof fn lemma_fields_empty(fields: Seq<(String, VarUsage)>)
    ensures
        fields_of(fields) == Map::<Seq<char>, Shape>::empty() <==> fields.len() == 0,
{
    if fields.len() > 0 {
        assert(fields_of(fields).contains_key(fields.last().0@));
    }
}

/// A name that no entry from `i` on holds is looked up among the entries
/// before `i`.
pub proof fn lemma_fields_skip(fields: Seq<(String, VarUsage)>, key: Seq<char>, i: int)
    requires
        0 <= i <= fields.len(),
        forall|j: int| i <= j < fields.len() ==> (#[trigger] fields[j]).0@ != key,
    ensures
        fields_of(fields).contains_key(key) == fields_of(fields.take(i)).contains_key(key),
        fields_of(fields).contains_key(key) ==> fields_of(fields)[key] == fields_of(fields.take(i))[key],
    decreases fields.len() - i,
{
    if i == fields.len() {
        assert(fields.take(i) =~= fields);
    } else {
        let shorter = fields.drop_last();
        assert forall|j: int| i <= j < shorter.len() implies (#[trigger] shorter[j]).0@ != key by {
            assert(shorter[j] == fields[j]);
        }
        lemma_fields_skip(shorter, key, i);
        assert(shorter.take(i) =~= fields.take(i));
        assert(fields.last() == fields[fields.len() - 1]);
    }
}

/// Replacing the last entry that holds a name inserts the new entry into the
/// map.
pub proof fn lemma_fields_update(fields: Seq<(String, VarUsage)>, i: int, e: (String, VarUsage))
    requires
        0 <= i < fields.len(),
        fields[i].0@ == e.0@,
        forall|j: int| i < j < fields.len() ==> (#[trigger] fields[j]).0@ != e.0@,
    ensures
        fields_of(fields.update(i, e)) =~= fields_of(fields).insert(e.0@, shape_of(e.1)),
    decreases fields.len(),
{
    let changed = fields.update(i, e);
    if i == fields.len() - 1 {
        assert(changed.drop_last() =~= fields.drop_last());
        assert(changed.last() == e);
    } else {
        let shorter = fields.drop_last();
        assert forall|j: int| i < j < shorter.len() implies (#[trigger] shorter[j]).0@ != e.0@ by {
            assert(shorter[j] == fields[j]);
        }
        lemma_fields_update(shorter, i, e);
        assert(changed.drop_last() =~= shorter.update(i, e));
        assert(changed.last() == fields.last());
        assert(fields.last() == fields[fields.len() - 1]);
    }
}

impl Clone for VarUsage {
    #[verifier::loop_isolation(false)]
    fn clone(&self) -> (r: Self)
        ensures
            r@ == self@,
        decreases self,
    {
        match self {
            VarUsage::Simple => VarUsage::Simple,
            VarUsage::CollectionOfSimple => VarUsage::CollectionOfSimple,
            VarUsage::CollectionOfObjects(fields) => {
                let mut out: Vec<(String, VarUsage)> = Vec::new();
                let mut i: usize = 0;
                while i < fields.len()
                    invariant
                        i <= fields.len(),
                        fields_of(out@) == fields_of(fields@.take(i as int)),
                    decreases fields.len() - i,
                {
                    proof {
                        vstd::std_specs::vec::axiom_vec_index_decreases(*fields, i as int);
                    }
                    let name = fields[i].0.clone();
                    let usage = fields[i].1.clone();
                    proof {
                        lemma_fields_push(out@, (name, usage));
                        lemma_fields_push(fields@.take(i as int), fields@[i as int]);
                        assert(fields@.take(i + 1) =~= fields@.take(i as int).push(
                            fields@[i as int],
                        ));
                    }
                    out.push((name, usage));
                    i += 1;
                }
                assert(fields@.take(fields.len() as int) =~= fields@);
                VarUsage::CollectionOfObjects(out)
            },
        }
    }
}

/// Tests whether a list of names holds a name.
pub fn has_name(names: &Vec<String>, name: &String) -> (r: bool)
    ensures
        r == name_set(names@).contains(name@),
{
    let mut i: usize = 0;
    while i < names.len()
        invariant
            i <= names.len(),
            forall|j: int| 0 <= j < i ==> (#[trigger] names@[j])@ != name@,
        decreases names.len() - i,
    {
        if names[i] == *name {
            return true;
        }
        i += 1;
    }
    false
}

/// The index of the last entry that holds a name.
pub fn field_index(fields: &Vec<(String, VarUsage)>, key: &String) -> (r: Option<usize>)
    ensures
        match r {
            Some(i) => i < fields.len() && fields@[i as int].0@ == key@ && fields_of(
                fields@,
            ).contains_key(key@) && fields_of(fields@)[key@] == fields@[i as int].1@ && forall|
                j: int,
            | i < j < fields.len() ==> (#[trigger] fields@[j]).0@ != key@,
            None => !fields_of(fields@).contains_key(key@) && forall|j: int|
                0 <= j < fields.len() ==> (#[trigger] fields@[j]).0@ != key@,
        },
{
    let mut i: usize = fields.len();
    while i > 0
        invariant
            i <= fields.len(),
            forall|j: int| i <= j < fields.len() ==> (#[trigger] fields@[j]).0@ != key@,
        decreases i,
    {
        i -= 1;
        if fields[i].0 == *key {
            proof {
                lemma_fields_skip(fields@, key@, i + 1);
                assert(fields@.take(i + 1).drop_last() =~= fields@.take(i as int));
                assert(fields@.take(i + 1).last() == fields@[i as int]);
            }
            return Some(i);
        }
    }
    proof {
        lemma_fields_skip(fields@, key@, 0);
    }
    None
}

/// Looks up the usage recorded under a name.
pub fn field<'a>(fields: &'a Vec<(String, VarUsage)>, key: &String) -> (r: Option<&'a VarUsage>)
    ensures
        match r {
            Some(u) => fields_of(fields@).contains_key(key@) && fields_of(fields@)[key@] == u@,
            None => !fields_of(fields@).contains_key(key@),
        },
{
    match field_index(fields, key) {
        Some(i) => Some(&fields[i].1),
        None => None,
    }
}

/// Records a usage under a name, in place of the one recorded before if there
/// is one.
pub fn put(fields: &mut Vec<(String, VarUsage)>, key: String, usage: VarUsage)
    ensures
        fields_of(final(fields)@) == fields_of(old(fields)@).insert(key@, usage@),
        tidy_fields(old(fields)@) && tidy(usage) ==> tidy_fields(final(fields)@),
{
    match field_index(fields, &key) {
        Some(i) => {
            proof {
                lemma_fields_update(fields@, i as int, (key, usage));
            }
            fields[i] = (key, usage);
        },
        None => {
            proof {
                lemma_fields_push(fields@, (key, usage));
            }
            fields.push((key, usage));
        },
    }
}

/// The first segment of a dotted path.
pub fn head_of(path: &[char]) -> (r: String)
    ensures
        r@ == head(path@),
{
    let e = scan_for(path, 0, '.');
    string_of(slice_subrange(path, 0, e))
}

/// The field of the loop item `item` that the dotted path `path` reads.
pub fn field_read(path: &[char], item: &[char]) -> (r: Option<String>)
    ensures
        match r {
            Some(f) => property_of(path@, item@) == Some(f@),
            None => property_of(path@, item@) is None,
        },
{
    let n = item.len();
    if path.len() <= n {
        return None;
    }
    let mut i: usize = 0;
    while i < n
        invariant
            i <= n == item@.len(),
            n < path@.len(),
            forall|j: int| 0 <= j < i ==> path@[j] == item@[j],
        decreases n - i,
    {
        if path[i] != item[i] {
            assert(path@.subrange(0, n as int)[i as int] == path@[i as int]);
            return None;
        }
        i += 1;
    }
    assert(path@.subrange(0, n as int) =~= item@);
    if path[n] != '.' {
        return None;
    }
    Some(head_of(slice_subrange(path, n + 1, path.len())))
}

/// Finds the body of the loop that `open` opens in `chunk`.
pub fn find_loop_body<'a>(chunk: &'a [char], open: &LoopOpen) -> (body: &'a [char])
    requires
        open.end <= chunk@.len(),
    ensures
        body@ == body_of(chunk@, open@),
{
    let rest = slice_subrange(chunk, open.end, chunk.len());
    match find_close(rest) {
        Some(close) => {
            proof {
                lemma_closing_tag(rest@);
            }
            slice_subrange(rest, 0, close.start)
        },
        None => slice_subrange(rest, 0, 0),
    }
}

/// The shape of a list whose items have the given fields.
pub fn usage_from(found: Vec<(String, VarUsage)>) -> (u: VarUsage)
    ensures
        u@ == usage_of(fields_of(found@)),
        tidy_fields(found@) ==> tidy(u),
{
    proof {
        lemma_fields_empty(found@);
    }
    if found.len() == 0 {
        VarUsage::CollectionOfSimple
    } else {
        VarUsage::CollectionOfObjects(found)
    }
}

/// Collects the item names of all the loops of `s`.
pub fn loop_items(s: &[char]) -> (names: Vec<String>)
    ensures
        name_set(names@) == loop_names(s@, 0),
{
    let n = s.len();
    let mut names: Vec<String> = Vec::new();
    let mut pos: usize = 0;
    loop
        invariant
            n == s@.len(),
            pos <= n,
            name_set(names@).union(loop_names(s@, pos as int)) == loop_names(s@, 0),
        decreases n - pos,
    {
        match first_open(s, pos) {
            None => {
                assert(name_set(names@) =~= name_set(names@).union(Set::empty()));
                return names;
            },
            Some(o) => {
                proof {
                    lemma_find_open(s@, pos as int);
                }
                let name = string_of(o.item.as_slice());
                let ghost before = names@;
                names.push(name);
                proof {
                    assert(names@[before.len() as int]@ == o.item@);
                    assert forall|x: Seq<char>|
                        name_set(names@).contains(x) <==> name_set(before).insert(o.item@).contains(
                            x,
                        ) by {
                        if name_set(before).contains(x) {
                            let i = choose|i: int| 0 <= i < before.len() && (#[trigger] before[i])@ == x;
                            assert(names@[i] == before[i]);
                        }
                        if name_set(names@).contains(x) && x != o.item@ {
                            let i = choose|i: int| 0 <= i < names@.len() && (#[trigger] names@[i])@ == x;
                            assert(before[i] == names@[i]);
                        }
                    }
                    assert(name_set(names@) =~= name_set(before).insert(o.item@));
                    assert(name_set(names@).union(loop_names(s@, o.end as int)) =~= name_set(
                        before,
                    ).union(loop_names(s@, pos as int)));
                }
                pos = o.end;
            },
        }
    }
}

/// Infers the fields of the loop item `item` that a loop body uses.
#[verifier::loop_isolation(false)]
pub fn analyze_object_structure(body: &[char], item: &[char]) -> (found: Vec<(String, VarUsage)>)
    ensures
        fields_of(found@) == fields(body@, item@),
        tidy_fields(found@),
    decreases body@.len(),
{
    let n = body.len();
    let mut found: Vec<(String, VarUsage)> = Vec::new();
    let mut pos: usize = 0;
    loop
        invariant
            pos <= n,
            tidy_fields(found@),
            loop_fields(body@, pos as int, item@, fields_of(found@)) == loop_fields(
                body@,
                0,
                item@,
                Map::empty(),
            ),
        decreases n - pos,
    {
        match first_open(body, pos) {
            None => {
                break ;
            },
            Some(o) => {
                proof {
                    lemma_find_open(body@, pos as int);
                }
                let inner = find_loop_body(body, &o);
                let inside = if inner.len() < n {
                    analyze_object_structure(inner, o.item.as_slice())
                } else {
                    Vec::new()
                };
                match field_read(o.source.as_slice(), item) {
                    Some(name) => {
                        put(&mut found, name, usage_from(inside));
                    },
                    None => {},
                }
                pos = o.end;
            },
        }
    }
    let mut at: usize = 0;
    loop
        invariant
            at <= n,
            tidy_fields(found@),
            var_fields(body@, at as int, item@, fields_of(found@)) == fields(body@, item@),
        decreases n - at,
    {
        match first_var(body, at) {
            None => {
                return found;
            },
            Some(v) => {
                proof {
                    lemma_find_var(body@, at as int);
                }
                match field_read(v.path.as_slice(), item) {
                    Some(name) => {
                        if field_index(&found, &name).is_none() {
                            put(&mut found, name, VarUsage::Simple);
                        }
                    },
                    None => {},
                }
                at = v.end;
            },
        }
    }
}

/// Adds to `found` the variables that the loops of `s` run over.
#[verifier::loop_isolation(false)]
pub fn collect_loop_vars(s: &[char], names: &Vec<String>, found: &mut Vec<(String, VarUsage)>)
    ensures
        fields_of(final(found)@) == loop_vars(s@, 0, name_set(names@), fields_of(old(found)@)),
        tidy_fields(old(found)@) ==> tidy_fields(final(found)@),
{
    let n = s.len();
    let mut pos: usize = 0;
    loop
        invariant
            pos <= n,
            tidy_fields(old(found)@) ==> tidy_fields(found@),
            loop_vars(s@, pos as int, name_set(names@), fields_of(found@)) == loop_vars(
                s@,
                0,
                name_set(names@),
                fields_of(old(found)@),
            ),
        decreases n - pos,
    {
        match first_open(s, pos) {
            None => {
                return ;
            },
            Some(o) => {
                proof {
                    lemma_find_open(s@, pos as int);
                }
                let base = head_of(o.source.as_slice());
                if !has_name(names, &base) && o.args.is_none() {
                    let inner = find_loop_body(s, &o);
                    let inside = analyze_object_structure(inner, o.item.as_slice());
                    put(found, base, usage_from(inside));
                }
                pos = o.end;
            },
        }
    }
}

/// Tests whether a name is a word that the template language keeps for
/// itself.
pub fn reserved(name: &String) -> (r: bool)
    ensures
        r == is_reserved(name@),
{
    let a = string_of(chars_of("endfor").as_slice());
    let b = string_of(chars_of("in").as_slice());
    *name == a || *name == b
}

/// Adds to `found` the variables that the variable references of `s` read.
#[verifier::loop_isolation(false)]
pub fn collect_plain_vars(s: &[char], names: &Vec<String>, found: &mut Vec<(String, VarUsage)>)
    ensures
        fields_of(final(found)@) == plain_vars(s@, 0, name_set(names@), fields_of(old(found)@)),
        tidy_fields(old(found)@) ==> tidy_fields(final(found)@),
{
    let n = s.len();
    let mut at: usize = 0;
    loop
        invariant
            at <= n,
            tidy_fields(old(found)@) ==> tidy_fields(found@),
            plain_vars(s@, at as int, name_set(names@), fields_of(found@)) == plain_vars(
                s@,
                0,
                name_set(names@),
                fields_of(old(found)@),
            ),
        decreases n - at,
    {
        match first_var(s, at) {
            None => {
                return ;
            },
            Some(v) => {
                proof {
                    lemma_find_var(s@, at as int);
                }
                let base = head_of(v.path.as_slice());
                if !reserved(&base) && !has_name(names, &base) && field_index(found, &base).is_none() {
                    put(found, base, VarUsage::Simple);
                }
                at = v.end;
            },
        }
    }
}

/// Infers, for each top-level variable of a template, how the template uses
/// it. The result is an association list from names to usages.
pub fn extract_variables(template: &str) -> (found: Vec<(String, VarUsage)>)
    ensures
        fields_of(found@) == variables(template@),
        tidy_fields(found@),
{
    let chars = chars_of(template);
    let s = chars.as_slice();
    let names = loop_items(s);
    let mut found: Vec<(String, VarUsage)> = Vec::new();
    collect_loop_vars(s, &names, &mut found);
    collect_plain_vars(s, &names, &mut found);
    found
}

/// Builds the example value for a usage: what a user fills in for a variable
/// that the template uses in this way.
pub fn build_json_value(usage: &VarUsage) -> (v: Json)
    ensures
        v@ == scaffold(usage@),
    decreases usage,
{
    match usage {
        VarUsage::Simple => Json::String(String::new()),
        VarUsage::CollectionOfSimple => {
            let v = Json::Sequence(Vec::new());
            assert(list_of(Seq::<Json>::empty()) =~= Seq::empty());
            v
        },
        VarUsage::CollectionOfObjects(fields) => {
            let record = build_record(fields);
            let mut items: Vec<Json> = Vec::new();
            items.push(Json::Mapping(record));
            proof {
                lemma_list_of(items@);
                assert(list_of(items@) =~= seq![Json::Mapping(record)@]);
                lemma_scaffold_records(fields_of(fields@));
            }
            Json::Sequence(items)
        },
    }
}

/// Builds the example record for the fields of a list of records.
#[verifier::loop_isolation(false)]
pub fn build_record(fields: &Vec<(String, VarUsage)>) -> (record: Vec<(String, Json)>)
    ensures
        record_of(record@) == scaffold_fields(fields_of(fields@)),
    decreases fields,
{
    let mut record: Vec<(String, Json)> = Vec::new();
    let mut i: usize = 0;
    while i < fields.len()
        invariant
            i <= fields.len(),
            record_of(record@) =~= scaffold_fields(fields_of(fields@.take(i as int))),
        decreases fields.len() - i,
    {
        proof {
            vstd::std_specs::vec::axiom_vec_index_decreases(*fields, i as int);
        }
        let name = fields[i].0.clone();
        let value = build_json_value(&fields[i].1);
        proof {
            lemma_record_push(record@, (name, value));
            lemma_fields_push(fields@.take(i as int), fields@[i as int]);
            assert(fields@.take(i + 1) =~= fields@.take(i as int).push(fields@[i as int]));
        }
        record.push((name, value));
        i += 1;
    }
    assert(fields@.take(fields.len() as int) =~= fields@);
    record
}

} // verus!
