//! The builtin function `files`: what its arguments ask for, which of the
//! files found it takes, and the records it makes of them.
//!
//! Walking directories and reading files is left to the caller. The caller
//! learns from [`files_request`] where to walk and how deep, may ask
//! [`FilesRequest::selects`] before it reads a file, and hands what it found
//! to [`files`].

use vstd::prelude::*;
use vstd::slice::slice_subrange;
use crate::text::{
    chars_of, find_char, keyword_at, matches_at, scan_for, string_of, trim, trimmed,
};
use crate::value::{lemma_list_of, lemma_list_push, lemma_record_push, list_of, lookup, record_of, Json, Tree};

verus! {

/// What a call of `files` asks for.
#[derive(Debug, PartialEq)]
pub struct FilesRequest {
    /// The paths to walk.
    pub sources: Vec<String>,
    /// Whether the walk goes below the immediate children of a path.
    pub recursive: bool,
    /// The file names to leave out.
    pub exclude_names: Vec<String>,
    /// The texts that the path of no file taken may hold.
    pub exclude_paths: Vec<String>,
}

/// The model of a [`FilesRequest`].
pub struct RequestSpec {
    pub sources: Seq<Seq<char>>,
    pub recursive: bool,
    pub exclude_names: Seq<Seq<char>>,
    pub exclude_paths: Seq<Seq<char>>,
}

/// The texts that a list of strings holds.
pub open spec fn strs(v: Seq<String>) -> Seq<Seq<char>> {
    Seq::new(v.len(), |i: int| v[i]@)
}

impl View for FilesRequest {
    type V = RequestSpec;

    open spec fn view(&self) -> RequestSpec {
        RequestSpec {
            sources: strs(self.sources@),
            recursive: self.recursive,
            exclude_names: strs(self.exclude_names@),
            exclude_paths: strs(self.exclude_paths@),
        }
    }
}

/// A file that the walk found and read.
#[derive(Debug, PartialEq)]
pub struct FoundFile {
    /// The file's name.
    pub name: String,
    /// The file's path as the walk gave it.
    pub path: String,
    /// The file's canonical absolute path.
    pub absolute_path: String,
    /// The file's content.
    pub content: String,
}

/// The model of a [`FoundFile`].
pub struct FoundSpec {
    pub name: Seq<char>,
    pub path: Seq<char>,
    pub absolute_path: Seq<char>,
    pub content: Seq<char>,
}

impl View for FoundFile {
    type V = FoundSpec;

    open spec fn view(&self) -> FoundSpec {
        FoundSpec {
            name: self.name@,
            path: self.path@,
            absolute_path: self.absolute_path@,
            content: self.content@,
        }
    }
}

/// The models of a list of found files.
pub open spec fn found_of(found: Seq<FoundFile>) -> Seq<FoundSpec> {
    Seq::new(found.len(), |i: int| found[i]@)
}

/// The message for a missing or ill-typed `source`.
pub open spec fn source_message() -> Seq<char> {
    "'files' function requires a 'source' argument. It must be a comma-separated string (e.g., \"./src\") or an array of strings (e.g., [\"./src\", \"./tests\"])"@
}

/// The message for an ill-typed `recursive`.
pub open spec fn recursive_message() -> Seq<char> {
    "'recursive' argument must be a boolean (true or false)"@
}

/// The message for an ill-typed `exclude_names`.
pub open spec fn exclude_names_message() -> Seq<char> {
    "'exclude_names' argument must be an array of strings"@
}

/// The message for an ill-typed `exclude_paths`.
pub open spec fn exclude_paths_message() -> Seq<char> {
    "'exclude_paths' argument must be an array of strings"@
}

/// The strings among the items of a list, in order.
pub open spec fn strings_in(items: Seq<Tree>) -> Seq<Seq<char>>
    decreases items.len(),
{
    if items.len() == 0 {
        Seq::empty()
    } else {
        match items.last() {
            Tree::Text(s) => strings_in(items.drop_last()).push(s),
            _ => strings_in(items.drop_last()),
        }
    }
}

/// The parts of `s` from `from` on between its commas, each trimmed, without
/// the empty ones.
pub open spec fn comma_parts(s: Seq<char>, from: int) -> Seq<Seq<char>>
    decreases s.len() - from,
{
    let e = find_char(s, from, ',');
    let part = trimmed(s.subrange(from, e));
    let rest = if 0 <= from <= e < s.len() {
        comma_parts(s, e + 1)
    } else {
        Seq::empty()
    };
    if part.len() > 0 {
        seq![part] + rest
    } else {
        rest
    }
}

/// The list of strings that an optional argument holds: none where the
/// argument is absent, and `None` where it is no list.
pub open spec fn string_list(args: Map<Seq<char>, Tree>, key: Seq<char>) -> Option<Seq<Seq<char>>> {
    if !args.contains_key(key) {
        Some(Seq::empty())
    } else {
        match args[key] {
            Tree::List(items) => Some(strings_in(items)),
            _ => None,
        }
    }
}

/// What the arguments of a call of `files` ask for, or the message for the
/// first argument that is in error: `source`, `recursive`, `exclude_names`,
/// `exclude_paths`, in this order.
pub open spec fn request_of(args: Map<Seq<char>, Tree>) -> Result<RequestSpec, Seq<char>> {
    let sources = if args.contains_key("source"@) {
        match args["source"@] {
            Tree::List(items) => Some(strings_in(items)),
            Tree::Text(s) => Some(comma_parts(s, 0)),
            _ => None,
        }
    } else {
        None
    };
    let recursive = if args.contains_key("recursive"@) {
        match args["recursive"@] {
            Tree::Bool(b) => Some(b),
            _ => None,
        }
    } else {
        Some(true)
    };
    let names = string_list(args, "exclude_names"@);
    let paths = string_list(args, "exclude_paths"@);
    if sources is None {
        Err(source_message())
    } else if recursive is None {
        Err(recursive_message())
    } else if names is None {
        Err(exclude_names_message())
    } else if paths is None {
        Err(exclude_paths_message())
    } else {
        Ok(
            RequestSpec {
                sources: sources->0,
                recursive: recursive->0,
                exclude_names: names->0,
                exclude_paths: paths->0,
            },
        )
    }
}

/// Whether `needle` stands somewhere in `hay`.
pub open spec fn contains_text(hay: Seq<char>, needle: Seq<char>) -> bool {
    exists|i: int| #[trigger] matches_at(hay, i, needle)
}

/// Whether a request takes the file with this name and path: its name is none
/// of the excluded names, and its path holds none of the excluded texts.
pub open spec fn selects(req: RequestSpec, name: Seq<char>, path: Seq<char>) -> bool {
    &&& forall|k: int| 0 <= k < req.exclude_names.len() ==> #[trigger] req.exclude_names[k] != name
    &&& forall|k: int|
        0 <= k < req.exclude_paths.len() ==> !contains_text(path, #[trigger] req.exclude_paths[k])
}

/// The record made of a file.
pub open spec fn record_tree(file: FoundSpec) -> Tree {
    Tree::Record(
        Map::<Seq<char>, Tree>::empty().insert("name"@, Tree::Text(file.name)).insert(
            "path"@,
            Tree::Text(file.path),
        ).insert("absolute_path"@, Tree::Text(file.absolute_path)).insert(
            "content"@,
            Tree::Text(file.content),
        ),
    )
}

/// The records of the files that a request takes, in the order in which they
/// were found.
pub open spec fn records(req: RequestSpec, found: Seq<FoundSpec>) -> Seq<Tree>
    decreases found.len(),
{
    if found.len() == 0 {
        Seq::empty()
    } else if selects(req, found.last().name, found.last().path) {
        records(req, found.drop_last()).push(record_tree(found.last()))
    } else {
        records(req, found.drop_last())
    }
}

/// The result of a call of `files` with these arguments, where the walk found
/// these files: the records of the files taken, or the error that says which
/// argument is in error.
pub open spec fn files_result(args: Map<Seq<char>, Tree>, found: Seq<FoundSpec>) -> Result<Tree, Tree> {
    match request_of(args) {
        Ok(req) => Ok(Tree::List(records(req, found))),
        Err(m) => Err(Tree::Text(m)),
    }
}

/// The model of a request or the error in its place.
pub open spec fn request_view(r: Result<FilesRequest, Json>) -> Result<RequestSpec, Tree> {
    match r {
        Ok(req) => Ok(req@),
        Err(e) => Err(e@),
    }
}

/// The model of a function's result.
pub open spec fn result_view(r: Result<Json, Json>) -> Result<Tree, Tree> {
    match r {
        Ok(v) => Ok(v@),
        Err(e) => Err(e@),
    }
}

/// Pushing a string onto a list pushes its text onto the list's texts.
pub proof fn lemma_strs_push(v: Seq<String>, s: String)
    ensures
        strs(v.push(s)) =~= strs(v).push(s@),
{
}

/// Collects the strings among the items of a list.
pub fn strings_of(items: &Vec<Json>) -> (out: Vec<String>)
    ensures
        strs(out@) == strings_in(list_of(items@)),
{
    let mut out: Vec<String> = Vec::new();
    let mut i: usize = 0;
    proof {
        lemma_list_of(items@);
        assert(strs(out@) =~= Seq::empty());
        assert(list_of(items@).take(0) =~= Seq::empty());
    }
    while i < items.len()
        invariant
            i <= items.len(),
            list_of(items@).len() == items.len(),
            forall|j: int| 0 <= j < items.len() ==> #[trigger] list_of(items@)[j] == items@[j]@,
            strs(out@) == strings_in(list_of(items@).take(i as int)),
        decreases items.len() - i,
    {
        proof {
            let upto = list_of(items@).take(i + 1);
            assert(upto.drop_last() =~= list_of(items@).take(i as int));
            assert(upto.last() == items@[i as int]@);
        }
        match &items[i] {
            Json::String(s) => {
                let owned = s.clone();
                proof {
                    lemma_strs_push(out@, owned);
                }
                out.push(owned);
            },
            _ => {},
        }
        i += 1;
    }
    assert(list_of(items@).take(items.len() as int) =~= list_of(items@));
    out
}

/// Splits a text at its commas into trimmed parts and leaves out the empty
/// ones.
pub fn split_commas(s: &[char]) -> (out: Vec<String>)
    ensures
        strs(out@) == comma_parts(s@, 0),
{
    let n = s.len();
    let mut out: Vec<String> = Vec::new();
    let mut from: usize = 0;
    proof {
        assert(strs(out@) =~= Seq::empty());
        assert(Seq::<Seq<char>>::empty() + comma_parts(s@, 0) =~= comma_parts(s@, 0));
    }
    loop
        invariant
            n == s@.len(),
            from <= n,
            strs(out@) + comma_parts(s@, from as int) == comma_parts(s@, 0),
        decreases n - from,
    {
        let e = scan_for(s, from, ',');
        let part = trim(slice_subrange(s, from, e));
        let ghost before = strs(out@);
        let ghost rest = if e < n {
            comma_parts(s@, e + 1)
        } else {
            Seq::empty()
        };
        if part.len() > 0 {
            let owned = string_of(part);
            proof {
                lemma_strs_push(out@, owned);
                assert(before.push(owned@) + rest =~= before + (seq![owned@] + rest));
            }
            out.push(owned);
        }
        if e < n {
            from = e + 1;
        } else {
            assert(strs(out@) + Seq::<Seq<char>>::empty() =~= strs(out@));
            return out;
        }
    }
}

/// Reads an optional argument that holds a list of strings.
pub fn string_list_of(args: &Vec<(String, Json)>, key: &str) -> (r: Option<Vec<String>>)
    ensures
        match r {
            Some(v) => string_list(record_of(args@), key@) == Some(strs(v@)),
            None => string_list(record_of(args@), key@) is None,
        },
{
    let k = key.to_owned();
    match lookup(args, &k) {
        None => {
            let v: Vec<String> = Vec::new();
            assert(strs(v@) =~= Seq::empty());
            Some(v)
        },
        Some(Json::Sequence(items)) => Some(strings_of(items)),
        Some(_) => None,
    }
}

/// Builds the error value with a message.
pub fn error_value(message: &str) -> (e: Json)
    ensures
        e@ == Tree::Text(message@),
{
    Json::String(message.to_owned())
}

/// Reads what the arguments of a call of `files` ask for.
pub fn files_request(args: &Vec<(String, Json)>) -> (r: Result<FilesRequest, Json>)
    ensures
        request_view(r) == match request_of(record_of(args@)) {
            Ok(req) => Ok::<RequestSpec, Tree>(req),
            Err(m) => Err::<RequestSpec, Tree>(Tree::Text(m)),
        },
{
    let source_key = "source".to_owned();
    let sources = match lookup(args, &source_key) {
        Some(Json::Sequence(items)) => strings_of(items),
        Some(Json::String(s)) => {
            let chars = chars_of(s.as_str());
            split_commas(chars.as_slice())
        },
        _ => {
            return Err(
                error_value(
                    "'files' function requires a 'source' argument. It must be a comma-separated string (e.g., \"./src\") or an array of strings (e.g., [\"./src\", \"./tests\"])",
                ),
            );
        },
    };
    let recursive_key = "recursive".to_owned();
    let recursive = match lookup(args, &recursive_key) {
        Some(Json::Bool(b)) => *b,
        None => true,
        Some(_) => {
            return Err(error_value("'recursive' argument must be a boolean (true or false)"));
        },
    };
    let exclude_names = match string_list_of(args, "exclude_names") {
        Some(v) => v,
        None => {
            return Err(error_value("'exclude_names' argument must be an array of strings"));
        },
    };
    let exclude_paths = match string_list_of(args, "exclude_paths") {
        Some(v) => v,
        None => {
            return Err(error_value("'exclude_paths' argument must be an array of strings"));
        },
    };
    Ok(FilesRequest { sources, recursive, exclude_names, exclude_paths })
}

/// Tests whether `needle` stands somewhere in `hay`.
pub fn contains(hay: &[char], needle: &[char]) -> (r: bool)
    ensures
        r == contains_text(hay@, needle@),
{
    if needle.len() > hay.len() {
        return false;
    }
    let limit = hay.len() - needle.len();
    let mut i: usize = 0;
    while i < limit
        invariant
            limit + needle@.len() == hay@.len(),
            i <= limit,
            forall|j: int| 0 <= j < i ==> !matches_at(hay@, j, needle@),
        decreases limit - i,
    {
        if keyword_at(hay, i, needle) {
            return true;
        }
        i += 1;
    }
    keyword_at(hay, limit, needle)
}

impl FilesRequest {
    /// How deep the walk below a path goes: one level where the request is
    /// not recursive, and without a limit where it is.
    pub fn max_depth(&self) -> (depth: Option<usize>)
        ensures
            depth == if self.recursive {
                None::<usize>
            } else {
                Some(1usize)
            },
    {
        if self.recursive {
            None
        } else {
            Some(1)
        }
    }

    /// Tests whether the request takes the file with this name and path.
    pub fn selects(&self, name: &str, path: &str) -> (r: bool)
        ensures
            r == selects(self@, name@, path@),
    {
        let name_owned = name.to_owned();
        let mut k: usize = 0;
        while k < self.exclude_names.len()
            invariant
                k <= self.exclude_names.len(),
                name_owned@ == name@,
                forall|j: int| 0 <= j < k ==> #[trigger] strs(self.exclude_names@)[j] != name@,
            decreases self.exclude_names.len() - k,
        {
            if self.exclude_names[k] == name_owned {
                assert(self@.exclude_names[k as int] == name@);
                return false;
            }
            k += 1;
        }
        let hay = chars_of(path);
        let mut k: usize = 0;
        while k < self.exclude_paths.len()
            invariant
                k <= self.exclude_paths.len(),
                hay@ == path@,
                forall|j: int| 0 <= j < self.exclude_names.len() ==> #[trigger] strs(
                    self.exclude_names@,
                )[j] != name@,
                forall|j: int|
                    0 <= j < k ==> !contains_text(path@, #[trigger] strs(self.exclude_paths@)[j]),
            decreases self.exclude_paths.len() - k,
        {
            let needle = chars_of(self.exclude_paths[k].as_str());
            if contains(hay.as_slice(), needle.as_slice()) {
                assert(contains_text(path@, self@.exclude_paths[k as int]));
                return false;
            }
            k += 1;
        }
        true
    }
}

/// Makes the record of a file.
pub fn file_record(file: &FoundFile) -> (record: Json)
    ensures
        record@ == record_tree(file@),
{
    let mut entries: Vec<(String, Json)> = Vec::new();
    let name = ("name".to_owned(), Json::String(file.name.clone()));
    proof {
        lemma_record_push(entries@, name);
    }
    entries.push(name);
    let path = ("path".to_owned(), Json::String(file.path.clone()));
    proof {
        lemma_record_push(entries@, path);
    }
    entries.push(path);
    let absolute = ("absolute_path".to_owned(), Json::String(file.absolute_path.clone()));
    proof {
        lemma_record_push(entries@, absolute);
    }
    entries.push(absolute);
    let content = ("content".to_owned(), Json::String(file.content.clone()));
    proof {
        lemma_record_push(entries@, content);
    }
    entries.push(content);
    Json::Mapping(entries)
}

/// The builtin function `files`: from the arguments of the call and the files
/// that the walk found, the sequence of records of the files taken, or the
/// error that says which argument is in error.
pub fn files(args: &Vec<(String, Json)>, found: &Vec<FoundFile>) -> (r: Result<Json, Json>)
    ensures
        result_view(r) == files_result(record_of(args@), found_of(found@)),
{
    let request = match files_request(args) {
        Ok(request) => request,
        Err(e) => {
            return Err(e);
        },
    };
    let mut out: Vec<Json> = Vec::new();
    let mut i: usize = 0;
    proof {
        assert(list_of(out@) =~= Seq::empty());
        assert(found_of(found@).take(0) =~= Seq::empty());
    }
    while i < found.len()
        invariant
            i <= found.len(),
            request_of(record_of(args@)) == Ok::<RequestSpec, Seq<char>>(request@),
            list_of(out@) == records(request@, found_of(found@).take(i as int)),
        decreases found.len() - i,
    {
        proof {
            let upto = found_of(found@).take(i + 1);
            assert(upto.drop_last() =~= found_of(found@).take(i as int));
            assert(upto.last() == found@[i as int]@);
        }
        let file = &found[i];
        if request.selects(file.name.as_str(), file.path.as_str()) {
            let record = file_record(file);
            proof {
                lemma_list_push(out@, record);
            }
            out.push(record);
        }
        i += 1;
    }
    assert(found_of(found@).take(found.len() as int) =~= found_of(found@));
    Ok(Json::Sequence(out))
}

} // verus!
