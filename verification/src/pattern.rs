//! The three surface forms of the template language, recognised at a given
//! position of a text: a variable reference, a loop-open tag and a loop-close
//! tag.
//!
//! ```text
//! variable    {{ path }}                       path = word ( "." word )*
//! loop open   {{foreach item in source}}       source = path
//!             {{foreach item in source(args)}}
//! loop close  {{endfor}}
//! ```
//!
//! A loop tag takes one line break that follows it. Where only white space
//! stands between the tag and the start of a line, the tag also takes that
//! white space, back to the first such line start.

use vstd::prelude::*;
use vstd::slice::slice_subrange;
use crate::text::{
    chars_of, find_char, has, keyword_at, lemma_find_char, lemma_run_end, lemma_space_start,
    matches_at, run_end, scan_back, scan_for, scan_run, space_start, Class,
};

verus! {

/// A variable reference found in a text.
pub struct VarRef {
    /// The position of the opening braces.
    pub start: usize,
    /// The dotted path between the braces.
    pub path: Vec<char>,
    /// The position after the closing braces.
    pub end: usize,
}

/// The model of a [`VarRef`].
pub struct VarSpan {
    pub start: int,
    pub path: Seq<char>,
    pub end: int,
}

impl View for VarRef {
    type V = VarSpan;

    open spec fn view(&self) -> VarSpan {
        VarSpan { start: self.start as int, path: self.path@, end: self.end as int }
    }
}

/// A loop-open tag found in a text.
pub struct LoopOpen {
    /// Where the tag begins, the white space it takes included.
    pub start: usize,
    /// The position after the tag and the line break it takes.
    pub end: usize,
    /// The name bound in each iteration.
    pub item: Vec<char>,
    /// The dotted path of the collection, or the name of the function.
    pub source: Vec<char>,
    /// The text between the parentheses, where the source is a function call.
    pub args: Option<Vec<char>>,
}

/// The model of a [`LoopOpen`].
pub struct OpenSpan {
    pub start: int,
    pub end: int,
    pub item: Seq<char>,
    pub source: Seq<char>,
    pub args: Option<Seq<char>>,
}

impl View for LoopOpen {
    type V = OpenSpan;

    open spec fn view(&self) -> OpenSpan {
        OpenSpan {
            start: self.start as int,
            end: self.end as int,
            item: self.item@,
            source: self.source@,
            args: match self.args {
                Some(a) => Some(a@),
                None => None,
            },
        }
    }
}

/// A loop tag, open or close, found in a text.
#[derive(Clone, Copy)]
pub struct Tag {
    /// Whether the tag opens a loop.
    pub opening: bool,
    /// Where the tag begins, the white space it takes included.
    pub start: usize,
    /// The position after the tag and the line break it takes.
    pub end: usize,
}

/// The model of a [`Tag`].
pub struct TagSpan {
    pub opening: bool,
    pub start: int,
    pub end: int,
}

impl View for Tag {
    type V = TagSpan;

    open spec fn view(&self) -> TagSpan {
        TagSpan { opening: self.opening, start: self.start as int, end: self.end as int }
    }
}

/// The end of the dotted path whose first word ends at `e`.
pub open spec fn path_tail(s: Seq<char>, e: int) -> int
    decreases s.len() - e,
{
    let f = run_end(s, e + 1, Class::Word);
    if has(s, e, '.') && e + 1 < f <= s.len() {
        path_tail(s, f)
    } else {
        e
    }
}

/// The end of the dotted path that starts at `i`; `i` itself where no path
/// starts there.
pub open spec fn path_end(s: Seq<char>, i: int) -> int {
    let e = run_end(s, i, Class::Word);
    if e > i {
        path_tail(s, e)
    } else {
        i
    }
}

/// Where a loop tag whose braces open at `c` begins: at the first line start
/// from which only white space leads to `c`, and at `c` where there is none.
pub open spec fn lead_start(s: Seq<char>, c: int) -> int {
    let r = space_start(s, c);
    let j = find_char(s, r, '\n');
    if r == 0 {
        0
    } else if j < c {
        j + 1
    } else {
        c
    }
}

/// The position after the line break at `p`: a carriage return, a line feed,
/// or the one followed by the other. `p` itself where none stands.
pub open spec fn line_end(s: Seq<char>, p: int) -> int {
    let q = if has(s, p, '\r') {
        p + 1
    } else {
        p
    };
    if has(s, q, '\n') {
        q + 1
    } else {
        q
    }
}

/// Whether two opening braces stand at `c`.
pub open spec fn braces_open(s: Seq<char>, c: int) -> bool {
    has(s, c, '{') && has(s, c + 1, '{')
}

/// Whether two closing braces stand at `q`.
pub open spec fn braces_close(s: Seq<char>, q: int) -> bool {
    has(s, q, '}') && has(s, q + 1, '}')
}

/// The variable reference whose braces open at `i`, if one does.
pub open spec fn var_at(s: Seq<char>, i: int) -> Option<VarSpan> {
    let p0 = run_end(s, i + 2, Class::Space);
    let p1 = path_end(s, p0);
    let q = run_end(s, p1, Class::Space);
    if braces_open(s, i) && p1 > p0 && braces_close(s, q) {
        Some(VarSpan { start: i, path: s.subrange(p0, p1), end: q + 2 })
    } else {
        None
    }
}

/// The loop-open tag whose braces open at `c`, if one does.
pub open spec fn open_at(s: Seq<char>, c: int) -> Option<OpenSpan> {
    let kw = "foreach"@;
    let a = c + 2 + kw.len();
    let i0 = run_end(s, a, Class::Space);
    let i1 = run_end(s, i0, Class::Word);
    let k = run_end(s, i1, Class::Space);
    let p0 = run_end(s, k + 2, Class::Space);
    let p1 = path_end(s, p0);
    if braces_open(s, c) && matches_at(s, c + 2, kw) && a < i0 < i1 < k && has(s, k, 'i') && has(
        s,
        k + 1,
        'n',
    ) && k + 2 < p0 < p1 {
        if has(s, p1, '(') {
            let a1 = find_char(s, p1 + 1, ')');
            let q = run_end(s, a1 + 1, Class::Space);
            if a1 < s.len() && braces_close(s, q) {
                Some(
                    OpenSpan {
                        start: lead_start(s, c),
                        end: line_end(s, q + 2),
                        item: s.subrange(i0, i1),
                        source: s.subrange(p0, p1),
                        args: Some(s.subrange(p1 + 1, a1)),
                    },
                )
            } else {
                None
            }
        } else {
            let q = run_end(s, p1, Class::Space);
            if braces_close(s, q) {
                Some(
                    OpenSpan {
                        start: lead_start(s, c),
                        end: line_end(s, q + 2),
                        item: s.subrange(i0, i1),
                        source: s.subrange(p0, p1),
                        args: None,
                    },
                )
            } else {
                None
            }
        }
    } else {
        None
    }
}

/// The loop-close tag whose braces open at `c`, if one does.
pub open spec fn close_at(s: Seq<char>, c: int) -> Option<TagSpan> {
    let kw = "endfor"@;
    let q = c + 2 + kw.len();
    if braces_open(s, c) && matches_at(s, c + 2, kw) && braces_close(s, q) {
        Some(TagSpan { opening: false, start: lead_start(s, c), end: line_end(s, q + 2) })
    } else {
        None
    }
}

/// The loop tag, open or close, whose braces open at `c`, if one does.
pub open spec fn tag_at(s: Seq<char>, c: int) -> Option<TagSpan> {
    match open_at(s, c) {
        Some(o) => Some(TagSpan { opening: true, start: o.start, end: o.end }),
        None => close_at(s, c),
    }
}

/// The first loop-open tag whose braces open at or after `from`.
pub open spec fn find_open(s: Seq<char>, from: int) -> Option<OpenSpan>
    decreases s.len() - from,
{
    if from < 0 || from >= s.len() {
        None
    } else if open_at(s, from) is Some {
        open_at(s, from)
    } else {
        find_open(s, from + 1)
    }
}

/// The first loop tag, open or close, whose braces open at or after `from`.
pub open spec fn next_tag(s: Seq<char>, from: int) -> Option<TagSpan>
    decreases s.len() - from,
{
    if from < 0 || from >= s.len() {
        None
    } else if tag_at(s, from) is Some {
        tag_at(s, from)
    } else {
        next_tag(s, from + 1)
    }
}

/// The first variable reference whose braces open at or after `from`.
pub open spec fn find_var(s: Seq<char>, from: int) -> Option<VarSpan>
    decreases s.len() - from,
{
    if from < 0 || from >= s.len() {
        None
    } else if var_at(s, from) is Some {
        var_at(s, from)
    } else {
        find_var(s, from + 1)
    }
}

pub proof fn lemma_path_tail(s: Seq<char>, e: int)
    requires
        0 <= e <= s.len(),
    ensures
        e <= path_tail(s, e) <= s.len(),
    decreases s.len() - e,
{
    let f = run_end(s, e + 1, Class::Word);
    if has(s, e, '.') && e + 1 < f <= s.len() {
        lemma_path_tail(s, f);
    }
}

pub proof fn lemma_path_end(s: Seq<char>, i: int)
    requires
        0 <= i <= s.len(),
    ensures
        i <= path_end(s, i) <= s.len(),
{
    lemma_run_end(s, i, Class::Word);
    let e = run_end(s, i, Class::Word);
    if e > i {
        lemma_path_tail(s, e);
    }
}

pub proof fn lemma_lead_start(s: Seq<char>, c: int)
    requires
        0 <= c <= s.len(),
    ensures
        0 <= lead_start(s, c) <= c,
{
    lemma_space_start(s, c);
    lemma_find_char(s, space_start(s, c), '\n');
}

pub proof fn lemma_line_end(s: Seq<char>, p: int)
    requires
        0 <= p <= s.len(),
    ensures
        p <= line_end(s, p) <= s.len(),
{
}

/// A variable reference ends after the position where it opens, within the
/// text.
pub proof fn lemma_var_at(s: Seq<char>, i: int)
    requires
        var_at(s, i) is Some,
    ensures
        0 <= i == var_at(s, i)->0.start < var_at(s, i)->0.end <= s.len(),
{
    lemma_run_end(s, i + 2, Class::Space);
    let p0 = run_end(s, i + 2, Class::Space);
    lemma_path_end(s, p0);
    lemma_run_end(s, path_end(s, p0), Class::Space);
}

/// A loop-open tag begins at or before the position where its braces open
/// and ends after it, within the text.
pub proof fn lemma_open_at(s: Seq<char>, c: int)
    requires
        open_at(s, c) is Some,
    ensures
        0 <= open_at(s, c)->0.start <= c < open_at(s, c)->0.end <= s.len(),
{
    let o = open_at(s, c)->0;
    let kw = "foreach"@;
    let a = c + 2 + kw.len();
    lemma_lead_start(s, c);
    let i0 = run_end(s, a, Class::Space);
    let i1 = run_end(s, i0, Class::Word);
    let k = run_end(s, i1, Class::Space);
    let p0 = run_end(s, k + 2, Class::Space);
    let p1 = path_end(s, p0);
    lemma_run_end(s, k + 2, Class::Space);
    lemma_path_end(s, p0);
    if has(s, p1, '(') {
        let a1 = find_char(s, p1 + 1, ')');
        lemma_find_char(s, p1 + 1, ')');
        lemma_run_end(s, a1 + 1, Class::Space);
        lemma_line_end(s, run_end(s, a1 + 1, Class::Space) + 2);
    } else {
        lemma_run_end(s, p1, Class::Space);
        lemma_line_end(s, run_end(s, p1, Class::Space) + 2);
    }
}

/// A loop-close tag begins at or before the position where its braces open
/// and ends after it, within the text.
pub proof fn lemma_close_at(s: Seq<char>, c: int)
    requires
        close_at(s, c) is Some,
    ensures
        0 <= close_at(s, c)->0.start <= c < close_at(s, c)->0.end <= s.len(),
        !close_at(s, c)->0.opening,
{
    lemma_lead_start(s, c);
    lemma_line_end(s, c + 2 + "endfor"@.len() + 2);
}

pub proof fn lemma_tag_at(s: Seq<char>, c: int)
    requires
        tag_at(s, c) is Some,
    ensures
        0 <= tag_at(s, c)->0.start <= c < tag_at(s, c)->0.end <= s.len(),
{
    if open_at(s, c) is Some {
        lemma_open_at(s, c);
    } else {
        lemma_close_at(s, c);
    }
}

/// The first loop-open tag from `from` on ends after `from`, within the text.
pub proof fn lemma_find_open(s: Seq<char>, from: int)
    requires
        0 <= from,
        find_open(s, from) is Some,
    ensures
        0 <= find_open(s, from)->0.start < find_open(s, from)->0.end,
        from < find_open(s, from)->0.end <= s.len(),
    decreases s.len() - from,
{
    if open_at(s, from) is Some {
        lemma_open_at(s, from);
    } else {
        lemma_find_open(s, from + 1);
    }
}

/// The first loop tag from `from` on ends after `from`, within the text.
pub proof fn lemma_next_tag(s: Seq<char>, from: int)
    requires
        0 <= from,
        next_tag(s, from) is Some,
    ensures
        0 <= next_tag(s, from)->0.start < next_tag(s, from)->0.end,
        from < next_tag(s, from)->0.end <= s.len(),
    decreases s.len() - from,
{
    if tag_at(s, from) is Some {
        lemma_tag_at(s, from);
    } else {
        lemma_next_tag(s, from + 1);
    }
}

/// The first variable reference from `from` on ends after `from`, within the
/// text.
pub proof fn lemma_find_var(s: Seq<char>, from: int)
    requires
        0 <= from,
        find_var(s, from) is Some,
    ensures
        from <= find_var(s, from)->0.start < find_var(s, from)->0.end <= s.len(),
    decreases s.len() - from,
{
    if var_at(s, from) is Some {
        lemma_var_at(s, from);
    } else {
        lemma_find_var(s, from + 1);
    }
}

/// Finds the end of the dotted path that starts at `i`.
pub fn scan_path(s: &[char], i: usize) -> (r: usize)
    requires
        i <= s@.len(),
    ensures
        r == path_end(s@, i as int),
        i <= r <= s@.len(),
{
    let n = s.len();
    let first = scan_run(s, i, Class::Word);
    if first == i {
        return i;
    }
    let mut e: usize = first;
    loop
        invariant
            n == s@.len(),
            i <= e <= n,
            i < first == run_end(s@, i as int, Class::Word),
            path_tail(s@, e as int) == path_tail(s@, first as int),
        decreases n - e,
    {
        if e < n && s[e] == '.' {
            let f = scan_run(s, e + 1, Class::Word);
            if f > e + 1 {
                assert(path_tail(s@, e as int) == path_tail(s@, f as int));
                e = f;
            } else {
                assert(path_tail(s@, e as int) == e);
                return e;
            }
        } else {
            assert(path_tail(s@, e as int) == e);
            return e;
        }
    }
}

/// Finds where a loop tag whose braces open at `c` begins.
pub fn scan_lead(s: &[char], c: usize) -> (r: usize)
    requires
        c <= s@.len(),
    ensures
        r == lead_start(s@, c as int),
        r <= c,
{
    let back = scan_back(s, c);
    if back == 0 {
        return 0;
    }
    let j = scan_for(s, back, '\n');
    if j < c {
        j + 1
    } else {
        c
    }
}

/// Steps over the line break at `p`, if one stands there.
pub fn scan_line_end(s: &[char], p: usize) -> (r: usize)
    requires
        p <= s@.len(),
    ensures
        r == line_end(s@, p as int),
        p <= r <= s@.len(),
{
    let n = s.len();
    let q = if p < n && s[p] == '\r' {
        p + 1
    } else {
        p
    };
    if q < n && s[q] == '\n' {
        q + 1
    } else {
        q
    }
}

/// Tests whether two opening braces stand at `c`.
pub fn opens_at(s: &[char], c: usize) -> (r: bool)
    ensures
        r == braces_open(s@, c as int),
{
    let n = s.len();
    c < n && s[c] == '{' && c + 1 < n && s[c + 1] == '{'
}

/// Tests whether two closing braces stand at `q`.
pub fn closes_at(s: &[char], q: usize) -> (r: bool)
    ensures
        r == braces_close(s@, q as int),
{
    let n = s.len();
    q < n && s[q] == '}' && q + 1 < n && s[q + 1] == '}'
}

/// A copy of the characters of `s` from `a` to `b`.
pub fn copy_range(s: &[char], a: usize, b: usize) -> (v: Vec<char>)
    requires
        a <= b <= s@.len(),
    ensures
        v@ == s@.subrange(a as int, b as int),
{
    vstd::slice::slice_to_vec(slice_subrange(s, a, b))
}

/// Recognises a variable reference whose braces open at `i`.
pub fn parse_var(s: &[char], i: usize) -> (r: Option<VarRef>)
    ensures
        match r {
            Some(v) => var_at(s@, i as int) == Some(v@),
            None => var_at(s@, i as int) is None,
        },
{
    let n = s.len();
    if !opens_at(s, i) {
        return None;
    }
    let p0 = scan_run(s, i + 2, Class::Space);
    let p1 = scan_path(s, p0);
    let q = scan_run(s, p1, Class::Space);
    if p1 > p0 && closes_at(s, q) {
        Some(VarRef { start: i, path: copy_range(s, p0, p1), end: q + 2 })
    } else {
        None
    }
}

/// Recognises a loop-open tag whose braces open at `c`.
pub fn parse_open(s: &[char], c: usize) -> (r: Option<LoopOpen>)
    ensures
        match r {
            Some(o) => open_at(s@, c as int) == Some(o@),
            None => open_at(s@, c as int) is None,
        },
{
    let n = s.len();
    if !opens_at(s, c) {
        return None;
    }
    let kw = chars_of("foreach");
    if !keyword_at(s, c + 2, kw.as_slice()) {
        return None;
    }
    let a = c + 2 + kw.len();
    let i0 = scan_run(s, a, Class::Space);
    let i1 = scan_run(s, i0, Class::Word);
    let k = scan_run(s, i1, Class::Space);
    if !(a < i0 && i0 < i1 && i1 < k && k < n && s[k] == 'i' && k + 1 < n && s[k + 1] == 'n') {
        return None;
    }
    let p0 = scan_run(s, k + 2, Class::Space);
    let p1 = scan_path(s, p0);
    if !(k + 2 < p0 && p0 < p1) {
        return None;
    }
    if p1 < n && s[p1] == '(' {
        let a1 = scan_for(s, p1 + 1, ')');
        if a1 >= n {
            return None;
        }
        let q = scan_run(s, a1 + 1, Class::Space);
        if !closes_at(s, q) {
            return None;
        }
        Some(
            LoopOpen {
                start: scan_lead(s, c),
                end: scan_line_end(s, q + 2),
                item: copy_range(s, i0, i1),
                source: copy_range(s, p0, p1),
                args: Some(copy_range(s, p1 + 1, a1)),
            },
        )
    } else {
        let q = scan_run(s, p1, Class::Space);
        if !closes_at(s, q) {
            return None;
        }
        Some(
            LoopOpen {
                start: scan_lead(s, c),
                end: scan_line_end(s, q + 2),
                item: copy_range(s, i0, i1),
                source: copy_range(s, p0, p1),
                args: None,
            },
        )
    }
}

/// Recognises a loop-close tag whose braces open at `c`.
pub fn parse_close(s: &[char], c: usize) -> (r: Option<Tag>)
    ensures
        match r {
            Some(t) => close_at(s@, c as int) == Some(t@),
            None => close_at(s@, c as int) is None,
        },
{
    let n = s.len();
    if !opens_at(s, c) {
        return None;
    }
    let kw = chars_of("endfor");
    if !keyword_at(s, c + 2, kw.as_slice()) {
        return None;
    }
    let q = c + 2 + kw.len();
    if !closes_at(s, q) {
        return None;
    }
    Some(Tag { opening: false, start: scan_lead(s, c), end: scan_line_end(s, q + 2) })
}

/// Recognises a loop tag, open or close, whose braces open at `c`.
pub fn parse_tag(s: &[char], c: usize) -> (r: Option<Tag>)
    ensures
        match r {
            Some(t) => tag_at(s@, c as int) == Some(t@),
            None => tag_at(s@, c as int) is None,
        },
{
    match parse_open(s, c) {
        Some(o) => Some(Tag { opening: true, start: o.start, end: o.end }),
        None => parse_close(s, c),
    }
}

/// Finds the first loop-open tag whose braces open at or after `from`.
pub fn first_open(s: &[char], from: usize) -> (r: Option<LoopOpen>)
    ensures
        match r {
            Some(o) => find_open(s@, from as int) == Some(o@),
            None => find_open(s@, from as int) is None,
        },
{
    let n = s.len();
    let mut c: usize = from;
    while c < n
        invariant
            n == s@.len(),
            from <= c,
            find_open(s@, c as int) == find_open(s@, from as int),
        decreases n - c,
    {
        match parse_open(s, c) {
            Some(o) => {
                return Some(o);
            },
            None => {
                c += 1;
            },
        }
    }
    None
}

/// Finds the first variable reference whose braces open at or after `from`.
pub fn first_var(s: &[char], from: usize) -> (r: Option<VarRef>)
    ensures
        match r {
            Some(v) => find_var(s@, from as int) == Some(v@),
            None => find_var(s@, from as int) is None,
        },
{
    let n = s.len();
    let mut c: usize = from;
    while c < n
        invariant
            n == s@.len(),
            from <= c,
            find_var(s@, c as int) == find_var(s@, from as int),
        decreases n - c,
    {
        match parse_var(s, c) {
            Some(v) => {
                return Some(v);
            },
            None => {
                c += 1;
            },
        }
    }
    None
}

/// Finds the first loop tag, open or close, whose braces open at or after
/// `from`.
pub fn first_tag(s: &[char], from: usize) -> (r: Option<Tag>)
    ensures
        match r {
            Some(t) => next_tag(s@, from as int) == Some(t@),
            None => next_tag(s@, from as int) is None,
        },
{
    let n = s.len();
    let mut c: usize = from;
    while c < n
        invariant
            n == s@.len(),
            from <= c,
            next_tag(s@, c as int) == next_tag(s@, from as int),
        decreases n - c,
    {
        match parse_tag(s, c) {
            Some(t) => {
                return Some(t);
            },
            None => {
                c += 1;
            },
        }
    }
    None
}

} // verus!
