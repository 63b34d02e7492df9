//! Character classes, scanning primitives and conversions between strings
//! and character slices.
//!
//! Texts are handled as slices of `char`, whose view is the `Seq<char>` that
//! the contracts of the whole crate speak of.

use vstd::prelude::*;
use vstd::slice::slice_subrange;

verus! {

broadcast use vstd::string::group_string_axioms;

/// Unicode white space: the characters with the `White_Space` property.
pub open spec fn is_space(c: char) -> bool {
    let n = c as u32;
    ||| 0x09 <= n <= 0x0D
    ||| n == 0x20
    ||| n == 0x85
    ||| n == 0xA0
    ||| n == 0x1680
    ||| 0x2000 <= n <= 0x200A
    ||| n == 0x2028
    ||| n == 0x2029
    ||| n == 0x202F
    ||| n == 0x205F
    ||| n == 0x3000
}

/// A character of an identifier: an ASCII letter, an ASCII digit or `_`.
pub open spec fn is_word(c: char) -> bool {
    ||| 'a' <= c <= 'z'
    ||| 'A' <= c <= 'Z'
    ||| '0' <= c <= '9'
    ||| c == '_'
}

/// The two classes of characters that the scanners skip over.
#[derive(Clone, Copy)]
pub enum Class {
    Space,
    Word,
}

impl Class {
    /// Whether `c` belongs to the class.
    pub open spec fn has(self, c: char) -> bool {
        match self {
            Class::Space => is_space(c),
            Class::Word => is_word(c),
        }
    }

    /// Tests whether `c` belongs to the class.
    pub fn test(self, c: char) -> (r: bool)
        ensures
            r == self.has(c),
    {
        match self {
            Class::Space => {
                let n: u32 = c as u32;
                (0x09 <= n && n <= 0x0D) || n == 0x20 || n == 0x85 || n == 0xA0 || n == 0x1680 || (
                0x2000 <= n && n <= 0x200A) || n == 0x2028 || n == 0x2029 || n == 0x202F || n
                    == 0x205F || n == 0x3000
            },
            Class::Word => {
                ('a' <= c && c <= 'z') || ('A' <= c && c <= 'Z') || ('0' <= c && c <= '9') || c
                    == '_'
            },
        }
    }
}

/// Whether position `i` of `s` holds the character `c`.
pub open spec fn has(s: Seq<char>, i: int, c: char) -> bool {
    0 <= i < s.len() && s[i] == c
}

/// The end of the longest run of characters of `class` that starts at `i`.
pub open spec fn run_end(s: Seq<char>, i: int, class: Class) -> int
    decreases s.len() - i,
{
    if 0 <= i < s.len() && class.has(s[i]) {
        run_end(s, i + 1, class)
    } else {
        i
    }
}

/// The start of the longest run of white space that ends at `i`.
pub open spec fn space_start(s: Seq<char>, i: int) -> int
    decreases i,
{
    if 0 < i <= s.len() && is_space(s[i - 1]) {
        space_start(s, i - 1)
    } else {
        i
    }
}

/// The first position at or after `from` that holds `c`; the length of `s`
/// where there is none.
pub open spec fn find_char(s: Seq<char>, from: int, c: char) -> int
    decreases s.len() - from,
{
    if 0 <= from < s.len() && s[from] != c {
        find_char(s, from + 1, c)
    } else if from < s.len() {
        from
    } else {
        s.len() as int
    }
}

/// Whether `kw` stands in `s` at position `i`.
pub open spec fn matches_at(s: Seq<char>, i: int, kw: Seq<char>) -> bool {
    0 <= i && i + kw.len() <= s.len() && s.subrange(i, i + kw.len()) == kw
}

/// `s` without the white space at its two ends.
pub open spec fn trimmed(s: Seq<char>) -> Seq<char> {
    let a = run_end(s, 0, Class::Space);
    let b = space_start(s, s.len() as int);
    if b < a {
        s.subrange(a, a)
    } else {
        s.subrange(a, b)
    }
}

pub proof fn lemma_run_end(s: Seq<char>, i: int, class: Class)
    requires
        0 <= i <= s.len(),
    ensures
        i <= run_end(s, i, class) <= s.len(),
        forall|k: int| i <= k < run_end(s, i, class) ==> class.has(#[trigger] s[k]),
        run_end(s, i, class) < s.len() ==> !class.has(s[run_end(s, i, class)]),
    decreases s.len() - i,
{
    if i < s.len() && class.has(s[i]) {
        lemma_run_end(s, i + 1, class);
    }
}

pub proof fn lemma_space_start(s: Seq<char>, i: int)
    requires
        0 <= i <= s.len(),
    ensures
        0 <= space_start(s, i) <= i,
        forall|k: int| space_start(s, i) <= k < i ==> is_space(#[trigger] s[k]),
        space_start(s, i) > 0 ==> !is_space(s[space_start(s, i) - 1]),
    decreases i,
{
    if 0 < i && is_space(s[i - 1]) {
        lemma_space_start(s, i - 1);
    }
}

pub proof fn lemma_find_char(s: Seq<char>, from: int, c: char)
    requires
        0 <= from <= s.len(),
    ensures
        from <= find_char(s, from, c) <= s.len(),
        forall|k: int| from <= k < find_char(s, from, c) ==> #[trigger] s[k] != c,
        find_char(s, from, c) < s.len() ==> s[find_char(s, from, c)] == c,
    decreases s.len() - from,
{
    if from < s.len() && s[from] != c {
        lemma_find_char(s, from + 1, c);
    }
}

/// Skips the characters of `class` from position `i` on.
pub fn scan_run(s: &[char], i: usize, class: Class) -> (r: usize)
    requires
        i <= s@.len(),
    ensures
        r == run_end(s@, i as int, class),
        i <= r <= s@.len(),
{
    let mut j: usize = i;
    while j < s.len() && class.test(s[j])
        invariant
            i <= j <= s@.len(),
            run_end(s@, j as int, class) == run_end(s@, i as int, class),
        decreases s@.len() - j,
    {
        j += 1;
    }
    j
}

/// Walks back from `i` over white space.
pub fn scan_back(s: &[char], i: usize) -> (r: usize)
    requires
        i <= s@.len(),
    ensures
        r == space_start(s@, i as int),
        r <= i,
{
    let mut j: usize = i;
    while j > 0 && Class::Space.test(s[j - 1])
        invariant
            j <= i <= s@.len(),
            space_start(s@, j as int) == space_start(s@, i as int),
        decreases j,
    {
        j -= 1;
    }
    j
}

/// Finds the first `c` at or after `from`.
pub fn scan_for(s: &[char], from: usize, c: char) -> (r: usize)
    requires
        from <= s@.len(),
    ensures
        r == find_char(s@, from as int, c),
        from <= r <= s@.len(),
{
    let mut j: usize = from;
    while j < s.len() && s[j] != c
        invariant
            from <= j <= s@.len(),
            find_char(s@, j as int, c) == find_char(s@, from as int, c),
        decreases s@.len() - j,
    {
        j += 1;
    }
    j
}

/// Tests whether `kw` stands in `s` at position `i`.
pub fn keyword_at(s: &[char], i: usize, kw: &[char]) -> (r: bool)
    ensures
        r == matches_at(s@, i as int, kw@),
{
    if kw.len() > s.len() || i > s.len() - kw.len() {
        return false;
    }
    let n = s.len();
    let mut k: usize = 0;
    while k < kw.len()
        invariant
            k <= kw@.len(),
            n == s@.len(),
            i + kw@.len() <= s@.len(),
            forall|j: int| 0 <= j < k ==> s@[i + j] == kw@[j],
        decreases kw@.len() - k,
    {
        if s[i + k] != kw[k] {
            assert(s@.subrange(i as int, i + kw@.len())[k as int] == s@[i + k]);
            return false;
        }
        k += 1;
    }
    assert(s@.subrange(i as int, i + kw@.len()) =~= kw@);
    true
}

/// The part of `s` between its leading and its trailing white space.
pub fn trim(s: &[char]) -> (r: &[char])
    ensures
        r@ == trimmed(s@),
{
    let a = scan_run(s, 0, Class::Space);
    let b = scan_back(s, s.len());
    if b < a {
        slice_subrange(s, a, a)
    } else {
        slice_subrange(s, a, b)
    }
}

/// `String::push` appends one character.
pub assume_specification[ std::string::String::push ](s: &mut std::string::String, c: char)
    ensures
        final(s)@ == old(s)@.push(c),
;

/// The characters of a string, in order.
pub fn chars_of(s: &str) -> (v: Vec<char>)
    ensures
        v@ == s@,
{
    let mut v: Vec<char> = Vec::new();
    for c in it: s.chars()
        invariant
            it.seq() == s@,
            v@ == it.history(),
    {
        v.push(c);
    }
    assert(v@ =~= s@);
    v
}

/// The string made of the given characters.
pub fn string_of(v: &[char]) -> (s: String)
    ensures
        s@ == v@,
{
    let mut s = String::new();
    let mut i: usize = 0;
    while i < v.len()
        invariant
            i <= v@.len(),
            s@ == v@.take(i as int),
        decreases v@.len() - i,
    {
        s.push(v[i]);
        assert(v@.take(i + 1) =~= v@.take(i as int).push(v@[i as int]));
        i += 1;
    }
    assert(v@.take(v@.len() as int) =~= v@);
    s
}

/// Appends the characters of `t` to `out`.
pub fn push_chars(out: &mut Vec<char>, t: &[char])
    ensures
        final(out)@ == old(out)@ + t@,
{
    let mut i: usize = 0;
    while i < t.len()
        invariant
            i <= t@.len(),
            out@ == old(out)@ + t@.take(i as int),
        decreases t@.len() - i,
    {
        out.push(t[i]);
        assert(t@.take(i + 1) =~= t@.take(i as int).push(t@[i as int]));
        assert(out@ =~= old(out)@ + t@.take(i + 1));
        i += 1;
    }
    assert(t@.take(t@.len() as int) =~= t@);
}

/// Appends the characters of the string `t` to `out`.
pub fn push_str(out: &mut Vec<char>, t: &str)
    ensures
        final(out)@ == old(out)@ + t@,
{
    let v = chars_of(t);
    push_chars(out, v.as_slice());
}

} // verus!
