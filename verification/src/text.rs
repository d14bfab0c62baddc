//! Character-level helpers: case-insensitive comparison, trimming and the
//! segments of slash-separated entry paths.

use vstd::prelude::*;
use vstd::string::*;

verus! {

/// The lower-case form of an ASCII capital; every other character is itself.
pub open spec fn lower_char(c: char) -> char {
    if 'A' <= c && c <= 'Z' {
        ((c as u8) + 32) as char
    } else {
        c
    }
}

/// A text with each ASCII capital replaced by its lower-case form.
pub open spec fn lowered(s: Seq<char>) -> Seq<char> {
    s.map_values(|c: char| lower_char(c))
}

/// Whether two texts are equal up to the case of ASCII letters.
pub open spec fn same_ignoring_case(a: Seq<char>, b: Seq<char>) -> bool {
    lowered(a) == lowered(b)
}

/// The characters that count as white space (the Unicode `White_Space` set).
pub open spec fn is_space(c: char) -> bool {
    let n = c as u32;
    ||| 0x09 <= n <= 0x0D
    ||| n == 0x20
    ||| n == 0x85
    ||| n == 0xA0
    ||| n == 0x1680
    ||| 0x2000 <= n <= 0x200A
    ||| n == 0x2028
    ||| n == 0x2029
    ||| n == 0x202F
    ||| n == 0x205F
    ||| n == 0x3000
}

/// The number of white-space characters at the front of `s`.
pub open spec fn leading_spaces(s: Seq<char>) -> nat
    decreases s.len(),
{
    if s.len() > 0 && is_space(s[0]) {
        1 + leading_spaces(s.drop_first())
    } else {
        0
    }
}

/// The number of white-space characters at the back of `s`.
pub open spec fn trailing_spaces(s: Seq<char>) -> nat
    decreases s.len(),
{
    if s.len() > 0 && is_space(s.last()) {
        1 + trailing_spaces(s.drop_last())
    } else {
        0
    }
}

/// `s` without its surrounding white space.
pub open spec fn trimmed(s: Seq<char>) -> Seq<char> {
    let rest = s.skip(leading_spaces(s) as int);
    rest.take(rest.len() - trailing_spaces(rest))
}

/// The number of slashes at the back of `p`.
pub open spec fn trailing_slashes(p: Seq<char>) -> nat
    decreases p.len(),
{
    if p.len() > 0 && p.last() == '/' {
        1 + trailing_slashes(p.drop_last())
    } else {
        0
    }
}

/// The length of the run of characters other than `/` at the back of `p`.
pub open spec fn tail_run(p: Seq<char>) -> nat
    decreases p.len(),
{
    if p.len() > 0 && p.last() != '/' {
        1 + tail_run(p.drop_last())
    } else {
        0
    }
}

/// `p` without the slashes at its back.
pub open spec fn without_trailing_slashes(p: Seq<char>) -> Seq<char> {
    p.take(p.len() - trailing_slashes(p))
}

/// The final segment of a slash-separated path: the characters between its
/// last inner slash and its end, slashes at the very end not counted. Empty
/// when the path holds no character other than `/`.
pub open spec fn last_segment(p: Seq<char>) -> Seq<char> {
    let q = without_trailing_slashes(p);
    q.skip(q.len() - tail_run(q))
}

/// What stands in front of the final segment of `p`.
pub open spec fn parent_path(p: Seq<char>) -> Seq<char> {
    let q = without_trailing_slashes(p);
    q.take(q.len() - tail_run(q))
}

/// A run of `n` white-space characters at the front of `s`, followed by the
/// end of `s` or by another character, is all the leading white space of `s`.
pub proof fn lemma_leading_spaces_is(s: Seq<char>, n: int)
    requires
        0 <= n <= s.len(),
        forall|i: int| 0 <= i < n ==> is_space(#[trigger] s[i]),
        n < s.len() ==> !is_space(s[n]),
    ensures
        leading_spaces(s) == n,
    decreases s.len(),
{
    if n > 0 {
        let t = s.drop_first();
        assert(is_space(s[0]));
        assert forall|i: int| 0 <= i < n - 1 implies is_space(#[trigger] t[i]) by {
            assert(t[i] == s[i + 1]);
        }
        if n - 1 < t.len() {
            assert(t[n - 1] == s[n]);
        }
        lemma_leading_spaces_is(t, n - 1);
    }
}

pub proof fn lemma_trailing_spaces_is(s: Seq<char>, n: int)
    requires
        0 <= n <= s.len(),
        forall|i: int| s.len() - n <= i < s.len() ==> is_space(#[trigger] s[i]),
        n < s.len() ==> !is_space(s[s.len() - n - 1]),
    ensures
        trailing_spaces(s) == n,
    decreases s.len(),
{
    if n > 0 {
        let t = s.drop_last();
        assert(is_space(s[s.len() - 1]));
        assert forall|i: int| t.len() - (n - 1) <= i < t.len() implies is_space(
            #[trigger] t[i],
        ) by {
            assert(t[i] == s[i]);
        }
        if n - 1 < t.len() {
            assert(t[t.len() - (n - 1) - 1] == s[s.len() - n - 1]);
        }
        lemma_trailing_spaces_is(t, n - 1);
    }
}

pub proof fn lemma_trailing_slashes_is(p: Seq<char>, n: int)
    requires
        0 <= n <= p.len(),
        forall|i: int| p.len() - n <= i < p.len() ==> #[trigger] p[i] == '/',
        n < p.len() ==> p[p.len() - n - 1] != '/',
    ensures
        trailing_slashes(p) == n,
    decreases p.len(),
{
    if n > 0 {
        let t = p.drop_last();
        assert(p[p.len() - 1] == '/');
        assert forall|i: int| t.len() - (n - 1) <= i < t.len() implies #[trigger] t[i] == '/' by {
            assert(t[i] == p[i]);
        }
        if n - 1 < t.len() {
            assert(t[t.len() - (n - 1) - 1] == p[p.len() - n - 1]);
        }
        lemma_trailing_slashes_is(t, n - 1);
    }
}

pub proof fn lemma_tail_run_is(p: Seq<char>, n: int)
    requires
        0 <= n <= p.len(),
        forall|i: int| p.len() - n <= i < p.len() ==> #[trigger] p[i] != '/',
        n < p.len() ==> p[p.len() - n - 1] == '/',
    ensures
        tail_run(p) == n,
    decreases p.len(),
{
    if n > 0 {
        let t = p.drop_last();
        assert(p[p.len() - 1] != '/');
        assert forall|i: int| t.len() - (n - 1) <= i < t.len() implies #[trigger] t[i] != '/' by {
            assert(t[i] == p[i]);
        }
        if n - 1 < t.len() {
            assert(t[t.len() - (n - 1) - 1] == p[p.len() - n - 1]);
        }
        lemma_tail_run_is(t, n - 1);
    }
}

/// The lower-case form of an ASCII capital; every other character unchanged.
pub fn to_lower_char(c: char) -> (r: char)
    ensures
        r == lower_char(c),
{
    if 'A' <= c && c <= 'Z' {
        let b: u8 = c as u8;
        (b + 32) as char
    } else {
        c
    }
}

/// Whether `c` is white space.
pub fn char_is_space(c: char) -> (r: bool)
    ensures
        r == is_space(c),
{
    let n: u32 = c as u32;
    (0x09 <= n && n <= 0x0D) || n == 0x20 || n == 0x85 || n == 0xA0 || n == 0x1680 || (0x2000 <= n
        && n <= 0x200A) || n == 0x2028 || n == 0x2029 || n == 0x202F || n == 0x205F || n == 0x3000
}

/// Compares two texts without regard to the case of ASCII letters.
pub fn eq_ignoring_case(a: &str, b: &str) -> (r: bool)
    ensures
        r == same_ignoring_case(a@, b@),
{
    let n = a.unicode_len();
    if n != b.unicode_len() {
        assert(lowered(a@).len() != lowered(b@).len());
        return false;
    }
    let mut i: usize = 0;
    while i < n
        invariant
            i <= n,
            n == a@.len(),
            n == b@.len(),
            forall|j: int| 0 <= j < i ==> lower_char(a@[j]) == lower_char(b@[j]),
        decreases n - i,
    {
        if to_lower_char(a.get_char(i)) != to_lower_char(b.get_char(i)) {
            assert(lowered(a@)[i as int] != lowered(b@)[i as int]);
            return false;
        }
        i += 1;
    }
    assert(lowered(a@) =~= lowered(b@));
    true
}

/// The text without its surrounding white space.
pub fn trim(s: &str) -> (r: String)
    ensures
        r@ == trimmed(s@),
{
    let n = s.unicode_len();
    let mut start: usize = 0;
    while start < n && char_is_space(s.get_char(start))
        invariant
            start <= n,
            n == s@.len(),
            forall|i: int| 0 <= i < start ==> is_space(#[trigger] s@[i]),
        decreases n - start,
    {
        start += 1;
    }
    proof {
        lemma_leading_spaces_is(s@, start as int);
    }
    let ghost rest = s@.skip(start as int);
    let mut end: usize = n;
    while end > start && char_is_space(s.get_char(end - 1))
        invariant
            start <= end <= n,
            n == s@.len(),
            forall|i: int| end <= i < n ==> is_space(#[trigger] s@[i]),
        decreases end,
    {
        end -= 1;
    }
    proof {
        assert forall|i: int| rest.len() - (n - end) <= i < rest.len() implies is_space(
            #[trigger] rest[i],
        ) by {
            assert(rest[i] == s@[i + start]);
        }
        if n - end < rest.len() {
            assert(rest[rest.len() - (n - end) - 1] == s@[end - 1]);
        }
        lemma_trailing_spaces_is(rest, (n - end) as int);
        assert(s@.subrange(start as int, end as int) =~= rest.take(rest.len() - (n - end)));
    }
    s.substring_char(start, end).to_owned()
}

/// The length of the run of characters other than `.` at the back of a name.
pub open spec fn dotless_run(name: Seq<char>) -> nat
    decreases name.len(),
{
    if name.len() > 0 && name.last() != '.' {
        1 + dotless_run(name.drop_last())
    } else {
        0
    }
}

/// A file name without its extension: without its last `.` and what follows
/// it. A name without a `.`, or with its only `.` in front, has no
/// extension.
pub open spec fn file_stem(name: Seq<char>) -> Seq<char> {
    if dotless_run(name) + 1 >= name.len() {
        name
    } else {
        name.take(name.len() - dotless_run(name) - 1)
    }
}

pub proof fn lemma_dotless_run_is(name: Seq<char>, n: int)
    requires
        0 <= n <= name.len(),
        forall|i: int| name.len() - n <= i < name.len() ==> #[trigger] name[i] != '.',
        n < name.len() ==> name[name.len() - n - 1] == '.',
    ensures
        dotless_run(name) == n,
    decreases name.len(),
{
    if n > 0 {
        let t = name.drop_last();
        assert(name[name.len() - 1] != '.');
        assert forall|i: int| t.len() - (n - 1) <= i < t.len() implies #[trigger] t[i] != '.' by {
            assert(t[i] == name[i]);
        }
        if n - 1 < t.len() {
            assert(t[t.len() - (n - 1) - 1] == name[name.len() - n - 1]);
        }
        lemma_dotless_run_is(t, n - 1);
    }
}

/// A file name without its extension.
pub fn stem_of(name: &str) -> (r: String)
    ensures
        r@ == file_stem(name@),
{
    let n = name.unicode_len();
    let mut start: usize = n;
    while start > 0 && name.get_char(start - 1) != '.'
        invariant
            start <= n,
            n == name@.len(),
            forall|i: int| start <= i < n ==> #[trigger] name@[i] != '.',
        decreases start,
    {
        start -= 1;
    }
    proof {
        lemma_dotless_run_is(name@, (n - start) as int);
    }
    if start <= 1 {
        assert(name@.subrange(0, n as int) =~= name@);
        name.substring_char(0, n).to_owned()
    } else {
        name.substring_char(0, start - 1).to_owned()
    }
}

/// Splits a slash-separated path into what stands in front of its final
/// segment and that segment.
pub fn split_last(path: &str) -> (r: (String, String))
    ensures
        r.0@ == parent_path(path@),
        r.1@ == last_segment(path@),
{
    let n = path.unicode_len();
    let mut end: usize = n;
    while end > 0 && path.get_char(end - 1) == '/'
        invariant
            end <= n,
            n == path@.len(),
            forall|i: int| end <= i < n ==> #[trigger] path@[i] == '/',
        decreases end,
    {
        end -= 1;
    }
    proof {
        lemma_trailing_slashes_is(path@, (n - end) as int);
    }
    let ghost q = path@.take(end as int);
    let mut start: usize = end;
    while start > 0 && path.get_char(start - 1) != '/'
        invariant
            start <= end <= n,
            n == path@.len(),
            forall|i: int| start <= i < end ==> #[trigger] path@[i] != '/',
        decreases start,
    {
        start -= 1;
    }
    proof {
        assert forall|i: int| q.len() - (end - start) <= i < q.len() implies #[trigger] q[i]
            != '/' by {
            assert(q[i] == path@[i]);
        }
        if end - start < q.len() {
            assert(q[q.len() - (end - start) - 1] == path@[start - 1]);
        }
        lemma_tail_run_is(q, (end - start) as int);
        assert(path@.subrange(0, start as int) =~= q.take(q.len() - (end - start)));
        assert(path@.subrange(start as int, end as int) =~= q.skip(q.len() - (end - start)));
    }
    (path.substring_char(0, start).to_owned(), path.substring_char(start, end).to_owned())
}

/// The final segment of a path, as a file name.
pub fn get_filename(path: &str) -> (r: String)
    requires
        last_segment(path@).len() > 0,
    ensures
        r@ == last_segment(path@),
{
    let (_, name) = split_last(path);
    name
}

} // verus!
