//! Character-level text operations that the protocol handling relies on:
//! Unicode whitespace, trimming, substring search and the first non-blank
//! line of a text, each over the character sequence of a string.
use vstd::prelude::*;

verus! {

/// The Unicode `White_Space` property: the characters that `char::is_whitespace`
/// and `str::trim` treat as whitespace.
pub open spec fn is_white_space(c: char) -> bool {
    let u = c as u32;
    ||| 0x9 <= u <= 0xd
    ||| u == 0x20
    ||| u == 0x85
    ||| u == 0xa0
    ||| u == 0x1680
    ||| 0x2000 <= u <= 0x200a
    ||| u == 0x2028
    ||| u == 0x2029
    ||| u == 0x202f
    ||| u == 0x205f
    ||| u == 0x3000
}

/// `s` without its leading whitespace.
pub open spec fn trim_start(s: Seq<char>) -> Seq<char>
    decreases s.len(),
{
    if s.len() > 0 && is_white_space(s[0]) {
        trim_start(s.drop_first())
    } else {
        s
    }
}

/// `s` without its trailing whitespace.
pub open spec fn trim_end(s: Seq<char>) -> Seq<char>
    decreases s.len(),
{
    if s.len() > 0 && is_white_space(s.last()) {
        trim_end(s.drop_last())
    } else {
        s
    }
}

/// `s` without leading and trailing whitespace.
pub open spec fn trimmed(s: Seq<char>) -> Seq<char> {
    trim_end(trim_start(s))
}

/// `p` occurs in `s` at position `i`.
pub open spec fn occurs_at(s: Seq<char>, p: Seq<char>, i: int) -> bool {
    0 <= i && i + p.len() <= s.len() && s.subrange(i, i + p.len()) == p
}

/// `p` occurs somewhere in `s`.
pub open spec fn has_infix(s: Seq<char>, p: Seq<char>) -> bool {
    exists|i: int| #[trigger] occurs_at(s, p, i)
}

/// The number of characters before the first line feed of `s` (all of `s` if it has none).
pub open spec fn first_line_len(s: Seq<char>) -> nat
    decreases s.len(),
{
    if s.len() == 0 || s[0] == '\n' {
        0
    } else {
        1 + first_line_len(s.drop_first())
    }
}

/// The first line of `s` that holds more than whitespace, trimmed; `None` when
/// every line is blank. Lines are separated by line feeds; a carriage return
/// before a line feed is whitespace and so is trimmed away with the rest.
pub open spec fn spec_first_nonblank_line(s: Seq<char>) -> Option<Seq<char>>
    decreases s.len(),
{
    let k = first_line_len(s);
    let t = trimmed(s.take(k as int));
    if t.len() > 0 {
        Some(t)
    } else if k >= s.len() {
        None
    } else {
        proof {
            lemma_first_line_len_bound(s);
        }
        spec_first_nonblank_line(s.skip(k + 1 as int))
    }
}

/// At most the first `n` characters of `s`.
pub open spec fn spec_take_chars(s: Seq<char>, n: nat) -> Seq<char> {
    if s.len() <= n {
        s
    } else {
        s.take(n as int)
    }
}

pub proof fn lemma_first_line_len_bound(s: Seq<char>)
    ensures
        first_line_len(s) <= s.len(),
    decreases s.len(),
{
    if s.len() > 0 && s[0] != '\n' {
        lemma_first_line_len_bound(s.drop_first());
    }
}

proof fn lemma_first_line_len_at(s: Seq<char>, e: int)
    requires
        0 <= e <= s.len(),
        forall|k: int| 0 <= k < e ==> s[k] != '\n',
        e == s.len() || s[e] == '\n',
    ensures
        first_line_len(s) == e,
    decreases e,
{
    if e > 0 {
        assert(s[0] != '\n');
        lemma_first_line_len_at(s.drop_first(), e - 1);
    }
}

proof fn lemma_trim_start_at(s: Seq<char>, i: int)
    requires
        0 <= i <= s.len(),
        forall|k: int| 0 <= k < i ==> is_white_space(#[trigger] s[k]),
        i == s.len() || !is_white_space(s[i]),
    ensures
        trim_start(s) == s.subrange(i, s.len() as int),
    decreases i,
{
    if i == 0 {
        assert(s.subrange(0, s.len() as int) =~= s);
    } else {
        assert(is_white_space(s[0]));
        let t = s.drop_first();
        assert forall|k: int| 0 <= k < i - 1 implies is_white_space(#[trigger] t[k]) by {
            assert(t[k] == s[k + 1]);
        }
        lemma_trim_start_at(t, i - 1);
        assert(t.subrange(i - 1, t.len() as int) =~= s.subrange(i, s.len() as int));
    }
}

proof fn lemma_trim_end_at(s: Seq<char>, j: int)
    requires
        0 <= j <= s.len(),
        forall|k: int| j <= k < s.len() ==> is_white_space(#[trigger] s[k]),
        j == 0 || !is_white_space(s[j - 1]),
    ensures
        trim_end(s) == s.subrange(0, j),
    decreases s.len() - j,
{
    if j == s.len() {
        assert(s.subrange(0, j) =~= s);
    } else {
        assert(is_white_space(s.last()));
        let t = s.drop_last();
        assert forall|k: int| j <= k < t.len() implies is_white_space(#[trigger] t[k]) by {
            assert(t[k] == s[k]);
        }
        lemma_trim_end_at(t, j);
        assert(t.subrange(0, j) =~= s.subrange(0, j));
    }
}

/// The characters of `s`, in order.
pub fn to_chars(s: &str) -> (r: Vec<char>)
    ensures
        r@ == s@,
{
    let mut v: Vec<char> = Vec::new();
    for c in it: s.chars()
        invariant
            v@ == it.seq().take(it.index() as int),
    {
        v.push(c);
    }
    v
}

/// Whether `c` is Unicode whitespace.
pub fn is_whitespace(c: char) -> (r: bool)
    ensures
        r == is_white_space(c),
{
    let u = c as u32;
    (0x9 <= u && u <= 0xd) || u == 0x20 || u == 0x85 || u == 0xa0 || u == 0x1680 || (0x2000 <= u
        && u <= 0x200a) || u == 0x2028 || u == 0x2029 || u == 0x202f || u == 0x205f || u == 0x3000
}

/// `s` without leading and trailing whitespace.
pub fn trim(s: &str) -> (r: &str)
    ensures
        r@ == trimmed(s@),
{
    let cs = to_chars(s);
    let n = cs.len();
    let mut i: usize = 0;
    while i < n && is_whitespace(cs[i])
        invariant
            n == cs@.len(),
            cs@ == s@,
            i <= n,
            forall|k: int| 0 <= k < i ==> is_white_space(#[trigger] cs@[k]),
        decreases n - i,
    {
        i = i + 1;
    }
    let mut j: usize = n;
    while j > i && is_whitespace(cs[j - 1])
        invariant
            n == cs@.len(),
            cs@ == s@,
            i <= j <= n,
            forall|k: int| j <= k < n ==> is_white_space(#[trigger] cs@[k]),
        decreases j - i,
    {
        j = j - 1;
    }
    proof {
        lemma_trim_start_at(s@, i as int);
        let t = s@.subrange(i as int, n as int);
        assert forall|k: int| j - i <= k < t.len() implies is_white_space(#[trigger] t[k]) by {
            assert(t[k] == s@[k + i]);
        }
        if j > i {
            assert(t[j - i - 1] == s@[j - 1]);
        }
        lemma_trim_end_at(t, j - i);
        assert(t.subrange(0, j - i) =~= s@.subrange(i as int, j as int));
    }
    s.substring_char(i, j)
}

/// Whether `s` is empty or whitespace only.
pub fn is_blank(s: &str) -> (r: bool)
    ensures
        r == (trimmed(s@).len() == 0),
{
    trim(s).unicode_len() == 0
}

/// Whether the characters of `a` and `b` are the same.
pub fn str_eq(a: &str, b: &str) -> (r: bool)
    ensures
        r == (a@ == b@),
{
    let x = to_chars(a);
    let y = to_chars(b);
    if x.len() != y.len() {
        return false;
    }
    let mut i: usize = 0;
    while i < x.len()
        invariant
            x@ == a@,
            y@ == b@,
            x@.len() == y@.len(),
            i <= x@.len(),
            forall|k: int| 0 <= k < i ==> x@[k] == y@[k],
        decreases x@.len() - i,
    {
        if x[i] != y[i] {
            return false;
        }
        i = i + 1;
    }
    assert(x@ =~= y@);
    true
}

fn occurs_at_exec(h: &Vec<char>, p: &Vec<char>, i: usize) -> (r: bool)
    requires
        i + p@.len() <= h@.len(),
    ensures
        r == occurs_at(h@, p@, i as int),
{
    let mut j: usize = 0;
    while j < p.len()
        invariant
            i + p@.len() <= h@.len(),
            j <= p@.len(),
            forall|k: int| 0 <= k < j ==> h@[i + k] == p@[k],
        decreases p@.len() - j,
    {
        assert(i + j < h.len());
        if h[i + j] != p[j] {
            assert(h@.subrange(i as int, i + p@.len())[j as int] != p@[j as int]);
            return false;
        }
        j = j + 1;
    }
    assert(h@.subrange(i as int, i + p@.len()) =~= p@);
    true
}

/// Whether `needle` occurs in `haystack`.
pub fn contains(haystack: &str, needle: &str) -> (r: bool)
    ensures
        r == has_infix(haystack@, needle@),
{
    let h = to_chars(haystack);
    let p = to_chars(needle);
    if p.len() > h.len() {
        return false;
    }
    let last = h.len() - p.len();
    let mut i: usize = 0;
    loop
        invariant
            h@ == haystack@,
            p@ == needle@,
            last == h@.len() - p@.len(),
            i <= last,
            forall|k: int| 0 <= k < i ==> !#[trigger] occurs_at(h@, p@, k),
        decreases last - i,
    {
        if occurs_at_exec(&h, &p, i) {
            return true;
        }
        if i == last {
            return false;
        }
        i = i + 1;
    }
}

/// The first line of `s` that holds more than whitespace, trimmed.
pub fn first_nonblank_line(s: &str) -> (r: Option<&str>)
    ensures
        r matches Some(t) ==> spec_first_nonblank_line(s@) == Some(t@),
        r is None ==> spec_first_nonblank_line(s@) is None,
{
    let cs = to_chars(s);
    let n = cs.len();
    let mut start: usize = 0;
    assert(s@.skip(0) =~= s@);
    loop
        invariant
            cs@ == s@,
            n == cs@.len(),
            start <= n,
            spec_first_nonblank_line(s@) == spec_first_nonblank_line(s@.skip(start as int)),
        decreases n - start,
    {
        let mut end: usize = start;
        while end < n && cs[end] != '\n'
            invariant
                cs@ == s@,
                n == cs@.len(),
                start <= end <= n,
                forall|k: int| start <= k < end ==> cs@[k] != '\n',
            decreases n - end,
        {
            end = end + 1;
        }
        let line = s.substring_char(start, end);
        let t = trim(line);
        proof {
            let rest = s@.skip(start as int);
            assert forall|k: int| 0 <= k < end - start implies rest[k] != '\n' by {
                assert(rest[k] == s@[k + start]);
            }
            if end < n {
                assert(rest[end - start] == s@[end as int]);
            }
            lemma_first_line_len_at(rest, end - start);
            assert(rest.take(end - start) =~= s@.subrange(start as int, end as int));
            if end < n {
                assert(rest.skip(end - start + 1) =~= s@.skip(end + 1));
            }
        }
        if t.unicode_len() > 0 {
            return Some(t);
        }
        if end >= n {
            return None;
        }
        start = end + 1;
    }
}

/// At most the first `n` characters of `s`.
pub fn take_chars(s: &str, n: usize) -> (r: String)
    ensures
        r@ == spec_take_chars(s@, n as nat),
{
    let len = s.unicode_len();
    if len <= n {
        s.to_owned()
    } else {
        let t = s.substring_char(0, n);
        proof {
            assert(s@.subrange(0, n as int) =~= s@.take(n as int));
        }
        t.to_owned()
    }
}

} // verus!
