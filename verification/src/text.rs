use vstd::prelude::*;
use vstd::string::StrSliceExecFns;
use vstd::string::StringExecFns;

verus! {

/// `needle` occurs in `hay` starting at position `i`.
pub open spec fn occurs_at(hay: Seq<char>, needle: Seq<char>, i: int) -> bool {
    &&& 0 <= i
    &&& i + needle.len() <= hay.len()
    &&& hay.subrange(i, i + needle.len()) == needle
}

/// `needle` occurs somewhere in `hay` (what `str::contains` answers).
pub open spec fn contains_text(hay: Seq<char>, needle: Seq<char>) -> bool {
    exists|i: int| #[trigger] occurs_at(hay, needle, i)
}

/// `s` ends with `suffix`.
pub open spec fn ends_with(s: Seq<char>, suffix: Seq<char>) -> bool {
    suffix.len() <= s.len() && s.subrange(s.len() - suffix.len(), s.len() as int) == suffix
}

/// Appends one character to a string (`String::push`).
#[verifier::external_body]
pub(crate) fn push_char(s: &mut String, c: char)
    ensures
        final(s)@ == old(s)@.push(c),
{
    s.push(c)
}

/// The characters of `s`, one by one.
pub fn chars_of(s: &str) -> (r: Vec<char>)
    ensures
        r@ == s@,
{
    let n: usize = s.unicode_len();
    let mut r: Vec<char> = Vec::new();
    let mut i: usize = 0;
    while i < n
        invariant
            n == s@.len(),
            i <= n,
            r@ == s@.subrange(0, i as int),
        decreases n - i,
    {
        r.push(s.get_char(i));
        i = i + 1;
    }
    assert(r@ =~= s@);
    r
}

/// Whether `needle` occurs in `hay`, as `str::contains` with a string pattern.
pub fn text_contains(hay: &str, needle: &str) -> (r: bool)
    ensures
        r == contains_text(hay@, needle@),
{
    let h = chars_of(hay);
    let n = chars_of(needle);
    let hl: usize = h.len();
    let nl: usize = n.len();
    if nl > hl {
        assert forall|i: int| !#[trigger] occurs_at(hay@, needle@, i) by {}
        return false;
    }
    if nl == 0 {
        assert(hay@.subrange(0, 0) =~= needle@);
        assert(occurs_at(hay@, needle@, 0));
        return true;
    }
    let last: usize = hl - nl;
    let mut i: usize = 0;
    while i <= last
        invariant
            h@ == hay@,
            n@ == needle@,
            hl == h@.len(),
            nl == n@.len(),
            last == hl - nl,
            0 < nl <= hl,
            i <= last + 1,
            forall|k: int| 0 <= k < i ==> !#[trigger] occurs_at(hay@, needle@, k),
        decreases last + 1 - i,
    {
        let mut j: usize = 0;
        let mut matched: bool = true;
        while j < nl && matched
            invariant
                h@ == hay@,
                n@ == needle@,
                hl == h@.len(),
                nl == n@.len(),
                i + nl <= hl,
                j <= nl,
                matched ==> forall|jj: int| 0 <= jj < j ==> h@[i + jj] == n@[jj],
                !matched ==> !occurs_at(hay@, needle@, i as int),
            decreases nl - j + (if matched { 1int } else { 0int }),
        {
            if h[i + j] != n[j] {
                matched = false;
                assert(hay@.subrange(i as int, i + nl)[j as int] == h@[i + j]);
            } else {
                j = j + 1;
            }
        }
        if matched {
            assert(hay@.subrange(i as int, i + nl) =~= needle@);
            assert(occurs_at(hay@, needle@, i as int));
            return true;
        }
        i = i + 1;
    }
    assert forall|k: int| !#[trigger] occurs_at(hay@, needle@, k) by {
        if 0 <= k < i {
        }
    }
    false
}

/// Joins a directory and a name with `/`, as the paths of a profile are built.
pub fn join_path(dir: &str, name: &str) -> (r: String)
    ensures
        r@ == dir@ + seq!['/'] + name@,
{
    let mut r = String::from_str(dir);
    push_char(&mut r, '/');
    r.append(name);
    r
}

/// The position of the last `c` in `s`, or -1 when `c` does not occur.
pub open spec fn last_index_of(s: Seq<char>, c: char) -> int
    decreases s.len(),
{
    if s.len() == 0 {
        -1
    } else if s.last() == c {
        s.len() - 1
    } else {
        last_index_of(s.drop_last(), c)
    }
}

/// What follows the last `c` in `s`, or all of `s` when `c` does not occur:
/// the first piece that `str::rsplit` yields.
pub open spec fn after_last(s: Seq<char>, c: char) -> Seq<char> {
    s.subrange(last_index_of(s, c) + 1, s.len() as int)
}

proof fn lemma_last_index_of(s: Seq<char>, c: char, k: int)
    requires
        -1 <= k < s.len(),
        k >= 0 ==> s[k] == c,
        forall|j: int| k < j < s.len() ==> s[j] != c,
    ensures
        last_index_of(s, c) == k,
    decreases s.len(),
{
    if s.len() > 0 && s.last() != c {
        let t = s.drop_last();
        assert(k < s.len() - 1);
        assert forall|j: int| k < j < t.len() implies t[j] != c by {
            assert(t[j] == s[j]);
        }
        lemma_last_index_of(t, c, k);
    }
}

/// What follows the last `c` in a text that ends with `c` and then `tail` is `tail`,
/// when `c` does not occur in `tail`.
pub proof fn lemma_after_last_suffix(head: Seq<char>, c: char, tail: Seq<char>)
    requires
        forall|j: int| 0 <= j < tail.len() ==> tail[j] != c,
    ensures
        after_last(head + seq![c] + tail, c) == tail,
{
    let s = head + seq![c] + tail;
    let k = head.len() as int;
    assert forall|j: int| k < j < s.len() implies s[j] != c by {
        assert(s[j] == tail[j - k - 1]);
    }
    lemma_last_index_of(s, c, k);
    assert(s.subrange(k + 1, s.len() as int) =~= tail);
}

/// What follows the last `c` in `s`, as the first piece of `s.rsplit(c)`.
pub fn text_after_last(s: &str, c: char) -> (r: &str)
    ensures
        r@ == after_last(s@, c),
{
    let chars = chars_of(s);
    let n: usize = chars.len();
    let mut i: usize = n;
    while i > 0
        invariant
            chars@ == s@,
            n == s@.len(),
            i <= n,
            forall|j: int| i <= j < n ==> s@[j] != c,
        decreases i,
    {
        if chars[i - 1] == c {
            proof {
                lemma_last_index_of(s@, c, i - 1);
            }
            return s.substring_char(i, n);
        }
        i = i - 1;
    }
    proof {
        lemma_last_index_of(s@, c, -1);
    }
    s.substring_char(0, n)
}

/// `s` without `suffix` at its end, when it ends with it, as `str::strip_suffix`.
pub fn text_strip_suffix<'a>(s: &'a str, suffix: &str) -> (r: Option<&'a str>)
    ensures
        r is Some <==> ends_with(s@, suffix@),
        r matches Some(p) ==> p@ + suffix@ == s@,
{
    let a = chars_of(s);
    let b = chars_of(suffix);
    let n: usize = a.len();
    let m: usize = b.len();
    if m > n {
        return None;
    }
    let start: usize = n - m;
    let mut j: usize = 0;
    while j < m
        invariant
            a@ == s@,
            b@ == suffix@,
            n == s@.len(),
            m == suffix@.len(),
            start == n - m,
            m <= n,
            j <= m,
            forall|k: int| 0 <= k < j ==> s@[start + k] == suffix@[k],
        decreases m - j,
    {
        if a[start + j] != b[j] {
            assert(s@.subrange(start as int, n as int)[j as int] == s@[start + j]);
            return None;
        }
        j = j + 1;
    }
    assert(s@.subrange(start as int, n as int) =~= suffix@);
    let p = s.substring_char(0, start);
    assert(p@ + suffix@ =~= s@);
    Some(p)
}

} // verus!
