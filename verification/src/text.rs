//! Verified text utilities: substring removal, trimming, splitting and
//! character classification over `Seq<char>` views.

use vstd::prelude::*;
use vstd::string::*;

verus! {

/// What `str::replace(pat, "")` computes: scan left to right; wherever the
/// pattern starts, drop it whole and continue after it (occurrences do not
/// overlap); otherwise keep one character.
pub open spec fn remove_all(s: Seq<char>, pat: Seq<char>) -> Seq<char>
    decreases s.len(),
{
    if pat.len() == 0 || s.len() < pat.len() {
        s
    } else if s.subrange(0, pat.len() as int) == pat {
        remove_all(s.subrange(pat.len() as int, s.len() as int), pat)
    } else {
        seq![s[0]] + remove_all(s.subrange(1, s.len() as int), pat)
    }
}

/// The characters of `pat` stand in `s` at position `i`.
fn matches_at(s: &str, pat: &str, i: usize) -> (b: bool)
    requires
        pat@.len() >= 1,
        i + pat@.len() <= s@.len(),
    ensures
        b == (s@.subrange(i as int, i + pat@.len()) == pat@),
{
    let n = s.unicode_len();
    let p = pat.unicode_len();
    let mut j: usize = 0;
    while j < p
        invariant
            n == s@.len(),
            p == pat@.len(),
            i + p <= n,
            j <= p,
            forall|k: int| 0 <= k < j ==> s@[i + k] == pat@[k],
        decreases p - j,
    {
        if s.get_char(i + j) != pat.get_char(j) {
            assert(s@.subrange(i as int, i + pat@.len())[j as int] != pat@[j as int]);
            return false;
        }
        j += 1;
    }
    assert(s@.subrange(i as int, i + pat@.len()) =~= pat@);
    true
}

/// Remove every occurrence of `pat` from `s`, scanning left to right,
/// exactly as `str::replace(pat, "")` would.
pub fn replace_remove(s: &str, pat: &str) -> (r: String)
    requires
        pat@.len() >= 1,
    ensures
        r@ == remove_all(s@, pat@),
{
    let n = s.unicode_len();
    let p = pat.unicode_len();
    let mut out = String::new();
    let mut i: usize = 0;
    proof {
        assert(s@.subrange(0, n as int) =~= s@);
        assert(out@ + remove_all(s@, pat@) =~= remove_all(s@, pat@));
    }
    while i < n
        invariant
            n == s@.len(),
            p == pat@.len(),
            p >= 1,
            i <= n,
            out@ + remove_all(s@.subrange(i as int, n as int), pat@) == remove_all(s@, pat@),
        decreases n - i,
    {
        let ghost rest = s@.subrange(i as int, n as int);
        if p <= n - i && matches_at(s, pat, i) {
            proof {
                assert(rest.subrange(0, p as int) =~= s@.subrange(i as int, i + p as int));
                assert(rest.subrange(p as int, rest.len() as int) =~= s@.subrange(
                    i + p as int,
                    n as int,
                ));
            }
            i += p;
        } else {
            proof {
                if p <= n - i {
                    assert(rest.subrange(0, p as int) =~= s@.subrange(i as int, i + p as int));
                }
                assert(rest.subrange(1, rest.len() as int) =~= s@.subrange(i + 1, n as int));
                assert(rest =~= seq![rest[0]] + rest.subrange(1, rest.len() as int));
            }
            let piece = s.substring_char(i, i + 1);
            let ghost prev = out@;
            out.append(piece);
            proof {
                assert(piece@ =~= seq![rest[0]]);
                assert(out@ + remove_all(s@.subrange(i + 1, n as int), pat@) =~= prev
                    + remove_all(rest, pat@));
            }
            i += 1;
        }
    }
    proof {
        assert(s@.subrange(n as int, n as int) =~= Seq::<char>::empty());
        assert(out@ + Seq::<char>::empty() =~= out@);
    }
    out
}

/// A character of the Unicode White_Space class, the set that `str::trim`
/// removes.
pub open spec fn is_space_char(c: char) -> bool {
    c == ' ' || c == '\t' || c == '\n' || c == '\u{0B}' || c == '\u{0C}' || c == '\r'
        || c == '\u{85}' || c == '\u{A0}' || c == '\u{1680}' || c == '\u{2000}' || c == '\u{2001}'
        || c == '\u{2002}' || c == '\u{2003}' || c == '\u{2004}' || c == '\u{2005}'
        || c == '\u{2006}' || c == '\u{2007}' || c == '\u{2008}' || c == '\u{2009}'
        || c == '\u{200A}' || c == '\u{2028}' || c == '\u{2029}' || c == '\u{202F}'
        || c == '\u{205F}' || c == '\u{3000}'
}

/// Runtime test for `is_space_char`.
pub fn is_space(c: char) -> (b: bool)
    ensures
        b == is_space_char(c),
{
    c == ' ' || c == '\t' || c == '\n' || c == '\u{0B}' || c == '\u{0C}' || c == '\r'
        || c == '\u{85}' || c == '\u{A0}' || c == '\u{1680}' || c == '\u{2000}' || c == '\u{2001}'
        || c == '\u{2002}' || c == '\u{2003}' || c == '\u{2004}' || c == '\u{2005}'
        || c == '\u{2006}' || c == '\u{2007}' || c == '\u{2008}' || c == '\u{2009}'
        || c == '\u{200A}' || c == '\u{2028}' || c == '\u{2029}' || c == '\u{202F}'
        || c == '\u{205F}' || c == '\u{3000}'
}

/// `s` without its leading white space.
pub open spec fn trim_start(s: Seq<char>) -> Seq<char>
    decreases s.len(),
{
    if s.len() > 0 && is_space_char(s[0]) {
        trim_start(s.subrange(1, s.len() as int))
    } else {
        s
    }
}

/// `s` without its trailing white space.
pub open spec fn trim_end(s: Seq<char>) -> Seq<char>
    decreases s.len(),
{
    if s.len() > 0 && is_space_char(s[s.len() - 1]) {
        trim_end(s.subrange(0, s.len() - 1))
    } else {
        s
    }
}

/// `s` without leading and trailing white space: what `str::trim` returns.
pub open spec fn trimmed(s: Seq<char>) -> Seq<char> {
    trim_end(trim_start(s))
}

/// `str::trim`, verified against `trimmed`.
pub fn trim(s: &str) -> (r: &str)
    ensures
        r@ == trimmed(s@),
{
    let n = s.unicode_len();
    let mut i: usize = 0;
    proof {
        assert(s@.subrange(0, n as int) =~= s@);
    }
    while i < n && is_space(s.get_char(i))
        invariant
            n == s@.len(),
            i <= n,
            trim_start(s@.subrange(i as int, n as int)) == trim_start(s@),
        decreases n - i,
    {
        proof {
            let rest = s@.subrange(i as int, n as int);
            assert(rest.subrange(1, rest.len() as int) =~= s@.subrange(i + 1, n as int));
        }
        i += 1;
    }
    proof {
        if i < n {
            assert(!is_space_char(s@.subrange(i as int, n as int)[0]));
        }
        assert(trim_start(s@) == s@.subrange(i as int, n as int));
    }
    let mut j: usize = n;
    while j > i && is_space(s.get_char(j - 1))
        invariant
            n == s@.len(),
            i <= j <= n,
            trim_start(s@) == s@.subrange(i as int, n as int),
            trim_end(s@.subrange(i as int, j as int)) == trim_end(trim_start(s@)),
        decreases j,
    {
        proof {
            let cur = s@.subrange(i as int, j as int);
            assert(cur[cur.len() - 1] == s@[j - 1]);
            assert(cur.subrange(0, cur.len() - 1) =~= s@.subrange(i as int, j - 1));
        }
        j -= 1;
    }
    proof {
        let cur = s@.subrange(i as int, j as int);
        if j > i {
            assert(!is_space_char(cur[cur.len() - 1]));
        }
        assert(trim_end(cur) == cur);
    }
    s.substring_char(i, j)
}

/// The position of the first `c` in `s`, if any.
pub open spec fn find_char(s: Seq<char>, c: char) -> Option<int>
    decreases s.len(),
{
    if s.len() == 0 {
        None
    } else if s[0] == c {
        Some(0)
    } else {
        match find_char(s.subrange(1, s.len() as int), c) {
            Some(i) => Some(i + 1),
            None => None,
        }
    }
}

proof fn lemma_find_char_from(s: Seq<char>, c: char, i: int)
    requires
        0 <= i <= s.len(),
        forall|k: int| 0 <= k < i ==> s[k] != c,
    ensures
        find_char(s, c) == match find_char(s.subrange(i, s.len() as int), c) {
            Some(j) => Some(j + i),
            None => None::<int>,
        },
    decreases i,
{
    if i > 0 {
        assert(s.subrange(0, s.len() as int) =~= s);
        lemma_find_char_from(s, c, i - 1);
        let rest = s.subrange(i - 1, s.len() as int);
        assert(rest[0] == s[i - 1]);
        assert(rest.subrange(1, rest.len() as int) =~= s.subrange(i, s.len() as int));
    } else {
        assert(s.subrange(0, s.len() as int) =~= s);
    }
}

/// The position of the first `c` in `s`, or `None`, as `str::find` gives it.
pub fn find_first(s: &str, c: char) -> (r: Option<usize>)
    ensures
        match r {
            Some(i) => find_char(s@, c) == Some(i as int),
            None => find_char(s@, c) == None::<int>,
        },
{
    let n = s.unicode_len();
    let mut i: usize = 0;
    while i < n
        invariant
            n == s@.len(),
            i <= n,
            forall|k: int| 0 <= k < i ==> s@[k] != c,
        decreases n - i,
    {
        if s.get_char(i) == c {
            proof {
                lemma_find_char_from(s@, c, i as int);
                let rest = s@.subrange(i as int, n as int);
                assert(rest[0] == c);
            }
            return Some(i);
        }
        i += 1;
    }
    proof {
        lemma_find_char_from(s@, c, n as int);
        assert(s@.subrange(n as int, n as int) =~= Seq::<char>::empty());
    }
    None
}

/// What `str::split(sep)` yields, as a sequence of pieces: the text between
/// consecutive separators, with an empty piece between two adjacent ones and
/// one (possibly empty) piece at each end.
pub open spec fn split_char_spec(s: Seq<char>, sep: char) -> Seq<Seq<char>>
    decreases s.len(),
{
    match find_char(s, sep) {
        Some(i) => if 0 <= i < s.len() {
            seq![s.subrange(0, i)] + split_char_spec(s.subrange(i + 1, s.len() as int), sep)
        } else {
            seq![s]
        },
        None => seq![s],
    }
}

/// Wherever `find_char` points, the character stands, inside the sequence.
pub proof fn lemma_find_char_bounds(s: Seq<char>, c: char)
    ensures
        match find_char(s, c) {
            Some(i) => 0 <= i < s.len() && s[i] == c,
            None => true,
        },
    decreases s.len(),
{
    if s.len() > 0 && s[0] != c {
        lemma_find_char_bounds(s.subrange(1, s.len() as int), c);
    }
}

/// Split `s` at every `sep`, exactly as `str::split` does.
pub fn split_at_char(s: &str, sep: char) -> (r: Vec<String>)
    ensures
        r.deep_view() == split_char_spec(s@, sep),
{
    let mut out: Vec<String> = Vec::new();
    let n = s.unicode_len();
    let mut start: usize = 0;
    let mut i: usize = 0;
    proof {
        assert(s@.subrange(0, n as int) =~= s@);
        assert(out.deep_view() =~= Seq::<Seq<char>>::empty());
        assert(out.deep_view() + split_char_spec(s@, sep) =~= split_char_spec(s@, sep));
    }
    while i < n
        invariant
            n == s@.len(),
            start <= i <= n,
            forall|k: int| start <= k < i ==> s@[k] != sep,
            out.deep_view() + split_char_spec(s@.subrange(start as int, n as int), sep)
                == split_char_spec(s@, sep),
        decreases n - i,
    {
        if s.get_char(i) == sep {
            let piece = s.substring_char(start, i);
            let ghost prev = out.deep_view();
            let ghost old_start = start as int;
            proof {
                let rest = s@.subrange(old_start, n as int);
                lemma_find_char_from(rest, sep, i - old_start);
                let tail = rest.subrange(i - old_start, rest.len() as int);
                assert(tail[0] == sep);
                assert(tail.subrange(1, tail.len() as int) =~= s@.subrange(i + 1, n as int));
                assert(rest.subrange(i - old_start + 1, rest.len() as int) =~= s@.subrange(
                    i + 1,
                    n as int,
                ));
                assert(find_char(rest, sep) == Some(i - old_start));
                assert(rest.subrange(0, i - old_start) =~= s@.subrange(old_start, i as int));
            }
            out.push(piece.to_owned());
            start = i + 1;
            proof {
                assert(out.deep_view() =~= prev.push(piece@));
                assert(prev.push(piece@) + split_char_spec(
                    s@.subrange(start as int, n as int),
                    sep,
                ) =~= prev + split_char_spec(s@.subrange(old_start, n as int), sep));
            }
        }
        i += 1;
    }
    let last = s.substring_char(start, n);
    let ghost prev = out.deep_view();
    proof {
        let rest = s@.subrange(start as int, n as int);
        lemma_find_char_from(rest, sep, rest.len() as int);
        assert(rest.subrange(rest.len() as int, rest.len() as int) =~= Seq::<char>::empty());
        assert(find_char(rest, sep) == None::<int>);
    }
    out.push(last.to_owned());
    proof {
        assert(out.deep_view() =~= prev.push(last@));
        assert(prev.push(last@) =~= prev + seq![last@]);
        assert(out.deep_view() == split_char_spec(s@, sep));
    }
    out
}

/// Character-for-character equality of two string slices.
pub fn str_eq(a: &str, b: &str) -> (r: bool)
    ensures
        r == (a@ == b@),
{
    let n = a.unicode_len();
    let m = b.unicode_len();
    if n != m {
        return false;
    }
    let mut i: usize = 0;
    while i < n
        invariant
            n == a@.len(),
            n == b@.len(),
            i <= n,
            forall|k: int| 0 <= k < i ==> a@[k] == b@[k],
        decreases n - i,
    {
        if a.get_char(i) != b.get_char(i) {
            return false;
        }
        i += 1;
    }
    proof {
        assert(a@ =~= b@);
    }
    true
}

/// `'0'` through `'9'`.
pub open spec fn is_digit_char(c: char) -> bool {
    '0' <= c && c <= '9'
}

} // verus!
