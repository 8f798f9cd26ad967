//! Scanning text as characters: lines as `str::lines` splits them, white
//! space trimming, and searching for characters and substrings.
use vstd::prelude::*;
use vstd::string::*;

verus! {

/// Whether `c` is white space (the Unicode White_Space property, which
/// `char::is_whitespace` and `str::trim` use).
pub open spec fn is_space(c: char) -> bool {
    let u = c as u32;
    ||| 9 <= u <= 13
    ||| u == 32
    ||| u == 0x85
    ||| u == 0xA0
    ||| u == 0x1680
    ||| 0x2000 <= u <= 0x200A
    ||| u == 0x2028
    ||| u == 0x2029
    ||| u == 0x202F
    ||| u == 0x205F
    ||| u == 0x3000
}

/// `s` without its leading white space.
pub open spec fn trim_start(s: Seq<char>) -> Seq<char>
    decreases s.len(),
{
    if s.len() > 0 && is_space(s[0]) {
        trim_start(s.drop_first())
    } else {
        s
    }
}

/// `s` without its trailing white space.
pub open spec fn trim_end(s: Seq<char>) -> Seq<char>
    decreases s.len(),
{
    if s.len() > 0 && is_space(s.last()) {
        trim_end(s.drop_last())
    } else {
        s
    }
}

/// `s` without leading and trailing white space.
pub open spec fn trim(s: Seq<char>) -> Seq<char> {
    trim_end(trim_start(s))
}

/// The first position at or after `i` that holds `c`, or -1.
pub open spec fn find_char_from(s: Seq<char>, c: char, i: int) -> int
    decreases s.len() - i,
{
    if i < 0 || i >= s.len() {
        -1
    } else if s[i] == c {
        i
    } else {
        find_char_from(s, c, i + 1)
    }
}

/// The last position before `i` that holds `c`, or -1.
pub open spec fn rfind_char_before(s: Seq<char>, c: char, i: int) -> int
    decreases i,
{
    if i <= 0 || i > s.len() {
        -1
    } else if s[i - 1] == c {
        i - 1
    } else {
        rfind_char_before(s, c, i - 1)
    }
}

/// Whether `pat` occurs in `s` at position `i`.
pub open spec fn occurs_at(s: Seq<char>, pat: Seq<char>, i: int) -> bool {
    0 <= i && i + pat.len() <= s.len() && s.subrange(i, i + pat.len()) == pat
}

/// The first position at or after `i` where `pat` occurs in `s`, or -1.
pub open spec fn find_from(s: Seq<char>, pat: Seq<char>, i: int) -> int
    decreases s.len() + 1 - i,
{
    if i < 0 || i + pat.len() > s.len() {
        -1
    } else if occurs_at(s, pat, i) {
        i
    } else {
        find_from(s, pat, i + 1)
    }
}

/// Whether `pat` occurs in `s`.
pub open spec fn contains_seq(s: Seq<char>, pat: Seq<char>) -> bool {
    find_from(s, pat, 0) >= 0
}

/// How many times a non-empty `pat` occurs in `s` from position `i` on,
/// counting from left to right without overlaps (as `str::matches` does).
pub open spec fn count_from(s: Seq<char>, pat: Seq<char>, i: int) -> nat
    decreases s.len() + 1 - i,
{
    if i < 0 || i + pat.len() > s.len() || pat.len() == 0 {
        0
    } else if occurs_at(s, pat, i) {
        1 + count_from(s, pat, i + pat.len())
    } else {
        count_from(s, pat, i + 1)
    }
}

/// How many times `pat` occurs in `s` without overlaps; an empty pattern
/// matches at every position, the end included.
pub open spec fn count_matches(s: Seq<char>, pat: Seq<char>) -> nat {
    if pat.len() == 0 {
        s.len() + 1
    } else {
        count_from(s, pat, 0)
    }
}

/// Where the line that starts at `p` ends: its '\n', or the end of `s`.
pub open spec fn line_end(s: Seq<char>, p: int) -> int {
    let i = find_char_from(s, '\n', p);
    if i < 0 {
        s.len() as int
    } else {
        i
    }
}

/// `l` without a final '\r'.
pub open spec fn strip_cr(l: Seq<char>) -> Seq<char> {
    if l.len() > 0 && l.last() == '\r' {
        l.drop_last()
    } else {
        l
    }
}

/// The line that starts at `p`, without its "\n" or "\r\n" ending; a last
/// line with no '\n' is kept as it is.
pub open spec fn line_at(s: Seq<char>, p: int) -> Seq<char> {
    let e = line_end(s, p);
    if e < s.len() {
        strip_cr(s.subrange(p, e))
    } else {
        s.subrange(p, e)
    }
}

/// The lines of `s` from position `p` on.
pub open spec fn lines_from(s: Seq<char>, p: int) -> Seq<Seq<char>>
    decreases s.len() + 1 - p,
{
    if p < 0 || p >= s.len() {
        seq![]
    } else {
        proof {
            lemma_find_char(s, '\n', p);
            assert(line_end(s, p) >= p);
        }
        seq![line_at(s, p)] + lines_from(s, line_end(s, p) + 1)
    }
}

/// The lines of `s`, as `str::lines` gives them.
pub open spec fn lines(s: Seq<char>) -> Seq<Seq<char>> {
    lines_from(s, 0)
}

/// `find_char_from` gives -1 or the first position at or after `i` holding `c`.
pub proof fn lemma_find_char(s: Seq<char>, c: char, i: int)
    requires
        0 <= i,
    ensures
        ({
            let r = find_char_from(s, c, i);
            &&& r == -1 ==> forall|k: int| i <= k < s.len() ==> s[k] != c
            &&& r != -1 ==> i <= r < s.len() && s[r] == c && forall|k: int| i <= k < r ==> s[k] != c
        }),
    decreases s.len() - i,
{
    if i < s.len() && s[i] != c {
        lemma_find_char(s, c, i + 1);
    }
}

/// The characters of a string.
pub fn chars_of(s: &str) -> (v: Vec<char>)
    ensures
        v@ == s@,
{
    let mut v: Vec<char> = Vec::new();
    for c in it: s.chars()
        invariant
            v@ == it.seq().take(it.index() as int),
            it.seq() == s@,
    {
        v.push(c);
    }
    v
}

/// A string of the characters `cs[lo..hi]`.
///
/// Collects them with `String`'s `FromIterator<char>`, which appends each
/// character in order.
#[verifier::external_body]
pub(crate) fn string_from_chars(cs: &Vec<char>, lo: usize, hi: usize) -> (s: String)
    requires
        lo <= hi <= cs@.len(),
    ensures
        s@ == cs@.subrange(lo as int, hi as int),
{
    cs[lo..hi].iter().collect()
}

/// Whether `c` is white space.
pub fn is_space_char(c: char) -> (r: bool)
    ensures
        r == is_space(c),
{
    let u = c as u32;
    (9 <= u && u <= 13) || u == 32 || u == 0x85 || u == 0xA0 || u == 0x1680 || (0x2000 <= u && u
        <= 0x200A) || u == 0x2028 || u == 0x2029 || u == 0x202F || u == 0x205F || u == 0x3000
}

/// The bounds of `cs[lo..hi]` without its leading and trailing white space.
pub fn trim_bounds(cs: &Vec<char>, lo: usize, hi: usize) -> (r: (usize, usize))
    requires
        lo <= hi <= cs@.len(),
    ensures
        lo <= r.0 <= r.1 <= hi,
        cs@.subrange(r.0 as int, r.1 as int) == trim(cs@.subrange(lo as int, hi as int)),
{
    let mut a = lo;
    while a < hi && is_space_char(cs[a])
        invariant
            lo <= a <= hi <= cs@.len(),
            trim_start(cs@.subrange(lo as int, hi as int)) == trim_start(
                cs@.subrange(a as int, hi as int),
            ),
        decreases hi - a,
    {
        proof {
            assert(cs@.subrange(a as int, hi as int).drop_first() =~= cs@.subrange(
                a + 1,
                hi as int,
            ));
        }
        a = a + 1;
    }
    let mut b = hi;
    while b > a && is_space_char(cs[b - 1])
        invariant
            lo <= a <= b <= hi <= cs@.len(),
            trim_end(cs@.subrange(a as int, hi as int)) == trim_end(
                cs@.subrange(a as int, b as int),
            ),
        decreases b - a,
    {
        proof {
            assert(cs@.subrange(a as int, b as int).drop_last() =~= cs@.subrange(
                a as int,
                b - 1,
            ));
        }
        b = b - 1;
    }
    (a, b)
}

/// The first position in `cs[lo..hi]` holding `c`, counted from `lo`.
pub fn find_char_in(cs: &Vec<char>, c: char, lo: usize, hi: usize) -> (r: Option<usize>)
    requires
        lo <= hi <= cs@.len(),
    ensures
        match r {
            Some(k) => lo <= k < hi && find_char_from(cs@.subrange(lo as int, hi as int), c, 0)
                == k - lo,
            None => find_char_from(cs@.subrange(lo as int, hi as int), c, 0) == -1,
        },
{
    let ghost sub = cs@.subrange(lo as int, hi as int);
    let mut i = lo;
    while i < hi
        invariant
            lo <= i <= hi <= cs@.len(),
            sub == cs@.subrange(lo as int, hi as int),
            find_char_from(sub, c, 0) == find_char_from(sub, c, i - lo),
        decreases hi - i,
    {
        if cs[i] == c {
            assert(sub[i - lo] == c);
            return Some(i);
        }
        assert(sub[i - lo] != c);
        i = i + 1;
    }
    None
}

/// Whether `pat` occurs in `cs` at position `i`.
pub fn occurs_at_exec(cs: &Vec<char>, pat: &Vec<char>, i: usize) -> (r: bool)
    ensures
        r == occurs_at(cs@, pat@, i as int),
{
    if i > cs.len() || pat.len() > cs.len() - i {
        return false;
    }
    let mut k: usize = 0;
    while k < pat.len()
        invariant
            i <= cs@.len() <= usize::MAX,
            i + pat@.len() <= cs@.len(),
            k <= pat@.len() == pat.len(),
            forall|j: int| 0 <= j < k ==> cs@[i + j] == pat@[j],
        decreases pat@.len() - k,
    {
        if cs[i + k] != pat[k] {
            assert(cs@.subrange(i as int, i + pat@.len())[k as int] != pat@[k as int]);
            return false;
        }
        k = k + 1;
    }
    assert(cs@.subrange(i as int, i + pat@.len()) =~= pat@);
    true
}

/// The first position at or after `from` where `pat` occurs in `cs`.
pub fn find_seq_from(cs: &Vec<char>, pat: &Vec<char>, from: usize) -> (r: Option<usize>)
    requires
        from <= cs@.len(),
    ensures
        match r {
            Some(k) => k == find_from(cs@, pat@, from as int) && k >= 0,
            None => find_from(cs@, pat@, from as int) == -1,
        },
{
    let mut i = from;
    while i <= cs.len() && pat.len() <= cs.len() - i
        invariant
            from <= i,
            find_from(cs@, pat@, from as int) == find_from(cs@, pat@, i as int),
        decreases cs@.len() + 1 - i,
    {
        if occurs_at_exec(cs, pat, i) {
            return Some(i);
        }
        proof {
            if i == cs.len() {
                assert(cs@.subrange(i as int, i as int) =~= pat@);
            }
        }
        i = i + 1;
    }
    None
}

/// How many times `pat` occurs in `cs`, without overlaps.
pub fn count_matches_exec(cs: &Vec<char>, pat: &Vec<char>) -> (n: usize)
    requires
        cs@.len() < usize::MAX,
    ensures
        n == count_matches(cs@, pat@),
{
    if pat.len() == 0 {
        return cs.len() + 1;
    }
    let mut n: usize = 0;
    let mut i: usize = 0;
    while i <= cs.len() && pat.len() <= cs.len() - i
        invariant
            pat@.len() > 0,
            n + count_from(cs@, pat@, i as int) == count_from(cs@, pat@, 0),
            n <= i,
        decreases cs@.len() + 1 - i,
    {
        if occurs_at_exec(cs, pat, i) {
            n = n + 1;
            i = i + pat.len();
        } else {
            i = i + 1;
        }
    }
    n
}

} // verus!
