//! "METRIC key=value" lines in kernel output, and a string map of metrics.
use vstd::prelude::*;
use crate::scan::{
    chars_of, find_char_from, find_char_in, lemma_find_char, line_at, line_end, lines,
    lines_from, string_from_chars, strip_cr, trim, trim_bounds,
};

verus! {

/// The prefix of a metric line: "METRIC ".
pub open spec fn metric_prefix() -> Seq<char> {
    seq!['M', 'E', 'T', 'R', 'I', 'C', ' ']
}

/// The key and value that a line "METRIC key=value" carries, both trimmed;
/// the value runs from the first '=' to the end of the line.
pub open spec fn metric_entry(line: Seq<char>) -> Option<(Seq<char>, Seq<char>)> {
    if line.len() >= 7 && line.subrange(0, 7) == metric_prefix() {
        let rest = line.subrange(7, line.len() as int);
        let i = find_char_from(rest, '=', 0);
        if i < 0 {
            None
        } else {
            Some((trim(rest.subrange(0, i)), trim(rest.subrange(i + 1, rest.len() as int))))
        }
    } else {
        None
    }
}

/// The entries of the metric lines among `ls`, in order.
pub open spec fn metric_entries(ls: Seq<Seq<char>>) -> Seq<(Seq<char>, Seq<char>)>
    decreases ls.len(),
{
    if ls.len() == 0 {
        seq![]
    } else {
        let e = metric_entries(ls.drop_last());
        match metric_entry(ls.last()) {
            Some(x) => e.push(x),
            None => e,
        }
    }
}

/// Key-value pairs of strings as values.
pub open spec fn pair_views(v: Seq<(String, String)>) -> Seq<(Seq<char>, Seq<char>)> {
    v.map_values(|p: (String, String)| (p.0@, p.1@))
}

/// The first position at or after `from` in `cs` that holds `c`.
pub fn find_char_after(cs: &Vec<char>, c: char, from: usize) -> (r: Option<usize>)
    requires
        from <= cs@.len(),
    ensures
        match r {
            Some(k) => k == find_char_from(cs@, c, from as int),
            None => find_char_from(cs@, c, from as int) == -1,
        },
{
    let mut i = from;
    while i < cs.len()
        invariant
            from <= i <= cs@.len(),
            find_char_from(cs@, c, from as int) == find_char_from(cs@, c, i as int),
        decreases cs@.len() - i,
    {
        if cs[i] == c {
            return Some(i);
        }
        i = i + 1;
    }
    None
}

/// The end of the line starting at `p`, and the end of its text (before a
/// "\r\n" or "\n" ending).
pub fn line_bounds(cs: &Vec<char>, p: usize) -> (r: (usize, usize))
    requires
        p < cs@.len(),
    ensures
        r.0 == line_end(cs@, p as int),
        p <= r.1 <= r.0 <= cs@.len(),
        cs@.subrange(p as int, r.1 as int) == line_at(cs@, p as int),
{
    proof {
        lemma_find_char(cs@, '\n', p as int);
    }
    match find_char_after(cs, '\n', p) {
        Some(e) => {
            let mut te = e;
            if e > p && cs[e - 1] == '\r' {
                te = e - 1;
                assert(cs@.subrange(p as int, e as int).drop_last() =~= cs@.subrange(
                    p as int,
                    te as int,
                ));
            }
            (e, te)
        },
        None => (cs.len(), cs.len()),
    }
}

/// The key and value of the metric line `cs[lo..hi]`, if it is one.
pub fn metric_in(cs: &Vec<char>, lo: usize, hi: usize) -> (r: Option<(String, String)>)
    requires
        lo <= hi <= cs@.len(),
    ensures
        match r {
            Some(p) => metric_entry(cs@.subrange(lo as int, hi as int)) == Some((p.0@, p.1@)),
            None => metric_entry(cs@.subrange(lo as int, hi as int)) is None,
        },
{
    let ghost line = cs@.subrange(lo as int, hi as int);
    if hi - lo < 7 {
        return None;
    }
    let prefix: Vec<char> = vec!['M', 'E', 'T', 'R', 'I', 'C', ' '];
    let mut k: usize = 0;
    while k < 7
        invariant
            lo + 7 <= hi <= cs@.len(),
            line == cs@.subrange(lo as int, hi as int),
            prefix@ == metric_prefix(),
            k <= 7,
            forall|j: int| 0 <= j < k ==> line[j] == prefix@[j],
        decreases 7 - k,
    {
        if cs[lo + k] != prefix[k] {
            assert(line.subrange(0, 7)[k as int] != metric_prefix()[k as int]);
            return None;
        }
        k = k + 1;
    }
    assert(line.subrange(0, 7) =~= metric_prefix());
    let ghost rest = line.subrange(7, line.len() as int);
    assert(rest =~= cs@.subrange(lo + 7, hi as int));
    match find_char_in(cs, '=', lo + 7, hi) {
        None => None,
        Some(eq) => {
            let i = eq - (lo + 7);
            assert(rest.subrange(0, i as int) =~= cs@.subrange(lo + 7, eq as int));
            assert(rest.subrange(i + 1, rest.len() as int) =~= cs@.subrange(eq + 1, hi as int));
            let (a, b) = trim_bounds(cs, lo + 7, eq);
            let (c, d) = trim_bounds(cs, eq + 1, hi);
            Some((string_from_chars(cs, a, b), string_from_chars(cs, c, d)))
        },
    }
}

/// The key and value of every "METRIC key=value" line of `log`, in order,
/// both trimmed.
pub fn metric_lines(log: &str) -> (v: Vec<(String, String)>)
    ensures
        pair_views(v@) == metric_entries(lines(log@)),
{
    let cs = chars_of(log);
    let mut v: Vec<(String, String)> = Vec::new();
    let ghost mut done: Seq<Seq<char>> = seq![];
    let mut p: usize = 0;
    while p < cs.len()
        invariant
            cs@ == log@,
            p <= cs@.len(),
            lines(cs@) == done + lines_from(cs@, p as int),
            pair_views(v@) == metric_entries(done),
        decreases cs@.len() - p,
    {
        let (e, te) = line_bounds(&cs, p);
        let ghost line = line_at(cs@, p as int);
        proof {
            assert(lines_from(cs@, p as int) == seq![line] + lines_from(cs@, e + 1));
            assert(done.push(line).drop_last() =~= done);
            assert(done + lines_from(cs@, p as int) =~= done.push(line) + lines_from(
                cs@,
                e + 1,
            ));
        }
        match metric_in(&cs, p, te) {
            Some(entry) => {
                let ghost before = v@;
                v.push(entry);
                assert(pair_views(v@) =~= pair_views(before).push((entry.0@, entry.1@)));
            },
            None => {},
        }
        proof {
            done = done.push(line);
        }
        if e >= cs.len() {
            p = cs.len();
        } else {
            p = e + 1;
        }
    }
    assert(done + lines_from(cs@, p as int) =~= done);
    v
}

/// A map from metric names to values; a later insert of a key replaces the
/// earlier value.
///
/// The pairs are kept in a `Vec`, in insertion order, and looked up from the
/// newest: vstd's specification of `HashMap` covers keys whose hashing and
/// equality it models, and says nothing of `String` keys looked up by `&str`,
/// so a `HashMap<String, String>` here would leave `get` unproved.
pub struct MetricMap {
    entries: Vec<(String, String)>,
}

/// The map that inserting the pairs of `s` in order builds.
pub open spec fn map_of(s: Seq<(Seq<char>, Seq<char>)>) -> Map<Seq<char>, Seq<char>>
    decreases s.len(),
{
    if s.len() == 0 {
        Map::empty()
    } else {
        map_of(s.drop_last()).insert(s.last().0, s.last().1)
    }
}

impl View for MetricMap {
    type V = Map<Seq<char>, Seq<char>>;

    closed spec fn view(&self) -> Map<Seq<char>, Seq<char>> {
        map_of(pair_views(self.entries@))
    }
}

impl MetricMap {
    /// The empty map.
    pub fn new() -> (m: Self)
        ensures
            m@ == Map::<Seq<char>, Seq<char>>::empty(),
    {
        let m = MetricMap { entries: Vec::new() };
        assert(pair_views(m.entries@) =~= seq![]);
        m
    }

    /// Map `key` to `value`, replacing any earlier value.
    pub fn insert(&mut self, key: String, value: String)
        ensures
            final(self)@ == old(self)@.insert(key@, value@),
    {
        let ghost before = self.entries@;
        self.entries.push((key, value));
        assert(pair_views(self.entries@).drop_last() =~= pair_views(before));
    }

    /// The value of `key`, if any.
    pub fn get(&self, key: &str) -> (r: Option<&String>)
        ensures
            match r {
                Some(v) => self@.contains_key(key@) && v@ == self@[key@],
                None => !self@.contains_key(key@),
            },
    {
        let mut i = self.entries.len();
        proof {
            lemma_map_of_split(pair_views(self.entries@), i as int);
            assert(pair_views(self.entries@).subrange(i as int, i as int) =~= Seq::<(Seq<char>, Seq<char>)>::empty());
        }
        while i > 0
            invariant
                i <= self.entries@.len(),
                map_of(pair_views(self.entries@)) == map_of(pair_views(self.entries@).subrange(0, i as int)).union_prefer_right(
                    map_of(pair_views(self.entries@).subrange(i as int, self.entries@.len() as int)),
                ),
                !map_of(pair_views(self.entries@).subrange(i as int, self.entries@.len() as int)).contains_key(key@),
            decreases i,
        {
            let ghost ps = pair_views(self.entries@);
            if crate::text::str_eq(self.entries[i - 1].0.as_str(), key) {
                proof {
                    lemma_map_of_split(ps, i - 1);
                    assert(ps.subrange(0, i as int).drop_last() =~= ps.subrange(0, i - 1));
                }
                return Some(&self.entries[i - 1].1);
            }
            proof {
                lemma_map_of_split(ps, i - 1);
                lemma_map_of_split(ps.subrange(i - 1, ps.len() as int), 1);
                assert(ps.subrange(i - 1, ps.len() as int).subrange(0, 1) =~= seq![ps[i - 1]]);
                assert(ps.subrange(i - 1, ps.len() as int).subrange(1, ps.len() - (i - 1))
                    =~= ps.subrange(i as int, ps.len() as int));
                let one = ps.subrange(i - 1, ps.len() as int).subrange(0, 1);
                assert(one.drop_last() =~= Seq::<(Seq<char>, Seq<char>)>::empty());
                assert(one.last() == ps[i - 1]);
                assert(map_of(one) == map_of(one.drop_last()).insert(one.last().0, one.last().1));
                assert(ps[i - 1].0 == self.entries@[i - 1].0@);
            }
            i = i - 1;
        }
        proof {
            assert(pair_views(self.entries@).subrange(0, 0) =~= Seq::<(Seq<char>, Seq<char>)>::empty());
        }
        None
    }
}

/// Inserting the pairs of `s` builds the map of the first `k` pairs with the
/// map of the rest laid over it.
pub proof fn lemma_map_of_split(s: Seq<(Seq<char>, Seq<char>)>, k: int)
    requires
        0 <= k <= s.len(),
    ensures
        map_of(s) == map_of(s.subrange(0, k)).union_prefer_right(map_of(s.subrange(k, s.len() as int))),
    decreases s.len(),
{
    if s.len() == k {
        assert(s.subrange(0, k) =~= s);
        assert(s.subrange(k, s.len() as int) =~= Seq::<(Seq<char>, Seq<char>)>::empty());
        assert(map_of(s).union_prefer_right(Map::empty()) =~= map_of(s));
    } else {
        lemma_map_of_split(s.drop_last(), k);
        assert(s.drop_last().subrange(0, k) =~= s.subrange(0, k));
        assert(s.subrange(k, s.len() as int).drop_last() =~= s.drop_last().subrange(k, s.len() - 1));
        assert(s.subrange(k, s.len() as int).last() == s.last());
        assert(map_of(s) =~= map_of(s.subrange(0, k)).union_prefer_right(map_of(s.subrange(k, s.len() as int))));
    }
}

} // verus!
