//! The list of pairs to load, as read from a text file with one pair per
//! line, and the pair intervals to request for them.
use vstd::prelude::*;
use crate::pair_interval::PairInterval;

verus! {

/// The characters with the Unicode `White_Space` property, which is what
/// `char::is_whitespace` tests.
pub open spec fn is_white_space(c: char) -> bool {
    let u = c as u32;
    ||| 0x09 <= u <= 0x0D
    ||| u == 0x20
    ||| u == 0x85
    ||| u == 0xA0
    ||| u == 0x1680
    ||| 0x2000 <= u <= 0x200A
    ||| u == 0x2028
    ||| u == 0x2029
    ||| u == 0x202F
    ||| u == 0x205F
    ||| u == 0x3000
}

/// Whether `c` is white space.
pub fn is_white_space_char(c: char) -> (b: bool)
    ensures
        b == is_white_space(c),
{
    let u = c as u32;
    (0x09 <= u && u <= 0x0D) || u == 0x20 || u == 0x85 || u == 0xA0 || u == 0x1680
        || (0x2000 <= u && u <= 0x200A) || u == 0x2028 || u == 0x2029 || u == 0x202F
        || u == 0x205F || u == 0x3000
}

/// The text without its leading white space.
pub open spec fn trim_front(s: Seq<char>) -> Seq<char>
    decreases s.len(),
{
    if s.len() > 0 && is_white_space(s[0]) { trim_front(s.drop_first()) } else { s }
}

/// The text without its trailing white space.
pub open spec fn trim_back(s: Seq<char>) -> Seq<char>
    decreases s.len(),
{
    if s.len() > 0 && is_white_space(s.last()) { trim_back(s.drop_last()) } else { s }
}

/// The text without leading and trailing white space (as `str::trim`).
pub open spec fn trimmed(s: Seq<char>) -> Seq<char> {
    trim_back(trim_front(s))
}

/// The text in upper case, as `str::to_uppercase` maps it.
pub uninterp spec fn uppercased(s: Seq<char>) -> Seq<char>;

/// Whether every character of the text is ASCII.
pub open spec fn is_ascii_text(s: Seq<char>) -> bool {
    forall|i: int| 0 <= i < s.len() ==> (#[trigger] s[i] as u32) < 128
}

/// The ASCII upper case of a character: `a`..`z` become `A`..`Z`, every
/// other character stays.
pub open spec fn ascii_upper(c: char) -> char {
    if 'a' <= c && c <= 'z' { ((c as u32) - 32) as char } else { c }
}

/// `str::to_uppercase`: the upper-case mapping of the text; it depends on
/// the text alone, and is named `uppercased`. On ASCII text the Unicode
/// upper-case mapping that std documents takes `a`..`z` to `A`..`Z` and
/// leaves every other character as it is; beyond ASCII nothing more is
/// stated.
#[verifier::external_body]
pub(crate) fn to_upper_case(s: &str) -> (r: String)
    ensures
        r@ == uppercased(s@),
        is_ascii_text(s@) ==> r@ == s@.map_values(|c: char| ascii_upper(c)),
{
    s.to_uppercase()
}

proof fn lemma_trim_front_skip(s: Seq<char>, i: int)
    requires
        0 <= i <= s.len(),
        forall|j: int| 0 <= j < i ==> is_white_space(#[trigger] s[j]),
    ensures
        trim_front(s) == trim_front(s.subrange(i, s.len() as int)),
    decreases i,
{
    if i > 0 {
        assert(is_white_space(s[0]));
        let t = s.drop_first();
        assert forall|j: int| 0 <= j < i - 1 implies is_white_space(#[trigger] t[j]) by {
            assert(t[j] == s[j + 1]);
        }
        lemma_trim_front_skip(t, i - 1);
        assert(t.subrange(i - 1, t.len() as int) =~= s.subrange(i, s.len() as int));
    } else {
        assert(s.subrange(0, s.len() as int) =~= s);
    }
}

proof fn lemma_trim_back_skip(s: Seq<char>, b: int)
    requires
        0 <= b <= s.len(),
        forall|j: int| b <= j < s.len() ==> is_white_space(#[trigger] s[j]),
    ensures
        trim_back(s) == trim_back(s.subrange(0, b)),
    decreases s.len() - b,
{
    if b < s.len() {
        assert(is_white_space(s.last()));
        let t = s.drop_last();
        assert forall|j: int| b <= j < t.len() implies is_white_space(#[trigger] t[j]) by {
            assert(t[j] == s[j]);
        }
        lemma_trim_back_skip(t, b);
        assert(t.subrange(0, b) =~= s.subrange(0, b));
    } else {
        assert(s.subrange(0, b) =~= s);
    }
}

/// The text without leading and trailing white space.
pub fn trim_text(s: &str) -> (r: &str)
    ensures
        r@ == trimmed(s@),
{
    let n = s.unicode_len();
    let mut a: usize = 0;
    while a < n && is_white_space_char(s.get_char(a))
        invariant
            n == s@.len(),
            a <= n,
            forall|j: int| 0 <= j < a ==> is_white_space(#[trigger] s@[j]),
        decreases n - a,
    {
        a = a + 1;
    }
    proof {
        lemma_trim_front_skip(s@, a as int);
    }
    let ghost front = s@.subrange(a as int, n as int);
    assert(a == n || !is_white_space(front[0]));
    assert(trim_front(s@) == front);
    let mut b: usize = n;
    while b > a && is_white_space_char(s.get_char(b - 1))
        invariant
            n == s@.len(),
            a <= b <= n,
            front == s@.subrange(a as int, n as int),
            forall|j: int| b <= j < n ==> is_white_space(#[trigger] s@[j]),
        decreases b - a,
    {
        b = b - 1;
    }
    proof {
        assert forall|j: int| b - a <= j < front.len() implies is_white_space(#[trigger] front[j]) by {
            assert(front[j] == s@[a + j]);
        }
        lemma_trim_back_skip(front, b - a);
        assert(front.subrange(0, b - a) =~= s@.subrange(a as int, b as int));
        let t = s@.subrange(a as int, b as int);
        assert(t.len() == 0 || !is_white_space(t.last()));
    }
    s.substring_char(a, b)
}

/// The lines of the text (the pieces between line feeds; a text without a
/// line feed is one line).
pub open spec fn split_lines(s: Seq<char>) -> Seq<Seq<char>>
    decreases s.len(),
{
    if s.len() == 0 {
        seq![Seq::empty()]
    } else {
        let lines = split_lines(s.drop_last());
        if s.last() == '\n' {
            lines.push(Seq::empty())
        } else {
            lines.update(lines.len() - 1, lines.last().push(s.last()))
        }
    }
}

/// The pair names of the lines: each line trimmed and upper-cased, blank
/// lines left out.
pub open spec fn pair_names_of(lines: Seq<Seq<char>>) -> Seq<Seq<char>>
    decreases lines.len(),
{
    if lines.len() == 0 {
        Seq::empty()
    } else {
        let names = pair_names_of(lines.drop_last());
        let name = uppercased(trimmed(lines.last()));
        if name.len() > 0 { names.push(name) } else { names }
    }
}

/// The pair list of a text: at most `max_pairs` names, in order.
pub open spec fn pair_list(content: Seq<char>, max_pairs: nat) -> Seq<Seq<char>> {
    let names = pair_names_of(split_lines(content));
    if names.len() <= max_pairs { names } else { names.take(max_pairs as int) }
}

proof fn lemma_split_lines_len(s: Seq<char>)
    ensures
        split_lines(s).len() >= 1,
    decreases s.len(),
{
    if s.len() > 0 {
        lemma_split_lines_len(s.drop_last());
    }
}

/// The pair names a text lists, one per line: lines are trimmed and
/// upper-cased, blank lines are skipped, and at most `max_pairs` are kept.
pub fn parse_pair_list(content: &str, max_pairs: usize) -> (names: Vec<String>)
    ensures
        names@.map_values(|n: String| n@) == pair_list(content@, max_pairs as nat),
{
    let n = content.unicode_len();
    let mut names: Vec<String> = Vec::new();
    let ghost mut done_lines: Seq<Seq<char>> = Seq::empty();
    let mut start: usize = 0;
    let mut i: usize = 0;
    assert(content@.take(0) =~= Seq::<char>::empty());
    assert(content@.subrange(0, 0) =~= Seq::<char>::empty());
    while i < n
        invariant
            n == content@.len(),
            start <= i <= n,
            split_lines(content@.take(i as int)) == done_lines.push(content@.subrange(start as int, i as int)),
            names@.map_values(|x: String| x@) == pair_names_of(done_lines),
        decreases n - i,
    {
        assert(content@.take(i + 1).drop_last() =~= content@.take(i as int));
        if content.get_char(i) == '\n' {
            let line = content.substring_char(start, i);
            let name = to_upper_case(trim_text(line));
            if !name.as_str().is_empty() {
                names.push(name);
            }
            proof {
                let d2 = done_lines.push(content@.subrange(start as int, i as int));
                assert(d2.drop_last() =~= done_lines);
                assert(names@.map_values(|x: String| x@) =~= pair_names_of(d2));
                assert(content@.subrange(i + 1, i + 1) =~= Seq::<char>::empty());
                done_lines = d2;
            }
            start = i + 1;
        } else {
            proof {
                assert(content@.subrange(start as int, i + 1) =~= content@.subrange(start as int, i as int).push(content@[i as int]));
            }
        }
        i = i + 1;
    }
    let line = content.substring_char(start, n);
    let name = to_upper_case(trim_text(line));
    if !name.as_str().is_empty() {
        names.push(name);
    }
    proof {
        assert(content@.take(n as int) =~= content@);
        let d2 = done_lines.push(content@.subrange(start as int, n as int));
        assert(d2.drop_last() =~= done_lines);
        assert(names@.map_values(|x: String| x@) =~= pair_names_of(d2));
        done_lines = d2;
    }
    let ghost all = names@.map_values(|x: String| x@);
    if names.len() > max_pairs {
        names.truncate(max_pairs);
        assert(names@.map_values(|x: String| x@) =~= all.take(max_pairs as int));
    }
    names
}

/// The pair intervals to request: each pair with each interval, pairs in
/// order and intervals in order within a pair, at most `max_lookups`.
pub open spec fn pair_interval_keys(pairs: Seq<Seq<char>>, intervals: Seq<i64>, max_lookups: nat) -> Seq<(Seq<char>, i64)> {
    let all = Seq::new(pairs.len() * intervals.len(), |k: int|
        (pairs[k / (intervals.len() as int)], intervals[k % (intervals.len() as int)]));
    if all.len() <= max_lookups { all } else { all.take(max_lookups as int) }
}

/// The pair intervals to request for the pairs and intervals given.
pub fn build_pair_intervals(pairs: &Vec<String>, intervals: &Vec<i64>, max_lookups: usize) -> (r: Vec<PairInterval>)
    ensures
        r@.map_values(|p: PairInterval| (p.name@, p.interval_ms))
            == pair_interval_keys(pairs@.map_values(|s: String| s@), intervals@, max_lookups as nat),
{
    let ghost ps = pairs@.map_values(|s: String| s@);
    let ghost m = intervals@.len() as int;
    let ghost all = Seq::new(ps.len() * intervals@.len(), |k: int| (ps[k / m], intervals@[k % m]));
    let ghost target = pair_interval_keys(ps, intervals@, max_lookups as nat);
    let mut r: Vec<PairInterval> = Vec::new();
    let mut p: usize = 0;
    while p < pairs.len() && r.len() < max_lookups
        invariant
            p <= pairs@.len(),
            ps == pairs@.map_values(|s: String| s@),
            m == intervals@.len(),
            all == Seq::new(ps.len() * intervals@.len(), |k: int| (ps[k / m], intervals@[k % m])),
            target == (if all.len() <= max_lookups { all } else { all.take(max_lookups as int) }),
            r@.len() <= max_lookups,
            r@.len() == (if p * m <= max_lookups { p * m } else { max_lookups as int }),
            r@.map_values(|q: PairInterval| (q.name@, q.interval_ms)) == all.take(r@.len() as int),
            p * m <= all.len(),
        decreases pairs@.len() - p,
    {
        proof {
            assert((p + 1) * m <= ps.len() * m) by (nonlinear_arith)
                requires p + 1 <= ps.len(), m >= 0;
        }
        let mut j: usize = 0;
        while j < intervals.len() && r.len() < max_lookups
            invariant
                p < pairs@.len(),
                j <= intervals@.len(),
                ps == pairs@.map_values(|s: String| s@),
                m == intervals@.len(),
                all == Seq::new(ps.len() * intervals@.len(), |k: int| (ps[k / m], intervals@[k % m])),
                r@.len() <= max_lookups,
                r@.len() < max_lookups ==> r@.len() == p * m + j,
                r@.len() == max_lookups ==> p * m + j >= max_lookups,
                r@.len() <= p * m + j,
                r@.map_values(|q: PairInterval| (q.name@, q.interval_ms)) == all.take(r@.len() as int),
                (p + 1) * m <= all.len(),
            decreases intervals@.len() - j,
        {
            let k = r.len();
            proof {
                assert(k == p * m + j);
                assert((p * m + j) / m == p && (p * m + j) % m == j) by (nonlinear_arith)
                    requires 0 <= j < m, p >= 0;
                assert(p * m + j < (p + 1) * m) by (nonlinear_arith)
                    requires j < m;
                assert(all[k as int] == (ps[p as int], intervals@[j as int]));
            }
            r.push(PairInterval { name: pairs[p].clone(), interval_ms: intervals[j] });
            proof {
                assert(r@.map_values(|q: PairInterval| (q.name@, q.interval_ms)) =~= all.take(k + 1));
            }
            j = j + 1;
        }
        proof {
            assert((p + 1) * m == p * m + m) by (nonlinear_arith);
        }
        p = p + 1;
    }
    proof {
        if r@.len() < max_lookups {
            assert(p == pairs@.len());
            assert(all.len() == p * m);
            assert(all.take(r@.len() as int) =~= all);
        }
    }
    r
}

} // verus!
