//! Where the kline data comes from: the local cache or the exchange, in
//! which order they are tried, when the cache is usable, and the pair names
//! of a loaded collection.
use vstd::prelude::*;
use crate::text_utils::{signed_decimal, i64_to_decimal, str_equal};
use crate::pair_list::{uppercased, to_upper_case};

verus! {

/// A source of kline data.
#[derive(Debug, Clone, Copy, PartialEq, Eq, Structural)]
pub enum ProviderKind {
    /// The cache file on disk.
    LocalCache,
    /// The exchange's REST API.
    BinanceApi,
    /// The cache bundled with the demo build.
    WasmDemo,
}

/// The name of a source, as recorded with the data it produced.
pub open spec fn provider_signature(p: ProviderKind) -> Seq<char> {
    match p {
        ProviderKind::LocalCache => "Local Cache"@,
        ProviderKind::BinanceApi => "Binance API"@,
        ProviderKind::WasmDemo => "WASM Demo Cache"@,
    }
}

impl ProviderKind {
    /// The name of the source.
    pub fn signature(&self) -> (s: &'static str)
        ensures
            s@ == provider_signature(*self),
    {
        match self {
            ProviderKind::LocalCache => "Local Cache",
            ProviderKind::BinanceApi => "Binance API",
            ProviderKind::WasmDemo => "WASM Demo Cache",
        }
    }
}

/// The local-cache source for one interval.
pub struct SerdeVersion {
    pub interval_ms: i64,
}

/// The demo-bundle source.
pub struct WasmDemoData;

/// The sources to try, in order: with a usable cache, the cache first
/// unless the API is preferred (then the API first); without one, the API
/// alone.
pub fn provider_order(prefer_api: bool, cache_valid: bool) -> (order: Vec<ProviderKind>)
    ensures
        order@ == (if !cache_valid {
            seq![ProviderKind::BinanceApi]
        } else if prefer_api {
            seq![ProviderKind::BinanceApi, ProviderKind::LocalCache]
        } else {
            seq![ProviderKind::LocalCache, ProviderKind::BinanceApi]
        }),
{
    let mut order: Vec<ProviderKind> = Vec::new();
    if !cache_valid {
        order.push(ProviderKind::BinanceApi);
    } else if prefer_api {
        order.push(ProviderKind::BinanceApi);
        order.push(ProviderKind::LocalCache);
    } else {
        order.push(ProviderKind::LocalCache);
        order.push(ProviderKind::BinanceApi);
    }
    order
}

/// Data is written to the cache only when it came from the exchange.
pub fn should_write_cache(signature: &str) -> (b: bool)
    ensures
        b == (signature@ == provider_signature(ProviderKind::BinanceApi)),
{
    crate::text_utils::str_equal(signature, ProviderKind::BinanceApi.signature())
}

/// Why a cache file cannot be used.
#[derive(Debug, Clone, Copy, PartialEq, Eq, Structural)]
pub enum CacheRejection {
    /// It was written by another version of the format.
    VersionMismatch,
    /// It holds another interval.
    IntervalMismatch { file_interval_ms: i64, expected_interval_ms: i64 },
    /// It is older than allowed.
    TooOld { seconds_ago: i64, limit_secs: i64 },
}

/// The checks of a cache file, in order: format version, interval, age.
pub open spec fn cache_verdict(version_matches: bool, file_interval_ms: i64, interval_ms: i64, seconds_ago: i64, recency_required_secs: i64) -> Result<(), CacheRejection> {
    if !version_matches {
        Err(CacheRejection::VersionMismatch)
    } else if file_interval_ms != interval_ms {
        Err(CacheRejection::IntervalMismatch { file_interval_ms, expected_interval_ms: interval_ms })
    } else if seconds_ago > recency_required_secs {
        Err(CacheRejection::TooOld { seconds_ago, limit_secs: recency_required_secs })
    } else {
        Ok(())
    }
}

/// Whether a cache file can be used, from what it records: whether its
/// format version is the one required, its interval, and how many seconds
/// ago it was written.
pub fn check_cache_metadata(version_matches: bool, file_interval_ms: i64, interval_ms: i64, seconds_ago: i64, recency_required_secs: i64) -> (r: Result<(), CacheRejection>)
    ensures
        r == cache_verdict(version_matches, file_interval_ms, interval_ms, seconds_ago, recency_required_secs),
{
    if !version_matches {
        Err(CacheRejection::VersionMismatch)
    } else if file_interval_ms != interval_ms {
        Err(CacheRejection::IntervalMismatch { file_interval_ms, expected_interval_ms: interval_ms })
    } else if seconds_ago > recency_required_secs {
        Err(CacheRejection::TooOld { seconds_ago, limit_secs: recency_required_secs })
    } else {
        Ok(())
    }
}

/// A cache is accepted only when it has the required version, holds
/// exactly the requested interval and is recent enough; a cache of the
/// right version but of another interval is refused for its interval,
/// naming both; one of the right version and interval but too old is
/// refused for its age.
pub proof fn lemma_cache_acceptance(version_matches: bool, file_interval_ms: i64, interval_ms: i64, seconds_ago: i64, recency_required_secs: i64)
    ensures
        cache_verdict(version_matches, file_interval_ms, interval_ms, seconds_ago, recency_required_secs) is Ok
            <==> (version_matches && file_interval_ms == interval_ms && seconds_ago <= recency_required_secs),
        !version_matches ==> cache_verdict(version_matches, file_interval_ms, interval_ms, seconds_ago, recency_required_secs)
            == Err::<(), CacheRejection>(CacheRejection::VersionMismatch),
        version_matches && file_interval_ms != interval_ms ==>
            cache_verdict(version_matches, file_interval_ms, interval_ms, seconds_ago, recency_required_secs)
                == Err::<(), CacheRejection>(CacheRejection::IntervalMismatch { file_interval_ms, expected_interval_ms: interval_ms }),
        version_matches && file_interval_ms == interval_ms && seconds_ago > recency_required_secs ==>
            cache_verdict(version_matches, file_interval_ms, interval_ms, seconds_ago, recency_required_secs)
                == Err::<(), CacheRejection>(CacheRejection::TooOld { seconds_ago, limit_secs: recency_required_secs }),
{
}

/// The text of a rejection for interval or age (a version mismatch is
/// described by the caller, who holds the versions).
pub open spec fn rejection_text(r: CacheRejection) -> Seq<char> {
    match r {
        CacheRejection::VersionMismatch => "Cache version mismatch"@,
        CacheRejection::IntervalMismatch { file_interval_ms, expected_interval_ms } =>
            "Cache interval mismatch: file has "@ + signed_decimal(file_interval_ms as int) + "ms intervals, expected "@
                + signed_decimal(expected_interval_ms as int) + "ms"@,
        CacheRejection::TooOld { seconds_ago, limit_secs } =>
            "Cache too old: created "@ + signed_decimal(seconds_ago as int) + " seconds ago (limit: "@
                + signed_decimal(limit_secs as int) + " seconds)"@,
    }
}

impl CacheRejection {
    /// The text of the rejection.
    pub fn message(&self) -> (s: String)
        ensures
            s@ == rejection_text(*self),
    {
        match self {
            CacheRejection::VersionMismatch => String::from_str("Cache version mismatch"),
            CacheRejection::IntervalMismatch { file_interval_ms, expected_interval_ms } => {
                let mut s = String::from_str("Cache interval mismatch: file has ");
                s.append(i64_to_decimal(*file_interval_ms).as_str());
                s.append("ms intervals, expected ");
                s.append(i64_to_decimal(*expected_interval_ms).as_str());
                s.append("ms");
                s
            },
            CacheRejection::TooOld { seconds_ago, limit_secs } => {
                let mut s = String::from_str("Cache too old: created ");
                s.append(i64_to_decimal(*seconds_ago).as_str());
                s.append(" seconds ago (limit: ");
                s.append(i64_to_decimal(*limit_secs).as_str());
                s.append(" seconds)");
                s
            },
        }
    }
}

/// The order of names: character by character, a proper prefix first.
pub open spec fn lex_less(a: Seq<char>, b: Seq<char>) -> bool
    decreases a.len(),
{
    if a.len() == 0 {
        b.len() > 0
    } else if b.len() == 0 {
        false
    } else if a[0] != b[0] {
        (a[0] as int) < (b[0] as int)
    } else {
        lex_less(a.drop_first(), b.drop_first())
    }
}

proof fn lemma_lex_order(a: Seq<char>, b: Seq<char>, c: Seq<char>)
    ensures
        !lex_less(a, a),
        lex_less(a, b) ==> !lex_less(b, a),
        a != b ==> lex_less(a, b) || lex_less(b, a),
        lex_less(a, b) && lex_less(b, c) ==> lex_less(a, c),
    decreases a.len(),
{
    if a.len() > 0 && b.len() > 0 && c.len() > 0 {
        lemma_lex_order(a.drop_first(), b.drop_first(), c.drop_first());
        if a[0] == b[0] && a.drop_first() == b.drop_first() {
            assert(a =~= seq![a[0]] + a.drop_first());
            assert(b =~= seq![b[0]] + b.drop_first());
        }
    } else if a.len() > 0 && b.len() > 0 {
        lemma_lex_order(a.drop_first(), b.drop_first(), b.drop_first());
        if a[0] == b[0] && a.drop_first() == b.drop_first() {
            assert(a =~= seq![a[0]] + a.drop_first());
            assert(b =~= seq![b[0]] + b.drop_first());
        }
    } else if a.len() > 0 {
        lemma_lex_order(a.drop_first(), a.drop_first(), a.drop_first());
    }
    if a.len() == 0 && b.len() == 0 {
        assert(a =~= b);
    }
    if a.len() > 0 && b.len() > 0 && a[0] != b[0] {
        assert((a[0] as int) != (b[0] as int));
    }
}

proof fn lemma_lex_skip(a: Seq<char>, b: Seq<char>, k: int)
    requires
        0 <= k <= a.len(),
        k <= b.len(),
        a.take(k) == b.take(k),
    ensures
        lex_less(a, b) == lex_less(a.skip(k), b.skip(k)),
    decreases k,
{
    if k > 0 {
        assert(a[0] == a.take(k)[0]);
        assert(b[0] == b.take(k)[0]);
        assert(a.drop_first().take(k - 1) =~= a.take(k).drop_first());
        assert(b.drop_first().take(k - 1) =~= b.take(k).drop_first());
        lemma_lex_skip(a.drop_first(), b.drop_first(), k - 1);
        assert(a.drop_first().skip(k - 1) =~= a.skip(k));
        assert(b.drop_first().skip(k - 1) =~= b.skip(k));
    } else {
        assert(a.skip(0) =~= a);
        assert(b.skip(0) =~= b);
    }
}

/// Whether `a` comes before `b`.
pub fn name_less(a: &str, b: &str) -> (r: bool)
    ensures
        r == lex_less(a@, b@),
{
    let n = a.unicode_len();
    let m = b.unicode_len();
    let mut k: usize = 0;
    while k < n && k < m
        invariant
            n == a@.len(),
            m == b@.len(),
            k <= n,
            k <= m,
            a@.take(k as int) == b@.take(k as int),
        decreases n - k,
    {
        let x = a.get_char(k);
        let y = b.get_char(k);
        if x != y {
            proof {
                lemma_lex_skip(a@, b@, k as int);
                assert(a@.skip(k as int)[0] == x);
                assert(b@.skip(k as int)[0] == y);
            }
            return x < y;
        }
        assert(a@.take(k + 1) =~= a@.take(k as int).push(x));
        assert(b@.take(k + 1) =~= b@.take(k as int).push(y));
        k = k + 1;
    }
    proof {
        lemma_lex_skip(a@, b@, k as int);
    }
    k == n && k < m
}

/// The distinct names, in increasing order.
pub open spec fn sorted_unique(names: Seq<Seq<char>>) -> bool {
    forall|i: int, j: int| 0 <= i < j < names.len() ==> lex_less(#[trigger] names[i], #[trigger] names[j])
}

/// The names held by a list of strings.
pub open spec fn string_views(v: Seq<String>) -> Seq<Seq<char>> {
    v.map_values(|s: String| s@)
}

proof fn lemma_push_contains(s: Seq<Seq<char>>, v: Seq<char>)
    ensures
        forall|x: Seq<char>| s.push(v).contains(x) <==> (s.contains(x) || x == v),
{
    assert forall|x: Seq<char>| s.push(v).contains(x) <==> (s.contains(x) || x == v) by {
        if s.contains(x) {
            let w = choose|w: int| 0 <= w < s.len() && s[w] == x;
            assert(s.push(v)[w] == x);
        }
        if x == v {
            assert(s.push(v)[s.len() as int] == x);
        }
        if s.push(v).contains(x) && x != v {
            let w = choose|w: int| 0 <= w < s.push(v).len() && s.push(v)[w] == x;
            assert(s[w] == x);
        }
    }
}

/// The distinct pair names, in increasing order.
pub fn unique_pair_names(names: &Vec<String>) -> (r: Vec<String>)
    ensures
        sorted_unique(string_views(r@)),
        forall|x: Seq<char>| string_views(r@).contains(x) <==> string_views(names@).contains(x),
{
    let mut r: Vec<String> = Vec::new();
    let mut i: usize = 0;
    while i < names.len()
        invariant
            i <= names@.len(),
            sorted_unique(string_views(r@)),
            forall|x: Seq<char>| string_views(r@).contains(x) <==> string_views(names@.take(i as int)).contains(x),
        decreases names@.len() - i,
    {
        let name = names[i].as_str();
        let ghost rv = string_views(r@);
        let mut p: usize = 0;
        while p < r.len() && name_less(r[p].as_str(), name)
            invariant
                p <= r@.len(),
                rv == string_views(r@),
                name@ == names@[i as int]@,
                forall|q: int| 0 <= q < p ==> lex_less(#[trigger] rv[q], name@),
            decreases r@.len() - p,
        {
            p = p + 1;
        }
        let ghost prev = string_views(names@.take(i as int));
        let ghost next = string_views(names@.take(i + 1));
        proof {
            assert(next =~= prev.push(name@));
            lemma_push_contains(prev, name@);
        }
        if p < r.len() && crate::text_utils::str_equal(r[p].as_str(), name) {
            proof {
                assert(rv[p as int] == name@);
                assert forall|x: Seq<char>| string_views(r@).contains(x) <==> next.contains(x) by {
                }
            }
        } else {
            r.insert(p, String::from_str(name));
            proof {
                let nv = string_views(r@);
                assert(nv =~= rv.insert(p as int, name@));
                if p < rv.len() {
                    lemma_lex_order(name@, rv[p as int], name@);
                }
                assert forall|a: int, b: int| 0 <= a < b < nv.len() implies lex_less(#[trigger] nv[a], #[trigger] nv[b]) by {
                    if a < p && b == p {
                    } else if a < p && b > p {
                        lemma_lex_order(nv[a], name@, nv[b]);
                        lemma_lex_order(name@, rv[p as int], nv[b]);
                        assert(nv[b] == rv[b - 1]);
                        if b - 1 > p {
                            assert(lex_less(rv[p as int], rv[b - 1]));
                        }
                    } else if a == p {
                        assert(nv[b] == rv[b - 1]);
                        lemma_lex_order(name@, rv[p as int], rv[b - 1]);
                        if b - 1 > p {
                            assert(lex_less(rv[p as int], rv[b - 1]));
                        }
                    } else if a > p {
                        assert(nv[a] == rv[a - 1] && nv[b] == rv[b - 1]);
                    }
                }
                assert forall|x: Seq<char>| nv.contains(x) <==> next.contains(x) by {
                    if nv.contains(x) && x != name@ {
                        let w = choose|w: int| 0 <= w < nv.len() && nv[w] == x;
                        if w < p { assert(rv[w] == x); } else { assert(rv[w - 1] == x); }
                    }
                    if rv.contains(x) {
                        let w = choose|w: int| 0 <= w < rv.len() && rv[w] == x;
                        if w < p { assert(nv[w] == x); } else { assert(nv[w + 1] == x); }
                    }
                    if x == name@ {
                        assert(nv[p as int] == x);
                    }
                }
            }
        }
        i = i + 1;
    }
    assert(names@.take(i as int) =~= names@);
    r
}

/// The series kept for the demo build: at most `max_pairs`.
pub fn demo_series_count(series_count: usize, max_pairs: usize) -> (n: usize)
    ensures
        n == (if series_count > max_pairs { max_pairs } else { series_count }),
{
    if series_count > max_pairs { max_pairs } else { series_count }
}

/// Whether the upper-cased name is on the upper-cased list.
pub open spec fn listed(name: Seq<char>, whitelist: Seq<&'static str>) -> bool {
    exists|j: int| 0 <= j < whitelist.len() && uppercased(name) == uppercased((#[trigger] whitelist[j])@)
}

/// The positions of the series whose pair name is on the demo list, both
/// compared in upper case, in order.
pub fn demo_series_positions(names: &Vec<String>, whitelist: &Vec<&'static str>) -> (kept: Vec<usize>)
    ensures
        forall|k: int| 0 <= k < kept@.len() ==> (#[trigger] kept@[k]) < names@.len() && listed(names@[kept@[k] as int]@, whitelist@),
        forall|k: int, l: int| 0 <= k < l < kept@.len() ==> kept@[k] < kept@[l],
        forall|i: int| 0 <= i < names@.len() && listed(#[trigger] names@[i]@, whitelist@) ==> kept@.contains(i as usize),
{
    let mut listed_upper: Vec<String> = Vec::new();
    let mut w: usize = 0;
    while w < whitelist.len()
        invariant
            w <= whitelist@.len(),
            listed_upper@.len() == w,
            forall|q: int| 0 <= q < w ==> (#[trigger] listed_upper@[q])@ == uppercased(whitelist@[q]@),
        decreases whitelist@.len() - w,
    {
        listed_upper.push(to_upper_case(whitelist[w]));
        w = w + 1;
    }
    let mut kept: Vec<usize> = Vec::new();
    let mut i: usize = 0;
    while i < names.len()
        invariant
            i <= names@.len(),
            listed_upper@.len() == whitelist@.len(),
            forall|q: int| 0 <= q < whitelist@.len() ==> (#[trigger] listed_upper@[q])@ == uppercased(whitelist@[q]@),
            forall|k: int| 0 <= k < kept@.len() ==> (#[trigger] kept@[k]) < i && listed(names@[kept@[k] as int]@, whitelist@),
            forall|k: int, l: int| 0 <= k < l < kept@.len() ==> kept@[k] < kept@[l],
            forall|m: int| 0 <= m < i && listed(#[trigger] names@[m]@, whitelist@) ==> kept@.contains(m as usize),
        decreases names@.len() - i,
    {
        let upper = to_upper_case(names[i].as_str());
        let mut j: usize = 0;
        let mut found = false;
        while j < whitelist.len()
            invariant
                j <= whitelist@.len(),
                listed_upper@.len() == whitelist@.len(),
                forall|q: int| 0 <= q < whitelist@.len() ==> (#[trigger] listed_upper@[q])@ == uppercased(whitelist@[q]@),
                upper@ == uppercased(names@[i as int]@),
                found ==> listed(names@[i as int]@, whitelist@),
                !found ==> forall|q: int| 0 <= q < j ==> uppercased(names@[i as int]@) != uppercased((#[trigger] whitelist@[q])@),
            decreases whitelist@.len() - j,
        {
            if !found && str_equal(upper.as_str(), listed_upper[j].as_str()) {
                assert(listed_upper@[j as int]@ == uppercased(whitelist@[j as int]@));
                found = true;
            } else {
                assert(listed_upper@[j as int]@ == uppercased(whitelist@[j as int]@));
            }
            j = j + 1;
        }
        let ghost before = kept@;
        if found {
            kept.push(i);
            assert(kept@[kept@.len() - 1] == i);
        }
        proof {
            assert forall|m: int| 0 <= m < i + 1 && listed(#[trigger] names@[m]@, whitelist@) implies kept@.contains(m as usize) by {
                if m < i {
                    let k = choose|k: int| 0 <= k < before.len() && before[k] == m as usize;
                    assert(kept@[k] == m as usize);
                } else {
                    assert(found);
                    assert(kept@[kept@.len() - 1] == m as usize);
                }
            }
        }
        i = i + 1;
    }
    kept
}

} // verus!
