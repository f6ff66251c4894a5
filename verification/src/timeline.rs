//! RSS traffic per day and reader: the points of the API's `over_time` list and
//! the dashboard's stacked chart.
use vstd::prelude::*;

use crate::classify::{classification, classify, ClientType};
use crate::models::{RssTimePoint, UserAgentDayGroup};
use crate::stats::{fits_i64, lemma_sum_of_take_step, lemma_sum_of_zero, sum_of};
use crate::text::{chars_of, compare_chars, lemma_text_lt_strict_total, text_lt};

verus! {

/// One day-group's hits if it is a hit of RSS reader `name` on `day`, else zero.
pub open spec fn day_hit_term(day: Seq<char>, name: Seq<char>) -> spec_fn(UserAgentDayGroup) -> int {
    |g: UserAgentDayGroup|
        if g.day@ == day && classification(g.user_agent@) == (ClientType::RssReader, name) {
            g.hits as int
        } else {
            0
        }
}

/// The hits of RSS reader `name` on `day`.
pub open spec fn day_client_hits(daily: Seq<UserAgentDayGroup>, day: Seq<char>, name: Seq<char>) -> int {
    sum_of(daily, day_hit_term(day, name))
}

/// Some day-group is a hit of RSS reader `name` on `day`.
pub open spec fn is_rss_day_client(daily: Seq<UserAgentDayGroup>, day: Seq<char>, name: Seq<char>) -> bool {
    exists|j: int|
        0 <= j < daily.len() && (#[trigger] daily[j]).day@ == day && classification(daily[j].user_agent@) == (
            ClientType::RssReader,
            name,
        )
}

/// Summing per (day, reader), day-group by day-group in list order, stays
/// within `i64` at every step.
pub open spec fn day_sums_fit(daily: Seq<UserAgentDayGroup>) -> bool {
    forall|day: Seq<char>, name: Seq<char>, k: int|
        #![trigger day_client_hits(daily.take(k), day, name)]
        0 <= k <= daily.len() ==> fits_i64(day_client_hits(daily.take(k), day, name))
}

/// Order on (day, reader) keys: by day, then by reader name.
pub open spec fn key_lt(d1: Seq<char>, n1: Seq<char>, d2: Seq<char>, n2: Seq<char>) -> bool {
    text_lt(d1, d2) || (d1 == d2 && text_lt(n1, n2))
}

/// The points of RSS traffic over time for a list of day-groups: one point per
/// (day, reader) that occurs, with the hits summed, ordered by day and then by
/// reader name.
pub open spec fn rss_points_of(points: Seq<RssTimePoint>, daily: Seq<UserAgentDayGroup>) -> bool {
    &&& forall|a: int, b: int|
        0 <= a < b < points.len() ==> key_lt(
            (#[trigger] points[a]).date@,
            points[a].client_name@,
            (#[trigger] points[b]).date@,
            points[b].client_name@,
        )
    &&& forall|k: int|
        #![trigger points[k]]
        0 <= k < points.len() ==> {
            &&& is_rss_day_client(daily, points[k].date@, points[k].client_name@)
            &&& points[k].hits == day_client_hits(daily, points[k].date@, points[k].client_name@)
        }
    &&& forall|j: int|
        #![trigger daily[j]]
        0 <= j < daily.len() && classification(daily[j].user_agent@).0 == ClientType::RssReader ==> exists|k: int|
            0 <= k < points.len() && (#[trigger] points[k]).date@ == daily[j].day@ && points[k].client_name@
                == classification(daily[j].user_agent@).1
}

proof fn lemma_key_lt(d1: Seq<char>, n1: Seq<char>, d2: Seq<char>, n2: Seq<char>, d3: Seq<char>, n3: Seq<char>)
    ensures
        !key_lt(d1, n1, d1, n1),
        key_lt(d1, n1, d2, n2) ==> !key_lt(d2, n2, d1, n1),
        key_lt(d1, n1, d2, n2) && key_lt(d2, n2, d3, n3) ==> key_lt(d1, n1, d3, n3),
{
    lemma_text_lt_strict_total(d1, d2, d3);
    lemma_text_lt_strict_total(n1, n2, n3);
    lemma_text_lt_strict_total(d2, d1, d3);
    lemma_text_lt_strict_total(n2, n1, n3);
    lemma_text_lt_strict_total(d1, d3, d2);
    lemma_text_lt_strict_total(n1, n3, n2);
}

/// Three-way comparison of a point's key with (`day`, `name`).
fn compare_key(p: &RssTimePoint, day: &Vec<char>, name: &Vec<char>) -> (r: i8)
    ensures
        r < 0 <==> key_lt(p.date@, p.client_name@, day@, name@),
        r == 0 <==> (p.date@ == day@ && p.client_name@ == name@),
        r > 0 <==> key_lt(day@, name@, p.date@, p.client_name@),
{
    proof {
        lemma_text_lt_strict_total(p.date@, day@, day@);
        lemma_text_lt_strict_total(day@, p.date@, day@);
        lemma_text_lt_strict_total(p.client_name@, name@, name@);
        lemma_text_lt_strict_total(name@, p.client_name@, name@);
    }
    let d = chars_of(p.date.as_str());
    let c = compare_chars(&d, day);
    if c != 0 {
        c
    } else {
        let n = chars_of(p.client_name.as_str());
        compare_chars(&n, name)
    }
}

/// Where (`day`, `name`) belongs in the ordered `points`, and whether it is there.
fn find_slot(points: &Vec<RssTimePoint>, day: &Vec<char>, name: &Vec<char>) -> (r: (usize, bool))
    ensures
        r.0 <= points@.len(),
        forall|a: int| 0 <= a < r.0 ==> key_lt((#[trigger] points@[a]).date@, points@[a].client_name@, day@, name@),
        r.1 ==> r.0 < points@.len() && points@[r.0 as int].date@ == day@ && points@[r.0 as int].client_name@ == name@,
        !r.1 ==> r.0 == points@.len() || key_lt(day@, name@, points@[r.0 as int].date@, points@[r.0 as int].client_name@),
{
    let n = points.len();
    for p in 0..n
        invariant
            n == points@.len(),
            forall|a: int| 0 <= a < p ==> key_lt((#[trigger] points@[a]).date@, points@[a].client_name@, day@, name@),
    {
        let c = compare_key(&points[p], day, name);
        if c == 0 {
            return (p, true);
        }
        if c > 0 {
            return (p, false);
        }
    }
    (n, false)
}

proof fn lemma_day_step(daily: Seq<UserAgentDayGroup>, i: int)
    requires
        0 <= i < daily.len(),
    ensures
        forall|day: Seq<char>, name: Seq<char>|
            #![trigger day_client_hits(daily.take(i + 1), day, name)]
            day_client_hits(daily.take(i + 1), day, name) == day_client_hits(daily.take(i), day, name)
                + day_hit_term(day, name)(daily[i]),
{
    assert forall|day: Seq<char>, name: Seq<char>|
        #![trigger day_client_hits(daily.take(i + 1), day, name)]
        day_client_hits(daily.take(i + 1), day, name) == day_client_hits(daily.take(i), day, name)
            + day_hit_term(day, name)(daily[i]) by {
        lemma_sum_of_take_step(daily, day_hit_term(day, name), i);
    }
}

proof fn lemma_day_absent(daily: Seq<UserAgentDayGroup>, day: Seq<char>, name: Seq<char>)
    requires
        !is_rss_day_client(daily, day, name),
    ensures
        day_client_hits(daily, day, name) == 0,
{
    let f = day_hit_term(day, name);
    assert forall|j: int| 0 <= j < daily.len() implies f(#[trigger] daily[j]) == 0 by {
        if daily[j].day@ == day && classification(daily[j].user_agent@) == (ClientType::RssReader, name) {
            assert(is_rss_day_client(daily, day, name));
        }
    }
    lemma_sum_of_zero(daily, f);
}

/// RSS hits per day and reader, one point per (day, reader) that occurs, ordered
/// by day and then by reader name.
pub fn rss_time_points(daily: &Vec<UserAgentDayGroup>) -> (points: Vec<RssTimePoint>)
    requires
        day_sums_fit(daily@),
    ensures
        rss_points_of(points@, daily@),
{
    let mut points: Vec<RssTimePoint> = Vec::new();
    let n = daily.len();
    proof {
        assert(daily@.take(0) =~= Seq::<UserAgentDayGroup>::empty());
    }
    for i in 0..n
        invariant
            n == daily@.len(),
            day_sums_fit(daily@),
            rss_points_of(points@, daily@.take(i as int)),
    {
        let ghost prev = points@;
        let ghost pre = daily@.take(i as int);
        let ghost post = daily@.take(i + 1);
        let ghost g = daily@[i as int];
        proof {
            lemma_day_step(daily@, i as int);
            assert forall|j: int| 0 <= j < i implies #[trigger] post[j] == pre[j] by {}
            assert(post[i as int] == g);
        }
        let info = classify(daily[i].user_agent.as_str());
        if info.client_type == ClientType::RssReader {
            let day = chars_of(daily[i].day.as_str());
            let name = chars_of(info.client_name.as_str());
            proof {
                let k1 = i + 1;
                assert(fits_i64(day_client_hits(daily@.take(k1), day@, name@)));
                assert(is_rss_day_client(post, day@, name@));
            }
            let (p, present) = find_slot(&points, &day, &name);
            if present {
                let updated = RssTimePoint {
                    date: points[p].date.clone(),
                    client_name: points[p].client_name.clone(),
                    hits: points[p].hits + daily[i].hits,
                };
                points.set(p, updated);
                proof {
                    assert forall|a: int, b: int|
                        0 <= a < b < points@.len() implies key_lt(
                            (#[trigger] points@[a]).date@,
                            points@[a].client_name@,
                            (#[trigger] points@[b]).date@,
                            points@[b].client_name@,
                        ) by {
                        assert(prev[a].date@ == points@[a].date@ && prev[a].client_name@ == points@[a].client_name@);
                        assert(prev[b].date@ == points@[b].date@ && prev[b].client_name@ == points@[b].client_name@);
                    }
                    assert forall|k: int| #![trigger points@[k]] 0 <= k < points@.len() implies {
                        &&& is_rss_day_client(post, points@[k].date@, points@[k].client_name@)
                        &&& points@[k].hits == day_client_hits(post, points@[k].date@, points@[k].client_name@)
                    } by {
                        let d = points@[k].date@;
                        let c = points@[k].client_name@;
                        assert(prev[k].date@ == d && prev[k].client_name@ == c);
                        let w = choose|j: int|
                            0 <= j < pre.len() && (#[trigger] pre[j]).day@ == d && classification(pre[j].user_agent@) == (
                                ClientType::RssReader,
                                c,
                            );
                        assert(post[w] == pre[w]);
                        assert(day_client_hits(post, d, c) == day_client_hits(pre, d, c) + day_hit_term(d, c)(g));
                        if k != p {
                            lemma_key_lt(prev[k].date@, prev[k].client_name@, day@, name@, day@, name@);
                            if k < p {
                                assert(key_lt(prev[k].date@, prev[k].client_name@, prev[p as int].date@, prev[p as int].client_name@));
                            } else {
                                assert(key_lt(prev[p as int].date@, prev[p as int].client_name@, prev[k].date@, prev[k].client_name@));
                                lemma_key_lt(day@, name@, prev[k].date@, prev[k].client_name@, day@, name@);
                            }
                        }
                    }
                    assert forall|j: int|
                        #![trigger post[j]]
                        0 <= j < post.len() && classification(post[j].user_agent@).0 == ClientType::RssReader implies exists|k: int|
                            0 <= k < points@.len() && (#[trigger] points@[k]).date@ == post[j].day@ && points@[k].client_name@
                                == classification(post[j].user_agent@).1 by {
                        if j < i {
                            assert(post[j] == pre[j]);
                            let m = choose|m: int|
                                0 <= m < prev.len() && (#[trigger] prev[m]).date@ == pre[j].day@ && prev[m].client_name@
                                    == classification(pre[j].user_agent@).1;
                            assert(points@[m].date@ == prev[m].date@ && points@[m].client_name@ == prev[m].client_name@);
                        } else {
                            assert(points@[p as int].date@ == day@);
                        }
                    }
                }
            } else {
                proof {
                    if is_rss_day_client(pre, day@, name@) {
                        let w = choose|j: int|
                            0 <= j < pre.len() && (#[trigger] pre[j]).day@ == day@ && classification(pre[j].user_agent@) == (
                                ClientType::RssReader,
                                name@,
                            );
                        let m = choose|m: int|
                            0 <= m < prev.len() && (#[trigger] prev[m]).date@ == pre[w].day@ && prev[m].client_name@
                                == classification(pre[w].user_agent@).1;
                        lemma_key_lt(day@, name@, day@, name@, day@, name@);
                        if m < p {
                            assert(key_lt(prev[m].date@, prev[m].client_name@, day@, name@));
                        } else if m == p {
                        } else {
                            assert(key_lt(prev[p as int].date@, prev[p as int].client_name@, prev[m].date@, prev[m].client_name@));
                            lemma_key_lt(day@, name@, prev[p as int].date@, prev[p as int].client_name@, day@, name@);
                        }
                    }
                    lemma_day_absent(pre, day@, name@);
                }
                let fresh = RssTimePoint { date: daily[i].day.clone(), client_name: info.client_name, hits: daily[i].hits };
                points.insert(p, fresh);
                proof {
                    prev.insert_ensures(p as int, fresh);
                    assert forall|a: int, b: int|
                        0 <= a < b < points@.len() implies key_lt(
                            (#[trigger] points@[a]).date@,
                            points@[a].client_name@,
                            (#[trigger] points@[b]).date@,
                            points@[b].client_name@,
                        ) by {
                        if a < p && b == p {
                        } else if a < p && b > p {
                            assert(points@[b] == prev[b - 1]);
                        } else if a == p && b > p {
                            assert(points@[b] == prev[b - 1]);
                            if b - 1 > p {
                                assert(key_lt(prev[p as int].date@, prev[p as int].client_name@, prev[b - 1].date@, prev[b - 1].client_name@));
                                lemma_key_lt(day@, name@, prev[p as int].date@, prev[p as int].client_name@, prev[b - 1].date@, prev[b - 1].client_name@);
                            }
                        } else if a > p {
                            assert(points@[a] == prev[a - 1]);
                            assert(points@[b] == prev[b - 1]);
                        }
                    }
                    assert forall|k: int| #![trigger points@[k]] 0 <= k < points@.len() implies {
                        &&& is_rss_day_client(post, points@[k].date@, points@[k].client_name@)
                        &&& points@[k].hits == day_client_hits(post, points@[k].date@, points@[k].client_name@)
                    } by {
                        if k != p {
                            let q = if k < p { k } else { k - 1 };
                            assert(points@[k] == prev[q]);
                            let d = prev[q].date@;
                            let c = prev[q].client_name@;
                            let w = choose|j: int|
                                0 <= j < pre.len() && (#[trigger] pre[j]).day@ == d && classification(pre[j].user_agent@) == (
                                    ClientType::RssReader,
                                    c,
                                );
                            assert(post[w] == pre[w]);
                            assert(day_client_hits(post, d, c) == day_client_hits(pre, d, c) + day_hit_term(d, c)(g));
                            lemma_key_lt(d, c, day@, name@, d, c);
                            if q < p {
                                assert(key_lt(d, c, day@, name@));
                            } else {
                                if q > p {
                                    assert(key_lt(prev[p as int].date@, prev[p as int].client_name@, d, c));
                                    lemma_key_lt(day@, name@, prev[p as int].date@, prev[p as int].client_name@, d, c);
                                }
                                lemma_key_lt(day@, name@, d, c, day@, name@);
                            }
                        } else {
                            assert(day_client_hits(post, day@, name@) == day_client_hits(pre, day@, name@) + day_hit_term(day@, name@)(g));
                        }
                    }
                    assert forall|j: int|
                        #![trigger post[j]]
                        0 <= j < post.len() && classification(post[j].user_agent@).0 == ClientType::RssReader implies exists|k: int|
                            0 <= k < points@.len() && (#[trigger] points@[k]).date@ == post[j].day@ && points@[k].client_name@
                                == classification(post[j].user_agent@).1 by {
                        if j < i {
                            assert(post[j] == pre[j]);
                            let m = choose|m: int|
                                0 <= m < prev.len() && (#[trigger] prev[m]).date@ == pre[j].day@ && prev[m].client_name@
                                    == classification(pre[j].user_agent@).1;
                            if m < p {
                                assert(points@[m] == prev[m]);
                            } else {
                                assert(points@[m + 1] == prev[m]);
                            }
                        } else {
                            assert(points@[p as int] == fresh);
                        }
                    }
                }
            }
        } else {
            proof {
                assert forall|k: int| #![trigger points@[k]] 0 <= k < points@.len() implies {
                    &&& is_rss_day_client(post, points@[k].date@, points@[k].client_name@)
                    &&& points@[k].hits == day_client_hits(post, points@[k].date@, points@[k].client_name@)
                } by {
                    let d = points@[k].date@;
                    let c = points@[k].client_name@;
                    let w = choose|j: int|
                        0 <= j < pre.len() && (#[trigger] pre[j]).day@ == d && classification(pre[j].user_agent@) == (
                            ClientType::RssReader,
                            c,
                        );
                    assert(post[w] == pre[w]);
                    assert(day_client_hits(post, d, c) == day_client_hits(pre, d, c) + day_hit_term(d, c)(g));
                }
                assert forall|j: int|
                    #![trigger post[j]]
                    0 <= j < post.len() && classification(post[j].user_agent@).0 == ClientType::RssReader implies exists|k: int|
                        0 <= k < points@.len() && (#[trigger] points@[k]).date@ == post[j].day@ && points@[k].client_name@
                            == classification(post[j].user_agent@).1 by {
                    assert(post[j] == pre[j]);
                }
            }
        }
    }
    proof {
        assert(daily@.take(n as int) =~= daily@);
    }
    points
}

/// The texts in `v` are strictly ascending (so each occurs once).
pub open spec fn texts_ascending(v: Seq<String>) -> bool {
    forall|a: int, b: int| 0 <= a < b < v.len() ==> text_lt((#[trigger] v[a])@, (#[trigger] v[b])@)
}

/// `v` holds the text `s`.
pub open spec fn has_text(v: Seq<String>, s: Seq<char>) -> bool {
    exists|k: int| 0 <= k < v.len() && (#[trigger] v[k])@ == s
}

/// Where `x` belongs in the ascending list `v`, and whether it is there.
fn text_slot(v: &Vec<String>, x: &Vec<char>) -> (r: (usize, bool))
    ensures
        r.0 <= v@.len(),
        forall|a: int| 0 <= a < r.0 ==> text_lt((#[trigger] v@[a])@, x@),
        r.1 ==> r.0 < v@.len() && v@[r.0 as int]@ == x@,
        !r.1 ==> r.0 == v@.len() || text_lt(x@, v@[r.0 as int]@),
{
    let n = v.len();
    for p in 0..n
        invariant
            n == v@.len(),
            forall|a: int| 0 <= a < p ==> text_lt((#[trigger] v@[a])@, x@),
    {
        let vc = chars_of(v[p].as_str());
        let c = compare_chars(&vc, x);
        if c == 0 {
            return (p, true);
        }
        if c > 0 {
            return (p, false);
        }
    }
    (n, false)
}

/// Adds `x` to the ascending list `v` unless it is there already.
fn insert_text(v: &mut Vec<String>, x: String)
    requires
        texts_ascending(old(v)@),
    ensures
        texts_ascending(final(v)@),
        forall|s: Seq<char>| has_text(final(v)@, s) <==> (has_text(old(v)@, s) || s == x@),
{
    let xc = chars_of(x.as_str());
    let (p, present) = text_slot(v, &xc);
    if present {
        proof {
            assert forall|s: Seq<char>| has_text(v@, s) <==> (has_text(v@, s) || s == x@) by {
                if s == x@ {
                    assert(v@[p as int]@ == s);
                }
            }
        }
        return;
    }
    let ghost prev = v@;
    v.insert(p, x);
    proof {
        prev.insert_ensures(p as int, x);
        assert forall|a: int, b: int| 0 <= a < b < v@.len() implies text_lt((#[trigger] v@[a])@, (#[trigger] v@[b])@) by {
            if a < p && b == p {
            } else if a < p && b > p {
                assert(v@[b] == prev[b - 1]);
            } else if a == p && b > p {
                assert(v@[b] == prev[b - 1]);
                if b - 1 > p {
                    lemma_text_lt_strict_total(x@, prev[p as int]@, prev[b - 1]@);
                }
            } else if a > p {
                assert(v@[a] == prev[a - 1]);
                assert(v@[b] == prev[b - 1]);
            }
        }
        assert forall|s: Seq<char>| has_text(v@, s) <==> (has_text(prev, s) || s == x@) by {
            if has_text(v@, s) {
                let k = choose|k: int| 0 <= k < v@.len() && (#[trigger] v@[k])@ == s;
                if k < p {
                    assert(prev[k] == v@[k]);
                } else if k > p {
                    assert(prev[k - 1] == v@[k]);
                }
            }
            if has_text(prev, s) {
                let k = choose|k: int| 0 <= k < prev.len() && (#[trigger] prev[k])@ == s;
                if k < p {
                    assert(v@[k] == prev[k]);
                } else {
                    assert(v@[k + 1] == prev[k]);
                }
            }
            if s == x@ {
                assert(v@[p as int] == x);
            }
        }
    }
}

/// Some day-group on `day` is an RSS reader's.
pub open spec fn is_rss_day(daily: Seq<UserAgentDayGroup>, day: Seq<char>) -> bool {
    exists|j: int|
        0 <= j < daily.len() && (#[trigger] daily[j]).day@ == day && classification(daily[j].user_agent@).0
            == ClientType::RssReader
}

/// Some day-group is RSS reader `name`'s.
pub open spec fn is_rss_reader(daily: Seq<UserAgentDayGroup>, name: Seq<char>) -> bool {
    exists|j: int| 0 <= j < daily.len() && classification((#[trigger] daily[j]).user_agent@) == (ClientType::RssReader, name)
}

/// The data of the dashboard's stacked RSS chart.
#[derive(Debug, Clone)]
pub struct RssTimeline {
    /// The days with RSS traffic, ascending.
    pub dates: Vec<String>,
    /// The RSS readers seen, ascending by name.
    pub clients: Vec<String>,
    /// For each reader (as in `clients`), its hits on each day (as in `dates`).
    pub series: Vec<Vec<i64>>,
}

/// `t` is the stacked chart of the day-groups: every day and reader with RSS
/// traffic once, in order, and each reader's hits per day, zero where it has none.
pub open spec fn rss_timeline_of(t: RssTimeline, daily: Seq<UserAgentDayGroup>) -> bool {
    &&& texts_ascending(t.dates@)
    &&& texts_ascending(t.clients@)
    &&& forall|s: Seq<char>| #[trigger] has_text(t.dates@, s) <==> is_rss_day(daily, s)
    &&& forall|s: Seq<char>| #[trigger] has_text(t.clients@, s) <==> is_rss_reader(daily, s)
    &&& t.series@.len() == t.clients@.len()
    &&& forall|c: int| 0 <= c < t.clients@.len() ==> (#[trigger] t.series@[c])@.len() == t.dates@.len()
    &&& forall|c: int, d: int|
        0 <= c < t.clients@.len() && 0 <= d < t.dates@.len() ==> (#[trigger] t.series@[c])@[d] == day_client_hits(
            daily,
            (#[trigger] t.dates@[d])@,
            t.clients@[c]@,
        )
}

/// The hits of reader `name` on `day` read off the ordered points: the point's
/// hits, or zero where there is no such point.
fn hits_at(points: &Vec<RssTimePoint>, daily: Ghost<Seq<UserAgentDayGroup>>, day: &String, name: &String) -> (h: i64)
    requires
        rss_points_of(points@, daily@),
    ensures
        h == day_client_hits(daily@, day@, name@),
{
    let dc = chars_of(day.as_str());
    let nc = chars_of(name.as_str());
    let (p, present) = find_slot(points, &dc, &nc);
    if present {
        points[p].hits
    } else {
        proof {
            if is_rss_day_client(daily@, day@, name@) {
                let w = choose|j: int|
                    0 <= j < daily@.len() && (#[trigger] daily@[j]).day@ == day@ && classification(daily@[j].user_agent@) == (
                        ClientType::RssReader,
                        name@,
                    );
                let m = choose|m: int|
                    0 <= m < points@.len() && (#[trigger] points@[m]).date@ == daily@[w].day@ && points@[m].client_name@
                        == classification(daily@[w].user_agent@).1;
                lemma_key_lt(day@, name@, day@, name@, day@, name@);
                if m > p {
                    assert(key_lt(points@[p as int].date@, points@[p as int].client_name@, points@[m].date@, points@[m].client_name@));
                    lemma_key_lt(day@, name@, points@[p as int].date@, points@[p as int].client_name@, day@, name@);
                } else if m < p {
                    assert(key_lt(points@[m].date@, points@[m].client_name@, day@, name@));
                }
            }
            lemma_day_absent(daily@, day@, name@);
        }
        0
    }
}

/// The stacked RSS chart of the dashboard: the days and readers with RSS
/// traffic, both ascending, and each reader's hits per day.
pub fn rss_timeline(daily: &Vec<UserAgentDayGroup>) -> (t: RssTimeline)
    requires
        day_sums_fit(daily@),
    ensures
        rss_timeline_of(t, daily@),
{
    let points = rss_time_points(daily);
    let mut dates: Vec<String> = Vec::new();
    let mut clients: Vec<String> = Vec::new();
    let n = points.len();
    for i in 0..n
        invariant
            n == points@.len(),
            texts_ascending(dates@),
            texts_ascending(clients@),
            forall|s: Seq<char>|
                #[trigger] has_text(dates@, s) <==> exists|m: int| 0 <= m < i && (#[trigger] points@[m]).date@ == s,
            forall|s: Seq<char>|
                #[trigger] has_text(clients@, s) <==> exists|m: int| 0 <= m < i && (#[trigger] points@[m]).client_name@ == s,
    {
        let ghost dprev = dates@;
        let ghost cprev = clients@;
        insert_text(&mut dates, points[i].date.clone());
        insert_text(&mut clients, points[i].client_name.clone());
        proof {
            assert forall|s: Seq<char>|
                #[trigger] has_text(dates@, s) <==> exists|m: int| 0 <= m < i + 1 && (#[trigger] points@[m]).date@ == s by {
                if has_text(dates@, s) && !has_text(dprev, s) {
                    assert(points@[i as int].date@ == s);
                }
                if exists|m: int| 0 <= m < i + 1 && (#[trigger] points@[m]).date@ == s {
                    let m = choose|m: int| 0 <= m < i + 1 && (#[trigger] points@[m]).date@ == s;
                    if m < i {
                        assert(has_text(dprev, s));
                    }
                }
            }
            assert forall|s: Seq<char>|
                #[trigger] has_text(clients@, s) <==> exists|m: int| 0 <= m < i + 1 && (#[trigger] points@[m]).client_name@ == s by {
                if has_text(clients@, s) && !has_text(cprev, s) {
                    assert(points@[i as int].client_name@ == s);
                }
                if exists|m: int| 0 <= m < i + 1 && (#[trigger] points@[m]).client_name@ == s {
                    let m = choose|m: int| 0 <= m < i + 1 && (#[trigger] points@[m]).client_name@ == s;
                    if m < i {
                        assert(has_text(cprev, s));
                    }
                }
            }
        }
    }
    let mut series: Vec<Vec<i64>> = Vec::new();
    let nc = clients.len();
    let nd = dates.len();
    for c in 0..nc
        invariant
            nc == clients@.len(),
            nd == dates@.len(),
            rss_points_of(points@, daily@),
            series@.len() == c,
            forall|k: int| 0 <= k < c ==> (#[trigger] series@[k])@.len() == nd,
            forall|k: int, d: int|
                0 <= k < c && 0 <= d < nd ==> (#[trigger] series@[k])@[d] == day_client_hits(
                    daily@,
                    (#[trigger] dates@[d])@,
                    clients@[k]@,
                ),
    {
        let mut row: Vec<i64> = Vec::new();
        for d in 0..nd
            invariant
                nc == clients@.len(),
                nd == dates@.len(),
                c < nc,
                rss_points_of(points@, daily@),
                row@.len() == d,
                forall|e: int| 0 <= e < d ==> #[trigger] row@[e] == day_client_hits(daily@, dates@[e]@, clients@[c as int]@),
        {
            let h = hits_at(&points, Ghost(daily@), &dates[d], &clients[c]);
            row.push(h);
        }
        series.push(row);
    }
    let t = RssTimeline { dates, clients, series };
    proof {
        assert forall|s: Seq<char>| #[trigger] has_text(t.dates@, s) <==> is_rss_day(daily@, s) by {
            if has_text(t.dates@, s) {
                let m = choose|m: int| 0 <= m < n && (#[trigger] points@[m]).date@ == s;
                let w = choose|j: int|
                    0 <= j < daily@.len() && (#[trigger] daily@[j]).day@ == points@[m].date@ && classification(daily@[j].user_agent@) == (
                        ClientType::RssReader,
                        points@[m].client_name@,
                    );
                assert(daily@[w].day@ == s);
            }
            if is_rss_day(daily@, s) {
                let j = choose|j: int|
                    0 <= j < daily@.len() && (#[trigger] daily@[j]).day@ == s && classification(daily@[j].user_agent@).0
                        == ClientType::RssReader;
                let m = choose|m: int|
                    0 <= m < points@.len() && (#[trigger] points@[m]).date@ == daily@[j].day@ && points@[m].client_name@
                        == classification(daily@[j].user_agent@).1;
                assert(points@[m].date@ == s);
            }
        }
        assert forall|s: Seq<char>| #[trigger] has_text(t.clients@, s) <==> is_rss_reader(daily@, s) by {
            if has_text(t.clients@, s) {
                let m = choose|m: int| 0 <= m < n && (#[trigger] points@[m]).client_name@ == s;
                let w = choose|j: int|
                    0 <= j < daily@.len() && (#[trigger] daily@[j]).day@ == points@[m].date@ && classification(daily@[j].user_agent@) == (
                        ClientType::RssReader,
                        points@[m].client_name@,
                    );
                assert(classification(daily@[w].user_agent@) == (ClientType::RssReader, s));
            }
            if is_rss_reader(daily@, s) {
                let j = choose|j: int| 0 <= j < daily@.len() && classification((#[trigger] daily@[j]).user_agent@) == (ClientType::RssReader, s);
                let m = choose|m: int|
                    0 <= m < points@.len() && (#[trigger] points@[m]).date@ == daily@[j].day@ && points@[m].client_name@
                        == classification(daily@[j].user_agent@).1;
                assert(points@[m].client_name@ == s);
            }
        }
    }
    t
}

/// The API's per-day points and the dashboard's chart agree: every point's
/// day and reader are in the chart, and the chart holds the point's hits there.
pub proof fn lemma_points_match_timeline(points: Seq<RssTimePoint>, t: RssTimeline, daily: Seq<UserAgentDayGroup>, k: int)
    requires
        rss_points_of(points, daily),
        rss_timeline_of(t, daily),
        0 <= k < points.len(),
    ensures
        exists|c: int, d: int|
            0 <= c < t.clients@.len() && 0 <= d < t.dates@.len() && (#[trigger] t.dates@[d])@ == points[k].date@
                && t.clients@[c]@ == points[k].client_name@ && (#[trigger] t.series@[c])@[d] == points[k].hits,
{
    let p = points[k];
    let w = choose|j: int|
        0 <= j < daily.len() && (#[trigger] daily[j]).day@ == p.date@ && classification(daily[j].user_agent@) == (
            ClientType::RssReader,
            p.client_name@,
        );
    assert(is_rss_day(daily, p.date@));
    assert(is_rss_reader(daily, p.client_name@));
    assert(has_text(t.dates@, p.date@));
    assert(has_text(t.clients@, p.client_name@));
    let d = choose|d: int| 0 <= d < t.dates@.len() && (#[trigger] t.dates@[d])@ == p.date@;
    let c = choose|c: int| 0 <= c < t.clients@.len() && (#[trigger] t.clients@[c])@ == p.client_name@;
    assert(t.series@[c]@[d] == day_client_hits(daily, t.dates@[d]@, t.clients@[c]@));
}

} // verus!
