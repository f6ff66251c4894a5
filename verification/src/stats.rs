//! The aggregations behind the RSS and bot pages: user-agent groups are
//! classified, summed per client (and per day), and ordered.
use vstd::prelude::*;

use crate::classify::{classification, classify, ClientType};
use crate::models::{BotStats, RssClientStats, UserAgentGroup};

verus! {

/// The sum of `f` over the items of `s`.
pub open spec fn sum_of<T>(s: Seq<T>, f: spec_fn(T) -> int) -> int
    decreases s.len(),
{
    if s.len() == 0 {
        0
    } else {
        sum_of(s.drop_last(), f) + f(s.last())
    }
}

/// The sum over the first `i + 1` items is the sum over the first `i` plus item `i`.
pub proof fn lemma_sum_of_take_step<T>(s: Seq<T>, f: spec_fn(T) -> int, i: int)
    requires
        0 <= i < s.len(),
    ensures
        sum_of(s.take(i + 1), f) == sum_of(s.take(i), f) + f(s[i]),
{
    assert(s.take(i + 1).drop_last() =~= s.take(i));
}

/// A sum with every term zero is zero.
pub proof fn lemma_sum_of_zero<T>(s: Seq<T>, f: spec_fn(T) -> int)
    requires
        forall|j: int| 0 <= j < s.len() ==> f(#[trigger] s[j]) == 0,
    ensures
        sum_of(s, f) == 0,
    decreases s.len(),
{
    if s.len() > 0 {
        let t = s.drop_last();
        assert forall|j: int| 0 <= j < t.len() implies f(#[trigger] t[j]) == 0 by {
            assert(t[j] == s[j]);
        }
        lemma_sum_of_zero(t, f);
        assert(f(s[s.len() - 1]) == 0);
    }
}

/// Updating one item changes the sum by the change of that item.
pub proof fn lemma_sum_of_update<T>(s: Seq<T>, f: spec_fn(T) -> int, k: int, x: T)
    requires
        0 <= k < s.len(),
    ensures
        sum_of(s.update(k, x), f) == sum_of(s, f) - f(s[k]) + f(x),
    decreases s.len(),
{
    if k < s.len() - 1 {
        lemma_sum_of_update(s.drop_last(), f, k, x);
        assert(s.update(k, x).drop_last() =~= s.drop_last().update(k, x));
    } else {
        assert(s.update(k, x).drop_last() =~= s.drop_last());
    }
}

/// Inserting an item adds its term to the sum.
pub proof fn lemma_sum_of_insert<T>(s: Seq<T>, f: spec_fn(T) -> int, p: int, x: T)
    requires
        0 <= p <= s.len(),
    ensures
        sum_of(s.insert(p, x), f) == sum_of(s, f) + f(x),
    decreases s.len(),
{
    if p == s.len() {
        assert(s.insert(p, x).drop_last() =~= s);
    } else {
        lemma_sum_of_insert(s.drop_last(), f, p, x);
        assert(s.insert(p, x).drop_last() =~= s.drop_last().insert(p, x));
    }
}

/// One group's hits if it classifies as client `name` of kind `kind`, else zero.
pub open spec fn client_hit_term(kind: ClientType, name: Seq<char>) -> spec_fn(UserAgentGroup) -> int {
    |g: UserAgentGroup|
        if classification(g.user_agent@) == (kind, name) {
            g.hits as int
        } else {
            0
        }
}

/// One group's unique visitors if it classifies as client `name` of kind `kind`, else zero.
pub open spec fn client_unique_term(kind: ClientType, name: Seq<char>) -> spec_fn(UserAgentGroup) -> int {
    |g: UserAgentGroup|
        if classification(g.user_agent@) == (kind, name) {
            g.unique_visitors as int
        } else {
            0
        }
}

/// One group's hits if it is of kind `kind`, else zero.
pub open spec fn kind_hit_term(kind: ClientType) -> spec_fn(UserAgentGroup) -> int {
    |g: UserAgentGroup|
        if classification(g.user_agent@).0 == kind {
            g.hits as int
        } else {
            0
        }
}

/// One group's unique visitors if it is of kind `kind`, else zero.
pub open spec fn kind_unique_term(kind: ClientType) -> spec_fn(UserAgentGroup) -> int {
    |g: UserAgentGroup|
        if classification(g.user_agent@).0 == kind {
            g.unique_visitors as int
        } else {
            0
        }
}

/// The hits of the user-agent groups that classify as client `name` of kind `kind`.
pub open spec fn client_hits(groups: Seq<UserAgentGroup>, kind: ClientType, name: Seq<char>) -> int {
    sum_of(groups, client_hit_term(kind, name))
}

/// The unique visitors of the groups that classify as client `name` of kind `kind`
/// (summed per group).
pub open spec fn client_uniques(groups: Seq<UserAgentGroup>, kind: ClientType, name: Seq<char>) -> int {
    sum_of(groups, client_unique_term(kind, name))
}

/// The hits of all groups of kind `kind`.
pub open spec fn kind_hits(groups: Seq<UserAgentGroup>, kind: ClientType) -> int {
    sum_of(groups, kind_hit_term(kind))
}

/// The unique visitors of all groups of kind `kind`, summed per group.
pub open spec fn kind_uniques(groups: Seq<UserAgentGroup>, kind: ClientType) -> int {
    sum_of(groups, kind_unique_term(kind))
}

/// Some group classifies as client `name` of kind `kind`.
pub open spec fn is_client_of(groups: Seq<UserAgentGroup>, kind: ClientType, name: Seq<char>) -> bool {
    exists|j: int| 0 <= j < groups.len() && classification(#[trigger] groups[j].user_agent@) == (kind, name)
}

/// `x` fits in an `i64`.
pub open spec fn fits_i64(x: int) -> bool {
    i64::MIN <= x <= i64::MAX
}

/// Summing per client of kind `kind`, group by group in list order, stays
/// within `i64` at every step (hits and unique visitors alike).
pub open spec fn client_sums_fit(groups: Seq<UserAgentGroup>, kind: ClientType) -> bool {
    forall|name: Seq<char>, k: int|
        #![trigger client_hits(groups.take(k), kind, name)]
        #![trigger client_uniques(groups.take(k), kind, name)]
        0 <= k <= groups.len() ==> fits_i64(client_hits(groups.take(k), kind, name)) && fits_i64(
            client_uniques(groups.take(k), kind, name),
        )
}

/// What `client_sums_fit` says of one client and one prefix.
pub proof fn lemma_client_sums_fit_at(groups: Seq<UserAgentGroup>, kind: ClientType, name: Seq<char>, k: int)
    requires
        client_sums_fit(groups, kind),
        0 <= k <= groups.len(),
    ensures
        fits_i64(client_hits(groups.take(k), kind, name)),
        fits_i64(client_uniques(groups.take(k), kind, name)),
{
}

/// The positive part of a term.
pub open spec fn pos_of<T>(f: spec_fn(T) -> int) -> spec_fn(T) -> int {
    |x: T| if f(x) > 0 { f(x) } else { 0 }
}

/// The negative part of a term.
pub open spec fn neg_of<T>(f: spec_fn(T) -> int) -> spec_fn(T) -> int {
    |x: T| if f(x) < 0 { f(x) } else { 0 }
}

/// Summing `f` over `s` in any order stays within `i64`: the positive terms
/// together and the negative terms together fit.
pub open spec fn sum_fits_any_order<T>(s: Seq<T>, f: spec_fn(T) -> int) -> bool {
    sum_of(s, pos_of(f)) <= i64::MAX && sum_of(s, neg_of(f)) >= i64::MIN
}

/// A sum splits into its positive and negative parts; a prefix's parts lie
/// within the whole's.
pub proof fn lemma_sum_of_parts<T>(s: Seq<T>, f: spec_fn(T) -> int, k: int)
    requires
        0 <= k <= s.len(),
    ensures
        sum_of(s, f) == sum_of(s, pos_of(f)) + sum_of(s, neg_of(f)),
        0 <= sum_of(s.take(k), pos_of(f)) <= sum_of(s, pos_of(f)),
        0 >= sum_of(s.take(k), neg_of(f)) >= sum_of(s, neg_of(f)),
        sum_of(s.take(k), f) == sum_of(s.take(k), pos_of(f)) + sum_of(s.take(k), neg_of(f)),
    decreases s.len(),
{
    if s.len() > 0 {
        let t = s.drop_last();
        if k == s.len() {
            assert(s.take(k) =~= s);
            lemma_sum_of_parts(t, f, t.len() as int);
            assert(t.take(t.len() as int) =~= t);
        } else {
            lemma_sum_of_parts(t, f, k);
            assert(t.take(k) =~= s.take(k));
            lemma_sum_of_parts(t, f, t.len() as int);
            assert(t.take(t.len() as int) =~= t);
        }
    } else {
        assert(s.take(k) =~= s);
    }
}

/// One client's running totals.
struct Tally {
    name: String,
    hits: i64,
    uniques: i64,
}

spec fn tally_hits() -> spec_fn(Tally) -> int {
    |t: Tally| t.hits as int
}

spec fn tally_uniques() -> spec_fn(Tally) -> int {
    |t: Tally| t.uniques as int
}

/// `t` holds exactly the clients of kind `kind` among `groups`, once each, with their sums.
spec fn tallies_of(t: Seq<Tally>, groups: Seq<UserAgentGroup>, kind: ClientType) -> bool {
    &&& forall|a: int, b: int| 0 <= a < b < t.len() ==> #[trigger] t[a].name@ != #[trigger] t[b].name@
    &&& forall|k: int|
        #![trigger t[k]]
        0 <= k < t.len() ==> {
            &&& is_client_of(groups, kind, t[k].name@)
            &&& t[k].hits == client_hits(groups, kind, t[k].name@)
            &&& t[k].uniques == client_uniques(groups, kind, t[k].name@)
        }
    &&& forall|j: int|
        #![trigger groups[j]]
        0 <= j < groups.len() && classification(groups[j].user_agent@).0 == kind ==> exists|k: int|
            0 <= k < t.len() && #[trigger] t[k].name@ == classification(groups[j].user_agent@).1
    &&& sum_of(t, tally_hits()) == kind_hits(groups, kind)
    &&& sum_of(t, tally_uniques()) == kind_uniques(groups, kind)
}

/// What one more group does to the per-client and per-kind sums.
proof fn lemma_group_step(groups: Seq<UserAgentGroup>, kind: ClientType, i: int)
    requires
        0 <= i < groups.len(),
    ensures
        forall|name: Seq<char>|
            #![trigger client_hits(groups.take(i + 1), kind, name)]
            client_hits(groups.take(i + 1), kind, name) == client_hits(groups.take(i), kind, name)
                + client_hit_term(kind, name)(groups[i])
            && client_uniques(groups.take(i + 1), kind, name) == client_uniques(groups.take(i), kind, name)
                + client_unique_term(kind, name)(groups[i]),
        kind_hits(groups.take(i + 1), kind) == kind_hits(groups.take(i), kind) + kind_hit_term(kind)(groups[i]),
        kind_uniques(groups.take(i + 1), kind) == kind_uniques(groups.take(i), kind) + kind_unique_term(kind)(groups[i]),
{
    assert forall|name: Seq<char>|
        #![trigger client_hits(groups.take(i + 1), kind, name)]
        client_hits(groups.take(i + 1), kind, name) == client_hits(groups.take(i), kind, name)
            + client_hit_term(kind, name)(groups[i])
        && client_uniques(groups.take(i + 1), kind, name) == client_uniques(groups.take(i), kind, name)
            + client_unique_term(kind, name)(groups[i]) by {
        lemma_sum_of_take_step(groups, client_hit_term(kind, name), i);
        lemma_sum_of_take_step(groups, client_unique_term(kind, name), i);
    }
    lemma_sum_of_take_step(groups, kind_hit_term(kind), i);
    lemma_sum_of_take_step(groups, kind_unique_term(kind), i);
}

/// A client that no group names sums to zero.
proof fn lemma_client_absent(groups: Seq<UserAgentGroup>, kind: ClientType, name: Seq<char>)
    requires
        !is_client_of(groups, kind, name),
    ensures
        client_hits(groups, kind, name) == 0,
        client_uniques(groups, kind, name) == 0,
{
    let f = client_hit_term(kind, name);
    let u = client_unique_term(kind, name);
    assert forall|j: int| 0 <= j < groups.len() implies f(#[trigger] groups[j]) == 0 && u(groups[j]) == 0 by {
        assert(classification(groups[j].user_agent@) != (kind, name));
    }
    lemma_sum_of_zero(groups, f);
    lemma_sum_of_zero(groups, u);
}

fn find_tally(t: &Vec<Tally>, name: &String) -> (r: Option<usize>)
    ensures
        match r {
            Some(k) => k < t@.len() && t@[k as int].name@ == name@,
            None => forall|k: int| 0 <= k < t@.len() ==> #[trigger] t@[k].name@ != name@,
        },
{
    let n = t.len();
    for k in 0..n
        invariant
            n == t@.len(),
            forall|m: int| 0 <= m < k ==> #[trigger] t@[m].name@ != name@,
    {
        if t[k].name == *name {
            return Some(k);
        }
    }
    None
}

/// Sums the groups of kind `kind` per client, in order of first appearance.
#[verifier::rlimit(40)]
#[verifier::spinoff_prover]
fn tally_clients(groups: &Vec<UserAgentGroup>, kind: ClientType) -> (t: Vec<Tally>)
    requires
        client_sums_fit(groups@, kind),
    ensures
        tallies_of(t@, groups@, kind),
        t@.len() <= groups@.len(),
{
    let mut t: Vec<Tally> = Vec::new();
    let n = groups.len();
    proof {
        assert(groups@.take(0) =~= Seq::<UserAgentGroup>::empty());
        assert(t@ =~= Seq::<Tally>::empty());
    }
    for i in 0..n
        invariant
            n == groups@.len(),
            client_sums_fit(groups@, kind),
            tallies_of(t@, groups@.take(i as int), kind),
            t@.len() <= i,
    {
        let ghost prev = t@;
        let ghost pre = groups@.take(i as int);
        let ghost post = groups@.take(i + 1);
        let ghost g = groups@[i as int];
        proof {
            lemma_group_step(groups@, kind, i as int);
            assert forall|j: int| 0 <= j < i implies #[trigger] post[j] == pre[j] by {}
            assert(post[i as int] == g);
        }
        let info = classify(groups[i].user_agent.as_str());
        let hits = groups[i].hits;
        let uniques = groups[i].unique_visitors;
        if info.client_type == kind {
            let ghost name = info.client_name@;
            proof {
                lemma_client_sums_fit_at(groups@, kind, name, i + 1);
                assert(is_client_of(post, kind, name));
            }
            match find_tally(&t, &info.client_name) {
                Some(k) => {
                    let updated = Tally {
                        name: t[k].name.clone(),
                        hits: t[k].hits + hits,
                        uniques: t[k].uniques + uniques,
                    };
                    t.set(k, updated);
                    proof {
                        lemma_sum_of_update(prev, tally_hits(), k as int, updated);
                        lemma_sum_of_update(prev, tally_uniques(), k as int, updated);
                        assert forall|m: int| #![trigger t@[m]] 0 <= m < t@.len() implies {
                            &&& is_client_of(post, kind, t@[m].name@)
                            &&& t@[m].hits == client_hits(post, kind, t@[m].name@)
                            &&& t@[m].uniques == client_uniques(post, kind, t@[m].name@)
                        } by {
                            let x = t@[m].name@;
                            assert(prev[m].name@ == x);
                            let w = choose|j: int| 0 <= j < pre.len() && classification(#[trigger] pre[j].user_agent@) == (kind, x);
                            assert(post[w] == pre[w]);
                            assert(client_hits(post, kind, x) == client_hits(pre, kind, x) + client_hit_term(kind, x)(g));
                        }
                        assert forall|j: int| #![trigger post[j]]
                            0 <= j < post.len() && classification(post[j].user_agent@).0 == kind implies exists|m: int|
                                0 <= m < t@.len() && #[trigger] t@[m].name@ == classification(post[j].user_agent@).1 by {
                            if j < i {
                                assert(post[j] == pre[j]);
                                let m = choose|m: int| 0 <= m < prev.len() && #[trigger] prev[m].name@ == classification(pre[j].user_agent@).1;
                                assert(t@[m].name@ == prev[m].name@);
                            } else {
                                assert(t@[k as int].name@ == name);
                            }
                        }
                    }
                }
                None => {
                    proof {
                        lemma_client_absent(pre, kind, name);
                    }
                    let fresh = Tally { name: info.client_name, hits, uniques };
                    t.push(fresh);
                    proof {
                        assert(t@.drop_last() =~= prev);
                        assert forall|m: int| #![trigger t@[m]] 0 <= m < t@.len() implies {
                            &&& is_client_of(post, kind, t@[m].name@)
                            &&& t@[m].hits == client_hits(post, kind, t@[m].name@)
                            &&& t@[m].uniques == client_uniques(post, kind, t@[m].name@)
                        } by {
                            let x = t@[m].name@;
                            if m < prev.len() {
                                assert(prev[m] == t@[m]);
                                let w = choose|j: int| 0 <= j < pre.len() && classification(#[trigger] pre[j].user_agent@) == (kind, x);
                                assert(post[w] == pre[w]);
                                assert(client_hits(post, kind, x) == client_hits(pre, kind, x) + client_hit_term(kind, x)(g));
                            }
                        }
                        assert forall|j: int| #![trigger post[j]]
                            0 <= j < post.len() && classification(post[j].user_agent@).0 == kind implies exists|m: int|
                                0 <= m < t@.len() && #[trigger] t@[m].name@ == classification(post[j].user_agent@).1 by {
                            if j < i {
                                assert(post[j] == pre[j]);
                                let m = choose|m: int| 0 <= m < prev.len() && #[trigger] prev[m].name@ == classification(pre[j].user_agent@).1;
                                assert(t@[m] == prev[m]);
                            } else {
                                assert(t@[prev.len() as int].name@ == name);
                            }
                        }
                    }
                }
            }
        } else {
            proof {
                assert forall|m: int| #![trigger t@[m]] 0 <= m < t@.len() implies {
                    &&& is_client_of(post, kind, t@[m].name@)
                    &&& t@[m].hits == client_hits(post, kind, t@[m].name@)
                    &&& t@[m].uniques == client_uniques(post, kind, t@[m].name@)
                } by {
                    let x = t@[m].name@;
                    let w = choose|j: int| 0 <= j < pre.len() && classification(#[trigger] pre[j].user_agent@) == (kind, x);
                    assert(post[w] == pre[w]);
                    assert(client_hits(post, kind, x) == client_hits(pre, kind, x) + client_hit_term(kind, x)(g));
                }
                assert forall|j: int| #![trigger post[j]]
                    0 <= j < post.len() && classification(post[j].user_agent@).0 == kind implies exists|m: int|
                        0 <= m < t@.len() && #[trigger] t@[m].name@ == classification(post[j].user_agent@).1 by {
                    assert(post[j] == pre[j]);
                }
            }
        }
    }
    proof {
        assert(groups@.take(n as int) =~= groups@);
    }
    t
}

spec fn names_distinct(t: Seq<Tally>) -> bool {
    forall|a: int, b: int| 0 <= a < b < t.len() ==> #[trigger] t[a].name@ != #[trigger] t[b].name@
}

spec fn hits_descending(t: Seq<Tally>) -> bool {
    forall|a: int, b: int| 0 <= a < b < t.len() ==> #[trigger] t[a].hits >= #[trigger] t[b].hits
}

/// Orders tallies by hits, most first; equal hits keep their order.
#[verifier::rlimit(40)]
#[verifier::spinoff_prover]
fn sort_by_hits_desc(t: &Vec<Tally>) -> (r: Vec<Tally>)
    ensures
        r@.len() == t@.len(),
        forall|x: Tally| r@.contains(x) <==> t@.contains(x),
        hits_descending(r@),
        names_distinct(t@) ==> names_distinct(r@),
        sum_of(r@, tally_hits()) == sum_of(t@, tally_hits()),
        sum_of(r@, tally_uniques()) == sum_of(t@, tally_uniques()),
{
    let mut r: Vec<Tally> = Vec::new();
    let n = t.len();
    proof {
        assert(t@.take(0) =~= Seq::<Tally>::empty());
        assert(r@ =~= Seq::<Tally>::empty());
    }
    for i in 0..n
        invariant
            n == t@.len(),
            r@.len() == i,
            forall|x: Tally| r@.contains(x) <==> t@.take(i as int).contains(x),
            hits_descending(r@),
            names_distinct(t@) ==> names_distinct(r@),
            sum_of(r@, tally_hits()) == sum_of(t@.take(i as int), tally_hits()),
            sum_of(r@, tally_uniques()) == sum_of(t@.take(i as int), tally_uniques()),
    {
        let x = Tally { name: t[i].name.clone(), hits: t[i].hits, uniques: t[i].uniques };
        assert(x == t@[i as int]);
        let mut p: usize = 0;
        while p < r.len() && r[p].hits >= x.hits
            invariant
                p <= r@.len(),
                forall|a: int| 0 <= a < p ==> #[trigger] r@[a].hits >= x.hits,
            decreases r@.len() - p,
        {
            p = p + 1;
        }
        let ghost prev = r@;
        r.insert(p, x);
        proof {
            prev.insert_ensures(p as int, x);
            lemma_sum_of_insert(prev, tally_hits(), p as int, x);
            lemma_sum_of_insert(prev, tally_uniques(), p as int, x);
            lemma_sum_of_take_step(t@, tally_hits(), i as int);
            lemma_sum_of_take_step(t@, tally_uniques(), i as int);
            assert(t@.take(i + 1) =~= t@.take(i as int).push(x));
            assert forall|y: Tally| r@.contains(y) <==> t@.take(i + 1).contains(y) by {
                if r@.contains(y) {
                    let k = choose|k: int| 0 <= k < r@.len() && r@[k] == y;
                    if k < p {
                        assert(prev[k] == y);
                        assert(prev.contains(y));
                    } else if k > p {
                        assert(prev[k - 1] == y);
                        assert(prev.contains(y));
                    }
                    assert(t@.take(i + 1)[i as int] == x);
                }
                if t@.take(i + 1).contains(y) {
                    let k = choose|k: int| 0 <= k < i + 1 && #[trigger] t@.take(i + 1)[k] == y;
                    if k < i {
                        assert(t@.take(i as int)[k] == y);
                        assert(prev.contains(y));
                        let q = choose|q: int| 0 <= q < prev.len() && prev[q] == y;
                        if q < p {
                            assert(r@[q] == y);
                        } else {
                            assert(r@[q + 1] == y);
                        }
                    } else {
                        assert(r@[p as int] == y);
                    }
                }
            }
            assert forall|a: int, b: int| 0 <= a < b < r@.len() implies #[trigger] r@[a].hits >= #[trigger] r@[b].hits by {
                if a < p && b == p {
                } else if a < p && b > p {
                    assert(r@[b] == prev[b - 1]);
                } else if a == p && b > p {
                    assert(r@[b] == prev[b - 1]);
                    assert(prev[p as int].hits < x.hits);
                    if b - 1 > p {
                        assert(prev[p as int].hits >= prev[b - 1].hits);
                    }
                } else if a > p {
                    assert(r@[a] == prev[a - 1]);
                    assert(r@[b] == prev[b - 1]);
                }
            }
            if names_distinct(t@) {
                assert forall|a: int, b: int| 0 <= a < b < r@.len() implies #[trigger] r@[a].name@ != #[trigger] r@[b].name@ by {
                    assert forall|y: Tally| prev.contains(y) implies y.name@ != x.name@ by {
                        assert(t@.take(i as int).contains(y));
                        let k = choose|k: int| 0 <= k < i && #[trigger] t@.take(i as int)[k] == y;
                        assert(t@[k] == y);
                        assert(t@[i as int] == x);
                    }
                    if a < p && b == p {
                        assert(prev.contains(r@[a]));
                    } else if a < p && b > p {
                        assert(r@[b] == prev[b - 1]);
                    } else if a == p && b > p {
                        assert(r@[b] == prev[b - 1]);
                        assert(prev.contains(r@[b]));
                    } else if a > p {
                        assert(r@[a] == prev[a - 1]);
                        assert(r@[b] == prev[b - 1]);
                    }
                }
            }
        }
    }
    proof {
        assert(t@.take(n as int) =~= t@);
    }
    r
}

/// The RSS readers found in a list of user-agent groups: each reader once,
/// with the hits and unique visitors of its groups summed, most hits first.
pub open spec fn rss_clients_of(r: Seq<RssClientStats>, groups: Seq<UserAgentGroup>) -> bool {
    &&& forall|a: int, b: int| 0 <= a < b < r.len() ==> #[trigger] r[a].client_name@ != #[trigger] r[b].client_name@
    &&& forall|k: int|
        #![trigger r[k]]
        0 <= k < r.len() ==> {
            &&& is_client_of(groups, ClientType::RssReader, r[k].client_name@)
            &&& r[k].hits == client_hits(groups, ClientType::RssReader, r[k].client_name@)
            &&& r[k].unique_subscribers == client_uniques(groups, ClientType::RssReader, r[k].client_name@)
        }
    &&& forall|j: int|
        #![trigger groups[j]]
        0 <= j < groups.len() && classification(groups[j].user_agent@).0 == ClientType::RssReader ==> exists|k: int|
            0 <= k < r.len() && #[trigger] r[k].client_name@ == classification(groups[j].user_agent@).1
    &&& forall|a: int, b: int| 0 <= a < b < r.len() ==> #[trigger] r[a].hits >= #[trigger] r[b].hits
}

/// The bots found in a list of user-agent groups: each bot once, with the hits
/// of its groups summed, most hits first.
pub open spec fn bot_clients_of(r: Seq<BotStats>, groups: Seq<UserAgentGroup>) -> bool {
    &&& forall|a: int, b: int| 0 <= a < b < r.len() ==> #[trigger] r[a].client_name@ != #[trigger] r[b].client_name@
    &&& forall|k: int|
        #![trigger r[k]]
        0 <= k < r.len() ==> {
            &&& is_client_of(groups, ClientType::Bot, r[k].client_name@)
            &&& r[k].hits == client_hits(groups, ClientType::Bot, r[k].client_name@)
        }
    &&& forall|j: int|
        #![trigger groups[j]]
        0 <= j < groups.len() && classification(groups[j].user_agent@).0 == ClientType::Bot ==> exists|k: int|
            0 <= k < r.len() && #[trigger] r[k].client_name@ == classification(groups[j].user_agent@).1
    &&& forall|a: int, b: int| 0 <= a < b < r.len() ==> #[trigger] r[a].hits >= #[trigger] r[b].hits
}

/// The hits of an RSS reader entry.
pub open spec fn rss_entry_hits() -> spec_fn(RssClientStats) -> int {
    |e: RssClientStats| e.hits as int
}

/// The unique subscribers of an RSS reader entry.
pub open spec fn rss_entry_subscribers() -> spec_fn(RssClientStats) -> int {
    |e: RssClientStats| e.unique_subscribers as int
}

/// The hits of a bot entry.
pub open spec fn bot_entry_hits() -> spec_fn(BotStats) -> int {
    |e: BotStats| e.hits as int
}

fn clients_ranked(groups: &Vec<UserAgentGroup>, kind: ClientType) -> (r: Vec<Tally>)
    requires
        client_sums_fit(groups@, kind),
    ensures
        tallies_of(r@, groups@, kind),
        hits_descending(r@),
        r@.len() <= groups@.len(),
{
    let t = tally_clients(groups, kind);
    let r = sort_by_hits_desc(&t);
    proof {
        assert forall|k: int| #![trigger r@[k]] 0 <= k < r@.len() implies t@.contains(r@[k]) by {
            assert(r@.contains(r@[k]));
        }
        assert forall|j: int|
            #![trigger groups@[j]]
            0 <= j < groups@.len() && classification(groups@[j].user_agent@).0 == kind implies exists|k: int|
                0 <= k < r@.len() && #[trigger] r@[k].name@ == classification(groups@[j].user_agent@).1 by {
            let m = choose|m: int| 0 <= m < t@.len() && #[trigger] t@[m].name@ == classification(groups@[j].user_agent@).1;
            assert(t@.contains(t@[m]));
            assert(r@.contains(t@[m]));
        }
    }
    r
}

/// The RSS readers among the user-agent groups, with their hits and unique
/// subscribers, most hits first.
pub fn rss_clients(groups: &Vec<UserAgentGroup>) -> (r: Vec<RssClientStats>)
    requires
        client_sums_fit(groups@, ClientType::RssReader),
    ensures
        rss_clients_of(r@, groups@),
        r@.len() <= groups@.len(),
        sum_of(r@, rss_entry_hits()) == kind_hits(groups@, ClientType::RssReader),
        sum_of(r@, rss_entry_subscribers()) == kind_uniques(groups@, ClientType::RssReader),
{
    let t = clients_ranked(groups, ClientType::RssReader);
    let mut r: Vec<RssClientStats> = Vec::new();
    let n = t.len();
    proof {
        assert(t@.take(0) =~= Seq::<Tally>::empty());
        assert(r@ =~= Seq::<RssClientStats>::empty());
    }
    for i in 0..n
        invariant
            n == t@.len(),
            r@.len() == i,
            forall|k: int| #![trigger r@[k]] 0 <= k < i ==> r@[k].client_name@ == t@[k].name@ && r@[k].hits == t@[k].hits
                && r@[k].unique_subscribers == t@[k].uniques,
            sum_of(r@, rss_entry_hits()) == sum_of(t@.take(i as int), tally_hits()),
            sum_of(r@, rss_entry_subscribers()) == sum_of(t@.take(i as int), tally_uniques()),
    {
        let e = RssClientStats { client_name: t[i].name.clone(), hits: t[i].hits, unique_subscribers: t[i].uniques };
        let ghost prev = r@;
        r.push(e);
        proof {
            assert(r@.drop_last() =~= prev);
            lemma_sum_of_take_step(t@, tally_hits(), i as int);
            lemma_sum_of_take_step(t@, tally_uniques(), i as int);
        }
    }
    proof {
        assert(t@.take(n as int) =~= t@);
        assert forall|a: int, b: int| 0 <= a < b < r@.len() implies #[trigger] r@[a].hits >= #[trigger] r@[b].hits by {
            assert(t@[a].hits >= t@[b].hits);
        }
        assert forall|a: int, b: int| 0 <= a < b < r@.len() implies #[trigger] r@[a].client_name@ != #[trigger] r@[b].client_name@ by {
            assert(t@[a].name@ != t@[b].name@);
        }
        assert forall|j: int|
            #![trigger groups@[j]]
            0 <= j < groups@.len() && classification(groups@[j].user_agent@).0 == ClientType::RssReader implies exists|k: int|
                0 <= k < r@.len() && #[trigger] r@[k].client_name@ == classification(groups@[j].user_agent@).1 by {
            let m = choose|m: int| 0 <= m < t@.len() && #[trigger] t@[m].name@ == classification(groups@[j].user_agent@).1;
            assert(r@[m].client_name@ == t@[m].name@);
        }
    }
    r
}

/// The bots among the user-agent groups, with their hits, most hits first.
pub fn bot_clients(groups: &Vec<UserAgentGroup>) -> (r: Vec<BotStats>)
    requires
        client_sums_fit(groups@, ClientType::Bot),
    ensures
        bot_clients_of(r@, groups@),
        r@.len() <= groups@.len(),
        sum_of(r@, bot_entry_hits()) == kind_hits(groups@, ClientType::Bot),
{
    let t = clients_ranked(groups, ClientType::Bot);
    let mut r: Vec<BotStats> = Vec::new();
    let n = t.len();
    proof {
        assert(t@.take(0) =~= Seq::<Tally>::empty());
        assert(r@ =~= Seq::<BotStats>::empty());
    }
    for i in 0..n
        invariant
            n == t@.len(),
            r@.len() == i,
            forall|k: int| #![trigger r@[k]] 0 <= k < i ==> r@[k].client_name@ == t@[k].name@ && r@[k].hits == t@[k].hits,
            sum_of(r@, bot_entry_hits()) == sum_of(t@.take(i as int), tally_hits()),
    {
        let e = BotStats { client_name: t[i].name.clone(), hits: t[i].hits };
        let ghost prev = r@;
        r.push(e);
        proof {
            assert(r@.drop_last() =~= prev);
            lemma_sum_of_take_step(t@, tally_hits(), i as int);
        }
    }
    proof {
        assert(t@.take(n as int) =~= t@);
        assert forall|a: int, b: int| 0 <= a < b < r@.len() implies #[trigger] r@[a].hits >= #[trigger] r@[b].hits by {
            assert(t@[a].hits >= t@[b].hits);
        }
        assert forall|a: int, b: int| 0 <= a < b < r@.len() implies #[trigger] r@[a].client_name@ != #[trigger] r@[b].client_name@ by {
            assert(t@[a].name@ != t@[b].name@);
        }
        assert forall|j: int|
            #![trigger groups@[j]]
            0 <= j < groups@.len() && classification(groups@[j].user_agent@).0 == ClientType::Bot implies exists|k: int|
                0 <= k < r@.len() && #[trigger] r@[k].client_name@ == classification(groups@[j].user_agent@).1 by {
            let m = choose|m: int| 0 <= m < t@.len() && #[trigger] t@[m].name@ == classification(groups@[j].user_agent@).1;
            assert(r@[m].client_name@ == t@[m].name@);
        }
    }
    r
}

/// The hits of all RSS reader entries together.
pub fn total_rss_hits(entries: &Vec<RssClientStats>) -> (total: i64)
    requires
        sum_fits_any_order(entries@, rss_entry_hits()),
    ensures
        total == sum_of(entries@, rss_entry_hits()),
{
    let mut total: i64 = 0;
    let n = entries.len();
    proof {
        assert(entries@.take(0) =~= Seq::<RssClientStats>::empty());
    }
    for i in 0..n
        invariant
            n == entries@.len(),
            sum_fits_any_order(entries@, rss_entry_hits()),
            total == sum_of(entries@.take(i as int), rss_entry_hits()),
    {
        proof {
            lemma_sum_of_take_step(entries@, rss_entry_hits(), i as int);
            lemma_sum_of_parts(entries@, rss_entry_hits(), i + 1);
        }
        total = total + entries[i].hits;
    }
    proof {
        assert(entries@.take(n as int) =~= entries@);
    }
    total
}

/// The unique subscribers of all RSS reader entries together.
pub fn total_rss_subscribers(entries: &Vec<RssClientStats>) -> (total: i64)
    requires
        sum_fits_any_order(entries@, rss_entry_subscribers()),
    ensures
        total == sum_of(entries@, rss_entry_subscribers()),
{
    let mut total: i64 = 0;
    let n = entries.len();
    proof {
        assert(entries@.take(0) =~= Seq::<RssClientStats>::empty());
    }
    for i in 0..n
        invariant
            n == entries@.len(),
            sum_fits_any_order(entries@, rss_entry_subscribers()),
            total == sum_of(entries@.take(i as int), rss_entry_subscribers()),
    {
        proof {
            lemma_sum_of_take_step(entries@, rss_entry_subscribers(), i as int);
            lemma_sum_of_parts(entries@, rss_entry_subscribers(), i + 1);
        }
        total = total + entries[i].unique_subscribers;
    }
    proof {
        assert(entries@.take(n as int) =~= entries@);
    }
    total
}

/// The hits of all bot entries together.
pub fn total_bot_hits(entries: &Vec<BotStats>) -> (total: i64)
    requires
        sum_fits_any_order(entries@, bot_entry_hits()),
    ensures
        total == sum_of(entries@, bot_entry_hits()),
{
    let mut total: i64 = 0;
    let n = entries.len();
    proof {
        assert(entries@.take(0) =~= Seq::<BotStats>::empty());
    }
    for i in 0..n
        invariant
            n == entries@.len(),
            sum_fits_any_order(entries@, bot_entry_hits()),
            total == sum_of(entries@.take(i as int), bot_entry_hits()),
    {
        proof {
            lemma_sum_of_take_step(entries@, bot_entry_hits(), i as int);
            lemma_sum_of_parts(entries@, bot_entry_hits(), i + 1);
        }
        total = total + entries[i].hits;
    }
    proof {
        assert(entries@.take(n as int) =~= entries@);
    }
    total
}

/// The names of the clients of kind `kind` among the groups.
pub open spec fn client_names(groups: Seq<UserAgentGroup>, kind: ClientType) -> Set<Seq<char>> {
    Set::new(|name: Seq<char>| is_client_of(groups, kind, name))
}

/// A list of bot entries of the groups has one entry per bot name.
pub proof fn lemma_bot_count(r: Seq<BotStats>, groups: Seq<UserAgentGroup>)
    requires
        bot_clients_of(r, groups),
    ensures
        r.len() == client_names(groups, ClientType::Bot).len(),
        client_names(groups, ClientType::Bot).finite(),
{
    let names = r.map_values(|b: BotStats| b.client_name@);
    assert(names.no_duplicates()) by {
        assert forall|a: int, b: int| 0 <= a < names.len() && 0 <= b < names.len() && a != b implies names[a] != names[b] by {
            if a < b {
                assert(r[a].client_name@ != r[b].client_name@);
            } else {
                assert(r[b].client_name@ != r[a].client_name@);
            }
        }
    }
    names.unique_seq_to_set();
    assert forall|n: Seq<char>| names.to_set().contains(n) <==> client_names(groups, ClientType::Bot).contains(n) by {
        if names.to_set().contains(n) {
            let k = choose|k: int| 0 <= k < names.len() && names[k] == n;
            assert(r[k].client_name@ == n);
        }
        if is_client_of(groups, ClientType::Bot, n) {
            let j = choose|j: int| 0 <= j < groups.len() && classification(#[trigger] groups[j].user_agent@) == (ClientType::Bot, n);
            let k = choose|k: int| 0 <= k < r.len() && #[trigger] r[k].client_name@ == classification(groups[j].user_agent@).1;
            assert(names[k] == n);
            assert(names.contains(n));
        }
    }
    assert(names.to_set() =~= client_names(groups, ClientType::Bot));
}

/// Summing the RSS readers' hits in any order stays within `i64`.
pub open spec fn rss_hit_total_fits(groups: Seq<UserAgentGroup>) -> bool {
    forall|r: Seq<RssClientStats>| #[trigger] rss_clients_of(r, groups) ==> sum_fits_any_order(r, rss_entry_hits())
}

/// Summing the RSS readers' unique subscribers in any order stays within `i64`.
pub open spec fn rss_subscriber_total_fits(groups: Seq<UserAgentGroup>) -> bool {
    forall|r: Seq<RssClientStats>| #[trigger] rss_clients_of(r, groups) ==> sum_fits_any_order(r, rss_entry_subscribers())
}

/// Summing the bots' hits in any order stays within `i64`.
pub open spec fn bot_hit_total_fits(groups: Seq<UserAgentGroup>) -> bool {
    forall|r: Seq<BotStats>| #[trigger] bot_clients_of(r, groups) ==> sum_fits_any_order(r, bot_entry_hits())
}

} // verus!
