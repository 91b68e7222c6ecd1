//! Vulnerabilities: which severity a reply states, and what is made of it.

use vstd::prelude::*;
use crate::findings;
use crate::json;
use crate::json::JsonView;
use crate::laws::texts;
use crate::osv;
use crate::osv::{DetailView, OsvVulnView};
use crate::packages::DepView;
use crate::pieces;
use crate::text;

verus! {

broadcast use vstd::seq::group_seq_axioms;

/// An entry of a severity list that states a score: its type is `CVSS_V3` or
/// `CVSS_V4` and its score is the text `t`.
pub open spec fn states_score(e: JsonView, t: Seq<char>) -> bool {
    &&& json::field(e, "score"@) == Some(JsonView::Str(t))
    &&& json::field(e, "type"@) == Some(JsonView::Str("CVSS_V3"@)) || json::field(e, "type"@)
        == Some(JsonView::Str("CVSS_V4"@))
}

/// An entry of a severity list that states no score.
pub open spec fn states_none(e: JsonView) -> bool {
    forall|t: Seq<char>| !#[trigger] states_score(e, t)
}

proof fn no_scores(v: Seq<JsonView>)
    requires
        forall|j: int| 0 <= j < v.len() ==> states_none(#[trigger] v[j]),
    ensures
        osv::scores_in(v) == Seq::<Seq<char>>::empty(),
    decreases v.len(),
{
    if v.len() > 0 {
        assert forall|j: int| 0 <= j < v.drop_last().len() implies states_none(
            #[trigger] v.drop_last()[j],
        ) by {
            assert(v.drop_last()[j] == v[j]);
        }
        no_scores(v.drop_last());
        let e = v.last();
        assert(states_none(v[v.len() - 1]));
        reveal_strlit("CVSS_V3");
        reveal_strlit("CVSS_V4");
        match json::field(e, "score"@) {
            Some(JsonView::Str(s)) => {
                assert(!states_score(e, s));
                assert("CVSS_V3"@.len() == 7);
                assert("CVSS_V4"@.len() == 7);
                match json::field(e, "type"@) {
                    Some(JsonView::Str(w)) => {
                        assert(w != "CVSS_V3"@ && w != "CVSS_V4"@);
                    },
                    _ => {
                        assert(json::text_field(e, "type"@).len() == 0);
                    },
                }
                assert(json::text_field(e, "type"@) != "CVSS_V3"@);
            },
            _ => {},
        }
    }
}

proof fn first_score(v: Seq<JsonView>, k: int, t: Seq<char>)
    requires
        0 <= k < v.len(),
        states_score(v[k], t),
        forall|j: int| 0 <= j < k ==> states_none(#[trigger] v[j]),
    ensures
        osv::scores_in(v).len() > 0,
        osv::scores_in(v)[0] == t,
    decreases v.len(),
{
    let w = v.drop_last();
    if k == v.len() - 1 {
        assert forall|j: int| 0 <= j < w.len() implies states_none(#[trigger] w[j]) by {
            assert(w[j] == v[j]);
        }
        no_scores(w);
        assert(v.last() == v[k]);
    } else {
        assert forall|j: int| 0 <= j < k implies states_none(#[trigger] w[j]) by {
            assert(w[j] == v[j]);
        }
        assert(w[k] == v[k]);
        first_score(w, k, t);
    }
}

/// A vulnerability whose first score is a vector, not a number, is rated by the
/// parts of that vector: what a remote attacker can read and change in full is
/// critical, and so is either of them where the damage reaches beyond the
/// component; a full loss of anything is never rated below high; a partial loss
/// and no full one is medium; no loss at all is low.
pub proof fn vectors_rate_by_their_parts(
    vuln: JsonView,
    sev: Seq<JsonView>,
    k: int,
    v: Seq<char>,
    whole: Seq<Option<u32>>,
)
    requires
        json::field(vuln, "severity"@) == Some(JsonView::Arr(sev)),
        0 <= k < sev.len(),
        states_score(sev[k], v),
        forall|j: int| 0 <= j < k ==> states_none(#[trigger] sev[j]),
        text::starts_with(v, "CVSS:"@),
        whole.len() == osv::score_texts(vuln).len(),
        whole.len() > 0 ==> whole[0] is None,
    ensures
        ({
            let c = text::contains(v, "/C:H"@);
            let i = text::contains(v, "/I:H"@);
            let a = text::contains(v, "/A:H"@);
            let remote = text::contains(v, "/AV:N"@);
            let beyond = text::contains(v, "/S:C"@);
            let part = text::contains(v, "/C:L"@) || text::contains(v, "/I:L"@)
                || text::contains(v, "/A:L"@);
            let r = osv::vuln_severity(vuln, whole);
            &&& remote && c && i ==> r == "critical"@
            &&& remote && beyond && (c || i) ==> r == "critical"@
            &&& !remote && (c || i || a) ==> r == "high"@
            &&& remote && !beyond && !(c && i) && (c || i || a) ==> r == "high"@
            &&& !c && !i && a ==> r == "high"@
            &&& c || i || a ==> r == "critical"@ || r == "high"@
            &&& !c && !i && !a && part ==> r == "medium"@
            &&& !c && !i && !a && !part ==> r == "low"@
        }),
{
    first_score(sev, k, v);
}

/// A vulnerability whose first score is a number is rated by it: low below 4,
/// medium below 7, high below 9 and critical from there on.
pub proof fn numbers_rate_by_their_size(
    vuln: JsonView,
    sev: Seq<JsonView>,
    k: int,
    t: Seq<char>,
    n: u32,
    whole: Seq<Option<u32>>,
)
    requires
        json::field(vuln, "severity"@) == Some(JsonView::Arr(sev)),
        0 <= k < sev.len(),
        states_score(sev[k], t),
        forall|j: int| 0 <= j < k ==> states_none(#[trigger] sev[j]),
        whole.len() == osv::score_texts(vuln).len(),
        whole.len() > 0 ==> whole[0] == Some(n),
    ensures
        n < 4 ==> osv::vuln_severity(vuln, whole) == "low"@,
        4 <= n < 7 ==> osv::vuln_severity(vuln, whole) == "medium"@,
        7 <= n < 9 ==> osv::vuln_severity(vuln, whole) == "high"@,
        9 <= n ==> osv::vuln_severity(vuln, whole) == "critical"@,
{
    first_score(sev, k, t);
}

/// A vulnerability without a score is rated by the word that its database gives.
pub proof fn words_rate_where_no_score_does(
    vuln: JsonView,
    sev: Seq<JsonView>,
    db: JsonView,
    w: Seq<char>,
    whole: Seq<Option<u32>>,
)
    requires
        json::field(vuln, "severity"@) == Some(JsonView::Arr(sev)),
        forall|j: int| 0 <= j < sev.len() ==> states_none(#[trigger] sev[j]),
        json::field(vuln, "database_specific"@) == Some(db),
        json::field(db, "severity"@) == Some(JsonView::Str(w)),
    ensures
        ({
            let r = osv::vuln_severity(vuln, whole);
            let l = text::lowercase(w);
            &&& l == "critical"@ ==> r == "critical"@
            &&& l == "high"@ || l == "important"@ ==> r == "high"@
            &&& l == "moderate"@ || l == "medium"@ ==> r == "medium"@
            &&& l == "low"@ || l == "minor"@ ==> r == "low"@
            &&& l != "critical"@ && l != "high"@ && l != "important"@ && l != "low"@ && l
                != "minor"@ ==> r == "medium"@
        }),
{
    no_scores(sev);
    reveal_strlit("critical");
    reveal_strlit("high");
    reveal_strlit("important");
    reveal_strlit("moderate");
    reveal_strlit("medium");
    reveal_strlit("low");
    reveal_strlit("minor");
    assert("critical"@.len() == 8 && "critical"@[0] == 'c');
    assert("high"@.len() == 4 && "important"@.len() == 9);
    assert("moderate"@.len() == 8 && "moderate"@[0] == 'm');
    assert("medium"@.len() == 6 && "low"@.len() == 3 && "minor"@.len() == 5);
}

/// Where neither a score nor a word says anything, the first package that tells
/// how urgent it is decides, and without one the vulnerability is medium.
pub proof fn urgency_rates_where_nothing_else_does(
    vuln: JsonView,
    affected: Seq<JsonView>,
    k: int,
    eco: JsonView,
    u: Seq<char>,
    whole: Seq<Option<u32>>,
)
    requires
        json::field(vuln, "severity"@) is None,
        json::field(vuln, "database_specific"@) is None,
        json::field(vuln, "affected"@) == Some(JsonView::Arr(affected)),
        0 <= k < affected.len(),
        forall|j: int|
            0 <= j < k ==> json::field(#[trigger] affected[j], "ecosystem_specific"@) is None,
        json::field(affected[k], "ecosystem_specific"@) == Some(eco),
        json::field(eco, "urgency"@) == Some(JsonView::Str(u)),
    ensures
        ({
            let r = osv::vuln_severity(vuln, whole);
            let l = text::lowercase(u);
            &&& l == "low"@ || l == "minor"@ ==> r == "low"@
            &&& l == "medium"@ || l == "moderate"@ ==> r == "medium"@
            &&& l == "high"@ || l == "important"@ || l == "critical"@ || l == "grave"@ ==> r
                == "high"@
        }),
{
    reveal_strlit("low");
    reveal_strlit("minor");
    reveal_strlit("medium");
    reveal_strlit("moderate");
    reveal_strlit("high");
    reveal_strlit("important");
    reveal_strlit("critical");
    reveal_strlit("grave");
    assert("low"@.len() == 3 && "medium"@.len() == 6 && "high"@.len() == 4);
    assert("important"@.len() == 9);
    assert("minor"@.len() == 5 && "minor"@[0] == 'm');
    assert("grave"@.len() == 5 && "grave"@[0] == 'g');
    assert("moderate"@.len() == 8 && "moderate"@[0] == 'm');
    assert("critical"@.len() == 8 && "critical"@[0] == 'c');
    if osv::urgency_label(u) is Some {
        first_urgency(affected, k, 0, u);
    }
}

proof fn first_urgency(v: Seq<JsonView>, k: int, from: int, u: Seq<char>)
    requires
        0 <= from <= k < v.len(),
        forall|j: int| 0 <= j < k ==> json::field(#[trigger] v[j], "ecosystem_specific"@) is None,
        json::as_text(json::opt_field(json::field(v[k], "ecosystem_specific"@), "urgency"@))
            == Some(u),
        osv::urgency_label(u) is Some,
    ensures
        osv::urgent(v, from) == osv::urgency_label(u),
    decreases k - from,
{
    if from < k {
        assert(json::field(v[from], "ecosystem_specific"@) is None);
        first_urgency(v, k, from + 1, u);
    }
}

/// A reply that says nothing of a vulnerability's severity leaves it at medium.
pub proof fn unrated_vulnerabilities_are_medium(vuln: JsonView, whole: Seq<Option<u32>>)
    requires
        json::field(vuln, "severity"@) is None,
        json::field(vuln, "database_specific"@) is None,
        json::field(vuln, "affected"@) is None,
    ensures
        osv::vuln_severity(vuln, whole) == "medium"@,
{
}

/// The package that is asked about is asked about by its name, its ecosystem and
/// its version; a batch asks about each package in turn.
pub proof fn queries_name_the_package(v: Seq<DepView>, k: int)
    requires
        0 <= k < v.len(),
    ensures
        osv::batch_query(v) matches JsonView::Obj(e) && e.len() == 1 && e[0].0 == "queries"@ && (
        e[0].1 matches JsonView::Arr(q) && q.len() == v.len() && (q[k] matches JsonView::Obj(o)
            && o.len() == 2 && o[1] == ("version"@, JsonView::Str(v[k].version)) && o[0].0
            == "package"@ && (o[0].1 matches JsonView::Obj(p) && p.len() == 2 && p[0] == (
            "name"@,
            JsonView::Str(v[k].name),
        ) && p[1] == ("ecosystem"@, JsonView::Str(v[k].ecosystem))))),
{
}

/// The ids that a reply lists belong to the packages in the order in which they
/// were asked about: an id of the k-th result is one of the k-th package.
pub proof fn ids_belong_to_their_package(
    start: int,
    results: Seq<JsonView>,
    r: JsonView,
    vulns: Seq<JsonView>,
)
    requires
        json::field(r, "vulns"@) == Some(JsonView::Arr(vulns)) || (vulns.len() == 0 && json::field(
            r,
            "vulns"@,
        ) is None),
    ensures
        osv::ids_in(start, results.push(r)) == osv::ids_in(start, results) + osv::ids_at(
            start + results.len(),
            vulns,
        ),
        osv::ids_in(start, Seq::empty()).len() == 0,
{
    assert(results.push(r).drop_last() =~= results);
}

/// Each entry with an id gives that id for the package, in order.
pub proof fn entries_give_their_id(position: int, v: Seq<JsonView>, e: JsonView, id: Seq<char>)
    ensures
        json::field(e, "id"@) == Some(JsonView::Str(id)) ==> osv::ids_at(position, v.push(e))
            == osv::ids_at(position, v).push((position, id)),
        json::field(e, "id"@) is None ==> osv::ids_at(position, v.push(e)) == osv::ids_at(
            position,
            v,
        ),
        osv::ids_at(position, Seq::empty()).len() == 0,
{
    assert(v.push(e).drop_last() =~= v);
}

/// Each id is fetched once: the distinct ids hold every id of the hits, none of
/// them twice and nothing else.
pub proof fn each_id_is_fetched_once(h: Seq<(int, Seq<char>)>)
    ensures
        forall|i: int, j: int|
            0 <= i < j < osv::distinct_ids(h).len() ==> #[trigger] osv::distinct_ids(h)[i]
                != #[trigger] osv::distinct_ids(h)[j],
        forall|k: int|
            0 <= k < h.len() ==> osv::distinct_ids(h).contains((#[trigger] h[k]).1),
        forall|i: int|
            0 <= i < osv::distinct_ids(h).len() ==> is_hit(h, #[trigger] osv::distinct_ids(h)[i]),
    decreases h.len(),
{
    if h.len() > 0 {
        let g = h.drop_last();
        each_id_is_fetched_once(g);
        let before = osv::distinct_ids(g);
        let all = osv::distinct_ids(h);
        let x = h.last().1;
        assert forall|k: int| 0 <= k < h.len() implies all.contains((#[trigger] h[k]).1) by {
            if k < g.len() {
                assert(g[k] == h[k]);
                let m = choose|m: int| 0 <= m < before.len() && before[m] == h[k].1;
                assert(all[m] == h[k].1);
            } else if before.contains(x) {
                assert(all == before);
            } else {
                assert(all[before.len() as int] == x);
            }
        }
        assert forall|i: int| 0 <= i < all.len() implies is_hit(h, #[trigger] all[i]) by {
            if i < before.len() {
                assert(is_hit(g, before[i]));
                let m = choose|m: int| 0 <= m < g.len() && (#[trigger] g[m]).1 == before[i];
                assert(h[m] == g[m]);
            } else {
                assert(h[h.len() - 1].1 == all[i]);
            }
        }
        assert forall|i: int, j: int| 0 <= i < j < all.len() implies #[trigger] all[i]
            != #[trigger] all[j] by {
            if j == before.len() {
                assert(before[i] == all[i]);
            }
        }
    }
}

pub open spec fn is_hit(h: Seq<(int, Seq<char>)>, id: Seq<char>) -> bool {
    exists|k: int| 0 <= k < h.len() && (#[trigger] h[k]).1 == id
}

/// The versions that fix a vulnerability are those that its ranges name: each is
/// listed, and nothing else is.
pub proof fn fixes_are_those_that_are_named(vuln: JsonView, affected: Seq<JsonView>, f: Seq<char>)
    requires
        json::field(vuln, "affected"@) == Some(JsonView::Arr(affected)),
    ensures
        osv::fixes_of(vuln).contains(f) <==> fixed_in(affected, f),
{
    fixes_listed(affected, f);
    repeats_dropped(osv::fixes_in_affected(affected), f);
}

/// One of the packages has a range with an event that names the version.
pub open spec fn fixed_in(affected: Seq<JsonView>, f: Seq<char>) -> bool {
    exists|a: int| 0 <= a < affected.len() && range_fixed(
        json::items(json::field(#[trigger] affected[a], "ranges"@)),
        f,
    )
}

pub open spec fn range_fixed(ranges: Seq<JsonView>, f: Seq<char>) -> bool {
    exists|r: int| 0 <= r < ranges.len() && event_fixed(
        json::items(json::field(#[trigger] ranges[r], "events"@)),
        f,
    )
}

pub open spec fn event_fixed(events: Seq<JsonView>, f: Seq<char>) -> bool {
    exists|e: int|
        0 <= e < events.len() && json::field(#[trigger] events[e], "fixed"@) == Some(
            JsonView::Str(f),
        )
}

proof fn concat_contains(a: Seq<Seq<char>>, b: Seq<Seq<char>>, f: Seq<char>)
    ensures
        (a + b).contains(f) <==> a.contains(f) || b.contains(f),
{
    let c = a + b;
    if a.contains(f) {
        let k = choose|k: int| 0 <= k < a.len() && a[k] == f;
        assert(c[k] == f);
    }
    if b.contains(f) {
        let k = choose|k: int| 0 <= k < b.len() && b[k] == f;
        assert(c[a.len() + k] == f);
    }
    if c.contains(f) {
        let k = choose|k: int| 0 <= k < c.len() && c[k] == f;
        if k < a.len() {
            assert(a[k] == f);
        } else {
            assert(b[k - a.len()] == f);
        }
    }
}

proof fn fixes_listed(v: Seq<JsonView>, f: Seq<char>)
    ensures
        osv::fixes_in_affected(v).contains(f) <==> fixed_in(v, f),
    decreases v.len(),
{
    if v.len() > 0 {
        let w = v.drop_last();
        fixes_listed(w, f);
        let r = json::items(json::field(v.last(), "ranges"@));
        ranges_listed(r, f);
        concat_contains(osv::fixes_in_affected(w), osv::fixes_in_ranges(r), f);
        if fixed_in(w, f) {
            let a = choose|a: int| 0 <= a < w.len() && range_fixed(
                json::items(json::field(#[trigger] w[a], "ranges"@)),
                f,
            );
            assert(v[a] == w[a]);
        }
        if range_fixed(r, f) {
            assert(v[v.len() - 1] == v.last());
        }
        if fixed_in(v, f) {
            let a = choose|a: int| 0 <= a < v.len() && range_fixed(
                json::items(json::field(#[trigger] v[a], "ranges"@)),
                f,
            );
            if a < w.len() {
                assert(w[a] == v[a]);
            }
        }
    }
}

proof fn ranges_listed(v: Seq<JsonView>, f: Seq<char>)
    ensures
        osv::fixes_in_ranges(v).contains(f) <==> range_fixed(v, f),
    decreases v.len(),
{
    if v.len() > 0 {
        let w = v.drop_last();
        ranges_listed(w, f);
        let r = json::items(json::field(v.last(), "events"@));
        events_listed(r, f);
        concat_contains(osv::fixes_in_ranges(w), osv::fixes_in_events(r), f);
        if range_fixed(w, f) {
            let a = choose|a: int| 0 <= a < w.len() && event_fixed(
                json::items(json::field(#[trigger] w[a], "events"@)),
                f,
            );
            assert(v[a] == w[a]);
        }
        if event_fixed(r, f) {
            assert(v[v.len() - 1] == v.last());
        }
        if range_fixed(v, f) {
            let a = choose|a: int| 0 <= a < v.len() && event_fixed(
                json::items(json::field(#[trigger] v[a], "events"@)),
                f,
            );
            if a < w.len() {
                assert(w[a] == v[a]);
            }
        }
    }
}

proof fn events_listed(v: Seq<JsonView>, f: Seq<char>)
    ensures
        osv::fixes_in_events(v).contains(f) <==> event_fixed(v, f),
    decreases v.len(),
{
    if v.len() > 0 {
        let w = v.drop_last();
        events_listed(w, f);
        let before = osv::fixes_in_events(w);
        let all = osv::fixes_in_events(v);
        if event_fixed(w, f) {
            let a = choose|a: int|
                0 <= a < w.len() && json::field(#[trigger] w[a], "fixed"@) == Some(
                    JsonView::Str(f),
                );
            assert(v[a] == w[a]);
            let m = choose|m: int| 0 <= m < before.len() && before[m] == f;
            assert(all[m] == f);
        }
        if event_fixed(v, f) {
            let a = choose|a: int|
                0 <= a < v.len() && json::field(#[trigger] v[a], "fixed"@) == Some(
                    JsonView::Str(f),
                );
            if a < w.len() {
                assert(w[a] == v[a]);
            } else {
                assert(all[before.len() as int] == f);
            }
        }
        if all.contains(f) {
            let m = choose|m: int| 0 <= m < all.len() && all[m] == f;
            if m < before.len() {
                assert(before[m] == f);
            } else {
                assert(json::field(v[v.len() - 1], "fixed"@) == Some(JsonView::Str(f)));
            }
        }
    }
}

proof fn repeats_dropped(v: Seq<Seq<char>>, f: Seq<char>)
    ensures
        osv::without_repeats(v).contains(f) <==> v.contains(f),
        v.len() > 0 ==> osv::without_repeats(v).len() > 0 && osv::without_repeats(v).last()
            == v.last(),
    decreases v.len(),
{
    if v.len() > 0 {
        let w = v.drop_last();
        repeats_dropped(w, f);
        let before = osv::without_repeats(w);
        let all = osv::without_repeats(v);
        if v.len() > 1 && v[v.len() - 2] == v.last() {
            assert(w.last() == v.last());
            if v.contains(f) {
                let k = choose|k: int| 0 <= k < v.len() && v[k] == f;
                if k < w.len() {
                    assert(w[k] == f);
                } else {
                    assert(w[w.len() - 1] == f);
                }
            }
            if w.contains(f) {
                let k = choose|k: int| 0 <= k < w.len() && w[k] == f;
                assert(v[k] == f);
            }
        } else {
            if v.contains(f) {
                let k = choose|k: int| 0 <= k < v.len() && v[k] == f;
                if k < w.len() {
                    assert(w[k] == f);
                    let m = choose|m: int| 0 <= m < before.len() && before[m] == f;
                    assert(all[m] == f);
                } else {
                    assert(all[before.len() as int] == f);
                }
            }
            if all.contains(f) {
                let m = choose|m: int| 0 <= m < all.len() && all[m] == f;
                if m < before.len() {
                    assert(before[m] == f);
                    let k = choose|k: int| 0 <= k < w.len() && w[k] == f;
                    assert(v[k] == f);
                } else {
                    assert(v[v.len() - 1] == f);
                }
            }
        }
    }
}

/// The names of a vulnerability: its aliases, and those upstream that are not
/// among them, as texts, and nothing else.
pub proof fn upstream_names_are_added_once(names: Seq<Seq<char>>, v: Seq<JsonView>, f: Seq<char>)
    ensures
        osv::with_upstream(names, v).contains(f) <==> names.contains(f) || v.contains(
            JsonView::Str(f),
        ),
        osv::with_upstream(names, v).len() >= names.len(),
        osv::with_upstream(names, v).take(names.len() as int) == names,
    decreases v.len(),
{
    if v.len() == 0 {
        assert(names.take(names.len() as int) =~= names);
    } else {
        let w = v.drop_last();
        upstream_names_are_added_once(names, w, f);
        let before = osv::with_upstream(names, w);
        let all = osv::with_upstream(names, v);
        assert(v =~= w.push(v.last()));
        if v.contains(JsonView::Str(f)) {
            let k = choose|k: int| 0 <= k < v.len() && v[k] == JsonView::Str(f);
            if k < w.len() {
                assert(w[k] == JsonView::Str(f));
            }
        }
        if w.contains(JsonView::Str(f)) {
            let k = choose|k: int| 0 <= k < w.len() && w[k] == JsonView::Str(f);
            assert(v[k] == JsonView::Str(f));
        }
        match v.last() {
            JsonView::Str(s) if !before.contains(s) => {
                if before.contains(f) {
                    let m = choose|m: int| 0 <= m < before.len() && before[m] == f;
                    assert(all[m] == f);
                }
                if s == f {
                    assert(all[before.len() as int] == f);
                    assert(v[v.len() - 1] == JsonView::Str(f));
                }
                if all.contains(f) {
                    let m = choose|m: int| 0 <= m < all.len() && all[m] == f;
                    if m < before.len() {
                        assert(before[m] == f);
                    }
                }
                assert(all.take(names.len() as int) =~= before.take(names.len() as int));
            },
            _ => {},
        }
    }
}

/// A vulnerability is known by the first of its aliases that is a CVE number, and
/// by its own id where none is.
pub proof fn cve_numbers_come_first(aliases: Seq<Seq<char>>, id: Seq<char>, k: int)
    ensures
        0 <= k < aliases.len() && text::starts_with(aliases[k], "CVE-"@) && (forall|j: int|
            0 <= j < k ==> !text::starts_with(#[trigger] aliases[j], "CVE-"@)) ==> osv::cve_from(
            aliases,
            id,
            0,
        ) == aliases[k],
        (forall|j: int|
            0 <= j < aliases.len() ==> !text::starts_with(#[trigger] aliases[j], "CVE-"@))
            ==> osv::cve_from(aliases, id, 0) == id,
{
    if 0 <= k < aliases.len() && text::starts_with(aliases[k], "CVE-"@) && (forall|j: int|
        0 <= j < k ==> !text::starts_with(#[trigger] aliases[j], "CVE-"@)) {
        first_cve(aliases, id, k, 0);
    }
    if forall|j: int|
        0 <= j < aliases.len() ==> !text::starts_with(#[trigger] aliases[j], "CVE-"@) {
        no_cve(aliases, id, 0);
    }
}

proof fn first_cve(aliases: Seq<Seq<char>>, id: Seq<char>, k: int, from: int)
    requires
        0 <= from <= k < aliases.len(),
        text::starts_with(aliases[k], "CVE-"@),
        forall|j: int| 0 <= j < k ==> !text::starts_with(#[trigger] aliases[j], "CVE-"@),
    ensures
        osv::cve_from(aliases, id, from) == aliases[k],
    decreases k - from,
{
    if from < k {
        first_cve(aliases, id, k, from + 1);
    }
}

proof fn no_cve(aliases: Seq<Seq<char>>, id: Seq<char>, from: int)
    requires
        0 <= from,
        forall|j: int|
            0 <= j < aliases.len() ==> !text::starts_with(#[trigger] aliases[j], "CVE-"@),
    ensures
        osv::cve_from(aliases, id, from) == id,
    decreases aliases.len() - from,
{
    if from < aliases.len() {
        no_cve(aliases, id, from + 1);
    }
}

/// A vulnerability that is found in a package carries that package: its name,
/// version and ecosystem, where it was listed and through whom it is needed; and
/// it says what the reply says of it.
pub proof fn found_vulnerabilities_carry_their_package(
    d: DepView,
    asked: Seq<char>,
    vuln: JsonView,
    whole: Seq<Option<u32>>,
    id: Seq<char>,
    summary: Seq<char>,
    details: Seq<char>,
)
    requires
        json::field(vuln, "summary"@) == Some(JsonView::Str(summary)),
        summary.len() > 0,
        json::field(vuln, "details"@) == Some(JsonView::Str(details)),
    ensures
        ({
            let v = osv::vuln_of(d, asked, vuln, whole);
            &&& v.pkg_name == d.name
            &&& v.pkg_version == d.version
            &&& v.pkg_ecosystem == d.ecosystem
            &&& v.is_direct == d.is_direct
            &&& v.via == d.via
            &&& v.manifest == d.manifest
            &&& json::field(vuln, "id"@) == Some(JsonView::Str(id)) ==> v.id == id
            &&& json::field(vuln, "id"@) is None ==> v.id == asked
            &&& v.summary == summary
            &&& v.details == details
        }),
{
}

/// Without a summary, the first sentence of the details stands in for it, cut to
/// a length of 120.
pub proof fn details_stand_in_for_a_summary(vuln: JsonView, a: Seq<char>, b: Seq<char>)
    requires
        json::field(vuln, "summary"@) is None,
        json::field(vuln, "details"@) == Some(JsonView::Str(a + seq!['.', ' '] + b)),
        texts::lacks(a, '.'),
    ensures
        a.len() <= 120 ==> osv::summary_of(vuln) == a,
        a.len() > 120 ==> osv::summary_of(vuln) == a.take(120),
{
    reveal_strlit(". ");
    assert(". "@ =~= seq!['.', ' ']);
    texts::parts_are_found_where_they_stand(a, ". "@, b);
    let d = a + ". "@ + b;
    assert(d.take(a.len() as int) =~= a);
}

/// Each hit whose details were fetched becomes a vulnerability of its package, in
/// the order of the hits.
pub proof fn hits_become_vulnerabilities(
    d: Seq<DepView>,
    h: Seq<(int, Seq<char>)>,
    v: Seq<DetailView>,
    p: int,
    id: Seq<char>,
    k: int,
)
    requires
        0 <= p < d.len(),
        0 <= k < v.len(),
        v[k].id == id,
        forall|j: int| 0 <= j < k ==> (#[trigger] v[j]).id != id,
    ensures
        ({
            let r = osv::assembled(d, h.push((p, id)), v);
            &&& r.len() == osv::assembled(d, h, v).len() + 1
            &&& r.drop_last() == osv::assembled(d, h, v)
            &&& r.last().pkg_name == d[p].name
            &&& r.last().pkg_version == d[p].version
            &&& r.last().severity == osv::vuln_severity(v[k].vuln, v[k].whole)
            &&& r.last().fix_versions == osv::fixes_of(v[k].vuln)
        }),
        osv::assembled(d, Seq::empty(), v).len() == 0,
{
    assert(h.push((p, id)).drop_last() =~= h);
    first_detail(v, id, k, 0);
    let before = osv::assembled(d, h, v);
    let r = osv::assembled(d, h.push((p, id)), v);
    assert(r.drop_last() =~= before);
}

proof fn first_detail(v: Seq<DetailView>, id: Seq<char>, k: int, from: int)
    requires
        0 <= from <= k < v.len(),
        v[k].id == id,
        forall|j: int| 0 <= j < k ==> (#[trigger] v[j]).id != id,
    ensures
        osv::detail_of(v, id, from) == Some(k),
    decreases k - from,
{
    if from < k {
        first_detail(v, id, k, from + 1);
    }
}

/// The agent is told of each vulnerability: its number, its severity, the package
/// and its version, the summary and the versions that fix it.
pub proof fn listed_vulnerabilities_say_what_is_known(number: nat, v: OsvVulnView, container: bool)
    ensures
        ({
            let t = osv::vuln_text(number, v, container);
            &&& text::contains(t, osv::cve_from(v.aliases, v.id, 0))
            &&& text::contains(t, text::uppercase(v.severity))
            &&& text::contains(t, v.pkg_name + "@"@ + v.pkg_version)
            &&& text::contains(t, v.summary)
            &&& container ==> text::contains(t, v.pkg_ecosystem)
            &&& v.fix_versions.len() == 0 ==> text::contains(t, "no fix yet"@)
            &&& v.fix_versions.len() > 0 ==> text::contains(t, v.fix_versions[0])
            &&& !container && v.via.len() == 0 ==> text::contains(t, "direct dependency"@)
            &&& !container && v.via.len() > 0 ==> text::contains(t, v.via[0])
        }),
{
    let cve = osv::cve_from(v.aliases, v.id, 0);
    let up = text::uppercase(v.severity);
    let kind = if container {
        " ("@ + v.pkg_ecosystem + ")"@
    } else if v.via.len() == 0 {
        " | direct dependency"@
    } else {
        " | transitive via: "@ + pieces::join(v.via, " -> "@)
    };
    let name = v.pkg_name + "@"@ + v.pkg_version;
    let fix = osv::fix_text(v);
    let e = Seq::<char>::empty();
    let t0 = "  ["@;
    let t1 = t0 + crate::digits::dec(number);
    let t2 = t1 + "] "@;
    let t3 = t2 + cve;
    let t4 = t3 + " | "@;
    let t5 = t4 + up;
    let t6 = t5 + " | "@;
    let t7 = t6 + v.pkg_name;
    let t8 = t7 + "@"@;
    let t9 = t8 + v.pkg_version;
    let t10 = t9 + kind;
    let t11 = t10 + "\n       Summary: "@;
    let t12 = t11 + v.summary;
    let t13 = t12 + "\n       Fix: "@;
    let t14 = t13 + fix;
    assert(text::contains(t14, cve)) by {
        texts::texts_hold_themselves(cve);
        texts::longer_texts_hold_it(t2, cve, cve);
        texts::longer_texts_hold_it(t3, " | "@, cve);
        texts::longer_texts_hold_it(t4, up, cve);
        texts::longer_texts_hold_it(t5, " | "@, cve);
        texts::longer_texts_hold_it(t6, v.pkg_name, cve);
        texts::longer_texts_hold_it(t7, "@"@, cve);
        texts::longer_texts_hold_it(t8, v.pkg_version, cve);
        texts::longer_texts_hold_it(t9, kind, cve);
        texts::longer_texts_hold_it(t10, "\n       Summary: "@, cve);
        texts::longer_texts_hold_it(t11, v.summary, cve);
        texts::longer_texts_hold_it(t12, "\n       Fix: "@, cve);
        texts::longer_texts_hold_it(t13, fix, cve);
    }
    assert(text::contains(t14, up)) by {
        texts::texts_hold_themselves(up);
        texts::longer_texts_hold_it(t4, up, up);
        texts::longer_texts_hold_it(t5, " | "@, up);
        texts::longer_texts_hold_it(t6, v.pkg_name, up);
        texts::longer_texts_hold_it(t7, "@"@, up);
        texts::longer_texts_hold_it(t8, v.pkg_version, up);
        texts::longer_texts_hold_it(t9, kind, up);
        texts::longer_texts_hold_it(t10, "\n       Summary: "@, up);
        texts::longer_texts_hold_it(t11, v.summary, up);
        texts::longer_texts_hold_it(t12, "\n       Fix: "@, up);
        texts::longer_texts_hold_it(t13, fix, up);
    }
    assert(text::contains(t14, v.summary)) by {
        texts::texts_hold_themselves(v.summary);
        texts::longer_texts_hold_it(t11, v.summary, v.summary);
        texts::longer_texts_hold_it(t12, "\n       Fix: "@, v.summary);
        texts::longer_texts_hold_it(t13, fix, v.summary);
    }
    assert(text::contains(t14, fix)) by {
        texts::texts_hold_themselves(fix);
        texts::longer_texts_hold_it(t13, fix, fix);
    }
    assert(t9 =~= t6 + name);
    assert(text::contains(t14, name)) by {
        texts::texts_hold_themselves(name);
        texts::longer_texts_hold_it(t6, name, name);
        texts::longer_texts_hold_it(t9, kind, name);
        texts::longer_texts_hold_it(t10, "\n       Summary: "@, name);
        texts::longer_texts_hold_it(t11, v.summary, name);
        texts::longer_texts_hold_it(t12, "\n       Fix: "@, name);
        texts::longer_texts_hold_it(t13, fix, name);
    }
    if v.fix_versions.len() > 0 {
        texts::joined_texts_hold_each(v.fix_versions, ", "@, 0);
        texts::longer_texts_hold_it(t13, fix, v.fix_versions[0]);
    }
    let said = if container {
        v.pkg_ecosystem
    } else if v.via.len() == 0 {
        "direct dependency"@
    } else {
        v.via[0]
    };
    assert(text::contains(kind, said)) by {
        if container {
            texts::wholes_hold_their_parts(" ("@, v.pkg_ecosystem, ")"@);
        } else if v.via.len() == 0 {
            reveal_strlit(" | direct dependency");
            reveal_strlit("direct dependency");
            assert(" | direct dependency"@ =~= seq![' ', '|', ' '] + "direct dependency"@ + e);
            texts::wholes_hold_their_parts(seq![' ', '|', ' '], "direct dependency"@, e);
        } else {
            let j = pieces::join(v.via, " -> "@);
            texts::joined_texts_hold_each(v.via, " -> "@, 0);
            texts::longer_texts_hold_it(" | transitive via: "@, j, v.via[0]);
        }
    }
    texts::longer_texts_hold_it(t9, kind, said);
    texts::longer_texts_hold_it(t10, "\n       Summary: "@, said);
    texts::longer_texts_hold_it(t11, v.summary, said);
    texts::longer_texts_hold_it(t12, "\n       Fix: "@, said);
    texts::longer_texts_hold_it(t13, fix, said);
}

/// The list that the agent is given holds every vulnerability, numbered from one.
pub proof fn every_vulnerability_is_listed(v: Seq<OsvVulnView>, container: bool, k: int)
    requires
        0 <= k < v.len(),
    ensures
        text::contains(
            osv::vuln_list(v, container),
            osv::vuln_text((k + 1) as nat, v[k], container),
        ),
{
    let w = v.map(|i: int, x: OsvVulnView| osv::vuln_text((i + 1) as nat, x, container));
    texts::joined_texts_hold_each(w, "\n\n"@, k);
}

/// A vulnerability that no agent has judged is reported as it is known, as one
/// that may be reached.
pub proof fn unjudged_vulnerabilities_are_reported(v: OsvVulnView, described: nat)
    ensures
        ({
            let f = osv::unanalyzed(v, described);
            &&& f.severity == v.severity
            &&& f.title == v.summary
            &&& f.cve_id == osv::cve_from(v.aliases, v.id, 0)
            &&& f.package == v.pkg_name
            &&& f.version == v.pkg_version
            &&& f.is_direct == v.is_direct
            &&& f.via == v.via
            &&& v.fix_versions.len() > 0 ==> f.fix_version == v.fix_versions[0]
            &&& v.fix_versions.len() == 0 ==> f.fix_version.len() == 0
            &&& f.reachable
            &&& f.reachability_confidence == "not_analyzed"@
            &&& v.details.len() <= described ==> f.description == v.details
            &&& f.ai_reasoning.len() == 0
        }),
{
}

/// A finding that the agent put in the plain form keeps its severity, title and
/// description.
pub proof fn plain_findings_are_kept(f: findings::SastFindingView)
    ensures
        ({
            let r = osv::from_plain(f);
            &&& r.severity == f.severity
            &&& r.title == f.title
            &&& r.description == f.description
            &&& r.reachable
            &&& r.reachability_confidence == "confirmed_reachable"@
        }),
{
}

} // verus!
