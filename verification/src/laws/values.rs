//! Values: what is read out of numbers, of JSON and of links, and what names are
//! made of.

use vstd::prelude::*;
use crate::analyzer_registry;
use crate::analyzer_registry::ScanType;
use crate::bridge;
use crate::bridge::Shell;
use crate::cli;
use crate::digits;
use crate::graph;
use crate::iac;
use crate::iac::IacFileView;
use crate::json;
use crate::json::JsonView;
use crate::laws::infra;
use crate::laws::texts;
use crate::laws::texts::lacks;
use crate::markdown;
use crate::order;
use crate::packages::DepView;
use crate::pieces;
use crate::pulse::ItemView;
use crate::scan;
use crate::text;

verus! {

broadcast use vstd::seq::group_seq_axioms;

// ---- numbers --------------------------------------------------------------------------------

/// A number is read back from its digits, with or without a plus sign, where it is
/// not too large; a text that holds anything else is no number.
pub proof fn numbers_are_read_back(n: nat, max: nat, s: Seq<char>, i: int)
    ensures
        n <= max ==> digits::parse_nat(digits::dec(n), max) == Some(n) && digits::parse_digits(
            digits::dec(n),
            max,
        ) == Some(n) && digits::parse_nat(seq!['+'] + digits::dec(n), max) == Some(n),
        n > max ==> digits::parse_nat(digits::dec(n), max) is None && digits::parse_digits(
            digits::dec(n),
            max,
        ) is None,
        s.len() == 0 ==> digits::parse_nat(s, max) is None && digits::parse_digits(s, max) is None,
        0 < i < s.len() && !text::is_digit(s[i]) ==> digits::parse_nat(s, max) is None
            && digits::parse_digits(s, max) is None,
{
    let d = digits::dec(n);
    digits::dec_reads_back(n);
    assert(text::is_digit(d[0]));
    assert((seq!['+'] + d).skip(1) =~= d);
    if 0 < i < s.len() && !text::is_digit(s[i]) {
        assert(s.skip(1)[i - 1] == s[i]);
    }
}

/// So are numbers of either sign.
pub proof fn signed_numbers_are_read_back(n: i64)
    ensures
        digits::parse_i64(digits::dec_int(n as int)) == Some(n as int),
        json::as_int(Some(JsonView::Num(digits::dec_int(n as int)))) == Some(n as int),
{
    let m: nat = if n < 0 {
        (-(n as int)) as nat
    } else {
        n as nat
    };
    let d = digits::dec(m);
    digits::dec_reads_back(m);
    assert(text::is_digit(d[0]));
    assert((seq!['-'] + d).skip(1) =~= d);
    numbers_are_read_back(m, 0x8000_0000_0000_0000, d, 0);
    if n >= 0 {
        numbers_are_read_back(m, i64::MAX as nat, d, 0);
    }
}

/// A padded text is as wide as it should be, and still holds the text at its end.
pub proof fn padding_keeps_the_text(s: Seq<char>, c: char, w: nat, i: int)
    ensures
        ({
            let l = digits::pad_left(s, c, w);
            let r = digits::pad_right(s, c, w);
            &&& s.len() <= w ==> l.len() == w && r.len() == w
            &&& s.len() > w ==> l == s && r == s
            &&& l.skip(l.len() - s.len()) == s
            &&& r.take(s.len() as int) == s
            &&& 0 <= i < l.len() - s.len() ==> l[i] == c
            &&& s.len() <= i < r.len() ==> r[i] == c
        }),
{
    let l = digits::pad_left(s, c, w);
    let r = digits::pad_right(s, c, w);
    assert(l.skip(l.len() - s.len()) =~= s);
    assert(r.take(s.len() as int) =~= s);
}

// ---- JSON -----------------------------------------------------------------------------------

/// A field of an object is the first under its name, and nothing where the name
/// does not occur; what is no object has no fields.
pub proof fn fields_are_found_by_name(f: Seq<(Seq<char>, JsonView)>, key: Seq<char>, k: int)
    ensures
        0 <= k < f.len() && f[k].0 == key && (forall|j: int|
            0 <= j < k ==> (#[trigger] f[j]).0 != key) ==> json::field(JsonView::Obj(f), key) == Some(
            f[k].1,
        ),
        (forall|j: int| 0 <= j < f.len() ==> (#[trigger] f[j]).0 != key) ==> json::field(
            JsonView::Obj(f),
            key,
        ) is None,
        json::field(JsonView::Null, key) is None,
        json::field(JsonView::Str(key), key) is None,
        json::opt_field(None, key) is None,
        json::opt_field(Some(JsonView::Obj(f)), key) == json::field(JsonView::Obj(f), key),
    decreases f.len(),
{
    if f.len() > 0 && f[0].0 != key {
        let g = f.skip(1);
        fields_are_found_by_name(g, key, k - 1);
        if 0 < k < f.len() && f[k].0 == key && (forall|j: int|
            0 <= j < k ==> (#[trigger] f[j]).0 != key) {
            assert(g[k - 1] == f[k]);
            assert forall|j: int| 0 <= j < k - 1 implies (#[trigger] g[j]).0 != key by {
                assert(g[j] == f[j + 1]);
            }
        }
        if forall|j: int| 0 <= j < f.len() ==> (#[trigger] f[j]).0 != key {
            assert forall|j: int| 0 <= j < g.len() implies (#[trigger] g[j]).0 != key by {
                assert(g[j] == f[j + 1]);
            }
        }
    }
}

/// A text is read out of a string alone, the items out of an array alone, and the
/// entries out of an object alone.
pub proof fn values_are_read_as_what_they_are(
    t: Seq<char>,
    v: Seq<JsonView>,
    f: Seq<(Seq<char>, JsonView)>,
    b: bool,
)
    ensures
        json::as_text(Some(JsonView::Str(t))) == Some(t),
        json::as_text(Some(JsonView::Num(t))) is None,
        json::as_text(Some(JsonView::Bool(b))) is None,
        json::as_text(None) is None,
        json::text_or_empty(Some(JsonView::Str(t))) == t,
        json::text_or_empty(Some(JsonView::Num(t))).len() == 0,
        json::items(Some(JsonView::Arr(v))) == v,
        json::items(Some(JsonView::Obj(f))).len() == 0,
        json::entries(Some(JsonView::Obj(f))) == f,
        json::entries(Some(JsonView::Arr(v))).len() == 0,
        json::as_int(Some(JsonView::Str(t))) is None,
{
}

/// What is written keeps every item and every name, in their order.
pub proof fn written_values_keep_their_parts(
    v: Seq<JsonView>,
    f: Seq<(Seq<char>, JsonView)>,
    k: int,
)
    ensures
        json::normal_items(v).len() == v.len(),
        0 <= k < v.len() ==> json::normal_items(v)[k] == json::normal(v[k]),
        json::normal_fields(f).len() == f.len(),
        0 <= k < f.len() ==> json::normal_fields(f)[k] == (f[k].0, json::normal(f[k].1)),
    decreases v.len() + f.len(),
{
    if v.len() > 0 {
        written_values_keep_their_parts(v.drop_last(), f, k);
    }
    if f.len() > 0 {
        written_values_keep_their_parts(v, f.drop_last(), k);
    }
}

// ---- links ----------------------------------------------------------------------------------

proof fn ends_at(s: Seq<char>, i: int, k: int)
    requires
        0 <= i <= k <= s.len(),
        forall|j: int| i <= j < k ==> !markdown::ends_url(#[trigger] s[j]),
        k < s.len() ==> markdown::ends_url(s[k]),
    ensures
        markdown::url_end(s, i) == k,
    decreases k - i,
{
    if i < k {
        ends_at(s, i + 1, k);
    }
}

proof fn no_scheme(s: Seq<char>, i: int, k: int)
    requires
        0 <= i <= k <= s.len(),
        forall|j: int| i <= j < k ==> #[trigger] s[j] != 'h',
    ensures
        markdown::urls_from(s, i) == markdown::urls_from(s, k),
    decreases k - i,
{
    if i < k {
        reveal_strlit("http://");
        reveal_strlit("https://");
        assert(!markdown::scheme_at(s, i)) by {
            if text::occurs_at(s, "http://"@, i) {
                assert(s.subrange(i, i + 7)[0] == 'h');
            }
            if text::occurs_at(s, "https://"@, i) {
                assert(s.subrange(i, i + 8)[0] == 'h');
            }
        }
        no_scheme(s, i + 1, k);
    }
}

/// A bare link in a text is found from its scheme to the blank that ends it,
/// without a full stop behind it.
pub proof fn bare_links_are_found(a: Seq<char>, u: Seq<char>, c: char, b: Seq<char>)
    requires
        lacks(a, 'h'),
        lacks(b, 'h'),
        text::starts_with(u, "https://"@),
        text::byte_len(u) > 8,
        forall|j: int| 0 <= j < u.len() ==> !markdown::ends_url(#[trigger] u[j]),
        !markdown::is_trailing(u.last()),
        markdown::ends_url(c),
        c != 'h',
    ensures
        markdown::urls_from(a + u + seq![c] + b, 0) == seq![u],
        markdown::urls_from(a + (u + seq!['.']) + seq![c] + b, 0) == seq![u],
        markdown::urls_from(a, 0).len() == 0,
{
    let e = Seq::<char>::empty();
    no_scheme(a, 0, a.len() as int);
    reveal_strlit("https://");
    one_link(a, u, u, c, b);
    let d = u + seq!['.'];
    assert(d.drop_last() =~= u);
    assert(d.last() == '.');
    reveal_with_fuel(markdown::strip_trailing, 2);
    assert(d.subrange(0, 8) =~= u.subrange(0, 8));
    assert forall|j: int| 0 <= j < d.len() implies !markdown::ends_url(#[trigger] d[j]) by {
        if j < u.len() {
            assert(d[j] == u[j]);
        }
    }
    one_link(a, d, u, c, b);
}

proof fn one_link(a: Seq<char>, d: Seq<char>, u: Seq<char>, c: char, b: Seq<char>)
    requires
        lacks(a, 'h'),
        lacks(b, 'h'),
        text::starts_with(d, "https://"@),
        text::byte_len(u) > 8,
        markdown::strip_trailing(d) == u,
        forall|j: int| 0 <= j < d.len() ==> !markdown::ends_url(#[trigger] d[j]),
        markdown::ends_url(c),
        c != 'h',
    ensures
        markdown::urls_from(a + d + seq![c] + b, 0) == seq![u],
{
    reveal_strlit("https://");
    let s = a + d + seq![c] + b;
    let i = a.len() as int;
    let k = i + d.len();
    no_scheme(s, 0, i);
    assert(s.subrange(i, i + 8) =~= d.subrange(0, 8));
    assert(text::occurs_at(s, "https://"@, i));
    assert forall|j: int| i <= j < k implies !markdown::ends_url(#[trigger] s[j]) by {
        assert(s[j] == d[j - i]);
    }
    assert(s[k] == c);
    ends_at(s, i, k);
    assert(s.subrange(i, k) =~= d);
    assert forall|j: int| k <= j < s.len() implies #[trigger] s[j] != 'h' by {
        if j > k {
            assert(s[j] == b[j - k - 1]);
        }
    }
    no_scheme(s, k, s.len() as int);
    assert(markdown::urls_from(s, s.len() as int) =~= Seq::<Seq<char>>::empty());
    assert(seq![u] + Seq::<Seq<char>>::empty() =~= seq![u]);
}

// ---- packages that need each other ------------------------------------------------------------

/// A package finds another in its own folder first; what it finds is called by the
/// name it asked for, at the top or in a folder above its own.
pub proof fn packages_are_found_from_within(v: Seq<DepView>, from: Seq<char>, key: Seq<char>, k: int)
    requires
        0 <= k <= from.len(),
    ensures
        graph::package_from(v, from + "/node_modules/"@ + key, None, 0) is Some ==> graph::nearest(
            v,
            from,
            key,
            from.len() as int,
        ) == graph::package_from(v, from + "/node_modules/"@ + key, None, 0),
        graph::nearest(v, from, key, k) matches Some(p) ==> 0 <= p < v.len() && (v[p].name == key
            || exists|j: int|
            0 <= j <= k && v[p].name == #[trigger] from.take(j) + "/node_modules/"@ + key),
        graph::nearest(v, from, key, k) is None ==> forall|p: int|
            0 <= p < v.len() ==> (#[trigger] v[p]).name != key,
    decreases k,
{
    assert(from.take(from.len() as int) =~= from);
    let at = from.take(k) + "/node_modules/"@ + key;
    named_is_found(v, at, 0);
    named_is_found(v, key, 0);
    if k > 0 {
        packages_are_found_from_within(v, from, key, k - 1);
        match graph::nearest(v, from, key, k - 1) {
            Some(p) => {
                if v[p].name != key {
                    let j = choose|j: int|
                        0 <= j <= k - 1 && v[p].name == #[trigger] from.take(j) + "/node_modules/"@
                            + key;
                    assert(0 <= j <= k && v[p].name == from.take(j) + "/node_modules/"@ + key);
                }
            },
            None => {},
        }
    }
}

proof fn named_is_found(v: Seq<DepView>, n: Seq<char>, from: int)
    requires
        0 <= from <= v.len(),
    ensures
        match graph::package_from(v, n, None, from) {
            Some(p) => from <= p < v.len() && v[p].name == n,
            None => forall|p: int| from <= p < v.len() ==> (#[trigger] v[p]).name != n,
        },
    decreases v.len() - from,
{
    if from < v.len() && v[from].name != n {
        named_is_found(v, n, from + 1);
    }
}

/// A package that is not yet reached is chained behind the first reached one that
/// needs it; others stay as they are.
pub proof fn chains_grow_by_one(v: Seq<DepView>, needs: Seq<Seq<int>>, i: int, p: int)
    requires
        0 <= i < v.len(),
        0 <= p < v.len(),
        needs.len() == v.len(),
    ensures
        graph::is_reached(v[i]) ==> graph::linked(v, needs, i) == v[i],
        !graph::is_reached(v[i]) && graph::is_reached(v[p]) && needs[p].contains(i) && (forall|q: int|
            0 <= q < p ==> !graph::is_reached(#[trigger] v[q]) || !needs[q].contains(i))
            ==> graph::linked(v, needs, i).via == seq![v[p].name] + v[p].via,
        (forall|q: int|
            0 <= q < v.len() ==> !graph::is_reached(#[trigger] v[q]) || !needs[q].contains(i))
            ==> graph::linked(v, needs, i) == v[i],
        graph::linked(v, needs, i).name == v[i].name && graph::linked(v, needs, i).version
            == v[i].version,
{
    first_parent(v, needs, i, 0);
}

proof fn first_parent(v: Seq<DepView>, needs: Seq<Seq<int>>, i: int, from: int)
    requires
        0 <= from <= v.len(),
        needs.len() == v.len(),
    ensures
        match graph::parent_from(v, needs, i, from) {
            Some(p) => from <= p < v.len() && graph::is_reached(v[p]) && needs[p].contains(i)
                && forall|q: int|
                from <= q < p ==> !graph::is_reached(#[trigger] v[q]) || !needs[q].contains(i),
            None => forall|q: int|
                from <= q < v.len() ==> !graph::is_reached(#[trigger] v[q]) || !needs[q].contains(i),
        },
    decreases v.len() - from,
{
    if from < v.len() && !(graph::is_reached(v[from]) && needs[from].contains(i)) {
        first_parent(v, needs, i, from + 1);
    }
}

/// What a list asks for is found entry by entry; what no package answers is left
/// out.
pub proof fn asked_entries_are_found(v: Seq<DepView>, e: Seq<Seq<char>>, x: Seq<char>, k: int)
    ensures
        graph::all_wanted(v, Seq::empty()).len() == 0,
        graph::wanted(v, x) == Some(k) ==> graph::all_wanted(v, e.push(x)) == graph::all_wanted(
            v,
            e,
        ).push(k),
        graph::wanted(v, x) is None ==> graph::all_wanted(v, e.push(x)) == graph::all_wanted(v, e),
        graph::nearest(v, x, x, x.len() as int) == Some(k) ==> graph::all_nearest(v, x, e.push(x))
            == graph::all_nearest(v, x, e).push(k),
{
    assert(e.push(x).drop_last() =~= e);
}

// ---- names ----------------------------------------------------------------------------------

/// Each kind of scan has an analyser of its own; its image is named by the
/// registry, the analyser and the tag.
pub proof fn analysers_are_told_apart(a: ScanType, b: ScanType, r: Seq<char>, tag: Seq<char>)
    ensures
        a != b ==> analyzer_registry::repository(a) != analyzer_registry::repository(b),
        a != b ==> analyzer_registry::scan_label(a) != analyzer_registry::scan_label(b),
        text::starts_with(analyzer_registry::image_text(r, a, tag), r),
        text::ends_with(analyzer_registry::image_text(r, a, tag), ":"@ + tag),
        text::contains(
            analyzer_registry::image_text(r, a, tag),
            analyzer_registry::repository(a),
        ),
{
    reveal_strlit("analyzers/strobessastanalyzer");
    reveal_strlit("analyzers/dependency");
    reveal_strlit("analyzers/trivyanalyzer");
    reveal_strlit("analyzers/checkovanalyzer");
    reveal_strlit("analyzers/zapanalyzer");
    reveal_strlit("sast");
    reveal_strlit("sca");
    reveal_strlit("container");
    reveal_strlit("iac");
    reveal_strlit("dast");
    assert("analyzers/strobessastanalyzer"@[10] == 's' && "analyzers/dependency"@[10] == 'd'
        && "analyzers/trivyanalyzer"@[10] == 't' && "analyzers/checkovanalyzer"@[10] == 'c'
        && "analyzers/zapanalyzer"@[10] == 'z');
    assert("sast"@[0] == 's' && "sca"@[0] == 's' && "sast"@.len() == 4 && "sca"@.len() == 3
        && "container"@[0] == 'c' && "iac"@[0] == 'i' && "dast"@[0] == 'd');
    let x = analyzer_registry::image_text(r, a, tag);
    let repo = analyzer_registry::repository(a);
    assert(x =~= r + "/"@ + repo + (":"@ + tag));
    assert(x.subrange(0, r.len() as int) =~= r);
    let tail = ":"@ + tag;
    assert(x.subrange(x.len() - tail.len(), x.len() as int) =~= tail);
    texts::wholes_hold_their_parts(r + "/"@, repo, ":"@ + tag);
}

/// The password of a registry is what stands behind the first colon of its token.
pub proof fn passwords_stand_behind_the_user(user: Seq<char>, pw: Seq<char>)
    requires
        lacks(user, ':'),
    ensures
        analyzer_registry::password_in(
            Some(vstd::utf8::encode_utf8(user + seq![':'] + pw)),
        ) == Ok::<Seq<char>, Seq<char>>(pw),
        analyzer_registry::password_in(Some(vstd::utf8::encode_utf8(user))) is Err,
        analyzer_registry::password_in(None) is Err,
{
    let t = user + seq![':'] + pw;
    vstd::utf8::encode_utf8_valid_utf8(t);
    vstd::utf8::encode_utf8_decode_utf8(t);
    vstd::utf8::encode_utf8_valid_utf8(user);
    vstd::utf8::encode_utf8_decode_utf8(user);
    texts::pieces_stand_between_separators(user, ':', pw);
    assert(t.skip(user.len() as int + 1) =~= pw);
}

/// A shell can be used where it is a bridge that is connected; the first such one
/// is taken.
pub proof fn connected_bridges_are_used(v: Seq<Shell>, i: int)
    requires
        0 <= i <= v.len(),
    ensures
        match bridge::usable_from(v, i) {
            Some(k) => i <= k < v.len() && v[k].shell_type@ == "bridge"@ && v[k].bridge_connected
                == Some(true) && forall|j: int|
                i <= j < k ==> (#[trigger] v[j]).shell_type@ != "bridge"@ || v[j].bridge_connected
                    != Some(true),
            None => forall|j: int|
                i <= j < v.len() ==> (#[trigger] v[j]).shell_type@ != "bridge"@
                    || v[j].bridge_connected != Some(true),
        },
    decreases v.len() - i,
{
    if i < v.len() && !bridge::usable(v[i]) {
        connected_bridges_are_used(v, i + 1);
    }
}

/// The kinds of infrastructure are listed with their files.
pub proof fn kinds_are_listed_with_their_files(v: Seq<IacFileView>, k: int)
    requires
        0 <= k < v.len(),
    ensures
        ({
            let label = iac::label_of(v[k].iac_type);
            &&& text::contains(iac::group_text(v, label), label)
            &&& text::contains(iac::group_text(v, label), v[k].rel_path)
            &&& text::contains(iac::type_summary(v), iac::group_text(v, label))
        }),
{
    let label = iac::label_of(v[k].iac_type);
    let path = v[k].rel_path;
    infra::listed_paths_are_of_the_kind(v, label, path);
    let p = iac::paths_with(v, label);
    let m = choose|m: int| 0 <= m < p.len() && p[m] == path;
    assert(p.contains(path));
    let items = p.map_values(|x: Seq<char>| "    - "@ + x);
    let j = pieces::join(items, "\n"@);
    texts::joined_texts_hold_each(items, "\n"@, m);
    assert(items[m] == "    - "@ + path);
    texts::texts_hold_themselves(path);
    texts::longer_texts_hold_it("    - "@, path, path);
    texts::parts_hold_for_the_whole(j, items[m], path);
    let t0 = "  "@;
    let t1 = t0 + label;
    let t2 = t1 + " ("@;
    let t3 = t2 + digits::dec(p.len());
    let t4 = t3 + " file(s)):\n"@;
    let t5 = t4 + j;
    assert(text::contains(t5, label)) by {
        texts::texts_hold_themselves(label);
        texts::longer_texts_hold_it(t0, label, label);
        texts::longer_texts_hold_it(t1, " ("@, label);
        texts::longer_texts_hold_it(t2, digits::dec(p.len()), label);
        texts::longer_texts_hold_it(t3, " file(s)):\n"@, label);
        texts::longer_texts_hold_it(t4, j, label);
    }
    assert(text::contains(t5, path)) by {
        texts::longer_texts_hold_it(t4, j, path);
    }
    assert(iac::group_text(v, label) == t5);
    let all = v.map_values(|f: IacFileView| iac::label_of(f.iac_type));
    assert(all[k] == label);
    assert(all.contains(label));
    order::in_order_sorts(all);
    let ls = iac::labels(v);
    assert(ls.contains(label));
    let n = choose|n: int| 0 <= n < ls.len() && ls[n] == label;
    let groups = ls.map_values(|l: Seq<char>| iac::group_text(v, l));
    assert(groups[n] == iac::group_text(v, label));
    texts::joined_texts_hold_each(groups, "\n"@, n);
}

// ---- lines of a log and of a scan -----------------------------------------------------------------

/// A happening is logged by its kind, with its tool and what it said.
pub proof fn happenings_are_logged(i: ItemView, n: Seq<char>, t: Option<Seq<char>>, d: Option<Seq<char>>, x: Seq<char>)
    ensures
        ({
            let l = cli::item_line_text(i, t, d);
            &&& text::starts_with(l, "event["@ + i.kind + "]"@)
            &&& i.tool_name == Some(n) ==> text::contains(l, " tool="@ + n)
            &&& i.local ==> text::contains(l, " LOCAL"@)
            &&& t == Some(x) ==> text::contains(l, " text="@ + x)
            &&& d == Some(x) ==> text::contains(l, " detail="@ + x)
        }),
{
    let l = cli::item_line_text(i, t, d);
    let head = "event["@ + i.kind + "]"@;
    let tool = match i.tool_name {
        Some(m) => " tool="@ + m,
        None => Seq::empty(),
    };
    let local = if i.local {
        " LOCAL"@
    } else {
        Seq::empty()
    };
    let said = match t {
        Some(y) => " text="@ + y,
        None => Seq::empty(),
    };
    let more = match d {
        Some(y) => " detail="@ + y,
        None => Seq::empty(),
    };
    let t0 = head;
    let t1 = t0 + tool;
    let t2 = t1 + local;
    let t3 = t2 + said;
    let t4 = t3 + more;
    assert(text::contains(t4, tool)) by {
        texts::texts_hold_themselves(tool);
        texts::longer_texts_hold_it(t0, tool, tool);
        texts::longer_texts_hold_it(t1, local, tool);
        texts::longer_texts_hold_it(t2, said, tool);
        texts::longer_texts_hold_it(t3, more, tool);
    }
    assert(text::contains(t4, local)) by {
        texts::texts_hold_themselves(local);
        texts::longer_texts_hold_it(t1, local, local);
        texts::longer_texts_hold_it(t2, said, local);
        texts::longer_texts_hold_it(t3, more, local);
    }
    assert(text::contains(t4, said)) by {
        texts::texts_hold_themselves(said);
        texts::longer_texts_hold_it(t2, said, said);
        texts::longer_texts_hold_it(t3, more, said);
    }
    assert(text::contains(t4, more)) by {
        texts::texts_hold_themselves(more);
        texts::longer_texts_hold_it(t3, more, more);
    }
    assert(l == t4);
    assert(l.subrange(0, head.len() as int) =~= head);
}

/// The last messages of a scan are shown a line each, and a line stays empty where
/// there is none.
pub proof fn scan_messages_have_their_lines(v: Seq<Seq<char>>, n: int)
    requires
        0 < n,
    ensures
        scan::message_lines(v, 0).len() == 0,
        n <= v.len() ==> scan::message_lines(v, n) == scan::message_lines(v, n - 1)
            + scan::message_line(v[n - 1]),
        n > v.len() ==> scan::message_lines(v, n) == scan::message_lines(v, n - 1) + "\n"@,
        n <= v.len() && v[n - 1].len() <= 76 ==> text::contains(
            scan::message_line(v[n - 1]),
            v[n - 1],
        ),
{
    if n <= v.len() && v[n - 1].len() <= 76 {
        texts::wholes_hold_their_parts("  \x1b[2m"@, v[n - 1], "\x1b[0m\n"@);
    }
}

} // verus!
