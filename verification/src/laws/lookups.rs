//! Lookups: where several would do, the first is taken, and nothing is made up
//! where none does.

use vstd::prelude::*;
use crate::browser;
use crate::browser::NetView;
use crate::chrome;
use crate::codec;
use crate::json;
use crate::json::JsonView;
use crate::pack;
use crate::pack::Entry;
use crate::picker;
use crate::picker::PickerView;
use crate::text;
use crate::workflow;
use crate::workflow::PhaseDef;

verus! {

broadcast use vstd::seq::group_seq_axioms;

/// The release of a tool pack is the first whose tag begins with `pack-v`.
pub proof fn the_first_pack_release_is_taken(v: Seq<JsonView>, i: int)
    requires
        0 <= i <= v.len(),
    ensures
        match pack::pack_tag_from(v, i) {
            Some(t) => text::starts_with(t, "pack-v"@) && exists|k: int|
                i <= k < v.len() && json::as_text(json::field(#[trigger] v[k], "tag_name"@)) == Some(
                    t,
                ) && forall|j: int|
                    i <= j < k ==> (json::as_text(json::field(#[trigger] v[j], "tag_name"@)) matches Some(
                        u,
                    ) ==> !text::starts_with(u, "pack-v"@)),
            None => forall|j: int|
                i <= j < v.len() ==> (json::as_text(json::field(#[trigger] v[j], "tag_name"@)) matches Some(
                    u,
                ) ==> !text::starts_with(u, "pack-v"@)),
        },
    decreases v.len() - i,
{
    if i < v.len() {
        match json::as_text(json::field(v[i], "tag_name"@)) {
            Some(t) if text::starts_with(t, "pack-v"@) => {},
            _ => {
                the_first_pack_release_is_taken(v, i + 1);
                match pack::pack_tag_from(v, i + 1) {
                    Some(t) => {
                        let k = choose|k: int|
                            i + 1 <= k < v.len() && json::as_text(
                                json::field(#[trigger] v[k], "tag_name"@),
                            ) == Some(t) && forall|j: int|
                                i + 1 <= j < k ==> (json::as_text(
                                    json::field(#[trigger] v[j], "tag_name"@),
                                ) matches Some(u) ==> !text::starts_with(u, "pack-v"@));
                        assert(forall|j: int|
                            i <= j < k ==> (json::as_text(
                                json::field(#[trigger] v[j], "tag_name"@),
                            ) matches Some(u) ==> !text::starts_with(u, "pack-v"@)));
                    },
                    None => {},
                }
            },
        }
    }
}

/// The interpreter is the first file that is called as the system calls it; a
/// folder is none.
pub proof fn interpreters_are_files(v: Seq<Entry>, windows: bool, i: int)
    requires
        0 <= i <= v.len(),
    ensures
        ({
            let name = if windows {
                "python.exe"@
            } else {
                "python3"@
            };
            match pack::interpreter_at(v, windows, i) {
                Some(k) => i <= k < v.len() && !v[k].is_dir && (v[k].name matches Some(n) && n@ == name)
                    && forall|j: int|
                    i <= j < k ==> (#[trigger] v[j]).is_dir || text::opt_view(v[j].name) != Some(name),
                None => forall|j: int|
                    i <= j < v.len() ==> (#[trigger] v[j]).is_dir || text::opt_view(v[j].name)
                        != Some(name),
            }
        }),
    decreases v.len() - i,
{
    if i < v.len() {
        if !v[i].is_dir && text::opt_view(v[i].name) == Some(pack::python_file(windows)) {
        } else {
            interpreters_are_files(v, windows, i + 1);
        }
    }
}

/// The search for an interpreter goes on in the folders that can hold one, and in
/// no others.
pub proof fn folders_are_searched(stack: Seq<Seq<char>>, v: Seq<Entry>, n: int)
    requires
        0 < n <= v.len(),
    ensures
        pack::deeper(stack, v, 0) == stack,
        v[n - 1].is_dir && (v[n - 1].name matches Some(s) && (s@ == "bin"@ || s@ == "lib"@ || s@
            == "Scripts"@ || text::starts_with(s@, "cpython"@))) ==> pack::deeper(stack, v, n)
            == pack::deeper(stack, v, n - 1).push(v[n - 1].path@),
        !v[n - 1].is_dir ==> pack::deeper(stack, v, n) == pack::deeper(stack, v, n - 1),
{
}

/// The build that is fetched is the first for the platform; without one there is
/// an error that names it.
pub proof fn builds_are_for_the_platform(
    v: Seq<JsonView>,
    platform: Seq<char>,
    i: int,
    m: JsonView,
    u: Seq<char>,
)
    requires
        0 <= i <= v.len(),
    ensures
        match chrome::build_at(v, platform, i) {
            Some(b) => json::as_text(json::field(b, "platform"@)) == Some(platform) && v.contains(b),
            None => forall|j: int|
                i <= j < v.len() ==> json::as_text(json::field(#[trigger] v[j], "platform"@))
                    != Some(platform),
        },
        chrome::build_url(m, platform) == Ok::<Seq<char>, Seq<char>>(u) <==> (chrome::build_at(
            chrome::builds_in(m),
            platform,
            0,
        ) matches Some(b) && json::as_text(json::field(b, "url"@)) == Some(u)),
        chrome::build_url(m, platform) matches Err(e) ==> e == "no Chrome for Testing build for "@
            + platform,
    decreases v.len() - i,
{
    if i < v.len() {
        if json::as_text(json::field(v[i], "platform"@)) == Some(platform) {
            assert(v.contains(v[i]));
        } else {
            builds_are_for_the_platform(v, platform, i + 1, m, u);
        }
    }
}

/// Builds are published for two kinds of mac, for linux and for windows; the
/// program has the name that the system gives programs.
pub proof fn builds_are_published_for_some_machines(os: Seq<char>, arch: Seq<char>)
    ensures
        chrome::build_platform("macos"@, "aarch64"@) == Some("mac-arm64"@),
        chrome::build_platform("macos"@, "x86_64"@) == Some("mac-x64"@),
        chrome::build_platform("linux"@, "x86_64"@) == Some("linux64"@),
        chrome::build_platform("windows"@, "x86_64"@) == Some("win64"@),
        chrome::build_platform(os, arch) is Some ==> (os == "macos"@ && (arch == "aarch64"@ || arch
            == "x86_64"@)) || ((os == "linux"@ || os == "windows"@) && arch == "x86_64"@),
        chrome::build_path(os).0 == "chrome-"@ + os,
        chrome::build_path("linux64"@).1 == "chrome"@,
        chrome::build_path("win64"@).1 == "chrome"@ + ".exe"@,
{
    reveal_strlit("macos");
    reveal_strlit("linux");
    reveal_strlit("windows");
    reveal_strlit("aarch64");
    reveal_strlit("x86_64");
    reveal_strlit("mac-arm64");
    reveal_strlit("mac-x64");
    reveal_strlit("linux64");
    reveal_strlit("win64");
    reveal_strlit("chrome");
    reveal_strlit(".exe");
    reveal_strlit("chrome.exe");
    assert("macos"@[0] == 'm' && "linux"@[0] == 'l' && "windows"@[0] == 'w');
    assert("aarch64"@[0] == 'a' && "x86_64"@[0] == 'x');
    assert("mac-arm64"@[0] == 'm' && "mac-x64"@[0] == 'm' && "linux64"@[0] == 'l' && "win64"@[0]
        == 'w');
    assert("chrome"@ + ".exe"@ =~= "chrome.exe"@);
}

/// Chrome is looked for where the system installs it.
pub proof fn browsers_are_where_they_are_installed(os: Seq<char>, i: int)
    ensures
        ({
            let v = chrome::usual_places(os);
            &&& v.len() > 0
            &&& os == "macos"@ && 0 <= i < v.len() ==> text::starts_with(v[i], "/Applications/"@)
            &&& os == "windows"@ && 0 <= i < v.len() ==> text::ends_with(v[i], "chrome.exe"@)
            &&& os != "macos"@ && os != "windows"@ ==> v.contains("/usr/bin/google-chrome"@)
                && v.contains("/usr/bin/chromium"@)
        }),
{
    reveal_strlit("macos");
    reveal_strlit("windows");
    assert("macos"@.len() == 5 && "windows"@.len() == 7);
    let v = chrome::usual_places(os);
    if os == "macos"@ {
        mac_places();
    } else if os == "windows"@ {
        windows_places();
    } else {
        assert(v[0] == "/usr/bin/google-chrome"@);
        assert(v[2] == "/usr/bin/chromium"@);
    }
}

proof fn mac_places()
    ensures
        text::starts_with(
            "/Applications/Google Chrome.app/Contents/MacOS/Google Chrome"@,
            "/Applications/"@,
        ),
        text::starts_with("/Applications/Chromium.app/Contents/MacOS/Chromium"@, "/Applications/"@),
        text::starts_with(
            "/Applications/Google Chrome for Testing.app/Contents/MacOS/Google Chrome for Testing"@,
            "/Applications/"@,
        ),
{
    reveal_strlit("/Applications/");
    reveal_strlit("/Applications/Google Chrome.app/Contents/MacOS/Google Chrome");
    reveal_strlit("/Applications/Chromium.app/Contents/MacOS/Chromium");
    reveal_strlit("/Applications/Google Chrome for Testing.app/Contents/MacOS/Google Chrome for Testing");
    let p = "/Applications/"@;
    assert("/Applications/Google Chrome.app/Contents/MacOS/Google Chrome"@.subrange(0, 14) =~= p);
    assert("/Applications/Chromium.app/Contents/MacOS/Chromium"@.subrange(0, 14) =~= p);
    assert("/Applications/Google Chrome for Testing.app/Contents/MacOS/Google Chrome for Testing"@.subrange(
        0,
        14,
    ) =~= p);
}

proof fn windows_places()
    ensures
        text::ends_with(
            "C:\\Program Files\\Google\\Chrome\\Application\\chrome.exe"@,
            "chrome.exe"@,
        ),
        text::ends_with(
            "C:\\Program Files (x86)\\Google\\Chrome\\Application\\chrome.exe"@,
            "chrome.exe"@,
        ),
{
    reveal_strlit("chrome.exe");
    reveal_strlit("C:\\Program Files\\Google\\Chrome\\Application\\chrome.exe");
    reveal_strlit("C:\\Program Files (x86)\\Google\\Chrome\\Application\\chrome.exe");
    let p = "chrome.exe"@;
    let a = "C:\\Program Files\\Google\\Chrome\\Application\\chrome.exe"@;
    let b = "C:\\Program Files (x86)\\Google\\Chrome\\Application\\chrome.exe"@;
    assert(a.subrange(a.len() - 10, a.len() as int) =~= p);
    assert(b.subrange(b.len() - 10, b.len() as int) =~= p);
}

/// An answer belongs to the first request with its id, or to its address that has
/// no answer yet.
pub proof fn answers_belong_to_their_request(
    v: Seq<NetView>,
    id: Seq<char>,
    url: Seq<char>,
    i: int,
)
    requires
        0 <= i <= v.len(),
    ensures
        match browser::answered_at(v, id, url, i) {
            Some(k) => i <= k < v.len() && (v[k].request_id == id || (v[k].url == url && v[k].status
                is None)) && forall|j: int|
                i <= j < k ==> (#[trigger] v[j]).request_id != id && (v[j].url != url || v[j].status
                    is Some),
            None => forall|j: int|
                i <= j < v.len() ==> (#[trigger] v[j]).request_id != id && (v[j].url != url
                    || v[j].status is Some),
        },
        match browser::request_at(v, id, i) {
            Some(k) => i <= k < v.len() && v[k].request_id == id && forall|j: int|
                i <= j < k ==> (#[trigger] v[j]).request_id != id,
            None => forall|j: int| i <= j < v.len() ==> (#[trigger] v[j]).request_id != id,
        },
    decreases v.len() - i,
{
    if i < v.len() {
        answers_belong_to_their_request(v, id, url, i + 1);
    }
}

/// The bodies of texts, of JSON, of XML and of forms are kept, whatever the case of
/// their kind; others are not.
pub proof fn bodies_of_text_are_kept(m: Seq<char>)
    ensures
        text::starts_with(text::lowercase(m), "text/"@) ==> browser::keeps_body(m),
        text::starts_with(text::lowercase(m), "application/json"@) ==> browser::keeps_body(m),
        text::starts_with(text::lowercase(m), "application/xml"@) ==> browser::keeps_body(m),
        text::starts_with(text::lowercase(m), "application/x-www-form-urlencoded"@)
            ==> browser::keeps_body(m),
        text::starts_with(text::lowercase(m), "image/"@) ==> !browser::keeps_body(m),
        m.len() == 0 ==> !browser::keeps_body(m),
{
    reveal_strlit("text/");
    reveal_strlit("image/");
    reveal_strlit("application/json");
    reveal_strlit("application/xml");
    reveal_strlit("application/x-www-form-urlencoded");
    let l = text::lowercase(m);
    if text::starts_with(l, "image/"@) {
        assert(l.subrange(0, 6)[0] == 'i');
        assert(l[0] == 'i');
        if text::starts_with(l, "text/"@) {
            assert(l.subrange(0, 5)[0] == 't');
        }
        if text::starts_with(l, "application/json"@) {
            assert(l.subrange(0, 16)[0] == 'a');
        }
        if text::starts_with(l, "application/xml"@) {
            assert(l.subrange(0, 15)[0] == 'a');
        }
        if text::starts_with(l, "application/x-www-form-urlencoded"@) {
            assert(l.subrange(0, 33)[0] == 'a');
        }
    }
    if m.len() == 0 {
        assert(l.len() == 0);
        assert("text/"@.len() == 5 && "application/json"@.len() == 16 && "application/xml"@.len() == 15
            && "application/x-www-form-urlencoded"@.len() == 33);
    }
}

/// A body that came encoded is kept decoded where it is text, and as it came
/// otherwise.
pub proof fn encoded_bodies_are_decoded(raw: Seq<char>, b: Seq<u8>, o: Option<Seq<u8>>)
    ensures
        vstd::utf8::valid_utf8(b) ==> browser::body_text(raw, Some(b), true)
            == vstd::utf8::decode_utf8(b),
        !vstd::utf8::valid_utf8(b) ==> browser::body_text(raw, Some(b), true) == raw,
        browser::body_text(raw, None, true) == raw,
        browser::body_text(raw, o, false) == raw,
        codec::base64_utf8(None) is None,
{
}

/// The cursor of a new list is on the first row that can be selected.
pub proof fn cursors_begin_where_they_can(p: PickerView, i: int)
    requires
        0 <= i <= p.items.len(),
        p.selectable matches Some(m) ==> m.len() == p.items.len(),
    ensures
        match picker::first_selectable(p, i) {
            Some(k) => i <= k < p.items.len() && (p.selectable matches Some(m) ==> m[k]) && forall|j: int|
                i <= j < k ==> p.selectable is Some && !#[trigger] p.selectable->0[j],
            None => forall|j: int|
                i <= j < p.items.len() ==> p.selectable is Some && !#[trigger] p.selectable->0[j],
        },
    decreases p.items.len() - i,
{
    if i < p.items.len() && !picker::can_select(p, i) {
        cursors_begin_where_they_can(p, i + 1);
    }
}

/// The tasks of a workflow are those of its phases together.
pub proof fn tasks_are_counted(v: Seq<PhaseDef>, n: int)
    requires
        0 < n <= v.len(),
    ensures
        workflow::tasks_in(v, 0) == 0,
        workflow::tasks_in(v, n) == workflow::tasks_in(v, n - 1) + v[n - 1].tasks@.len(),
{
}

/// The values in a file are set by name; of two for one name the later counts, and
/// what the file does not name stays.
pub proof fn values_are_read_by_name(
    m: Map<Seq<char>, Seq<char>>,
    f: Seq<(Seq<char>, JsonView)>,
    k: Seq<char>,
    t: Seq<char>,
    o: Seq<char>,
)
    ensures
        workflow::with_fields(m, f.push((k, JsonView::Str(t)))).dom().contains(k),
        workflow::with_fields(m, f.push((k, JsonView::Str(t))))[k] == t,
        o != k ==> (workflow::with_fields(m, f.push((k, JsonView::Str(t)))).dom().contains(o)
            <==> workflow::with_fields(m, f).dom().contains(o)),
        o != k ==> workflow::with_fields(m, f.push((k, JsonView::Str(t))))[o]
            == workflow::with_fields(m, f)[o],
        workflow::with_fields(m, Seq::empty()) == m,
{
    assert(f.push((k, JsonView::Str(t))).drop_last() =~= f);
}

} // verus!
