//! Sandbox packs: a runtime for the agent's code that stands in a folder of its
//! own, with an interpreter and tools.

use vstd::prelude::*;
use crate::json;
use crate::json::Json;
use crate::pieces;
use crate::text;

verus! {

broadcast use {
    vstd::seq::group_seq_axioms,
    vstd::string::group_string_axioms,
    text::views_push,
    text::views_empty,
};

/// A value that switches something on.
pub open spec fn is_truthy(v: Seq<char>) -> bool {
    let l = text::lowercase(pieces::trim(v));
    !(l.len() == 0 || l == "0"@ || l == "false"@ || l == "no"@ || l == "off"@)
}

/// A value that switches something on.
pub fn truthy(v: &str) -> (r: bool)
    ensures
        r == is_truthy(v@),
{
    let t = pieces::str_trim(v);
    let l = text::to_lowercase(&t);
    !(l.as_str().is_empty() || text::str_eq(&l, "0") || text::str_eq(&l, "false") || text::str_eq(
        &l,
        "no",
    ) || text::str_eq(&l, "off"))
}

/// The name of a platform in the names of packs.
pub open spec fn platform(os: Seq<char>, arch: Seq<char>) -> Seq<char> {
    os + "-"@ + (if arch == "arm64"@ {
        "aarch64"@
    } else {
        arch
    })
}

/// The name of a platform in the names of packs, such as `macos-aarch64`.
pub fn triple(os: &str, arch: &str) -> (r: String)
    ensures
        r@ == platform(os@, arch@),
{
    let mut s = os.to_owned();
    s.push_str("-");
    if text::str_eq(arch, "arm64") {
        s.push_str("aarch64");
    } else {
        s.push_str(arch);
    }
    s
}

// ---- where packs are ----------------------------------------------------------------------------

/// A folder where a pack may stand: a path and the names to be joined to it.
pub struct Candidate {
    pub base: String,
    pub parts: Vec<String>,
}

pub struct CandidateView {
    pub base: Seq<char>,
    pub parts: Seq<Seq<char>>,
}

impl View for Candidate {
    type V = CandidateView;

    open spec fn view(&self) -> CandidateView {
        CandidateView { base: self.base@, parts: text::views(self.parts@) }
    }
}

pub open spec fn candidate_list(v: Seq<Candidate>) -> Seq<CandidateView> {
    v.map_values(|c: Candidate| c@)
}

pub open spec fn add_given(
    v: Seq<CandidateView>,
    given: Option<Seq<char>>,
    parts: Seq<Seq<char>>,
) -> Seq<CandidateView> {
    match given {
        Some(p) if !pieces::is_blank(p) => v.push(CandidateView { base: p, parts }),
        _ => v,
    }
}

/// Where packs may stand, in the order in which they are looked for: a pack that
/// is named, a folder of packs that is named, the client's own and the bridge's.
pub open spec fn candidate_order(
    pack: Option<Seq<char>>,
    root: Option<Seq<char>>,
    home: Option<Seq<char>>,
    t: Seq<char>,
) -> Seq<CandidateView> {
    let none = Seq::<Seq<char>>::empty();
    let a = add_given(Seq::empty(), pack, none);
    let b = add_given(a, root, none.push(t));
    match home {
        Some(h) => b.push(
            CandidateView { base: h, parts: none.push(".strobes-ai"@).push("pack"@).push(t) },
        ).push(
            CandidateView {
                base: h,
                parts: none.push(".strobes-shell-agent"@).push("pack"@).push(t),
            },
        ),
        None => b,
    }
}

fn blank_or_none(o: &Option<String>) -> (r: bool)
    ensures
        r == match text::opt_view(*o) {
            Some(p) => pieces::is_blank(p),
            None => true,
        },
{
    match o {
        Some(p) => pieces::str_is_blank(p),
        None => true,
    }
}

fn push_candidate(out: &mut Vec<Candidate>, base: &str, parts: Vec<String>)
    ensures
        candidate_list(final(out)@) == candidate_list(old(out)@).push(
            CandidateView { base: base@, parts: text::views(parts@) },
        ),
{
    let ghost before = out@;
    let c = Candidate { base: base.to_owned(), parts };
    let ghost shown = c@;
    out.push(c);
    assert(candidate_list(out@) =~= candidate_list(before).push(shown));
}

/// Where packs may stand, in the order in which they are looked for.
pub fn candidates(
    pack: &Option<String>,
    root: &Option<String>,
    home: &Option<String>,
    t: &str,
) -> (r: Vec<Candidate>)
    ensures
        candidate_list(r@) == candidate_order(
            text::opt_view(*pack),
            text::opt_view(*root),
            text::opt_view(*home),
            t@,
        ),
{
    let mut out: Vec<Candidate> = Vec::new();
    assert(candidate_list(out@) =~= Seq::<CandidateView>::empty());
    if !blank_or_none(pack) {
        if let Some(p) = pack {
            push_candidate(&mut out, p, Vec::new());
        }
    }
    if !blank_or_none(root) {
        if let Some(p) = root {
            let mut parts: Vec<String> = Vec::new();
            parts.push(t.to_owned());
            push_candidate(&mut out, p, parts);
        }
    }
    if let Some(h) = home {
        let mut own: Vec<String> = Vec::new();
        own.push(".strobes-ai".to_owned());
        own.push("pack".to_owned());
        own.push(t.to_owned());
        push_candidate(&mut out, h, own);
        let mut bridge: Vec<String> = Vec::new();
        bridge.push(".strobes-shell-agent".to_owned());
        bridge.push("pack".to_owned());
        bridge.push(t.to_owned());
        push_candidate(&mut out, h, bridge);
    }
    out
}

/// The first position from `i` on that holds.
pub open spec fn first_true(v: Seq<bool>, i: int) -> Option<int>
    decreases v.len() - i,
{
    if i < 0 || i >= v.len() {
        None
    } else if v[i] {
        Some(i)
    } else {
        first_true(v, i + 1)
    }
}

/// The pack to use: the first candidate that is one, unless packs are switched
/// off. `packs` says of each candidate whether it is one.
pub open spec fn chosen_pack(disable: Option<Seq<char>>, packs: Seq<bool>) -> Option<int> {
    match disable {
        Some(v) if is_truthy(v) => None,
        _ => first_true(packs, 0),
    }
}

/// The pack to use: the first candidate that is one, unless packs are switched
/// off.
pub fn find_pack(disable: &Option<String>, packs: &Vec<bool>) -> (r: Option<usize>)
    ensures
        text::to_int(r) == chosen_pack(text::opt_view(*disable), packs@),
        r matches Some(i) ==> i < packs@.len() && packs@[i as int],
{
    if let Some(v) = disable {
        if truthy(v) {
            return None;
        }
    }
    let n: usize = packs.len();
    let mut i: usize = 0;
    while i < n
        invariant
            i <= n,
            n == packs@.len(),
            chosen_pack(text::opt_view(*disable), packs@) == first_true(packs@, i as int),
        decreases n - i,
    {
        if packs[i] {
            return Some(i);
        }
        i += 1;
    }
    None
}

/// Packs that are switched off are never used, whatever stands on the machine.
pub proof fn switched_off_packs_are_not_used(v: Seq<char>, packs: Seq<bool>)
    requires
        is_truthy(v),
    ensures
        chosen_pack(Some(v), packs) is None,
{
}

// ---- the interpreter ------------------------------------------------------------------------------

/// An entry of a folder.
pub struct Entry {
    pub path: String,
    /// The name, where it is text.
    pub name: Option<String>,
    pub is_dir: bool,
}

/// The search for the interpreter below a folder: the folders still to be read,
/// and how many were read.
pub struct PythonSearch {
    pub stack: Vec<String>,
    pub read: usize,
}

pub struct SearchView {
    pub stack: Seq<Seq<char>>,
    pub read: nat,
}

impl View for PythonSearch {
    type V = SearchView;

    open spec fn view(&self) -> SearchView {
        SearchView { stack: text::views(self.stack@), read: self.read as nat }
    }
}

/// No more than one folder beyond this number is read.
pub const MAX_READ: usize = 512;

/// A folder that an interpreter may stand in or below.
pub open spec fn may_hold_python(name: Seq<char>) -> bool {
    name == "bin"@ || name == "lib"@ || name == "Scripts"@ || text::starts_with(name, "cpython"@)
}

/// The file name of the interpreter.
pub open spec fn python_file(windows: bool) -> Seq<char> {
    if windows {
        "python.exe"@
    } else {
        "python3"@
    }
}

/// What the first `n` entries of a folder add to the stack.
pub open spec fn deeper(stack: Seq<Seq<char>>, v: Seq<Entry>, n: int) -> Seq<Seq<char>>
    decreases n,
{
    if n <= 0 {
        stack
    } else {
        let e = v[n - 1];
        let before = deeper(stack, v, n - 1);
        if e.is_dir && may_hold_python(text::text_or(text::opt_view(e.name), Seq::empty())) {
            before.push(e.path@)
        } else {
            before
        }
    }
}

/// The first entry from `i` on that is the interpreter.
pub open spec fn interpreter_at(v: Seq<Entry>, windows: bool, i: int) -> Option<int>
    decreases v.len() - i,
{
    if i < 0 || i >= v.len() {
        None
    } else if !v[i].is_dir && text::opt_view(v[i].name) == Some(python_file(windows)) {
        Some(i)
    } else {
        interpreter_at(v, windows, i + 1)
    }
}

impl PythonSearch {
    /// A search that starts at a folder.
    pub fn new(root: &str) -> (r: PythonSearch)
        ensures
            r@ == (SearchView { stack: Seq::empty().push(root@), read: 0 }),
    {
        let mut stack: Vec<String> = Vec::new();
        stack.push(root.to_owned());
        PythonSearch { stack, read: 0 }
    }

    /// The next folder to be read, the newest first. After too many there is
    /// none.
    pub fn next(&mut self) -> (r: Option<String>)
        ensures
            match r {
                Some(d) => old(self)@.stack.len() > 0 && old(self)@.read <= MAX_READ && d@
                    == old(self)@.stack.last() && final(self)@ == (SearchView {
                    stack: old(self)@.stack.drop_last(),
                    read: old(self)@.read + 1,
                }),
                None => (old(self)@.stack.len() == 0 || old(self)@.read > MAX_READ) && final(self)@
                    == (SearchView {
                    stack: if old(self)@.stack.len() == 0 {
                        old(self)@.stack
                    } else {
                        old(self)@.stack.drop_last()
                    },
                    read: old(self)@.read,
                }),
            },
    {
        let ghost before = self.stack@;
        match self.stack.pop() {
            Some(d) => {
                assert(text::views(before.drop_last()) =~= text::views(before).drop_last());
                assert(text::views(before).last() == d@);
                if self.read > MAX_READ {
                    None
                } else {
                    self.read += 1;
                    Some(d)
                }
            },
            None => None,
        }
    }

    /// Takes what a folder holds: the interpreter's path, or else the folders to
    /// be read next.
    pub fn on_entries(&mut self, entries: &Vec<Entry>, windows: bool) -> (r: Option<String>)
        ensures
            match interpreter_at(entries@, windows, 0) {
                Some(i) => r matches Some(p) && p@ == entries@[i].path@ && final(self)@ == (
                SearchView {
                    stack: deeper(old(self)@.stack, entries@, i),
                    read: old(self)@.read,
                }),
                None => r is None && final(self)@ == (SearchView {
                    stack: deeper(old(self)@.stack, entries@, entries@.len() as int),
                    read: old(self)@.read,
                }),
            },
    {
        let exe = if windows {
            "python.exe"
        } else {
            "python3"
        };
        let ghost start = self@;
        let n: usize = entries.len();
        let mut i: usize = 0;
        while i < n
            invariant
                i <= n,
                n == entries@.len(),
                exe@ == python_file(windows),
                start == old(self)@,
                interpreter_at(entries@, windows, 0) == interpreter_at(
                    entries@,
                    windows,
                    i as int,
                ),
                self@ == (SearchView {
                    stack: deeper(start.stack, entries@, i as int),
                    read: start.read,
                }),
            decreases n - i,
        {
            let e = &entries[i];
            if e.is_dir {
                let none = "".to_owned();
                proof {
                    reveal_strlit("");
                    assert(none@ =~= Seq::<char>::empty());
                }
                let name = text::opt_or(&e.name, &none);
                if text::str_eq(&name, "bin") || text::str_eq(&name, "lib") || text::str_eq(
                    &name,
                    "Scripts",
                ) || text::str_starts_with(&name, "cpython") {
                    self.stack.push(e.path.clone());
                }
            } else if text::opt_is(&e.name, exe) {
                return Some(e.path.clone());
            }
            i += 1;
        }
        None
    }
}

/// The interpreter that the agent's code runs under: the pack's, or else the
/// machine's.
pub fn python_interpreter(python: &Option<String>, windows: bool) -> (r: String)
    ensures
        r@ == text::text_or(
            text::opt_view(*python),
            if windows {
                "python"@
            } else {
                "python3"@
            },
        ),
{
    text::opt_or(
        python,
        if windows {
            "python"
        } else {
            "python3"
        },
    )
}

// ---- the search path --------------------------------------------------------------------------------

/// What stands between two folders of a search path.
pub open spec fn separator(windows: bool) -> Seq<char> {
    if windows {
        ";"@
    } else {
        ":"@
    }
}

fn path_separator(windows: bool) -> (r: &'static str)
    ensures
        r@ == separator(windows),
{
    if windows {
        ";"
    } else {
        ":"
    }
}

/// The folder of a pack's tools, where there is one. `bin` is where it would
/// stand.
pub fn pack_bin(bin: String, is_dir: bool) -> (r: Option<String>)
    ensures
        text::opt_view(r) == if is_dir {
            Some(bin@)
        } else {
            None
        },
{
    if is_dir {
        Some(bin)
    } else {
        None
    }
}

/// The folders of a pack in one text: its tools, and where its interpreter
/// stands.
pub open spec fn prefix_text(
    bin: Option<Seq<char>>,
    python_dir: Option<Seq<char>>,
    windows: bool,
) -> Option<Seq<char>> {
    match (bin, python_dir) {
        (Some(b), Some(p)) => Some(b + separator(windows) + p),
        (Some(b), None) => Some(b),
        (None, Some(p)) => Some(p),
        (None, None) => None,
    }
}

/// The folders of a pack in one text.
pub fn pack_path_prefix(bin: &Option<String>, python_dir: &Option<String>, windows: bool) -> (r:
    Option<String>)
    ensures
        text::opt_view(r) == prefix_text(
            text::opt_view(*bin),
            text::opt_view(*python_dir),
            windows,
        ),
{
    match bin {
        Some(b) => match python_dir {
            Some(p) => {
                let mut s = b.clone();
                s.push_str(path_separator(windows));
                s.push_str(p);
                Some(s)
            },
            None => Some(b.clone()),
        },
        None => text::clone_opt(python_dir),
    }
}

/// The search path with a pack's folders in front of it; none where there is no
/// pack.
pub open spec fn path_text(
    prefix: Option<Seq<char>>,
    existing: Option<Seq<char>>,
    windows: bool,
) -> Option<Seq<char>> {
    match prefix {
        Some(p) => match existing {
            Some(e) if e.len() > 0 => Some(p + separator(windows) + e),
            _ => Some(p),
        },
        None => None,
    }
}

/// The search path with a pack's folders in front of it; none where there is no
/// pack.
pub fn path_with_pack(prefix: &Option<String>, existing: &Option<String>, windows: bool) -> (r:
    Option<String>)
    ensures
        text::opt_view(r) == path_text(
            text::opt_view(*prefix),
            text::opt_view(*existing),
            windows,
        ),
{
    match prefix {
        Some(p) => {
            let mut s = p.clone();
            if let Some(e) = existing {
                if !e.as_str().is_empty() {
                    s.push_str(path_separator(windows));
                    s.push_str(e);
                }
            }
            Some(s)
        },
        None => None,
    }
}

/// A pack's folders come before all others, and no other is lost.
pub proof fn packs_come_first(p: Seq<char>, e: Seq<char>, windows: bool)
    requires
        e.len() > 0,
    ensures
        path_text(Some(p), Some(e), windows) matches Some(t) && text::starts_with(t, p)
            && text::ends_with(t, e),
{
    let t = p + separator(windows) + e;
    assert(t.subrange(0, p.len() as int) =~= p);
    assert(t.subrange(t.len() - e.len(), t.len() as int) =~= e);
}

/// A pack as it is shown in the status.
pub struct PackFacts {
    pub dir: String,
    pub tools: usize,
    pub python: bool,
}

/// The line of the status on the pack.
pub fn status_line(pack: &Option<PackFacts>) -> (r: String)
    ensures
        r@ == match *pack {
            None => "pack        (none — agent uses host tools)"@,
            Some(p) => "pack        "@ + p.dir@ + " ("@ + crate::digits::dec(p.tools as nat)
                + " tools, python: "@ + (if p.python {
                "bundled"@
            } else {
                "host"@
            }) + ")"@,
        },
{
    match pack {
        None => "pack        (none — agent uses host tools)".to_owned(),
        Some(p) => {
            let mut s = "pack        ".to_owned();
            s.push_str(&p.dir);
            s.push_str(" (");
            let n = crate::digits::usize_to_string(p.tools);
            s.push_str(&n);
            s.push_str(" tools, python: ");
            s.push_str(
                if p.python {
                    "bundled"
                } else {
                    "host"
                },
            );
            s.push_str(")");
            s
        },
    }
}

// ---- getting a pack -----------------------------------------------------------------------------------

/// Where packs are published.
pub const PACK_REPO: &'static str = "strobes-co/strobes-bridge";

/// A release that has packs, where the newest one cannot be found out.
pub const PACK_TAG_FALLBACK: &'static str = "pack-v0.1.0";

/// Where the packs of a release stand.
pub fn pack_base_for_tag(tag: &str) -> (r: String)
    ensures
        r@ == "https://github.com/"@ + PACK_REPO@ + "/releases/download/"@ + tag@,
{
    let mut s = "https://github.com/".to_owned();
    s.push_str(PACK_REPO);
    s.push_str("/releases/download/");
    s.push_str(tag);
    s
}

/// The first tag of a release of packs from `i` on.
pub open spec fn pack_tag_from(v: Seq<json::JsonView>, i: int) -> Option<Seq<char>>
    decreases v.len() - i,
{
    if i < 0 || i >= v.len() {
        None
    } else {
        match json::as_text(json::field(v[i], "tag_name"@)) {
            Some(t) if text::starts_with(t, "pack-v"@) => Some(t),
            _ => pack_tag_from(v, i + 1),
        }
    }
}

/// The newest release of packs in a list of releases, the newest of which come
/// first; the known one where there is none.
pub fn newest_pack_tag(releases: &Option<Json>) -> (r: String)
    ensures
        r@ == text::text_or(
            match *releases {
                Some(j) => pack_tag_from(json::items(Some(j@)), 0),
                None => None,
            },
            PACK_TAG_FALLBACK@,
        ),
{
    if let Some(j) = releases {
        if let Some(v) = json::opt_items(Some(j)) {
            let ghost all = json::values(v@);
            let n: usize = v.len();
            let mut i: usize = 0;
            while i < n
                invariant
                    i <= n,
                    n == v@.len(),
                    all == json::values(v@),
                    pack_tag_from(all, 0) == pack_tag_from(all, i as int),
                    *releases == Some(*j),
                    json::items(Some(j@)) == all,
                decreases n - i,
            {
                proof {
                    json::values_index(v@);
                }
                if let Some(t) = json::opt_text(v[i].get("tag_name")) {
                    if text::str_starts_with(&t, "pack-v") {
                        return t;
                    }
                }
                i += 1;
            }
            proof {
                json::values_index(v@);
            }
        }
    }
    PACK_TAG_FALLBACK.to_owned()
}

/// The file name of a platform's pack.
pub fn pack_file(t: &str) -> (r: String)
    ensures
        r@ == "strobes-sandbox-pack-"@ + t@ + ".tar.gz"@,
{
    let mut s = "strobes-sandbox-pack-".to_owned();
    s.push_str(t);
    s.push_str(".tar.gz");
    s
}

/// Where a pack is fetched from, below a base.
pub fn pack_url(base: &str, file: &str) -> (r: String)
    ensures
        r@ == pieces::trim_end_char(base@, '/') + "/"@ + file@,
{
    let mut s = pieces::str_trim_end_char(base, '/');
    s.push_str("/");
    s.push_str(file);
    s
}

// ---- checking a pack ----------------------------------------------------------------------------------

/// The SHA-256 digest of bytes, as `sha2::Sha256::digest` computes it.
pub uninterp spec fn sha256(b: Seq<u8>) -> Seq<u8>;

/// Calls `sha2::Sha256::digest`. A digest has 32 bytes; which they are is only
/// named.
#[verifier::external_body]
fn digest_of(b: &[u8]) -> (r: Vec<u8>)
    ensures
        r@ == sha256(b@),
        r@.len() == 32,
{
    <sha2::Sha256 as sha2::Digest>::digest(b).to_vec()
}

pub open spec fn hex_digit(n: int) -> char {
    if n < 10 {
        (n + 48) as char
    } else {
        (n + 87) as char
    }
}

/// Bytes in hexadecimal digits, two for each.
pub open spec fn hex(b: Seq<u8>) -> Seq<char>
    decreases b.len(),
{
    if b.len() == 0 {
        Seq::empty()
    } else {
        hex(b.drop_last()).push(hex_digit(b.last() as int / 16)).push(
            hex_digit(b.last() as int % 16),
        )
    }
}

fn hex_char(n: u8) -> (r: char)
    requires
        n < 16,
    ensures
        r == hex_digit(n as int),
{
    if n < 10 {
        (n + 48) as char
    } else {
        (n + 87) as char
    }
}

/// Bytes in hexadecimal digits, two for each.
pub fn to_hex(b: &Vec<u8>) -> (r: String)
    ensures
        r@ == hex(b@),
{
    let mut s = "".to_owned();
    let n: usize = b.len();
    let mut i: usize = 0;
    proof {
        reveal_strlit("");
        assert(s@ =~= Seq::<char>::empty());
        assert(b@.take(0) =~= Seq::empty());
    }
    while i < n
        invariant
            i <= n,
            n == b@.len(),
            s@ == hex(b@.take(i as int)),
        decreases n - i,
    {
        assert(b@.take(i + 1).drop_last() =~= b@.take(i as int));
        s.push(hex_char(b[i] / 16));
        s.push(hex_char(b[i] % 16));
        i += 1;
    }
    assert(b@.take(n as int) =~= b@);
    s
}

/// The digest that a published file names: its first word, in lower case.
pub open spec fn published_digest(file: Seq<char>) -> Seq<char> {
    let w = pieces::words(file);
    text::lowercase(
        if w.len() > 0 {
            w[0]
        } else {
            ""@
        },
    )
}

/// Why a download is refused: its digest is not the one that is published. A
/// file that names none refuses nothing. `what` would run as the user.
pub open spec fn refusal(
    file: Seq<char>,
    name: Seq<char>,
    digest: Seq<u8>,
    what: Seq<char>,
) -> Option<Seq<char>> {
    let want = published_digest(file);
    if want.len() > 0 && want != hex(digest) {
        Some(
            "checksum mismatch for "@ + name + ": expected "@ + want + ", got "@ + hex(digest)
                + ". Refusing to install — "@ + what + " would run as you."@,
        )
    } else {
        None
    }
}

/// Why a download with this digest is refused, where it is.
pub fn check_digest(file: &str, name: &str, digest: &Vec<u8>, what: &str) -> (r: Option<String>)
    ensures
        text::opt_view(r) == refusal(file@, name@, digest@, what@),
{
    let words = pieces::str_words(file);
    let first = if words.len() > 0 {
        assert(text::views(words@)[0] == words@[0]@);
        words[0].clone()
    } else {
        "".to_owned()
    };
    let want = text::to_lowercase(&first);
    let got = to_hex(digest);
    if !want.as_str().is_empty() && !text::str_eq(&want, &got) {
        let mut s = "checksum mismatch for ".to_owned();
        s.push_str(name);
        s.push_str(": expected ");
        s.push_str(&want);
        s.push_str(", got ");
        s.push_str(&got);
        s.push_str(". Refusing to install — ");
        s.push_str(what);
        s.push_str(" would run as you.");
        Some(s)
    } else {
        None
    }
}

/// Why a download with these bytes is refused, where it is.
pub fn verify_download(file: &str, name: &str, bytes: &Vec<u8>, what: &str) -> (r: Option<String>)
    ensures
        text::opt_view(r) == refusal(file@, name@, sha256(bytes@), what@),
{
    let d = digest_of(bytes);
    check_digest(file, name, &d, what)
}

/// What is said where a platform has no pack.
pub fn unavailable(t: &str, status: &str, file: &str) -> (r: String)
    ensures
        r@ == "pack not available for "@ + t@ + " ("@ + status@
            + "). Set STROBES_PACK_URL to a base URL that hosts "@ + file@
            + ", or install the Strobes bridge, which ships one."@,
{
    let mut s = "pack not available for ".to_owned();
    s.push_str(t);
    s.push_str(" (");
    s.push_str(status);
    s.push_str("). Set STROBES_PACK_URL to a base URL that hosts ");
    s.push_str(file);
    s.push_str(", or install the Strobes bridge, which ships one.");
    s
}

proof fn hex_digits_differ(a: int, b: int)
    requires
        0 <= a < 16,
        0 <= b < 16,
        hex_digit(a) == hex_digit(b),
    ensures
        a == b,
{
}

/// Different digests are written differently, so that a pack whose digest is
/// not the published one is refused.
pub proof fn hex_tells_digests_apart(a: Seq<u8>, b: Seq<u8>)
    requires
        hex(a) == hex(b),
    ensures
        a == b,
    decreases a.len(),
{
    hex_len(a);
    hex_len(b);
    if a.len() > 0 {
        let n = a.len() * 2;
        let x = hex(a);
        let y = hex(b);
        assert(x.take(n - 2) =~= hex(a.drop_last()));
        assert(y.take(n - 2) =~= hex(b.drop_last()));
        hex_tells_digests_apart(a.drop_last(), b.drop_last());
        assert(x[n - 2] == hex_digit(a.last() as int / 16));
        assert(y[n - 2] == hex_digit(b.last() as int / 16));
        assert(x[n - 1] == hex_digit(a.last() as int % 16));
        assert(y[n - 1] == hex_digit(b.last() as int % 16));
        hex_digits_differ(a.last() as int / 16, b.last() as int / 16);
        hex_digits_differ(a.last() as int % 16, b.last() as int % 16);
        assert(a =~= a.drop_last().push(a.last()));
        assert(b =~= b.drop_last().push(b.last()));
    } else {
        assert(a =~= b);
    }
}

proof fn hex_len(b: Seq<u8>)
    ensures
        hex(b).len() == 2 * b.len(),
    decreases b.len(),
{
    if b.len() > 0 {
        hex_len(b.drop_last());
    }
}

} // verus!
