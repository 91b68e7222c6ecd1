//! The way into a session: which workspace, which thread, and which files.

use vstd::prelude::*;
use crate::api;
use crate::api::{Thread, Workspace};
use crate::blocks;
use crate::blocks::OverlayItem;
use crate::digits;
use crate::editor;
use crate::order;
use crate::panels;
use crate::picker::Nav;
use crate::pieces;
use crate::text;

verus! {

broadcast use {
    vstd::seq::group_seq_axioms,
    vstd::string::group_string_axioms,
    text::views_push,
    text::views_empty,
    blocks::overlay_items_push,
    blocks::overlay_items_empty,
};

// ---- dropped files ------------------------------------------------------------------------

/// The state of a split into words: quotes keep blanks in a word, and a
/// backslash outside single quotes takes the next character as it is.
pub struct Words {
    pub done: Seq<Seq<char>>,
    pub word: Seq<char>,
    pub single: bool,
    pub double: bool,
    pub escaped: bool,
}

pub open spec fn no_words() -> Words {
    Words {
        done: Seq::empty(),
        word: Seq::empty(),
        single: false,
        double: false,
        escaped: false,
    }
}

/// The split after one more character.
pub open spec fn word_step(w: Words, c: char) -> Words {
    if w.escaped {
        Words { word: w.word.push(c), escaped: false, ..w }
    } else if c == '\\' && !w.single {
        Words { escaped: true, ..w }
    } else if c == '\'' && !w.double {
        Words { single: !w.single, ..w }
    } else if c == '"' && !w.single {
        Words { double: !w.double, ..w }
    } else if text::is_white(c) && !w.single && !w.double {
        if w.word.len() > 0 {
            Words { done: w.done.push(w.word), word: Seq::empty(), ..w }
        } else {
            w
        }
    } else {
        Words { word: w.word.push(c), ..w }
    }
}

pub open spec fn split_words(s: Seq<char>) -> Words
    decreases s.len(),
{
    if s.len() == 0 {
        no_words()
    } else {
        word_step(split_words(s.drop_last()), s.last())
    }
}

/// The words of a command line.
pub open spec fn shell_words(s: Seq<char>) -> Seq<Seq<char>> {
    let w = split_words(s);
    if w.word.len() > 0 {
        w.done.push(w.word)
    } else {
        w.done
    }
}

/// The words of a command line.
pub fn str_shell_words(s: &str) -> (r: Vec<String>)
    ensures
        text::views(r@) == shell_words(s@),
{
    let v = text::chars_of(s);
    let n: usize = v.len();
    let mut done: Vec<String> = Vec::new();
    let mut word = "".to_owned();
    let mut single = false;
    let mut double = false;
    let mut escaped = false;
    let mut i: usize = 0;
    proof {
        reveal_strlit("");
        assert(word@ =~= Seq::<char>::empty());
        assert(s@.take(0) =~= Seq::empty());
    }
    while i < n
        invariant
            i <= n,
            n == v@.len(),
            v@ == s@,
            split_words(s@.take(i as int)) == (Words {
                done: text::views(done@),
                word: word@,
                single,
                double,
                escaped,
            }),
        decreases n - i,
    {
        let c: char = v[i];
        assert(s@.take(i + 1).drop_last() =~= s@.take(i as int));
        assert(s@.take(i + 1).last() == c);
        if escaped {
            word.push(c);
            escaped = false;
        } else if c == '\\' && !single {
            escaped = true;
        } else if c == '\'' && !double {
            single = !single;
        } else if c == '"' && !single {
            double = !double;
        } else if text::char_is_white(c) && !single && !double {
            if !word.as_str().is_empty() {
                done.push(word);
                word = "".to_owned();
                proof {
                    reveal_strlit("");
                    assert(word@ =~= Seq::<char>::empty());
                }
            }
        } else {
            word.push(c);
        }
        i += 1;
    }
    assert(s@.take(n as int) =~= s@);
    if !word.as_str().is_empty() {
        done.push(word);
    }
    done
}

/// A word that can only be meant as a path.
pub open spec fn pathy(t: Seq<char>) -> bool {
    t.contains('/') || t.contains('\\') || (t.len() > 0 && t[0] == '~')
}

fn is_pathy(t: &str) -> (r: bool)
    ensures
        r == pathy(t@),
{
    let v = text::chars_of(t);
    let n: usize = v.len();
    if n > 0 && v[0] == '~' {
        return true;
    }
    let mut i: usize = 0;
    while i < n
        invariant
            i <= n,
            n == v@.len(),
            v@ == t@,
            forall|k: int| 0 <= k < i ==> v@[k] != '/' && v@[k] != '\\',
        decreases n - i,
    {
        if v[i] == '/' || v[i] == '\\' {
            assert(t@.contains(v@[i as int]));
            return true;
        }
        i += 1;
    }
    false
}

/// The paths that a message is made of, if it is made of nothing else.
pub open spec fn dragged(s: Seq<char>) -> Option<Seq<Seq<char>>> {
    let words = shell_words(pieces::trim(s));
    if words.len() > 0 && forall|i: int| 0 <= i < words.len() ==> pathy(#[trigger] words[i]) {
        Some(words)
    } else {
        None
    }
}

/// The paths that a message is made of, if it is made of nothing else. Whether
/// files stand there is not asked.
pub fn parse_dragged_paths(input: &str) -> (r: Option<Vec<String>>)
    ensures
        match r {
            Some(v) => dragged(input@) == Some(text::views(v@)),
            None => dragged(input@) is None,
        },
{
    let trimmed = pieces::str_trim(input);
    let words = str_shell_words(&trimmed);
    let n: usize = words.len();
    if n == 0 {
        return None;
    }
    let ghost all = text::views(words@);
    let mut i: usize = 0;
    while i < n
        invariant
            i <= n,
            n == words@.len(),
            all == text::views(words@),
            all == shell_words(pieces::trim(input@)),
            forall|k: int| 0 <= k < i ==> pathy(#[trigger] all[k]),
        decreases n - i,
    {
        assert(all[i as int] == words@[i as int]@);
        if !is_pathy(&words[i]) {
            return None;
        }
        i += 1;
    }
    Some(words)
}

/// What stands behind `~/`, in a path that starts so.
pub fn home_rest(t: &str) -> (r: Option<String>)
    ensures
        text::opt_view(r) == text::strip_prefix(t@, "~/"@),
{
    text::str_strip_prefix(t, "~/")
}

proof fn quoted_prefix(w: Seq<char>, k: int)
    requires
        0 <= k <= w.len(),
        !w.contains('\''),
    ensures
        split_words(seq!['\''] + w.take(k)) == (Words {
            word: w.take(k),
            single: true,
            ..no_words()
        }),
    decreases k,
{
    let s = seq!['\''] + w.take(k);
    if k == 0 {
        assert(s.drop_last() =~= Seq::<char>::empty());
        assert(s.last() == '\'');
        assert(w.take(0) =~= Seq::<char>::empty());
        reveal_with_fuel(split_words, 2);
    } else {
        quoted_prefix(w, k - 1);
        assert(s.drop_last() =~= seq!['\''] + w.take(k - 1));
        assert(s.last() == w[k - 1]);
        assert(w.contains(w[k - 1]));
        assert(w.take(k) =~= w.take(k - 1).push(w[k - 1]));
    }
}

/// A word in single quotes comes back whole, whatever blanks it holds.
pub proof fn quoted_words_come_back(w: Seq<char>)
    requires
        w.len() > 0,
        !w.contains('\''),
    ensures
        shell_words(seq!['\''] + w + seq!['\'']) == seq![w],
{
    let s = seq!['\''] + w + seq!['\''];
    quoted_prefix(w, w.len() as int);
    assert(w.take(w.len() as int) =~= w);
    assert(s.drop_last() =~= seq!['\''] + w);
    assert(s.last() == '\'');
}

// ---- files and models --------------------------------------------------------------------------

/// A file below the folder: its path from there, its size as it is shown, and
/// its full path.
pub struct LocalFile {
    pub rel: String,
    pub size: String,
    pub path: String,
}

pub open spec fn file_item(f: LocalFile) -> blocks::OverlayItemView {
    blocks::OverlayItemView {
        label: f.rel@ + "  · "@ + f.size@,
        detail: panels::no_lines().push(f.rel@).push("size: "@ + f.size@).push(
            "path: "@ + f.path@,
        ).push(Seq::empty()).push("^E opens this folder in your file manager."@),
        action: None,
    }
}

/// A file put among others by its path, behind those that it does not precede.
pub open spec fn file_placed(s: Seq<LocalFile>, f: LocalFile) -> Seq<LocalFile>
    decreases s.len(),
{
    if s.len() == 0 || !order::precedes(f.rel@, s.last().rel@) {
        s.push(f)
    } else {
        file_placed(s.drop_last(), f).push(s.last())
    }
}

/// The files by their paths.
pub open spec fn files_sorted(v: Seq<LocalFile>) -> Seq<LocalFile>
    decreases v.len(),
{
    if v.len() == 0 {
        Seq::empty()
    } else {
        file_placed(files_sorted(v.drop_last()), v.last())
    }
}

fn place_file(s: &mut Vec<LocalFile>, f: LocalFile)
    ensures
        final(s)@ == file_placed(old(s)@, f),
{
    let n: usize = s.len();
    let mut k: usize = n;
    let ghost all = s@;
    assert(all.take(n as int) =~= all);
    assert(file_placed(all, f) + all.skip(n as int) =~= file_placed(all, f));
    while k > 0 && order::str_precedes(&f.rel, &s[k - 1].rel)
        invariant
            k <= n,
            n == all.len(),
            s@ == all,
            file_placed(all, f) == file_placed(all.take(k as int), f) + all.skip(k as int),
        decreases k,
    {
        proof {
            let t = all.take(k as int);
            assert(t.drop_last() =~= all.take(k - 1));
            assert(t.last() == all[k - 1]);
            let p = file_placed(all.take(k - 1), f);
            assert(p.push(all[k - 1]) + all.skip(k as int) =~= p + all.skip(k - 1));
        }
        k -= 1;
    }
    proof {
        let t = all.take(k as int);
        if k > 0 {
            assert(t.last() == all[k - 1]);
        }
        assert(t.push(f) + all.skip(k as int) =~= all.insert(k as int, f));
    }
    s.insert(k, f);
}

fn item_of_file(f: &LocalFile) -> (r: OverlayItem)
    ensures
        r@ == file_item(*f),
{
    let mut label = f.rel.clone();
    label.push_str("  · ");
    label.push_str(&f.size);
    let mut detail: Vec<String> = Vec::new();
    detail.push(f.rel.clone());
    let mut size = "size: ".to_owned();
    size.push_str(&f.size);
    detail.push(size);
    let mut path = "path: ".to_owned();
    path.push_str(&f.path);
    detail.push(path);
    let empty = "".to_owned();
    proof {
        reveal_strlit("");
        assert(empty@ =~= Seq::<char>::empty());
    }
    detail.push(empty);
    detail.push("^E opens this folder in your file manager.".to_owned());
    OverlayItem { label, detail, action: None }
}

/// No more files than this are listed.
pub const MAX_FILES: usize = 2000;

/// The entries of the list of files, by their paths.
pub fn file_items(files: Vec<LocalFile>) -> (r: Vec<OverlayItem>)
    ensures
        blocks::overlay_items(r@) == Seq::new(
            files_sorted(files@).len(),
            |i: int| file_item(files_sorted(files@)[i]),
        ),
{
    let ghost all = files@;
    let mut left = files;
    let mut held: Vec<LocalFile> = Vec::new();
    while left.len() > 0
        invariant
            all == left@ + held@.reverse(),
        decreases left@.len(),
    {
        let ghost before = left@;
        let ghost taken = held@;
        match left.pop() {
            Some(f) => {
                held.push(f);
                assert(before.drop_last() + taken.push(f).reverse() =~= before + taken.reverse());
            },
            None => {
                assert(false);
            },
        }
    }
    let mut sorted: Vec<LocalFile> = Vec::new();
    assert(all =~= held@.reverse());
    assert(all.take(0) =~= Seq::empty());
    while held.len() > 0
        invariant
            held@.len() <= all.len(),
            held@.reverse() == all.skip(all.len() - held@.len()),
            sorted@ == files_sorted(all.take(all.len() - held@.len())),
        decreases held@.len(),
    {
        let ghost before = held@;
        let ghost k = all.len() - held@.len();
        match held.pop() {
            Some(f) => {
                assert(before.reverse()[0] == f);
                assert(all[k] == f);
                assert(all.take(k + 1).drop_last() =~= all.take(k));
                assert(all.take(k + 1).last() == f);
                assert(before.drop_last().reverse() =~= all.skip(k + 1)) by {
                    assert(before.reverse().skip(1) =~= before.drop_last().reverse());
                    assert(all.skip(k).skip(1) =~= all.skip(k + 1));
                }
                place_file(&mut sorted, f);
            },
            None => {
                assert(false);
            },
        }
    }
    assert(all.take(all.len() as int) =~= all);
    let ghost want = Seq::new(sorted@.len(), |i: int| file_item(sorted@[i]));
    let mut out: Vec<OverlayItem> = Vec::new();
    let mut i: usize = 0;
    assert(want.take(0) =~= Seq::empty());
    while i < sorted.len()
        invariant
            i <= sorted@.len(),
            want == Seq::new(sorted@.len(), |i: int| file_item(sorted@[i])),
            blocks::overlay_items(out@) == want.take(i as int),
        decreases sorted@.len() - i,
    {
        out.push(item_of_file(&sorted[i]));
        assert(want.take(i + 1) =~= want.take(i as int).push(want[i as int]));
        i += 1;
    }
    assert(want.take(want.len() as int) =~= want);
    out
}

pub open spec fn files_heading(dir: Seq<char>, n: nat) -> Seq<char> {
    "Files — "@ + dir + " ("@ + digits::dec(n) + " items)"@
}

/// The title over the list of files.
pub fn files_title(dir: &str, n: usize) -> (r: String)
    ensures
        r@ == files_heading(dir@, n as nat),
{
    let mut t = "Files — ".to_owned();
    t.push_str(dir);
    t.push_str(" (");
    let k = digits::usize_to_string(n);
    t.push_str(&k);
    t.push_str(" items)");
    t
}

pub open spec fn model_item(
    id: i64,
    name: Seq<char>,
    current: Option<i64>,
) -> blocks::OverlayItemView {
    blocks::OverlayItemView {
        label: name + (if current == Some(id) || (current is None && id == 0) {
            " ●"@
        } else {
            Seq::empty()
        }),
        detail: panels::no_lines().push(name).push(
            "model id: "@ + digits::dec_int(id as int),
        ).push(Seq::empty()).push(
            "Press Enter to use this model for the current chat."@,
        ).push("Takes effect on the next message you send."@),
        action: Some(digits::dec_int(id as int)),
    }
}

fn item_of_model(id: i64, name: &str, current: Option<i64>) -> (r: OverlayItem)
    ensures
        r@ == model_item(id, name@, current),
{
    let here = match current {
        Some(m) => m == id,
        None => id == 0,
    };
    let mut label = name.to_owned();
    if here {
        label.push_str(" ●");
    } else {
        assert(label@ + Seq::<char>::empty() =~= label@);
    }
    let number = digits::i64_to_string(id);
    let mut detail: Vec<String> = Vec::new();
    detail.push(name.to_owned());
    let mut line = "model id: ".to_owned();
    line.push_str(&number);
    detail.push(line);
    let empty = "".to_owned();
    proof {
        reveal_strlit("");
        assert(empty@ =~= Seq::<char>::empty());
    }
    detail.push(empty);
    detail.push("Press Enter to use this model for the current chat.".to_owned());
    detail.push("Takes effect on the next message you send.".to_owned());
    OverlayItem { label, detail, action: Some(number) }
}

/// The entries of the list of models.
pub open spec fn model_list(t: Seq<(i64, Seq<char>)>, current: Option<i64>) -> Seq<
    blocks::OverlayItemView,
> {
    t.map_values(|m: (i64, Seq<char>)| model_item(m.0, m.1, current))
}

/// The entries of the list of models.
pub fn model_items(models: &Vec<(i64, String)>, current: Option<i64>) -> (r: Vec<OverlayItem>)
    ensures
        blocks::overlay_items(r@) == model_list(api::labels(models@), current),
{
    let ghost want = model_list(api::labels(models@), current);
    let mut out: Vec<OverlayItem> = Vec::new();
    let mut i: usize = 0;
    assert(want.take(0) =~= Seq::empty());
    while i < models.len()
        invariant
            i <= models@.len(),
            want == model_list(api::labels(models@), current),
            blocks::overlay_items(out@) == want.take(i as int),
        decreases models@.len() - i,
    {
        out.push(item_of_model(models[i].0, &models[i].1, current));
        assert(want.take(i + 1) =~= want.take(i as int).push(want[i as int]));
        i += 1;
    }
    assert(want.take(want.len() as int) =~= want);
    out
}

// ---- picking a workspace -------------------------------------------------------------------------

/// What a workspace's workflow adds to its row.
pub open spec fn workflow_badge(status: Option<Seq<char>>) -> Seq<char> {
    match status {
        Some(s) => if s == "running"@ {
            "  ⚙ running"@
        } else if s == "paused"@ {
            "  ⚙ paused"@
        } else if s == "pending"@ {
            "  ⚙ pending"@
        } else if s == "failed"@ {
            "  ⚙ failed"@
        } else if s == "completed"@ {
            "  ⚙ done"@
        } else {
            Seq::empty()
        },
        None => Seq::empty(),
    }
}

fn badge_of(status: &Option<String>) -> (r: String)
    ensures
        r@ == workflow_badge(text::opt_view(*status)),
{
    let none = "".to_owned();
    proof {
        reveal_strlit("");
        assert(none@ =~= Seq::<char>::empty());
    }
    match status {
        Some(s) => {
            if text::str_eq(s, "running") {
                "  ⚙ running".to_owned()
            } else if text::str_eq(s, "paused") {
                "  ⚙ paused".to_owned()
            } else if text::str_eq(s, "pending") {
                "  ⚙ pending".to_owned()
            } else if text::str_eq(s, "failed") {
                "  ⚙ failed".to_owned()
            } else if text::str_eq(s, "completed") {
                "  ⚙ done".to_owned()
            } else {
                none
            }
        },
        None => none,
    }
}

/// The row of a workspace: its name and status, a tick where it is the bound
/// one, how often it was opened, and its workflow.
pub open spec fn workspace_row(
    w: Workspace,
    opens: u64,
    workflow: Option<Seq<char>>,
    bound: Option<Seq<char>>,
) -> Seq<char> {
    panels::named(w.name@, "(unnamed)"@) + "   ["@ + w.status@ + "]"@ + (if bound == Some(w.id@) {
        "  ✓"@
    } else {
        Seq::empty()
    }) + (if opens > 0 {
        "  · ↻ ×"@ + digits::dec(opens as nat)
    } else {
        Seq::empty()
    }) + workflow_badge(workflow)
}

/// The row of a workspace in the first picker.
pub fn workspace_label(
    w: &Workspace,
    opens: u64,
    workflow: &Option<String>,
    bound: &Option<String>,
) -> (r: String)
    ensures
        r@ == workspace_row(*w, opens, text::opt_view(*workflow), text::opt_view(*bound)),
{
    let mut t = bind_label(w);
    if text::opt_is(bound, &w.id) {
        t.push_str("  ✓");
    } else {
        assert(t@ + Seq::<char>::empty() =~= t@);
    }
    if opens > 0 {
        let mut recent = "  · ↻ ×".to_owned();
        let n = digits::u64_to_string(opens);
        recent.push_str(&n);
        t.push_str(&recent);
    } else {
        assert(t@ + Seq::<char>::empty() =~= t@);
    }
    let badge = badge_of(workflow);
    t.push_str(&badge);
    t
}

/// The row of a workspace that is to be bound.
pub fn bind_label(w: &Workspace) -> (r: String)
    ensures
        r@ == panels::named(w.name@, "(unnamed)"@) + "   ["@ + w.status@ + "]"@,
{
    let mut t = if w.name.as_str().is_empty() {
        "(unnamed)".to_owned()
    } else {
        w.name.clone()
    };
    t.push_str("   [");
    t.push_str(&w.status);
    t.push_str("]");
    t
}

/// The rows of the first picker: a new workspace, none, and those there are.
pub fn workspace_labels(
    ws: &Vec<Workspace>,
    opens: &Vec<u64>,
    workflows: &Vec<Option<String>>,
    bound: &Option<String>,
) -> (r: Vec<String>)
    requires
        opens@.len() == ws@.len(),
        workflows@.len() == ws@.len(),
    ensures
        text::views(r@) == Seq::empty().push("➕  New workspace"@).push(
            "↪  No workspace (all threads)"@,
        ) + Seq::new(
            ws@.len(),
            |i: int|
                workspace_row(
                    ws@[i],
                    opens@[i],
                    text::opt_view(workflows@[i]),
                    text::opt_view(*bound),
                ),
        ),
{
    let ghost b = text::opt_view(*bound);
    let ghost want = Seq::new(
        ws@.len(),
        |i: int| workspace_row(ws@[i], opens@[i], text::opt_view(workflows@[i]), b),
    );
    let mut out: Vec<String> = Vec::new();
    out.push("➕  New workspace".to_owned());
    out.push("↪  No workspace (all threads)".to_owned());
    let ghost head = text::views(out@);
    let mut i: usize = 0;
    assert(head + want.take(0) =~= head);
    while i < ws.len()
        invariant
            i <= ws@.len(),
            opens@.len() == ws@.len(),
            workflows@.len() == ws@.len(),
            b == text::opt_view(*bound),
            want == Seq::new(
                ws@.len(),
                |i: int| workspace_row(ws@[i], opens@[i], text::opt_view(workflows@[i]), b),
            ),
            text::views(out@) == head + want.take(i as int),
        decreases ws@.len() - i,
    {
        out.push(workspace_label(&ws[i], opens[i], &workflows[i], bound));
        assert(head + want.take(i + 1) =~= (head + want.take(i as int)).push(want[i as int]));
        i += 1;
    }
    assert(want.take(want.len() as int) =~= want);
    out
}

/// What a choice in the first picker means.
#[derive(Clone, Copy, Debug, PartialEq, Eq, Structural)]
pub enum WorkspaceNav {
    /// A workspace is to be made.
    Create,
    /// No workspace: all threads.
    Unscoped,
    /// The workspace at this position.
    Pick(usize),
    /// The live view of the workflow of the workspace at this position.
    Watch(usize),
    /// The picker is shown again.
    Again,
    Quit,
}

/// What a choice in the first picker means: the first two rows stand before the
/// workspaces, and the shortcut only opens a workflow that there is.
pub open spec fn workspace_nav(n: Nav, has_workflow: Seq<bool>) -> WorkspaceNav {
    match n {
        Nav::Item(i) => if i == 0 {
            WorkspaceNav::Create
        } else if i == 1 {
            WorkspaceNav::Unscoped
        } else {
            WorkspaceNav::Pick((i - 2) as usize)
        },
        Nav::Shortcut(i) => if i >= 2 && has_workflow[i - 2] {
            WorkspaceNav::Watch((i - 2) as usize)
        } else {
            WorkspaceNav::Again
        },
        Nav::Back | Nav::Quit => WorkspaceNav::Quit,
    }
}

/// What a choice in the first picker means.
pub fn choose_workspace(n: Nav, has_workflow: &Vec<bool>) -> (r: WorkspaceNav)
    requires
        n matches Nav::Item(i) ==> i < has_workflow@.len() + 2,
        n matches Nav::Shortcut(i) ==> i < has_workflow@.len() + 2,
    ensures
        r == workspace_nav(n, has_workflow@),
        r matches WorkspaceNav::Pick(i) ==> i < has_workflow@.len(),
        r matches WorkspaceNav::Watch(i) ==> i < has_workflow@.len() && has_workflow@[i as int],
{
    match n {
        Nav::Item(i) => {
            if i == 0 {
                WorkspaceNav::Create
            } else if i == 1 {
                WorkspaceNav::Unscoped
            } else {
                WorkspaceNav::Pick(i - 2)
            }
        },
        Nav::Shortcut(i) => {
            if i >= 2 && has_workflow[i - 2] {
                WorkspaceNav::Watch(i - 2)
            } else {
                WorkspaceNav::Again
            }
        },
        Nav::Back | Nav::Quit => WorkspaceNav::Quit,
    }
}

/// The name of a new workspace, as it was entered.
pub fn new_workspace_name(entered: &str) -> (r: String)
    ensures
        r@ == panels::named(pieces::trim(entered@), "CLI Workspace"@),
        r@.len() > 0,
{
    let t = pieces::str_trim(entered);
    if t.as_str().is_empty() {
        proof {
            reveal_strlit("CLI Workspace");
        }
        "CLI Workspace".to_owned()
    } else {
        t
    }
}

/// The first message of a new workspace, where one was entered.
pub fn setup_prompt(entered: &Option<String>) -> (r: Option<String>)
    ensures
        text::opt_view(r) == match text::opt_view(*entered) {
            Some(p) => if pieces::is_blank(p) {
                None
            } else {
                Some(pieces::trim(p))
            },
            None => None,
        },
{
    match entered {
        Some(p) => {
            let t = pieces::str_trim(p);
            if t.as_str().is_empty() {
                None
            } else {
                Some(t)
            }
        },
        None => None,
    }
}

// ---- picking a thread ------------------------------------------------------------------------------

/// The row of a thread.
pub open spec fn thread_row(t: Thread) -> Seq<char> {
    panels::named(t.title@, "(untitled)"@) + "   ["@ + t.status@ + "]"@ + (if t.last_message@.len()
        == 0 {
        Seq::empty()
    } else {
        "  — "@ + text::truncated(t.last_message@, 50)
    })
}

fn thread_label(t: &Thread) -> (r: String)
    ensures
        r@ == thread_row(*t),
{
    let mut s = if t.title.as_str().is_empty() {
        "(untitled)".to_owned()
    } else {
        t.title.clone()
    };
    s.push_str("   [");
    s.push_str(&t.status);
    s.push_str("]");
    if !t.last_message.as_str().is_empty() {
        let mut last = "  — ".to_owned();
        let short = text::truncate(&t.last_message, 50);
        last.push_str(&short);
        s.push_str(&last);
    } else {
        assert(s@ + Seq::<char>::empty() =~= s@);
    }
    s
}

/// The rows of the second picker: a new thread, and those there are.
pub fn thread_labels(ts: &Vec<Thread>) -> (r: Vec<String>)
    ensures
        text::views(r@) == Seq::empty().push("➕  New thread"@) + Seq::new(
            ts@.len(),
            |i: int| thread_row(ts@[i]),
        ),
{
    let ghost want = Seq::new(ts@.len(), |i: int| thread_row(ts@[i]));
    let mut out: Vec<String> = Vec::new();
    out.push("➕  New thread".to_owned());
    let ghost head = text::views(out@);
    let mut i: usize = 0;
    assert(head + want.take(0) =~= head);
    while i < ts.len()
        invariant
            i <= ts@.len(),
            want == Seq::new(ts@.len(), |i: int| thread_row(ts@[i])),
            text::views(out@) == head + want.take(i as int),
        decreases ts@.len() - i,
    {
        out.push(thread_label(&ts[i]));
        assert(head + want.take(i + 1) =~= (head + want.take(i as int)).push(want[i as int]));
        i += 1;
    }
    assert(want.take(want.len() as int) =~= want);
    out
}

/// What a choice in the second picker means.
#[derive(Clone, Copy, Debug, PartialEq, Eq, Structural)]
pub enum ThreadNav {
    /// A thread is to be made.
    Create,
    /// The thread at this position.
    Pick(usize),
    Back,
    Quit,
}

/// What a choice in the second picker means: the first row stands before the
/// threads, and the shortcut is a step back.
pub fn choose_thread(n: Nav) -> (r: ThreadNav)
    ensures
        r == match n {
            Nav::Item(i) => if i == 0 {
                ThreadNav::Create
            } else {
                ThreadNav::Pick((i - 1) as usize)
            },
            Nav::Back | Nav::Shortcut(_) => ThreadNav::Back,
            Nav::Quit => ThreadNav::Quit,
        },
{
    match n {
        Nav::Item(i) => {
            if i == 0 {
                ThreadNav::Create
            } else {
                ThreadNav::Pick(i - 1)
            }
        },
        Nav::Back | Nav::Shortcut(_) => ThreadNav::Back,
        Nav::Quit => ThreadNav::Quit,
    }
}

/// The first workspace of that id.
pub open spec fn workspace_at(ws: Seq<Workspace>, id: Seq<char>, from: int) -> Option<Workspace>
    decreases ws.len() - from,
{
    if from < 0 || from >= ws.len() {
        None
    } else if ws[from].id@ == id {
        Some(ws[from])
    } else {
        workspace_at(ws, id, from + 1)
    }
}

/// The name of the workspace of that id, where it is known.
pub fn name_of_workspace(ws: &Vec<Workspace>, id: &str) -> (r: Option<String>)
    ensures
        text::opt_view(r) == match workspace_at(ws@, id@, 0) {
            Some(w) => Some(w.name@),
            None => None,
        },
{
    let mut i: usize = 0;
    while i < ws.len()
        invariant
            i <= ws@.len(),
            workspace_at(ws@, id@, 0) == workspace_at(ws@, id@, i as int),
        decreases ws@.len() - i,
    {
        if text::str_eq(&ws[i].id, id) {
            return Some(ws[i].name.clone());
        }
        i += 1;
    }
    None
}

/// The first thread of that id.
pub open spec fn thread_at(ts: Seq<Thread>, id: Seq<char>, from: int) -> Option<Thread>
    decreases ts.len() - from,
{
    if from < 0 || from >= ts.len() {
        None
    } else if ts[from].id@ == id {
        Some(ts[from])
    } else {
        thread_at(ts, id, from + 1)
    }
}

/// The title of the thread of that id, where it has one.
pub fn title_of_thread(ts: &Vec<Thread>, id: &str) -> (r: Option<String>)
    ensures
        text::opt_view(r) == match thread_at(ts@, id@, 0) {
            Some(t) => if t.title@.len() == 0 {
                None
            } else {
                Some(t.title@)
            },
            None => None,
        },
{
    let mut i: usize = 0;
    while i < ts.len()
        invariant
            i <= ts@.len(),
            thread_at(ts@, id@, 0) == thread_at(ts@, id@, i as int),
        decreases ts@.len() - i,
    {
        if text::str_eq(&ts[i].id, id) {
            if ts[i].title.as_str().is_empty() {
                return None;
            }
            return Some(ts[i].title.clone());
        }
        i += 1;
    }
    None
}

/// The lines under the banner of the second picker: the bound workspace and its
/// counts. The credits are written with two decimals.
pub open spec fn context_text(
    auth: Seq<char>,
    id: Seq<char>,
    name: Option<Seq<char>>,
    threads: nat,
    credits: Seq<char>,
    findings: nat,
    files: nat,
) -> Seq<char> {
    auth + "\n⊞ workspace: "@ + (if name is Some && name->0.len() > 0 {
        name->0
    } else {
        editor::cut(id, 8) + "…"@
    }) + "\n"@ + digits::dec(threads) + " threads  ·  ◈ "@ + credits + " credits  ·  ⚠ "@
        + digits::dec(findings) + " findings  ·  "@ + digits::dec(files) + " files"@
}

/// The lines under the banner of the second picker, of a bound workspace.
pub fn workspace_context(
    auth: &str,
    id: &str,
    name: &Option<String>,
    threads: usize,
    credits: &str,
    findings: usize,
    files: usize,
) -> (r: String)
    requires
        editor::can_cut(id@, 8),
    ensures
        r@ == context_text(
            auth@,
            id@,
            text::opt_view(*name),
            threads as nat,
            credits@,
            findings as nat,
            files as nat,
        ),
{
    let mut t = auth.to_owned();
    t.push_str("\n⊞ workspace: ");
    let known = match name {
        Some(n) => !n.as_str().is_empty(),
        None => false,
    };
    if known {
        if let Some(n) = name {
            t.push_str(n);
        }
    } else {
        let mut short = editor::str_cut(id, 8);
        short.push_str("…");
        t.push_str(&short);
    }
    t.push_str("\n");
    let n1 = digits::usize_to_string(threads);
    t.push_str(&n1);
    t.push_str(" threads  ·  ◈ ");
    t.push_str(credits);
    t.push_str(" credits  ·  ⚠ ");
    let n2 = digits::usize_to_string(findings);
    t.push_str(&n2);
    t.push_str(" findings  ·  ");
    let n3 = digits::usize_to_string(files);
    t.push_str(&n3);
    t.push_str(" files");
    t
}

/// The lines under the banner of the second picker, without a workspace.
pub fn unscoped_context(auth: &str) -> (r: String)
    ensures
        r@ == auth@ + "\n⊞ workspace: (none — all threads)"@,
{
    let mut t = auth.to_owned();
    t.push_str("\n⊞ workspace: (none — all threads)");
    t
}

/// The lines under the banner of the first picker.
pub fn shortcut_context(auth: &str) -> (r: String)
    ensures
        r@ == auth@ + "\n↹ Tab on a workspace: open live workflow TUI"@,
{
    let mut t = auth.to_owned();
    t.push_str("\n↹ Tab on a workspace: open live workflow TUI");
    t
}

// ---- the way into a chat ---------------------------------------------------------------------------

/// The way into a chat: the workspace so far, and whether it was given from the
/// start.
pub struct Way {
    pub workspace: Option<String>,
    pub given: bool,
}

pub struct WayView {
    pub workspace: Option<Seq<char>>,
    pub given: bool,
}

impl View for Way {
    type V = WayView;

    open spec fn view(&self) -> WayView {
        WayView { workspace: text::opt_view(self.workspace), given: self.given }
    }
}

/// What comes back from the pickers.
pub enum WayEvent {
    /// A workspace, or none.
    Workspace(Option<String>),
    /// A workspace was made, maybe with a thread to set it up and a first
    /// message for it.
    Created { id: String, setup_thread: Option<String>, prompt: Option<String> },
    Thread(String),
    Back,
    Quit,
}

/// Where the way goes on.
pub enum WayStep {
    PickWorkspace,
    PickThread,
    /// The thread is opened, and the message is sent at once.
    Open { thread: String, message: Option<String> },
    Leave,
}

pub enum WayStepView {
    PickWorkspace,
    PickThread,
    Open { thread: Seq<char>, message: Option<Seq<char>> },
    Leave,
}

impl View for WayStep {
    type V = WayStepView;

    open spec fn view(&self) -> WayStepView {
        match self {
            WayStep::PickWorkspace => WayStepView::PickWorkspace,
            WayStep::PickThread => WayStepView::PickThread,
            WayStep::Open { thread, message } => WayStepView::Open {
                thread: thread@,
                message: text::opt_view(*message),
            },
            WayStep::Leave => WayStepView::Leave,
        }
    }
}

/// Where the way starts: only a thread that is named skips the pickers, and a
/// workspace that is named skips the first.
pub open spec fn way_start(thread: Option<Seq<char>>, workspace: bool, fresh: bool) -> WayStepView {
    match thread {
        Some(t) if !fresh => WayStepView::Open { thread: t, message: None },
        _ => if workspace {
            WayStepView::PickThread
        } else {
            WayStepView::PickWorkspace
        },
    }
}

/// Where the way goes on: back from the threads leads to the workspaces, unless
/// the workspace was given.
pub open spec fn way_on(w: WayView, e: WayEvent) -> (WayView, WayStepView) {
    match e {
        WayEvent::Workspace(id) => (
            WayView { workspace: text::opt_view(id), ..w },
            WayStepView::PickThread,
        ),
        WayEvent::Created { id, setup_thread, prompt } => (
            WayView { workspace: Some(id@), ..w },
            match setup_thread {
                Some(t) => WayStepView::Open { thread: t@, message: text::opt_view(prompt) },
                None => WayStepView::PickThread,
            },
        ),
        WayEvent::Thread(t) => (w, WayStepView::Open { thread: t@, message: None }),
        WayEvent::Back => (
            w,
            if w.given {
                WayStepView::Leave
            } else {
                WayStepView::PickWorkspace
            },
        ),
        WayEvent::Quit => (w, WayStepView::Leave),
    }
}

impl Way {
    /// The start of the way. `bound` is the workspace of the profile.
    pub fn start(
        thread: Option<String>,
        workspace: Option<String>,
        bound: &Option<String>,
        fresh: bool,
    ) -> (r: (Way, WayStep))
        ensures
            r.0@ == (WayView {
                workspace: match workspace {
                    Some(w) => Some(w@),
                    None => text::opt_view(*bound),
                },
                given: workspace is Some,
            }),
            r.1@ == way_start(text::opt_view(thread), workspace is Some, fresh),
    {
        let given = workspace.is_some();
        let way = Way {
            workspace: match workspace {
                Some(w) => Some(w),
                None => text::clone_opt(bound),
            },
            given,
        };
        if !fresh {
            if let Some(t) = thread {
                return (way, WayStep::Open { thread: t, message: None });
            }
        }
        if given {
            (way, WayStep::PickThread)
        } else {
            (way, WayStep::PickWorkspace)
        }
    }

    /// Where the way goes on.
    pub fn step(&mut self, e: WayEvent) -> (r: WayStep)
        ensures
            (final(self)@, r@) == way_on(old(self)@, e),
    {
        match e {
            WayEvent::Workspace(id) => {
                self.workspace = id;
                WayStep::PickThread
            },
            WayEvent::Created { id, setup_thread, prompt } => {
                self.workspace = Some(id);
                match setup_thread {
                    Some(t) => WayStep::Open { thread: t, message: prompt },
                    None => WayStep::PickThread,
                }
            },
            WayEvent::Thread(t) => WayStep::Open { thread: t, message: None },
            WayEvent::Back => {
                if self.given {
                    WayStep::Leave
                } else {
                    WayStep::PickWorkspace
                }
            },
            WayEvent::Quit => WayStep::Leave,
        }
    }
}

/// A workspace that was given is never asked for, and stays.
pub proof fn given_workspaces_stay(w: WayView, e: WayEvent)
    requires
        w.given,
        !(e is Workspace),
        !(e is Created),
    ensures
        way_on(w, e).0 == w,
        way_on(w, e).1 != WayStepView::PickWorkspace,
{
}

/// A model that is chosen from the list is the one that the row shows.
pub proof fn listed_models_are_chosen(t: Seq<(i64, Seq<char>)>, i: int, current: Option<i64>)
    requires
        0 <= i < 19,
    ensures
        ({
            let row = api::offered_models(t)[i];
            let item = model_list(api::offered_models(t), current)[i];
            crate::chat::chosen_model(item.action->0) == if row.0 == 0 {
                None
            } else {
                Some(row.0)
            }
        }),
{
    let id = api::BUILTIN_MODELS@[i];
    assert(0 <= id <= 100) by {
        assert(api::BUILTIN_MODELS@.len() == 19);
    }
    digits::dec_reads_back(id as nat);
}

} // verus!
