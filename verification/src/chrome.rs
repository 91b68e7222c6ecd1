//! Where the browser is found, how it is started, and what its commands do.

use vstd::prelude::*;
use crate::codec;
use crate::config;
use crate::digits;
use crate::json;
use crate::json::Json;
use crate::text;

verus! {

broadcast use {
    vstd::seq::group_seq_axioms,
    vstd::string::group_string_axioms,
    text::views_push,
    text::views_empty,
};

// ---- where it is found ------------------------------------------------------------------------------

/// The name of a machine in the builds for testing.
pub open spec fn build_platform(os: Seq<char>, arch: Seq<char>) -> Option<Seq<char>> {
    if os == "macos"@ && arch == "aarch64"@ {
        Some("mac-arm64"@)
    } else if os == "macos"@ && arch == "x86_64"@ {
        Some("mac-x64"@)
    } else if os == "linux"@ && arch == "x86_64"@ {
        Some("linux64"@)
    } else if os == "windows"@ && arch == "x86_64"@ {
        Some("win64"@)
    } else {
        None
    }
}

pub open spec fn static_view(o: Option<&'static str>) -> Option<Seq<char>> {
    match o {
        Some(s) => Some(s@),
        None => None,
    }
}

/// The name of a machine in the builds for testing.
pub fn cft_platform(os: &str, arch: &str) -> (r: Option<&'static str>)
    ensures
        static_view(r) == build_platform(os@, arch@),
{
    if text::str_eq(os, "macos") && text::str_eq(arch, "aarch64") {
        Some("mac-arm64")
    } else if text::str_eq(os, "macos") && text::str_eq(arch, "x86_64") {
        Some("mac-x64")
    } else if text::str_eq(os, "linux") && text::str_eq(arch, "x86_64") {
        Some("linux64")
    } else if text::str_eq(os, "windows") && text::str_eq(arch, "x86_64") {
        Some("win64")
    } else {
        None
    }
}

/// Where the program stands in a build for testing: its folder, and the path in
/// it.
pub open spec fn build_path(platform: Seq<char>) -> (Seq<char>, Seq<char>) {
    (
        "chrome-"@ + platform,
        if platform == "mac-arm64"@ || platform == "mac-x64"@ {
            "Google Chrome for Testing.app/Contents/MacOS/Google Chrome for Testing"@
        } else if platform == "win64"@ {
            "chrome.exe"@
        } else {
            "chrome"@
        },
    )
}

/// Where the program stands in a build for testing.
pub fn cft_binary_rel(platform: &str) -> (r: (String, &'static str))
    ensures
        (r.0@, r.1@) == build_path(platform@),
{
    let mut dir = "chrome-".to_owned();
    dir.push_str(platform);
    if text::str_eq(platform, "mac-arm64") || text::str_eq(platform, "mac-x64") {
        (dir, "Google Chrome for Testing.app/Contents/MacOS/Google Chrome for Testing")
    } else if text::str_eq(platform, "win64") {
        (dir, "chrome.exe")
    } else {
        (dir, "chrome")
    }
}

/// Where a browser usually stands.
pub open spec fn usual_places(os: Seq<char>) -> Seq<Seq<char>> {
    let none = Seq::<Seq<char>>::empty();
    if os == "macos"@ {
        none.push("/Applications/Google Chrome.app/Contents/MacOS/Google Chrome"@).push(
            "/Applications/Chromium.app/Contents/MacOS/Chromium"@,
        ).push(
            "/Applications/Google Chrome for Testing.app/Contents/MacOS/Google Chrome for Testing"@,
        )
    } else if os == "windows"@ {
        none.push("C:\\Program Files\\Google\\Chrome\\Application\\chrome.exe"@).push(
            "C:\\Program Files (x86)\\Google\\Chrome\\Application\\chrome.exe"@,
        )
    } else {
        none.push("/usr/bin/google-chrome"@).push("/usr/bin/google-chrome-stable"@).push(
            "/usr/bin/chromium"@,
        ).push("/usr/bin/chromium-browser"@).push("/snap/bin/chromium"@)
    }
}

/// Where a browser usually stands.
pub fn system_candidates(os: &str) -> (r: Vec<String>)
    ensures
        text::views(r@) == usual_places(os@),
{
    let mut v: Vec<String> = Vec::new();
    if text::str_eq(os, "macos") {
        v.push("/Applications/Google Chrome.app/Contents/MacOS/Google Chrome".to_owned());
        v.push("/Applications/Chromium.app/Contents/MacOS/Chromium".to_owned());
        v.push(
            "/Applications/Google Chrome for Testing.app/Contents/MacOS/Google Chrome for Testing".to_owned(),
        );
    } else if text::str_eq(os, "windows") {
        v.push("C:\\Program Files\\Google\\Chrome\\Application\\chrome.exe".to_owned());
        v.push("C:\\Program Files (x86)\\Google\\Chrome\\Application\\chrome.exe".to_owned());
    } else {
        v.push("/usr/bin/google-chrome".to_owned());
        v.push("/usr/bin/google-chrome-stable".to_owned());
        v.push("/usr/bin/chromium".to_owned());
        v.push("/usr/bin/chromium-browser".to_owned());
        v.push("/snap/bin/chromium".to_owned());
    }
    v
}

/// What a browser may be called on the search path.
pub fn path_names() -> (r: Vec<String>)
    ensures
        text::views(r@) == Seq::<Seq<char>>::empty().push("google-chrome"@).push(
            "google-chrome-stable"@,
        ).push("chromium"@).push("chromium-browser"@).push("chrome"@),
{
    let mut v: Vec<String> = Vec::new();
    v.push("google-chrome".to_owned());
    v.push("google-chrome-stable".to_owned());
    v.push("chromium".to_owned());
    v.push("chromium-browser".to_owned());
    v.push("chrome".to_owned());
    v
}

/// How a browser is installed.
pub open spec fn how_to_install(os: Seq<char>) -> Seq<char> {
    if os == "macos"@ {
        "Install Google Chrome:\n  • brew install --cask google-chrome\n  • or download https://www.google.com/chrome/"@
    } else if os == "windows"@ {
        "Install Google Chrome:\n  • winget install -e --id Google.Chrome\n  • or download https://www.google.com/chrome/"@
    } else if os == "linux"@ {
        "Install Chrome/Chromium:\n  • Debian/Ubuntu: sudo apt install -y chromium   (or google-chrome-stable)\n  • Fedora: sudo dnf install -y chromium\n  • or download https://www.google.com/chrome/"@
    } else {
        "Install Google Chrome / Chromium from https://www.google.com/chrome/"@
    }
}

/// What is said where there is no browser.
pub fn install_instructions(os: &str) -> (r: String)
    ensures
        r@ == "Google Chrome / Chromium is required for browser_* tools but none was found.\n\n"@
            + how_to_install(os@)
            + "\n\nAlready installed elsewhere? Point at it: STROBES_AI_CHROME=/path/to/chrome\nOr auto-download a self-contained Chrome for Testing: set STROBES_AI_BROWSER_AUTOINSTALL=1 and retry."@,
{
    let mut s =
        "Google Chrome / Chromium is required for browser_* tools but none was found.\n\n".to_owned();
    if text::str_eq(os, "macos") {
        s.push_str(
            "Install Google Chrome:\n  • brew install --cask google-chrome\n  • or download https://www.google.com/chrome/",
        );
    } else if text::str_eq(os, "windows") {
        s.push_str(
            "Install Google Chrome:\n  • winget install -e --id Google.Chrome\n  • or download https://www.google.com/chrome/",
        );
    } else if text::str_eq(os, "linux") {
        s.push_str(
            "Install Chrome/Chromium:\n  • Debian/Ubuntu: sudo apt install -y chromium   (or google-chrome-stable)\n  • Fedora: sudo dnf install -y chromium\n  • or download https://www.google.com/chrome/",
        );
    } else {
        s.push_str("Install Google Chrome / Chromium from https://www.google.com/chrome/");
    }
    s.push_str(
        "\n\nAlready installed elsewhere? Point at it: STROBES_AI_CHROME=/path/to/chrome\nOr auto-download a self-contained Chrome for Testing: set STROBES_AI_BROWSER_AUTOINSTALL=1 and retry.",
    );
    s
}

/// The first build from `i` on for a platform.
pub open spec fn build_at(v: Seq<json::JsonView>, platform: Seq<char>, i: int) -> Option<
    json::JsonView,
>
    decreases v.len() - i,
{
    if i < 0 || i >= v.len() {
        None
    } else if json::as_text(json::field(v[i], "platform"@)) == Some(platform) {
        Some(v[i])
    } else {
        build_at(v, platform, i + 1)
    }
}

/// The builds that a manifest lists.
pub open spec fn builds_in(manifest: json::JsonView) -> Seq<json::JsonView> {
    json::items(
        json::opt_field(
            json::opt_field(
                json::opt_field(json::field(manifest, "channels"@), "Stable"@),
                "downloads"@,
            ),
            "chrome"@,
        ),
    )
}

/// Where the stable build for a platform is fetched from.
pub open spec fn build_url(manifest: json::JsonView, platform: Seq<char>) -> Result<
    Seq<char>,
    Seq<char>,
> {
    match json::as_text(json::opt_field(build_at(builds_in(manifest), platform, 0), "url"@)) {
        Some(u) => Ok(u),
        None => Err("no Chrome for Testing build for "@ + platform),
    }
}

/// Where the stable build for a platform is fetched from.
pub fn find_build(manifest: &Json, platform: &str) -> (r: Result<String, String>)
    ensures
        config::text_result(r) == build_url(manifest@, platform@),
{
    let list = json::opt_get(
        json::opt_get(
            json::opt_get(manifest.get("channels"), "Stable"),
            "downloads",
        ),
        "chrome",
    );
    let mut found: Option<&Json> = None;
    if let Some(v) = json::opt_items(list) {
        let ghost all = json::values(v@);
        let n: usize = v.len();
        let mut i: usize = 0;
        while i < n && found.is_none()
            invariant
                i <= n,
                n == v@.len(),
                all == json::values(v@),
                found is Some ==> build_at(all, platform@, 0) == json::opt_value(found),
                found is None ==> build_at(all, platform@, 0) == build_at(
                    all,
                    platform@,
                    i as int,
                ),
            decreases n - i,
        {
            proof {
                json::values_index(v@);
            }
            let p = json::opt_text(v[i].get("platform"));
            if text::opt_is(&p, platform) {
                found = Some(&v[i]);
            }
            i += 1;
        }
        proof {
            json::values_index(v@);
        }
    }
    match json::opt_text(json::opt_get(found, "url")) {
        Some(u) => Ok(u),
        None => {
            let mut e = "no Chrome for Testing build for ".to_owned();
            e.push_str(platform);
            Err(e)
        },
    }
}

// ---- how it is started --------------------------------------------------------------------------------

/// The arguments that start the browser with a profile of its own.
pub open spec fn launch_view(port: u16, profile: Seq<char>, headless: bool) -> Seq<Seq<char>> {
    let v = Seq::<Seq<char>>::empty().push(
        "--remote-debugging-port="@ + digits::dec(port as nat),
    ).push("--user-data-dir="@ + profile).push("--no-first-run"@).push(
        "--no-default-browser-check"@,
    ).push("--disable-dev-shm-usage"@).push("--disable-extensions"@);
    if headless {
        v.push("--headless=new"@)
    } else {
        v
    }
}

/// The arguments that start the browser with a profile of its own.
pub fn launch_args(port: u16, profile: &str, headless: bool) -> (r: Vec<String>)
    ensures
        text::views(r@) == launch_view(port, profile@, headless),
{
    let mut v: Vec<String> = Vec::new();
    let mut p = "--remote-debugging-port=".to_owned();
    let n = digits::u64_to_string(port as u64);
    p.push_str(&n);
    v.push(p);
    let mut d = "--user-data-dir=".to_owned();
    d.push_str(profile);
    v.push(d);
    v.push("--no-first-run".to_owned());
    v.push("--no-default-browser-check".to_owned());
    v.push("--disable-dev-shm-usage".to_owned());
    v.push("--disable-extensions".to_owned());
    if headless {
        v.push("--headless=new".to_owned());
    }
    v
}

// ---- commands ------------------------------------------------------------------------------------------

/// What a command does.
pub enum BrowserStep {
    Ready,
    Navigate(String),
    Snapshot,
    Click(String),
    Type { selector: String, text: String },
    /// The page moves by so many pixels, and this is said of it.
    Scroll { dy: i64, said: String },
    Script(String),
    Screenshot,
    Cookies,
    Unknown(String),
}

pub enum BrowserStepView {
    Ready,
    Navigate(Seq<char>),
    Snapshot,
    Click(Seq<char>),
    Type { selector: Seq<char>, text: Seq<char> },
    Scroll { dy: int, said: Seq<char> },
    Script(Seq<char>),
    Screenshot,
    Cookies,
    Unknown(Seq<char>),
}

impl View for BrowserStep {
    type V = BrowserStepView;

    open spec fn view(&self) -> BrowserStepView {
        match self {
            BrowserStep::Ready => BrowserStepView::Ready,
            BrowserStep::Navigate(u) => BrowserStepView::Navigate(u@),
            BrowserStep::Snapshot => BrowserStepView::Snapshot,
            BrowserStep::Click(s) => BrowserStepView::Click(s@),
            BrowserStep::Type { selector, text } => BrowserStepView::Type {
                selector: selector@,
                text: text@,
            },
            BrowserStep::Scroll { dy, said } => BrowserStepView::Scroll {
                dy: *dy as int,
                said: said@,
            },
            BrowserStep::Script(s) => BrowserStepView::Script(s@),
            BrowserStep::Screenshot => BrowserStepView::Screenshot,
            BrowserStep::Cookies => BrowserStepView::Cookies,
            BrowserStep::Unknown(e) => BrowserStepView::Unknown(e@),
        }
    }
}

/// How far a page is to be scrolled.
pub open spec fn scroll_amount(input: json::JsonView) -> int {
    match json::as_int(json::field(input, "amount"@)) {
        Some(n) => n,
        None => 600,
    }
}

/// What a command does.
pub open spec fn step_of(cmd: Seq<char>, input: json::JsonView) -> BrowserStepView {
    let selector = json::text_field(input, "selector"@);
    if cmd == "browser_init"@ {
        BrowserStepView::Ready
    } else if cmd == "browser_navigate"@ {
        let u = json::text_field(input, "url"@);
        BrowserStepView::Navigate(
            if u.len() == 0 {
                "about:blank"@
            } else {
                u
            },
        )
    } else if cmd == "browser_snapshot"@ {
        BrowserStepView::Snapshot
    } else if cmd == "browser_click"@ {
        BrowserStepView::Click(selector)
    } else if cmd == "browser_type"@ {
        BrowserStepView::Type { selector, text: json::text_field(input, "text"@) }
    } else if cmd == "browser_scroll"@ {
        let dir = json::text_field(input, "direction"@);
        let amount = scroll_amount(input);
        BrowserStepView::Scroll {
            dy: if dir == "up"@ {
                -amount
            } else {
                amount
            },
            said: "scrolled "@ + (if dir.len() == 0 {
                "down"@
            } else {
                dir
            }) + " "@ + digits::dec_int(amount) + "px"@,
        }
    } else if cmd == "browser_execute_script"@ {
        BrowserStepView::Script(json::text_field(input, "script"@))
    } else if cmd == "browser_screenshot"@ {
        BrowserStepView::Screenshot
    } else if cmd == "browser_get_cookies"@ {
        BrowserStepView::Cookies
    } else {
        BrowserStepView::Unknown("unknown browser command: "@ + cmd)
    }
}

/// What a command does. A page cannot be scrolled up by the least of all
/// numbers.
pub fn browser_step(cmd: &str, input: &Json) -> (r: BrowserStep)
    requires
        scroll_amount(input@) != i64::MIN,
    ensures
        r@ == step_of(cmd@, input@),
{
    if text::str_eq(cmd, "browser_init") {
        BrowserStep::Ready
    } else if text::str_eq(cmd, "browser_navigate") {
        let u = input.get_text("url");
        if u.as_str().is_empty() {
            BrowserStep::Navigate("about:blank".to_owned())
        } else {
            BrowserStep::Navigate(u)
        }
    } else if text::str_eq(cmd, "browser_snapshot") {
        BrowserStep::Snapshot
    } else if text::str_eq(cmd, "browser_click") {
        BrowserStep::Click(input.get_text("selector"))
    } else if text::str_eq(cmd, "browser_type") {
        BrowserStep::Type { selector: input.get_text("selector"), text: input.get_text("text") }
    } else if text::str_eq(cmd, "browser_scroll") {
        let amount: i64 = match json::opt_int(input.get("amount")) {
            Some(n) => n,
            None => 600,
        };
        let dir = input.get_text("direction");
        let dy: i64 = if text::str_eq(&dir, "up") {
            -amount
        } else {
            amount
        };
        let mut said = "scrolled ".to_owned();
        if dir.as_str().is_empty() {
            said.push_str("down");
        } else {
            said.push_str(&dir);
        }
        said.push_str(" ");
        let n = digits::i64_to_string(amount);
        said.push_str(&n);
        said.push_str("px");
        BrowserStep::Scroll { dy, said }
    } else if text::str_eq(cmd, "browser_execute_script") {
        BrowserStep::Script(input.get_text("script"))
    } else if text::str_eq(cmd, "browser_screenshot") {
        BrowserStep::Screenshot
    } else if text::str_eq(cmd, "browser_get_cookies") {
        BrowserStep::Cookies
    } else {
        let mut e = "unknown browser command: ".to_owned();
        e.push_str(cmd);
        BrowserStep::Unknown(e)
    }
}

/// A blank or a dash.
pub open spec fn is_edge(c: char) -> bool {
    c == ' ' || c == '—'
}

pub open spec fn without_edge_start(s: Seq<char>) -> Seq<char>
    decreases s.len(),
{
    if s.len() > 0 && is_edge(s[0]) {
        without_edge_start(s.skip(1))
    } else {
        s
    }
}

pub open spec fn without_edge_end(s: Seq<char>) -> Seq<char>
    decreases s.len(),
{
    if s.len() > 0 && is_edge(s.last()) {
        without_edge_end(s.drop_last())
    } else {
        s
    }
}

/// What is said of a page that was opened: its title and address, without blanks
/// and dashes at the edges where one of them is missing.
pub fn navigated(title: &str, url: &str) -> (r: String)
    ensures
        r@ == without_edge_end(without_edge_start(title@ + " — "@ + url@)),
{
    let mut s = title.to_owned();
    s.push_str(" — ");
    s.push_str(url);
    let ghost whole = s@;
    let v = text::chars_of(&s);
    let n: usize = v.len();
    let mut a: usize = 0;
    assert(whole.skip(0) =~= whole);
    while a < n && (v[a] == ' ' || v[a] == '—')
        invariant
            a <= n,
            n == v@.len(),
            v@ == whole,
            without_edge_start(whole) == without_edge_start(whole.skip(a as int)),
        decreases n - a,
    {
        assert(whole.skip(a as int)[0] == v@[a as int]);
        assert(whole.skip(a as int).skip(1) =~= whole.skip(a as int + 1));
        a += 1;
    }
    let ghost cut = whole.skip(a as int);
    proof {
        if a < n {
            assert(cut[0] == v@[a as int]);
        }
        assert(without_edge_start(whole) == cut);
        assert(cut =~= v@.subrange(a as int, n as int));
    }
    let mut b: usize = n;
    while b > a && (v[b - 1] == ' ' || v[b - 1] == '—')
        invariant
            a <= b <= n,
            n == v@.len(),
            v@ == whole,
            without_edge_end(cut) == without_edge_end(v@.subrange(a as int, b as int)),
        decreases b,
    {
        let ghost now = v@.subrange(a as int, b as int);
        assert(now.last() == v@[b - 1]);
        assert(now.drop_last() =~= v@.subrange(a as int, b - 1));
        b -= 1;
    }
    proof {
        let now = v@.subrange(a as int, b as int);
        if b > a {
            assert(now.last() == v@[b - 1]);
        }
    }
    text::string_range(&v, a, b)
}

/// A picture of the page, in one text.
pub fn screenshot_url(png: &Vec<u8>) -> (r: String)
    requires
        (png@.len() + 2) / 3 * 4 <= isize::MAX,
    ensures
        r@ == "data:image/png;base64,"@ + codec::base64_text(png@),
        codec::base64_bytes(codec::base64_text(png@)) == Some(png@),
{
    let mut s = "data:image/png;base64,".to_owned();
    let b = codec::base64_encode(png);
    s.push_str(&b);
    s
}

} // verus!
