//! How ksx puts Studio on screen: the address it publishes, the ksx-owned
//! browser profile, the exact argument list that turns a Chromium into an
//! application window, and the choice between that window and the user's
//! default browser. Also the check that a listener on Studio's port really is
//! the live machine's Studio.

use vstd::prelude::*;

use crate::paths::{display_path, displayed, join_path, joined};
use crate::text::{chars_of, decimal, eq_ignore_case, push_decimal};

verus! {

/// Studio's default port — the one `ksx studio` binds and the one this dials.
pub const PORT: u16 = 4460;

pub open spec fn url_text() -> Seq<char> {
    "http://127.0.0.1:"@ + decimal(PORT as nat) + "/redesign"@
}

/// Where Studio will be, spelled once.
pub fn url() -> (u: String)
    ensures
        u@ == url_text(),
{
    let mut s = "http://127.0.0.1:".to_owned();
    push_decimal(&mut s, PORT as u64);
    s.append("/redesign");
    s
}

/// `browser-profile` inside `ksx` inside the given `%LOCALAPPDATA%`.
pub open spec fn profile_path(local_appdata: std::path::PathBuf) -> std::path::PathBuf {
    joined(joined(local_appdata, "ksx"@), "browser-profile"@)
}

/// The ksx-owned browser profile directory, given the machine's
/// `%LOCALAPPDATA%`: local, not roaming, and not the config root.
pub fn profile_dir(local_appdata: &std::path::PathBuf) -> (dir: std::path::PathBuf)
    ensures
        dir == profile_path(*local_appdata),
{
    let root = join_path(local_appdata, "ksx");
    join_path(&root, "browser-profile")
}

/// The argument list for a profile that `Path::display` spells `profile`.
pub open spec fn argv_text(url: Seq<char>, profile: Seq<char>) -> Seq<Seq<char>> {
    seq![
        "--app="@ + url,
        "--user-data-dir="@ + profile,
        "--no-first-run"@,
        "--no-default-browser-check"@,
    ]
}

/// The exact argument list that turns a browser into ksx's window: an
/// application window (`--app`), in a profile ksx owns (`--user-data-dir`),
/// with no first-run or default-browser prompt.
pub fn app_argv(url: &str, profile: &std::path::PathBuf) -> (argv: Vec<String>)
    ensures
        argv@.len() == 4,
        crate::resolve::id_views(argv@) == argv_text(url@, displayed(*profile)),
{
    let shown = display_path(profile);
    let mut app = "--app=".to_owned();
    app.append(url);
    let mut dir = "--user-data-dir=".to_owned();
    dir.append(shown.as_str());
    let mut argv: Vec<String> = Vec::new();
    argv.push(app);
    argv.push(dir);
    argv.push("--no-first-run".to_owned());
    argv.push("--no-default-browser-check".to_owned());
    assert(argv_text(url@, shown@) =~= crate::resolve::id_views(argv@));
    argv
}

/// A Chromium ksx knows how to drive, and the name a human would recognise.
#[derive(Clone, Copy, Debug, PartialEq, Eq)]
pub struct Chromium {
    /// The `App Paths` key name — also the file name on disk.
    pub exe: &'static str,
    pub name: &'static str,
}

/// The browsers to try, in this order: Edge, which Windows ships in-box, then
/// Chrome. A fixed list, not a search.
pub fn chromium() -> (list: [Chromium; 2])
    ensures
        list[0] == (Chromium { exe: "msedge.exe", name: "Microsoft Edge" }),
        list[1] == (Chromium { exe: "chrome.exe", name: "Google Chrome" }),
{
    [
        Chromium { exe: "msedge.exe", name: "Microsoft Edge" },
        Chromium { exe: "chrome.exe", name: "Google Chrome" },
    ]
}

/// How ksx will put Studio on screen.
#[derive(Debug)]
pub enum Window {
    /// Our own Chromium invocation: a chrome-less application window.
    App { browser: &'static str, exe: std::path::PathBuf, argv: Vec<String> },
    /// Whatever the user's `http` association opens. `why` is the sentence the
    /// user is owed.
    DefaultBrowser { url: String, why: String },
}

/// What starting the chosen window came to, in a sentence: which browser
/// opened ksx (and from where), or why the default browser was used, or
/// what failed. `started` is the result of starting it.
pub fn show_outcome(window: &Window, started: Result<(), String>) -> (r: Result<String, String>)
    ensures
        match *window {
            Window::App { browser, exe, .. } => match started {
                Ok(()) => r is Ok && r->Ok_0@ == "opened ksx in "@ + browser@ + " ("@ + displayed(exe) + ")"@,
                Err(err) => r is Err && r->Err_0@ == "could not start "@ + browser@ + " at "@ + displayed(exe)
                    + ": "@ + err@,
            },
            Window::DefaultBrowser { url, why } => match started {
                Ok(()) => r is Ok && r->Ok_0@ == why@ + " — opened "@ + url@ + " in your default browser instead"@,
                Err(err) => r is Err && r->Err_0@ == why@ + ", and the default browser could not be opened either: "@
                    + err@ + " ("@ + url@ + ")"@,
            },
        },
{
    match window {
        Window::App { browser, exe, .. } => {
            let shown = display_path(exe);
            match started {
                Ok(()) => {
                    let mut text = "opened ksx in ".to_owned();
                    text.append(browser);
                    text.append(" (");
                    text.append(shown.as_str());
                    text.append(")");
                    proof {
                        assert(text@ == "opened ksx in "@ + browser@ + " ("@ + shown@ + ")"@);
                    }
                    Ok(text)
                },
                Err(err) => {
                    let mut text = "could not start ".to_owned();
                    text.append(browser);
                    text.append(" at ");
                    text.append(shown.as_str());
                    text.append(": ");
                    text.append(err.as_str());
                    proof {
                        assert(text@ == "could not start "@ + browser@ + " at "@ + shown@ + ": "@ + err@);
                    }
                    Err(text)
                },
            }
        },
        Window::DefaultBrowser { url, why } => match started {
            Ok(()) => {
                let mut text = why.clone();
                text.append(" — opened ");
                text.append(url.as_str());
                text.append(" in your default browser instead");
                Ok(text)
            },
            Err(err) => {
                let mut text = why.clone();
                text.append(", and the default browser could not be opened either: ");
                text.append(err.as_str());
                text.append(" (");
                text.append(url.as_str());
                text.append(")");
                Err(text)
            },
        },
    }
}

/// Which of ksx's two background pieces a launcher waits for.
#[derive(Clone, Copy, Debug, PartialEq, Eq, Structural)]
pub enum Piece {
    Daemon,
    Studio,
}

/// One probe while waiting, boundedly, for a started piece to answer.
#[derive(Clone, Debug, PartialEq, Eq)]
pub enum Waiting {
    /// It answers: go on.
    Ready,
    /// Probe again after a short pause.
    Again,
    /// The deadline passed: this is what to say.
    GaveUp(String),
}

pub open spec fn gave_up_text(piece: Piece, secs: u64) -> Seq<char> {
    match piece {
        Piece::Daemon => "started `ksx daemon` but its control pipe did not answer within "@ + decimal(secs as nat)
            + "s — run `ksx daemon --console` to see why (a configuration it refuses exits 2)"@,
        Piece::Studio => "started `ksx studio` but no live-machine KSX health response answered http://127.0.0.1:"@
            + decimal(PORT as nat) + "/api/health within "@ + decimal(secs as nat)
            + "s — run `ksx studio` in a console to see why (another process may own the port)"@,
    }
}

/// After one probe of a started piece: ready when it answers; otherwise
/// again until the deadline, then the sentence that says where to look.
pub fn wait_step(piece: Piece, answering: bool, past_deadline: bool, timeout_secs: u64) -> (w: Waiting)
    ensures
        answering ==> w == Waiting::Ready,
        !answering && !past_deadline ==> w == Waiting::Again,
        !answering && past_deadline ==> (w matches Waiting::GaveUp(t) && t@ == gave_up_text(piece, timeout_secs)),
{
    if answering {
        return Waiting::Ready;
    }
    if !past_deadline {
        return Waiting::Again;
    }
    let mut text = String::new();
    match piece {
        Piece::Daemon => {
            text.append("started `ksx daemon` but its control pipe did not answer within ");
            push_decimal(&mut text, timeout_secs);
            text.append("s — run `ksx daemon --console` to see why (a configuration it refuses exits 2)");
        },
        Piece::Studio => {
            text.append("started `ksx studio` but no live-machine KSX health response answered http://127.0.0.1:");
            push_decimal(&mut text, PORT as u64);
            text.append("/api/health within ");
            push_decimal(&mut text, timeout_secs);
            text.append("s — run `ksx studio` in a console to see why (another process may own the port)");
        },
    }
    proof {
        reveal_strlit("");
        assert(text@ =~= gave_up_text(piece, timeout_secs));
    }
    Waiting::GaveUp(text)
}

pub open spec fn no_profile_text(why: Seq<char>) -> Seq<char> {
    "ksx has no browser profile directory of its own ("@ + why + ")"@
}

pub open spec fn no_chromium_text() -> Seq<char> {
    "no Chromium browser is registered on this machine (looked for msedge.exe and chrome.exe)"@
}

/// Looks a browser's executable up by its file name (the `App Paths`
/// registry key on Windows).
pub trait ExeLookup {
    /// Whether lookups of this type keep `asked`. One that does not say so
    /// keeps nothing a caller can rely on.
    open spec fn keeps_asked() -> bool {
        false
    }

    /// Every name looked up so far and what came back, oldest first.
    open spec fn asked(&self) -> Seq<(Seq<char>, Option<std::path::PathBuf>)> {
        Seq::empty()
    }

    /// Where `exe` is installed, if it is.
    fn find(&mut self, exe: &str) -> (found: Option<std::path::PathBuf>)
        ensures
            Self::keeps_asked() ==> final(self).asked() == old(self).asked().push((exe@, found)),
    ;
}

/// The lookups one choice made, and the window it came to: none without a
/// profile; otherwise Edge first, and Chrome only when Edge is absent; the
/// first found opens an app window in the profile, and with neither the
/// default browser is used.
pub open spec fn chose(
    url: Seq<char>,
    profile: Result<std::path::PathBuf, String>,
    asked: Seq<(Seq<char>, Option<std::path::PathBuf>)>,
    w: Window,
) -> bool {
    match profile {
        Err(why) => asked.len() == 0 && w is DefaultBrowser && w->url@ == url && w->why@
            == no_profile_text(why@),
        Ok(dir) => {
            &&& 1 <= asked.len() <= 2
            &&& asked[0].0 == "msedge.exe"@
            &&& match asked[0].1 {
                Some(exe) => asked.len() == 1 && w is App && w->browser@ == "Microsoft Edge"@ && w->exe
                    == exe && crate::resolve::id_views(w->argv@) == argv_text(url, displayed(dir)),
                None => {
                    &&& asked.len() == 2
                    &&& asked[1].0 == "chrome.exe"@
                    &&& match asked[1].1 {
                        Some(exe) => w is App && w->browser@ == "Google Chrome"@ && w->exe == exe
                            && crate::resolve::id_views(w->argv@) == argv_text(url, displayed(dir)),
                        None => w is DefaultBrowser && w->url@ == url && w->why@ == no_chromium_text(),
                    }
                },
            }
        },
    }
}

/// Decide how to show `url`, given a profile directory (or the reason there
/// is none) and a way to look an executable up. A missing profile means no
/// application window at all, and then no browser is even looked for; Edge
/// is asked for first and Chrome only when Edge is absent.
pub fn choose_window<L: ExeLookup>(
    url: &str,
    profile: Result<std::path::PathBuf, String>,
    resolve: &mut L,
) -> (w: Window)
    ensures
        profile is Err ==> w is DefaultBrowser && w->url@ == url@ && w->why@ == no_profile_text(
            profile->Err_0@,
        ),
        L::keeps_asked() ==> final(resolve).asked().take(old(resolve).asked().len() as int) == old(
            resolve,
        ).asked(),
        L::keeps_asked() ==> chose(
            url@,
            profile,
            final(resolve).asked().skip(old(resolve).asked().len() as int),
            w,
        ),
{
    let ghost a0 = resolve.asked();
    let dir = match profile {
        Ok(dir) => dir,
        Err(why) => {
            let mut text = "ksx has no browser profile directory of its own (".to_owned();
            text.append(why.as_str());
            text.append(")");
            proof {
                if L::keeps_asked() {
                    assert(resolve.asked().skip(a0.len() as int) =~= Seq::empty());
                    assert(resolve.asked().take(a0.len() as int) =~= a0);
                }
            }
            return Window::DefaultBrowser { url: url.to_owned(), why: text };
        },
    };
    let browsers = chromium();
    proof {
        reveal_strlit("msedge.exe");
        reveal_strlit("chrome.exe");
        reveal_strlit("Microsoft Edge");
        reveal_strlit("Google Chrome");
    }
    let edge = resolve.find(browsers[0].exe);
    let ghost a1 = resolve.asked();
    match edge {
        Some(exe) => {
            let argv = app_argv(url, &dir);
            proof {
                if L::keeps_asked() {
                    assert(a1.skip(a0.len() as int) =~= seq![(browsers[0].exe@, edge)]);
                    assert(a1.take(a0.len() as int) =~= a0);
                }
            }
            return Window::App { browser: browsers[0].name, exe, argv };
        },
        None => {},
    }
    let chrome = resolve.find(browsers[1].exe);
    proof {
        if L::keeps_asked() {
            assert(resolve.asked().skip(a0.len() as int) =~= seq![
                (browsers[0].exe@, edge),
                (browsers[1].exe@, chrome),
            ]);
            assert(resolve.asked().take(a0.len() as int) =~= a0);
        }
    }
    match chrome {
        Some(exe) => {
            let argv = app_argv(url, &dir);
            return Window::App { browser: browsers[1].name, exe, argv };
        },
        None => {},
    }
    Window::DefaultBrowser {
        url: url.to_owned(),
        why: "no Chromium browser is registered on this machine (looked for msedge.exe and chrome.exe)".to_owned(),
    }
}

/// `char::is_whitespace`: the Unicode `White_Space` property.
pub open spec fn is_white(c: char) -> bool {
    let v = c as u32;
    ||| 0x9 <= v <= 0xd
    ||| v == 0x20
    ||| v == 0x85
    ||| v == 0xa0
    ||| v == 0x1680
    ||| 0x2000 <= v <= 0x200a
    ||| v == 0x2028
    ||| v == 0x2029
    ||| v == 0x202f
    ||| v == 0x205f
    ||| v == 0x3000
}

/// Nothing but whitespace: what `s.trim().is_empty()` asks.
pub open spec fn blank(s: Seq<char>) -> bool {
    forall|i: int| 0 <= i < s.len() ==> is_white(#[trigger] s[i])
}

fn white(c: char) -> (b: bool)
    ensures
        b == is_white(c),
{
    let v = c as u32;
    (0x9 <= v && v <= 0xd) || v == 0x20 || v == 0x85 || v == 0xa0 || v == 0x1680 || (0x2000 <= v
        && v <= 0x200a) || v == 0x2028 || v == 0x2029 || v == 0x202f || v == 0x205f || v == 0x3000
}

fn is_blank(s: &str) -> (b: bool)
    ensures
        b == blank(s@),
{
    let n = s.unicode_len();
    let mut i: usize = 0;
    while i < n
        invariant
            n == s@.len(),
            i <= n,
            forall|k: int| 0 <= k < i ==> is_white(#[trigger] s@[k]),
        decreases n - i,
    {
        if !white(s.get_char(i)) {
            return false;
        }
        i = i + 1;
    }
    true
}

/// Which environment answered.
#[derive(Clone, Debug, PartialEq, Eq)]
pub struct LauncherEnvironment {
    pub id: String,
    pub label: String,
    pub detail: String,
    pub fixture: bool,
    /// Empty when absent.
    pub generation: String,
}

/// Whether the staged daemon answered, and why not.
#[derive(Clone, Debug, PartialEq, Eq)]
pub struct LauncherStaged {
    pub reachable: bool,
    pub error: Option<String>,
}

#[derive(Clone, Debug, PartialEq, Eq)]
pub struct LauncherSetup {
    pub config_root: String,
}

/// The small response shape the launcher accepts from Studio's health
/// endpoint.
#[derive(Clone, Debug, PartialEq, Eq)]
pub struct LauncherHealth {
    pub environment: LauncherEnvironment,
    pub staged: LauncherStaged,
    pub setup: Option<LauncherSetup>,
    pub setup_error: String,
}

/// The health answer is the live machine's, and says coherent things: a
/// named, non-fixture, current-generation live environment; a staged
/// daemon that either answered with no error or did not with a reason; a
/// setup that either has a config root and no error, or has none and says
/// why.
pub open spec fn live_and_coherent(h: LauncherHealth) -> bool {
    let env = h.environment;
    &&& env.id@ == "live-machine"@
    &&& !env.fixture
    &&& env.generation@.len() == 0
    &&& !blank(env.label@)
    &&& !blank(env.detail@)
    &&& if h.staged.reachable {
        h.staged.error is None
    } else {
        h.staged.error is Some && !blank(h.staged.error->0@)
    }
    &&& match h.setup {
        Some(setup) => !blank(setup.config_root@) && h.setup_error@.len() == 0,
        None => !blank(h.setup_error@),
    }
}

/// Does this health answer come from the live machine's Studio, and is it
/// coherent?
pub fn health_is_live(h: &LauncherHealth) -> (b: bool)
    ensures
        b == live_and_coherent(*h),
{
    let env = &h.environment;
    let live = crate::text::str_eq(env.id.as_str(), "live-machine") && !env.fixture
        && env.generation.unicode_len() == 0 && !is_blank(env.label.as_str()) && !is_blank(
        env.detail.as_str(),
    );
    let staged = if h.staged.reachable {
        h.staged.error.is_none()
    } else {
        match &h.staged.error {
            Some(e) => !is_blank(e.as_str()),
            None => false,
        }
    };
    let setup = match &h.setup {
        Some(setup) => !is_blank(setup.config_root.as_str()) && h.setup_error.unicode_len() == 0,
        None => !is_blank(h.setup_error.as_str()),
    };
    live && staged && setup
}

/// Does `pat` occur in `s` at `i`?
pub open spec fn occurs_at(s: Seq<char>, pat: Seq<char>, i: int) -> bool {
    0 <= i && i + pat.len() <= s.len() && s.subrange(i, i + pat.len()) == pat
}

/// The first occurrence of `pat` at or after `i`; `s.len()` when there is
/// none.
pub open spec fn find(s: Seq<char>, pat: Seq<char>, i: int) -> int
    decreases s.len() - i,
{
    if i < 0 || i >= s.len() || i + pat.len() > s.len() {
        s.len() as int
    } else if occurs_at(s, pat, i) {
        i
    } else {
        find(s, pat, i + 1)
    }
}

pub proof fn lemma_find_bounds(s: Seq<char>, pat: Seq<char>, i: int)
    requires
        0 <= i,
        pat.len() > 0,
    ensures
        find(s, pat, i) == s.len() || (i <= find(s, pat, i) && occurs_at(s, pat, find(s, pat, i))),
        find(s, pat, i) <= s.len(),
    decreases s.len() - i,
{
    if i < s.len() && i + pat.len() <= s.len() && !occurs_at(s, pat, i) {
        lemma_find_bounds(s, pat, i + 1);
    }
}

/// `s.split(pat)` from position `i`: the pieces between occurrences.
pub open spec fn pieces(s: Seq<char>, pat: Seq<char>, i: int) -> Seq<Seq<char>>
    decreases s.len() - i,
{
    if i < 0 || i > s.len() || pat.len() == 0 {
        seq![]
    } else {
        let e = find(s, pat, i);
        if e >= s.len() {
            seq![s.subrange(i, s.len() as int)]
        } else {
            proof {
                lemma_find_bounds(s, pat, i);
            }
            seq![s.subrange(i, e)] + pieces(s, pat, e + pat.len())
        }
    }
}

/// The first position at or after `i` that is not whitespace.
pub open spec fn lead_from(s: Seq<char>, i: int) -> int
    decreases s.len() - i,
{
    if i < 0 || i >= s.len() || !is_white(s[i]) {
        i
    } else {
        lead_from(s, i + 1)
    }
}

/// The end of `s.take(j)` once trailing whitespace is dropped.
pub open spec fn trail_from(s: Seq<char>, j: int) -> int
    decreases j,
{
    if j <= 0 || j > s.len() || !is_white(s[j - 1]) {
        j
    } else {
        trail_from(s, j - 1)
    }
}

/// `str::trim`.
pub open spec fn trim(s: Seq<char>) -> Seq<char> {
    let a = lead_from(s, 0);
    let b = trail_from(s, s.len() as int);
    if a >= b {
        seq![]
    } else {
        s.subrange(a, b)
    }
}

/// The end of the token that starts at `i`.
pub open spec fn token_end(s: Seq<char>, i: int) -> int
    decreases s.len() - i,
{
    if i < 0 || i >= s.len() || is_white(s[i]) {
        i
    } else {
        token_end(s, i + 1)
    }
}

/// `split_whitespace`'s first two tokens: the status line's version and code.
pub open spec fn status_ok(line: Seq<char>) -> bool {
    let a = lead_from(line, 0);
    let b = token_end(line, a);
    let c = lead_from(line, b);
    let d = token_end(line, c);
    &&& a < line.len()
    &&& (line.subrange(a, b) == "HTTP/1.0"@ || line.subrange(a, b) == "HTTP/1.1"@)
    &&& c < line.len()
    &&& line.subrange(c, d) == "200"@
}

pub open spec fn colon() -> Seq<char> {
    seq![':']
}

/// The value of the first header line named `wanted` (ASCII case aside),
/// both trimmed; lines without a colon are not headers.
pub open spec fn header(lines: Seq<Seq<char>>, wanted: Seq<char>, k: int) -> Option<Seq<char>>
    decreases lines.len() - k,
{
    if k < 0 || k >= lines.len() {
        None
    } else {
        let l = lines[k];
        let c = find(l, colon(), 0);
        if c < l.len() && eq_ignore_case(trim(l.take(c)), wanted) {
            Some(trim(l.skip(c + 1)))
        } else {
            header(lines, wanted, k + 1)
        }
    }
}

pub open spec fn json_type_ok(v: Option<Seq<char>>) -> bool {
    v is Some && eq_ignore_case(trim(v->0.take(find(v->0, seq![';'], 0))), "application/json"@)
}

pub open spec fn says_no_store(v: Seq<char>) -> bool {
    exists|k: int|
        0 <= k < pieces(v, seq![','], 0).len() && eq_ignore_case(
            trim(#[trigger] pieces(v, seq![','], 0)[k]),
            "no-store"@,
        )
}

pub open spec fn no_store_ok(v: Option<Seq<char>>) -> bool {
    v is Some && says_no_store(v->0)
}

pub open spec fn crlf() -> Seq<char> {
    seq!['\r', '\n']
}

pub open spec fn blank_line() -> Seq<char> {
    seq!['\r', '\n', '\r', '\n']
}

/// The body of a health response the launcher accepts: a 200 over HTTP/1.0
/// or 1.1, JSON, and not to be cached. `None` for anything else.
pub open spec fn accepted_body(resp: Seq<char>) -> Option<Seq<char>> {
    let p = find(resp, blank_line(), 0);
    if p >= resp.len() {
        None
    } else {
        let head = resp.take(p);
        let lines = pieces(head, crlf(), 0);
        let headers = lines.drop_first();
        if status_ok(lines[0]) && json_type_ok(header(headers, "content-type"@, 0)) && no_store_ok(
            header(headers, "cache-control"@, 0),
        ) {
            Some(resp.skip(p + 4))
        } else {
            None
        }
    }
}

fn find_chars(s: &Vec<char>, pat: &Vec<char>, from: usize) -> (r: usize)
    requires
        pat@.len() > 0,
        from <= s@.len(),
    ensures
        r == find(s@, pat@, from as int),
        r <= s@.len(),
{
    proof {
        lemma_find_bounds(s@, pat@, from as int);
    }
    let n = s.len();
    let m = pat.len();
    if m > n {
        return n;
    }
    let mut i = from;
    while i <= n - m
        invariant
            n == s@.len(),
            m == pat@.len(),
            m > 0,
            m <= n,
            from <= i <= n,
            find(s@, pat@, from as int) == find(s@, pat@, i as int),
        decreases n - i,
    {
        let mut k: usize = 0;
        while k < m && s[i + k] == pat[k]
            invariant
                n == s@.len(),
                m == pat@.len(),
                i + m <= n,
                k <= m,
                forall|j: int| 0 <= j < k ==> s@[i + j] == pat@[j],
            decreases m - k,
        {
            k = k + 1;
        }
        if k == m {
            assert(s@.subrange(i as int, i + m) =~= pat@);
            return i;
        }
        assert(!occurs_at(s@, pat@, i as int)) by {
            if s@.subrange(i as int, i + m) == pat@ {
                assert(s@.subrange(i as int, i + m)[k as int] == s@[i + k]);
            }
        }
        i = i + 1;
    }
    n
}

fn slice(s: &Vec<char>, a: usize, b: usize) -> (r: Vec<char>)
    requires
        a <= b <= s@.len(),
    ensures
        r@ == s@.subrange(a as int, b as int),
{
    let mut r: Vec<char> = Vec::new();
    let mut i = a;
    while i < b
        invariant
            a <= i <= b,
            b <= s@.len(),
            r@ == s@.subrange(a as int, i as int),
        decreases b - i,
    {
        r.push(s[i]);
        assert(r@ =~= s@.subrange(a as int, i + 1));
        i = i + 1;
    }
    r
}

pub open spec fn chars_views(v: Seq<Vec<char>>) -> Seq<Seq<char>> {
    v.map_values(|x: Vec<char>| x@)
}

fn split_chars(s: &Vec<char>, pat: &Vec<char>) -> (parts: Vec<Vec<char>>)
    requires
        pat@.len() > 0,
    ensures
        chars_views(parts@) == pieces(s@, pat@, 0),
{
    let n = s.len();
    let mut parts: Vec<Vec<char>> = Vec::new();
    let mut i: usize = 0;
    loop
        invariant
            n == s@.len(),
            pat@.len() > 0,
            i <= n,
            pieces(s@, pat@, 0) == chars_views(parts@) + pieces(s@, pat@, i as int),
        decreases n - i,
    {
        let e = find_chars(s, pat, i);
        proof {
            lemma_find_bounds(s@, pat@, i as int);
        }
        if e >= n {
            let last = slice(s, i, n);
            proof {
                assert(pieces(s@, pat@, i as int) == seq![s@.subrange(i as int, n as int)]);
                assert(chars_views(parts@.push(last)) =~= chars_views(parts@).push(last@));
                assert(chars_views(parts@) + seq![last@] =~= chars_views(parts@).push(last@));
            }
            parts.push(last);
            return parts;
        }
        let piece = slice(s, i, e);
        proof {
            assert(pieces(s@, pat@, i as int) == seq![s@.subrange(i as int, e as int)] + pieces(
                s@,
                pat@,
                e + pat@.len(),
            ));
            assert(chars_views(parts@.push(piece)) =~= chars_views(parts@).push(piece@));
            assert(chars_views(parts@) + (seq![piece@] + pieces(s@, pat@, e + pat@.len()))
                =~= chars_views(parts@).push(piece@) + pieces(s@, pat@, e + pat@.len()));
        }
        parts.push(piece);
        i = e + pat.len();
    }
}

fn lead(s: &Vec<char>, from: usize) -> (r: usize)
    requires
        from <= s@.len(),
    ensures
        r == lead_from(s@, from as int),
        from <= r <= s@.len(),
{
    let mut i = from;
    while i < s.len() && white(s[i])
        invariant
            from <= i <= s@.len(),
            lead_from(s@, from as int) == lead_from(s@, i as int),
        decreases s@.len() - i,
    {
        i = i + 1;
    }
    i
}

fn trail(s: &Vec<char>) -> (r: usize)
    ensures
        r == trail_from(s@, s@.len() as int),
        r <= s@.len(),
{
    let mut j = s.len();
    while j > 0 && white(s[j - 1])
        invariant
            j <= s@.len(),
            trail_from(s@, s@.len() as int) == trail_from(s@, j as int),
        decreases j,
    {
        j = j - 1;
    }
    j
}

fn token(s: &Vec<char>, from: usize) -> (r: usize)
    requires
        from <= s@.len(),
    ensures
        r == token_end(s@, from as int),
        from <= r <= s@.len(),
{
    let mut i = from;
    while i < s.len() && !white(s[i])
        invariant
            from <= i <= s@.len(),
            token_end(s@, from as int) == token_end(s@, i as int),
        decreases s@.len() - i,
    {
        i = i + 1;
    }
    i
}

fn trimmed(s: &Vec<char>) -> (r: Vec<char>)
    ensures
        r@ == trim(s@),
{
    let a = lead(s, 0);
    let b = trail(s);
    if a >= b {
        Vec::new()
    } else {
        slice(s, a, b)
    }
}

/// `str::trim_end`.
pub open spec fn trim_end(s: Seq<char>) -> Seq<char> {
    s.take(trail_from(s, s.len() as int))
}

/// `str::trim_end`, as an owned string.
pub fn trim_end_text(s: &str) -> (t: String)
    ensures
        t@ == trim_end(s@),
{
    let chars = crate::text::chars_of(s);
    let b = trail(&chars);
    let mut t = String::new();
    let mut i: usize = 0;
    while i < b
        invariant
            i <= b,
            b <= chars@.len(),
            t@ == chars@.take(i as int),
        decreases b - i,
    {
        crate::text::push_char(&mut t, chars[i]);
        assert(t@ =~= chars@.take(i + 1));
        i = i + 1;
    }
    t
}

/// `str::trim`, as an owned string.
pub fn trim_text(s: &str) -> (t: String)
    ensures
        t@ == trim(s@),
{
    let chars = crate::text::chars_of(s);
    let kept = trimmed(&chars);
    let mut t = String::new();
    let mut i: usize = 0;
    while i < kept.len()
        invariant
            i <= kept@.len(),
            t@ == kept@.take(i as int),
        decreases kept.len() - i,
    {
        crate::text::push_char(&mut t, kept[i]);
        assert(t@ =~= kept@.take(i + 1));
        i = i + 1;
    }
    assert(kept@.take(kept@.len() as int) =~= kept@);
    t
}

fn chars_equal(a: &Vec<char>, lo: usize, hi: usize, b: &str) -> (r: bool)
    requires
        lo <= hi <= a@.len(),
    ensures
        r == (a@.subrange(lo as int, hi as int) == b@),
{
    let n = b.unicode_len();
    if hi - lo != n {
        return false;
    }
    let mut i: usize = 0;
    while i < n
        invariant
            n == b@.len(),
            hi - lo == n,
            lo <= hi <= a@.len(),
            i <= n,
            forall|j: int| 0 <= j < i ==> a@[lo + j] == b@[j],
        decreases n - i,
    {
        if a[lo + i] != b.get_char(i) {
            assert(a@.subrange(lo as int, hi as int)[i as int] != b@[i as int]);
            return false;
        }
        i = i + 1;
    }
    assert(a@.subrange(lo as int, hi as int) =~= b@);
    true
}

fn chars_same_ignoring_case(a: &Vec<char>, b: &str) -> (r: bool)
    ensures
        r == eq_ignore_case(a@, b@),
{
    let n = b.unicode_len();
    if a.len() != n {
        return false;
    }
    let mut i: usize = 0;
    while i < n
        invariant
            n == b@.len(),
            n == a@.len(),
            i <= n,
            forall|j: int| 0 <= j < i ==> #[trigger] crate::text::lower_char(a@[j])
                == crate::text::lower_char(b@[j]),
        decreases n - i,
    {
        if crate::text::lower(a[i]) != crate::text::lower(b.get_char(i)) {
            return false;
        }
        i = i + 1;
    }
    true
}

fn status_line_ok(line: &Vec<char>) -> (r: bool)
    ensures
        r == status_ok(line@),
{
    let a = lead(line, 0);
    if a >= line.len() {
        return false;
    }
    let b = token(line, a);
    let version = chars_equal(line, a, b, "HTTP/1.0") || chars_equal(line, a, b, "HTTP/1.1");
    let c = lead(line, b);
    if c >= line.len() {
        return false;
    }
    let d = token(line, c);
    version && chars_equal(line, c, d, "200")
}

fn header_value(lines: &Vec<Vec<char>>, wanted: &str, from: usize) -> (r: Option<Vec<char>>)
    requires
        from <= lines@.len(),
    ensures
        match r {
            Some(v) => header(chars_views(lines@), wanted@, from as int) == Some(v@),
            None => header(chars_views(lines@), wanted@, from as int) is None,
        },
{
    let colon_pat: Vec<char> = vec![':'];
    assert(colon_pat@ =~= colon());
    let mut k = from;
    while k < lines.len()
        invariant
            from <= k <= lines@.len(),
            colon_pat@ == colon(),
            header(chars_views(lines@), wanted@, from as int) == header(
                chars_views(lines@),
                wanted@,
                k as int,
            ),
        decreases lines.len() - k,
    {
        let l = &lines[k];
        assert(chars_views(lines@)[k as int] == l@);
        let c = find_chars(l, &colon_pat, 0);
        if c < l.len() {
            let name = trimmed(&slice(l, 0, c));
            assert(l@.subrange(0, c as int) =~= l@.take(c as int));
            if chars_same_ignoring_case(&name, wanted) {
                let value = trimmed(&slice(l, c + 1, l.len()));
                assert(l@.subrange(c + 1, l@.len() as int) =~= l@.skip(c + 1));
                return Some(value);
            }
        }
        k = k + 1;
    }
    None
}

fn json_type(v: &Option<Vec<char>>) -> (r: bool)
    ensures
        r == json_type_ok(
            match *v {
                Some(x) => Some(x@),
                None => None,
            },
        ),
{
    match v {
        None => false,
        Some(x) => {
            let semi: Vec<char> = vec![';'];
            assert(semi@ =~= seq![';']);
            let e = find_chars(x, &semi, 0);
            let part = slice(x, 0, e);
            assert(x@.subrange(0, e as int) =~= x@.take(e as int));
            chars_same_ignoring_case(&trimmed(&part), "application/json")
        },
    }
}

fn has_no_store(x: &Vec<char>) -> (r: bool)
    ensures
        r == says_no_store(x@),
{
    let comma: Vec<char> = vec![','];
    assert(comma@ =~= seq![',']);
    let parts = split_chars(x, &comma);
    let mut k: usize = 0;
    while k < parts.len()
        invariant
            k <= parts@.len(),
            chars_views(parts@) == pieces(x@, seq![','], 0),
            forall|j: int| 0 <= j < k ==> !eq_ignore_case(
                trim(#[trigger] pieces(x@, seq![','], 0)[j]),
                "no-store"@,
            ),
        decreases parts.len() - k,
    {
        assert(chars_views(parts@)[k as int] == parts@[k as int]@);
        if chars_same_ignoring_case(&trimmed(&parts[k]), "no-store") {
            assert(eq_ignore_case(trim(pieces(x@, seq![','], 0)[k as int]), "no-store"@));
            return true;
        }
        k = k + 1;
    }
    false
}

fn no_store(v: &Option<Vec<char>>) -> (r: bool)
    ensures
        r == no_store_ok(
            match *v {
                Some(x) => Some(x@),
                None => None,
            },
        ),
{
    match v {
        None => false,
        Some(x) => has_no_store(x),
    }
}

/// The body of a health response the launcher accepts, or `None`.
pub fn accepted_health_body(response: &str) -> (body: Option<String>)
    ensures
        match body {
            Some(b) => accepted_body(response@) == Some(b@),
            None => accepted_body(response@) is None,
        },
{
    let resp = chars_of(response);
    let sep: Vec<char> = vec!['\r', '\n', '\r', '\n'];
    assert(sep@ =~= blank_line());
    let p = find_chars(&resp, &sep, 0);
    if p >= resp.len() {
        return None;
    }
    proof {
        lemma_find_bounds(resp@, blank_line(), 0);
    }
    let head = slice(&resp, 0, p);
    assert(resp@.subrange(0, p as int) =~= resp@.take(p as int));
    let crlf_pat: Vec<char> = vec!['\r', '\n'];
    assert(crlf_pat@ =~= crlf());
    let lines = split_chars(&head, &crlf_pat);
    proof {
        assert(pieces(head@, crlf(), 0).len() > 0);
    }
    let mut headers: Vec<Vec<char>> = Vec::new();
    let mut k: usize = 1;
    while k < lines.len()
        invariant
            1 <= k <= lines@.len(),
            chars_views(headers@) == chars_views(lines@).subrange(1, k as int),
        decreases lines.len() - k,
    {
        let copy = slice(&lines[k], 0, lines[k].len());
        assert(lines@[k as int]@.subrange(0, lines@[k as int]@.len() as int) =~= lines@[k as int]@);
        proof {
            assert(chars_views(headers@.push(copy)) =~= chars_views(headers@).push(copy@));
        }
        headers.push(copy);
        assert(chars_views(headers@) =~= chars_views(lines@).subrange(1, k + 1));
        k = k + 1;
    }
    assert(chars_views(lines@).subrange(1, lines@.len() as int) =~= chars_views(lines@).drop_first());
    let status = status_line_ok(&lines[0]);
    let json = json_type(&header_value(&headers, "content-type", 0));
    let cache = no_store(&header_value(&headers, "cache-control", 0));
    if status && json && cache {
        let mut body = String::new();
        let mut i = p + 4;
        while i < resp.len()
            invariant
                p + 4 <= i <= resp@.len(),
                body@ == resp@.subrange(p + 4, i as int),
            decreases resp.len() - i,
        {
            crate::text::push_char(&mut body, resp[i]);
            assert(body@ =~= resp@.subrange(p + 4, i + 1));
            i = i + 1;
        }
        assert(resp@.subrange(p + 4, resp@.len() as int) =~= resp@.skip(p + 4));
        Some(body)
    } else {
        None
    }
}

/// What `std::str::from_utf8` makes of these bytes: the text, or `None`
/// when they are not UTF-8.
pub uninterp spec fn utf8_decoded(bytes: Seq<u8>) -> Option<Seq<char>>;

/// `std::str::from_utf8`, owned.
#[verifier::external_body]
fn utf8_text(bytes: &[u8]) -> (text: Option<String>)
    ensures
        match text {
            Some(t) => utf8_decoded(bytes@) == Some(t@),
            None => utf8_decoded(bytes@) is None,
        },
{
    match std::str::from_utf8(bytes) {
        Ok(text) => Some(text.to_owned()),
        Err(_) => None,
    }
}

/// The body of a raw health response the launcher accepts: UTF-8, then the
/// status and header checks of [`accepted_health_body`].
pub fn health_body_of(response: &[u8]) -> (body: Option<String>)
    ensures
        match body {
            Some(b) => utf8_decoded(response@) is Some && accepted_body(utf8_decoded(response@)->0)
                == Some(b@),
            None => utf8_decoded(response@) is None || accepted_body(utf8_decoded(response@)->0) is None,
        },
{
    match utf8_text(response) {
        None => None,
        Some(text) => accepted_health_body(text.as_str()),
    }
}


/// The most of a health response the probe reads before giving up on it.
pub const MAX_HEALTH_RESPONSE_BYTES: usize = 65536;

/// How many bytes the next read may take after `received` of them, with a
/// buffer of `chunk`: never more than one byte past the cap, so an oversized
/// answer is noticed without reading all of it.
pub fn read_budget(received: usize, chunk: usize) -> (n: usize)
    requires
        received <= MAX_HEALTH_RESPONSE_BYTES,
    ensures
        n == if chunk < MAX_HEALTH_RESPONSE_BYTES + 1 - received {
            chunk
        } else {
            (MAX_HEALTH_RESPONSE_BYTES + 1 - received) as usize
        },
{
    let left = MAX_HEALTH_RESPONSE_BYTES + 1 - received;
    if chunk < left {
        chunk
    } else {
        left
    }
}

/// After a read of the health response.
#[derive(Clone, Copy, Debug, PartialEq, Eq, Structural)]
pub enum ReadNext {
    /// The server closed the connection: the response is complete.
    Done,
    /// Read again.
    More,
    /// Past the cap: not a health answer.
    TooLong,
}

/// A read of `read` bytes that brought the response to `total`: zero means
/// the response is complete; past the cap means it is refused.
pub fn after_read(read: usize, total: usize) -> (next: ReadNext)
    ensures
        read == 0 ==> next == ReadNext::Done,
        read > 0 && total > MAX_HEALTH_RESPONSE_BYTES ==> next == ReadNext::TooLong,
        read > 0 && total <= MAX_HEALTH_RESPONSE_BYTES ==> next == ReadNext::More,
{
    if read == 0 {
        ReadNext::Done
    } else if total > MAX_HEALTH_RESPONSE_BYTES {
        ReadNext::TooLong
    } else {
        ReadNext::More
    }
}

} // verus!
