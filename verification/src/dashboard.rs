//! The dashboard: the page that shows what was last recorded, and what is
//! answered to a request.

use crate::bytes::{decode_lossy, text_of_bytes};
use crate::config::option_text;
use crate::escape::{escape_html, escaped, is_kept, kept_text_is_unchanged, Escape};
use crate::paths::{expand_tilde, is_expanded, option_str};
use crate::settings::{selected_views, truth, truth_text, SelectedRepo, SelectedView};
use crate::state::{PersistedRepoState, PersistedState, RecordView};
use crate::text::{
    decimal, decimal_text, find_from, has_prefix, holds, is_around, lemma_holds_end,
    lemma_holds_more, next_word, no_white, same_text, split_at_first, split_once, split_word,
    strip_prefix, texts, trim_start, white_space, without_prefix, word_len,
};
use crate::url::{
    encoded_text_is_plain, encoding_is_undone, is_encoded_char, url_decode_component, url_decoded,
    url_encode_component, url_encoded,
};
use vstd::prelude::*;
use vstd::utf8::encode_utf8;

verus! {

/// The line with which an HTML page begins.
pub const DOCTYPE: &'static str = "<!DOCTYPE html>";

/// The page up to the time after which it is loaded again.
pub const PAGE_START: &'static str = r##"
<html lang="en">
<head>
<meta charset="utf-8">
<meta name="viewport" content="width=device-width, initial-scale=1">
<meta http-equiv="refresh" content=""##;

/// The page from there to the same time, as it is shown.
pub const PAGE_STYLE: &'static str = r##"">
<title>Repo Auto Puller Dashboard</title>
<style>
:root {
  color-scheme: light;
  --bg: #f4efe7;
  --panel: rgba(255, 252, 246, 0.92);
  --text: #1e1c18;
  --muted: #6f685f;
  --border: rgba(40, 34, 24, 0.12);
  --error: #a11d33;
  --warn: #b96a00;
  --info: #155e75;
  --idle: #1f6f43;
}
body {
  margin: 0;
  font-family: "Georgia", "Times New Roman", serif;
  background:
    radial-gradient(circle at top left, rgba(196, 120, 72, 0.16), transparent 38%),
    linear-gradient(135deg, #efe7da, var(--bg));
  color: var(--text);
}
main {
  max-width: 1100px;
  margin: 0 auto;
  padding: 40px 20px 60px;
}
h1 {
  margin: 0 0 10px;
  font-size: clamp(2rem, 4vw, 3.4rem);
}
.lead {
  margin: 0 0 30px;
  color: var(--muted);
  max-width: 60ch;
}
.grid {
  display: grid;
  grid-template-columns: repeat(auto-fit, minmax(260px, 1fr));
  gap: 18px;
}
.card {
  border: 1px solid var(--border);
  border-left-width: 6px;
  border-radius: 18px;
  padding: 18px;
  background: var(--panel);
  box-shadow: 0 18px 45px rgba(33, 27, 18, 0.08);
  backdrop-filter: blur(8px);
}
.card.error { border-left-color: var(--error); }
.card.warn { border-left-color: var(--warn); }
.card.info { border-left-color: var(--info); }
.card.idle { border-left-color: var(--idle); }
.card.unknown { border-left-color: var(--muted); }
.card h2 {
  margin: 0 0 10px;
  font-size: 1.35rem;
}
.action {
  display: inline-block;
  margin-top: 16px;
  padding: 10px 14px;
  border-radius: 999px;
  text-decoration: none;
  color: white;
  background: linear-gradient(135deg, #1e1c18, #6a4b2e);
}
.summary {
  margin: 0 0 16px;
  color: var(--muted);
  min-height: 3em;
}
dl {
  margin: 0;
  display: grid;
  gap: 10px;
}
dl div {
  display: grid;
  gap: 4px;
}
dt {
  font-size: 0.82rem;
  letter-spacing: 0.08em;
  text-transform: uppercase;
  color: var(--muted);
}
dd {
  margin: 0;
  word-break: break-word;
}
</style>
</head>
<body>
<main>
<h1>Repo Auto Puller</h1>
<p class="lead">Read-only dashboard for recent sync state. Refreshes every "##;

/// The page from there to the cards.
pub const PAGE_LEAD: &'static str = r##" seconds.</p>
<div class="grid">
"##;

/// The page after the cards.
pub const PAGE_END: &'static str = r##"</div>
</main>
</body>
</html>
"##;

/// What was recorded of a repository, if anything was.
pub open spec fn recorded(state: Map<Seq<char>, RecordView>, name: Seq<char>) -> Option<
    RecordView,
> {
    if state.dom().contains(name) {
        Some(state[name])
    } else {
        None
    }
}

/// The class of a card, by the level that was recorded.
pub open spec fn status_class(entry: Option<RecordView>) -> Seq<char> {
    match entry {
        None => "unknown"@,
        Some(entry) => if entry.level == "ERROR"@ {
            "error"@
        } else if entry.level == "WARN"@ {
            "warn"@
        } else if entry.level == "INFO"@ {
            "info"@
        } else if entry.level == "IDLE"@ {
            "idle"@
        } else {
            "unknown"@
        },
    }
}

/// A text, or another in its place.
pub open spec fn text_or(text: Option<Seq<char>>, other: Seq<char>) -> Seq<char> {
    match text {
        Some(text) => text,
        None => other,
    }
}

/// What a card says of a repository in one line: the error, or the message.
pub open spec fn card_summary(entry: Option<RecordView>) -> Seq<char> {
    match entry {
        None => "No sync recorded yet"@,
        Some(entry) => text_or(entry.error, text_or(entry.message, "No details recorded yet"@)),
    }
}

/// The branch that was recorded.
pub open spec fn card_branch(entry: Option<RecordView>) -> Seq<char> {
    match entry {
        None => "-"@,
        Some(entry) => text_or(entry.branch, "-"@),
    }
}

/// What the branch that was recorded follows.
pub open spec fn card_upstream(entry: Option<RecordView>) -> Seq<char> {
    match entry {
        None => "-"@,
        Some(entry) => text_or(entry.upstream, "-"@),
    }
}

/// A number, or a hyphen where there is none.
pub open spec fn count_shown(count: Option<u32>) -> Seq<char> {
    match count {
        Some(count) => decimal(count as nat),
        None => "-"@,
    }
}

/// A truth value, or a hyphen where there is none.
pub open spec fn truth_shown(value: Option<bool>) -> Seq<char> {
    match value {
        Some(value) => truth(value),
        None => "-"@,
    }
}

/// The number of commits ahead that was recorded.
pub open spec fn card_ahead(entry: Option<RecordView>) -> Seq<char> {
    match entry {
        None => "-"@,
        Some(entry) => count_shown(entry.ahead),
    }
}

/// The number of commits behind that was recorded.
pub open spec fn card_behind(entry: Option<RecordView>) -> Seq<char> {
    match entry {
        None => "-"@,
        Some(entry) => count_shown(entry.behind),
    }
}

/// Whether uncommitted changes were recorded.
pub open spec fn card_dirty(entry: Option<RecordView>) -> Seq<char> {
    match entry {
        None => "-"@,
        Some(entry) => truth_shown(entry.dirty),
    }
}

/// When the record was made.
pub open spec fn card_time(entry: Option<RecordView>) -> Seq<char> {
    match entry {
        None => "Never"@,
        Some(entry) => entry.time,
    }
}

/// Where the link on a card leads: to the resumption of a paused repository,
/// and to the pause of another.
pub open spec fn action_path(name: Seq<char>, paused: bool) -> Seq<char> {
    if paused {
        "/resume/"@ + url_encoded(name)
    } else {
        "/pause/"@ + url_encoded(name)
    }
}

/// The words of the link on a card.
pub open spec fn action_label(paused: bool) -> Seq<char> {
    if paused {
        "Resume Auto Pull"@
    } else {
        "Pause Auto Pull"@
    }
}

/// A text on the page.
pub open spec fn shown(text: Seq<char>) -> Seq<char> {
    escaped(Escape::Html, text)
}

/// The card of a repository at a path.
pub open spec fn card(
    repo: SelectedView,
    path: Seq<char>,
    entry: Option<RecordView>,
) -> Seq<char> {
    "<section class=\"card "@ + status_class(entry) + "\">\n<h2>"@ + shown(repo.config.name)
        + "</h2>\n<p class=\"summary\">"@ + shown(card_summary(entry))
        + "</p>\n<dl>\n<div><dt>Path</dt><dd>"@ + shown(path)
        + "</dd></div>\n<div><dt>Last Sync</dt><dd>"@ + shown(card_time(entry))
        + "</dd></div>\n<div><dt>Branch</dt><dd>"@ + shown(card_branch(entry))
        + "</dd></div>\n<div><dt>Upstream</dt><dd>"@ + shown(card_upstream(entry))
        + "</dd></div>\n<div><dt>Ahead</dt><dd>"@ + shown(card_ahead(entry))
        + "</dd></div>\n<div><dt>Behind</dt><dd>"@ + shown(card_behind(entry))
        + "</dd></div>\n<div><dt>Dirty</dt><dd>"@ + shown(card_dirty(entry))
        + "</dd></div>\n</dl>\n<a class=\"action\" href=\""@ + shown(
        action_path(repo.config.name, repo.config.paused),
    ) + "\">"@ + action_label(repo.config.paused) + "</a>\n</section>\n"@
}

/// The cards of the first `n` repositories.
pub open spec fn cards(
    repos: Seq<SelectedView>,
    paths: Seq<Seq<char>>,
    state: Map<Seq<char>, RecordView>,
    n: int,
) -> Seq<char>
    decreases n,
{
    if n <= 0 {
        Seq::empty()
    } else {
        cards(repos, paths, state, n - 1) + card(
            repos[n - 1],
            paths[n - 1],
            recorded(state, repos[n - 1].config.name),
        )
    }
}

/// The time after which the page is loaded again: five seconds at least.
pub open spec fn refresh_time(seconds: u64) -> nat {
    if seconds < 5 {
        5
    } else {
        seconds as nat
    }
}

/// The page, with the cards given.
pub open spec fn page(cards: Seq<char>, refresh_seconds: u64) -> Seq<char> {
    let time = decimal(refresh_time(refresh_seconds));
    DOCTYPE@ + PAGE_START@ + time + PAGE_STYLE@ + time + PAGE_LEAD@ + cards + PAGE_END@
}

/// A text, or another in its place.
fn or_text<'a>(text: &'a Option<String>, other: &'a str) -> (shown: &'a str)
    ensures
        shown@ == text_or(option_text(*text), other@),
{
    match text {
        Some(text) => text.as_str(),
        None => other,
    }
}

/// A number, or a hyphen where there is none.
fn count_text(count: Option<u32>) -> (text: String)
    ensures
        text@ == count_shown(count),
{
    match count {
        Some(count) => decimal_text(count as u64),
        None => "-".to_owned(),
    }
}

/// What optional recorded state says.
pub open spec fn entry_view(entry: Option<&PersistedRepoState>) -> Option<RecordView> {
    match entry {
        Some(entry) => Some(entry@),
        None => None,
    }
}

/// The class of a card, by the level that was recorded.
fn class_of(entry: Option<&PersistedRepoState>) -> (class: &'static str)
    ensures
        class@ == status_class(entry_view(entry)),
{
    match entry {
        None => "unknown",
        Some(entry) => {
            let level: &str = entry.level.as_str();
            if same_text(level, "ERROR") {
                "error"
            } else if same_text(level, "WARN") {
                "warn"
            } else if same_text(level, "INFO") {
                "info"
            } else if same_text(level, "IDLE") {
                "idle"
            } else {
                "unknown"
            }
        },
    }
}

/// Where the link on a card leads.
pub fn action_link(name: &str, paused: bool) -> (path: String)
    ensures
        path@ == action_path(name@, paused),
{
    if paused {
        "/resume/".to_owned().concat(url_encode_component(name).as_str())
    } else {
        "/pause/".to_owned().concat(url_encode_component(name).as_str())
    }
}

/// The card of a repository at a path.
fn card_text(repo: &SelectedRepo, path: &str, entry: Option<&PersistedRepoState>) -> (text: String)
    ensures
        text@ == card(repo@, path@, entry_view(entry)),
{
    let summary: &str = match entry {
        None => "No sync recorded yet",
        Some(entry) => or_text(
            &entry.error,
            or_text(&entry.message, "No details recorded yet"),
        ),
    };
    let branch: &str = match entry {
        None => "-",
        Some(entry) => or_text(&entry.branch, "-"),
    };
    let upstream: &str = match entry {
        None => "-",
        Some(entry) => or_text(&entry.upstream, "-"),
    };
    let ahead = match entry {
        None => "-".to_owned(),
        Some(entry) => count_text(entry.ahead),
    };
    let behind = match entry {
        None => "-".to_owned(),
        Some(entry) => count_text(entry.behind),
    };
    let dirty: &str = match entry {
        None => "-",
        Some(entry) => match entry.dirty {
            Some(dirty) => truth_text(dirty),
            None => "-",
        },
    };
    let time: &str = match entry {
        None => "Never",
        Some(entry) => entry.updated_at.as_str(),
    };
    let link = action_link(repo.config.name.as_str(), repo.config.paused);
    let label: &str = if repo.config.paused {
        "Resume Auto Pull"
    } else {
        "Pause Auto Pull"
    };
    let mut text = "<section class=\"card ".to_owned();
    text.append(class_of(entry));
    text.append("\">\n<h2>");
    text.append(escape_html(repo.config.name.as_str()).as_str());
    text.append("</h2>\n<p class=\"summary\">");
    text.append(escape_html(summary).as_str());
    text.append("</p>\n<dl>\n<div><dt>Path</dt><dd>");
    text.append(escape_html(path).as_str());
    text.append("</dd></div>\n<div><dt>Last Sync</dt><dd>");
    text.append(escape_html(time).as_str());
    text.append("</dd></div>\n<div><dt>Branch</dt><dd>");
    text.append(escape_html(branch).as_str());
    text.append("</dd></div>\n<div><dt>Upstream</dt><dd>");
    text.append(escape_html(upstream).as_str());
    text.append("</dd></div>\n<div><dt>Ahead</dt><dd>");
    text.append(escape_html(ahead.as_str()).as_str());
    text.append("</dd></div>\n<div><dt>Behind</dt><dd>");
    text.append(escape_html(behind.as_str()).as_str());
    text.append("</dd></div>\n<div><dt>Dirty</dt><dd>");
    text.append(escape_html(dirty).as_str());
    text.append("</dd></div>\n</dl>\n<a class=\"action\" href=\"");
    text.append(escape_html(link.as_str()).as_str());
    text.append("\">");
    text.append(label);
    text.append("</a>\n</section>\n");
    text
}

/// The page that shows repositories at the given paths.
pub fn render_dashboard_at(
    selected: &[SelectedRepo],
    paths: &[String],
    state: &PersistedState,
    refresh_seconds: u64,
) -> (html: String)
    requires
        paths@.len() == selected@.len(),
    ensures
        html@ == page(
            cards(
                selected_views(selected@),
                texts(paths@),
                state.repositories@,
                selected@.len() as int,
            ),
            refresh_seconds,
        ),
{
    let ghost repos = selected_views(selected@);
    let ghost places = texts(paths@);
    let ghost states = state.repositories@;
    let mut all = String::new();
    let mut i: usize = 0;
    while i < selected.len()
        invariant
            i <= selected.len() == paths.len(),
            repos == selected_views(selected@),
            places == texts(paths@),
            states == state.repositories@,
            all@ == cards(repos, places, states, i as int),
        decreases selected.len() - i,
    {
        let repo = &selected[i];
        assert(repos[i as int] == repo@);
        assert(places[i as int] == paths@[i as int]@);
        let entry = state.repositories.get(repo.config.name.as_str());
        assert(entry_view(entry) == recorded(states, repo@.config.name));
        all.append(card_text(repo, paths[i].as_str(), entry).as_str());
        i = i + 1;
    }
    let time = decimal_text(
        if refresh_seconds < 5 {
            5
        } else {
            refresh_seconds
        },
    );
    DOCTYPE.to_owned().concat(PAGE_START).concat(time.as_str()).concat(PAGE_STYLE).concat(
        time.as_str(),
    ).concat(PAGE_LEAD).concat(all.as_str()).concat(PAGE_END)
}

/// Whether paths are those of repositories, with the tilde expanded.
pub open spec fn are_expanded(
    repos: Seq<SelectedView>,
    home: Option<Seq<char>>,
    paths: Seq<Seq<char>>,
) -> bool {
    &&& paths.len() == repos.len()
    &&& forall|i: int|
        0 <= i < repos.len() ==> is_expanded(
            (#[trigger] repos[i]).config.path,
            home,
            paths[i],
        )
}

/// The page that shows repositories where the configuration says they are,
/// with the tilde expanded.
pub fn render_dashboard_html(
    selected: &[SelectedRepo],
    state: &PersistedState,
    refresh_seconds: u64,
    home: Option<&str>,
) -> (html: String)
    ensures
        exists|paths: Seq<Seq<char>>| #[trigger]
            are_expanded(selected_views(selected@), option_str(home), paths) && html@ == page(
                cards(
                    selected_views(selected@),
                    paths,
                    state.repositories@,
                    selected@.len() as int,
                ),
                refresh_seconds,
            ),
{
    let ghost repos = selected_views(selected@);
    let mut paths: Vec<String> = Vec::new();
    let mut i: usize = 0;
    while i < selected.len()
        invariant
            i <= selected.len(),
            paths.len() == i,
            repos == selected_views(selected@),
            forall|j: int|
                0 <= j < i ==> is_expanded(
                    (#[trigger] repos[j]).config.path,
                    option_str(home),
                    paths@[j]@,
                ),
        decreases selected.len() - i,
    {
        assert(repos[i as int] == selected@[i as int]@);
        paths.push(expand_tilde(selected[i].config.path.as_str(), home));
        i = i + 1;
    }
    assert(are_expanded(repos, option_str(home), texts(paths@)));
    render_dashboard_at(selected, paths.as_slice(), state, refresh_seconds)
}

/// The name that a path holds behind a prefix, decoded.
pub open spec fn name_in_path(path: Seq<char>, prefix: Seq<char>) -> Option<Seq<char>> {
    match strip_prefix(path, prefix) {
        None => None,
        Some(rest) => if url_decoded(rest).len() == 0 {
            None
        } else {
            Some(url_decoded(rest))
        },
    }
}

/// The name that a path holds behind a prefix, decoded.
pub fn repo_name_from_path(path: &str, prefix: &str) -> (name: Option<String>)
    ensures
        option_text(name) == name_in_path(path@, prefix@),
{
    match without_prefix(path, prefix) {
        None => None,
        Some(rest) => {
            let name = url_decode_component(rest.as_str());
            if name.as_str().is_empty() {
                None
            } else {
                Some(name)
            }
        },
    }
}

/// What a request asks for.
#[derive(Debug)]
pub enum Route {
    /// That a repository be paused.
    Pause { name: String },
    /// That a repository be resumed.
    Resume { name: String },
    /// The dashboard.
    Dashboard,
    /// Whether the server is there.
    Health,
    /// Something that there is not.
    NotFound,
}

/// What a [`Route`] says.
#[verifier::ext_equal]
pub enum RouteView {
    Pause { name: Seq<char> },
    Resume { name: Seq<char> },
    Dashboard,
    Health,
    NotFound,
}

impl View for Route {
    type V = RouteView;

    open spec fn view(&self) -> RouteView {
        match self {
            Route::Pause { name } => RouteView::Pause { name: name@ },
            Route::Resume { name } => RouteView::Resume { name: name@ },
            Route::Dashboard => RouteView::Dashboard,
            Route::Health => RouteView::Health,
            Route::NotFound => RouteView::NotFound,
        }
    }
}

/// The first line of a text.
pub open spec fn first_line(text: Seq<char>) -> Seq<char> {
    match split_once(text, '\n') {
        Some((line, _)) => line,
        None => text,
    }
}

/// The path of a request: the second word of its first line.
pub open spec fn requested_path(request: Seq<char>) -> Seq<char> {
    match next_word(first_line(request)) {
        None => "/"@,
        Some((_, rest)) => match next_word(rest) {
            None => "/"@,
            Some((path, _)) => path,
        },
    }
}

/// What a path asks for.
pub open spec fn route_of(path: Seq<char>) -> RouteView {
    match name_in_path(path, "/pause/"@) {
        Some(name) => RouteView::Pause { name },
        None => match name_in_path(path, "/resume/"@) {
            Some(name) => RouteView::Resume { name },
            None => if path == "/"@ {
                RouteView::Dashboard
            } else if path == "/healthz"@ {
                RouteView::Health
            } else {
                RouteView::NotFound
            },
        },
    }
}

/// The path of a request.
pub fn request_path(request: &str) -> (path: String)
    ensures
        path@ == requested_path(request@),
{
    let line = match split_at_first(request, '\n') {
        Some((line, _)) => line,
        None => request.to_owned(),
    };
    match split_word(line.as_str()) {
        None => "/".to_owned(),
        Some((_, rest)) => match split_word(rest.as_str()) {
            None => "/".to_owned(),
            Some((path, _)) => path,
        },
    }
}

/// What a path asks for.
pub fn route_path(path: &str) -> (route: Route)
    ensures
        route@ == route_of(path@),
{
    if let Some(name) = repo_name_from_path(path, "/pause/") {
        return Route::Pause { name };
    }
    if let Some(name) = repo_name_from_path(path, "/resume/") {
        return Route::Resume { name };
    }
    if same_text(path, "/") {
        Route::Dashboard
    } else if same_text(path, "/healthz") {
        Route::Health
    } else {
        Route::NotFound
    }
}

/// What a request asks for.
pub fn route_request(request: &[u8]) -> (route: Route)
    ensures
        route@ == route_of(requested_path(text_of_bytes(request@))),
{
    route_path(request_path(decode_lossy(request).as_str()).as_str())
}

/// The first line of the answer to a request.
pub open spec fn status_line(route: RouteView) -> Seq<char> {
    match route {
        RouteView::Pause { .. } | RouteView::Resume { .. } => "HTTP/1.1 303 See Other"@,
        RouteView::Dashboard | RouteView::Health => "HTTP/1.1 200 OK"@,
        RouteView::NotFound => "HTTP/1.1 404 Not Found"@,
    }
}

/// The headers that only some answers have.
pub open spec fn extra_headers(route: RouteView) -> Seq<char> {
    match route {
        RouteView::Pause { .. } | RouteView::Resume { .. } => "Location: /\r\n"@,
        _ => Seq::empty(),
    }
}

/// What is answered, apart from its head; `html` is the dashboard.
pub open spec fn body_of(route: RouteView, html: Seq<char>) -> Seq<char> {
    match route {
        RouteView::Pause { .. } | RouteView::Resume { .. } => Seq::empty(),
        RouteView::Dashboard => html,
        RouteView::Health => "ok"@,
        RouteView::NotFound => "not found"@,
    }
}

/// The type of what is answered.
pub open spec fn content_type(body: Seq<char>) -> Seq<char> {
    if DOCTYPE@.is_prefix_of(body) {
        "text/html; charset=utf-8"@
    } else {
        "text/plain; charset=utf-8"@
    }
}

/// The answer to a request; `html` is the dashboard. It says how many bytes
/// follow its head.
pub open spec fn response_of(route: RouteView, html: Seq<char>) -> Seq<char> {
    let body = body_of(route, html);
    status_line(route) + "\r\nContent-Type: "@ + content_type(body) + "\r\n"@ + extra_headers(route)
        + "Content-Length: "@ + decimal(encode_utf8(body).len())
        + "\r\nConnection: close\r\n\r\n"@ + body
}

/// The answer to a request; `html` is the dashboard, which is not looked at
/// unless it was asked for.
pub fn respond(route: &Route, html: &str) -> (response: String)
    ensures
        response@ == response_of(route@, html@),
{
    let status: &str = match route {
        Route::Pause { .. } | Route::Resume { .. } => "HTTP/1.1 303 See Other",
        Route::Dashboard | Route::Health => "HTTP/1.1 200 OK",
        Route::NotFound => "HTTP/1.1 404 Not Found",
    };
    let headers = match route {
        Route::Pause { .. } | Route::Resume { .. } => "Location: /\r\n".to_owned(),
        _ => String::new(),
    };
    let body = match route {
        Route::Pause { .. } | Route::Resume { .. } => String::new(),
        Route::Dashboard => html.to_owned(),
        Route::Health => "ok".to_owned(),
        Route::NotFound => "not found".to_owned(),
    };
    assert(headers@ =~= extra_headers(route@));
    assert(body@ =~= body_of(route@, html@));
    let kind: &str = if has_prefix(body.as_str(), DOCTYPE) {
        "text/html; charset=utf-8"
    } else {
        "text/plain; charset=utf-8"
    };
    let length: usize = body.as_str().as_bytes().len();
    status.to_owned().concat("\r\nContent-Type: ").concat(kind).concat("\r\n").concat(
        headers.as_str(),
    ).concat("Content-Length: ").concat(decimal_text(length as u64).as_str()).concat(
        "\r\nConnection: close\r\n\r\n",
    ).concat(body.as_str())
}

/// The message of a dashboard that has begun to listen.
pub fn listening_message(listen: &str) -> (message: String)
    ensures
        message@ == "Dashboard listening on http://"@ + listen@,
{
    "Dashboard listening on http://".to_owned().concat(listen)
}

/// What stands behind a prefix is found behind it.
proof fn lemma_prefix_is_stripped(prefix: Seq<char>, rest: Seq<char>)
    ensures
        strip_prefix(prefix + rest, prefix) == Some(rest),
{
    assert(prefix.is_prefix_of(prefix + rest)) by {
        assert(prefix =~= (prefix + rest).subrange(0, prefix.len() as int));
    }
    assert((prefix + rest).skip(prefix.len() as int) =~= rest);
}

/// The link on the card of a repository asks that this repository be resumed
/// if it is paused, and that it be paused if it is not.
pub proof fn links_lead_back(name: Seq<char>, paused: bool)
    requires
        name.len() > 0,
    ensures
        route_of(action_path(name, paused)) == if paused {
            RouteView::Resume { name }
        } else {
            RouteView::Pause { name }
        },
{
    reveal_strlit("/pause/");
    reveal_strlit("/resume/");
    encoding_is_undone(name);
    let path = action_path(name, paused);
    if paused {
        lemma_prefix_is_stripped("/resume/"@, url_encoded(name));
        assert(path[1] == 'r');
        if "/pause/"@.is_prefix_of(path) {
            assert(path.subrange(0, "/pause/"@.len() as int)[1] == 'p');
        }
    } else {
        lemma_prefix_is_stripped("/pause/"@, url_encoded(name));
    }
}

/// Whether a character may stand in the link on a card.
pub open spec fn is_link_char(c: char) -> bool {
    c == '/' || is_encoded_char(c)
}

/// The link on a card holds no character that ends it or that stands for
/// another, and is shown as it is.
pub proof fn links_are_plain(name: Seq<char>, paused: bool)
    ensures
        forall|i: int|
            0 <= i < action_path(name, paused).len() ==> is_link_char(
                #[trigger] action_path(name, paused)[i],
            ),
        shown(action_path(name, paused)) == action_path(name, paused),
{
    reveal_strlit("/pause/");
    reveal_strlit("/resume/");
    encoded_text_is_plain(name);
    let path = action_path(name, paused);
    let prefix = if paused {
        "/resume/"@
    } else {
        "/pause/"@
    };
    assert forall|i: int| 0 <= i < path.len() implies is_link_char(#[trigger] path[i]) by {
        if i < prefix.len() {
            assert(path[i] == prefix[i]);
        } else {
            assert(path[i] == url_encoded(name)[i - prefix.len()]);
        }
    }
    assert forall|i: int| 0 <= i < path.len() implies is_kept(
        Escape::Html,
        #[trigger] path[i],
    ) by {
        assert(is_link_char(path[i]));
    }
    kept_text_is_unchanged(Escape::Html, path);
}

proof fn lemma_word_len(word: Seq<char>, rest: Seq<char>)
    requires
        forall|i: int| 0 <= i < word.len() ==> !white_space(#[trigger] word[i]),
        rest.len() > 0 ==> white_space(rest[0]),
    ensures
        word_len(word + rest) == word.len(),
    decreases word.len(),
{
    if word.len() == 0 {
        assert(word + rest =~= rest);
    } else {
        assert(!white_space(word[0]));
        assert((word + rest).drop_first() =~= word.drop_first() + rest);
        assert forall|i: int| 0 <= i < word.drop_first().len() implies !white_space(
            #[trigger] word.drop_first()[i],
        ) by {
            assert(word.drop_first()[i] == word[i + 1]);
        }
        lemma_word_len(word.drop_first(), rest);
    }
}

/// A word with white space behind it, or nothing, is the next word.
proof fn lemma_next_word(word: Seq<char>, rest: Seq<char>)
    requires
        word.len() > 0,
        forall|i: int| 0 <= i < word.len() ==> !white_space(#[trigger] word[i]),
        rest.len() > 0 ==> white_space(rest[0]),
    ensures
        next_word(word + rest) == Some((word, rest)),
{
    lemma_word_len(word, rest);
    let text = word + rest;
    assert(!white_space(word[0]));
    assert(trim_start(text) == text);
    assert(text.take(word.len() as int) =~= word);
    assert(text.skip(word.len() as int) =~= rest);
}

/// A character is not found where it does not stand.
proof fn lemma_found_later(text: Seq<char>, c: char, from: int, to: int)
    requires
        0 <= from <= to <= text.len(),
        forall|i: int| from <= i < to ==> text[i] != c,
    ensures
        find_from(text, c, from) matches Some(i) ==> to <= i < text.len(),
    decreases text.len() - from,
{
    if from < text.len() && text[from] != c {
        lemma_found_later(
            text,
            c,
            from + 1,
            if from < to {
                to
            } else {
                from + 1
            },
        );
    }
}

/// A beginning without a line feed stands in the first line.
proof fn lemma_first_line(head: Seq<char>, rest: Seq<char>)
    requires
        forall|i: int| 0 <= i < head.len() ==> head[i] != '\n',
    ensures
        first_line(head + rest).len() >= head.len(),
        first_line(head + rest) == head + first_line(head + rest).skip(head.len() as int),
{
    let text = head + rest;
    lemma_found_later(text, '\n', 0, head.len() as int);
    let line = first_line(text);
    assert(line.len() >= head.len());
    assert(line =~= head + line.skip(head.len() as int));
}

/// The path in the first line of a request is the one that is requested.
pub proof fn requests_are_understood(path: Seq<char>, rest: Seq<char>)
    requires
        path.len() > 0,
        forall|i: int| 0 <= i < path.len() ==> !white_space(#[trigger] path[i]),
    ensures
        requested_path("GET "@ + path + " "@ + rest) == path,
{
    reveal_strlit("GET ");
    reveal_strlit(" ");
    let verb = seq!['G', 'E', 'T'];
    let head = "GET "@ + path + " "@;
    assert forall|i: int| 0 <= i < head.len() implies head[i] != '\n' by {
        if 4 <= i < 4 + path.len() {
            assert(head[i] == path[i - 4]);
            assert(!white_space(path[i - 4]));
        }
    }
    lemma_first_line(head, rest);
    let end = first_line(head + rest).skip(head.len() as int);
    let behind = " "@ + end;
    let second = path + behind;
    let first = " "@ + second;
    assert(first_line(head + rest) =~= verb + first);
    lemma_next_word(verb, first);
    assert(first.drop_first() =~= second);
    assert(!white_space(second[0])) by {
        assert(second[0] == path[0]);
    }
    assert(trim_start(first) == trim_start(second));
    lemma_next_word(path, behind);
}

/// Following the link on the card of a repository pauses or resumes it,
/// whatever else stands in the request.
pub proof fn links_are_followed(name: Seq<char>, paused: bool, rest: Seq<char>)
    requires
        name.len() > 0,
    ensures
        route_of(requested_path("GET "@ + action_path(name, paused) + " "@ + rest)) == if paused {
            RouteView::Resume { name }
        } else {
            RouteView::Pause { name }
        },
{
    let path = action_path(name, paused);
    links_lead_back(name, paused);
    links_are_plain(name, paused);
    reveal_strlit("/pause/");
    reveal_strlit("/resume/");
    assert forall|i: int| 0 <= i < path.len() implies !white_space(#[trigger] path[i]) by {
        assert(is_link_char(path[i]));
    }
    requests_are_understood(path, rest);
}

/// The dashboard is answered as HTML, and nothing else is.
pub proof fn only_the_dashboard_is_html(route: RouteView, cards: Seq<char>, refresh_seconds: u64)
    ensures
        content_type(body_of(route, page(cards, refresh_seconds))) == if route is Dashboard {
            "text/html; charset=utf-8"@
        } else {
            "text/plain; charset=utf-8"@
        },
{
    reveal_strlit("<!DOCTYPE html>");
    reveal_strlit("ok");
    reveal_strlit("not found");
    let body = body_of(route, page(cards, refresh_seconds));
    if route is Dashboard {
        assert(DOCTYPE@ =~= body.subrange(0, DOCTYPE@.len() as int));
    } else {
        assert(body.len() < DOCTYPE@.len());
    }
}

/// The texts of a card, one after the other.
spec fn card_parts(
    repo: SelectedView,
    path: Seq<char>,
    entry: Option<RecordView>,
) -> Seq<Seq<char>> {
    seq![
        "<section class=\"card "@,
        status_class(entry),
        "\">\n<h2>"@,
        shown(repo.config.name),
        "</h2>\n<p class=\"summary\">"@,
        shown(card_summary(entry)),
        "</p>\n<dl>\n<div><dt>Path</dt><dd>"@,
        shown(path),
        "</dd></div>\n<div><dt>Last Sync</dt><dd>"@,
        shown(card_time(entry)),
        "</dd></div>\n<div><dt>Branch</dt><dd>"@,
        shown(card_branch(entry)),
        "</dd></div>\n<div><dt>Upstream</dt><dd>"@,
        shown(card_upstream(entry)),
        "</dd></div>\n<div><dt>Ahead</dt><dd>"@,
        shown(card_ahead(entry)),
        "</dd></div>\n<div><dt>Behind</dt><dd>"@,
        shown(card_behind(entry)),
        "</dd></div>\n<div><dt>Dirty</dt><dd>"@,
        shown(card_dirty(entry)),
        "</dd></div>\n</dl>\n<a class=\"action\" href=\""@,
        shown(action_path(repo.config.name, repo.config.paused)),
        "\">"@,
        action_label(repo.config.paused),
        "</a>\n</section>\n"@,
    ]
}

/// The first texts of a list in a row.
spec fn in_row(parts: Seq<Seq<char>>, n: int) -> Seq<char>
    decreases n,
{
    if n <= 0 {
        Seq::empty()
    } else if n == 1 {
        parts[0]
    } else {
        in_row(parts, n - 1) + parts[n - 1]
    }
}

proof fn lemma_neighbours_are_held(parts: Seq<Seq<char>>, n: int, i: int)
    requires
        1 <= i < n <= parts.len(),
    ensures
        holds(in_row(parts, n), parts[i - 1] + parts[i]),
    decreases n,
{
    let pair = parts[i - 1] + parts[i];
    reveal_with_fuel(in_row, 3);
    if i < n - 1 {
        lemma_neighbours_are_held(parts, n - 1, i);
        lemma_holds_more(in_row(parts, n - 1), pair, parts[n - 1]);
    } else if i == 1 {
        assert(Seq::<char>::empty() + pair =~= pair);
        lemma_holds_end(Seq::empty(), pair);
    } else {
        lemma_holds_end(in_row(parts, i - 1), pair);
        assert(in_row(parts, i - 1) + pair =~= in_row(parts, i - 1) + parts[i - 1] + parts[i]);
    }
}

proof fn lemma_card_is_in_row(repo: SelectedView, path: Seq<char>, entry: Option<RecordView>)
    ensures
        card_parts(repo, path, entry).len() == 25,
        card(repo, path, entry) == in_row(card_parts(repo, path, entry), 25),
{
    reveal_with_fuel(in_row, 26);
}


/// The card of a repository shows what was last recorded of it, each thing under
/// its own name, and a hyphen for what was not.
pub proof fn cards_show_what_was_recorded(
    repo: SelectedView,
    path: Seq<char>,
    record: RecordView,
)
    ensures
        ({
            let text = card(repo, path, Some(record));
            let none = "-"@;
            &&& holds(text, "\">\n<h2>"@ + escaped(Escape::Html, repo.config.name))
            &&& holds(text, "</p>\n<dl>\n<div><dt>Path</dt><dd>"@ + escaped(Escape::Html, path))
            &&& holds(
                text,
                "</dd></div>\n<div><dt>Last Sync</dt><dd>"@ + escaped(Escape::Html, record.time),
            )
            &&& holds(
                text,
                "</dd></div>\n<div><dt>Branch</dt><dd>"@ + escaped(
                    Escape::Html,
                    match record.branch {
                        Some(branch) => branch,
                        None => none,
                    },
                ),
            )
            &&& holds(
                text,
                "</dd></div>\n<div><dt>Upstream</dt><dd>"@ + escaped(
                    Escape::Html,
                    match record.upstream {
                        Some(upstream) => upstream,
                        None => none,
                    },
                ),
            )
            &&& holds(
                text,
                "</dd></div>\n<div><dt>Ahead</dt><dd>"@ + escaped(
                    Escape::Html,
                    match record.ahead {
                        Some(ahead) => decimal(ahead as nat),
                        None => none,
                    },
                ),
            )
            &&& holds(
                text,
                "</dd></div>\n<div><dt>Behind</dt><dd>"@ + escaped(
                    Escape::Html,
                    match record.behind {
                        Some(behind) => decimal(behind as nat),
                        None => none,
                    },
                ),
            )
            &&& holds(
                text,
                "</dd></div>\n<div><dt>Dirty</dt><dd>"@ + escaped(
                    Escape::Html,
                    match record.dirty {
                        Some(dirty) => if dirty {
                            "true"@
                        } else {
                            "false"@
                        },
                        None => none,
                    },
                ),
            )
        }),
{
    let entry = Some(record);
    let parts = card_parts(repo, path, entry);
    let n = parts.len() as int;
    lemma_card_is_in_row(repo, path, entry);
    lemma_neighbours_are_held(parts, n, 3);
    lemma_neighbours_are_held(parts, n, 7);
    lemma_neighbours_are_held(parts, n, 9);
    lemma_neighbours_are_held(parts, n, 11);
    lemma_neighbours_are_held(parts, n, 13);
    lemma_neighbours_are_held(parts, n, 15);
    lemma_neighbours_are_held(parts, n, 17);
    lemma_neighbours_are_held(parts, n, 19);
}

/// A card says the error if there is one, else the message, and that nothing was
/// recorded if nothing was; and it is marked by the level that was recorded.
pub proof fn cards_say_the_error_first(
    repo: SelectedView,
    path: Seq<char>,
    entry: Option<RecordView>,
)
    ensures
        ({
            let text = card(repo, path, entry);
            let summary = "</h2>\n<p class=\"summary\">"@;
            let class = "<section class=\"card "@;
            &&& entry matches Some(record) ==> {
                &&& record.error matches Some(error) ==> holds(
                    text,
                    summary + escaped(Escape::Html, error),
                )
                &&& record.error is None ==> (record.message matches Some(message) ==> holds(
                    text,
                    summary + escaped(Escape::Html, message),
                ))
                &&& record.error is None && record.message is None ==> holds(
                    text,
                    summary + escaped(Escape::Html, "No details recorded yet"@),
                )
                &&& !seq!["ERROR"@, "WARN"@, "INFO"@, "IDLE"@].contains(record.level) ==> holds(
                    text,
                    class + "unknown"@,
                )
                &&& record.level == "ERROR"@ ==> holds(text, class + "error"@)
                &&& record.level == "WARN"@ ==> holds(text, class + "warn"@)
                &&& record.level == "INFO"@ ==> holds(text, class + "info"@)
                &&& record.level == "IDLE"@ ==> holds(text, class + "idle"@)
            }
            &&& entry is None ==> {
                &&& holds(text, summary + escaped(Escape::Html, "No sync recorded yet"@))
                &&& holds(text, class + "unknown"@)
                &&& holds(
                    text,
                    "</dd></div>\n<div><dt>Branch</dt><dd>"@ + escaped(Escape::Html, "-"@),
                )
                &&& holds(
                    text,
                    "</dd></div>\n<div><dt>Upstream</dt><dd>"@ + escaped(Escape::Html, "-"@),
                )
                &&& holds(
                    text,
                    "</dd></div>\n<div><dt>Ahead</dt><dd>"@ + escaped(Escape::Html, "-"@),
                )
                &&& holds(
                    text,
                    "</dd></div>\n<div><dt>Behind</dt><dd>"@ + escaped(Escape::Html, "-"@),
                )
                &&& holds(
                    text,
                    "</dd></div>\n<div><dt>Dirty</dt><dd>"@ + escaped(Escape::Html, "-"@),
                )
                &&& holds(
                    text,
                    "</dd></div>\n<div><dt>Last Sync</dt><dd>"@ + escaped(Escape::Html, "Never"@),
                )
            }
        }),
{
    let parts = card_parts(repo, path, entry);
    let n = parts.len() as int;
    lemma_card_is_in_row(repo, path, entry);
    lemma_neighbours_are_held(parts, n, 1);
    lemma_neighbours_are_held(parts, n, 5);
    lemma_neighbours_are_held(parts, n, 9);
    lemma_neighbours_are_held(parts, n, 11);
    lemma_neighbours_are_held(parts, n, 13);
    lemma_neighbours_are_held(parts, n, 15);
    lemma_neighbours_are_held(parts, n, 17);
    lemma_neighbours_are_held(parts, n, 19);
    let levels = seq!["ERROR"@, "WARN"@, "INFO"@, "IDLE"@];
    assert(levels[0] == "ERROR"@ && levels[1] == "WARN"@);
    assert(levels[2] == "INFO"@ && levels[3] == "IDLE"@);
    reveal_strlit("ERROR");
    reveal_strlit("WARN");
    reveal_strlit("INFO");
    reveal_strlit("IDLE");
    assert("ERROR"@.len() == 5 && "WARN"@.len() == 4);
    assert("INFO"@.len() == 4 && "IDLE"@.len() == 4);
    assert("WARN"@[0] == 'W' && "INFO"@[1] == 'N' && "IDLE"@[1] == 'D');
}

/// A card offers to resume a repository that is paused, and to pause one that is
/// not.
pub proof fn cards_offer_the_other(
    repo: SelectedView,
    path: Seq<char>,
    entry: Option<RecordView>,
)
    ensures
        ({
            let text = card(repo, path, entry);
            let link = "</dd></div>\n</dl>\n<a class=\"action\" href=\""@;
            let name = url_encoded(repo.config.name);
            &&& repo.config.paused ==> holds(text, link + ("/resume/"@ + name)) && holds(
                text,
                "\">"@ + "Resume Auto Pull"@,
            )
            &&& !repo.config.paused ==> holds(text, link + ("/pause/"@ + name)) && holds(
                text,
                "\">"@ + "Pause Auto Pull"@,
            )
        }),
{
    let parts = card_parts(repo, path, entry);
    let n = parts.len() as int;
    lemma_card_is_in_row(repo, path, entry);
    lemma_neighbours_are_held(parts, n, 21);
    lemma_neighbours_are_held(parts, n, 23);
    links_are_plain(repo.config.name, repo.config.paused);
}

proof fn lemma_holds_behind(head: Seq<char>, text: Seq<char>, part: Seq<char>)
    requires
        holds(text, part),
    ensures
        holds(head + text, part),
{
    let (before, after) = choose|before: Seq<char>, after: Seq<char>|
        is_around(text, before, part, after);
    assert(head + text =~= (head + before) + part + after);
    assert(is_around(head + text, head + before, part, after));
}

/// There is a card for each repository that is shown, with its path and what was
/// recorded under its name.
pub proof fn repositories_have_a_card_each(
    repos: Seq<SelectedView>,
    paths: Seq<Seq<char>>,
    state: Map<Seq<char>, RecordView>,
    n: int,
    i: int,
)
    requires
        0 <= i < n <= repos.len(),
        paths.len() == repos.len(),
    ensures
        ({
            let name = repos[i].config.name;
            let entry = if state.dom().contains(name) {
                Some(state[name])
            } else {
                None
            };
            holds(cards(repos, paths, state, n), card(repos[i], paths[i], entry))
        }),
    decreases n,
{
    let one = card(repos[i], paths[i], recorded(state, repos[i].config.name));
    let before = cards(repos, paths, state, n - 1);
    if i == n - 1 {
        lemma_holds_end(before, one);
    } else {
        repositories_have_a_card_each(repos, paths, state, n - 1, i);
        lemma_holds_more(
            before,
            one,
            card(repos[n - 1], paths[n - 1], recorded(state, repos[n - 1].config.name)),
        );
    }
}

/// What the cards show stands on the page; and the page says twice after how many
/// seconds it is loaded again, where it is told so and where it tells it.
pub proof fn pages_hold_the_cards(cards: Seq<char>, refresh_seconds: u64, part: Seq<char>)
    requires
        holds(cards, part),
    ensures
        ({
            let seconds: nat = if refresh_seconds >= 5 {
                refresh_seconds as nat
            } else {
                5
            };
            let text = page(cards, refresh_seconds);
            &&& holds(text, part)
            &&& holds(text, PAGE_START@ + decimal(seconds))
            &&& holds(text, decimal(seconds) + PAGE_LEAD@)
        }),
{
    let time = decimal(refresh_time(refresh_seconds));
    let head = DOCTYPE@ + PAGE_START@ + time + PAGE_STYLE@ + time + PAGE_LEAD@;
    lemma_holds_behind(head, cards, part);
    lemma_holds_more(head + cards, part, PAGE_END@);
    let text = page(cards, refresh_seconds);
    let first = PAGE_START@ + time;
    let rest = PAGE_STYLE@ + time + PAGE_LEAD@ + cards + PAGE_END@;
    assert(text =~= DOCTYPE@ + first + rest);
    assert(is_around(text, DOCTYPE@, first, rest));
    let front = DOCTYPE@ + PAGE_START@ + time + PAGE_STYLE@;
    let last = time + PAGE_LEAD@;
    assert(text =~= front + last + (cards + PAGE_END@));
    assert(is_around(text, front, last, cards + PAGE_END@));
}

/// The page is loaded again after the time that was asked for, and never more
/// often than every five seconds.
pub proof fn pages_are_not_loaded_too_often(seconds: u64)
    ensures
        refresh_time(seconds) >= 5,
        seconds >= 5 ==> refresh_time(seconds) == seconds,
        seconds < 5 ==> refresh_time(seconds) == 5,
{
}

/// A path asks for a pause or a resumption exactly if a name stands behind the
/// prefix for it, for the dashboard exactly if it is the root, and for a sign of
/// life at one place; it asks for nothing that there is elsewhere.
pub proof fn paths_ask_for_one_thing(path: Seq<char>, name: Seq<char>, rest: Seq<char>)
    ensures
        path == "/pause/"@ + rest && url_decoded(rest) == name && name.len() > 0 ==> route_of(path)
            == (RouteView::Pause { name }),
        path == "/resume/"@ + rest && url_decoded(rest) == name && name.len() > 0 ==> route_of(path)
            == (RouteView::Resume { name }),
        route_of(path) is Dashboard <==> path == "/"@,
        route_of(path) is Health <==> path == "/healthz"@,
        route_of(path) matches RouteView::Pause { name } ==> "/pause/"@.is_prefix_of(path)
            && name == url_decoded(path.skip(7)) && name.len() > 0,
        route_of(path) matches RouteView::Resume { name } ==> "/resume/"@.is_prefix_of(path)
            && name == url_decoded(path.skip(8)) && name.len() > 0,
{
    reveal_strlit("/pause/");
    reveal_strlit("/resume/");
    reveal_strlit("/");
    reveal_strlit("/healthz");
    lemma_prefix_is_stripped("/pause/"@, rest);
    lemma_prefix_is_stripped("/resume/"@, rest);
    assert("/"@.len() == 1 && "/healthz"@.len() == 8 && "/pause/"@.len() == 7);
    assert("/resume/"@.len() == 8 && "/healthz"@[1] == 'h' && "/resume/"@[1] == 'r');
    assert("/pause/"@[1] == 'p');
    if "/pause/"@.is_prefix_of(path) {
        assert(path.subrange(0, 7)[1] == 'p');
        assert(path[1] == 'p');
    }
    if "/resume/"@.is_prefix_of(path) {
        assert(path.subrange(0, 8)[1] == 'r');
        assert(path[1] == 'r');
    }
    if path == "/resume/"@ + rest {
        assert(path[1] == 'r');
    }
}

/// An answer begins with its status, says how many bytes follow its head, and
/// ends with them: the dashboard where it was asked for, and a way back to it
/// where a repository was paused or resumed.
pub proof fn answers_say_how_long_they_are(route: RouteView, html: Seq<char>)
    ensures
        ({
            let body = match route {
                RouteView::Dashboard => html,
                RouteView::Health => "ok"@,
                RouteView::NotFound => "not found"@,
                _ => Seq::empty(),
            };
            let answer = response_of(route, html);
            &&& ("\r\nConnection: close\r\n\r\n"@ + body).is_suffix_of(answer)
            &&& holds(answer, "Content-Length: "@ + decimal(encode_utf8(body).len()))
            &&& route is Dashboard || route is Health ==> "HTTP/1.1 200 OK"@.is_prefix_of(answer)
            &&& route is Dashboard && DOCTYPE@.is_prefix_of(html) ==> holds(
                answer,
                "\r\nContent-Type: "@ + "text/html; charset=utf-8"@,
            )
            &&& route !is Dashboard ==> holds(
                answer,
                "\r\nContent-Type: "@ + "text/plain; charset=utf-8"@,
            )
            &&& route is NotFound ==> "HTTP/1.1 404 Not Found"@.is_prefix_of(answer)
            &&& route is Pause || route is Resume ==> "HTTP/1.1 303 See Other"@.is_prefix_of(
                answer,
            ) && holds(answer, "Location: /\r\n"@)
        }),
{
    let body = body_of(route, html);
    let answer = response_of(route, html);
    let status = status_line(route);
    let extra = extra_headers(route);
    let front = status + "\r\nContent-Type: "@ + content_type(body) + "\r\n"@;
    let length = "Content-Length: "@ + decimal(encode_utf8(body).len());
    let end = "\r\nConnection: close\r\n\r\n"@ + body;
    assert(answer =~= front + extra + length + end);
    assert(end =~= answer.subrange(answer.len() - end.len(), answer.len() as int));
    assert(is_around(answer, front + extra, length, end));
    assert(answer =~= front + extra + (length + end));
    assert(is_around(answer, front, extra, length + end));
    assert(status =~= answer.subrange(0, status.len() as int));
    let kind = "\r\nContent-Type: "@ + content_type(body);
    let more = "\r\n"@ + extra + length + end;
    assert(answer =~= status + kind + more);
    assert(is_around(answer, status, kind, more));
    reveal_strlit("<!DOCTYPE html>");
    reveal_strlit("ok");
    reveal_strlit("not found");
}

/// Whatever a request does, it does to the second word of its first line, and to
/// the root where there is none.
pub proof fn requests_are_for_the_second_word(
    verb: Seq<char>,
    path: Seq<char>,
    rest: Seq<char>,
)
    requires
        verb.len() > 0,
        no_white(verb),
        path.len() > 0,
        no_white(path),
    ensures
        requested_path(verb + seq![' '] + path + seq![' '] + rest) == path,
        requested_path(verb) == "/"@,
        requested_path(Seq::empty()) == "/"@,
{
    let head = verb + seq![' '] + path + seq![' '];
    assert forall|i: int| 0 <= i < head.len() implies head[i] != '\n' by {
        if i < verb.len() {
            assert(head[i] == verb[i]);
        } else if verb.len() < i < verb.len() + 1 + path.len() {
            assert(head[i] == path[i - verb.len() - 1]);
        }
    }
    lemma_first_line(head, rest);
    let end = first_line(head + rest).skip(head.len() as int);
    let behind = seq![' '] + end;
    let second = path + behind;
    let first = seq![' '] + second;
    assert(first_line(head + rest) =~= verb + first);
    lemma_next_word(verb, first);
    assert(first.drop_first() =~= second);
    assert(!white_space(second[0])) by {
        assert(second[0] == path[0]);
    }
    assert(trim_start(first) == trim_start(second));
    lemma_next_word(path, behind);
    let nothing = Seq::<char>::empty();
    assert forall|i: int| 0 <= i < verb.len() implies verb[i] != '\n' by {
        assert(!white_space(verb[i]));
    }
    lemma_found_later(verb, '\n', 0, verb.len() as int);
    assert(verb + nothing =~= verb);
    lemma_next_word(verb, nothing);
    assert(first_line(nothing) =~= nothing);
}


} // verus!
