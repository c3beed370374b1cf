use repo_auto_puller::config::{AppConfig, DefaultsConfig, RepositoryConfig, CURRENT_CONFIG_VERSION};
use repo_auto_puller::dashboard::{
    action_link, listening_message, render_dashboard_at, render_dashboard_html,
    repo_name_from_path, request_path, respond, route_path, route_request, Route,
};
use repo_auto_puller::settings::{
    default_enabled, default_interval_seconds, selected_repositories, SelectedRepo,
};
use repo_auto_puller::state::{PersistedRepoState, PersistedState};
use repo_auto_puller::url::{url_decode_component, url_encode_component};

/// Reads the repositories that the texts below hold.
fn read(raw: &str) -> AppConfig {
    let table: toml::Table = raw.parse().expect("config should parse");
    let mut repositories = Vec::new();
    for entry in table["repositories"].as_array().expect("a list") {
        let field = |key: &str| entry[key].as_str().expect("a text").to_string();
        repositories.push(RepositoryConfig {
            name: field("name"),
            path: field("path"),
            interval_seconds: default_interval_seconds(),
            enabled: default_enabled(),
            paused: false,
            dry_run: false,
            allowed_branches: Vec::new(),
            quiet_hours: None,
            desktop_notifications: None,
            before_pull_command: None,
            after_pull_command: None,
            on_failure_command: None,
        });
    }
    AppConfig {
        config_version: CURRENT_CONFIG_VERSION,
        defaults: DefaultsConfig::default(),
        repositories,
    }
}

fn one_repository() -> Vec<SelectedRepo> {
    let config = read(
        r#"
[[repositories]]
name = "openclawcode"
path = "/tmp/openclawcode"
"#,
    );
    selected_repositories(&config, &[]).expect("repo should be selected")
}

#[test]
fn renders_dashboard_html_with_recent_state() {
    let config = read(
        r#"
[[repositories]]
name = "openclawcode"
path = "/tmp/openclawcode"
"#,
    );
    let selected = selected_repositories(&config, &[]).expect("repo should be selected");
    let mut state = PersistedState::default();
    state.repositories.insert(
        "openclawcode".into(),
        PersistedRepoState {
            name: "openclawcode".into(),
            path: "/tmp/openclawcode".into(),
            updated_at: "2026-04-13T17:00:00+00:00".into(),
            level: "ERROR".into(),
            branch: Some("main".into()),
            upstream: Some("origin/main".into()),
            ahead: Some(0),
            behind: Some(2),
            dirty: Some(false),
            decision: Some("pull-fast-forward".into()),
            message: Some("main is behind origin/main by 2 commit(s)".into()),
            error: Some("fetch failed".into()),
        },
    );

    let html = render_dashboard_html(&selected, &state, 15, None);

    assert!(html.contains("Repo Auto Puller"));
    assert!(html.contains("openclawcode"));
    assert!(html.contains("fetch failed"));
    assert!(html.contains("2026-04-13T17:00:00+00:00"));
    assert!(html.contains("/pause/openclawcode"));
    assert!(html.contains("<section class=\"card error\">"));
    assert!(html.contains("<div><dt>Behind</dt><dd>2</dd></div>"));
    assert!(html.contains("<div><dt>Dirty</dt><dd>false</dd></div>"));
}

#[test]
fn renders_a_card_without_state() {
    let mut selected = one_repository();
    selected[0].config.name = "<x> & \"y\"".into();
    selected[0].config.paused = true;
    let html = render_dashboard_html(&selected, &PersistedState::default(), 0, None);
    let card = "<section class=\"card unknown\">\n<h2>&lt;x&gt; &amp; &quot;y&quot;</h2>\n<p class=\"summary\">No sync recorded yet</p>\n<dl>\n<div><dt>Path</dt><dd>/tmp/openclawcode</dd></div>\n<div><dt>Last Sync</dt><dd>Never</dd></div>\n<div><dt>Branch</dt><dd>-</dd></div>\n<div><dt>Upstream</dt><dd>-</dd></div>\n<div><dt>Ahead</dt><dd>-</dd></div>\n<div><dt>Behind</dt><dd>-</dd></div>\n<div><dt>Dirty</dt><dd>-</dd></div>\n</dl>\n<a class=\"action\" href=\"/resume/%3Cx%3E%20%26%20%22y%22\">Resume Auto Pull</a>\n</section>\n";
    assert!(html.contains(&format!("<div class=\"grid\">\n{}</div>\n</main>\n</body>\n</html>\n", card)));
    assert!(html.starts_with("<!DOCTYPE html>\n<html lang=\"en\">\n<head>\n"));
    assert!(html.contains("<meta http-equiv=\"refresh\" content=\"5\">"));
    assert!(html.contains("Refreshes every 5 seconds.</p>"));
    assert!(html.contains(".card.warn { border-left-color: var(--warn); }\n"));
    assert!(html.contains(":root {\n  color-scheme: light;\n"));
}

#[test]
fn shows_where_repositories_are() {
    let mut selected = one_repository();
    selected[0].config.path = "~/src".into();
    let state = PersistedState::default();
    let html = render_dashboard_html(&selected, &state, 60, Some("/home/u"));
    assert!(html.contains("<dd>/home/u/src</dd>"));
    assert_eq!(html, render_dashboard_at(&selected, &["/home/u/src".to_string()], &state, 60));
    assert!(html.contains("content=\"60\""));
}

#[test]
fn encodes_what_it_decodes() {
    assert_eq!(url_encode_component("a-Z_0.~ /%"), "a-Z_0.~%20%2F%25");
    assert_eq!(url_encode_component("\u{e9}"), "%C3%A9");
    for text in ["", "plain", "a b/c?d=%41&e", "\u{4e2d}\u{6587} \u{1f600}"] {
        assert_eq!(url_decode_component(&url_encode_component(text)), text);
    }
}

#[test]
fn decodes_leniently() {
    assert_eq!(url_decode_component("%c3%A9"), "\u{e9}");
    assert_eq!(url_decode_component("100%"), "100%");
    assert_eq!(url_decode_component("%4"), "%4");
    assert_eq!(url_decode_component("%zz%+5"), "%zz\u{5}");
    assert_eq!(url_decode_component("%-5"), "%-5");
    assert_eq!(url_decode_component("a+b"), "a+b");
    assert_eq!(url_decode_component("%FF!"), "\u{fffd}!");
}

#[test]
fn reads_names_in_paths() {
    assert_eq!(repo_name_from_path("/pause/a%20b", "/pause/").as_deref(), Some("a b"));
    assert!(repo_name_from_path("/pause/", "/pause/").is_none());
    assert!(repo_name_from_path("/resume/a", "/pause/").is_none());
}

#[test]
fn reads_the_path_of_a_request() {
    assert_eq!(request_path("GET /healthz HTTP/1.1\r\nHost: x\r\n\r\n"), "/healthz");
    assert_eq!(request_path("GET"), "/");
    assert_eq!(request_path(""), "/");
    assert_eq!(request_path("GET\n/pause/x HTTP/1.1"), "/");
    assert_eq!(request_path("GET \t /x\r\n"), "/x");
}

#[test]
fn routes_requests() {
    assert!(matches!(route_path("/"), Route::Dashboard));
    assert!(matches!(route_path("/healthz"), Route::Health));
    assert!(matches!(route_path("/pause/"), Route::NotFound));
    assert!(matches!(route_path("/other"), Route::NotFound));
    assert!(matches!(
        route_request(b"GET /resume/a%2Fb HTTP/1.1\r\n\r\n"),
        Route::Resume { name } if name == "a/b"
    ));
    assert!(matches!(route_request(&[]), Route::Dashboard));
    assert!(matches!(route_request(&[0xff, b' ', 0xfe]), Route::NotFound));
}

#[test]
fn links_lead_to_their_repository() {
    for name in ["tool", "a b/c", "\u{e9}%", "/"] {
        let request = format!("GET {} HTTP/1.1\r\nHost: x\r\n\r\n", action_link(name, false));
        match route_request(request.as_bytes()) {
            Route::Pause { name: asked } => assert_eq!(asked, name),
            _ => panic!("the link pauses"),
        }
        let request = format!("GET {} HTTP/1.1\r\n\r\n", action_link(name, true));
        match route_request(request.as_bytes()) {
            Route::Resume { name: asked } => assert_eq!(asked, name),
            _ => panic!("the link resumes"),
        }
    }
}

#[test]
fn answers_requests() {
    assert_eq!(
        respond(&Route::Health, "unused"),
        "HTTP/1.1 200 OK\r\nContent-Type: text/plain; charset=utf-8\r\nContent-Length: 2\r\nConnection: close\r\n\r\nok"
    );
    assert_eq!(
        respond(&Route::NotFound, ""),
        "HTTP/1.1 404 Not Found\r\nContent-Type: text/plain; charset=utf-8\r\nContent-Length: 9\r\nConnection: close\r\n\r\nnot found"
    );
    assert_eq!(
        respond(&Route::Pause { name: "tool".into() }, ""),
        "HTTP/1.1 303 See Other\r\nContent-Type: text/plain; charset=utf-8\r\nLocation: /\r\nContent-Length: 0\r\nConnection: close\r\n\r\n"
    );
    assert_eq!(
        respond(&Route::Dashboard, "<!DOCTYPE html>\u{e9}"),
        "HTTP/1.1 200 OK\r\nContent-Type: text/html; charset=utf-8\r\nContent-Length: 17\r\nConnection: close\r\n\r\n<!DOCTYPE html>\u{e9}"
    );
    assert_eq!(
        listening_message("127.0.0.1:8787"),
        "Dashboard listening on http://127.0.0.1:8787"
    );
}
