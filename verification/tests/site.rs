use std::future::Future;
use std::sync::Arc;

use axum::body::Body;
use axum::extract::Path;
use axum::http::header::{AUTHORIZATION, CACHE_CONTROL, CONTENT_TYPE, LOCATION};
use axum::http::{HeaderMap, HeaderValue, Request, StatusCode};
use axum::middleware::Next;
use axum::response::{Html, Response};
use axum::routing::{any, get, post, MethodRouter};
use axum::{Extension, Router};
use clomonitor_router::auth::MissingCredential;
use clomonitor_router::cache::{DOCS_CACHE_MAX_AGE, STATIC_CACHE_MAX_AGE};
use clomonitor_router::router::{setup, Handlers, SetupError};
use clomonitor_router::templates::TemplateError;
use config::Config;
use tera::{Context, Tera};
use tower::ServiceExt;

const FOUNDATION: &str = "cncf";
const PROJECT: &str = "artifact-hub";
const DATE: &str = "2022-10-28";
const REPOSITORY: &str = "artifact-hub";
const INDEX: &str = "<title>{{ title }}</title><img src=\"{{ image }}\">";

fn run<F: Future>(future: F) -> F::Output {
    tokio::runtime::Builder::new_current_thread()
        .build()
        .unwrap()
        .block_on(future)
}

fn named(name: &'static str) -> MethodRouter {
    any(move || std::future::ready(name))
}

fn handlers() -> Handlers {
    Handlers {
        index: named("index"),
        index_project: named("index_project"),
        report_summary_png: named("report_summary_png"),
        repositories_checks: named("repositories_checks"),
        search_projects: named("search_projects"),
        project: named("project"),
        badge: named("badge"),
        report_summary_svg: named("report_summary_svg"),
        project_snapshot: named("project_snapshot"),
        repository_report_md: named("repository_report_md"),
        stats: named("stats"),
    }
}

fn config(settings: &[(&str, &str)]) -> Arc<Config> {
    let mut builder = Config::builder();
    for (key, value) in settings {
        builder = builder.set_default(*key, *value).unwrap();
    }
    Arc::new(builder.build().unwrap())
}

fn site_config(static_path: &str) -> Arc<Config> {
    config(&[
        ("apiserver.baseURL", "http://localhost:8000"),
        ("apiserver.staticPath", static_path),
        ("apiserver.basicAuth.enabled", "false"),
    ])
}

/// The database of these sites.
const DB: &str = "database";

/// Marks the responses that it sees.
async fn metrics(request: Request<Body>, next: Next<Body>) -> Response {
    let mut response = next.run(request).await;
    response
        .headers_mut()
        .insert("x-measured", HeaderValue::from_static("yes"));
    response
}

fn set_up(cfg: Arc<Config>, index_html: &str) -> Result<Router, SetupError> {
    setup(cfg, DB, index_html, &handlers(), metrics)
}

fn site(cfg: Arc<Config>, handlers: &Handlers) -> Router {
    match setup(cfg, DB, INDEX, handlers, metrics) {
        Ok(site) => site,
        Err(_) => panic!("the site was not set up"),
    }
}

fn send(site: Router, request: Request<Body>) -> (StatusCode, HeaderMap, String) {
    run(async move {
        let response = site.oneshot(request).await.unwrap();
        let status = response.status();
        let headers = response.headers().clone();
        let body = hyper::body::to_bytes(response.into_body()).await.unwrap();
        (status, headers, String::from_utf8(body.to_vec()).unwrap())
    })
}

fn request(method: &str, uri: &str) -> Request<Body> {
    Request::builder()
        .method(method)
        .uri(uri)
        .body(Body::empty())
        .unwrap()
}

/// What a site with plain handlers answers.
fn answer(method: &str, uri: &str) -> (StatusCode, HeaderMap, String) {
    send(
        site(site_config("/nonexistent"), &handlers()),
        request(method, uri),
    )
}

/// The name of the handler that a path reaches.
fn reached(uri: &str) -> String {
    let (status, _, body) = answer("GET", uri);
    assert_eq!(status, StatusCode::OK);
    body
}

/// A directory with a few files of a site in it.
fn files(name: &str) -> String {
    let dir = format!("/tmp/clomonitor_router_{name}");
    run(async {
        tokio::fs::create_dir_all(format!("{dir}/docs")).await.unwrap();
        tokio::fs::write(format!("{dir}/lib.js"), "lib()").await.unwrap();
        tokio::fs::write(format!("{dir}/docs/topics.html"), "<h1>Topics</h1>").await.unwrap();
    });
    dir
}

#[test]
fn every_path_of_the_api_reaches_its_handler() {
    assert_eq!(reached("/api/projects/search?limit=10"), "search_projects");
    assert_eq!(reached(&format!("/api/projects/{FOUNDATION}/{PROJECT}")), "project");
    assert_eq!(reached(&format!("/api/projects/{FOUNDATION}/{PROJECT}/badge")), "badge");
    assert_eq!(
        reached(&format!("/api/projects/{FOUNDATION}/{PROJECT}/report-summary")),
        "report_summary_svg"
    );
    assert_eq!(
        reached(&format!("/api/projects/{FOUNDATION}/{PROJECT}/snapshots/{DATE}")),
        "project_snapshot"
    );
    assert_eq!(
        reached(&format!("/api/projects/{FOUNDATION}/{PROJECT}/{REPOSITORY}/report.md")),
        "repository_report_md"
    );
    assert_eq!(reached("/api/stats?foundation=cncf"), "stats");
}

#[test]
fn every_path_of_the_pages_reaches_its_handler() {
    assert_eq!(reached("/"), "index");
    assert_eq!(reached(&format!("/projects/{FOUNDATION}/{PROJECT}")), "index_project");
    assert_eq!(
        reached(&format!("/projects/{FOUNDATION}/{PROJECT}/report-summary.png")),
        "report_summary_png"
    );
    assert_eq!(reached("/data/repositories.csv"), "repositories_checks");
}

#[test]
fn the_api_is_found_under_its_prefix_only() {
    assert_eq!(reached("/stats"), "index");
    assert_eq!(reached("/projects/search"), "index");
    assert_eq!(reached(&format!("/projects/{FOUNDATION}/{PROJECT}/badge")), "index");
    assert_eq!(reached("/api/data/repositories.csv"), "index");
}

#[test]
fn a_path_that_nothing_else_answers_gets_the_index() {
    assert_eq!(reached("/not-found"), "index");
    assert_eq!(reached("/api"), "index");
    assert_eq!(reached("/api/not-found"), "index");
    assert_eq!(reached(&format!("/projects/{FOUNDATION}")), "index");
    assert_eq!(reached("/docsify"), "index");
}

#[test]
fn a_slash_at_the_end_is_redirected() {
    let (status, headers, _) = answer("GET", "/api/stats/?foundation=cncf");
    assert_eq!(status, StatusCode::PERMANENT_REDIRECT);
    assert_eq!(headers[LOCATION], "/api/stats?foundation=cncf");
    let (status, headers, _) = answer("GET", "/projects/x/");
    assert_eq!(status, StatusCode::PERMANENT_REDIRECT);
    assert_eq!(headers[LOCATION], "/projects/x");
}

#[test]
fn where_two_routes_take_a_path_the_literal_goes_first() {
    assert_eq!(reached("/api/projects/a/b/snapshots/report.md"), "project_snapshot");
    assert_eq!(reached("/api/projects/a/b/snapshot/report.md"), "repository_report_md");
    assert_eq!(reached("/api/projects/a/b/badge/report.md"), "repository_report_md");
    assert_eq!(reached("/api/projects/a/b/report-summary/report.md"), "repository_report_md");
    assert_eq!(reached("/api/projects/search"), "search_projects");
    assert_eq!(reached("/api/projects/search/x"), "project");
    assert_eq!(reached("/api/projects/search/x/badge"), "badge");
}

#[test]
fn a_capture_takes_one_segment() {
    assert_eq!(reached("/api/projects/a"), "index");
    assert_eq!(reached("/api/projects/a/b/c"), "index");
    assert_eq!(reached("/api/projects//b/badge"), "badge");
    assert_eq!(reached("/api/projects/a//badge"), "badge");
    assert_eq!(reached("/api/projects/a/b//report.md"), "repository_report_md");
}

#[test]
fn only_get_and_head_are_answered() {
    for uri in ["/", "/api/stats", "/data/repositories.csv", "/not-found", "/docs/a", "/static/a"] {
        for method in ["POST", "PUT", "DELETE", "PATCH", "OPTIONS"] {
            let (status, _, _) = answer(method, uri);
            assert_eq!(status, StatusCode::METHOD_NOT_ALLOWED);
        }
        let (status, _, _) = answer("HEAD", uri);
        let found = !uri.starts_with("/docs") && !uri.starts_with("/static");
        assert_eq!(status, if found { StatusCode::OK } else { StatusCode::NOT_FOUND });
    }
}

#[test]
fn a_handler_that_does_not_answer_get_is_not_reached() {
    let mut h = handlers();
    h.stats = post(|| std::future::ready("stats"));
    let site = site(site_config("/nonexistent"), &h);
    for method in ["GET", "HEAD", "POST"] {
        let (status, _, _) = send(site.clone(), request(method, "/api/stats"));
        assert_eq!(status, StatusCode::METHOD_NOT_ALLOWED);
    }
}

#[test]
fn captures_reach_the_handler() {
    let mut h = handlers();
    h.repository_report_md = get(
        |Path((foundation, project, repository)): Path<(String, String, String)>| {
            std::future::ready(format!("{foundation} {project} {repository}"))
        },
    );
    let (_, _, body) = send(
        site(site_config("/nonexistent"), &h),
        request("GET", "/api/projects/a/b/c/report.md"),
    );
    assert_eq!(body, "a b c");
}

#[test]
fn docs_files() {
    let dir = files("docs_files");
    let (status, headers, body) = send(
        site(site_config(&dir), &handlers()),
        request("GET", "/docs/topics.html"),
    );
    assert_eq!(status, StatusCode::OK);
    assert_eq!(headers[CACHE_CONTROL], format!("max-age={}", DOCS_CACHE_MAX_AGE));
    assert_eq!(headers[CACHE_CONTROL], "max-age=300");
    assert_eq!(body, "<h1>Topics</h1>");
}

#[test]
fn static_files() {
    let dir = files("static_files");
    let (status, headers, body) = send(
        site(site_config(&dir), &handlers()),
        request("GET", "/static/lib.js"),
    );
    assert_eq!(status, StatusCode::OK);
    assert_eq!(headers[CACHE_CONTROL], format!("max-age={}", STATIC_CACHE_MAX_AGE));
    assert_eq!(headers[CACHE_CONTROL], "max-age=31536000");
    assert_eq!(body, "lib()");
}

#[test]
fn the_documentation_lies_within_the_static_files() {
    let dir = files("documentation");
    let site = site(site_config(&format!("{dir}/")), &handlers());
    let (_, headers, body) = send(site.clone(), request("GET", "/static/docs/topics.html"));
    assert_eq!(headers[CACHE_CONTROL], "max-age=31536000");
    assert_eq!(body, "<h1>Topics</h1>");
    let (status, headers, _) = send(site, request("GET", "/docs/lib.js"));
    assert_eq!(status, StatusCode::NOT_FOUND);
    assert_eq!(headers[CACHE_CONTROL], "max-age=300");
}

#[test]
fn a_file_that_cannot_be_read_is_an_internal_error() {
    let dir = files("unreadable");
    let (status, headers, body) = send(
        site(site_config(&dir), &handlers()),
        request("GET", "/static/lib.js/part"),
    );
    assert_eq!(status, StatusCode::INTERNAL_SERVER_ERROR);
    assert!(!headers.contains_key(CACHE_CONTROL));
    assert!(body.starts_with("internal error: "));
    assert!(body.len() > "internal error: ".len());
}

/// A handler that fills the index page in.
fn rendered(title: &'static str, image: &'static str) -> MethodRouter {
    get(
        move |Extension(cfg): Extension<Arc<Config>>, Extension(tmpl): Extension<Arc<Tera>>| {
            let mut ctx = Context::new();
            ctx.insert("title", title);
            ctx.insert(
                "image",
                &format!("{}{}", cfg.get_string("apiserver.baseURL").unwrap(), image),
            );
            let page = Html(tmpl.render("index.html", &ctx).unwrap());
            std::future::ready(([(CACHE_CONTROL, "max-age=60")], page))
        },
    )
}

fn render_index(title: &str, image: &str) -> String {
    let mut ctx = Context::new();
    ctx.insert("title", title);
    ctx.insert("image", image);
    Tera::one_off(INDEX, &ctx, false).unwrap()
}

fn rendered_handlers() -> Handlers {
    let mut h = handlers();
    h.index = rendered("CLOMonitor", "/static/media/clomonitor.png");
    h.index_project = rendered(PROJECT, "/projects/cncf/artifact-hub/report-summary.png");
    h
}

#[test]
fn index() {
    let (status, headers, body) = send(
        site(site_config("/nonexistent"), &rendered_handlers()),
        request("GET", "/"),
    );
    assert_eq!(status, StatusCode::OK);
    assert_eq!(headers[CACHE_CONTROL], "max-age=60");
    assert_eq!(headers[CONTENT_TYPE], "text/html; charset=utf-8");
    assert_eq!(
        body,
        render_index("CLOMonitor", "http://localhost:8000/static/media/clomonitor.png")
    );
}

#[test]
fn index_fallback() {
    let (status, headers, body) = send(
        site(site_config("/nonexistent"), &rendered_handlers()),
        request("GET", "/not-found"),
    );
    assert_eq!(status, StatusCode::OK);
    assert_eq!(headers[CACHE_CONTROL], "max-age=60");
    assert_eq!(headers[CONTENT_TYPE], "text/html; charset=utf-8");
    assert_eq!(
        body,
        render_index("CLOMonitor", "http://localhost:8000/static/media/clomonitor.png")
    );
}

#[test]
fn index_project() {
    let (status, headers, body) = send(
        site(site_config("/nonexistent"), &rendered_handlers()),
        request("GET", &format!("/projects/{FOUNDATION}/{PROJECT}")),
    );
    assert_eq!(status, StatusCode::OK);
    assert_eq!(headers[CACHE_CONTROL], "max-age=60");
    assert_eq!(headers[CONTENT_TYPE], "text/html; charset=utf-8");
    assert_eq!(
        body,
        render_index(
            PROJECT,
            "http://localhost:8000/projects/cncf/artifact-hub/report-summary.png"
        )
    );
}

#[test]
fn values_are_not_escaped() {
    let mut h = handlers();
    h.index = rendered("<b> & \"c\"", "/");
    let (_, _, body) = send(site(site_config("/nonexistent"), &h), request("GET", "/"));
    assert_eq!(body, "<title><b> & \"c\"</title><img src=\"http://localhost:8000/\">");
}

fn protected_config(username: Option<&str>, password: Option<&str>) -> Arc<Config> {
    let mut settings = vec![
        ("apiserver.staticPath", "/nonexistent"),
        ("apiserver.basicAuth.enabled", "true"),
    ];
    if let Some(username) = username {
        settings.push(("apiserver.basicAuth.username", username));
    }
    if let Some(password) = password {
        settings.push(("apiserver.basicAuth.password", password));
    }
    config(&settings)
}

fn with_credentials(method: &str, uri: &str, credentials: &str) -> Request<Body> {
    Request::builder()
        .method(method)
        .uri(uri)
        .header(AUTHORIZATION, credentials)
        .body(Body::empty())
        .unwrap()
}

#[test]
fn credentials_are_asked_for_everywhere() {
    let site = site(protected_config(Some("user"), Some("pass")), &handlers());
    for uri in ["/", "/api/stats", "/not-found", "/docs/a", "/static/a"] {
        for method in ["GET", "HEAD", "POST"] {
            let (status, _, body) = send(site.clone(), request(method, uri));
            assert_eq!(status, StatusCode::UNAUTHORIZED);
            assert_eq!(body, "");
            let (status, _, _) = send(
                site.clone(),
                with_credentials(method, uri, "Basic dXNlcjpvdGhlcg=="),
            );
            assert_eq!(status, StatusCode::UNAUTHORIZED);
        }
    }
    let (status, _, body) = send(
        site,
        with_credentials("GET", "/api/stats", "Basic dXNlcjpwYXNz"),
    );
    assert_eq!(status, StatusCode::OK);
    assert_eq!(body, "stats");
}

#[test]
fn credentials_come_before_metrics() {
    let site = site(protected_config(Some("user"), Some("pass")), &handlers());
    let (status, headers, _) = send(site.clone(), request("GET", "/"));
    assert_eq!(status, StatusCode::UNAUTHORIZED);
    assert!(!headers.contains_key("x-measured"));
    let (status, headers, _) = send(site, with_credentials("GET", "/", "Basic dXNlcjpwYXNz"));
    assert_eq!(status, StatusCode::OK);
    assert_eq!(headers["x-measured"], "yes");
}

#[test]
fn metrics_see_every_request() {
    for uri in ["/", "/api/stats", "/not-found", "/docs/a", "/static/a"] {
        for method in ["GET", "HEAD", "POST"] {
            let (_, headers, _) = answer(method, uri);
            assert_eq!(headers["x-measured"], "yes");
        }
    }
}

#[test]
fn handlers_get_at_the_database() {
    let mut h = handlers();
    h.stats = get(|Extension(db): Extension<&'static str>| std::future::ready(db));
    let (status, _, body) = send(
        site(site_config("/nonexistent"), &h),
        request("GET", "/api/stats"),
    );
    assert_eq!(status, StatusCode::OK);
    assert_eq!(body, "database");
}

#[test]
fn the_site_is_open_by_default() {
    let missing = config(&[("apiserver.staticPath", "/nonexistent")]);
    let no_boolean = config(&[
        ("apiserver.staticPath", "/nonexistent"),
        ("apiserver.basicAuth.enabled", "perhaps"),
    ]);
    for cfg in [missing, no_boolean, site_config("/nonexistent")] {
        let (status, _, body) = send(site(cfg, &handlers()), request("GET", "/"));
        assert_eq!(status, StatusCode::OK);
        assert_eq!(body, "index");
    }
}

#[test]
fn a_missing_username_is_an_error() {
    for password in [None, Some("pass")] {
        let r = set_up(protected_config(None, password), INDEX);
        assert!(matches!(r, Err(SetupError::Auth(MissingCredential::Username(_)))));
    }
}

#[test]
fn a_missing_password_is_an_error() {
    let r = set_up(protected_config(Some("user"), None), INDEX);
    assert!(matches!(r, Err(SetupError::Auth(MissingCredential::Password(_)))));
}

#[test]
fn a_missing_static_path_is_an_error() {
    let cfg = config(&[("apiserver.basicAuth.enabled", "true")]);
    let r = set_up(cfg, "{{ broken");
    assert!(matches!(r, Err(SetupError::StaticPath(_))));
}

#[test]
fn a_template_that_cannot_be_used_is_an_error() {
    for source in ["{{ broken", "{% extends \"base.html\" %}"] {
        let r = set_up(protected_config(None, None), source);
        assert!(matches!(r, Err(SetupError::Template(TemplateError::Rejected(_)))));
    }
}

#[test]
fn a_template_that_hands_a_list_to_a_test_is_an_error() {
    let r = set_up(protected_config(None, None), "{{ a is in([1]) }}");
    assert!(matches!(r, Err(SetupError::Template(TemplateError::ListInTest))));
}
