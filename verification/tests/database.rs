//! What handlers ask of the database, when a request reaches them.
use std::future::{ready, Future};
use std::sync::{Arc, Mutex};

use axum::body::Body;
use axum::extract::{Path, RawQuery};
use axum::http::{Request, StatusCode};
use axum::middleware::Next;
use axum::response::{IntoResponse, Response};
use axum::routing::{get, MethodRouter};
use axum::Extension;
use clomonitor_router::router::{setup, Handlers};
use config::Config;
use tower::ServiceExt;

const FOUNDATION: &str = "cncf";
const PROJECT: &str = "artifact-hub";
const DATE: &str = "2022-10-28";
const REPOSITORY: &str = "artifact-hub";

/// A database that knows one answer, and keeps what it is asked.
struct Db {
    answer: Option<&'static str>,
    asked: Mutex<Vec<String>>,
}

impl Db {
    fn ask(&self, question: String) -> Response {
        self.asked.lock().unwrap().push(question);
        match self.answer {
            Some(answer) => answer.into_response(),
            None => StatusCode::NOT_FOUND.into_response(),
        }
    }
}

/// Asks the database for something, with the query.
fn asking(what: &'static str) -> MethodRouter {
    get(
        move |Extension(db): Extension<Arc<Db>>, RawQuery(query): RawQuery| {
            ready(db.ask(format!("{what} {}", query.unwrap_or_default())))
        },
    )
}

/// Asks the database for something, with the captures of the path.
fn asking_of(what: &'static str) -> MethodRouter {
    get(
        move |Extension(db): Extension<Arc<Db>>, Path(captures): Path<Vec<(String, String)>>| {
            let mut question = what.to_string();
            for (name, value) in captures {
                question.push_str(&format!(" {name}={value}"));
            }
            ready(db.ask(question))
        },
    )
}

fn run<F: Future>(future: F) -> F::Output {
    tokio::runtime::Builder::new_current_thread()
        .build()
        .unwrap()
        .block_on(future)
}

async fn metrics(request: Request<Body>, next: Next<Body>) -> Response {
    next.run(request).await
}

/// The status and the body of the response, and what the database was asked.
fn answer(known: Option<&'static str>, uri: &str) -> (StatusCode, String, Vec<String>) {
    let handlers = Handlers {
        index: asking("index"),
        index_project: asking_of("index_project"),
        report_summary_png: asking_of("project_score"),
        repositories_checks: asking("repositories_with_checks"),
        search_projects: asking("search_projects"),
        project: asking_of("project_data"),
        badge: asking_of("project_rating"),
        report_summary_svg: asking_of("project_score"),
        project_snapshot: asking_of("project_snapshot"),
        repository_report_md: asking_of("repository_report_md"),
        stats: asking("stats"),
    };
    let cfg = Config::builder()
        .set_default("apiserver.baseURL", "http://localhost:8000")
        .unwrap()
        .set_default("apiserver.staticPath", "src/testdata")
        .unwrap()
        .set_default("apiserver.basicAuth.enabled", false)
        .unwrap()
        .build()
        .unwrap();
    let db = Arc::new(Db {
        answer: known,
        asked: Mutex::new(vec![]),
    });
    let site = match setup(Arc::new(cfg), db.clone(), "index", &handlers, metrics) {
        Ok(site) => site,
        Err(_) => panic!("the site was not set up"),
    };
    let request = Request::builder()
        .method("GET")
        .uri(uri)
        .body(Body::empty())
        .unwrap();
    let (status, body) = run(async move {
        let response = site.oneshot(request).await.unwrap();
        let status = response.status();
        let body = hyper::body::to_bytes(response.into_body()).await.unwrap();
        (status, String::from_utf8(body.to_vec()).unwrap())
    });
    let asked = db.asked.lock().unwrap().clone();
    (status, body, asked)
}

fn assert_not_found(uri: &str, question: &str) {
    let (status, _, asked) = answer(None, uri);
    assert_eq!(status, StatusCode::NOT_FOUND);
    assert_eq!(asked, vec![question.to_string()]);
}

fn assert_found(uri: &str, known: &'static str, question: &str) {
    let (status, body, asked) = answer(Some(known), uri);
    assert_eq!(status, StatusCode::OK);
    assert_eq!(body, known);
    assert_eq!(asked, vec![question.to_string()]);
}

#[test]
fn badge_not_found() {
    assert_not_found(
        &format!("/api/projects/{FOUNDATION}/{PROJECT}/badge"),
        "project_rating foundation=cncf project=artifact-hub",
    );
}

#[test]
fn project_found() {
    assert_found(
        &format!("/api/projects/{FOUNDATION}/{PROJECT}"),
        r#"{"project": "info"}"#,
        "project_data foundation=cncf project=artifact-hub",
    );
}

#[test]
fn project_not_found() {
    assert_not_found(
        &format!("/api/projects/{FOUNDATION}/{PROJECT}"),
        "project_data foundation=cncf project=artifact-hub",
    );
}

#[test]
fn project_snapshot_found() {
    assert_found(
        &format!("/api/projects/{FOUNDATION}/{PROJECT}/snapshots/{DATE}"),
        r#"{"snapshot": "data"}"#,
        "project_snapshot foundation=cncf project=artifact-hub date=2022-10-28",
    );
}

#[test]
fn project_snapshot_not_found() {
    assert_not_found(
        &format!("/api/projects/{FOUNDATION}/{PROJECT}/snapshots/{DATE}"),
        "project_snapshot foundation=cncf project=artifact-hub date=2022-10-28",
    );
}

#[test]
fn report_summary_png_not_found() {
    assert_not_found(
        &format!("/projects/{FOUNDATION}/{PROJECT}/report-summary.png"),
        "project_score foundation=cncf project=artifact-hub",
    );
}

#[test]
fn report_summary_svg_not_found() {
    assert_not_found(
        &format!("/api/projects/{FOUNDATION}/{PROJECT}/report-summary"),
        "project_score foundation=cncf project=artifact-hub",
    );
}

#[test]
fn repositories_checks() {
    assert_found(
        "/data/repositories.csv",
        "CSV data",
        "repositories_with_checks ",
    );
}

#[test]
fn repository_report_md_not_found() {
    assert_not_found(
        &format!("/api/projects/{FOUNDATION}/{PROJECT}/{REPOSITORY}/report.md"),
        "repository_report_md foundation=cncf project=artifact-hub repository=artifact-hub",
    );
}

#[test]
fn search_projects() {
    let query = "limit=10&offset=1&sort_by=name&sort_direction=asc&text=hub&\
        foundation[0]=cncf&maturity[0]=graduated&maturity[1]=incubating&\
        rating[0]=a&rating[1]=b&accepted_from=20200101&accepted_to=20210101&\
        passing_check[0]=dco&passing_check[1]=readme&not_passing_check[0]=website";
    assert_found(
        &format!("/api/projects/search?{query}"),
        r#"[{"project": "info"}]"#,
        &format!("search_projects {query}"),
    );
}

#[test]
fn stats() {
    assert_found(
        &format!("/api/stats?foundation={FOUNDATION}"),
        r#"{"some": "stats"}"#,
        "stats foundation=cncf",
    );
}

#[test]
fn whatever_is_captured_reaches_the_handler() {
    for (foundation, project) in [("a", "b"), ("search", "stats"), (":x", "*"), ("", "badge")] {
        assert_not_found(
            &format!("/api/projects/{foundation}/{project}"),
            &format!("project_data foundation={foundation} project={project}"),
        );
    }
}
