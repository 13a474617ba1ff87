//! What callers can count on.
//!
//! The laws here speak of calls: of what a function of this library was given,
//! and of what it gave back.
use std::future::Future;
use std::sync::Arc;

use axum::body::Body;
use axum::http::header::InvalidHeaderValue;
use axum::http::{HeaderValue, Request, StatusCode};
use axum::middleware::Next;
use axum::response::Response;
use axum::Router;
use config::{Config, ConfigError};
use tera::Tera;
use vstd::prelude::*;

use crate::auth::{Credentials, MissingCredential};
use crate::paths::SitePaths;
use crate::router::{Handlers, SetupError};
use crate::site::{Answer, Content, Files, Layer, Slot};
use crate::templates::TemplateError;

verus! {

/// The settings that are shared.
spec fn held(cfg: Arc<Config>) -> Config {
    *cfg
}

/// The texts of the two cache durations.
proof fn lemma_durations()
    ensures
        crate::cache::max_age_text(31_536_000) == "max-age=31536000"@,
        crate::cache::max_age_text(300) == "max-age=300"@,
{
    reveal_strlit("max-age=");
    reveal_strlit("max-age=300");
    reveal_strlit("max-age=31536000");
    reveal_with_fuel(crate::cache::decimal, 9);
    assert(crate::cache::decimal(300) =~= seq!['3', '0', '0']);
    assert(crate::cache::decimal(31_536_000) =~= seq!['3', '1', '5', '3', '6', '0', '0', '0']);
    assert(crate::cache::max_age_text(300) =~= "max-age=300"@);
    assert(crate::cache::max_age_text(31_536_000) =~= "max-age=31536000"@);
}

/// The directory of the documentation.
proof fn lemma_docs_dir(dir: Seq<char>)
    ensures
        crate::paths::joined(dir, "docs"@) == (if dir.len() == 0 || dir.last() == '/' {
            dir + "docs"@
        } else {
            dir + "/docs"@
        }),
{
    reveal_strlit("docs");
    reveal_strlit("/docs");
    assert(dir + "/docs"@ =~= dir.push('/') + "docs"@);
}

/// Where each handler of the API stands in the table.
proof fn lemma_api_table(h: Handlers, static_dir: Seq<char>, docs_dir: Seq<char>, c: Content)
    requires
        c == crate::router::site_content(h, static_dir, docs_dir),
    ensures
        c.contains_key(Slot::Route("/api/projects/search"@)),
        c[Slot::Route("/api/projects/search"@)] == crate::web::answers_of(
            h.search_projects,
        ).restrict(set!["GET"@, "HEAD"@]),
        c.contains_key(Slot::Route("/api/projects/:foundation/:project"@)),
        c[Slot::Route("/api/projects/:foundation/:project"@)] == crate::web::answers_of(
            h.project,
        ).restrict(set!["GET"@, "HEAD"@]),
        c.contains_key(Slot::Route("/api/projects/:foundation/:project/badge"@)),
        c[Slot::Route("/api/projects/:foundation/:project/badge"@)] == crate::web::answers_of(
            h.badge,
        ).restrict(set!["GET"@, "HEAD"@]),
        c.contains_key(Slot::Route("/api/projects/:foundation/:project/report-summary"@)),
        c[Slot::Route(
            "/api/projects/:foundation/:project/report-summary"@,
        )] == crate::web::answers_of(
            h.report_summary_svg,
        ).restrict(set!["GET"@, "HEAD"@]),
        c.contains_key(Slot::Route("/api/projects/:foundation/:project/snapshots/:date"@)),
        c[Slot::Route(
            "/api/projects/:foundation/:project/snapshots/:date"@,
        )] == crate::web::answers_of(
            h.project_snapshot,
        ).restrict(set!["GET"@, "HEAD"@]),
        c.contains_key(Slot::Route("/api/projects/:foundation/:project/:repository/report.md"@)),
        c[Slot::Route(
            "/api/projects/:foundation/:project/:repository/report.md"@,
        )] == crate::web::answers_of(
            h.repository_report_md,
        ).restrict(set!["GET"@, "HEAD"@]),
        c.contains_key(Slot::Route("/api/stats"@)),
        c[Slot::Route("/api/stats"@)] == crate::web::answers_of(
            h.stats,
        ).restrict(set!["GET"@, "HEAD"@]),
{
    crate::table::lemma_api_paths();
    crate::laws::lemma_each_api_handler_has_its_path(h);
    crate::laws::lemma_api_under_its_prefix(h, static_dir, docs_dir, "/projects/search"@);
    crate::laws::lemma_api_under_its_prefix(
        h,
        static_dir,
        docs_dir,
        "/projects/:foundation/:project"@,
    );
    crate::laws::lemma_api_under_its_prefix(
        h,
        static_dir,
        docs_dir,
        "/projects/:foundation/:project/badge"@,
    );
    crate::laws::lemma_api_under_its_prefix(
        h,
        static_dir,
        docs_dir,
        "/projects/:foundation/:project/report-summary"@,
    );
    crate::laws::lemma_api_under_its_prefix(
        h,
        static_dir,
        docs_dir,
        "/projects/:foundation/:project/snapshots/:date"@,
    );
    crate::laws::lemma_api_under_its_prefix(
        h,
        static_dir,
        docs_dir,
        "/projects/:foundation/:project/:repository/report.md"@,
    );
    crate::laws::lemma_api_under_its_prefix(h, static_dir, docs_dir, "/stats"@);
}

/// Where each page stands in the table.
proof fn lemma_page_table(h: Handlers, static_dir: Seq<char>, docs_dir: Seq<char>, c: Content)
    requires
        c == crate::router::site_content(h, static_dir, docs_dir),
    ensures
        c.contains_key(Slot::Route("/"@)),
        c[Slot::Route("/"@)] == crate::web::answers_of(
            h.index,
        ).restrict(set!["GET"@, "HEAD"@]),
        c.contains_key(Slot::Route("/projects/:foundation/:project"@)),
        c[Slot::Route("/projects/:foundation/:project"@)] == crate::web::answers_of(
            h.index_project,
        ).restrict(set!["GET"@, "HEAD"@]),
        c.contains_key(Slot::Route("/projects/:foundation/:project/report-summary.png"@)),
        c[Slot::Route(
            "/projects/:foundation/:project/report-summary.png"@,
        )] == crate::web::answers_of(
            h.report_summary_png,
        ).restrict(set!["GET"@, "HEAD"@]),
        c.contains_key(Slot::Route("/data/repositories.csv"@)),
        c[Slot::Route("/data/repositories.csv"@)] == crate::web::answers_of(
            h.repositories_checks,
        ).restrict(set!["GET"@, "HEAD"@]),
        c.contains_key(Slot::Fallback),
        c[Slot::Fallback] == crate::web::answers_of(
            h.index,
        ).restrict(set!["GET"@, "HEAD"@]),
{
    crate::laws::lemma_each_page_has_its_path(h);
    crate::laws::lemma_pages_beside_the_api(h, static_dir, docs_dir, "/"@);
    crate::laws::lemma_pages_beside_the_api(
        h,
        static_dir,
        docs_dir,
        "/projects/:foundation/:project"@,
    );
    crate::laws::lemma_pages_beside_the_api(
        h,
        static_dir,
        docs_dir,
        "/projects/:foundation/:project/report-summary.png"@,
    );
    crate::laws::lemma_pages_beside_the_api(h, static_dir, docs_dir, "/data/repositories.csv"@);
}

/// Where the files stand in the table, and that there is nothing else in it.
proof fn lemma_file_table(h: Handlers, static_dir: Seq<char>, docs_dir: Seq<char>, c: Content)
    requires
        c == crate::router::site_content(h, static_dir, docs_dir),
    ensures
        c.contains_key(Slot::Nest("/static"@)),
        forall|method: Seq<char>|
            c[Slot::Nest("/static"@)].contains_key(method) <==> (method == "GET"@
                || method == "HEAD"@),
        forall|method: Seq<char>| #[trigger]
            c[Slot::Nest("/static"@)].contains_key(method)
                ==> c[Slot::Nest("/static"@)][method] == (Answer::Files {
                files: Files {
                    dir: static_dir,
                    header: "cache-control"@,
                    value: "max-age=31536000"@,
                },
                failure_status: 500,
                failure_prefix: "internal error: "@,
            }),
        c.contains_key(Slot::Nest("/docs"@)),
        forall|method: Seq<char>|
            c[Slot::Nest("/docs"@)].contains_key(method) <==> (method == "GET"@
                || method == "HEAD"@),
        forall|method: Seq<char>| #[trigger]
            c[Slot::Nest("/docs"@)].contains_key(method)
                ==> c[Slot::Nest("/docs"@)][method] == (Answer::Files {
                files: Files {
                    dir: docs_dir,
                    header: "cache-control"@,
                    value: "max-age=300"@,
                },
                failure_status: 500,
                failure_prefix: "internal error: "@,
            }),
        forall|slot: Slot| #[trigger]
            c.contains_key(slot) ==> {
                ||| slot == Slot::Route("/api/projects/search"@)
                ||| slot == Slot::Route("/api/projects/:foundation/:project"@)
                ||| slot == Slot::Route("/api/projects/:foundation/:project/badge"@)
                ||| slot == Slot::Route("/api/projects/:foundation/:project/report-summary"@)
                ||| slot == Slot::Route("/api/projects/:foundation/:project/snapshots/:date"@)
                ||| slot == Slot::Route("/api/projects/:foundation/:project/:repository/report.md"@)
                ||| slot == Slot::Route("/api/stats"@)
                ||| slot == Slot::Route("/"@)
                ||| slot == Slot::Route("/projects/:foundation/:project"@)
                ||| slot == Slot::Route("/projects/:foundation/:project/report-summary.png"@)
                ||| slot == Slot::Route("/data/repositories.csv"@)
                ||| slot == Slot::Nest("/docs"@)
                ||| slot == Slot::Nest("/static"@)
                ||| slot == Slot::Fallback
            },
{
    lemma_durations();
    crate::table::lemma_prefixes();
}

/// A site that was set up answers the paths of the API, whatever the settings:
/// each with the handler that was given for it, and only `GET` and `HEAD`.
pub proof fn lemma_setup_serves_the_api<D, M, F>(
    cfg: Arc<Config>,
    db: D,
    page: &str,
    h: &Handlers,
    metrics: M,
    site: Router,
) where
    D: Clone + Send + Sync + 'static,
    M: FnMut(Request<Body>, Next<Body>) -> F + Clone + Send + 'static,
    F: Future<Output = Response> + Send + 'static,

    requires
        call_ensures(
            crate::router::setup::<D, M, F>,
            (cfg, db, page, h, metrics),
            Ok::<Router, SetupError>(site),
        ),
    ensures
        crate::web::content_of(site).contains_key(Slot::Route("/api/projects/search"@)),
        crate::web::content_of(site)[Slot::Route(
            "/api/projects/search"@,
        )] == crate::web::answers_of(
            h.search_projects,
        ).restrict(set!["GET"@, "HEAD"@]),
        crate::web::content_of(site).contains_key(
            Slot::Route("/api/projects/:foundation/:project"@),
        ),
        crate::web::content_of(site)[Slot::Route("/api/projects/:foundation/:project"@)]
            == crate::web::answers_of(h.project).restrict(set!["GET"@, "HEAD"@]),
        crate::web::content_of(site).contains_key(
            Slot::Route("/api/projects/:foundation/:project/badge"@),
        ),
        crate::web::content_of(site)[Slot::Route("/api/projects/:foundation/:project/badge"@)]
            == crate::web::answers_of(h.badge).restrict(set!["GET"@, "HEAD"@]),
        crate::web::content_of(site).contains_key(
            Slot::Route("/api/projects/:foundation/:project/report-summary"@),
        ),
        crate::web::content_of(site)[Slot::Route(
            "/api/projects/:foundation/:project/report-summary"@,
        )]
            == crate::web::answers_of(h.report_summary_svg).restrict(set!["GET"@, "HEAD"@]),
        crate::web::content_of(site).contains_key(
            Slot::Route("/api/projects/:foundation/:project/snapshots/:date"@),
        ),
        crate::web::content_of(site)[Slot::Route(
            "/api/projects/:foundation/:project/snapshots/:date"@,
        )]
            == crate::web::answers_of(h.project_snapshot).restrict(set!["GET"@, "HEAD"@]),
        crate::web::content_of(site).contains_key(
            Slot::Route("/api/projects/:foundation/:project/:repository/report.md"@),
        ),
        crate::web::content_of(site)[Slot::Route(
            "/api/projects/:foundation/:project/:repository/report.md"@,
        )]
            == crate::web::answers_of(h.repository_report_md).restrict(set!["GET"@, "HEAD"@]),
        crate::web::content_of(site).contains_key(Slot::Route("/api/stats"@)),
        crate::web::content_of(site)[Slot::Route("/api/stats"@)] == crate::web::answers_of(
            h.stats,
        ).restrict(set!["GET"@, "HEAD"@]),
{
    let dir = crate::settings::strings_of(held(cfg))["apiserver.staticPath"@];
    let docs = crate::paths::joined(dir, "docs"@);
    lemma_api_table(*h, dir, docs, crate::web::content_of(site));
}

/// A site that was set up answers the paths of the pages, whatever the settings:
/// each with the handler that was given for it, and only `GET` and `HEAD`. Where
/// nothing else answers, the index page does.
pub proof fn lemma_setup_serves_the_pages<D, M, F>(
    cfg: Arc<Config>,
    db: D,
    page: &str,
    h: &Handlers,
    metrics: M,
    site: Router,
) where
    D: Clone + Send + Sync + 'static,
    M: FnMut(Request<Body>, Next<Body>) -> F + Clone + Send + 'static,
    F: Future<Output = Response> + Send + 'static,

    requires
        call_ensures(
            crate::router::setup::<D, M, F>,
            (cfg, db, page, h, metrics),
            Ok::<Router, SetupError>(site),
        ),
    ensures
        crate::web::content_of(site).contains_key(Slot::Route("/"@)),
        crate::web::content_of(site)[Slot::Route("/"@)] == crate::web::answers_of(
            h.index,
        ).restrict(set!["GET"@, "HEAD"@]),
        crate::web::content_of(site).contains_key(Slot::Route("/projects/:foundation/:project"@)),
        crate::web::content_of(site)[Slot::Route(
            "/projects/:foundation/:project"@,
        )] == crate::web::answers_of(
            h.index_project,
        ).restrict(set!["GET"@, "HEAD"@]),
        crate::web::content_of(site).contains_key(
            Slot::Route("/projects/:foundation/:project/report-summary.png"@),
        ),
        crate::web::content_of(site)[Slot::Route(
            "/projects/:foundation/:project/report-summary.png"@,
        )]
            == crate::web::answers_of(h.report_summary_png).restrict(set!["GET"@, "HEAD"@]),
        crate::web::content_of(site).contains_key(Slot::Route("/data/repositories.csv"@)),
        crate::web::content_of(site)[Slot::Route(
            "/data/repositories.csv"@,
        )] == crate::web::answers_of(
            h.repositories_checks,
        ).restrict(set!["GET"@, "HEAD"@]),
        crate::web::content_of(site).contains_key(Slot::Fallback),
        crate::web::content_of(site)[Slot::Fallback] == crate::web::answers_of(
            h.index,
        ).restrict(set!["GET"@, "HEAD"@]),
{
    let dir = crate::settings::strings_of(held(cfg))["apiserver.staticPath"@];
    let docs = crate::paths::joined(dir, "docs"@);
    lemma_page_table(*h, dir, docs, crate::web::content_of(site));
}

/// A site that was set up sends the files of the very directory that the
/// settings name, relative or not, and those of `docs` in it, with the durations
/// of each.
pub proof fn lemma_setup_serves_the_files<D, M, F>(
    cfg: Arc<Config>,
    db: D,
    page: &str,
    h: &Handlers,
    metrics: M,
    site: Router,
) where
    D: Clone + Send + Sync + 'static,
    M: FnMut(Request<Body>, Next<Body>) -> F + Clone + Send + 'static,
    F: Future<Output = Response> + Send + 'static,

    requires
        call_ensures(
            crate::router::setup::<D, M, F>,
            (cfg, db, page, h, metrics),
            Ok::<Router, SetupError>(site),
        ),
    ensures
        crate::web::content_of(site).contains_key(Slot::Nest("/static"@)),
        forall|method: Seq<char>|
            crate::web::content_of(site)[Slot::Nest("/static"@)].contains_key(method) <==> (method == "GET"@
                || method == "HEAD"@),
        forall|method: Seq<char>| #[trigger]
            crate::web::content_of(site)[Slot::Nest("/static"@)].contains_key(method)
                ==> crate::web::content_of(site)[Slot::Nest("/static"@)][method] == (Answer::Files {
                files: Files {
                    dir: crate::settings::strings_of(*cfg)["apiserver.staticPath"@],
                    header: "cache-control"@,
                    value: "max-age=31536000"@,
                },
                failure_status: 500,
                failure_prefix: "internal error: "@,
            }),
        crate::web::content_of(site).contains_key(Slot::Nest("/docs"@)),
        forall|method: Seq<char>|
            crate::web::content_of(site)[Slot::Nest("/docs"@)].contains_key(method) <==> (method == "GET"@
                || method == "HEAD"@),
        forall|method: Seq<char>| #[trigger]
            crate::web::content_of(site)[Slot::Nest("/docs"@)].contains_key(method)
                ==> crate::web::content_of(site)[Slot::Nest("/docs"@)][method] == (Answer::Files {
                files: Files {
                    dir: if crate::settings::strings_of(*cfg)["apiserver.staticPath"@].len() == 0
                        || crate::settings::strings_of(*cfg)["apiserver.staticPath"@].last() == '/' {
                        crate::settings::strings_of(*cfg)["apiserver.staticPath"@] + "docs"@
                    } else {
                        crate::settings::strings_of(*cfg)["apiserver.staticPath"@] + "/docs"@
                    },
                    header: "cache-control"@,
                    value: "max-age=300"@,
                },
                failure_status: 500,
                failure_prefix: "internal error: "@,
            }),
{
    let dir = crate::settings::strings_of(held(cfg))["apiserver.staticPath"@];
    let docs = crate::paths::joined(dir, "docs"@);
    lemma_docs_dir(dir);
    lemma_file_table(*h, dir, docs, crate::web::content_of(site));
}

/// A site that was set up answers nowhere else.
pub proof fn lemma_setup_serves_nothing_else<D, M, F>(
    cfg: Arc<Config>,
    db: D,
    page: &str,
    h: &Handlers,
    metrics: M,
    site: Router,
) where
    D: Clone + Send + Sync + 'static,
    M: FnMut(Request<Body>, Next<Body>) -> F + Clone + Send + 'static,
    F: Future<Output = Response> + Send + 'static,

    requires
        call_ensures(
            crate::router::setup::<D, M, F>,
            (cfg, db, page, h, metrics),
            Ok::<Router, SetupError>(site),
        ),
    ensures
        forall|slot: Slot| #[trigger]
            crate::web::content_of(site).contains_key(slot) ==> {
                ||| slot == Slot::Route("/api/projects/search"@)
                ||| slot == Slot::Route("/api/projects/:foundation/:project"@)
                ||| slot == Slot::Route("/api/projects/:foundation/:project/badge"@)
                ||| slot == Slot::Route("/api/projects/:foundation/:project/report-summary"@)
                ||| slot == Slot::Route("/api/projects/:foundation/:project/snapshots/:date"@)
                ||| slot == Slot::Route("/api/projects/:foundation/:project/:repository/report.md"@)
                ||| slot == Slot::Route("/api/stats"@)
                ||| slot == Slot::Route("/"@)
                ||| slot == Slot::Route("/projects/:foundation/:project"@)
                ||| slot == Slot::Route("/projects/:foundation/:project/report-summary.png"@)
                ||| slot == Slot::Route("/data/repositories.csv"@)
                ||| slot == Slot::Nest("/docs"@)
                ||| slot == Slot::Nest("/static"@)
                ||| slot == Slot::Fallback
            },
{
    let dir = crate::settings::strings_of(held(cfg))["apiserver.staticPath"@];
    let docs = crate::paths::joined(dir, "docs"@);
    lemma_file_table(*h, dir, docs, crate::web::content_of(site));
}

/// Whatever the settings, the handlers of a site that was set up get at the
/// index page, the database and the settings that were given, and every request
/// that is let in is measured and traced.
pub proof fn lemma_setup_shares_what_it_is_given<D, M, F>(
    cfg: Arc<Config>,
    db: D,
    page: &str,
    h: &Handlers,
    metrics: M,
    site: Router,
) where
    D: Clone + Send + Sync + 'static,
    M: FnMut(Request<Body>, Next<Body>) -> F + Clone + Send + 'static,
    F: Future<Output = Response> + Send + 'static,

    requires
        call_ensures(
            crate::router::setup::<D, M, F>,
            (cfg, db, page, h, metrics),
            Ok::<Router, SetupError>(site),
        ),
    ensures
        crate::web::layers_of(site).len() >= 5,
        crate::web::layers_of(site)[0] == (Layer::Templates {
            sources: map!["index.html"@ => page@],
            escaped: Seq::empty(),
        }),
        crate::web::layers_of(site)[1] == (Layer::Database { number: crate::site::number_of(db) }),
        crate::web::layers_of(site)[2] == (Layer::Settings {
            number: crate::site::number_of(*cfg),
            strings: crate::settings::strings_of(*cfg),
            bools: crate::settings::bools_of(*cfg),
        }),
        crate::web::layers_of(site)[3]
            == (Layer::Metrics { number: crate::site::number_of(metrics) }),
        crate::web::layers_of(site)[4] == Layer::Trace,
{
    assert(crate::web::layers_of(site)[0]->sources =~= map!["index.html"@ => page@]);
}

/// A site that was set up asks for credentials if and only if the settings switch
/// that on, whatever else they hold: for those of the settings, before any other
/// layer, and only once.
pub proof fn lemma_setup_asks_for_credentials<D, M, F>(
    cfg: Arc<Config>,
    db: D,
    page: &str,
    h: &Handlers,
    metrics: M,
    site: Router,
) where
    D: Clone + Send + Sync + 'static,
    M: FnMut(Request<Body>, Next<Body>) -> F + Clone + Send + 'static,
    F: Future<Output = Response> + Send + 'static,

    requires
        call_ensures(
            crate::router::setup::<D, M, F>,
            (cfg, db, page, h, metrics),
            Ok::<Router, SetupError>(site),
        ),
    ensures
        crate::web::layers_of(site).len() == (if (crate::settings::bools_of(*cfg).contains_key("apiserver.basicAuth.enabled"@)
            && crate::settings::bools_of(*cfg)["apiserver.basicAuth.enabled"@]) {
            6int
        } else {
            5int
        }),
        forall|i: int|
            0 <= i < crate::web::layers_of(site).len() ==> (crate::web::layers_of(site)[i] is BasicAuth <==> i == 5),
        (crate::settings::bools_of(*cfg).contains_key("apiserver.basicAuth.enabled"@)
            && crate::settings::bools_of(*cfg)["apiserver.basicAuth.enabled"@]) ==> {
            &&& crate::settings::strings_of(*cfg).contains_key("apiserver.basicAuth.username"@)
            &&& crate::settings::strings_of(*cfg).contains_key("apiserver.basicAuth.password"@)
            &&& crate::web::layers_of(site)[5] == (Layer::BasicAuth {
                username: crate::settings::strings_of(*cfg)["apiserver.basicAuth.username"@],
                password: crate::settings::strings_of(*cfg)["apiserver.basicAuth.password"@],
            })
        },
{
}

/// When a site is set up, and which error comes when it is not. `listed` is what
/// `list_in_test` says of the index page.
pub proof fn lemma_setup_succeeds<D, M, F>(
    cfg: Arc<Config>,
    db: D,
    page: &str,
    h: &Handlers,
    metrics: M,
    listed: bool,
    r: Result<Router, SetupError>,
) where
    D: Clone + Send + Sync + 'static,
    M: FnMut(Request<Body>, Next<Body>) -> F + Clone + Send + 'static,
    F: Future<Output = Response> + Send + 'static,

    requires
        call_ensures(crate::router::setup::<D, M, F>, (cfg, db, page, h, metrics), r),
        call_ensures(crate::page::list_in_test, (page,), listed),
    ensures
        ({
            let strings = crate::settings::strings_of(*cfg);
            let bools = crate::settings::bools_of(*cfg);
            let found = strings.contains_key("apiserver.staticPath"@);
            let usable = crate::templates::stands_alone("index.html"@, page@);
            let asked = bools.contains_key("apiserver.basicAuth.enabled"@)
                && bools["apiserver.basicAuth.enabled"@];
            let user = strings.contains_key("apiserver.basicAuth.username"@);
            let password = strings.contains_key("apiserver.basicAuth.password"@);
            match r {
                Ok(_) => found && !listed && usable && (asked ==> user && password),
                Err(SetupError::StaticPath(_)) => !found,
                Err(SetupError::Template(TemplateError::ListInTest)) => found && listed,
                Err(SetupError::Template(TemplateError::Rejected(_))) => found && !listed
                    && !usable,
                Err(SetupError::CacheControl(_)) => false,
                Err(SetupError::Auth(MissingCredential::Username(_))) => found && !listed && usable
                    && asked && !user,
                Err(SetupError::Auth(MissingCredential::Password(_))) => found && !listed && usable
                    && asked && user && !password,
            }
        }),
{
}

/// The routes and the fallback of a site depend on the handlers alone: with
/// other settings, another database or another index page they are the same.
pub proof fn lemma_routes_depend_on_the_handlers_alone<D, M, F>(
    cfg1: Arc<Config>,
    cfg2: Arc<Config>,
    db1: D,
    db2: D,
    page1: &str,
    page2: &str,
    h: &Handlers,
    metrics1: M,
    metrics2: M,
    site1: Router,
    site2: Router,
) where
    D: Clone + Send + Sync + 'static,
    M: FnMut(Request<Body>, Next<Body>) -> F + Clone + Send + 'static,
    F: Future<Output = Response> + Send + 'static,

    requires
        call_ensures(
            crate::router::setup::<D, M, F>,
            (cfg1, db1, page1, h, metrics1),
            Ok::<Router, SetupError>(site1),
        ),
        call_ensures(
            crate::router::setup::<D, M, F>,
            (cfg2, db2, page2, h, metrics2),
            Ok::<Router, SetupError>(site2),
        ),
    ensures
        forall|slot: Slot|
            slot !is Nest ==> (#[trigger] crate::web::content_of(site1).contains_key(slot)
                <==> crate::web::content_of(site2).contains_key(slot)),
        forall|slot: Slot|
            slot !is Nest && #[trigger] crate::web::content_of(site1).contains_key(slot)
                ==> crate::web::content_of(site1)[slot] == crate::web::content_of(site2)[slot],
{
}

/// Switching authentication on or off changes nothing but that credentials are
/// asked for: what else is around the site stays.
pub proof fn lemma_credentials_change_no_other_layer<D, M, F>(
    cfg1: Arc<Config>,
    cfg2: Arc<Config>,
    db: D,
    page: &str,
    h: &Handlers,
    metrics: M,
    site1: Router,
    site2: Router,
) where
    D: Clone + Send + Sync + 'static,
    M: FnMut(Request<Body>, Next<Body>) -> F + Clone + Send + 'static,
    F: Future<Output = Response> + Send + 'static,

    requires
        call_ensures(
            crate::router::setup::<D, M, F>,
            (cfg1, db, page, h, metrics),
            Ok::<Router, SetupError>(site1),
        ),
        call_ensures(
            crate::router::setup::<D, M, F>,
            (cfg2, db, page, h, metrics),
            Ok::<Router, SetupError>(site2),
        ),
    ensures
        forall|i: int|
            0 <= i < 5 && i != 2 ==> crate::web::layers_of(site1)[i] == crate::web::layers_of(
                site2,
            )[i],
{
}

/// Values that a number can tell apart are told apart: two sites whose layers
/// are the same were given the same database, settings and metrics.
pub proof fn lemma_shared_values_are_those_given<D, M, F>(
    cfg1: Arc<Config>,
    cfg2: Arc<Config>,
    db1: D,
    db2: D,
    page1: &str,
    page2: &str,
    h: &Handlers,
    metrics1: M,
    metrics2: M,
    site1: Router,
    site2: Router,
    databases: spec_fn(D) -> int,
    settings: spec_fn(Config) -> int,
    functions: spec_fn(M) -> int,
) where
    D: Clone + Send + Sync + 'static,
    M: FnMut(Request<Body>, Next<Body>) -> F + Clone + Send + 'static,
    F: Future<Output = Response> + Send + 'static,

    requires
        call_ensures(
            crate::router::setup::<D, M, F>,
            (cfg1, db1, page1, h, metrics1),
            Ok::<Router, SetupError>(site1),
        ),
        call_ensures(
            crate::router::setup::<D, M, F>,
            (cfg2, db2, page2, h, metrics2),
            Ok::<Router, SetupError>(site2),
        ),
        crate::web::layers_of(site1) == crate::web::layers_of(site2),
        forall|a: D, b: D| #[trigger] databases(a) == #[trigger] databases(b) ==> a == b,
        forall|a: Config, b: Config| #[trigger] settings(a) == #[trigger] settings(b) ==> a == b,
        forall|a: M, b: M| #[trigger] functions(a) == #[trigger] functions(b) ==> a == b,
    ensures
        db1 == db2,
        *cfg1 == *cfg2,
        metrics1 == metrics2,
        page1@ == page2@,
{
    let l1 = crate::web::layers_of(site1);
    let l2 = crate::web::layers_of(site2);
    lemma_setup_shares_what_it_is_given(cfg1, db1, page1, h, metrics1, site1);
    lemma_setup_shares_what_it_is_given(cfg2, db2, page2, h, metrics2, site2);
    assert(l1[1] == l2[1]);
    assert(l1[2] == l2[2]);
    assert(l1[3] == l2[3]);
    lemma_number_tells_apart(databases, db1, db2);
    lemma_number_tells_apart(settings, held(cfg1), held(cfg2));
    lemma_number_tells_apart(functions, metrics1, metrics2);
    assert(l1[0]->sources["index.html"@] == l2[0]->sources["index.html"@]);
}

/// Where numbers can tell the values of a type apart, `number_of` does.
pub proof fn lemma_number_tells_apart<T>(number: spec_fn(T) -> int, a: T, b: T)
    requires
        forall|x: T, y: T| #[trigger] number(x) == #[trigger] number(y) ==> x == y,
        crate::site::number_of(a) == crate::site::number_of(b),
    ensures
        a == b,
{
    assert(crate::site::tells_apart(number));
}

/// The table answers the paths of the API with the handlers that were given.
pub proof fn lemma_routes_serve_the_api(h: &Handlers, paths: &SitePaths, router: Router)
    requires
        call_ensures(
            crate::router::routes,
            (h, paths),
            Ok::<Router, InvalidHeaderValue>(router),
        ),
    ensures
        crate::web::content_of(router).contains_key(Slot::Route("/api/projects/search"@)),
        crate::web::content_of(router)[Slot::Route(
            "/api/projects/search"@,
        )] == crate::web::answers_of(
            h.search_projects,
        ).restrict(set!["GET"@, "HEAD"@]),
        crate::web::content_of(router).contains_key(
            Slot::Route("/api/projects/:foundation/:project"@),
        ),
        crate::web::content_of(router)[Slot::Route("/api/projects/:foundation/:project"@)]
            == crate::web::answers_of(h.project).restrict(set!["GET"@, "HEAD"@]),
        crate::web::content_of(router).contains_key(
            Slot::Route("/api/projects/:foundation/:project/badge"@),
        ),
        crate::web::content_of(router)[Slot::Route("/api/projects/:foundation/:project/badge"@)]
            == crate::web::answers_of(h.badge).restrict(set!["GET"@, "HEAD"@]),
        crate::web::content_of(router).contains_key(
            Slot::Route("/api/projects/:foundation/:project/report-summary"@),
        ),
        crate::web::content_of(router)[Slot::Route(
            "/api/projects/:foundation/:project/report-summary"@,
        )]
            == crate::web::answers_of(h.report_summary_svg).restrict(set!["GET"@, "HEAD"@]),
        crate::web::content_of(router).contains_key(
            Slot::Route("/api/projects/:foundation/:project/snapshots/:date"@),
        ),
        crate::web::content_of(router)[Slot::Route(
            "/api/projects/:foundation/:project/snapshots/:date"@,
        )]
            == crate::web::answers_of(h.project_snapshot).restrict(set!["GET"@, "HEAD"@]),
        crate::web::content_of(router).contains_key(
            Slot::Route("/api/projects/:foundation/:project/:repository/report.md"@),
        ),
        crate::web::content_of(router)[Slot::Route(
            "/api/projects/:foundation/:project/:repository/report.md"@,
        )]
            == crate::web::answers_of(h.repository_report_md).restrict(set!["GET"@, "HEAD"@]),
        crate::web::content_of(router).contains_key(Slot::Route("/api/stats"@)),
        crate::web::content_of(router)[Slot::Route("/api/stats"@)] == crate::web::answers_of(
            h.stats,
        ).restrict(set!["GET"@, "HEAD"@]),
{
    lemma_api_table(*h, paths.static_dir@, paths.docs_dir@, crate::web::content_of(router));
}

/// The table answers the paths of the pages, and what nothing else answers, with
/// the handlers that were given.
pub proof fn lemma_routes_serve_the_pages(h: &Handlers, paths: &SitePaths, router: Router)
    requires
        call_ensures(
            crate::router::routes,
            (h, paths),
            Ok::<Router, InvalidHeaderValue>(router),
        ),
    ensures
        crate::web::content_of(router).contains_key(Slot::Route("/"@)),
        crate::web::content_of(router)[Slot::Route("/"@)] == crate::web::answers_of(
            h.index,
        ).restrict(set!["GET"@, "HEAD"@]),
        crate::web::content_of(router).contains_key(Slot::Route("/projects/:foundation/:project"@)),
        crate::web::content_of(router)[Slot::Route(
            "/projects/:foundation/:project"@,
        )] == crate::web::answers_of(
            h.index_project,
        ).restrict(set!["GET"@, "HEAD"@]),
        crate::web::content_of(router).contains_key(
            Slot::Route("/projects/:foundation/:project/report-summary.png"@),
        ),
        crate::web::content_of(router)[Slot::Route(
            "/projects/:foundation/:project/report-summary.png"@,
        )]
            == crate::web::answers_of(h.report_summary_png).restrict(set!["GET"@, "HEAD"@]),
        crate::web::content_of(router).contains_key(Slot::Route("/data/repositories.csv"@)),
        crate::web::content_of(router)[Slot::Route(
            "/data/repositories.csv"@,
        )] == crate::web::answers_of(
            h.repositories_checks,
        ).restrict(set!["GET"@, "HEAD"@]),
        crate::web::content_of(router).contains_key(Slot::Fallback),
        crate::web::content_of(router)[Slot::Fallback] == crate::web::answers_of(
            h.index,
        ).restrict(set!["GET"@, "HEAD"@]),
{
    lemma_page_table(*h, paths.static_dir@, paths.docs_dir@, crate::web::content_of(router));
}

/// The table sends the files of the directories that were given, answers nowhere
/// else, and has no layers.
pub proof fn lemma_routes_serve_the_files(h: &Handlers, paths: &SitePaths, router: Router)
    requires
        call_ensures(
            crate::router::routes,
            (h, paths),
            Ok::<Router, InvalidHeaderValue>(router),
        ),
    ensures
        crate::web::content_of(router).contains_key(Slot::Nest("/static"@)),
        forall|method: Seq<char>|
            crate::web::content_of(router)[Slot::Nest("/static"@)].contains_key(method) <==> (method == "GET"@
                || method == "HEAD"@),
        forall|method: Seq<char>| #[trigger]
            crate::web::content_of(router)[Slot::Nest("/static"@)].contains_key(method)
                ==> crate::web::content_of(router)[Slot::Nest("/static"@)][method] == (Answer::Files {
                files: Files {
                    dir: paths.static_dir@,
                    header: "cache-control"@,
                    value: "max-age=31536000"@,
                },
                failure_status: 500,
                failure_prefix: "internal error: "@,
            }),
        crate::web::content_of(router).contains_key(Slot::Nest("/docs"@)),
        forall|method: Seq<char>|
            crate::web::content_of(router)[Slot::Nest("/docs"@)].contains_key(method) <==> (method == "GET"@
                || method == "HEAD"@),
        forall|method: Seq<char>| #[trigger]
            crate::web::content_of(router)[Slot::Nest("/docs"@)].contains_key(method)
                ==> crate::web::content_of(router)[Slot::Nest("/docs"@)][method] == (Answer::Files {
                files: Files {
                    dir: paths.docs_dir@,
                    header: "cache-control"@,
                    value: "max-age=300"@,
                },
                failure_status: 500,
                failure_prefix: "internal error: "@,
            }),
        forall|slot: Slot| #[trigger]
            crate::web::content_of(router).contains_key(slot) ==> {
                ||| slot == Slot::Route("/api/projects/search"@)
                ||| slot == Slot::Route("/api/projects/:foundation/:project"@)
                ||| slot == Slot::Route("/api/projects/:foundation/:project/badge"@)
                ||| slot == Slot::Route("/api/projects/:foundation/:project/report-summary"@)
                ||| slot == Slot::Route("/api/projects/:foundation/:project/snapshots/:date"@)
                ||| slot == Slot::Route("/api/projects/:foundation/:project/:repository/report.md"@)
                ||| slot == Slot::Route("/api/stats"@)
                ||| slot == Slot::Route("/"@)
                ||| slot == Slot::Route("/projects/:foundation/:project"@)
                ||| slot == Slot::Route("/projects/:foundation/:project/report-summary.png"@)
                ||| slot == Slot::Route("/data/repositories.csv"@)
                ||| slot == Slot::Nest("/docs"@)
                ||| slot == Slot::Nest("/static"@)
                ||| slot == Slot::Fallback
            },
        crate::web::layers_of(router).len() == 0,
{
    lemma_file_table(*h, paths.static_dir@, paths.docs_dir@, crate::web::content_of(router));
}

/// The table is always made.
pub proof fn lemma_routes_succeed(
    h: &Handlers,
    paths: &SitePaths,
    r: Result<Router, InvalidHeaderValue>,
)
    requires
        call_ensures(crate::router::routes, (h, paths), r),
    ensures
        r is Ok,
{
}

/// The files lie where the settings say: in that very directory, and in what
/// `join` makes of it.
pub proof fn lemma_site_paths(
    cfg: &Config,
    dir: &str,
    index_file: String,
    docs_dir: String,
    r: Result<SitePaths, ConfigError>,
)
    requires
        call_ensures(crate::paths::site_paths, (cfg,), r),
        dir@ == crate::settings::strings_of(*cfg)["apiserver.staticPath"@],
        call_ensures(crate::paths::join, (dir, "index.html"), index_file),
        call_ensures(crate::paths::join, (dir, "docs"), docs_dir),
    ensures
        r is Ok <==> crate::settings::strings_of(*cfg).contains_key("apiserver.staticPath"@),
        r matches Ok(paths) ==> {
            &&& paths.static_dir@ == dir@
            &&& paths.index_file@ == index_file@
            &&& paths.docs_dir@ == docs_dir@
        },
{
}

/// A name is adjoined to a directory with one `/` between them, which may be the
/// directory's own. To an empty directory nothing is added. An absolute name
/// stays as it is.
pub proof fn lemma_join(base: &str, name: &str, path: String)
    requires
        call_ensures(crate::paths::join, (base, name), path),
    ensures
        name@.len() > 0 && name@[0] == '/' ==> path@ == name@,
        (name@.len() == 0 || name@[0] != '/') && base@.len() == 0 ==> path@ == name@,
        (name@.len() == 0 || name@[0] != '/') && base@.len() > 0 && base@.last() == '/' ==> path@
            == base@ + name@,
        (name@.len() == 0 || name@[0] != '/') && base@.len() > 0 && base@.last() != '/' ==> path@
            == base@ + "/"@ + name@,
{
    reveal_strlit("/");
    assert(base@ + "/"@ =~= base@.push('/'));
    assert(Seq::<char>::empty() + name@ =~= name@);
    if base@.len() == 0 {
        assert(base@ + name@ =~= name@);
    }
}

/// A duration of one digit is written as that digit.
pub proof fn lemma_max_age_of_a_digit(seconds: usize, text: String)
    requires
        seconds < 10,
        call_ensures(crate::cache::max_age, (seconds,), text),
    ensures
        text@ == "max-age="@.push((48 + seconds) as char),
{
    assert("max-age="@ + seq![(48 + seconds) as char] =~= "max-age="@.push(
        (48 + seconds) as char,
    ));
}

/// A longer duration is written as its tenth, and its last digit behind that.
pub proof fn lemma_max_age_of_more_digits(
    seconds: usize,
    text: String,
    tenth: String,
)
    requires
        seconds >= 10,
        call_ensures(crate::cache::max_age, (seconds,), text),
        call_ensures(crate::cache::max_age, ((seconds / 10) as usize,), tenth),
    ensures
        text@ == tenth@.push((48 + seconds % 10) as char),
{
    assert(crate::cache::decimal(seconds as nat) == crate::cache::decimal(
        (seconds / 10) as nat,
    ).push((48 + seconds % 10) as char));
    assert(text@ =~= tenth@.push((48 + seconds % 10) as char));
}

/// A header carries the text of its duration, for every duration.
pub proof fn lemma_cache_control_value(
    seconds: usize,
    text: String,
    value: Result<HeaderValue, InvalidHeaderValue>,
)
    requires
        call_ensures(crate::cache::max_age, (seconds,), text),
        call_ensures(crate::cache::cache_control_value, (seconds,), value),
    ensures
        value is Ok,
        crate::web::header_text(value->Ok_0) == text@,
{
}

/// An error is answered as an internal one, with its own text at the end.
pub proof fn lemma_internal_error(err: &str, status: StatusCode, text: String)
    requires
        call_ensures(crate::web::internal_error, (err,), (status, text)),
    ensures
        crate::web::status_number(status) == 500,
        text@ == "internal error: "@ + err@,
{
}

/// A page becomes a template if and only if it can stand alone and `list_in_test`
/// finds nothing in it, whatever its length; it is then the only template, under
/// the name `index.html`, and nothing is escaped.
pub proof fn lemma_index_templates(page: &str, listed: bool, r: Result<Tera, TemplateError>)
    requires
        call_ensures(crate::templates::index_templates, (page,), r),
        call_ensures(crate::page::list_in_test, (page,), listed),
    ensures
        match r {
            Ok(tera) => {
                &&& !listed
                &&& crate::templates::stands_alone("index.html"@, page@)
                &&& crate::templates::sources_of(tera) == map!["index.html"@ => page@]
                &&& crate::templates::escaped_by(tera).len() == 0
            },
            Err(TemplateError::ListInTest) => listed,
            Err(TemplateError::Rejected(_)) => !listed && !crate::templates::stands_alone(
                "index.html"@,
                page@,
            ),
        },
{
    if let Ok(tera) = r {
        assert(crate::templates::sources_of(tera) =~= map!["index.html"@ => page@]);
    }
}

/// A page that holds no `[` is never refused for a list.
pub proof fn lemma_a_page_without_lists_is_taken(page: &str, r: Result<Tera, TemplateError>)
    requires
        call_ensures(crate::templates::index_templates, (page,), r),
        !page@.contains('['),
    ensures
        r is Ok <==> crate::templates::stands_alone("index.html"@, page@),
        r !is Ok ==> r->Err_0 is Rejected,
{
    if crate::page::hands_list_to_test(page@) {
        crate::page::lemma_found_in(page@);
        let (start, before, list) = choose|start: int, before: int, list: int|
            crate::page::is_list_at(page@, start, before, list);
        assert(page@.contains(page@[list]));
    }
}

/// Where a list is found, a `[` follows a `(` or a `,` with nothing but blanks
/// between them, and a tag was opened before.
pub proof fn lemma_a_found_list_is_an_argument(page: &str) -> (r: (int, int, int))
    requires
        call_ensures(crate::page::list_in_test, (page,), true),
    ensures
        ({
            let (start, before, list) = r;
            &&& 0 <= start
            &&& start + 1 < before < list < page@.len()
            &&& page@[start] == '{'
            &&& page@[start + 1] == '{' || page@[start + 1] == '%'
            &&& page@[before] == '(' || page@[before] == ','
            &&& forall|m: int|
                before < m < list ==> {
                    ||| #[trigger] page@[m] == ' '
                    ||| page@[m] == '\t'
                    ||| page@[m] == '\r'
                    ||| page@[m] == '\n'
                }
            &&& page@[list] == '['
        }),
{
    crate::page::lemma_found_in(page@);
    choose|start: int, before: int, list: int|
        crate::page::is_list_at(page@, start, before, list)
}

/// Text before the first tag does not matter, whatever brackets and single braces
/// it holds.
pub proof fn lemma_text_hands_no_list(
    text: Seq<char>,
    page: &str,
    whole: &str,
    of_page: bool,
    of_whole: bool,
)
    requires
        whole@ == text + page@,
        forall|m: int|
            0 <= m < text.len() && m + 1 < whole@.len() && #[trigger] whole@[m] == '{'
                ==> whole@[m + 1] != '{' && whole@[m + 1] != '%' && whole@[m + 1] != '#',
        call_ensures(crate::page::list_in_test, (page,), of_page),
        call_ensures(crate::page::list_in_test, (whole,), of_whole),
    ensures
        of_page == of_whole,
{
    crate::page::lemma_over_text(whole@, 0, text.len());
    crate::page::lemma_shifted(text, page@, 0, crate::page::Place::Text);
}

/// A comment does not matter, whatever it holds.
pub proof fn lemma_a_comment_hands_no_list(
    comment: Seq<char>,
    page: &str,
    whole: &str,
    of_page: bool,
    of_whole: bool,
)
    requires
        forall|m: int|
            0 <= m && m + 1 < comment.len() && #[trigger] comment[m] == '#' ==> comment[m + 1]
                != '}',
        whole@ == seq!['{', '#'] + comment + seq!['#', '}'] + page@,
        call_ensures(crate::page::list_in_test, (page,), of_page),
        call_ensures(crate::page::list_in_test, (whole,), of_whole),
    ensures
        of_page == of_whole,
{
    let start = seq!['{', '#'] + comment + seq!['#', '}'];
    let n = comment.len() as int;
    let w = whole@;
    assert(w[0] == '{' && w[1] == '#');
    assert(w[2 + n] == '#' && w[3 + n] == '}');
    assert forall|m: int| 2 <= m < 2 + n implies !(#[trigger] w[m] == '#' && m + 1 < w.len()
        && w[m + 1] == '}') by {
        assert(w[m] == comment[m - 2]);
        if m + 1 < 2 + n {
            assert(w[m + 1] == comment[m - 1]);
        }
    }
    crate::page::lemma_over_comment(w, 2, n as nat);
    crate::page::lemma_shifted(start, page@, 0, crate::page::Place::Text);
}

/// A raw block does not matter, whatever it holds: the text between the tags
/// `raw` and `endraw`, each of which may have blanks around its word, and dashes
/// next to its `%`.
pub proof fn lemma_a_raw_block_hands_no_list(
    lead: Seq<char>,
    trail: Seq<char>,
    raw: Seq<char>,
    end_lead: Seq<char>,
    end_trail: Seq<char>,
    page: &str,
    whole: &str,
    of_page: bool,
    of_whole: bool,
)
    requires
        forall|m: int|
            0 <= m < lead.len() ==> {
                ||| m == 0 && #[trigger] lead[m] == '-'
                ||| lead[m] == ' ' || lead[m] == '\t' || lead[m] == '\r' || lead[m] == '\n'
            },
        forall|m: int|
            0 <= m < trail.len() ==> {
                ||| m == trail.len() - 1 && #[trigger] trail[m] == '-'
                ||| trail[m] == ' ' || trail[m] == '\t' || trail[m] == '\r' || trail[m] == '\n'
            },
        forall|m: int|
            0 <= m < end_lead.len() ==> {
                ||| m == 0 && #[trigger] end_lead[m] == '-'
                ||| end_lead[m] == ' ' || end_lead[m] == '\t' || end_lead[m] == '\r' || end_lead[m] == '\n'
            },
        forall|m: int|
            0 <= m < end_trail.len() ==> {
                ||| m == end_trail.len() - 1 && #[trigger] end_trail[m] == '-'
                ||| end_trail[m] == ' ' || end_trail[m] == '\t' || end_trail[m] == '\r' || end_trail[m] == '\n'
            },
        forall|k: int|
            0 <= k && k + 6 <= raw.len() ==> #[trigger] raw.subrange(k, k + 6) != "endraw"@,
        whole@ == (seq!['{', '%'] + lead + "raw"@ + trail + seq!['%', '}']) + raw + ((seq!['{', '%']
            + end_lead + "endraw"@ + end_trail + seq!['%', '}']) + page@),
        call_ensures(crate::page::list_in_test, (page,), of_page),
        call_ensures(crate::page::list_in_test, (whole,), of_whole),
    ensures
        of_page == of_whole,
{
    reveal_strlit("raw");
    reveal_strlit("endraw");
    let a = seq!['{', '%'] + lead + "raw"@ + trail + seq!['%', '}'];
    let b = seq!['{', '%'] + end_lead + "endraw"@ + end_trail + seq!['%', '}'];
    let tag = b + page@;
    let w = whole@;
    lemma_word_tag(lead, "raw"@, trail, raw + tag);
    assert(w =~= a + (raw + tag));
    let end = (a.len() + raw.len()) as int;
    assert(w[end] == '{');
    assert forall|m: int| 2 <= m < end implies !#[trigger] crate::page::is_word_tag(
        w,
        m,
        "endraw"@,
    ) by {
        assert forall|k: int| m < k && k + 6 <= end implies #[trigger] w.subrange(k, k + 6)
            != "endraw"@ by {
            if w.subrange(k, k + 6) == "endraw"@ {
                let word = w.subrange(k, k + 6);
                assert("endraw"@ =~= seq!['e', 'n', 'd', 'r', 'a', 'w']);
                assert("raw"@ =~= seq!['r', 'a', 'w']);
                if k >= a.len() {
                    assert(raw.subrange(k - a.len(), k - a.len() + 6) =~= word);
                } else {
                    assert(word[0] == w[k]);
                    assert(w[k] == a[k]);
                    if k < 2 + lead.len() {
                        assert(a[k] == lead[k - 2]);
                    } else if 5 + lead.len() <= k < a.len() - 2 {
                        assert(a[k] == trail[k - 5 - lead.len()]);
                    }
                }
            }
        }
        crate::page::lemma_no_endraw(w, m, end);
    }
    crate::page::lemma_over_raw(w, 2, (end - 2) as nat);
    assert(w =~= (a + raw) + tag);
    crate::page::lemma_shifted(a + raw, tag, 0, crate::page::Place::Raw);
    lemma_word_tag(end_lead, "endraw"@, end_trail, page@);
    let n = b.len() as int;
    let part = b.subrange(2, n - 1);
    assert forall|m: int| 0 <= m < part.len() implies tag[2 + m] == #[trigger] part[m] by {
    }
    assert forall|m: int| 0 <= m < part.len() implies #[trigger] part[m] != '}'
        && part[m] != '[' && !crate::page::is_quote(part[m]) by {
        assert(part[m] == b[2 + m]);
        if m < end_lead.len() {
            assert(b[2 + m] == end_lead[m]);
        } else if m < end_lead.len() + 6 {
            assert(b[2 + m] == "endraw"@[m - end_lead.len()]);
            assert("endraw"@ =~= seq!['e', 'n', 'd', 'r', 'a', 'w']);
        } else if m < end_lead.len() + 6 + end_trail.len() {
            assert(b[2 + m] == end_trail[m - 6 - end_lead.len()]);
        }
    }
    crate::page::lemma_over_part(tag, 2, part, part.len(), false);
    lemma_no_list_in(part, part.len());
    assert(tag[n - 1] == '}');
    crate::page::lemma_shifted(b, page@, 0, crate::page::Place::Text);
}

/// A tag that consists of a word is recognised with blanks around the word, and
/// dashes.
proof fn lemma_word_tag(lead: Seq<char>, word: Seq<char>, trail: Seq<char>, rest: Seq<char>)
    requires
        forall|m: int|
            0 <= m < lead.len() ==> (m == 0 && lead[m] == '-') || crate::page::is_blank(
                #[trigger] lead[m],
            ),
        forall|m: int|
            0 <= m < trail.len() ==> (m == trail.len() - 1 && trail[m] == '-')
                || crate::page::is_blank(#[trigger] trail[m]),
        word.len() > 0,
        !crate::page::is_blank(word[0]),
        word[0] != '-',
    ensures
        crate::page::is_word_tag(
            (seq!['{', '%'] + lead + word + trail + seq!['%', '}']) + rest,
            0,
            word,
        ),
{
    let w = (seq!['{', '%'] + lead + word + trail + seq!['%', '}']) + rest;
    let start = (2 + lead.len()) as int;
    let stop = (start + word.len()) as int;
    let end = (stop + trail.len()) as int;
    assert forall|m: int| 2 <= m < start implies (m == 2 && w[m] == '-') || crate::page::is_blank(
        #[trigger] w[m],
    ) by {
        assert(w[m] == lead[m - 2]);
    }
    assert(w[start] == word[0]);
    crate::page::lemma_word_starts(w, 0, start);
    assert(w.subrange(start, start + word.len()) =~= word);
    assert forall|m: int| stop <= m < end implies (m == end - 1 && w[m] == '-')
        || crate::page::is_blank(#[trigger] w[m]) by {
        assert(w[m] == trail[m - stop]);
    }
    assert(w[end] == '%' && w[end + 1] == '}');
    crate::page::lemma_word_ends(w, stop, end);
}

/// A tag starts with `{{`, or with `{%`, where the word at `word`, behind a dash, if
/// there is one, and blanks, does not start as `raw` does.
proof fn lemma_tag_opens(page: Seq<char>, kind: char, word: int)
    requires
        page.len() >= 2,
        page[0] == '{',
        page[1] == kind,
        kind == '{' || kind == '%',
        kind == '%' ==> {
            &&& 2 <= word < page.len()
            &&& forall|m: int|
                2 <= m < word ==> (m == 2 && page[m] == '-') || crate::page::is_blank(
                    #[trigger] page[m],
                )
            &&& !crate::page::is_blank(page[word])
            &&& page[word] != '-'
            &&& page[word] != 'r'
        },
    ensures
        crate::page::hands_list_to_test(page) == crate::page::lists_from(
            page,
            2,
            crate::page::Place::Tag { opened: false },
        ),
{
    reveal_strlit("raw");
    if kind == '%' {
        crate::page::lemma_word_starts(page, 0, word);
        if word + 3 <= page.len() {
            assert(page.subrange(word, word + 3)[0] == page[word]);
        }
    }
}

/// A tag without strings in which no `[` follows a `(` or a `,` does not matter:
/// one that starts with `{{`, or with `{%` and, behind a dash, if there is one,
/// and blanks, a word that does not start as `raw` does.
pub proof fn lemma_a_plain_tag_hands_no_list(
    kind: char,
    word: int,
    inner: Seq<char>,
    page: &str,
    whole: &str,
    of_page: bool,
    of_whole: bool,
)
    requires
        kind == '{' || kind == '%',
        kind == '%' ==> {
            &&& 0 <= word < inner.len()
            &&& forall|m: int|
                0 <= m < word ==> {
                    ||| m == 0 && #[trigger] inner[m] == '-'
                    ||| inner[m] == ' ' || inner[m] == '\t' || inner[m] == '\r' || inner[m] == '\n'
                }
            &&& inner[word] != ' ' && inner[word] != '\t' && inner[word] != '\r'
            &&& inner[word] != '\n' && inner[word] != '-' && inner[word] != 'r'
        },
        forall|m: int|
            0 <= m < inner.len() ==> {
                &&& #[trigger] inner[m] != '}'
                &&& inner[m] != '"'
                &&& inner[m] != '\''
                &&& inner[m] != '`'
            },
        forall|p: int, m: int|
            #![trigger inner[p], inner[m]]
            0 <= p < m < inner.len() && (inner[p] == '(' || inner[p] == ',') && inner[m] == '['
                ==> exists|q: int|
                p < q < m && #[trigger] inner[q] != ' ' && inner[q] != '\t' && inner[q] != '\r'
                    && inner[q] != '\n',
        whole@ == seq!['{', kind] + inner + seq![if kind == '{' {
            '}'
        } else {
            '%'
        }, '}'] + page@,
        call_ensures(crate::page::list_in_test, (page,), of_page),
        call_ensures(crate::page::list_in_test, (whole,), of_whole),
    ensures
        of_page == of_whole,
{
    let end = if kind == '{' {
        '}'
    } else {
        '%'
    };
    let start = seq!['{', kind] + inner + seq![end, '}'];
    let n = inner.len() as int;
    let w = whole@;
    assert(w[0] == '{' && w[1] == kind);
    assert(w[2 + n] == end && w[3 + n] == '}');
    assert forall|m: int| 0 <= m < n implies w[2 + m] == #[trigger] inner[m] by {
    }
    crate::page::lemma_over_part(w, 2, inner, n as nat, false);
    lemma_no_list_in(inner, n as nat);
    if kind == '%' {
        assert forall|m: int| 2 <= m < 2 + word implies (m == 2 && w[m] == '-')
            || crate::page::is_blank(#[trigger] w[m]) by {
            assert(w[m] == inner[m - 2]);
        }
        assert(w[2 + word] == inner[word]);
    }
    lemma_tag_opens(w, kind, 2 + word);
    let opened = crate::page::over_part(inner, n as nat, false)->Some_0;
    if kind == '{' {
        assert(crate::page::lists_from(w, 2 + n, crate::page::Place::Tag { opened })
            == crate::page::lists_from(w, 3 + n, crate::page::Place::Text));
        crate::page::lemma_over_text(w, 3 + n, 1);
    } else {
        assert(crate::page::lists_from(w, 2 + n, crate::page::Place::Tag { opened })
            == crate::page::lists_from(w, 3 + n, crate::page::Place::Tag { opened: false }));
    }
    crate::page::lemma_shifted(start, page@, 0, crate::page::Place::Text);
}

/// An argument follows the first `n` characters, because of that at `p`.
spec fn is_opened_by(part: Seq<char>, p: int, n: int) -> bool {
    &&& 0 <= p < n
    &&& part[p] == '(' || part[p] == ','
    &&& forall|q: int| p < q < n ==> crate::page::is_blank(#[trigger] part[q])
}

/// A part of a tag in which no `[` follows a `(` or a `,` hands no list over.
proof fn lemma_no_list_in(part: Seq<char>, n: nat)
    requires
        n <= part.len(),
        forall|p: int, m: int|
            #![trigger part[p], part[m]]
            0 <= p < m < part.len() && (part[p] == '(' || part[p] == ',') && part[m] == '['
                ==> exists|q: int| p < q < m && !crate::page::is_blank(#[trigger] part[q]),
    ensures
        crate::page::over_part(part, n, false) is Some,
        crate::page::over_part(part, n, false)->Some_0 ==> exists|p: int|
            is_opened_by(part, p, n as int),
    decreases n,
{
    if n > 0 {
        let k = n - 1;
        lemma_no_list_in(part, k as nat);
        let opened = crate::page::over_part(part, k as nat, false)->Some_0;
        if opened {
            let p = choose|p: int| is_opened_by(part, p, k);
            if part[k] == '[' {
                assert(part[p] == '(' || part[p] == ',');
            }
            if crate::page::is_blank(part[k]) {
                assert(is_opened_by(part, p, n as int));
            }
        }
        if part[k] == '(' || part[k] == ',' {
            assert(is_opened_by(part, k, n as int));
        }
    }
}

/// In a tag, a `[` behind a `(` or a `,` and blanks is found, whatever comes
/// after it.
pub proof fn lemma_a_list_argument_is_found(
    kind: char,
    word: int,
    inner: Seq<char>,
    blanks: Seq<char>,
    rest: Seq<char>,
    page: &str,
    found: bool,
)
    requires
        kind == '{' || kind == '%',
        kind == '%' ==> {
            &&& 0 <= word < inner.len()
            &&& forall|m: int|
                0 <= m < word ==> {
                    ||| m == 0 && #[trigger] inner[m] == '-'
                    ||| inner[m] == ' ' || inner[m] == '\t' || inner[m] == '\r' || inner[m] == '\n'
                }
            &&& inner[word] != ' ' && inner[word] != '\t' && inner[word] != '\r'
            &&& inner[word] != '\n' && inner[word] != '-' && inner[word] != 'r'
        },
        inner.len() > 0,
        inner.last() == '(' || inner.last() == ',',
        forall|m: int|
            0 <= m < inner.len() ==> {
                &&& #[trigger] inner[m] != '}'
                &&& inner[m] != '"'
                &&& inner[m] != '\''
                &&& inner[m] != '`'
            },
        forall|m: int|
            0 <= m < blanks.len() ==> {
                ||| #[trigger] blanks[m] == ' '
                ||| blanks[m] == '\t'
                ||| blanks[m] == '\r'
                ||| blanks[m] == '\n'
            },
        page@ == seq!['{', kind] + inner + blanks + seq!['['] + rest,
        call_ensures(crate::page::list_in_test, (page,), found),
    ensures
        found,
{
    let n = inner.len() as int;
    let k = blanks.len() as int;
    let w = page@;
    assert(w[0] == '{' && w[1] == kind);
    assert(w[2 + n + k] == '[');
    assert forall|m: int| 0 <= m < n implies w[2 + m] == #[trigger] inner[m] by {
    }
    assert forall|m: int| 2 + n <= m < 2 + n + k implies crate::page::is_blank(
        #[trigger] w[m],
    ) by {
        assert(w[m] == blanks[m - 2 - n]);
    }
    crate::page::lemma_over_part(w, 2, inner, n as nat, false);
    crate::page::lemma_over_blanks(w, 2 + n, k as nat);
    if kind == '%' {
        assert forall|m: int| 2 <= m < 2 + word implies (m == 2 && w[m] == '-')
            || crate::page::is_blank(#[trigger] w[m]) by {
            assert(w[m] == inner[m - 2]);
        }
        assert(w[2 + word] == inner[word]);
    }
    lemma_tag_opens(w, kind, 2 + word);
}

/// In a tag, a string counts as any other value, whatever it holds.
pub proof fn lemma_a_string_is_a_value(
    kind: char,
    word: int,
    inner: Seq<char>,
    quote: char,
    text: Seq<char>,
    rest: Seq<char>,
    with_string: &str,
    with_number: &str,
    of_string: bool,
    of_number: bool,
)
    requires
        kind == '{' || kind == '%',
        kind == '%' ==> {
            &&& 0 <= word < inner.len()
            &&& forall|m: int|
                0 <= m < word ==> {
                    ||| m == 0 && #[trigger] inner[m] == '-'
                    ||| inner[m] == ' ' || inner[m] == '\t' || inner[m] == '\r' || inner[m] == '\n'
                }
            &&& inner[word] != ' ' && inner[word] != '\t' && inner[word] != '\r'
            &&& inner[word] != '\n' && inner[word] != '-' && inner[word] != 'r'
        },
        quote == '"' || quote == '\'' || quote == '`',
        !text.contains(quote),
        forall|m: int|
            0 <= m < inner.len() ==> {
                &&& #[trigger] inner[m] != '}'
                &&& inner[m] != '"'
                &&& inner[m] != '\''
                &&& inner[m] != '`'
            },
        with_string@ == (seq!['{', kind] + inner + seq![quote] + text + seq![quote]) + rest,
        with_number@ == (seq!['{', kind] + inner + seq!['0']) + rest,
        call_ensures(crate::page::list_in_test, (with_string,), of_string),
        call_ensures(crate::page::list_in_test, (with_number,), of_number),
    ensures
        of_string == of_number,
{
    let a = seq!['{', kind] + inner + seq![quote] + text + seq![quote];
    let b = seq!['{', kind] + inner + seq!['0'];
    let v = with_string@;
    let w = with_number@;
    let n = inner.len() as int;
    let k = text.len() as int;
    assert(v[0] == '{' && v[1] == kind);
    assert(w[0] == '{' && w[1] == kind);
    assert(w[2 + n] == '0');
    assert(v[2 + n] == quote);
    assert(v[3 + n + k] == quote);
    assert forall|m: int| 0 <= m < n implies v[2 + m] == #[trigger] inner[m] by {
    }
    assert forall|m: int| 0 <= m < n implies w[2 + m] == #[trigger] inner[m] by {
    }
    crate::page::lemma_over_part(v, 2, inner, n as nat, false);
    crate::page::lemma_over_part(w, 2, inner, n as nat, false);
    assert forall|m: int| 3 + n <= m < 3 + n + k implies v[m] != quote by {
        assert(v[m] == text[m - 3 - n]);
        assert(text.contains(text[m - 3 - n]));
    }
    crate::page::lemma_over_string(v, 3 + n, k as nat, quote);
    if kind == '%' {
        assert forall|m: int| 2 <= m < 2 + word implies (m == 2 && v[m] == '-')
            || crate::page::is_blank(#[trigger] v[m]) by {
            assert(v[m] == inner[m - 2]);
        }
        assert(v[2 + word] == inner[word]);
    }
    lemma_tag_opens(v, kind, 2 + word);
    if kind == '%' {
        assert forall|m: int| 2 <= m < 2 + word implies (m == 2 && w[m] == '-')
            || crate::page::is_blank(#[trigger] w[m]) by {
            assert(w[m] == inner[m - 2]);
        }
        assert(w[2 + word] == inner[word]);
    }
    lemma_tag_opens(w, kind, 2 + word);
    crate::page::lemma_shifted(a, rest, 0, crate::page::Place::Tag { opened: false });
    crate::page::lemma_shifted(b, rest, 0, crate::page::Place::Tag { opened: false });
}

/// Credentials are asked for if and only if the settings switch that on, whatever
/// else they hold; they are those of the settings, and the name is looked for
/// first.
pub proof fn lemma_credentials(cfg: &Config, r: Result<Option<Credentials>, MissingCredential>)
    requires
        call_ensures(crate::auth::credentials, (cfg,), r),
    ensures
        ({
            let strings = crate::settings::strings_of(*cfg);
            let bools = crate::settings::bools_of(*cfg);
            let asked = bools.contains_key("apiserver.basicAuth.enabled"@)
                && bools["apiserver.basicAuth.enabled"@];
            let user = strings.contains_key("apiserver.basicAuth.username"@);
            let password = strings.contains_key("apiserver.basicAuth.password"@);
            match r {
                Ok(None) => !asked,
                Ok(Some(c)) => {
                    &&& asked && user && password
                    &&& c.username@ == strings["apiserver.basicAuth.username"@]
                    &&& c.password@ == strings["apiserver.basicAuth.password"@]
                },
                Err(MissingCredential::Username(_)) => asked && !user,
                Err(MissingCredential::Password(_)) => asked && user && !password,
            }
        }),
{
}

/// What is protected keeps all that it holds, and asks for what `credentials`
/// gives, if it gives anything.
pub proof fn lemma_protect(
    router: Router,
    cfg: &Config,
    asked: Result<Option<Credentials>, MissingCredential>,
    r: Result<Router, MissingCredential>,
)
    requires
        call_ensures(crate::auth::credentials, (cfg,), asked),
        call_ensures(crate::auth::protect, (router, cfg), r),
    ensures
        match (asked, r) {
            (Ok(None), Ok(site)) => {
                &&& crate::web::content_of(site) == crate::web::content_of(router)
                &&& crate::web::layers_of(site) == crate::web::layers_of(router)
            },
            (Ok(Some(c)), Ok(site)) => {
                &&& crate::web::content_of(site) == crate::web::content_of(router)
                &&& crate::web::layers_of(site) == crate::web::layers_of(router).push(
                    Layer::BasicAuth { username: c.username@, password: c.password@ },
                )
            },
            (Err(MissingCredential::Username(_)), Err(MissingCredential::Username(_))) => true,
            (Err(MissingCredential::Password(_)), Err(MissingCredential::Password(_))) => true,
            _ => false,
        },
{
}

} // verus!
