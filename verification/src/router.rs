//! The router of the API server.
use std::future::Future;
use std::sync::Arc;

use axum::body::Body;
use axum::http::header::InvalidHeaderValue;
use axum::http::Request;
use axum::middleware::Next;
use axum::response::Response;
use axum::routing::MethodRouter;
use axum::Router;
use config::{Config, ConfigError};
use vstd::prelude::*;

use crate::auth::{protect, MissingCredential};
use crate::cache::{cache_control_value, DOCS_CACHE_MAX_AGE, STATIC_CACHE_MAX_AGE};
use crate::paths::{site_paths, SitePaths};
use crate::site::{Answers, Content, Files, Layer, Slot, Sources};
use crate::templates::{index_templates, TemplateError};
use crate::web::{
    another, cache_control, fallback, get, get_files, handle_error, layer_database, layer_metrics,
    layer_settings, layer_templates, layer_trace, nest_router, nest_service, new_router,
    overriding, route, serve_dir,
};

verus! {

/// The handlers of the site. Of what a handler answers, the site uses `GET`
/// and `HEAD`.
pub struct Handlers {
    /// The index page.
    pub index: MethodRouter,
    /// The index page, about one project.
    pub index_project: MethodRouter,
    /// The summary of a project's report, as a picture.
    pub report_summary_png: MethodRouter,
    /// The checks of all repositories, as a table.
    pub repositories_checks: MethodRouter,
    /// The projects that match a query.
    pub search_projects: MethodRouter,
    /// A project.
    pub project: MethodRouter,
    /// A project's badge.
    pub badge: MethodRouter,
    /// The summary of a project's report, as a drawing.
    pub report_summary_svg: MethodRouter,
    /// A project as it was on a day.
    pub project_snapshot: MethodRouter,
    /// The report of a repository.
    pub repository_report_md: MethodRouter,
    /// Statistics of all projects.
    pub stats: MethodRouter,
}

/// Why the site could not be built.
pub enum SetupError {
    /// The settings name no directory of static files.
    StaticPath(ConfigError),
    /// The index page is no template.
    Template(TemplateError),
    /// A cache duration is no header value.
    CacheControl(InvalidHeaderValue),
    /// Credentials are asked for, but not set.
    Auth(MissingCredential),
}

/// `GET` and `HEAD` requests are answered by the handler.
pub open spec fn answered_by(handler: MethodRouter) -> Answers {
    crate::site::get_only(crate::web::answers_of(handler))
}

/// `GET` and `HEAD` requests are answered with the files of `dir`, which
/// clients may keep for `seconds`.
pub open spec fn answered_from(dir: Seq<char>, seconds: nat) -> Answers {
    crate::web::recovered(
        crate::site::got_from(
            Files {
                dir,
                header: "cache-control"@,
                value: crate::cache::max_age_text(seconds),
            },
        ),
    )
}

/// The routes of the API, as the API sees them.
pub open spec fn api_content(h: Handlers) -> Content {
    Content::empty().insert(
        Slot::Route("/projects/search"@),
        answered_by(h.search_projects),
    ).insert(Slot::Route("/projects/:foundation/:project"@), answered_by(h.project)).insert(
        Slot::Route("/projects/:foundation/:project/badge"@),
        answered_by(h.badge),
    ).insert(
        Slot::Route("/projects/:foundation/:project/report-summary"@),
        answered_by(h.report_summary_svg),
    ).insert(
        Slot::Route("/projects/:foundation/:project/snapshots/:date"@),
        answered_by(h.project_snapshot),
    ).insert(
        Slot::Route("/projects/:foundation/:project/:repository/report.md"@),
        answered_by(h.repository_report_md),
    ).insert(Slot::Route("/stats"@), answered_by(h.stats))
}

/// The routes of the pages.
pub open spec fn page_content(h: Handlers) -> Content {
    Content::empty().insert(Slot::Route("/"@), answered_by(h.index)).insert(
        Slot::Route("/projects/:foundation/:project"@),
        answered_by(h.index_project),
    ).insert(
        Slot::Route("/projects/:foundation/:project/report-summary.png"@),
        answered_by(h.report_summary_png),
    ).insert(Slot::Route("/data/repositories.csv"@), answered_by(h.repositories_checks))
}

/// The routes of the pages and of the API.
pub open spec fn routed_content(h: Handlers) -> Content {
    page_content(h).insert(
        Slot::Route("/api/projects/search"@),
        answered_by(h.search_projects),
    ).insert(Slot::Route("/api/projects/:foundation/:project"@), answered_by(h.project)).insert(
        Slot::Route("/api/projects/:foundation/:project/badge"@),
        answered_by(h.badge),
    ).insert(
        Slot::Route("/api/projects/:foundation/:project/report-summary"@),
        answered_by(h.report_summary_svg),
    ).insert(
        Slot::Route("/api/projects/:foundation/:project/snapshots/:date"@),
        answered_by(h.project_snapshot),
    ).insert(
        Slot::Route("/api/projects/:foundation/:project/:repository/report.md"@),
        answered_by(h.repository_report_md),
    ).insert(Slot::Route("/api/stats"@), answered_by(h.stats))
}

/// All that the site answers, its files being in `static_dir` and `docs_dir`.
pub open spec fn site_content(h: Handlers, static_dir: Seq<char>, docs_dir: Seq<char>) -> Content {
    routed_content(h).insert(
        Slot::Nest("/docs"@),
        answered_from(docs_dir, DOCS_CACHE_MAX_AGE as nat),
    ).insert(
        Slot::Nest("/static"@),
        answered_from(static_dir, STATIC_CACHE_MAX_AGE as nat),
    ).insert(Slot::Fallback, answered_by(h.index))
}

/// A service that sends the files of `dir`, which clients may keep for
/// `seconds`.
fn files(dir: &str, seconds: usize) -> (r: Result<MethodRouter, InvalidHeaderValue>)
    ensures
        r is Ok,
        crate::web::answers_of(r->Ok_0) == answered_from(dir@, seconds as nat),
{
    match cache_control_value(seconds) {
        Ok(value) => Ok(
            handle_error(get_files(overriding(serve_dir(dir), cache_control(), value))),
        ),
        Err(err) => Err(err),
    }
}

/// The router of the API.
fn api_routes(handlers: &Handlers) -> (r: Router)
    ensures
        crate::web::content_of(r) == api_content(*handlers),
        crate::web::layers_of(r) == Seq::<Layer>::empty(),
{
    proof {
        crate::table::lemma_api_patterns();
    }
    let r = new_router();
    let r = route(r, "/projects/search", get(another(&handlers.search_projects)));
    let r = route(r, "/projects/:foundation/:project", get(another(&handlers.project)));
    let r = route(r, "/projects/:foundation/:project/badge", get(another(&handlers.badge)));
    let r = route(
        r,
        "/projects/:foundation/:project/report-summary",
        get(another(&handlers.report_summary_svg)),
    );
    let r = route(
        r,
        "/projects/:foundation/:project/snapshots/:date",
        get(another(&handlers.project_snapshot)),
    );
    let r = route(
        r,
        "/projects/:foundation/:project/:repository/report.md",
        get(another(&handlers.repository_report_md)),
    );
    route(r, "/stats", get(another(&handlers.stats)))
}

/// The router of the pages.
fn page_routes(handlers: &Handlers) -> (r: Router)
    ensures
        crate::web::content_of(r) == page_content(*handlers),
        crate::web::layers_of(r) == Seq::<Layer>::empty(),
{
    proof {
        crate::table::lemma_page_patterns();
    }
    let r = new_router();
    let r = route(r, "/", get(another(&handlers.index)));
    let r = route(r, "/projects/:foundation/:project", get(another(&handlers.index_project)));
    let r = route(
        r,
        "/projects/:foundation/:project/report-summary.png",
        get(another(&handlers.report_summary_png)),
    );
    route(r, "/data/repositories.csv", get(another(&handlers.repositories_checks)))
}

/// Nesting goes route by route.
proof fn lemma_nested_route(
    pages: Content,
    api: Content,
    path: Seq<char>,
    answers: Answers,
)
    ensures
        pages.union_prefer_right(
            crate::site::under("/api"@, api.insert(Slot::Route(path), answers)),
        ) == pages.union_prefer_right(crate::site::under("/api"@, api)).insert(
            Slot::Route("/api"@ + path),
            answers,
        ),
{
    crate::site::lemma_under_insert("/api"@, api, path, answers);
    crate::site::lemma_union_insert(
        pages,
        crate::site::under("/api"@, api),
        Slot::Route("/api"@ + path),
        answers,
    );
}

/// Nested under its prefix, the API adds its routes to those of the pages.
pub(crate) proof fn lemma_nested_api(h: Handlers)
    ensures
        page_content(h).union_prefer_right(crate::site::under("/api"@, api_content(h)))
            == routed_content(h),
{
    crate::table::lemma_api_paths();
    let pages = page_content(h);
    let c0 = Content::empty();
    crate::site::lemma_under_empty("/api"@);
    assert(pages.union_prefer_right(c0) =~= pages);
    lemma_nested_route(pages, c0, "/projects/search"@, answered_by(h.search_projects));
    let c1 = c0.insert(Slot::Route("/projects/search"@), answered_by(h.search_projects));
    lemma_nested_route(
        pages,
        c1,
        "/projects/:foundation/:project"@,
        answered_by(h.project),
    );
    let c2 = c1.insert(Slot::Route("/projects/:foundation/:project"@), answered_by(h.project));
    lemma_nested_route(
        pages,
        c2,
        "/projects/:foundation/:project/badge"@,
        answered_by(h.badge),
    );
    let c3 = c2.insert(
        Slot::Route("/projects/:foundation/:project/badge"@),
        answered_by(h.badge),
    );
    lemma_nested_route(
        pages,
        c3,
        "/projects/:foundation/:project/report-summary"@,
        answered_by(h.report_summary_svg),
    );
    let c4 = c3.insert(
        Slot::Route("/projects/:foundation/:project/report-summary"@),
        answered_by(h.report_summary_svg),
    );
    lemma_nested_route(
        pages,
        c4,
        "/projects/:foundation/:project/snapshots/:date"@,
        answered_by(h.project_snapshot),
    );
    let c5 = c4.insert(
        Slot::Route("/projects/:foundation/:project/snapshots/:date"@),
        answered_by(h.project_snapshot),
    );
    lemma_nested_route(
        pages,
        c5,
        "/projects/:foundation/:project/:repository/report.md"@,
        answered_by(h.repository_report_md),
    );
    let c6 = c5.insert(
        Slot::Route("/projects/:foundation/:project/:repository/report.md"@),
        answered_by(h.repository_report_md),
    );
    lemma_nested_route(pages, c6, "/stats"@, answered_by(h.stats));
}

/// The API can be nested next to the pages.
pub(crate) proof fn lemma_api_fits(h: Handlers)
    ensures
        crate::site::only_routes(api_content(h)),
        forall|p: Seq<char>| #[trigger]
            api_content(h).contains_key(Slot::Route(p)) ==> crate::site::admits_route(
                page_content(h),
                "/api"@ + p,
            ),
{
    crate::table::lemma_api_patterns();
    crate::table::lemma_page_patterns();
    assert forall|p: Seq<char>| #[trigger]
        api_content(h).contains_key(Slot::Route(p)) implies crate::site::admits_route(
        page_content(h),
        "/api"@ + p,
    ) by {
        crate::table::lemma_api_prefix(p);
        crate::table::lemma_after_root("/api"@ + p);
        crate::table::lemma_part_at_once("/projects/:foundation/:project"@, "/api"@ + p);
        crate::table::lemma_part_at_once(
            "/projects/:foundation/:project/report-summary.png"@,
            "/api"@ + p,
        );
        crate::table::lemma_part_at_once("/data/repositories.csv"@, "/api"@ + p);
    }
}

/// No route lies beneath `/docs` or `/static`.
pub(crate) proof fn lemma_clear_of_files(h: Handlers)
    ensures
        crate::site::clear_of(routed_content(h), "/docs"@),
        crate::site::clear_of(routed_content(h), "/static"@),
{
    crate::table::lemma_page_patterns();
    crate::table::lemma_api_patterns();
    crate::table::lemma_api_paths();
    crate::table::lemma_prefixes();
    crate::table::lemma_api_prefix("/projects/search"@);
    crate::table::lemma_api_prefix("/projects/:foundation/:project"@);
    crate::table::lemma_api_prefix("/projects/:foundation/:project/badge"@);
    crate::table::lemma_api_prefix("/projects/:foundation/:project/report-summary"@);
    crate::table::lemma_api_prefix("/projects/:foundation/:project/snapshots/:date"@);
    crate::table::lemma_api_prefix("/projects/:foundation/:project/:repository/report.md"@);
    crate::table::lemma_api_prefix("/stats"@);
    assert forall|slot: Slot| #[trigger] routed_content(h).contains_key(slot) implies slot is Route
        && !crate::pattern::beneath("/docs"@, slot->Route_0) && !crate::pattern::beneath(
        "/static"@,
        slot->Route_0,
    ) by {
        let p = slot->Route_0;
        let k: int = if p.len() > 1 && p[1] == 'd' {
            2
        } else {
            1
        };
        crate::table::lemma_not_beneath("/docs"@, p, k);
        crate::table::lemma_not_beneath("/static"@, p, 1);
    }
}

/// The documentation and the static files can be nested next to the routes.
proof fn lemma_files_fit(h: Handlers, docs: Answers)
    ensures
        crate::site::admits_nest(routed_content(h), "/docs"@),
        crate::site::admits_nest(routed_content(h).insert(Slot::Nest("/docs"@), docs), "/static"@),
{
    crate::table::lemma_prefixes();
    lemma_clear_of_files(h);
    crate::site::lemma_admits_nest(routed_content(h), "/docs"@);
    crate::site::lemma_admits_second_nest(routed_content(h), "/docs"@, docs, "/static"@);
}

/// The router of the whole site, before any layer.
pub fn routes(handlers: &Handlers, paths: &SitePaths) -> (r: Result<Router, InvalidHeaderValue>)
    ensures
        r is Ok,
        crate::web::content_of(r->Ok_0) == site_content(
            *handlers,
            paths.static_dir@,
            paths.docs_dir@,
        ),
        crate::web::layers_of(r->Ok_0) == Seq::<Layer>::empty(),
{
    let docs = match files(paths.docs_dir.as_str(), DOCS_CACHE_MAX_AGE) {
        Ok(docs) => docs,
        Err(err) => return Err(err),
    };
    let statics = match files(paths.static_dir.as_str(), STATIC_CACHE_MAX_AGE) {
        Ok(statics) => statics,
        Err(err) => return Err(err),
    };
    proof {
        crate::table::lemma_prefixes();
        lemma_api_fits(*handlers);
        lemma_nested_api(*handlers);
        lemma_files_fit(*handlers, crate::web::answers_of(docs));
    }
    let r = nest_router(page_routes(handlers), "/api", api_routes(handlers));
    let r = nest_service(r, "/docs", docs);
    let r = nest_service(r, "/static", statics);
    Ok(fallback(r, get(another(&handlers.index))))
}

/// The settings name the directory of the static files.
pub open spec fn has_static_path(cfg: Config) -> bool {
    crate::settings::strings_of(cfg).contains_key(crate::paths::static_path_key())
}

/// All that the site answers, with these settings.
pub open spec fn configured_content(cfg: Config, h: Handlers) -> Content {
    let static_dir = crate::settings::strings_of(cfg)[crate::paths::static_path_key()];
    site_content(h, static_dir, crate::paths::joined(static_dir, "docs"@))
}

/// The layers around the site before credentials are asked for, the innermost
/// first.
pub open spec fn inner_layers<D, M>(
    cfg: Config,
    db: D,
    index_html: Seq<char>,
    metrics: M,
) -> Seq<Layer> {
    seq![
        Layer::Templates {
            sources: Sources::empty().insert("index.html"@, index_html),
            escaped: Seq::empty(),
        },
        Layer::Database { number: crate::site::number_of(db) },
        Layer::Settings {
            number: crate::site::number_of(cfg),
            strings: crate::settings::strings_of(cfg),
            bools: crate::settings::bools_of(cfg),
        },
        Layer::Metrics { number: crate::site::number_of(metrics) },
        Layer::Trace,
    ]
}

/// Sets the API server's router up.
///
/// The index page is handed in as it was read from the file that `site_paths`
/// names. Handlers can get at `db`, and `metrics` sees every request that is
/// let in.
pub fn setup<D, M, F>(
    cfg: Arc<Config>,
    db: D,
    index_html: &str,
    handlers: &Handlers,
    metrics: M,
) -> (r: Result<Router, SetupError>) where
    D: Clone + Send + Sync + 'static,
    M: FnMut(Request<Body>, Next<Body>) -> F + Clone + Send + 'static,
    F: Future<Output = Response> + Send + 'static,

    ensures
        match r {
            Ok(site) => {
                &&& has_static_path(*cfg)
                &&& crate::templates::is_index_template(index_html@)
                &&& crate::auth::is_enabled(*cfg) ==> crate::auth::names_user(*cfg)
                    && crate::auth::holds_password(*cfg)
                &&& crate::web::content_of(site) == configured_content(*cfg, *handlers)
                &&& crate::web::layers_of(site) == crate::auth::protected(
                    inner_layers(*cfg, db, index_html@, metrics),
                    *cfg,
                )
            },
            Err(SetupError::StaticPath(_)) => !has_static_path(*cfg),
            Err(SetupError::Template(err)) => has_static_path(*cfg)
                && crate::templates::is_refusal(err, index_html@),
            Err(SetupError::CacheControl(_)) => false,
            Err(SetupError::Auth(missing)) => has_static_path(*cfg)
                && crate::templates::is_index_template(index_html@) && crate::auth::is_missing(
                missing,
                *cfg,
            ),
        },
{
    let paths = match site_paths(&cfg) {
        Ok(paths) => paths,
        Err(err) => return Err(SetupError::StaticPath(err)),
    };
    let templates = match index_templates(index_html) {
        Ok(templates) => Arc::new(templates),
        Err(err) => return Err(SetupError::Template(err)),
    };
    let router = match routes(handlers, &paths) {
        Ok(router) => router,
        Err(err) => return Err(SetupError::CacheControl(err)),
    };
    let router = layer_templates(router, templates);
    let router = layer_database(router, db);
    let router = layer_settings(router, &cfg);
    let router = layer_metrics(router, metrics);
    let router = layer_trace(router);
    proof {
        assert(crate::web::layers_of(router) =~= inner_layers(*cfg, db, index_html@, metrics));
    }
    match protect(router, &cfg) {
        Ok(site) => Ok(site),
        Err(missing) => Err(SetupError::Auth(missing)),
    }
}

} // verus!
