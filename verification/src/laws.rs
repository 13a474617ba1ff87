//! What holds of the site as a whole.
use config::Config;
use vstd::prelude::*;

use crate::cache::{DOCS_CACHE_MAX_AGE, STATIC_CACHE_MAX_AGE};
use crate::router::Handlers;
use crate::site::{Layer, Slot};

verus! {

/// The site can only be read: wherever it answers, it answers `GET` and
/// `HEAD` requests and no others.
pub proof fn lemma_site_is_read_only(
    h: Handlers,
    static_dir: Seq<char>,
    docs_dir: Seq<char>,
    slot: Slot,
    method: Seq<char>,
)
    requires
        crate::router::site_content(h, static_dir, docs_dir).contains_key(slot),
        crate::router::site_content(h, static_dir, docs_dir)[slot].contains_key(method),
    ensures
        method == "GET"@ || method == "HEAD"@,
{
}

/// A route is that of a page, or that of the API under its prefix.
proof fn lemma_page_or_api(h: Handlers, path: Seq<char>) -> (p: Seq<char>)
    requires
        crate::router::routed_content(h).contains_key(Slot::Route(path)),
    ensures
        crate::router::page_content(h).contains_key(Slot::Route(path)) || (path == "/api"@ + p
            && crate::router::api_content(h).contains_key(Slot::Route(p))),
{
    crate::router::lemma_nested_api(h);
    let p = path.skip("/api"@.len() as int);
    if !crate::router::page_content(h).contains_key(Slot::Route(path)) {
        assert(crate::site::under("/api"@, crate::router::api_content(h)).contains_key(
            Slot::Route(path),
        ));
        assert(path =~= path.take("/api"@.len() as int) + p);
    }
    p
}

proof fn lemma_pages_fit(h: Handlers, a: Seq<char>, b: Seq<char>)
    requires
        crate::router::page_content(h).contains_key(Slot::Route(a)),
        crate::router::page_content(h).contains_key(Slot::Route(b)),
        a != b,
    ensures
        crate::pattern::compatible(a, b),
{
    crate::table::lemma_page_patterns();
    if crate::pattern::compatible(b, a) {
        crate::pattern::lemma_compatible_symmetric(b, a);
    }
}

proof fn lemma_api_fits_together(h: Handlers, a: Seq<char>, b: Seq<char>)
    requires
        crate::router::api_content(h).contains_key(Slot::Route(a)),
        crate::router::api_content(h).contains_key(Slot::Route(b)),
        a != b,
    ensures
        crate::pattern::is_pattern(a),
        crate::pattern::is_pattern(b),
        crate::pattern::compatible(a, b),
{
    crate::table::lemma_api_patterns();
    if crate::pattern::compatible(b, a) {
        crate::pattern::lemma_compatible_symmetric(b, a);
    }
}

/// No two routes of the site clash: a router can hold any two of them, in
/// whichever order they come.
pub proof fn lemma_routes_fit_together(h: Handlers, a: Seq<char>, b: Seq<char>)
    requires
        crate::router::routed_content(h).contains_key(Slot::Route(a)),
        crate::router::routed_content(h).contains_key(Slot::Route(b)),
        a != b,
    ensures
        crate::pattern::compatible(a, b),
{
    let p = lemma_page_or_api(h, a);
    let q = lemma_page_or_api(h, b);
    crate::router::lemma_api_fits(h);
    let pages = crate::router::page_content(h);
    if pages.contains_key(Slot::Route(a)) {
        if pages.contains_key(Slot::Route(b)) {
            lemma_pages_fit(h, a, b);
        }
    } else if pages.contains_key(Slot::Route(b)) {
        crate::pattern::lemma_compatible_symmetric(b, a);
    } else {
        lemma_api_fits_together(h, p, q);
        crate::pattern::lemma_compatible_after_prefix("/api"@, p, q);
    }
}

/// The API lies under its own prefix: what the site answers at `/api` and a
/// path is what the API answers at that path, and it answers nothing else
/// there.
pub proof fn lemma_api_under_its_prefix(
    h: Handlers,
    static_dir: Seq<char>,
    docs_dir: Seq<char>,
    path: Seq<char>,
)
    ensures
        crate::router::site_content(h, static_dir, docs_dir).contains_key(
            Slot::Route("/api"@ + path),
        ) <==> crate::router::api_content(h).contains_key(Slot::Route(path)),
        crate::router::api_content(h).contains_key(Slot::Route(path))
            ==> crate::router::site_content(h, static_dir, docs_dir)[Slot::Route("/api"@ + path)]
            == crate::router::api_content(h)[Slot::Route(path)],
{
    crate::router::lemma_nested_api(h);
    crate::table::lemma_prefixes();
    crate::table::lemma_page_patterns();
    let full = "/api"@ + path;
    assert(full.take(4) =~= "/api"@);
    assert(full.skip(4) =~= path);
    assert(full[1] == 'a');
}

/// The pages lie beside the API: what the site answers at the path of a page
/// is that page.
pub proof fn lemma_pages_beside_the_api(
    h: Handlers,
    static_dir: Seq<char>,
    docs_dir: Seq<char>,
    path: Seq<char>,
)
    requires
        crate::router::page_content(h).contains_key(Slot::Route(path)),
    ensures
        crate::router::site_content(h, static_dir, docs_dir).contains_key(Slot::Route(path)),
        crate::router::site_content(h, static_dir, docs_dir)[Slot::Route(path)]
            == crate::router::page_content(h)[Slot::Route(path)],
{
    crate::router::lemma_nested_api(h);
    crate::table::lemma_prefixes();
    crate::table::lemma_page_patterns();
    let api = crate::site::under("/api"@, crate::router::api_content(h));
    if api.contains_key(Slot::Route(path)) {
        assert(path[1] == path.take(4)[1]);
    }
}

/// No route of the API hides another: each handler answers at its own path.
pub proof fn lemma_each_api_handler_has_its_path(h: Handlers)
    ensures
        crate::router::api_content(h)[Slot::Route(
            "/projects/search"@,
        )] == crate::router::answered_by(h.search_projects),
        crate::router::api_content(h)[Slot::Route(
            "/projects/:foundation/:project"@,
        )] == crate::router::answered_by(h.project),
        crate::router::api_content(h)[Slot::Route(
            "/projects/:foundation/:project/badge"@,
        )] == crate::router::answered_by(h.badge),
        crate::router::api_content(h)[Slot::Route(
            "/projects/:foundation/:project/report-summary"@,
        )] == crate::router::answered_by(h.report_summary_svg),
        crate::router::api_content(h)[Slot::Route(
            "/projects/:foundation/:project/snapshots/:date"@,
        )] == crate::router::answered_by(h.project_snapshot),
        crate::router::api_content(h)[Slot::Route(
            "/projects/:foundation/:project/:repository/report.md"@,
        )] == crate::router::answered_by(h.repository_report_md),
        crate::router::api_content(h)[Slot::Route(
            "/stats"@,
        )] == crate::router::answered_by(h.stats),
{
    crate::table::lemma_api_patterns();
}

/// No page hides another: each handler answers at its own path.
pub proof fn lemma_each_page_has_its_path(h: Handlers)
    ensures
        crate::router::page_content(h)[Slot::Route(
            "/"@,
        )] == crate::router::answered_by(h.index),
        crate::router::page_content(h)[Slot::Route(
            "/projects/:foundation/:project"@,
        )] == crate::router::answered_by(h.index_project),
        crate::router::page_content(h)[Slot::Route(
            "/projects/:foundation/:project/report-summary.png"@,
        )] == crate::router::answered_by(h.report_summary_png),
        crate::router::page_content(h)[Slot::Route(
            "/data/repositories.csv"@,
        )] == crate::router::answered_by(h.repositories_checks),
{
    crate::table::lemma_page_patterns();
}

/// A path that nothing else answers gets what `/` gets.
pub proof fn lemma_fallback_is_the_index(
    h: Handlers,
    static_dir: Seq<char>,
    docs_dir: Seq<char>,
)
    ensures
        crate::router::site_content(h, static_dir, docs_dir).contains_key(Slot::Fallback),
        crate::router::site_content(h, static_dir, docs_dir).contains_key(Slot::Route("/"@)),
        crate::router::site_content(h, static_dir, docs_dir)[Slot::Fallback]
            == crate::router::site_content(h, static_dir, docs_dir)[Slot::Route("/"@)],
{
    lemma_each_page_has_its_path(h);
    lemma_pages_beside_the_api(h, static_dir, docs_dir, "/"@);
}

/// No route is out of reach behind the files: none lies beneath `/docs` or
/// `/static`.
pub proof fn lemma_files_hide_no_route(h: Handlers)
    ensures
        crate::site::clear_of(crate::router::routed_content(h), "/docs"@),
        crate::site::clear_of(crate::router::routed_content(h), "/static"@),
{
    crate::router::lemma_clear_of_files(h);
}

/// Two routes of the site take a path in common only where one is that of the
/// snapshots and the other that of the reports of repositories.
pub proof fn lemma_where_routes_overlap(h: Handlers, a: Seq<char>, b: Seq<char>, path: Seq<char>)
    requires
        crate::router::routed_content(h).contains_key(Slot::Route(a)),
        crate::router::routed_content(h).contains_key(Slot::Route(b)),
        a != b,
        crate::matching::takes(a, path),
        crate::matching::takes(b, path),
    ensures
        ({
            let snapshot = "/api/projects/:foundation/:project/snapshots/:date"@;
            let report_md = "/api/projects/:foundation/:project/:repository/report.md"@;
            (a == snapshot && b == report_md) || (a == report_md && b == snapshot)
        }),
{
    crate::table::lemma_segments();
    crate::matching::lemma_same_slashes(a, 0, path, 0);
    crate::matching::lemma_same_slashes(b, 0, path, 0);
    if a.len() > 1 && b.len() > 1 && a[1] != b[1] {
        crate::matching::lemma_apart(a, b, path, 1);
    }
    if crate::matching::slashes(a, 0) == 5 {
        crate::matching::lemma_apart(a, b, path, 5);
    }
}

/// A path that some route of the site takes is answered by a route. (By
/// `lemma_chosen_is_unique`, by exactly one.)
pub proof fn lemma_a_route_is_chosen(h: Handlers, pattern: Seq<char>, path: Seq<char>) -> (chosen:
    Seq<char>)
    requires
        crate::router::routed_content(h).contains_key(Slot::Route(pattern)),
        crate::matching::takes(pattern, path),
    ensures
        crate::matching::is_chosen(crate::router::routed_content(h), chosen, path),
{
    let content = crate::router::routed_content(h);
    let snapshot = "/api/projects/:foundation/:project/snapshots/:date"@;
    let chosen = if crate::matching::takes(snapshot, path) {
        snapshot
    } else {
        pattern
    };
    crate::table::lemma_snapshot_before_report_md();
    assert forall|other: Seq<char>| #[trigger]
        content.contains_key(Slot::Route(other)) && other != chosen && crate::matching::takes(
            other,
            path,
        ) implies crate::matching::goes_before(chosen, other) by {
        lemma_where_routes_overlap(h, chosen, other, path);
    }
    chosen
}

/// Every handler is reached, whatever stands in place of the captures of its
/// path: its route answers, and captures those values. The one exception is a
/// report of a repository that is also a snapshot, which goes first.
pub proof fn lemma_handlers_are_reached(h: Handlers, pattern: Seq<char>, values: Seq<Seq<char>>)
    requires
        crate::router::routed_content(h).contains_key(Slot::Route(pattern)),
        crate::matching::fits(pattern, values),
    ensures
        ({
            let content = crate::router::routed_content(h);
            let path = crate::matching::filled(pattern, values);
            let snapshot = "/api/projects/:foundation/:project/snapshots/:date"@;
            let report_md = "/api/projects/:foundation/:project/:repository/report.md"@;
            &&& crate::matching::takes(pattern, path)
            &&& crate::matching::captured(pattern, path) == values
            &&& crate::matching::is_chosen(content, pattern, path) || (pattern == report_md
                && crate::matching::is_chosen(content, snapshot, path))
        }),
{
    let path = crate::matching::filled(pattern, values);
    crate::matching::lemma_takes_filled(pattern, values);
    let chosen = lemma_a_route_is_chosen(h, pattern, path);
    let snapshot = "/api/projects/:foundation/:project/snapshots/:date"@;
    if chosen != pattern {
        lemma_where_routes_overlap(h, chosen, pattern, path);
        if pattern == snapshot {
            crate::table::lemma_snapshot_before_report_md();
            crate::matching::lemma_goes_before_one_way(pattern, chosen);
        }
    }
}

/// No route takes the path of a file: none that lies beneath `/docs` or
/// `/static`.
pub proof fn lemma_no_route_takes_a_file(h: Handlers, pattern: Seq<char>, path: Seq<char>)
    requires
        crate::router::routed_content(h).contains_key(Slot::Route(pattern)),
        crate::pattern::beneath("/docs"@, path) || crate::pattern::beneath("/static"@, path),
    ensures
        !crate::matching::takes(pattern, path),
{
    crate::table::lemma_segments();
    crate::table::lemma_prefixes();
    crate::table::lemma_page_patterns();
    if crate::matching::takes(pattern, path) {
        let n: int = if crate::pattern::beneath("/docs"@, path) {
            5
        } else {
            7
        };
        assert(path[0] == path.take(n)[0]);
        assert(path[1] == path.take(n)[1]);
        assert(path[2] == path.take(n)[2]);
        reveal_with_fuel(crate::matching::past_slashes, 3);
        if pattern == "/"@ {
            assert(!crate::matching::takes_from(pattern, 1, path, 1));
        } else {
            crate::matching::lemma_takes_past(pattern, 0, path, 0, 1);
            assert(crate::matching::takes_from(pattern, 1, path, 1));
            assert(pattern[1] == path[1]);
            assert(crate::matching::takes_from(pattern, 2, path, 2));
        }
    }
}

/// Every path is answered at some place of the site.
pub proof fn lemma_every_path_is_answered(
    h: Handlers,
    static_dir: Seq<char>,
    docs_dir: Seq<char>,
    path: Seq<char>,
) -> (slot: Slot)
    ensures
        crate::matching::is_answered_at(
            crate::router::site_content(h, static_dir, docs_dir),
            slot,
            path,
        ),
{
    let content = crate::router::site_content(h, static_dir, docs_dir);
    let routed = crate::router::routed_content(h);
    crate::router::lemma_clear_of_files(h);
    assert forall|prefix: Seq<char>| #[trigger]
        content.contains_key(Slot::Nest(prefix)) implies prefix == "/docs"@ || prefix
        == "/static"@ by {
        assert(!routed.contains_key(Slot::Nest(prefix)));
    }
    if !crate::matching::is_left_by_routes(content, path) {
        let pattern = choose|pattern: Seq<char>| #[trigger]
            content.contains_key(Slot::Route(pattern)) && crate::matching::takes(pattern, path);
        let chosen = lemma_a_route_is_chosen(h, pattern, path);
        assert forall|other: Seq<char>| #[trigger]
            content.contains_key(Slot::Route(other)) && other != chosen && crate::matching::takes(
                other,
                path,
            ) implies crate::matching::goes_before(chosen, other) by {
            assert(routed.contains_key(Slot::Route(other)));
        }
        if crate::pattern::beneath("/docs"@, path) || crate::pattern::beneath("/static"@, path) {
            lemma_no_route_takes_a_file(h, chosen, path);
        }
        Slot::Route(chosen)
    } else if crate::pattern::beneath("/docs"@, path) {
        Slot::Nest("/docs"@)
    } else if crate::pattern::beneath("/static"@, path) {
        Slot::Nest("/static"@)
    } else {
        Slot::Fallback
    }
}

/// Every path is answered at one place of the site only.
pub proof fn lemma_a_path_is_answered_once(
    h: Handlers,
    static_dir: Seq<char>,
    docs_dir: Seq<char>,
    path: Seq<char>,
    a: Slot,
    b: Slot,
)
    requires
        crate::matching::is_answered_at(
            crate::router::site_content(h, static_dir, docs_dir),
            a,
            path,
        ),
        crate::matching::is_answered_at(
            crate::router::site_content(h, static_dir, docs_dir),
            b,
            path,
        ),
    ensures
        a == b,
{
    let content = crate::router::site_content(h, static_dir, docs_dir);
    match (a, b) {
        (Slot::Route(p), Slot::Route(q)) => {
            crate::matching::lemma_chosen_is_unique(content, p, q, path);
        },
        (Slot::Nest(m), Slot::Nest(n)) => {
            crate::router::lemma_clear_of_files(h);
            crate::table::lemma_prefixes();
            assert(path[1] == path.take(m.len() as int)[1]);
            assert(path[1] == path.take(n.len() as int)[1]);
        },
        _ => {},
    }
}

/// The files are reached: a path beneath `/docs` or `/static` is answered
/// there.
pub proof fn lemma_files_are_reached(
    h: Handlers,
    static_dir: Seq<char>,
    docs_dir: Seq<char>,
    prefix: Seq<char>,
    path: Seq<char>,
)
    requires
        prefix == "/docs"@ || prefix == "/static"@,
        crate::pattern::beneath(prefix, path),
    ensures
        crate::matching::is_answered_at(
            crate::router::site_content(h, static_dir, docs_dir),
            Slot::Nest(prefix),
            path,
        ),
{
    let content = crate::router::site_content(h, static_dir, docs_dir);
    assert forall|pattern: Seq<char>| #[trigger]
        content.contains_key(Slot::Route(pattern)) implies !crate::matching::takes(
        pattern,
        path,
    ) by {
        assert(crate::router::routed_content(h).contains_key(Slot::Route(pattern)));
        lemma_no_route_takes_a_file(h, pattern, path);
    }
}

/// The documentation is found twice: a file of it has the same place whether it
/// is asked for beneath `/docs` or beneath `/static/docs`. Only how long it may
/// be kept differs.
pub proof fn lemma_documentation_is_static_too(h: Handlers, static_dir: Seq<char>, file: Seq<char>)
    requires
        file.len() > 0 ==> file[0] != '/',
    ensures
        ({
            let docs_dir = crate::paths::joined(static_dir, "docs"@);
            let content = crate::router::site_content(h, static_dir, docs_dir);
            &&& crate::paths::joined(docs_dir, file) == crate::paths::joined(
                static_dir,
                "docs/"@ + file,
            )
            &&& content.contains_key(Slot::Nest("/docs"@))
            &&& content[Slot::Nest("/docs"@)] == crate::router::answered_from(
                docs_dir,
                DOCS_CACHE_MAX_AGE as nat,
            )
            &&& content.contains_key(Slot::Nest("/static"@))
            &&& content[Slot::Nest("/static"@)] == crate::router::answered_from(
                static_dir,
                STATIC_CACHE_MAX_AGE as nat,
            )
        }),
{
    reveal_strlit("docs");
    reveal_strlit("docs/");
    crate::table::lemma_prefixes();
    assert("docs/"@ =~= "docs"@.push('/'));
    let docs_dir = crate::paths::joined(static_dir, "docs"@);
    assert(crate::paths::joined(docs_dir, file) =~= crate::paths::joined(
        static_dir,
        "docs/"@ + file,
    ));
}

/// Where credentials are asked for, a request has to present them before any
/// other layer sees it.
pub proof fn lemma_credentials_come_first(layers: Seq<Layer>, cfg: Config)
    requires
        crate::auth::is_enabled(cfg),
    ensures
        crate::auth::protected(layers, cfg).len() > 0,
        crate::auth::protected(layers, cfg).last() == crate::auth::auth_layer(cfg),
        crate::auth::protected(layers, cfg).drop_last() == layers,
{
    assert(crate::auth::protected(layers, cfg).drop_last() =~= layers);
}

/// The site is open unless the settings say otherwise: a setting that is
/// missing, or no boolean, asks for no credentials.
pub proof fn lemma_open_by_default(layers: Seq<Layer>, cfg: Config)
    requires
        !crate::settings::bools_of(cfg).contains_key(crate::auth::enabled_key()),
    ensures
        crate::auth::protected(layers, cfg) == layers,
        forall|missing: crate::auth::MissingCredential|
            !crate::auth::is_missing(missing, cfg),
{
}

} // verus!
