//! The parts of `http`, `axum` and `tower-http` that a site is made of.
use std::future::Future;
use std::sync::Arc;

use axum::body::Body;
use axum::http::header::InvalidHeaderValue;
use axum::http::{HeaderName, HeaderValue, Request, StatusCode};
use axum::middleware::Next;
use axum::response::Response;
use axum::routing::MethodRouter;
use axum::{Extension, Router};
use config::Config;
use tera::Tera;
use tower_http::auth::RequireAuthorizationLayer;
use tower_http::services::ServeDir;
use tower_http::set_header::SetResponseHeader;
use tower_http::trace::TraceLayer;
use vstd::prelude::*;

use crate::site::{Answer, Answers, Content, Files, Layer, Slot};

verus! {

#[verifier::external_type_specification]
#[verifier::external_body]
pub struct ExHeaderName(axum::http::HeaderName);

#[verifier::external_type_specification]
#[verifier::external_body]
pub struct ExHeaderValue(axum::http::HeaderValue);

#[verifier::external_type_specification]
#[verifier::external_body]
pub struct ExInvalidHeaderValue(axum::http::header::InvalidHeaderValue);

#[verifier::external_type_specification]
#[verifier::external_body]
pub struct ExStatusCode(axum::http::StatusCode);

#[verifier::external_type_specification]
#[verifier::external_body]
pub struct ExBody(axum::body::Body);

#[verifier::external_type_specification]
#[verifier::external_body]
#[verifier::reject_recursive_types(T)]
pub struct ExRequest<T>(axum::http::Request<T>);

#[verifier::external_type_specification]
#[verifier::external_body]
#[verifier::reject_recursive_types(T)]
pub struct ExResponse<T>(axum::http::Response<T>);

#[verifier::external_type_specification]
#[verifier::external_body]
#[verifier::reject_recursive_types(B)]
pub struct ExNext<B>(axum::middleware::Next<B>);

#[verifier::external_type_specification]
#[verifier::external_body]
#[verifier::reject_recursive_types(D)]
#[verifier::reject_recursive_types(E)]
pub struct ExUnsyncBoxBody<D, E>(http_body::combinators::UnsyncBoxBody<D, E>);

#[verifier::external_type_specification]
#[verifier::external_body]
pub struct ExBytes(axum::body::Bytes);

#[verifier::external_type_specification]
#[verifier::external_body]
pub struct ExAxumError(axum::Error);

#[verifier::external_type_specification]
#[verifier::external_body]
pub struct ExIoError(std::io::Error);

#[verifier::external_type_specification]
#[verifier::external_body]
pub struct ExDefaultServeDirFallback(tower_http::services::fs::DefaultServeDirFallback);

#[verifier::external_type_specification]
#[verifier::external_body]
#[verifier::reject_recursive_types(F)]
pub struct ExServeDir<F>(tower_http::services::ServeDir<F>);

#[verifier::external_type_specification]
#[verifier::external_body]
#[verifier::reject_recursive_types(S)]
#[verifier::reject_recursive_types(M)]
pub struct ExSetResponseHeader<S, M>(tower_http::set_header::SetResponseHeader<S, M>);

#[verifier::external_type_specification]
#[verifier::external_body]
#[verifier::reject_recursive_types(B)]
#[verifier::reject_recursive_types(E)]
pub struct ExMethodRouter<B, E>(axum::routing::MethodRouter<B, E>);

#[verifier::external_type_specification]
#[verifier::external_body]
#[verifier::reject_recursive_types(B)]
pub struct ExRouter<B>(axum::Router<B>);

/// The text of a header's name, in lower case.
pub uninterp spec fn header_name_text(name: HeaderName) -> Seq<char>;

/// The text that a header value carries.
pub uninterp spec fn header_text(value: HeaderValue) -> Seq<char>;

/// The number of a status code.
pub uninterp spec fn status_number(status: StatusCode) -> u16;

/// The directory that a file service reads from.
pub uninterp spec fn directory_of(service: ServeDir) -> Seq<char>;

/// The files that a file service sends, and the header that it sends with them.
pub uninterp spec fn files_of(service: SetResponseHeader<ServeDir, HeaderValue>) -> Files;

/// The methods that a file service which may fail answers, and with what.
pub uninterp spec fn fallible_answers_of(service: MethodRouter<Body, std::io::Error>) -> Map<
    Seq<char>,
    Files,
>;

/// The methods that a method router answers, and by what.
pub uninterp spec fn answers_of(service: MethodRouter) -> Answers;

/// The places at which a router answers, each with the methods that it answers
/// there and by what.
pub uninterp spec fn content_of(router: Router) -> Content;

/// The layers around everything that a router holds, the innermost first.
pub uninterp spec fn layers_of(router: Router) -> Seq<Layer>;

/// A header value may hold this character: any but the control characters,
/// of which only the tab is allowed.
pub open spec fn is_header_char(c: char) -> bool {
    c == '\t' || (c as u32 >= 32 && c as u32 != 127)
}

/// A header value may hold this text.
pub open spec fn is_header_text(text: Seq<char>) -> bool {
    forall|i: int| 0 <= i < text.len() ==> is_header_char(#[trigger] text[i])
}

/// `http::HeaderValue::try_from::<String>`: it takes exactly the texts without
/// control characters other than the tab, and keeps the text.
#[verifier::external_body]
pub(crate) fn header_value(text: String) -> (value: Result<HeaderValue, InvalidHeaderValue>)
    ensures
        value is Ok <==> is_header_text(text@),
        value matches Ok(v) ==> header_text(v) == text@,
{
    HeaderValue::try_from(text)
}

/// The constant `http::header::CACHE_CONTROL`: the name `cache-control`.
#[verifier::external_body]
pub(crate) fn cache_control() -> (name: HeaderName)
    ensures
        header_name_text(name) == "cache-control"@,
{
    axum::http::header::CACHE_CONTROL
}

/// The constant `http::StatusCode::INTERNAL_SERVER_ERROR`: the status 500.
#[verifier::external_body]
pub(crate) fn internal_server_error() -> (status: StatusCode)
    ensures
        status_number(status) == 500,
{
    StatusCode::INTERNAL_SERVER_ERROR
}

/// `tower_http::services::ServeDir::new`: a service that sends the files of
/// the given directory.
#[verifier::external_body]
pub(crate) fn serve_dir(dir: &str) -> (service: ServeDir)
    ensures
        directory_of(service) == dir@,
{
    ServeDir::new(dir)
}

/// `tower_http::set_header::SetResponseHeader::overriding`: every response of
/// the service carries the header with this value, in place of any value that
/// it had.
#[verifier::external_body]
pub(crate) fn overriding(inner: ServeDir, name: HeaderName, value: HeaderValue) -> (service:
    SetResponseHeader<ServeDir, HeaderValue>)
    ensures
        files_of(service) == (Files {
            dir: directory_of(inner),
            header: header_name_text(name),
            value: header_text(value),
        }),
{
    SetResponseHeader::overriding(inner, name, value)
}

/// `axum::routing::get_service` on a file service: `GET` requests, and with
/// them `HEAD` requests, are answered by the service, others are refused.
#[verifier::external_body]
pub(crate) fn get_files(service: SetResponseHeader<ServeDir, HeaderValue>) -> (r: MethodRouter<
    Body,
    std::io::Error,
>)
    ensures
        fallible_answers_of(r) == crate::site::got_from(files_of(service)),
{
    axum::routing::get_service(service)
}

/// `axum::routing::MethodRouter::handle_error`: what the service answers stays
/// as it is; an I/O error in its place is answered with what `internal_error`
/// makes of the error's text.
#[verifier::external_body]
pub(crate) fn handle_error(service: MethodRouter<Body, std::io::Error>) -> (r: MethodRouter)
    ensures
        answers_of(r) == recovered(fallible_answers_of(service)),
{
    service.handle_error(
        |err: std::io::Error| std::future::ready(internal_error(&err.to_string())),
    )
}

/// `axum::routing::get_service` on a handler: `GET` and `HEAD` requests are
/// answered as the handler answers them, others are refused.
#[verifier::external_body]
pub(crate) fn get(handler: MethodRouter) -> (r: MethodRouter)
    ensures
        answers_of(r) == crate::site::get_only(answers_of(handler)),
{
    axum::routing::get_service(handler)
}

/// `axum::routing::MethodRouter::clone`: the copy answers as the handler does.
#[verifier::external_body]
pub(crate) fn another(handler: &MethodRouter) -> (r: MethodRouter)
    ensures
        answers_of(r) == answers_of(*handler),
{
    handler.clone()
}

/// `axum::Router::new`: a router that holds nothing.
#[verifier::external_body]
pub(crate) fn new_router() -> (r: Router)
    ensures
        content_of(r) == Content::empty(),
        layers_of(r) == Seq::<Layer>::empty(),
{
    Router::new()
}

/// `axum::Router::route`: the router answers at `path` too.
///
/// It panics on a path that is no pattern, or that the router's tree of paths
/// cannot hold next to the others. (It also panics once a process has made
/// `u32::MAX` routes.) A layer would not cover a route added after it.
#[verifier::external_body]
pub(crate) fn route(router: Router, path: &str, service: MethodRouter) -> (r: Router)
    requires
        layers_of(router).len() == 0,
        crate::pattern::is_pattern(path@),
        crate::site::admits_route(content_of(router), path@),
    ensures
        content_of(r) == content_of(router).insert(Slot::Route(path@), answers_of(service)),
        layers_of(r) == layers_of(router),
{
    router.route(path, service)
}

/// `axum::Router::nest` with a router: the router answers at the paths of
/// `nested` too, each with `path` put before it.
///
/// It panics where `route` does on one of those paths, on a wildcard in
/// `path`, and on a nested router with a fallback.
#[verifier::external_body]
pub(crate) fn nest_router(router: Router, path: &str, nested: Router) -> (r: Router)
    requires
        layers_of(router).len() == 0,
        layers_of(nested).len() == 0,
        crate::pattern::is_prefix_pattern(path@),
        crate::site::only_routes(content_of(nested)),
        forall|p: Seq<char>| #[trigger]
            content_of(nested).contains_key(Slot::Route(p)) ==> crate::site::admits_route(
                content_of(router),
                path@ + p,
            ),
    ensures
        content_of(r) == content_of(router).union_prefer_right(
            crate::site::under(path@, content_of(nested)),
        ),
        layers_of(r) == layers_of(router),
{
    router.nest(path, nested)
}

/// `axum::Router::nest` with a service: the service answers at every path
/// beneath `path`.
///
/// It panics on a wildcard in `path`, and where a route lies beneath `path` or
/// another service is nested there.
#[verifier::external_body]
pub(crate) fn nest_service(router: Router, path: &str, service: MethodRouter) -> (r: Router)
    requires
        layers_of(router).len() == 0,
        crate::pattern::is_prefix_pattern(path@),
        crate::site::admits_nest(content_of(router), path@),
    ensures
        content_of(r) == content_of(router).insert(Slot::Nest(path@), answers_of(service)),
        layers_of(r) == layers_of(router),
{
    router.nest(path, service)
}

/// `axum::Router::fallback`: the service answers where nothing else does, but
/// for paths that the router redirects. It redirects a path that only lacks a
/// `/` at its end, or has one too many, to be answered; it may redirect other
/// paths that end with `/` too.
#[verifier::external_body]
pub(crate) fn fallback(router: Router, service: MethodRouter) -> (r: Router)
    requires
        layers_of(router).len() == 0,
    ensures
        content_of(r) == content_of(router).insert(Slot::Fallback, answers_of(service)),
        layers_of(r) == layers_of(router),
{
    router.fallback(service)
}

/// `axum::Router::layer` with an `Extension` of the templates: every request
/// carries them.
#[verifier::external_body]
pub(crate) fn layer_templates(router: Router, templates: Arc<Tera>) -> (r: Router)
    ensures
        content_of(r) == content_of(router),
        layers_of(r) == layers_of(router).push(
            Layer::Templates {
                sources: crate::templates::sources_of(*templates),
                escaped: crate::templates::escaped_by(*templates),
            },
        ),
{
    router.layer(Extension(templates))
}

/// `axum::Router::layer` with an `Extension` of the settings: every request
/// carries these settings.
#[verifier::external_body]
pub(crate) fn layer_settings(router: Router, cfg: &Arc<Config>) -> (r: Router)
    ensures
        content_of(r) == content_of(router),
        layers_of(r) == layers_of(router).push(
            Layer::Settings {
                number: crate::site::number_of(**cfg),
                strings: crate::settings::strings_of(**cfg),
                bools: crate::settings::bools_of(**cfg),
            },
        ),
{
    router.layer(Extension(cfg.clone()))
}

/// `axum::Router::layer` with a
/// `tower_http::auth::RequireAuthorizationLayer::basic`: a request reaches what
/// the router holds only with these credentials.
#[verifier::external_body]
pub(crate) fn layer_basic_auth(router: Router, username: &str, password: &str) -> (r: Router)
    ensures
        content_of(r) == content_of(router),
        layers_of(r) == layers_of(router).push(
            Layer::BasicAuth { username: username@, password: password@ },
        ),
{
    router.layer(RequireAuthorizationLayer::basic(username, password))
}

/// `axum::Router::layer` with an `Extension` of the database: every request
/// carries this value.
#[verifier::external_body]
pub(crate) fn layer_database<D: Clone + Send + Sync + 'static>(router: Router, db: D) -> (r: Router)
    ensures
        content_of(r) == content_of(router),
        layers_of(r) == layers_of(router).push(
            Layer::Database { number: crate::site::number_of(db) },
        ),
{
    router.layer(Extension(db))
}

/// `axum::Router::layer` with an `axum::middleware::from_fn`: this function is
/// called with every request, and with what would answer it. What it does with
/// them is up to the caller, and not stated.
#[verifier::external_body]
pub(crate) fn layer_metrics<M, F>(router: Router, metrics: M) -> (r: Router) where
    M: FnMut(Request<Body>, Next<Body>) -> F + Clone + Send + 'static,
    F: Future<Output = Response> + Send + 'static,

    ensures
        content_of(r) == content_of(router),
        layers_of(r) == layers_of(router).push(
            Layer::Metrics { number: crate::site::number_of(metrics) },
        ),
{
    router.layer(axum::middleware::from_fn(metrics))
}

/// `axum::Router::layer` with a `tower_http::trace::TraceLayer::new_for_http`:
/// requests and responses are traced, and otherwise left alone.
#[verifier::external_body]
pub(crate) fn layer_trace(router: Router) -> (r: Router)
    ensures
        content_of(r) == content_of(router),
        layers_of(r) == layers_of(router).push(Layer::Trace),
{
    router.layer(TraceLayer::new_for_http())
}

/// The status that an I/O error is answered with.
pub open spec fn failure_status() -> u16 {
    500
}

/// The text that stands before an I/O error's own text.
pub open spec fn failure_prefix() -> Seq<char> {
    "internal error: "@
}

/// The same answers, with an I/O error answered as an internal error.
pub open spec fn recovered(answers: Map<Seq<char>, Files>) -> Answers {
    answers.map_values(
        |files: Files|
            Answer::Files {
                files,
                failure_status: failure_status(),
                failure_prefix: failure_prefix(),
            },
    )
}

/// The status and the text that an error with this text is answered with.
pub fn internal_error(err: &str) -> (reply: (StatusCode, String))
    ensures
        status_number(reply.0) == failure_status(),
        reply.1@ == failure_prefix() + err@,
{
    let mut text = "internal error: ".to_owned();
    text.append(err);
    (internal_server_error(), text)
}

} // verus!
