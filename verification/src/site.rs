//! What a router holds, told in plain values.
use vstd::prelude::*;

verus! {

/// A place of a router at which it answers. Which place answers a path is told
/// by `matching::is_answered_at`.
pub enum Slot {
    /// The paths that this pattern takes (`matching::takes`), unless another
    /// route that takes them goes before it (`matching::goes_before`).
    Route(Seq<char>),
    /// All paths beneath this prefix.
    Nest(Seq<char>),
    /// The paths that no route and no nest takes, but for those that the router
    /// redirects itself: a path that a route or a nest would take with a `/`
    /// added to its end or removed from it is redirected there, and so may be
    /// other paths that end with `/`.
    Fallback,
}

/// Files that are sent from a directory.
pub struct Files {
    /// The directory.
    pub dir: Seq<char>,
    /// The header that every response carries, a file or not.
    pub header: Seq<char>,
    /// The value of that header.
    pub value: Seq<char>,
}

/// What answers a request.
pub enum Answer {
    /// Code that a router may have got from elsewhere, such as the handlers of
    /// the site; told apart by number.
    Handler(int),
    /// Files. A failure to read one is answered, without the header, with this
    /// status and with a text that starts with this prefix and goes on with the
    /// error's own text.
    Files { files: Files, failure_status: u16, failure_prefix: Seq<char> },
}

/// The request methods that are answered, and by what. A request with another
/// method is refused with `405 Method Not Allowed`.
pub type Answers = Map<Seq<char>, Answer>;

/// What a router holds: the places at which it answers, each with the methods
/// that it answers there and by what.
pub type Content = Map<Slot, Answers>;

/// Templates: their sources, by name.
pub type Sources = Map<Seq<char>, Seq<char>>;

/// A layer around everything that a router holds. (The redirect to a path that
/// differs by a `/` at its end is the router's own, outside all layers.)
pub enum Layer {
    /// Handlers can get at the settings with this number (`number_of`). The
    /// texts and booleans among them are told as well.
    Settings { number: int, strings: Map<Seq<char>, Seq<char>>, bools: Map<Seq<char>, bool> },
    /// Handlers can get at these templates.
    Templates { sources: Sources, escaped: Seq<Seq<char>> },
    /// Handlers can get at the database with this number (`number_of`).
    Database { number: int },
    /// The function with this number (`number_of`) sees every request that gets
    /// here, and what answers it.
    Metrics { number: int },
    /// Requests and responses are traced.
    Trace,
    /// A request without these credentials is refused with `401 Unauthorized`.
    BasicAuth { username: Seq<char>, password: Seq<char> },
    /// Any other layer that a router may have got from elsewhere; such layers
    /// are told apart by number.
    Other(int),
}

/// `number` gives different values different numbers.
pub open spec fn tells_apart<T>(number: spec_fn(T) -> int) -> bool {
    forall|a: T, b: T| #[trigger] number(a) == #[trigger] number(b) ==> a == b
}

/// A number by which a value is told from others of its type, as far as
/// numbers can tell them apart.
pub open spec fn number_of<T>(value: T) -> int {
    (choose|number: spec_fn(T) -> int| tells_apart(number))(value)
}

/// Only `GET` and `HEAD` requests are answered.
pub open spec fn get_only<A>(answers: Map<Seq<char>, A>) -> Map<Seq<char>, A> {
    answers.restrict(set!["GET"@, "HEAD"@])
}

/// `GET` and `HEAD` requests are answered by `a`, others are refused.
pub open spec fn got_from<A>(a: A) -> Map<Seq<char>, A> {
    Map::<Seq<char>, A>::empty().insert("GET"@, a).insert("HEAD"@, a)
}

/// A router with this content can take one more route at `path`.
pub open spec fn admits_route(content: Content, path: Seq<char>) -> bool {
    forall|slot: Slot| #[trigger]
        content.contains_key(slot) ==> match slot {
            Slot::Route(p) => crate::pattern::compatible(p, path),
            Slot::Nest(_) => false,
            Slot::Fallback => true,
        }
}

/// A router with this content can have a service nested at `path`.
pub open spec fn admits_nest(content: Content, path: Seq<char>) -> bool {
    forall|slot: Slot| #[trigger]
        content.contains_key(slot) ==> match slot {
            Slot::Route(p) => !crate::pattern::beneath(path, p),
            Slot::Nest(n) => crate::pattern::part(n, path),
            Slot::Fallback => true,
        }
}

/// This content consists of routes only, none of them at `/`.
pub open spec fn only_routes(content: Content) -> bool {
    forall|slot: Slot| #[trigger]
        content.contains_key(slot) ==> slot is Route && slot->Route_0.len() > 1
            && crate::pattern::is_pattern(slot->Route_0)
}

/// This content consists of routes only, none of them beneath `path`.
pub open spec fn clear_of(content: Content, path: Seq<char>) -> bool {
    forall|slot: Slot| #[trigger]
        content.contains_key(slot) ==> slot is Route && !crate::pattern::beneath(
            path,
            slot->Route_0,
        )
}

/// The routes of `content`, each with `prefix` put before its pattern.
pub open spec fn under(prefix: Seq<char>, content: Content) -> Content {
    Map::new(
        |slot: Slot|
            slot is Route && prefix.len() <= slot->Route_0.len() && slot->Route_0.take(
                prefix.len() as int,
            ) == prefix && content.contains_key(
                Slot::Route(slot->Route_0.skip(prefix.len() as int)),
            ),
        |slot: Slot| content[Slot::Route(slot->Route_0.skip(prefix.len() as int))],
    )
}

/// Putting a prefix before the routes goes route by route.
pub(crate) proof fn lemma_under_insert(
    prefix: Seq<char>,
    content: Content,
    path: Seq<char>,
    answers: Answers,
)
    ensures
        under(prefix, content.insert(Slot::Route(path), answers)) == under(prefix, content).insert(
            Slot::Route(prefix + path),
            answers,
        ),
{
    let left = under(prefix, content.insert(Slot::Route(path), answers));
    let right = under(prefix, content).insert(Slot::Route(prefix + path), answers);
    let n = prefix.len() as int;
    assert((prefix + path).take(n) =~= prefix);
    assert((prefix + path).skip(n) =~= path);
    assert forall|slot: Slot| #[trigger]
        left.dom().contains(slot) == right.dom().contains(slot) && (left.dom().contains(slot)
            ==> left[slot] == right[slot]) by {
        if slot is Route && n <= slot->Route_0.len() && slot->Route_0.take(n) == prefix {
            let p = slot->Route_0;
            assert(p =~= p.take(n) + p.skip(n));
            if p.skip(n) == path {
                assert(slot == Slot::Route(prefix + path));
            }
        }
    }
    assert(left.dom() =~= right.dom());
    assert(left =~= right);
}

/// Without routes there is nothing to put a prefix before.
pub(crate) proof fn lemma_under_empty(prefix: Seq<char>)
    ensures
        under(prefix, Content::empty()) == Content::empty(),
{
    assert(under(prefix, Content::empty()) =~= Content::empty());
}

/// Adding content goes place by place.
pub(crate) proof fn lemma_union_insert(
    content: Content,
    more: Content,
    slot: Slot,
    answers: Answers,
)
    ensures
        content.union_prefer_right(more.insert(slot, answers)) == content.union_prefer_right(
            more,
        ).insert(slot, answers),
{
    assert(content.union_prefer_right(more.insert(slot, answers)) =~= content.union_prefer_right(
        more,
    ).insert(slot, answers));
}

/// Next to routes that keep clear of it, a service can be nested at `path`.
pub(crate) proof fn lemma_admits_nest(content: Content, path: Seq<char>)
    requires
        clear_of(content, path),
    ensures
        admits_nest(content, path),
{
}

/// And one more, at a path that parts from the first.
pub(crate) proof fn lemma_admits_second_nest(
    content: Content,
    first: Seq<char>,
    answers: Answers,
    path: Seq<char>,
)
    requires
        clear_of(content, path),
        crate::pattern::part(first, path),
    ensures
        admits_nest(content.insert(Slot::Nest(first), answers), path),
{
    let more = content.insert(Slot::Nest(first), answers);
    assert forall|slot: Slot| #[trigger] more.contains_key(slot) implies slot == Slot::Nest(first)
        || content.contains_key(slot) by {
    }
}

} // verus!
