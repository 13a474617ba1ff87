//! Which paths a pattern takes, and which of two patterns is asked first.
use vstd::prelude::*;

use crate::site::{Content, Slot};

verus! {

/// The end of the segment that `i` stands in: the first `/` from `i` on, or the
/// end of the text.
pub open spec fn segment_end(s: Seq<char>, i: int) -> int
    decreases s.len() - i,
{
    if i >= s.len() || s[i] == '/' {
        i
    } else {
        segment_end(s, i + 1)
    }
}

/// From `i` on, `pattern` takes what `path` holds from `j` on.
pub open spec fn takes_from(pattern: Seq<char>, i: int, path: Seq<char>, j: int) -> bool
    decreases pattern.len() - i,
{
    if i >= pattern.len() {
        j == path.len()
    } else if pattern[i] == ':' {
        let end = segment_end(pattern, i + 1);
        proof {
            lemma_segment_end(pattern, i + 1);
        }
        &&& end < pattern.len() || j < path.len()
        &&& takes_from(pattern, end, path, segment_end(path, j))
    } else {
        &&& j < path.len()
        &&& path[j] == pattern[i]
        &&& takes_from(pattern, i + 1, path, j + 1)
    }
}

/// `pattern` takes `path`: they are the same but for the captures, each of
/// which takes one segment. A capture at the end takes no empty segment.
pub open spec fn takes(pattern: Seq<char>, path: Seq<char>) -> bool {
    takes_from(pattern, 0, path, 0)
}

/// What the captures of `pattern`, from `i` on, take of `path`, from `j` on.
pub open spec fn captured_from(pattern: Seq<char>, i: int, path: Seq<char>, j: int) -> Seq<
    Seq<char>,
>
    decreases pattern.len() - i,
{
    if i >= pattern.len() {
        Seq::empty()
    } else if pattern[i] == ':' {
        let end = segment_end(pattern, i + 1);
        proof {
            lemma_segment_end(pattern, i + 1);
        }
        seq![path.subrange(j, segment_end(path, j))] + captured_from(
            pattern,
            end,
            path,
            segment_end(path, j),
        )
    } else {
        captured_from(pattern, i + 1, path, j + 1)
    }
}

/// What the captures of `pattern` take of `path`, in their order.
pub open spec fn captured(pattern: Seq<char>, path: Seq<char>) -> Seq<Seq<char>> {
    captured_from(pattern, 0, path, 0)
}

/// `pattern`, from `i` on, with `values` in place of its captures.
pub open spec fn filled_from(pattern: Seq<char>, i: int, values: Seq<Seq<char>>) -> Seq<char>
    decreases pattern.len() - i,
{
    if i >= pattern.len() {
        Seq::empty()
    } else if pattern[i] == ':' {
        let end = segment_end(pattern, i + 1);
        proof {
            lemma_segment_end(pattern, i + 1);
        }
        values[0] + filled_from(pattern, end, values.skip(1))
    } else {
        seq![pattern[i]] + filled_from(pattern, i + 1, values)
    }
}

/// `pattern` with `values` in place of its captures.
pub open spec fn filled(pattern: Seq<char>, values: Seq<Seq<char>>) -> Seq<char> {
    filled_from(pattern, 0, values)
}

/// `values` fit the captures of `pattern` from `i` on.
pub open spec fn fits_from(pattern: Seq<char>, i: int, values: Seq<Seq<char>>) -> bool
    decreases pattern.len() - i,
{
    if i >= pattern.len() {
        values.len() == 0
    } else if pattern[i] == ':' {
        let end = segment_end(pattern, i + 1);
        proof {
            lemma_segment_end(pattern, i + 1);
        }
        &&& values.len() > 0
        &&& !values[0].contains('/')
        &&& end < pattern.len() || values[0].len() > 0
        &&& fits_from(pattern, end, values.skip(1))
    } else {
        fits_from(pattern, i + 1, values)
    }
}

/// `values` fit the captures of `pattern`: there are as many of them, none
/// holds a `/`, and that of a capture at the end is not empty.
pub open spec fn fits(pattern: Seq<char>, values: Seq<Seq<char>>) -> bool {
    fits_from(pattern, 0, values)
}

/// Where both patterns take a path, `a` is asked and not `b`: at the first
/// place at which they differ, `b` captures a segment and `a` does not.
pub open spec fn goes_before(a: Seq<char>, b: Seq<char>) -> bool {
    exists|k: int| captures_first_at(b, a, k)
}

/// `b` and `a` are the same up to `k`, where `b` captures a segment and `a` does
/// not.
pub open spec fn captures_first_at(b: Seq<char>, a: Seq<char>, k: int) -> bool {
    &&& 0 <= k < a.len()
    &&& k < b.len()
    &&& a.take(k) == b.take(k)
    &&& a[k] != ':'
    &&& b[k] == ':'
}

/// Of the routes of `content`, the one at `pattern` answers `path`: it takes
/// the path, and goes before every other route that does.
pub open spec fn is_chosen(content: Content, pattern: Seq<char>, path: Seq<char>) -> bool {
    &&& content.contains_key(Slot::Route(pattern))
    &&& takes(pattern, path)
    &&& forall|other: Seq<char>| #[trigger]
        content.contains_key(Slot::Route(other)) && other != pattern && takes(other, path)
            ==> goes_before(pattern, other)
}

/// `content` answers `path` at `slot`: at the route that is chosen where routes
/// take the path, at a nest where it lies beneath that, and at the fallback
/// where neither is so. Of a path that a route takes and that lies beneath a
/// nest nothing is told. (Of the paths that are left to the fallback, the
/// router redirects some itself.)
pub open spec fn is_answered_at(content: Content, slot: Slot, path: Seq<char>) -> bool {
    match slot {
        Slot::Route(pattern) => {
            &&& is_chosen(content, pattern, path)
            &&& is_left_by_nests(content, path)
        },
        Slot::Nest(prefix) => {
            &&& content.contains_key(slot)
            &&& is_left_by_routes(content, path)
            &&& crate::pattern::beneath(prefix, path)
        },
        Slot::Fallback => {
            &&& content.contains_key(slot)
            &&& is_left_by_routes(content, path)
            &&& is_left_by_nests(content, path)
        },
    }
}

/// No route of `content` takes `path`.
pub open spec fn is_left_by_routes(content: Content, path: Seq<char>) -> bool {
    forall|pattern: Seq<char>| #[trigger]
        content.contains_key(Slot::Route(pattern)) ==> !takes(pattern, path)
}

/// `path` lies beneath no nest of `content`.
pub open spec fn is_left_by_nests(content: Content, path: Seq<char>) -> bool {
    forall|prefix: Seq<char>| #[trigger]
        content.contains_key(Slot::Nest(prefix)) ==> !crate::pattern::beneath(prefix, path)
}

/// A segment ends within the text.
pub proof fn lemma_segment_end(s: Seq<char>, i: int)
    requires
        i <= s.len(),
    ensures
        i <= segment_end(s, i) <= s.len(),
    decreases s.len() - i,
{
    if i < s.len() && s[i] != '/' {
        lemma_segment_end(s, i + 1);
    }
}

proof fn lemma_filled_from(pattern: Seq<char>, i: int, path: Seq<char>, j: int)
    requires
        0 <= i <= pattern.len(),
        0 <= j <= path.len(),
        takes_from(pattern, i, path, j),
    ensures
        filled_from(pattern, i, captured_from(pattern, i, path, j)) == path.skip(j),
    decreases pattern.len() - i,
{
    if i >= pattern.len() {
        assert(path.skip(j) =~= Seq::<char>::empty());
    } else if pattern[i] == ':' {
        let end = segment_end(pattern, i + 1);
        let stop = segment_end(path, j);
        lemma_segment_end(pattern, i + 1);
        lemma_segment_end(path, j);
        lemma_filled_from(pattern, end, path, stop);
        let values = captured_from(pattern, i, path, j);
        assert(values.skip(1) =~= captured_from(pattern, end, path, stop));
        assert(path.skip(j) =~= path.subrange(j, stop) + path.skip(stop));
    } else {
        lemma_filled_from(pattern, i + 1, path, j + 1);
        assert(path.skip(j) =~= seq![pattern[i]] + path.skip(j + 1));
    }
}

/// A path that a pattern takes is the pattern with the captured segments in
/// place of the captures: nothing of the path is lost.
pub proof fn lemma_captures_fill_the_pattern(pattern: Seq<char>, path: Seq<char>)
    requires
        takes(pattern, path),
    ensures
        filled(pattern, captured(pattern, path)) == path,
{
    lemma_filled_from(pattern, 0, path, 0);
    assert(path.skip(0) =~= path);
}

/// A segment ends where the first `/` stands.
proof fn lemma_segment_ends_at(s: Seq<char>, i: int, n: nat)
    requires
        0 <= i,
        i + n <= s.len(),
        forall|m: int| i <= m < i + n ==> s[m] != '/',
        i + n == s.len() || s[i + n] == '/',
    ensures
        segment_end(s, i) == i + n,
    decreases n,
{
    if n > 0 {
        lemma_segment_ends_at(s, i + 1, (n - 1) as nat);
    }
}

/// Within a segment there is no `/`, and behind it one or nothing.
proof fn lemma_segment(s: Seq<char>, i: int)
    requires
        0 <= i <= s.len(),
    ensures
        forall|m: int| i <= m < segment_end(s, i) ==> s[m] != '/',
        segment_end(s, i) < s.len() ==> s[segment_end(s, i)] == '/',
    decreases s.len() - i,
{
    if i < s.len() && s[i] != '/' {
        lemma_segment(s, i + 1);
    }
}

proof fn lemma_takes_filled_from(
    pattern: Seq<char>,
    i: int,
    values: Seq<Seq<char>>,
    start: Seq<char>,
)
    requires
        0 <= i <= pattern.len(),
        fits_from(pattern, i, values),
    ensures
        ({
            let path = start + filled_from(pattern, i, values);
            &&& takes_from(pattern, i, path, start.len() as int)
            &&& captured_from(pattern, i, path, start.len() as int) == values
        }),
    decreases pattern.len() - i,
{
    let path = start + filled_from(pattern, i, values);
    let j = start.len() as int;
    if i >= pattern.len() {
        assert(values =~= Seq::<Seq<char>>::empty());
    } else if pattern[i] == ':' {
        let end = segment_end(pattern, i + 1);
        lemma_segment_end(pattern, i + 1);
        lemma_segment(pattern, i + 1);
        let value = values[0];
        let rest = filled_from(pattern, end, values.skip(1));
        lemma_takes_filled_from(pattern, end, values.skip(1), start + value);
        assert(path =~= (start + value) + rest);
        assert forall|m: int| j <= m < j + value.len() implies path[m] != '/' by {
            assert(path[m] == value[m - j]);
            assert(value.contains(value[m - j]));
        }
        if end < pattern.len() {
            assert(rest[0] == '/');
            assert(path[j + value.len()] == rest[0]);
        } else {
            assert(rest =~= Seq::<char>::empty());
        }
        lemma_segment_ends_at(path, j, value.len());
        assert(path.subrange(j, j + value.len()) =~= value);
        assert(values =~= seq![value] + values.skip(1));
    } else {
        lemma_takes_filled_from(pattern, i + 1, values, start.push(pattern[i]));
        assert(path =~= start.push(pattern[i]) + filled_from(pattern, i + 1, values));
    }
}

/// A pattern whose captures are filled in is a path that the pattern takes, and
/// the captures take what was filled in: whatever the values, they reach the
/// handler.
pub proof fn lemma_takes_filled(pattern: Seq<char>, values: Seq<Seq<char>>)
    requires
        fits(pattern, values),
    ensures
        takes(pattern, filled(pattern, values)),
        captured(pattern, filled(pattern, values)) == values,
{
    lemma_takes_filled_from(pattern, 0, values, Seq::empty());
    assert(Seq::<char>::empty() + filled(pattern, values) =~= filled(pattern, values));
}

proof fn lemma_captured_fits_from(pattern: Seq<char>, i: int, path: Seq<char>, j: int)
    requires
        0 <= i <= pattern.len(),
        0 <= j <= path.len(),
        takes_from(pattern, i, path, j),
    ensures
        fits_from(pattern, i, captured_from(pattern, i, path, j)),
    decreases pattern.len() - i,
{
    if i < pattern.len() {
        if pattern[i] == ':' {
            let end = segment_end(pattern, i + 1);
            let stop = segment_end(path, j);
            lemma_segment_end(pattern, i + 1);
            lemma_segment_end(path, j);
            lemma_segment(path, j);
            lemma_captured_fits_from(pattern, end, path, stop);
            let values = captured_from(pattern, i, path, j);
            assert(values.skip(1) =~= captured_from(pattern, end, path, stop));
            if end == pattern.len() {
                assert(takes_from(pattern, end, path, stop));
                assert(values[0].len() == path.len() - j);
            }
        } else {
            lemma_captured_fits_from(pattern, i + 1, path, j + 1);
        }
    }
}

/// What the captures of a pattern take fits them.
pub proof fn lemma_captured_fits(pattern: Seq<char>, path: Seq<char>)
    requires
        takes(pattern, path),
    ensures
        fits(pattern, captured(pattern, path)),
{
    lemma_captured_fits_from(pattern, 0, path, 0);
}

proof fn lemma_literal_from(pattern: Seq<char>, i: int, path: Seq<char>, j: int)
    requires
        0 <= i <= pattern.len(),
        0 <= j <= path.len(),
        !pattern.contains(':'),
    ensures
        takes_from(pattern, i, path, j) <==> pattern.skip(i) == path.skip(j),
    decreases pattern.len() - i,
{
    if i >= pattern.len() {
        assert(pattern.skip(i) =~= Seq::<char>::empty());
        if j == path.len() {
            assert(path.skip(j) =~= Seq::<char>::empty());
        } else {
            assert(path.skip(j).len() > 0);
        }
    } else {
        assert(pattern.contains(pattern[i]));
        assert(pattern.skip(i) =~= seq![pattern[i]] + pattern.skip(i + 1));
        if j < path.len() {
            lemma_literal_from(pattern, i + 1, path, j + 1);
            assert(path.skip(j) =~= seq![path[j]] + path.skip(j + 1));
            if pattern.skip(i) == path.skip(j) {
                assert(pattern.skip(i)[0] == path.skip(j)[0]);
                assert(pattern.skip(i).skip(1) =~= pattern.skip(i + 1));
                assert(path.skip(j).skip(1) =~= path.skip(j + 1));
            }
        } else {
            assert(path.skip(j).len() == 0);
        }
    }
}

/// A pattern without captures takes itself and no other path.
pub proof fn lemma_literal_takes_itself(pattern: Seq<char>, path: Seq<char>)
    requires
        !pattern.contains(':'),
    ensures
        takes(pattern, path) <==> path == pattern,
{
    lemma_literal_from(pattern, 0, path, 0);
    assert(pattern.skip(0) =~= pattern);
    assert(path.skip(0) =~= path);
}

/// Of two patterns at most one goes before the other.
pub proof fn lemma_goes_before_one_way(a: Seq<char>, b: Seq<char>)
    requires
        goes_before(a, b),
    ensures
        !goes_before(b, a),
{
    if goes_before(b, a) {
        let k = choose|k: int| captures_first_at(b, a, k);
        let m = choose|m: int| captures_first_at(a, b, m);
        if k < m {
            assert(a[k] == a.take(m)[k]);
            assert(b[k] == b.take(m)[k]);
        } else if m < k {
            assert(a[m] == a.take(k)[m]);
            assert(b[m] == b.take(k)[m]);
        }
    }
}

/// At most one route answers a path.
pub proof fn lemma_chosen_is_unique(
    content: Content,
    a: Seq<char>,
    b: Seq<char>,
    path: Seq<char>,
)
    requires
        is_chosen(content, a, path),
        is_chosen(content, b, path),
    ensures
        a == b,
{
    if a != b {
        lemma_goes_before_one_way(a, b);
    }
}

/// How many `/` stand from `i` on.
pub(crate) open spec fn slashes(s: Seq<char>, i: int) -> nat
    decreases s.len() - i,
{
    if i >= s.len() {
        0
    } else if s[i] == '/' {
        1 + slashes(s, i + 1)
    } else {
        slashes(s, i + 1)
    }
}

/// The place behind the `n`th `/` from `i` on.
pub(crate) open spec fn past_slashes(s: Seq<char>, i: int, n: nat) -> int
    decreases s.len() - i,
{
    if n == 0 || i >= s.len() {
        i
    } else if s[i] == '/' {
        past_slashes(s, i + 1, (n - 1) as nat)
    } else {
        past_slashes(s, i + 1, n)
    }
}

proof fn lemma_within_segment(s: Seq<char>, i: int, n: nat)
    requires
        0 <= i <= s.len(),
        n > 0,
    ensures
        slashes(s, segment_end(s, i)) == slashes(s, i),
        past_slashes(s, segment_end(s, i), n) == past_slashes(s, i, n),
    decreases s.len() - i,
{
    if i < s.len() && s[i] != '/' {
        lemma_within_segment(s, i + 1, n);
    }
}

/// A pattern and a path that it takes have as many segments as each other.
pub(crate) proof fn lemma_same_slashes(pattern: Seq<char>, i: int, path: Seq<char>, j: int)
    requires
        0 <= i <= pattern.len(),
        0 <= j <= path.len(),
        takes_from(pattern, i, path, j),
    ensures
        slashes(pattern, i) == slashes(path, j),
    decreases pattern.len() - i,
{
    if i < pattern.len() {
        if pattern[i] == ':' {
            lemma_segment_end(pattern, i + 1);
            lemma_segment_end(path, j);
            lemma_within_segment(pattern, i + 1, 1);
            lemma_within_segment(path, j, 1);
            lemma_same_slashes(pattern, segment_end(pattern, i + 1), path, segment_end(path, j));
        } else {
            lemma_same_slashes(pattern, i + 1, path, j + 1);
        }
    }
}

/// What a pattern takes, it takes segment by segment.
pub(crate) proof fn lemma_takes_past(
    pattern: Seq<char>,
    i: int,
    path: Seq<char>,
    j: int,
    n: nat,
)
    requires
        0 <= i <= pattern.len(),
        0 <= j <= path.len(),
        takes_from(pattern, i, path, j),
        n <= slashes(pattern, i),
    ensures
        takes_from(pattern, past_slashes(pattern, i, n), path, past_slashes(path, j, n)),
    decreases pattern.len() - i,
{
    if n > 0 && i < pattern.len() {
        if pattern[i] == ':' {
            lemma_segment_end(pattern, i + 1);
            lemma_segment_end(path, j);
            lemma_within_segment(pattern, i + 1, n);
            lemma_within_segment(path, j, n);
            lemma_takes_past(pattern, segment_end(pattern, i + 1), path, segment_end(path, j), n);
        } else if pattern[i] == '/' {
            lemma_takes_past(pattern, i + 1, path, j + 1, (n - 1) as nat);
        } else {
            lemma_takes_past(pattern, i + 1, path, j + 1, n);
        }
    }
}

/// Two patterns whose `n + 1`st segments start with different characters, and
/// not with captures, take no path in common.
pub(crate) proof fn lemma_apart(a: Seq<char>, b: Seq<char>, path: Seq<char>, n: nat)
    requires
        takes(a, path),
        takes(b, path),
        n <= slashes(a, 0),
        n <= slashes(b, 0),
        past_slashes(a, 0, n) < a.len(),
        past_slashes(b, 0, n) < b.len(),
        a[past_slashes(a, 0, n)] != ':',
        b[past_slashes(b, 0, n)] != ':',
    ensures
        a[past_slashes(a, 0, n)] == b[past_slashes(b, 0, n)],
{
    lemma_takes_past(a, 0, path, 0, n);
    lemma_takes_past(b, 0, path, 0, n);
}

} // verus!
