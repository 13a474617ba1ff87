//! Path patterns, and which of them a router can hold side by side.
//!
//! A pattern is a text that starts with `/`. A segment that starts with `:`
//! captures any one segment of a request's path; every other segment stands
//! for itself (`matching::takes`).
use vstd::prelude::*;

verus! {

/// A pattern that a router takes: it starts with `/`, captures are whole
/// segments and have a name, and there is no wildcard.
pub open spec fn is_pattern(p: Seq<char>) -> bool {
    &&& p.len() > 0
    &&& p[0] == '/'
    &&& forall|i: int| 0 <= i < p.len() ==> well_placed(p, i)
}

/// The character at `i` may stand there: no wildcard, and a colon only as the
/// start of a segment that goes on.
pub open spec fn well_placed(p: Seq<char>, i: int) -> bool {
    &&& p[i] != '*'
    &&& p[i] == ':' ==> 0 < i && p[i - 1] == '/' && i + 1 < p.len() && p[i + 1] != '/'
}

/// A pattern without captures that something can be nested at: it does not
/// end with `/`.
pub open spec fn is_prefix_pattern(p: Seq<char>) -> bool {
    &&& p.len() > 1
    &&& p[0] == '/'
    &&& p.last() != '/'
    &&& forall|i: int| 0 <= i < p.len() ==> p[i] != '*' && #[trigger] p[i] != ':'
}

/// The first `n` characters of `p` end within a capture.
pub open spec fn ends_in_capture(p: Seq<char>, n: nat) -> bool
    decreases n,
{
    if n == 0 || p[n - 1] == '/' {
        false
    } else {
        p[n - 1] == ':' || ends_in_capture(p, (n - 1) as nat)
    }
}

/// `a` and `b` are the same up to `k`, where they part, and not within the
/// name of a capture.
pub open spec fn part_at(a: Seq<char>, b: Seq<char>, k: int) -> bool {
    &&& 0 <= k < a.len()
    &&& k < b.len()
    &&& a.take(k) == b.take(k)
    &&& a[k] != b[k]
    &&& !ends_in_capture(a, k as nat)
}

/// `a` and `b` part somewhere, and not within the name of a capture.
pub open spec fn part(a: Seq<char>, b: Seq<char>) -> bool {
    exists|k: int| part_at(a, b, k)
}

/// `b` goes on where `a` ends; where `a` ends with a capture, `b` has the same
/// capture.
pub open spec fn goes_on(a: Seq<char>, b: Seq<char>) -> bool {
    &&& a.len() < b.len()
    &&& b.take(a.len() as int) == a
    &&& ends_in_capture(a, a.len()) ==> b[a.len() as int] == '/'
}

/// One router can hold both patterns: they are different, and no segment
/// after the same start is captured under two names.
pub open spec fn compatible(a: Seq<char>, b: Seq<char>) -> bool {
    ||| goes_on(a, b)
    ||| goes_on(b, a)
    ||| part(a, b)
}

/// `p` lies beneath the prefix `n`.
pub open spec fn beneath(n: Seq<char>, p: Seq<char>) -> bool {
    &&& n.len() < p.len()
    &&& p.take(n.len() as int) == n
    &&& p[n.len() as int] == '/'
}

/// No two patterns of a router's table are the same.
pub proof fn lemma_compatible_differ(a: Seq<char>, b: Seq<char>)
    requires
        compatible(a, b),
    ensures
        a != b,
{
}

/// Whether two patterns fit together does not depend on their order.
pub proof fn lemma_compatible_symmetric(a: Seq<char>, b: Seq<char>)
    requires
        compatible(a, b),
    ensures
        compatible(b, a),
{
    if part(a, b) {
        let k = choose|k: int| part_at(a, b, k);
        lemma_capture_of_start(a, b, k as nat);
        assert(part_at(b, a, k));
    }
}

/// `ends_in_capture` looks only at the start of the pattern.
proof fn lemma_capture_of_start(a: Seq<char>, b: Seq<char>, n: nat)
    requires
        n <= a.len(),
        n <= b.len(),
        a.take(n as int) == b.take(n as int),
    ensures
        ends_in_capture(a, n) == ends_in_capture(b, n),
    decreases n,
{
    if n > 0 {
        assert(a[n - 1] == a.take(n as int)[n - 1]);
        assert(b[n - 1] == b.take(n as int)[n - 1]);
        assert(a.take(n - 1) =~= a.take(n as int).take(n - 1));
        assert(b.take(n - 1) =~= b.take(n as int).take(n - 1));
        lemma_capture_of_start(a, b, (n - 1) as nat);
    }
}

/// Whether a pattern ends within a capture does not depend on a prefix.
proof fn lemma_capture_after_prefix(prefix: Seq<char>, p: Seq<char>, n: nat)
    requires
        0 < n <= p.len(),
        p[0] == '/',
    ensures
        ends_in_capture(prefix + p, prefix.len() + n) == ends_in_capture(p, n),
    decreases n,
{
    assert((prefix + p)[prefix.len() + n - 1] == p[n - 1]);
    if n > 1 {
        lemma_capture_after_prefix(prefix, p, (n - 1) as nat);
    }
}

/// Patterns that fit together still do with the same prefix before them.
pub proof fn lemma_compatible_after_prefix(prefix: Seq<char>, a: Seq<char>, b: Seq<char>)
    requires
        is_pattern(a),
        is_pattern(b),
        compatible(a, b),
    ensures
        compatible(prefix + a, prefix + b),
{
    let n = prefix.len();
    if goes_on(a, b) {
        lemma_goes_on_after_prefix(prefix, a, b);
    } else if goes_on(b, a) {
        lemma_goes_on_after_prefix(prefix, b, a);
    } else {
        let k = choose|k: int| part_at(a, b, k);
        assert((prefix + a).take(n + k) =~= prefix + a.take(k));
        assert((prefix + b).take(n + k) =~= prefix + b.take(k));
        lemma_capture_after_prefix(prefix, a, k as nat);
        assert(part_at(prefix + a, prefix + b, n + k));
    }
}

proof fn lemma_goes_on_after_prefix(prefix: Seq<char>, a: Seq<char>, b: Seq<char>)
    requires
        is_pattern(a),
        goes_on(a, b),
    ensures
        goes_on(prefix + a, prefix + b),
{
    assert((prefix + b).take((prefix + a).len() as int) =~= prefix + b.take(a.len() as int));
    lemma_capture_after_prefix(prefix, a, a.len());
}

/// `a` and `b` have the same first `n` characters, told character by character.
pub(crate) open spec fn same_start(a: Seq<char>, b: Seq<char>, n: nat) -> bool
    decreases n,
{
    n == 0 || (a[n - 1] == b[n - 1] && same_start(a, b, (n - 1) as nat))
}

/// What stands at each of the first `n` places of `p` may stand there.
pub(crate) open spec fn well_placed_up_to(p: Seq<char>, n: nat) -> bool
    decreases n,
{
    n == 0 || (well_placed(p, n - 1) && well_placed_up_to(p, (n - 1) as nat))
}

pub(crate) proof fn lemma_same_start(a: Seq<char>, b: Seq<char>, n: nat)
    requires
        n <= a.len(),
        n <= b.len(),
        same_start(a, b, n),
    ensures
        a.take(n as int) == b.take(n as int),
    decreases n,
{
    if n > 0 {
        lemma_same_start(a, b, (n - 1) as nat);
        assert(a.take(n as int) =~= a.take(n - 1).push(a[n - 1]));
        assert(b.take(n as int) =~= b.take(n - 1).push(b[n - 1]));
    } else {
        assert(a.take(0) =~= b.take(0));
    }
}

pub(crate) proof fn lemma_same(a: Seq<char>, b: Seq<char>)
    requires
        a.len() == b.len(),
        same_start(a, b, a.len()),
    ensures
        a == b,
{
    lemma_same_start(a, b, a.len());
    assert(a.take(a.len() as int) =~= a);
    assert(b.take(b.len() as int) =~= b);
}

pub(crate) proof fn lemma_is_pattern(p: Seq<char>, n: nat)
    requires
        n <= p.len(),
        well_placed_up_to(p, n),
    ensures
        forall|i: int| 0 <= i < n ==> well_placed(p, i),
    decreases n,
{
    if n > 0 {
        lemma_is_pattern(p, (n - 1) as nat);
    }
}

pub(crate) proof fn lemma_part_at(a: Seq<char>, b: Seq<char>, k: nat)
    requires
        k < a.len(),
        k < b.len(),
        same_start(a, b, k),
        a[k as int] != b[k as int],
        !ends_in_capture(a, k),
    ensures
        compatible(a, b),
{
    lemma_same_start(a, b, k);
    assert(part_at(a, b, k as int));
}

pub(crate) proof fn lemma_goes_on(a: Seq<char>, b: Seq<char>)
    requires
        a.len() < b.len(),
        same_start(a, b, a.len()),
        b[a.len() as int] == '/',
    ensures
        compatible(a, b),
{
    lemma_same_start(a, b, a.len());
    assert(a.take(a.len() as int) =~= a);
    assert(goes_on(a, b));
}

} // verus!
