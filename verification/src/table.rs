//! The patterns of the site: why a router can hold them together, and how they
//! are made up.
use vstd::prelude::*;

verus! {

/// `p` goes on after the pattern of a project, with the character `c`.
spec fn beyond_project(p: Seq<char>, c: char) -> bool {
    &&& p.len() > 31
    &&& crate::pattern::same_start("/projects/:foundation/:project"@, p, 30)
    &&& p[30] == '/'
    &&& p[31] == c
}

proof fn lemma_search()
    ensures
        crate::pattern::is_pattern("/projects/search"@),
        "/projects/search"@.len() == 16,
        "/projects/search"@[1] == 'p',
        "/projects/search"@[10] == 's',
        crate::pattern::same_start("/projects/search"@, "/projects/:foundation/:project"@, 10),
{
    reveal_strlit("/projects/search");
    reveal_strlit("/projects/:foundation/:project");
    reveal_with_fuel(crate::pattern::same_start, 11);
    reveal_with_fuel(crate::pattern::well_placed_up_to, 17);
    crate::pattern::lemma_is_pattern("/projects/search"@, 16);
}

proof fn lemma_project()
    ensures
        crate::pattern::is_pattern("/projects/:foundation/:project"@),
        "/projects/:foundation/:project"@.len() == 30,
        "/projects/:foundation/:project"@[1] == 'p',
        "/projects/:foundation/:project"@[9] == '/',
        "/projects/:foundation/:project"@[10] == ':',
{
    reveal_strlit("/projects/:foundation/:project");
    reveal_with_fuel(crate::pattern::well_placed_up_to, 31);
    crate::pattern::lemma_is_pattern("/projects/:foundation/:project"@, 30);
}

proof fn lemma_badge()
    ensures
        crate::pattern::is_pattern("/projects/:foundation/:project/badge"@),
        beyond_project("/projects/:foundation/:project/badge"@, 'b'),
{
    reveal_strlit("/projects/:foundation/:project");
    reveal_strlit("/projects/:foundation/:project/badge");
    reveal_with_fuel(crate::pattern::same_start, 31);
    reveal_with_fuel(crate::pattern::well_placed_up_to, 37);
    crate::pattern::lemma_is_pattern("/projects/:foundation/:project/badge"@, 36);
}

proof fn lemma_report_summary()
    ensures
        crate::pattern::is_pattern("/projects/:foundation/:project/report-summary"@),
        beyond_project("/projects/:foundation/:project/report-summary"@, 'r'),
{
    reveal_strlit("/projects/:foundation/:project");
    reveal_strlit("/projects/:foundation/:project/report-summary");
    reveal_with_fuel(crate::pattern::same_start, 31);
    reveal_with_fuel(crate::pattern::well_placed_up_to, 46);
    crate::pattern::lemma_is_pattern("/projects/:foundation/:project/report-summary"@, 45);
}

proof fn lemma_snapshot()
    ensures
        crate::pattern::is_pattern("/projects/:foundation/:project/snapshots/:date"@),
        beyond_project("/projects/:foundation/:project/snapshots/:date"@, 's'),
{
    reveal_strlit("/projects/:foundation/:project");
    reveal_strlit("/projects/:foundation/:project/snapshots/:date");
    reveal_with_fuel(crate::pattern::same_start, 31);
    reveal_with_fuel(crate::pattern::well_placed_up_to, 47);
    crate::pattern::lemma_is_pattern("/projects/:foundation/:project/snapshots/:date"@, 46);
}

proof fn lemma_report_md()
    ensures
        crate::pattern::is_pattern("/projects/:foundation/:project/:repository/report.md"@),
        beyond_project("/projects/:foundation/:project/:repository/report.md"@, ':'),
{
    reveal_strlit("/projects/:foundation/:project");
    reveal_strlit("/projects/:foundation/:project/:repository/report.md");
    reveal_with_fuel(crate::pattern::same_start, 31);
    reveal_with_fuel(crate::pattern::well_placed_up_to, 53);
    crate::pattern::lemma_is_pattern("/projects/:foundation/:project/:repository/report.md"@, 52);
}

proof fn lemma_report_summary_png()
    ensures
        crate::pattern::is_pattern("/projects/:foundation/:project/report-summary.png"@),
        beyond_project("/projects/:foundation/:project/report-summary.png"@, 'r'),
{
    reveal_strlit("/projects/:foundation/:project");
    reveal_strlit("/projects/:foundation/:project/report-summary.png");
    reveal_with_fuel(crate::pattern::same_start, 31);
    reveal_with_fuel(crate::pattern::well_placed_up_to, 50);
    crate::pattern::lemma_is_pattern("/projects/:foundation/:project/report-summary.png"@, 49);
}

proof fn lemma_stats()
    ensures
        crate::pattern::is_pattern("/stats"@),
        "/stats"@.len() == 6,
        "/stats"@[1] == 's',
{
    reveal_strlit("/stats");
    reveal_with_fuel(crate::pattern::well_placed_up_to, 7);
    crate::pattern::lemma_is_pattern("/stats"@, 6);
}

proof fn lemma_root()
    ensures
        crate::pattern::is_pattern("/"@),
        "/"@.len() == 1,
{
    reveal_strlit("/");
    reveal_with_fuel(crate::pattern::well_placed_up_to, 2);
    crate::pattern::lemma_is_pattern("/"@, 1);
}

proof fn lemma_repositories()
    ensures
        crate::pattern::is_pattern("/data/repositories.csv"@),
        "/data/repositories.csv"@.len() == 22,
        "/data/repositories.csv"@[1] == 'd',
        "/data/repositories.csv"@[2] == 'a',
{
    reveal_strlit("/data/repositories.csv");
    reveal_with_fuel(crate::pattern::well_placed_up_to, 23);
    crate::pattern::lemma_is_pattern("/data/repositories.csv"@, 22);
}

/// Patterns that part right after the first `/` fit together.
pub(crate) proof fn lemma_part_at_once(a: Seq<char>, b: Seq<char>)
    requires
        crate::pattern::is_pattern(a),
        crate::pattern::is_pattern(b),
        a.len() > 1,
        b.len() > 1,
        a[1] != b[1],
    ensures
        crate::pattern::compatible(a, b),
{
    reveal_with_fuel(crate::pattern::same_start, 2);
    crate::pattern::lemma_part_at(a, b, 1);
}

/// Every other pattern fits together with `/`.
pub(crate) proof fn lemma_after_root(p: Seq<char>)
    requires
        crate::pattern::is_pattern(p),
        p.len() > 1,
    ensures
        crate::pattern::compatible("/"@, p),
{
    reveal_strlit("/");
    reveal_with_fuel(crate::pattern::same_start, 2);
    crate::pattern::lemma_same_start("/"@, p, 1);
    assert("/"@.take(1) =~= "/"@);
    assert(crate::pattern::goes_on("/"@, p));
}

/// The pattern of a project fits together with those that go on after it.
proof fn lemma_project_and_beyond(p: Seq<char>, c: char)
    requires
        beyond_project(p, c),
    ensures
        crate::pattern::compatible("/projects/:foundation/:project"@, p),
{
    lemma_project();
    crate::pattern::lemma_goes_on("/projects/:foundation/:project"@, p);
}

/// The search fits together with the projects.
proof fn lemma_search_and_project()
    ensures
        crate::pattern::compatible("/projects/search"@, "/projects/:foundation/:project"@),
{
    lemma_search();
    lemma_project();
    let a = "/projects/search"@;
    let b = "/projects/:foundation/:project"@;
    crate::pattern::lemma_same_start(a, b, 10);
    assert(a[9] == a.take(10)[9]);
    assert(b[9] == b.take(10)[9]);
    crate::pattern::lemma_part_at(a, b, 10);
}

/// The search fits together with what goes on after a project.
proof fn lemma_search_and_beyond(p: Seq<char>, c: char)
    requires
        beyond_project(p, c),
    ensures
        crate::pattern::compatible("/projects/search"@, p),
{
    lemma_search();
    lemma_project();
    let a = "/projects/search"@;
    let b = "/projects/:foundation/:project"@;
    crate::pattern::lemma_same_start(a, b, 10);
    crate::pattern::lemma_same_start(b, p, 30);
    assert(a[9] == a.take(10)[9]);
    assert(b[9] == b.take(10)[9]);
    assert(p.take(10) =~= p.take(30).take(10));
    assert(b.take(10) =~= b.take(30).take(10));
    assert(p[10] == p.take(30)[10]);
    assert(b[10] == b.take(30)[10]);
    assert(crate::pattern::part_at(a, p, 10));
}

/// Two patterns that go on after a project, and part there, fit together.
proof fn lemma_two_beyond(a: Seq<char>, c: char, b: Seq<char>, d: char)
    requires
        beyond_project(a, c),
        beyond_project(b, d),
        c != d,
    ensures
        crate::pattern::compatible(a, b),
{
    lemma_project();
    let p = "/projects/:foundation/:project"@;
    crate::pattern::lemma_same_start(p, a, 30);
    crate::pattern::lemma_same_start(p, b, 30);
    assert(a.take(31) =~= a.take(30).push('/'));
    assert(b.take(31) =~= b.take(30).push('/'));
    assert(crate::pattern::part_at(a, b, 31));
}

/// What goes on after a project starts as a project does.
proof fn lemma_second_character(p: Seq<char>, c: char)
    requires
        beyond_project(p, c),
    ensures
        p[1] == 'p',
{
    lemma_project();
    crate::pattern::lemma_same_start("/projects/:foundation/:project"@, p, 30);
    assert(p[1] == p.take(30)[1]);
}

/// The routes of the API fit together.
pub(crate) proof fn lemma_api_patterns()
    ensures
        crate::pattern::is_pattern("/projects/search"@),
        "/projects/search"@.len() > 1,
        crate::pattern::is_pattern("/projects/:foundation/:project"@),
        "/projects/:foundation/:project"@.len() > 1,
        crate::pattern::is_pattern("/projects/:foundation/:project/badge"@),
        "/projects/:foundation/:project/badge"@.len() > 1,
        crate::pattern::is_pattern("/projects/:foundation/:project/report-summary"@),
        "/projects/:foundation/:project/report-summary"@.len() > 1,
        crate::pattern::is_pattern("/projects/:foundation/:project/snapshots/:date"@),
        "/projects/:foundation/:project/snapshots/:date"@.len() > 1,
        crate::pattern::is_pattern("/projects/:foundation/:project/:repository/report.md"@),
        "/projects/:foundation/:project/:repository/report.md"@.len() > 1,
        crate::pattern::is_pattern("/stats"@),
        "/stats"@.len() > 1,
        crate::pattern::compatible("/projects/search"@, "/projects/:foundation/:project"@),
        crate::pattern::compatible("/projects/search"@, "/projects/:foundation/:project/badge"@),
        crate::pattern::compatible(
            "/projects/:foundation/:project"@,
            "/projects/:foundation/:project/badge"@,
        ),
        crate::pattern::compatible(
            "/projects/search"@,
            "/projects/:foundation/:project/report-summary"@,
        ),
        crate::pattern::compatible(
            "/projects/:foundation/:project"@,
            "/projects/:foundation/:project/report-summary"@,
        ),
        crate::pattern::compatible(
            "/projects/:foundation/:project/badge"@,
            "/projects/:foundation/:project/report-summary"@,
        ),
        crate::pattern::compatible(
            "/projects/search"@,
            "/projects/:foundation/:project/snapshots/:date"@,
        ),
        crate::pattern::compatible(
            "/projects/:foundation/:project"@,
            "/projects/:foundation/:project/snapshots/:date"@,
        ),
        crate::pattern::compatible(
            "/projects/:foundation/:project/badge"@,
            "/projects/:foundation/:project/snapshots/:date"@,
        ),
        crate::pattern::compatible(
            "/projects/:foundation/:project/report-summary"@,
            "/projects/:foundation/:project/snapshots/:date"@,
        ),
        crate::pattern::compatible(
            "/projects/search"@,
            "/projects/:foundation/:project/:repository/report.md"@,
        ),
        crate::pattern::compatible(
            "/projects/:foundation/:project"@,
            "/projects/:foundation/:project/:repository/report.md"@,
        ),
        crate::pattern::compatible(
            "/projects/:foundation/:project/badge"@,
            "/projects/:foundation/:project/:repository/report.md"@,
        ),
        crate::pattern::compatible(
            "/projects/:foundation/:project/report-summary"@,
            "/projects/:foundation/:project/:repository/report.md"@,
        ),
        crate::pattern::compatible(
            "/projects/:foundation/:project/snapshots/:date"@,
            "/projects/:foundation/:project/:repository/report.md"@,
        ),
        crate::pattern::compatible("/projects/search"@, "/stats"@),
        crate::pattern::compatible("/projects/:foundation/:project"@, "/stats"@),
        crate::pattern::compatible("/projects/:foundation/:project/badge"@, "/stats"@),
        crate::pattern::compatible("/projects/:foundation/:project/report-summary"@, "/stats"@),
        crate::pattern::compatible("/projects/:foundation/:project/snapshots/:date"@, "/stats"@),
        crate::pattern::compatible(
            "/projects/:foundation/:project/:repository/report.md"@,
            "/stats"@,
        ),
{
    lemma_search();
    lemma_project();
    lemma_badge();
    lemma_report_summary();
    lemma_snapshot();
    lemma_report_md();
    lemma_stats();
    lemma_search_and_project();
    lemma_search_and_beyond("/projects/:foundation/:project/badge"@, 'b');
    lemma_project_and_beyond("/projects/:foundation/:project/badge"@, 'b');
    lemma_search_and_beyond("/projects/:foundation/:project/report-summary"@, 'r');
    lemma_project_and_beyond("/projects/:foundation/:project/report-summary"@, 'r');
    lemma_search_and_beyond("/projects/:foundation/:project/snapshots/:date"@, 's');
    lemma_project_and_beyond("/projects/:foundation/:project/snapshots/:date"@, 's');
    lemma_search_and_beyond("/projects/:foundation/:project/:repository/report.md"@, ':');
    lemma_project_and_beyond("/projects/:foundation/:project/:repository/report.md"@, ':');
    lemma_two_beyond(
        "/projects/:foundation/:project/badge"@,
        'b',
        "/projects/:foundation/:project/report-summary"@,
        'r',
    );
    lemma_two_beyond(
        "/projects/:foundation/:project/badge"@,
        'b',
        "/projects/:foundation/:project/snapshots/:date"@,
        's',
    );
    lemma_two_beyond(
        "/projects/:foundation/:project/report-summary"@,
        'r',
        "/projects/:foundation/:project/snapshots/:date"@,
        's',
    );
    lemma_two_beyond(
        "/projects/:foundation/:project/badge"@,
        'b',
        "/projects/:foundation/:project/:repository/report.md"@,
        ':',
    );
    lemma_two_beyond(
        "/projects/:foundation/:project/report-summary"@,
        'r',
        "/projects/:foundation/:project/:repository/report.md"@,
        ':',
    );
    lemma_two_beyond(
        "/projects/:foundation/:project/snapshots/:date"@,
        's',
        "/projects/:foundation/:project/:repository/report.md"@,
        ':',
    );
    lemma_part_at_once("/projects/search"@, "/stats"@);
    lemma_part_at_once("/projects/:foundation/:project"@, "/stats"@);
    lemma_second_character("/projects/:foundation/:project/badge"@, 'b');
    lemma_part_at_once("/projects/:foundation/:project/badge"@, "/stats"@);
    lemma_second_character("/projects/:foundation/:project/report-summary"@, 'r');
    lemma_part_at_once("/projects/:foundation/:project/report-summary"@, "/stats"@);
    lemma_second_character("/projects/:foundation/:project/snapshots/:date"@, 's');
    lemma_part_at_once("/projects/:foundation/:project/snapshots/:date"@, "/stats"@);
    lemma_second_character("/projects/:foundation/:project/:repository/report.md"@, ':');
    lemma_part_at_once("/projects/:foundation/:project/:repository/report.md"@, "/stats"@);
}

/// The routes of the pages fit together.
pub(crate) proof fn lemma_page_patterns()
    ensures
        crate::pattern::is_pattern("/"@),
        "/"@.len() == 1,
        crate::pattern::is_pattern("/projects/:foundation/:project"@),
        "/projects/:foundation/:project"@.len() > 1,
        "/projects/:foundation/:project"@[1] == 'p',
        crate::pattern::is_pattern("/projects/:foundation/:project/report-summary.png"@),
        "/projects/:foundation/:project/report-summary.png"@.len() > 1,
        "/projects/:foundation/:project/report-summary.png"@[1] == 'p',
        crate::pattern::is_pattern("/data/repositories.csv"@),
        "/data/repositories.csv"@.len() > 2,
        "/data/repositories.csv"@[1] == 'd',
        "/data/repositories.csv"@[2] == 'a',
        crate::pattern::compatible("/"@, "/projects/:foundation/:project"@),
        crate::pattern::compatible("/"@, "/projects/:foundation/:project/report-summary.png"@),
        crate::pattern::compatible(
            "/projects/:foundation/:project"@,
            "/projects/:foundation/:project/report-summary.png"@,
        ),
        crate::pattern::compatible("/"@, "/data/repositories.csv"@),
        crate::pattern::compatible("/projects/:foundation/:project"@, "/data/repositories.csv"@),
        crate::pattern::compatible(
            "/projects/:foundation/:project/report-summary.png"@,
            "/data/repositories.csv"@,
        ),
{
    lemma_root();
    lemma_project();
    lemma_report_summary_png();
    lemma_repositories();
    lemma_after_root("/projects/:foundation/:project"@);
    lemma_after_root("/projects/:foundation/:project/report-summary.png"@);
    lemma_after_root("/data/repositories.csv"@);
    lemma_project_and_beyond("/projects/:foundation/:project/report-summary.png"@, 'r');
    lemma_second_character("/projects/:foundation/:project/report-summary.png"@, 'r');
    lemma_part_at_once("/projects/:foundation/:project"@, "/data/repositories.csv"@);
    lemma_part_at_once(
        "/projects/:foundation/:project/report-summary.png"@,
        "/data/repositories.csv"@,
    );
}

/// The prefixes of the site.
pub(crate) proof fn lemma_prefixes()
    ensures
        "/api"@ == seq!['/', 'a', 'p', 'i'],
        "/docs"@ == seq!['/', 'd', 'o', 'c', 's'],
        "/static"@ == seq!['/', 's', 't', 'a', 't', 'i', 'c'],
        crate::pattern::is_prefix_pattern("/api"@),
        crate::pattern::is_prefix_pattern("/docs"@),
        crate::pattern::is_prefix_pattern("/static"@),
        crate::pattern::part("/docs"@, "/static"@),
{
    reveal_strlit("/api");
    reveal_strlit("/docs");
    reveal_strlit("/static");
    assert("/api"@ =~= seq!['/', 'a', 'p', 'i']);
    assert("/docs"@ =~= seq!['/', 'd', 'o', 'c', 's']);
    assert("/static"@ =~= seq!['/', 's', 't', 'a', 't', 'i', 'c']);
    assert("/docs"@.take(1) =~= "/static"@.take(1));
    assert(crate::pattern::part_at("/docs"@, "/static"@, 1));
}

/// A pattern is still one with the API's prefix before it.
pub(crate) proof fn lemma_api_prefix(p: Seq<char>)
    requires
        crate::pattern::is_pattern(p),
    ensures
        crate::pattern::is_pattern("/api"@ + p),
        ("/api"@ + p).len() == 4 + p.len(),
        ("/api"@ + p)[1] == 'a',
{
    lemma_prefixes();
    let q = "/api"@ + p;
    assert forall|i: int| 0 <= i < q.len() implies crate::pattern::well_placed(q, i) by {
        if i >= 4 {
            assert(crate::pattern::well_placed(p, i - 4));
            assert(q[i] == p[i - 4]);
        }
    }
}

/// What differs from a prefix does not lie beneath it.
pub(crate) proof fn lemma_not_beneath(n: Seq<char>, p: Seq<char>, k: int)
    requires
        0 <= k < n.len(),
        k < p.len() ==> n[k] != p[k],
    ensures
        !crate::pattern::beneath(n, p),
{
    if crate::pattern::beneath(n, p) {
        assert(p.take(n.len() as int)[k] == p[k]);
    }
}

proof fn lemma_api_search()
    ensures
        "/api"@ + "/projects/search"@ == "/api/projects/search"@,
{
    reveal_strlit("/api");
    reveal_strlit("/projects/search");
    reveal_strlit("/api/projects/search");
    reveal_with_fuel(crate::pattern::same_start, 21);
    crate::pattern::lemma_same("/api"@ + "/projects/search"@, "/api/projects/search"@);
}

proof fn lemma_api_project()
    ensures
        "/api"@ + "/projects/:foundation/:project"@ == "/api/projects/:foundation/:project"@,
{
    reveal_strlit("/api");
    reveal_strlit("/projects/:foundation/:project");
    reveal_strlit("/api/projects/:foundation/:project");
    reveal_with_fuel(crate::pattern::same_start, 35);
    crate::pattern::lemma_same(
        "/api"@ + "/projects/:foundation/:project"@,
        "/api/projects/:foundation/:project"@,
    );
}

proof fn lemma_api_badge()
    ensures
        "/api"@ + "/projects/:foundation/:project/badge"@
            == "/api/projects/:foundation/:project/badge"@,
{
    reveal_strlit("/api");
    reveal_strlit("/projects/:foundation/:project/badge");
    reveal_strlit("/api/projects/:foundation/:project/badge");
    reveal_with_fuel(crate::pattern::same_start, 41);
    crate::pattern::lemma_same(
        "/api"@ + "/projects/:foundation/:project/badge"@,
        "/api/projects/:foundation/:project/badge"@,
    );
}

proof fn lemma_api_report_summary()
    ensures
        "/api"@ + "/projects/:foundation/:project/report-summary"@
            == "/api/projects/:foundation/:project/report-summary"@,
{
    reveal_strlit("/api");
    reveal_strlit("/projects/:foundation/:project/report-summary");
    reveal_strlit("/api/projects/:foundation/:project/report-summary");
    reveal_with_fuel(crate::pattern::same_start, 50);
    crate::pattern::lemma_same(
        "/api"@ + "/projects/:foundation/:project/report-summary"@,
        "/api/projects/:foundation/:project/report-summary"@,
    );
}

proof fn lemma_api_snapshot()
    ensures
        "/api"@ + "/projects/:foundation/:project/snapshots/:date"@
            == "/api/projects/:foundation/:project/snapshots/:date"@,
{
    reveal_strlit("/api");
    reveal_strlit("/projects/:foundation/:project/snapshots/:date");
    reveal_strlit("/api/projects/:foundation/:project/snapshots/:date");
    reveal_with_fuel(crate::pattern::same_start, 51);
    crate::pattern::lemma_same(
        "/api"@ + "/projects/:foundation/:project/snapshots/:date"@,
        "/api/projects/:foundation/:project/snapshots/:date"@,
    );
}

proof fn lemma_api_report_md()
    ensures
        "/api"@ + "/projects/:foundation/:project/:repository/report.md"@
            == "/api/projects/:foundation/:project/:repository/report.md"@,
{
    reveal_strlit("/api");
    reveal_strlit("/projects/:foundation/:project/:repository/report.md");
    reveal_strlit("/api/projects/:foundation/:project/:repository/report.md");
    reveal_with_fuel(crate::pattern::same_start, 57);
    crate::pattern::lemma_same(
        "/api"@ + "/projects/:foundation/:project/:repository/report.md"@,
        "/api/projects/:foundation/:project/:repository/report.md"@,
    );
}

proof fn lemma_api_stats()
    ensures
        "/api"@ + "/stats"@ == "/api/stats"@,
{
    reveal_strlit("/api");
    reveal_strlit("/stats");
    reveal_strlit("/api/stats");
    reveal_with_fuel(crate::pattern::same_start, 11);
    crate::pattern::lemma_same("/api"@ + "/stats"@, "/api/stats"@);
}

/// The patterns of the API, with its prefix before them.
pub(crate) proof fn lemma_api_paths()
    ensures
        "/api"@ + "/projects/search"@ == "/api/projects/search"@,
        "/api"@ + "/projects/:foundation/:project"@ == "/api/projects/:foundation/:project"@,
        "/api"@ + "/projects/:foundation/:project/badge"@
            == "/api/projects/:foundation/:project/badge"@,
        "/api"@ + "/projects/:foundation/:project/report-summary"@
            == "/api/projects/:foundation/:project/report-summary"@,
        "/api"@ + "/projects/:foundation/:project/snapshots/:date"@
            == "/api/projects/:foundation/:project/snapshots/:date"@,
        "/api"@ + "/projects/:foundation/:project/:repository/report.md"@
            == "/api/projects/:foundation/:project/:repository/report.md"@,
        "/api"@ + "/stats"@ == "/api/stats"@,
{
    lemma_api_search();
    lemma_api_project();
    lemma_api_badge();
    lemma_api_report_summary();
    lemma_api_snapshot();
    lemma_api_report_md();
    lemma_api_stats();
}

proof fn lemma_segments_root()
    ensures
        crate::matching::slashes("/"@, 0) == 1,
{
    reveal_strlit("/");
    reveal_with_fuel(crate::matching::slashes, 2);
}

proof fn lemma_segments_project_page()
    ensures
        crate::matching::slashes("/projects/:foundation/:project"@, 0) == 3,
        crate::matching::past_slashes("/projects/:foundation/:project"@, 0, 1) == 1,
        "/projects/:foundation/:project"@.len() == 30,
        "/projects/:foundation/:project"@[1] == 'p',
{
    reveal_strlit("/projects/:foundation/:project");
    reveal_with_fuel(crate::matching::slashes, 31);
    reveal_with_fuel(crate::matching::past_slashes, 2);
}

proof fn lemma_segments_summary_png()
    ensures
        crate::matching::slashes("/projects/:foundation/:project/report-summary.png"@, 0) == 4,
        crate::matching::past_slashes("/projects/:foundation/:project/report-summary.png"@, 0, 1)
            == 1,
        "/projects/:foundation/:project/report-summary.png"@.len() == 49,
        "/projects/:foundation/:project/report-summary.png"@[1] == 'p',
{
    reveal_strlit("/projects/:foundation/:project/report-summary.png");
    reveal_with_fuel(crate::matching::slashes, 50);
    reveal_with_fuel(crate::matching::past_slashes, 2);
}

proof fn lemma_segments_repositories()
    ensures
        crate::matching::slashes("/data/repositories.csv"@, 0) == 2,
        crate::matching::past_slashes("/data/repositories.csv"@, 0, 1) == 1,
        "/data/repositories.csv"@.len() == 22,
        "/data/repositories.csv"@[1] == 'd',
{
    reveal_strlit("/data/repositories.csv");
    reveal_with_fuel(crate::matching::slashes, 23);
    reveal_with_fuel(crate::matching::past_slashes, 2);
}

proof fn lemma_segments_search()
    ensures
        crate::matching::slashes("/api/projects/search"@, 0) == 3,
        crate::matching::past_slashes("/api/projects/search"@, 0, 1) == 1,
        "/api/projects/search"@.len() == 20,
        "/api/projects/search"@[1] == 'a',
{
    reveal_strlit("/api/projects/search");
    reveal_with_fuel(crate::matching::slashes, 21);
    reveal_with_fuel(crate::matching::past_slashes, 2);
}

proof fn lemma_segments_project()
    ensures
        crate::matching::slashes("/api/projects/:foundation/:project"@, 0) == 4,
        crate::matching::past_slashes("/api/projects/:foundation/:project"@, 0, 1) == 1,
        "/api/projects/:foundation/:project"@.len() == 34,
        "/api/projects/:foundation/:project"@[1] == 'a',
{
    reveal_strlit("/api/projects/:foundation/:project");
    reveal_with_fuel(crate::matching::slashes, 35);
    reveal_with_fuel(crate::matching::past_slashes, 2);
}

proof fn lemma_segments_badge()
    ensures
        crate::matching::slashes("/api/projects/:foundation/:project/badge"@, 0) == 5,
        crate::matching::past_slashes("/api/projects/:foundation/:project/badge"@, 0, 1) == 1,
        "/api/projects/:foundation/:project/badge"@.len() == 40,
        "/api/projects/:foundation/:project/badge"@[1] == 'a',
        crate::matching::past_slashes("/api/projects/:foundation/:project/badge"@, 0, 5) == 35,
        "/api/projects/:foundation/:project/badge"@[35] == 'b',
{
    reveal_strlit("/api/projects/:foundation/:project/badge");
    reveal_with_fuel(crate::matching::slashes, 41);
    reveal_with_fuel(crate::matching::past_slashes, 36);
}

proof fn lemma_segments_summary()
    ensures
        crate::matching::slashes("/api/projects/:foundation/:project/report-summary"@, 0) == 5,
        crate::matching::past_slashes("/api/projects/:foundation/:project/report-summary"@, 0, 1)
            == 1,
        "/api/projects/:foundation/:project/report-summary"@.len() == 49,
        "/api/projects/:foundation/:project/report-summary"@[1] == 'a',
        crate::matching::past_slashes("/api/projects/:foundation/:project/report-summary"@, 0, 5)
            == 35,
        "/api/projects/:foundation/:project/report-summary"@[35] == 'r',
{
    reveal_strlit("/api/projects/:foundation/:project/report-summary");
    reveal_with_fuel(crate::matching::slashes, 50);
    reveal_with_fuel(crate::matching::past_slashes, 36);
}

proof fn lemma_segments_snapshot()
    ensures
        crate::matching::slashes("/api/projects/:foundation/:project/snapshots/:date"@, 0) == 6,
        crate::matching::past_slashes("/api/projects/:foundation/:project/snapshots/:date"@, 0, 1)
            == 1,
        "/api/projects/:foundation/:project/snapshots/:date"@.len() == 50,
        "/api/projects/:foundation/:project/snapshots/:date"@[1] == 'a',
{
    reveal_strlit("/api/projects/:foundation/:project/snapshots/:date");
    reveal_with_fuel(crate::matching::slashes, 51);
    reveal_with_fuel(crate::matching::past_slashes, 2);
}

proof fn lemma_segments_report_md()
    ensures
        crate::matching::slashes("/api/projects/:foundation/:project/:repository/report.md"@, 0)
            == 6,
        crate::matching::past_slashes("/api/projects/:foundation/:project/:repository/report.md"@, 0, 1)
            == 1,
        "/api/projects/:foundation/:project/:repository/report.md"@.len() == 56,
        "/api/projects/:foundation/:project/:repository/report.md"@[1] == 'a',
{
    reveal_strlit("/api/projects/:foundation/:project/:repository/report.md");
    reveal_with_fuel(crate::matching::slashes, 57);
    reveal_with_fuel(crate::matching::past_slashes, 2);
}

proof fn lemma_segments_stats()
    ensures
        crate::matching::slashes("/api/stats"@, 0) == 2,
        crate::matching::past_slashes("/api/stats"@, 0, 1) == 1,
        "/api/stats"@.len() == 10,
        "/api/stats"@[1] == 'a',
{
    reveal_strlit("/api/stats");
    reveal_with_fuel(crate::matching::slashes, 11);
    reveal_with_fuel(crate::matching::past_slashes, 2);
}

/// How many segments the patterns of the site have, and how some of them start.
pub(crate) proof fn lemma_segments()
    ensures
        crate::matching::slashes("/"@, 0) == 1,
        crate::matching::slashes("/projects/:foundation/:project"@, 0) == 3,
        crate::matching::past_slashes("/projects/:foundation/:project"@, 0, 1) == 1,
        "/projects/:foundation/:project"@.len() == 30,
        "/projects/:foundation/:project"@[1] == 'p',
        crate::matching::slashes("/projects/:foundation/:project/report-summary.png"@, 0) == 4,
        crate::matching::past_slashes("/projects/:foundation/:project/report-summary.png"@, 0, 1)
            == 1,
        "/projects/:foundation/:project/report-summary.png"@.len() == 49,
        "/projects/:foundation/:project/report-summary.png"@[1] == 'p',
        crate::matching::slashes("/data/repositories.csv"@, 0) == 2,
        crate::matching::past_slashes("/data/repositories.csv"@, 0, 1) == 1,
        "/data/repositories.csv"@.len() == 22,
        "/data/repositories.csv"@[1] == 'd',
        crate::matching::slashes("/api/projects/search"@, 0) == 3,
        crate::matching::past_slashes("/api/projects/search"@, 0, 1) == 1,
        "/api/projects/search"@.len() == 20,
        "/api/projects/search"@[1] == 'a',
        crate::matching::slashes("/api/projects/:foundation/:project"@, 0) == 4,
        crate::matching::past_slashes("/api/projects/:foundation/:project"@, 0, 1) == 1,
        "/api/projects/:foundation/:project"@.len() == 34,
        "/api/projects/:foundation/:project"@[1] == 'a',
        crate::matching::slashes("/api/projects/:foundation/:project/badge"@, 0) == 5,
        crate::matching::past_slashes("/api/projects/:foundation/:project/badge"@, 0, 1) == 1,
        "/api/projects/:foundation/:project/badge"@.len() == 40,
        "/api/projects/:foundation/:project/badge"@[1] == 'a',
        crate::matching::past_slashes("/api/projects/:foundation/:project/badge"@, 0, 5) == 35,
        "/api/projects/:foundation/:project/badge"@[35] == 'b',
        crate::matching::slashes("/api/projects/:foundation/:project/report-summary"@, 0) == 5,
        crate::matching::past_slashes("/api/projects/:foundation/:project/report-summary"@, 0, 1)
            == 1,
        "/api/projects/:foundation/:project/report-summary"@.len() == 49,
        "/api/projects/:foundation/:project/report-summary"@[1] == 'a',
        crate::matching::past_slashes("/api/projects/:foundation/:project/report-summary"@, 0, 5)
            == 35,
        "/api/projects/:foundation/:project/report-summary"@[35] == 'r',
        crate::matching::slashes("/api/projects/:foundation/:project/snapshots/:date"@, 0) == 6,
        crate::matching::past_slashes("/api/projects/:foundation/:project/snapshots/:date"@, 0, 1)
            == 1,
        "/api/projects/:foundation/:project/snapshots/:date"@.len() == 50,
        "/api/projects/:foundation/:project/snapshots/:date"@[1] == 'a',
        crate::matching::slashes("/api/projects/:foundation/:project/:repository/report.md"@, 0)
            == 6,
        crate::matching::past_slashes("/api/projects/:foundation/:project/:repository/report.md"@, 0, 1)
            == 1,
        "/api/projects/:foundation/:project/:repository/report.md"@.len() == 56,
        "/api/projects/:foundation/:project/:repository/report.md"@[1] == 'a',
        crate::matching::slashes("/api/stats"@, 0) == 2,
        crate::matching::past_slashes("/api/stats"@, 0, 1) == 1,
        "/api/stats"@.len() == 10,
        "/api/stats"@[1] == 'a',
{
    lemma_segments_root();
    lemma_segments_project_page();
    lemma_segments_summary_png();
    lemma_segments_repositories();
    lemma_segments_search();
    lemma_segments_project();
    lemma_segments_badge();
    lemma_segments_summary();
    lemma_segments_snapshot();
    lemma_segments_report_md();
    lemma_segments_stats();
}

/// The snapshots go before the reports of repositories.
pub(crate) proof fn lemma_snapshot_before_report_md()
    ensures
        crate::matching::goes_before(
            "/api/projects/:foundation/:project/snapshots/:date"@,
            "/api/projects/:foundation/:project/:repository/report.md"@,
        ),
{
    let a = "/api/projects/:foundation/:project/snapshots/:date"@;
    let b = "/api/projects/:foundation/:project/:repository/report.md"@;
    reveal_strlit("/api/projects/:foundation/:project/snapshots/:date");
    reveal_strlit("/api/projects/:foundation/:project/:repository/report.md");
    reveal_with_fuel(crate::pattern::same_start, 36);
    crate::pattern::lemma_same_start(a, b, 35);
    assert(crate::matching::captures_first_at(b, a, 35));
}

} // verus!
