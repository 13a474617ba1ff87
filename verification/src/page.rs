//! The text of a page that is to become a template.
//!
//! Tera reads what stands in `{{ .. }}` and `{% .. %}`. Text around such tags,
//! comments (`{# .. #}`), raw blocks (`{% raw %} .. {% endraw %}`) and quoted
//! strings are taken as they are.
use vstd::prelude::*;

verus! {

/// Where in a page a character stands.
#[derive(Clone, Copy)]
pub enum Place {
    /// Outside of all tags.
    Text,
    /// In a comment.
    Comment,
    /// In a raw block.
    Raw,
    /// In a tag; `opened` where the last character but blanks is one that an
    /// argument follows: a `(` or a `,`.
    Tag { opened: bool },
    /// In a string within a tag, which ends with the quote that it starts with.
    Quoted { quote: char },
}

/// Blanks, which mean nothing between the parts of a tag.
pub open spec fn is_blank(c: char) -> bool {
    c == ' ' || c == '\t' || c == '\r' || c == '\n'
}

/// Strings start and end with one of these.
pub open spec fn is_quote(c: char) -> bool {
    c == '"' || c == '\'' || c == '`'
}

/// The characters `a` and `b` stand at `i`.
pub open spec fn pair_at(page: Seq<char>, i: int, a: char, b: char) -> bool {
    &&& i + 1 < page.len()
    &&& page[i] == a
    &&& page[i + 1] == b
}

/// `word` stands at `i`.
pub open spec fn word_at(page: Seq<char>, i: int, word: Seq<char>) -> bool {
    &&& i + word.len() <= page.len()
    &&& page.subrange(i, i + word.len()) == word
}

/// The first place from `i` on where no blank stands.
pub open spec fn past_blanks(page: Seq<char>, i: int) -> int
    decreases page.len() - i,
{
    if i < page.len() && is_blank(page[i]) {
        past_blanks(page, i + 1)
    } else {
        i
    }
}

/// The place behind a `-` at `i`, if there is one.
pub open spec fn past_dash(page: Seq<char>, i: int) -> int {
    if i < page.len() && page[i] == '-' {
        i + 1
    } else {
        i
    }
}

/// A tag that consists of `word` stands at `i`.
pub open spec fn is_word_tag(page: Seq<char>, i: int, word: Seq<char>) -> bool {
    let start = past_blanks(page, past_dash(page, i + 2));
    let end = past_dash(page, past_blanks(page, start + word.len()));
    &&& pair_at(page, i, '{', '%')
    &&& word_at(page, start, word)
    &&& pair_at(page, end, '%', '}')
}

/// What comes after the character at `i`, which stands in `place`: where to
/// read on, and what that place is.
pub open spec fn read_on(page: Seq<char>, i: int, place: Place) -> (int, Place) {
    match place {
        Place::Text => if pair_at(page, i, '{', '#') {
            (i + 2, Place::Comment)
        } else if is_word_tag(page, i, "raw"@) {
            (i + 2, Place::Raw)
        } else if pair_at(page, i, '{', '{') || pair_at(page, i, '{', '%') {
            (i + 2, Place::Tag { opened: false })
        } else {
            (i + 1, Place::Text)
        },
        Place::Comment => if pair_at(page, i, '#', '}') {
            (i + 2, Place::Text)
        } else {
            (i + 1, Place::Comment)
        },
        Place::Raw => if is_word_tag(page, i, "endraw"@) {
            (i + 2, Place::Tag { opened: false })
        } else {
            (i + 1, Place::Raw)
        },
        Place::Tag { opened } => if page[i] == '}' {
            (i + 1, Place::Text)
        } else if is_quote(page[i]) {
            (i + 1, Place::Quoted { quote: page[i] })
        } else if is_blank(page[i]) {
            (i + 1, place)
        } else {
            (i + 1, Place::Tag { opened: page[i] == '(' || page[i] == ',' })
        },
        Place::Quoted { quote } => if page[i] == quote {
            (i + 1, Place::Tag { opened: false })
        } else {
            (i + 1, place)
        },
    }
}

/// From `i` on, which stands in `place`, an argument of a tag starts with `[`.
pub open spec fn lists_from(page: Seq<char>, i: int, place: Place) -> bool
    decreases page.len() - i,
{
    if i >= page.len() {
        false
    } else if place == (Place::Tag { opened: true }) && page[i] == '[' {
        true
    } else {
        lists_from(page, read_on(page, i, place).0, read_on(page, i, place).1)
    }
}

/// A test in the page is handed a list, as in `{{ n is in([1]) }}`: only there
/// can a `[` follow a `(` or a `,` in a tag. (The arguments of functions and
/// filters have names, and a list of lists cannot be written.)
pub open spec fn hands_list_to_test(page: Seq<char>) -> bool {
    lists_from(page, 0, Place::Text)
}

/// Text that opens no tag hands no list to a test, whatever brackets it holds.
pub proof fn lemma_plain_text_hands_no_list(page: Seq<char>)
    requires
        !page.contains('{'),
    ensures
        !hands_list_to_test(page),
{
    lemma_plain_text_from(page, 0);
}

proof fn lemma_plain_text_from(page: Seq<char>, i: int)
    requires
        0 <= i,
        !page.contains('{'),
    ensures
        !lists_from(page, i, Place::Text),
    decreases page.len() - i,
{
    if i < page.len() {
        assert(page.contains(page[i]));
        lemma_plain_text_from(page, i + 1);
    }
}

/// A found list stands as it should: in a tag that was opened, behind a `(` or a
/// `,` and blanks. `start` is where the tag was opened, `before` where the last
/// character but blanks stands.
proof fn lemma_found(page: Seq<char>, i: int, place: Place, start: int, before: int)
    requires
        0 <= i,
        lists_from(page, i, place),
        place is Tag || place is Quoted ==> {
            &&& 0 <= start
            &&& start + 1 < i
            &&& start + 1 < page.len()
            &&& page[start] == '{'
            &&& page[start + 1] == '{' || page[start + 1] == '%'
        },
        place == (Place::Tag { opened: true }) ==> {
            &&& start + 1 < before < i
            &&& page[before] == '(' || page[before] == ','
            &&& forall|m: int| before < m < i ==> is_blank(#[trigger] page[m])
        },
    ensures
        is_list_found(page),
    decreases page.len() - i,
{
    if place == (Place::Tag { opened: true }) && page[i] == '[' {
        assert(is_list_at(page, start, before, i));
    } else {
        let next = read_on(page, i, place);
        match place {
            Place::Tag { opened } => {
                let last = if is_blank(page[i]) {
                    before
                } else {
                    i
                };
                lemma_found(page, next.0, next.1, start, last);
            },
            Place::Quoted { .. } => {
                lemma_found(page, next.0, next.1, start, before);
            },
            _ => {
                lemma_found(page, next.0, next.1, i, before);
            },
        }
    }
}

/// At `list` stands a `[` behind the `(` or `,` at `before` and blanks, all of it
/// behind the start of a tag.
pub(crate) open spec fn is_list_at(
    page: Seq<char>,
    start: int,
    before: int,
    list: int,
) -> bool {
    &&& 0 <= start
    &&& start + 1 < before < list < page.len()
    &&& page[start] == '{'
    &&& page[start + 1] == '{' || page[start + 1] == '%'
    &&& page[before] == '(' || page[before] == ','
    &&& forall|m: int| before < m < list ==> is_blank(#[trigger] page[m])
    &&& page[list] == '['
}

pub(crate) open spec fn is_list_found(page: Seq<char>) -> bool {
    exists|start: int, before: int, list: int| is_list_at(page, start, before, list)
}

pub(crate) proof fn lemma_found_in(page: Seq<char>)
    requires
        hands_list_to_test(page),
    ensures
        is_list_found(page),
{
    lemma_found(page, 0, Place::Text, 0, 0);
}

proof fn lemma_past_blanks(page: Seq<char>, i: int)
    requires
        0 <= i,
    ensures
        past_blanks(page, i) >= i,
    decreases page.len() - i,
{
    if i < page.len() && is_blank(page[i]) {
        lemma_past_blanks(page, i + 1);
    }
}

proof fn lemma_past_blanks_shifted(start: Seq<char>, page: Seq<char>, i: int)
    requires
        0 <= i,
    ensures
        past_blanks(start + page, start.len() + i) == start.len() + past_blanks(page, i),
    decreases page.len() - i,
{
    if i < page.len() {
        assert((start + page)[start.len() + i] == page[i]);
        if is_blank(page[i]) {
            lemma_past_blanks_shifted(start, page, i + 1);
        }
    }
}

proof fn lemma_word_tag_shifted(start: Seq<char>, page: Seq<char>, i: int, word: Seq<char>)
    requires
        0 <= i,
    ensures
        is_word_tag(start + page, start.len() + i, word) == is_word_tag(page, i, word),
{
    let n = start.len();
    let whole = start + page;
    let a = past_dash(page, i + 2);
    assert(past_dash(whole, n + i + 2) == n + a);
    lemma_past_blanks_shifted(start, page, a);
    lemma_past_blanks(page, a);
    let b = past_blanks(page, a);
    if b + word.len() <= page.len() {
        assert(whole.subrange(n + b, n + b + word.len()) =~= page.subrange(b, b + word.len()));
    }
    lemma_past_blanks_shifted(start, page, (b + word.len()) as int);
    lemma_past_blanks(page, (b + word.len()) as int);
    let c = past_blanks(page, (b + word.len()) as int);
    assert(past_dash(whole, n + c) == n + past_dash(page, c));
    let d = past_dash(page, c);
    assert(pair_at(whole, n + d, '%', '}') == pair_at(page, d, '%', '}'));
    assert(pair_at(whole, n + i, '{', '%') == pair_at(page, i, '{', '%'));
}

/// What is found from a place on does not depend on what stands before it.
pub(crate) proof fn lemma_shifted(start: Seq<char>, page: Seq<char>, i: int, place: Place)
    requires
        0 <= i,
    ensures
        lists_from(start + page, start.len() + i, place) == lists_from(page, i, place),
    decreases page.len() - i,
{
    let n = start.len();
    let whole = start + page;
    if i < page.len() {
        assert(whole[n + i] == page[i]);
        if i + 1 < page.len() {
            assert(whole[n + i + 1] == page[i + 1]);
        }
        lemma_word_tag_shifted(start, page, i, "raw"@);
        lemma_word_tag_shifted(start, page, i, "endraw"@);
        let next = read_on(page, i, place);
        assert(read_on(whole, n + i, place) == (n + next.0, next.1));
        lemma_shifted(start, page, next.0, next.1);
    }
}

/// Text that opens no tag is read over.
pub(crate) proof fn lemma_over_text(page: Seq<char>, i: int, n: nat)
    requires
        0 <= i,
        i + n <= page.len(),
        forall|m: int|
            i <= m < i + n && m + 1 < page.len() && #[trigger] page[m] == '{' ==> page[m + 1] != '{'
                && page[m + 1] != '%' && page[m + 1] != '#',
    ensures
        lists_from(page, i, Place::Text) == lists_from(page, i + n, Place::Text),
    decreases n,
{
    if n > 0 {
        assert(page[i] == '{' && i + 1 < page.len() ==> page[i + 1] != '{');
        lemma_over_text(page, i + 1, (n - 1) as nat);
    }
}

/// What a comment holds is read over.
pub(crate) proof fn lemma_over_comment(page: Seq<char>, i: int, n: nat)
    requires
        0 <= i,
        i + n <= page.len(),
        forall|m: int| i <= m < i + n ==> !(#[trigger] page[m] == '#' && m + 1 < page.len()
            && page[m + 1] == '}'),
    ensures
        lists_from(page, i, Place::Comment) == lists_from(page, i + n, Place::Comment),
    decreases n,
{
    if n > 0 {
        assert(!(page[i] == '#' && i + 1 < page.len() && page[i + 1] == '}'));
        lemma_over_comment(page, i + 1, (n - 1) as nat);
    }
}

proof fn lemma_blanks_end(page: Seq<char>, i: int, end: int)
    requires
        0 <= i <= end < page.len(),
        !is_blank(page[end]),
    ensures
        i <= past_blanks(page, i) <= end,
    decreases end - i,
{
    if is_blank(page[i]) {
        lemma_blanks_end(page, i + 1, end);
    }
}

/// Where blanks are followed by something else, they end there.
proof fn lemma_blanks_up_to(page: Seq<char>, i: int, end: int)
    requires
        0 <= i <= end < page.len(),
        forall|m: int| i <= m < end ==> is_blank(#[trigger] page[m]),
        !is_blank(page[end]),
    ensures
        past_blanks(page, i) == end,
    decreases end - i,
{
    if i < end {
        assert(is_blank(page[i]));
        lemma_blanks_up_to(page, i + 1, end);
    }
}

/// The word of a tag starts at `start`, behind a dash, if there is one, and
/// blanks.
pub(crate) proof fn lemma_word_starts(page: Seq<char>, i: int, start: int)
    requires
        0 <= i,
        i + 2 <= start < page.len(),
        forall|m: int|
            i + 2 <= m < start ==> (m == i + 2 && page[m] == '-') || is_blank(#[trigger] page[m]),
        !is_blank(page[start]),
        page[start] != '-',
    ensures
        past_blanks(page, past_dash(page, i + 2)) == start,
{
    lemma_blanks_up_to(page, past_dash(page, i + 2), start);
}

/// The tag ends at `end`, behind blanks and a dash, if there is one.
pub(crate) proof fn lemma_word_ends(page: Seq<char>, i: int, end: int)
    requires
        0 <= i <= end,
        pair_at(page, end, '%', '}'),
        forall|m: int|
            i <= m < end ==> (m == end - 1 && page[m] == '-') || is_blank(#[trigger] page[m]),
    ensures
        past_dash(page, past_blanks(page, i)) == end,
{
    if i < end && page[end - 1] == '-' {
        lemma_blanks_up_to(page, i, end - 1);
    } else {
        lemma_blanks_up_to(page, i, end);
    }
}

/// Before a `{` at `end`, no tag that ends a raw block starts unless its word
/// stands there.
pub(crate) proof fn lemma_no_endraw(page: Seq<char>, m: int, end: int)
    requires
        0 <= m < end < page.len(),
        page[end] == '{',
        forall|k: int|
            m < k && k + 6 <= end ==> #[trigger] page.subrange(k, k + 6) != "endraw"@,
    ensures
        !is_word_tag(page, m, "endraw"@),
{
    reveal_strlit("endraw");
    if is_word_tag(page, m, "endraw"@) {
        let start = past_blanks(page, past_dash(page, m + 2));
        lemma_blanks_end(page, past_dash(page, m + 2), end);
        let word = page.subrange(start, start + 6);
        assert(word =~= "endraw"@);
        if start + 6 > end {
            assert(word[end - start] == page[end]);
            assert("endraw"@ =~= seq!['e', 'n', 'd', 'r', 'a', 'w']);
        } else {
            assert(page.subrange(start, start + 6) != "endraw"@);
        }
    }
}

/// What a raw block holds is read over.
pub(crate) proof fn lemma_over_raw(page: Seq<char>, i: int, n: nat)
    requires
        0 <= i,
        i + n <= page.len(),
        forall|m: int| i <= m < i + n ==> !#[trigger] is_word_tag(page, m, "endraw"@),
    ensures
        lists_from(page, i, Place::Raw) == lists_from(page, i + n, Place::Raw),
    decreases n,
{
    if n > 0 {
        assert(!is_word_tag(page, i, "endraw"@));
        lemma_over_raw(page, i + 1, (n - 1) as nat);
    }
}

/// What a string holds is read over.
pub(crate) proof fn lemma_over_string(page: Seq<char>, i: int, n: nat, quote: char)
    requires
        0 <= i,
        i + n <= page.len(),
        forall|m: int| i <= m < i + n ==> page[m] != quote,
    ensures
        lists_from(page, i, Place::Quoted { quote }) == lists_from(
            page,
            i + n,
            Place::Quoted { quote },
        ),
    decreases n,
{
    if n > 0 {
        lemma_over_string(page, i + 1, (n - 1) as nat, quote);
    }
}

/// Whether the first `n` characters of a part of a tag leave an argument to
/// follow, unless they hand over a list already.
pub(crate) open spec fn over_part(part: Seq<char>, n: nat, opened: bool) -> Option<bool>
    decreases n,
{
    if n == 0 {
        Some(opened)
    } else {
        match over_part(part, (n - 1) as nat, opened) {
            None => None,
            Some(o) => if o && part[n - 1] == '[' {
                None
            } else if is_blank(part[n - 1]) {
                Some(o)
            } else {
                Some(part[n - 1] == '(' || part[n - 1] == ',')
            },
        }
    }
}

/// A part of a tag without strings is read over.
pub(crate) proof fn lemma_over_part(
    page: Seq<char>,
    i: int,
    part: Seq<char>,
    n: nat,
    opened: bool,
)
    requires
        0 <= i,
        n <= part.len(),
        i + n <= page.len(),
        forall|m: int| 0 <= m < n ==> page[i + m] == #[trigger] part[m],
        forall|m: int| 0 <= m < n ==> #[trigger] part[m] != '}' && !is_quote(part[m]),
    ensures
        lists_from(page, i, Place::Tag { opened }) == match over_part(part, n, opened) {
            None => true,
            Some(o) => lists_from(page, i + n, Place::Tag { opened: o }),
        },
    decreases n,
{
    if n > 0 {
        lemma_over_part(page, i, part, (n - 1) as nat, opened);
        assert(page[i + (n - 1)] == part[n - 1]);
    }
}

/// Behind blanks an argument still follows.
pub(crate) proof fn lemma_over_blanks(page: Seq<char>, i: int, n: nat)
    requires
        0 <= i,
        i + n <= page.len(),
        forall|m: int| i <= m < i + n ==> is_blank(#[trigger] page[m]),
    ensures
        lists_from(page, i, Place::Tag { opened: true }) == lists_from(
            page,
            i + n,
            Place::Tag { opened: true },
        ),
    decreases n,
{
    if n > 0 {
        assert(is_blank(page[i]));
        lemma_over_blanks(page, i + 1, (n - 1) as nat);
    }
}

fn blank(c: char) -> (b: bool)
    ensures
        b == is_blank(c),
{
    c == ' ' || c == '\t' || c == '\r' || c == '\n'
}

/// The characters of a text.
fn chars_of(text: &str) -> (chars: Vec<char>)
    ensures
        chars@ == text@,
{
    let mut chars: Vec<char> = Vec::new();
    for c in it: text.chars()
        invariant
            chars@ == it.seq().take(it.index() as int),
    {
        chars.push(c);
    }
    chars
}

fn has_pair(page: &Vec<char>, i: usize, a: char, b: char) -> (r: bool)
    requires
        i <= page.len(),
    ensures
        r == pair_at(page@, i as int, a, b),
{
    page.len() - i >= 2 && page[i] == a && page[i + 1] == b
}

fn has_word(page: &Vec<char>, i: usize, word: &Vec<char>) -> (r: bool)
    requires
        i <= page.len(),
    ensures
        r == word_at(page@, i as int, word@),
{
    if page.len() - i < word.len() {
        return false;
    }
    let mut k: usize = 0;
    while k < word.len()
        invariant
            k <= word.len() <= page.len() - i,
            i <= page.len(),
            forall|m: int| 0 <= m < k ==> page@[i + m] == #[trigger] word@[m],
        decreases word.len() - k,
    {
        if page[i + k] != word[k] {
            proof {
                assert(page@.subrange(i as int, i + word@.len())[k as int] != word@[k as int]);
            }
            return false;
        }
        k += 1;
    }
    proof {
        assert(page@.subrange(i as int, i + word@.len()) =~= word@);
    }
    true
}

fn skip_blanks(page: &Vec<char>, start: usize) -> (end: usize)
    requires
        start <= page.len(),
    ensures
        start <= end <= page.len(),
        end == past_blanks(page@, start as int),
{
    let mut i: usize = start;
    while i < page.len() && blank(page[i])
        invariant
            start <= i <= page.len(),
            past_blanks(page@, start as int) == past_blanks(page@, i as int),
        decreases page.len() - i,
    {
        i += 1;
    }
    i
}

fn skip_dash(page: &Vec<char>, start: usize) -> (end: usize)
    requires
        start <= page.len(),
    ensures
        start <= end <= page.len(),
        end == past_dash(page@, start as int),
{
    if start < page.len() && page[start] == '-' {
        start + 1
    } else {
        start
    }
}

fn has_word_tag(page: &Vec<char>, i: usize, word: &Vec<char>) -> (r: bool)
    requires
        i <= page.len(),
    ensures
        r == is_word_tag(page@, i as int, word@),
{
    if !has_pair(page, i, '{', '%') {
        return false;
    }
    let start: usize = skip_blanks(page, skip_dash(page, i + 2));
    if !has_word(page, start, word) {
        return false;
    }
    let end: usize = skip_dash(page, skip_blanks(page, start + word.len()));
    has_pair(page, end, '%', '}')
}

/// Whether a test in the page is handed a list.
pub fn list_in_test(page: &str) -> (b: bool)
    ensures
        b == hands_list_to_test(page@),
{
    let raw = chars_of("raw");
    let endraw = chars_of("endraw");
    let text = chars_of(page);
    let mut i: usize = 0;
    let mut place = Place::Text;
    while i < text.len()
        invariant
            i <= text.len(),
            text@ == page@,
            raw@ == "raw"@,
            endraw@ == "endraw"@,
            hands_list_to_test(text@) == lists_from(text@, i as int, place),
        decreases text.len() - i,
    {
        let c = text[i];
        let mut width: usize = 1;
        let mut next = place;
        match place {
            Place::Text => {
                if has_pair(&text, i, '{', '#') {
                    width = 2;
                    next = Place::Comment;
                } else if has_word_tag(&text, i, &raw) {
                    width = 2;
                    next = Place::Raw;
                } else if has_pair(&text, i, '{', '{') || has_pair(&text, i, '{', '%') {
                    width = 2;
                    next = Place::Tag { opened: false };
                }
            },
            Place::Comment => {
                if has_pair(&text, i, '#', '}') {
                    width = 2;
                    next = Place::Text;
                }
            },
            Place::Raw => {
                if has_word_tag(&text, i, &endraw) {
                    width = 2;
                    next = Place::Tag { opened: false };
                }
            },
            Place::Tag { opened } => {
                if opened && c == '[' {
                    return true;
                }
                if c == '}' {
                    next = Place::Text;
                } else if c == '"' || c == '\'' || c == '`' {
                    next = Place::Quoted { quote: c };
                } else if !blank(c) {
                    next = Place::Tag { opened: c == '(' || c == ',' };
                }
            },
            Place::Quoted { quote } => {
                if c == quote {
                    next = Place::Tag { opened: false };
                }
            },
        }
        proof {
            assert((i + width, next) == read_on(text@, i as int, place));
        }
        i = i + width;
        place = next;
    }
    false
}

} // verus!
