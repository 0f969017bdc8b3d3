use vstd::prelude::*;
use vstd::utf8::{decode_utf8, valid_utf8};
use vstd::slice::slice_to_vec;
use crate::text::{
    all_ascii, ascii_lowercase,
    find_char, first_index, lemma_first_index_bounds, leading_token, lines_of, parse_usize, parse_usize_spec,
    skip_white_space, strip_cr, token_end, trim, trim_bounds, trim_start,
};

verus! {

/// What a request asks the settings service for.
#[derive(Clone, Copy, PartialEq, Eq, Debug)]
pub enum Route {
    /// `GET /`: the settings page.
    Page,
    /// `GET /api/settings`: the current settings as JSON.
    GetSettings,
    /// `POST /api/settings`: replace the settings with the JSON body.
    PostSettings,
    /// `POST /api/toggle`: switch the overlay on or off.
    Toggle,
    /// `POST /api/exit`: quit the application.
    Exit,
    /// Anything else.
    NotFound,
}

/// The request line and the framing of a request's head.
#[derive(Clone, Copy, PartialEq, Eq, Debug)]
pub struct RequestHead {
    /// The route, or `None` when the request line has fewer than two words.
    pub route: Option<Route>,
    /// The body length that the head announces (0 when it announces none).
    pub content_length: usize,
}

pub open spec fn get_word() -> Seq<char> {
    seq!['G', 'E', 'T']
}

pub open spec fn post_word() -> Seq<char> {
    seq!['P', 'O', 'S', 'T']
}

pub open spec fn settings_path() -> Seq<char> {
    seq!['/', 'a', 'p', 'i', '/', 's', 'e', 't', 't', 'i', 'n', 'g', 's']
}

pub open spec fn toggle_path() -> Seq<char> {
    seq!['/', 'a', 'p', 'i', '/', 't', 'o', 'g', 'g', 'l', 'e']
}

pub open spec fn exit_path() -> Seq<char> {
    seq!['/', 'a', 'p', 'i', '/', 'e', 'x', 'i', 't']
}

/// The route of a method and path, compared exactly.
pub open spec fn route_of(method: Seq<char>, path: Seq<char>) -> Route {
    if method == get_word() && path == seq!['/'] {
        Route::Page
    } else if method == get_word() && path == settings_path() {
        Route::GetSettings
    } else if method == post_word() && path == settings_path() {
        Route::PostSettings
    } else if method == post_word() && path == toggle_path() {
        Route::Toggle
    } else if method == post_word() && path == exit_path() {
        Route::Exit
    } else {
        Route::NotFound
    }
}

fn same_chars(a: &[char], b: &[char]) -> (res: bool)
    ensures
        res == (a@ == b@),
{
    if a.len() != b.len() {
        return false;
    }
    let n = a.len();
    let mut i: usize = 0;
    while i < n
        invariant
            n == a@.len(),
            n == b@.len(),
            i <= n,
            forall|j: int| 0 <= j < i ==> a@[j] == b@[j],
        decreases n - i,
    {
        if a[i] != b[i] {
            return false;
        }
        i = i + 1;
    }
    assert(a@ =~= b@);
    true
}

/// The route of a request's method and path (see `route_of`).
pub fn route(method: &[char], path: &[char]) -> (r: Route)
    ensures
        r == route_of(method@, path@),
{
    let get = same_chars(method, &['G', 'E', 'T']);
    let post = same_chars(method, &['P', 'O', 'S', 'T']);
    let settings = same_chars(path, &['/', 'a', 'p', 'i', '/', 's', 'e', 't', 't', 'i', 'n', 'g', 's']);
    assert(get == (method@ == get_word()));
    assert(post == (method@ == post_word()));
    assert(settings == (path@ == settings_path()));
    let root = path.len() == 1 && path[0] == '/';
    if root {
        assert(path@ =~= seq!['/']);
    }
    let toggle = same_chars(path, &['/', 'a', 'p', 'i', '/', 't', 'o', 'g', 'g', 'l', 'e']);
    assert(toggle == (path@ == toggle_path()));
    let exit = same_chars(path, &['/', 'a', 'p', 'i', '/', 'e', 'x', 'i', 't']);
    assert(exit == (path@ == exit_path()));
    if get && root {
        Route::Page
    } else if get && settings {
        Route::GetSettings
    } else if post && settings {
        Route::PostSettings
    } else if post && toggle {
        Route::Toggle
    } else if post && exit {
        Route::Exit
    } else {
        Route::NotFound
    }
}

/// `needle` occurs in `haystack` at `i`.
pub open spec fn occurs_at(haystack: Seq<u8>, needle: Seq<u8>, i: int) -> bool {
    0 <= i && i + needle.len() <= haystack.len() && haystack.subrange(i, i + needle.len()) == needle
}

/// The first position at or after `i` where `needle` occurs, or -1.
pub open spec fn first_occurrence_from(haystack: Seq<u8>, needle: Seq<u8>, i: int) -> int
    decreases haystack.len() - i,
{
    if i < 0 || i >= haystack.len() || i + needle.len() > haystack.len() {
        -1
    } else if occurs_at(haystack, needle, i) {
        i
    } else {
        first_occurrence_from(haystack, needle, i + 1)
    }
}

/// The first position where `needle` occurs in `haystack`, if any.
pub open spec fn first_occurrence(haystack: Seq<u8>, needle: Seq<u8>) -> Option<int> {
    let i = first_occurrence_from(haystack, needle, 0);
    if i < 0 { None } else { Some(i) }
}

proof fn lemma_first_occurrence_from_occurs(haystack: Seq<u8>, needle: Seq<u8>, i: int)
    ensures
        first_occurrence_from(haystack, needle, i) >= 0 ==> occurs_at(
            haystack,
            needle,
            first_occurrence_from(haystack, needle, i),
        ) && first_occurrence_from(haystack, needle, i) >= i,
    decreases haystack.len() - i,
{
    if !(i < 0 || i >= haystack.len() || i + needle.len() > haystack.len()) && !occurs_at(haystack, needle, i) {
        lemma_first_occurrence_from_occurs(haystack, needle, i + 1);
    }
}

/// The first occurrence is an occurrence.
pub proof fn lemma_first_occurrence_occurs(haystack: Seq<u8>, needle: Seq<u8>)
    ensures
        first_occurrence(haystack, needle) matches Some(p) ==> occurs_at(haystack, needle, p) && p >= 0,
{
    lemma_first_occurrence_from_occurs(haystack, needle, 0);
}

proof fn lemma_first_occurrence_from_extends(all: Seq<u8>, more: Seq<u8>, needle: Seq<u8>, i: int, p: int)
    requires
        0 <= i <= p,
        first_occurrence_from(all, needle, i) == p,
    ensures
        first_occurrence_from(all + more, needle, i) == p,
    decreases p - i,
{
    let h = all + more;
    assert(!(i < 0 || i >= all.len() || i + needle.len() > all.len()));
    assert(h.len() == all.len() + more.len());
    assert(h.subrange(i, i + needle.len()) =~= all.subrange(i, i + needle.len()));
    assert(occurs_at(h, needle, i) == occurs_at(all, needle, i));
    if i < p {
        assert(!occurs_at(all, needle, i));
        lemma_first_occurrence_from_extends(all, more, needle, i + 1, p);
        assert(first_occurrence_from(h, needle, i) == first_occurrence_from(h, needle, i + 1));
    } else {
        lemma_first_occurrence_from_occurs(all, needle, i + 1);
        assert(occurs_at(all, needle, i));
    }
}

/// Bytes that come later do not move the first occurrence.
pub proof fn lemma_first_occurrence_extends(all: Seq<u8>, more: Seq<u8>, needle: Seq<u8>)
    requires
        first_occurrence(all, needle) is Some,
    ensures
        first_occurrence(all + more, needle) == first_occurrence(all, needle),
{
    let p = first_occurrence_from(all, needle, 0);
    lemma_first_occurrence_from_extends(all, more, needle, 0, p);
}

fn occurs_here(haystack: &[u8], needle: &[u8], i: usize) -> (res: bool)
    requires
        i + needle@.len() <= haystack@.len(),
    ensures
        res == occurs_at(haystack@, needle@, i as int),
{
    let n = needle.len();
    let h = haystack.len();
    let mut k: usize = 0;
    while k < n
        invariant
            n == needle@.len(),
            h == haystack@.len(),
            i + n <= h,
            k <= n,
            forall|j: int| 0 <= j < k ==> haystack@[i + j] == needle@[j],
        decreases n - k,
    {
        if haystack[i + k] != needle[k] {
            assert(haystack@.subrange(i as int, i + n)[k as int] != needle@[k as int]);
            return false;
        }
        k = k + 1;
    }
    assert(haystack@.subrange(i as int, i + n) =~= needle@);
    true
}

/// Where `needle` first occurs in `haystack` (`needle` must not be empty).
pub fn find_subsequence(haystack: &[u8], needle: &[u8]) -> (res: Option<usize>)
    requires
        needle@.len() > 0,
    ensures
        res matches Some(i) ==> first_occurrence(haystack@, needle@) == Some(i as int),
        res is None ==> first_occurrence(haystack@, needle@) is None,
        res matches Some(i) ==> occurs_at(haystack@, needle@, i as int)
            && forall|j: int| 0 <= j < i ==> !occurs_at(haystack@, needle@, j),
        res is None ==> forall|j: int| !occurs_at(haystack@, needle@, j),
{
    let h = haystack.len();
    let n = needle.len();
    if n > h {
        return None;
    }
    let mut i: usize = 0;
    while i <= h - n
        invariant
            h == haystack@.len(),
            n == needle@.len(),
            0 < n <= h,
            i <= h - n + 1,
            first_occurrence_from(haystack@, needle@, 0) == first_occurrence_from(haystack@, needle@, i as int),
            forall|j: int| 0 <= j < i ==> !occurs_at(haystack@, needle@, j),
        decreases h - i,
    {
        if occurs_here(haystack, needle, i) {
            return Some(i);
        }
        i = i + 1;
    }
    None
}

/// What `str::to_lowercase` makes of a text: its Unicode full lower-case
/// mapping, which depends on the text alone.
pub uninterp spec fn lowercase(s: Seq<char>) -> Seq<char>;

/// Calls `str::to_lowercase` on the characters given and hands back the
/// characters of the result. The contract claims that the result is the
/// fixed lower-case mapping of the argument, and that on ASCII text it turns
/// `A`-`Z` into `a`-`z` and keeps every other character; Unicode's case
/// tables for other characters are not restated here.
#[verifier::external_body]
fn to_lowercase_chars(s: &[char]) -> (res: Vec<char>)
    ensures
        res@ == lowercase(s@),
        all_ascii(s@) ==> res@ == ascii_lowercase(s@),
{
    s.iter().collect::<String>().to_lowercase().chars().collect()
}

/// What `String::from_utf8_lossy` makes of bytes: the text they encode, each
/// invalid sequence replaced by U+FFFD.
pub uninterp spec fn utf8_lossy(bytes: Seq<u8>) -> Seq<char>;

/// Calls `String::from_utf8_lossy` and hands back the characters of the
/// result. The contract claims that the result is a fixed function of the
/// bytes and that valid UTF-8 is decoded unchanged; how invalid sequences are
/// replaced is not restated here.
#[verifier::external_body]
fn decode_lossy(bytes: &[u8]) -> (res: Vec<char>)
    ensures
        res@ == utf8_lossy(bytes@),
        valid_utf8(bytes@) ==> res@ == decode_utf8(bytes@),
{
    String::from_utf8_lossy(bytes).chars().collect()
}

pub open spec fn content_length_prefix() -> Seq<char> {
    seq!['c', 'o', 'n', 't', 'e', 'n', 't', '-', 'l', 'e', 'n', 'g', 't', 'h', ':']
}

/// The lower-cased line starts with `content-length:`.
pub open spec fn is_content_length_line(lowered: Seq<char>) -> bool {
    lowered.len() >= 15 && lowered.take(15) == content_length_prefix()
}

/// The text between the first and the second `:` of the line (or its end),
/// if the line has a `:`.
pub open spec fn second_field(line: Seq<char>) -> Option<Seq<char>> {
    let i = first_index(line, ':');
    if i < 0 {
        None
    } else {
        let rest = line.skip(i + 1);
        let j = first_index(rest, ':');
        Some(if j < 0 { rest } else { rest.take(j) })
    }
}

/// The length that a `Content-Length` line sets: its second field, trimmed
/// and read as a decimal number, or 0 where it is not one. Other lines set
/// nothing. `lowered` is the line in lower case, by which it is recognised.
pub open spec fn content_length_from(line: Seq<char>, lowered: Seq<char>) -> Option<usize> {
    if is_content_length_line(lowered) {
        match second_field(line) {
            Some(v) => Some(
                match parse_usize_spec(trim(v)) {
                    Some(n) => n,
                    None => 0,
                },
            ),
            None => None,
        }
    } else {
        None
    }
}

/// The length that a line sets, recognised by its Unicode lower case.
pub open spec fn line_content_length(line: Seq<char>) -> Option<usize> {
    content_length_from(line, lowercase(line))
}

/// The announced body length of ASCII lines, recognised by their ASCII lower
/// case: that of the last line that sets one, or 0.
pub open spec fn ascii_content_length_of(lines: Seq<Seq<char>>) -> usize
    decreases lines.len(),
{
    if lines.len() == 0 {
        0
    } else {
        match content_length_from(lines.last(), ascii_lowercase(lines.last())) {
            Some(n) => n,
            None => ascii_content_length_of(lines.drop_last()),
        }
    }
}

/// The announced body length: that of the last line that sets one, or 0.
pub open spec fn content_length_of(lines: Seq<Seq<char>>) -> usize
    decreases lines.len(),
{
    if lines.len() == 0 {
        0
    } else {
        match line_content_length(lines.last()) {
            Some(n) => n,
            None => content_length_of(lines.drop_last()),
        }
    }
}

/// The first two white-space separated words of the line, if it has two.
pub open spec fn request_target(line: Seq<char>) -> Option<(Seq<char>, Seq<char>)> {
    let a = trim_start(line);
    if a.len() == 0 {
        None
    } else {
        let m = leading_token(a);
        let r = trim_start(a.skip(m.len() as int));
        if r.len() == 0 {
            None
        } else {
            Some((m, leading_token(r)))
        }
    }
}

/// The head of a request whose text (everything before the blank line) is
/// `text`: the route of the first line's method and path, and the announced
/// body length.
pub open spec fn head_of(text: Seq<char>) -> RequestHead {
    let lines = lines_of(text);
    let first = if lines.len() > 0 { lines[0] } else { Seq::empty() };
    RequestHead {
        route: match request_target(first) {
            Some((m, p)) => Some(route_of(m, p)),
            None => None,
        },
        content_length: content_length_of(lines),
    }
}

/// The bounds of the line that starts at `pos` and where the next one starts.
fn next_line(text: &Vec<char>, pos: usize) -> (r: (usize, usize))
    requires
        pos < text@.len(),
    ensures
        pos <= r.0 <= text@.len(),
        pos < r.1 <= text@.len(),
        lines_of(text@.skip(pos as int)) == seq![text@.subrange(pos as int, r.0 as int)] + lines_of(text@.skip(r.1 as int)),
{
    let n = text.len();
    let nl = find_char(text, pos, n, '\n');
    let ghost u = text@.skip(pos as int);
    assert(u =~= text@.subrange(pos as int, n as int));
    if nl == n {
        assert(text@.skip(n as int) =~= Seq::<char>::empty());
        assert(text@.subrange(pos as int, n as int) =~= u);
        (n, n)
    } else {
        proof {
            lemma_first_index_bounds(u, '\n');
            assert(u.skip(nl - pos + 1) =~= text@.skip(nl + 1));
            assert(u.take(nl - pos) =~= text@.subrange(pos as int, nl as int));
        }
        if nl > pos && text[nl - 1] == '\r' {
            assert(strip_cr(u.take(nl - pos)) =~= text@.subrange(pos as int, nl - 1));
            (nl - 1, nl + 1)
        } else {
            assert(strip_cr(u.take(nl - pos)) =~= text@.subrange(pos as int, nl as int));
            (nl, nl + 1)
        }
    }
}

/// The length that a header line sets (see `content_length_from`), given
/// the line and its lower-cased form.
pub fn content_length_setting(line: &[char], lowered: &[char]) -> (res: Option<usize>)
    ensures
        res == content_length_from(line@, lowered@),
{
    if lowered.len() < 15 {
        return None;
    }
    let prefix = ['c', 'o', 'n', 't', 'e', 'n', 't', '-', 'l', 'e', 'n', 'g', 't', 'h', ':'];
    let mut k: usize = 0;
    while k < 15
        invariant
            lowered@.len() >= 15,
            prefix@ == content_length_prefix(),
            k <= 15,
            forall|j: int| 0 <= j < k ==> lowered@[j] == prefix@[j],
        decreases 15 - k,
    {
        if lowered[k] != prefix[k] {
            assert(lowered@.take(15)[k as int] != content_length_prefix()[k as int]);
            return None;
        }
        k = k + 1;
    }
    assert(lowered@.take(15) =~= content_length_prefix());
    let text = slice_to_vec(line);
    let end = text.len();
    let ghost l = line@;
    assert(text@.subrange(0, end as int) =~= l);
    let c1 = find_char(&text, 0, end, ':');
    if c1 == end {
        return None;
    }
    let c2 = find_char(&text, c1 + 1, end, ':');
    proof {
        lemma_first_index_bounds(l, ':');
        let rest = l.skip(c1 + 1);
        assert(rest =~= text@.subrange(c1 + 1, end as int));
        let j = first_index(rest, ':');
        if j >= 0 {
            assert(rest.take(j) =~= text@.subrange(c1 + 1, c2 as int));
        } else {
            assert(rest =~= text@.subrange(c1 + 1, c2 as int));
        }
        assert(second_field(l) == Some(text@.subrange(c1 + 1, c2 as int)));
    }
    let (a, b) = trim_bounds(&text, c1 + 1, c2);
    match parse_usize(&text, a, b) {
        Some(v) => Some(v),
        None => Some(0),
    }
}

fn line_length_setting(text: &Vec<char>, start: usize, end: usize) -> (res: Option<usize>)
    requires
        start <= end <= text@.len(),
    ensures
        res == line_content_length(text@.subrange(start as int, end as int)),
        all_ascii(text@.subrange(start as int, end as int)) ==> res == content_length_from(
            text@.subrange(start as int, end as int),
            ascii_lowercase(text@.subrange(start as int, end as int)),
        ),
{
    let slice = &text.as_slice()[start..end];
    let low = to_lowercase_chars(slice);
    content_length_setting(slice, low.as_slice())
}

fn request_line_route(text: &Vec<char>, end: usize) -> (res: Option<Route>)
    requires
        end <= text@.len(),
    ensures
        res == (match request_target(text@.subrange(0, end as int)) {
            Some((m, p)) => Some(route_of(m, p)),
            None => None,
        }),
{
    let ghost line = text@.subrange(0, end as int);
    let a = skip_white_space(text, 0, end);
    if a == end {
        return None;
    }
    let k = token_end(text, a, end);
    let b = skip_white_space(text, k, end);
    if b == end {
        proof {
            let ta = trim_start(line);
            assert(leading_token(ta).len() == k - a);
        }
        return None;
    }
    let k2 = token_end(text, b, end);
    let s = text.as_slice();
    let method = &s[a..k];
    let path = &s[b..k2];
    proof {
        let ta = trim_start(line);
        assert(leading_token(ta).len() == k - a);
        assert(method@ == leading_token(ta));
    }
    Some(route(method, path))
}

/// The head of a request whose head text is `text` (see `head_of`).
pub fn head_from_text(text: &Vec<char>) -> (head: RequestHead)
    ensures
        head == head_of(text@),
        all_ascii(text@) ==> head.content_length == ascii_content_length_of(lines_of(text@)),
{
    let n = text.len();
    let ghost all = lines_of(text@);
    assert(text@.skip(0) =~= text@);
    let mut route_found: Option<Route> = None;
    if n > 0 {
        let (first_end, _next) = next_line(text, 0);
        route_found = request_line_route(text, first_end);
    } else {
        assert(lines_of(text@) =~= Seq::<Seq<char>>::empty());
        assert(request_target(Seq::<char>::empty()) is None);
    }
    let mut length: usize = 0;
    let mut pos: usize = 0;
    let ghost mut done: Seq<Seq<char>> = Seq::empty();
    while pos < n
        invariant
            n == text@.len(),
            pos <= n,
            all == lines_of(text@),
            all == done + lines_of(text@.skip(pos as int)),
            length == content_length_of(done),
            all_ascii(text@) ==> length == ascii_content_length_of(done),
        decreases n - pos,
    {
        let (line_end, next) = next_line(text, pos);
        proof {
            if all_ascii(text@) {
                let l = text@.subrange(pos as int, line_end as int);
                assert forall|i: int| 0 <= i < l.len() implies (#[trigger] l[i] as u32) < 0x80 by {
                    assert(l[i] == text@[pos + i]);
                }
            }
        }
        match line_length_setting(text, pos, line_end) {
            Some(v) => {
                length = v;
            },
            None => {},
        }
        proof {
            let l = text@.subrange(pos as int, line_end as int);
            let done2 = done.push(l);
            assert(done2.drop_last() =~= done);
            assert(done + (seq![l] + lines_of(text@.skip(next as int))) =~= done2 + lines_of(text@.skip(next as int)));
            done = done2;
        }
        pos = next;
    }
    assert(text@.skip(n as int) =~= Seq::<char>::empty());
    assert(done =~= all);
    RequestHead { route: route_found, content_length: length }
}

/// The head of a request from the bytes before its blank line: decoded as
/// UTF-8 with invalid sequences replaced, then read by `head_from_text`.
pub fn parse_request_head(bytes: &[u8]) -> (head: RequestHead)
    ensures
        head == head_of(utf8_lossy(bytes@)),
        valid_utf8(bytes@) ==> head == head_of(decode_utf8(bytes@)),
{
    let text = decode_lossy(bytes);
    head_from_text(&text)
}

} // verus!
