use vstd::prelude::*;

verus! {

/// Unicode's White_Space property (PropList.txt), which `char::is_whitespace`
/// tests: TAB to CR, SPACE, NEL, NBSP, OGHAM SPACE MARK, the spaces U+2000 to
/// U+200A, LINE and PARAGRAPH SEPARATOR, NARROW NBSP, MEDIUM MATHEMATICAL
/// SPACE and IDEOGRAPHIC SPACE.
pub open spec fn is_white_space(c: char) -> bool {
    let u = c as u32;
    ||| 0x09 <= u <= 0x0D
    ||| u == 0x20
    ||| u == 0x85
    ||| u == 0xA0
    ||| u == 0x1680
    ||| 0x2000 <= u <= 0x200A
    ||| u == 0x2028
    ||| u == 0x2029
    ||| u == 0x202F
    ||| u == 0x205F
    ||| u == 0x3000
}

pub fn is_whitespace(c: char) -> (res: bool)
    ensures
        res == is_white_space(c),
{
    let u = c as u32;
    (0x09 <= u && u <= 0x0D) || u == 0x20 || u == 0x85 || u == 0xA0 || u == 0x1680 || (0x2000 <= u
        && u <= 0x200A) || u == 0x2028 || u == 0x2029 || u == 0x202F || u == 0x205F || u == 0x3000
}

/// Every character is ASCII.
pub open spec fn all_ascii(s: Seq<char>) -> bool {
    forall|i: int| 0 <= i < s.len() ==> (#[trigger] s[i] as u32) < 0x80
}

/// `a`-`z` become `A`-`Z`; every other character stays.
pub open spec fn ascii_upper_char(c: char) -> char {
    if 0x61 <= (c as u32) <= 0x7A {
        ((c as u32) - 0x20) as char
    } else {
        c
    }
}

/// `A`-`Z` become `a`-`z`; every other character stays.
pub open spec fn ascii_lower_char(c: char) -> char {
    if 0x41 <= (c as u32) <= 0x5A {
        ((c as u32) + 0x20) as char
    } else {
        c
    }
}

/// The text with its ASCII letters in upper case.
pub open spec fn ascii_uppercase(s: Seq<char>) -> Seq<char> {
    s.map_values(|c: char| ascii_upper_char(c))
}

/// The text with its ASCII letters in lower case.
pub open spec fn ascii_lowercase(s: Seq<char>) -> Seq<char> {
    s.map_values(|c: char| ascii_lower_char(c))
}

/// The text without its leading white space.
pub open spec fn trim_start(s: Seq<char>) -> Seq<char>
    decreases s.len(),
{
    if s.len() > 0 && is_white_space(s[0]) {
        trim_start(s.drop_first())
    } else {
        s
    }
}

/// The text without its trailing white space.
pub open spec fn trim_end(s: Seq<char>) -> Seq<char>
    decreases s.len(),
{
    if s.len() > 0 && is_white_space(s.last()) {
        trim_end(s.drop_last())
    } else {
        s
    }
}

/// The text without leading or trailing white space (`str::trim`).
pub open spec fn trim(s: Seq<char>) -> Seq<char> {
    trim_end(trim_start(s))
}

/// The leading run of characters that are not white space.
pub open spec fn leading_token(s: Seq<char>) -> Seq<char>
    decreases s.len(),
{
    if s.len() > 0 && !is_white_space(s[0]) {
        seq![s[0]] + leading_token(s.drop_first())
    } else {
        Seq::empty()
    }
}

/// Index of the first `c` in `s`, or -1.
pub open spec fn first_index(s: Seq<char>, c: char) -> int
    decreases s.len(),
{
    if s.len() == 0 {
        -1
    } else if s[0] == c {
        0
    } else {
        let r = first_index(s.drop_first(), c);
        if r < 0 {
            -1
        } else {
            r + 1
        }
    }
}

pub proof fn lemma_first_index_bounds(s: Seq<char>, c: char)
    ensures
        -1 <= first_index(s, c) < s.len(),
        first_index(s, c) >= 0 ==> s[first_index(s, c)] == c,
        forall|j: int| 0 <= j < first_index(s, c) ==> s[j] != c,
        first_index(s, c) < 0 ==> forall|j: int| 0 <= j < s.len() ==> s[j] != c,
    decreases s.len(),
{
    if s.len() > 0 && s[0] != c {
        lemma_first_index_bounds(s.drop_first(), c);
        let r = first_index(s.drop_first(), c);
        assert forall|j: int| 0 <= j < first_index(s, c) implies s[j] != c by {
            if j > 0 {
                assert(s[j] == s.drop_first()[j - 1]);
            }
        }
        if r < 0 {
            assert forall|j: int| 0 <= j < s.len() implies s[j] != c by {
                if j > 0 {
                    assert(s[j] == s.drop_first()[j - 1]);
                }
            }
        }
    }
}

/// `first_index` is the first position that holds `c`.
pub proof fn lemma_first_index_is(s: Seq<char>, c: char, i: int)
    requires
        -1 <= i < s.len(),
        i >= 0 ==> s[i] == c,
        forall|j: int| 0 <= j < (if i < 0 { s.len() as int } else { i }) ==> s[j] != c,
    ensures
        first_index(s, c) == i,
{
    lemma_first_index_bounds(s, c);
}

/// The line ending at a carriage return loses it.
pub open spec fn strip_cr(l: Seq<char>) -> Seq<char> {
    if l.len() > 0 && l.last() == '\r' {
        l.drop_last()
    } else {
        l
    }
}

/// The lines of a text, as `str::lines` yields them: split after each line
/// feed, each line without its `\n` or `\r\n`; a final line without a line
/// feed is kept as it is, and nothing follows a final line feed.
pub open spec fn lines_of(s: Seq<char>) -> Seq<Seq<char>>
    decreases s.len(),
{
    if s.len() == 0 {
        Seq::empty()
    } else {
        let i = first_index(s, '\n');
        if i < 0 {
            seq![s]
        } else {
            proof {
                lemma_first_index_bounds(s, '\n');
            }
            seq![strip_cr(s.take(i))] + lines_of(s.skip(i + 1))
        }
    }
}

/// Value of a string of ASCII decimal digits.
pub open spec fn digits_value(s: Seq<char>) -> int
    decreases s.len(),
{
    if s.len() == 0 {
        0
    } else {
        digits_value(s.drop_last()) * 10 + ((s.last() as u32) - 0x30)
    }
}

pub open spec fn is_digit(c: char) -> bool {
    0x30 <= (c as u32) <= 0x39
}

pub open spec fn all_digits(s: Seq<char>) -> bool {
    forall|i: int| 0 <= i < s.len() ==> is_digit(#[trigger] s[i])
}

/// What `str::parse::<usize>` returns: an optional `+` followed by one or
/// more ASCII digits whose value fits in `usize`; anything else fails.
pub open spec fn parse_usize_spec(s: Seq<char>) -> Option<usize> {
    let body = if s.len() > 0 && s[0] == '+' { s.drop_first() } else { s };
    if body.len() > 0 && all_digits(body) && digits_value(body) <= usize::MAX {
        Some(digits_value(body) as usize)
    } else {
        None
    }
}

proof fn lemma_digits_value_monotone(s: Seq<char>, i: int)
    requires
        0 <= i <= s.len(),
        all_digits(s),
    ensures
        digits_value(s) >= digits_value(s.take(i)),
        digits_value(s.take(i)) >= 0,
    decreases s.len() - i,
{
    if i < s.len() {
        let t = s.take(i + 1);
        assert(t.drop_last() =~= s.take(i));
        assert(is_digit(s[i]));
        lemma_digits_value_monotone(s, i + 1);
        assert(all_digits(s.take(i))) by {
            assert forall|j: int| 0 <= j < s.take(i).len() implies is_digit(#[trigger] s.take(i)[j]) by {
                assert(s.take(i)[j] == s[j]);
            }
        }
        lemma_digits_value_nonneg(s.take(i));
    } else {
        assert(s.take(i) =~= s);
        lemma_digits_value_nonneg(s);
    }
}

proof fn lemma_digits_value_nonneg(s: Seq<char>)
    requires
        all_digits(s),
    ensures
        digits_value(s) >= 0,
    decreases s.len(),
{
    if s.len() > 0 {
        assert(all_digits(s.drop_last())) by {
            assert forall|i: int| 0 <= i < s.drop_last().len() implies is_digit(#[trigger] s.drop_last()[i]) by {
                assert(s.drop_last()[i] == s[i]);
            }
        }
        assert(is_digit(s[s.len() - 1]));
        lemma_digits_value_nonneg(s.drop_last());
    }
}

/// Parses `s[start..end]` as `str::parse::<usize>` does.
pub fn parse_usize(s: &Vec<char>, start: usize, end: usize) -> (res: Option<usize>)
    requires
        start <= end <= s@.len(),
    ensures
        res == parse_usize_spec(s@.subrange(start as int, end as int)),
{
    let ghost t = s@.subrange(start as int, end as int);
    let mut i = start;
    if i < end && s[i] == '+' {
        i = i + 1;
    }
    let ghost body = s@.subrange(i as int, end as int);
    assert(body =~= (if t.len() > 0 && t[0] == '+' { t.drop_first() } else { t }));
    if i == end {
        return None;
    }
    let mut acc: usize = 0;
    let mut k = i;
    while k < end
        invariant
            t == s@.subrange(start as int, end as int),
            body == (if t.len() > 0 && t[0] == '+' { t.drop_first() } else { t }),
            i <= k <= end <= s@.len(),
            body == s@.subrange(i as int, end as int),
            i < end,
            acc == digits_value(body.take(k - i)),
            all_digits(body.take(k - i)),
        decreases end - k,
    {
        let c = s[k];
        let u = c as u32;
        assert(body[k - i] == c);
        if !(0x30 <= u && u <= 0x39) {
            assert(!all_digits(body));
            assert(parse_usize_spec(t) is None);
            return None;
        }
        let d = (u - 0x30) as usize;
        let ghost next = body.take(k - i + 1);
        assert(next.drop_last() =~= body.take(k - i));
        assert(all_digits(next));
        if acc > (usize::MAX - d) / 10 {
            proof {
                assert(digits_value(next) == acc * 10 + d);
                assert(digits_value(next) > usize::MAX) by (nonlinear_arith)
                    requires acc > (usize::MAX - d) / 10, d <= 9, digits_value(next) == acc * 10 + d;
                if all_digits(body) {
                    lemma_digits_value_monotone(body, k - i + 1);
                }
            }
            return None;
        }
        assert(acc * 10 + d <= usize::MAX) by (nonlinear_arith)
            requires acc <= (usize::MAX - d) / 10, d <= 9;
        acc = acc * 10 + d;
        k = k + 1;
    }
    assert(body.take(end - i) =~= body);
    Some(acc)
}


proof fn lemma_trim_start_step(s: Seq<char>, i: int, end: int)
    requires
        0 <= i < end <= s.len(),
        is_white_space(s[i]),
    ensures
        trim_start(s.subrange(i, end)) == trim_start(s.subrange(i + 1, end)),
{
    assert(s.subrange(i, end).drop_first() =~= s.subrange(i + 1, end));
}

proof fn lemma_trim_end_step(s: Seq<char>, a: int, b: int)
    requires
        0 <= a < b <= s.len(),
        is_white_space(s[b - 1]),
    ensures
        trim_end(s.subrange(a, b)) == trim_end(s.subrange(a, b - 1)),
{
    assert(s.subrange(a, b).drop_last() =~= s.subrange(a, b - 1));
}

proof fn lemma_token_step(s: Seq<char>, i: int, end: int)
    requires
        0 <= i < end <= s.len(),
        !is_white_space(s[i]),
    ensures
        leading_token(s.subrange(i, end)) == seq![s[i]] + leading_token(s.subrange(i + 1, end)),
{
    assert(s.subrange(i, end).drop_first() =~= s.subrange(i + 1, end));
}

/// The first position in `s[start..end]` that is not white space, or `end`.
pub fn skip_white_space(s: &Vec<char>, start: usize, end: usize) -> (a: usize)
    requires
        start <= end <= s@.len(),
    ensures
        start <= a <= end,
        s@.subrange(a as int, end as int) == trim_start(s@.subrange(start as int, end as int)),
{
    let mut a = start;
    while a < end && is_whitespace(s[a])
        invariant
            start <= a <= end <= s@.len(),
            trim_start(s@.subrange(a as int, end as int)) == trim_start(s@.subrange(start as int, end as int)),
        decreases end - a,
    {
        proof { lemma_trim_start_step(s@, a as int, end as int); }
        a = a + 1;
    }
    a
}

/// The bounds of `s[start..end]` once white space is trimmed from both ends.
pub fn trim_bounds(s: &Vec<char>, start: usize, end: usize) -> (r: (usize, usize))
    requires
        start <= end <= s@.len(),
    ensures
        start <= r.0 <= r.1 <= end,
        s@.subrange(r.0 as int, r.1 as int) == trim(s@.subrange(start as int, end as int)),
{
    let a = skip_white_space(s, start, end);
    let mut b = end;
    while b > a && is_whitespace(s[b - 1])
        invariant
            start <= a <= b <= end <= s@.len(),
            trim_end(s@.subrange(a as int, b as int)) == trim_end(s@.subrange(a as int, end as int)),
        decreases b - a,
    {
        proof { lemma_trim_end_step(s@, a as int, b as int); }
        b = b - 1;
    }
    (a, b)
}

/// The end of the run of non-white-space characters that starts at `start`.
pub fn token_end(s: &Vec<char>, start: usize, end: usize) -> (k: usize)
    requires
        start <= end <= s@.len(),
    ensures
        start <= k <= end,
        s@.subrange(start as int, k as int) == leading_token(s@.subrange(start as int, end as int)),
        s@.subrange(k as int, end as int) == s@.subrange(start as int, end as int).skip(k - start),
{
    let mut k = start;
    while k < end && !is_whitespace(s[k])
        invariant
            start <= k <= end <= s@.len(),
            leading_token(s@.subrange(start as int, end as int))
                == s@.subrange(start as int, k as int) + leading_token(s@.subrange(k as int, end as int)),
        decreases end - k,
    {
        proof {
            lemma_token_step(s@, k as int, end as int);
            assert(s@.subrange(start as int, k as int) + seq![s@[k as int]] =~= s@.subrange(start as int, k + 1));
        }
        k = k + 1;
    }
    assert(s@.subrange(start as int, k as int) + leading_token(s@.subrange(k as int, end as int))
        =~= s@.subrange(start as int, k as int));
    assert(s@.subrange(k as int, end as int) =~= s@.subrange(start as int, end as int).skip(k - start));
    k
}

/// The index of the first `c` in `s[start..end]`, or `end`.
pub fn find_char(s: &Vec<char>, start: usize, end: usize, c: char) -> (k: usize)
    requires
        start <= end <= s@.len(),
    ensures
        start <= k <= end,
        first_index(s@.subrange(start as int, end as int), c) == (if k == end { -1 } else { k - start }),
{
    let mut k = start;
    while k < end && s[k] != c
        invariant
            start <= k <= end <= s@.len(),
            forall|j: int| start <= j < k ==> s@[j] != c,
        decreases end - k,
    {
        k = k + 1;
    }
    proof {
        let t = s@.subrange(start as int, end as int);
        let i = if k == end { -1 } else { k - start };
        assert forall|j: int| 0 <= j < (if i < 0 { t.len() as int } else { i }) implies t[j] != c by {
            assert(t[j] == s@[start + j]);
        }
        lemma_first_index_is(t, c, i);
    }
    k
}

} // verus!
