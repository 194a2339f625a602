//! Text primitives: the characters of a string, white space, and order.

use vstd::prelude::*;

verus! {

/// Whether `c` is white space: one of the code points that Unicode gives the
/// property `White_Space`.  These are the characters that
/// `char::is_whitespace` accepts.
pub open spec fn is_white_space(c: char) -> bool {
    let code = c as u32;
    ||| 0x09 <= code <= 0x0D
    ||| code == 0x20
    ||| code == 0x85
    ||| code == 0xA0
    ||| code == 0x1680
    ||| 0x2000 <= code <= 0x200A
    ||| code == 0x2028
    ||| code == 0x2029
    ||| code == 0x202F
    ||| code == 0x205F
    ||| code == 0x3000
}

/// Decides [`is_white_space`].
pub fn is_whitespace(c: char) -> (white: bool)
    ensures
        white == is_white_space(c),
{
    let code: u32 = c as u32;
    (0x09 <= code && code <= 0x0D) || code == 0x20 || code == 0x85 || code == 0xA0 || code
        == 0x1680 || (0x2000 <= code && code <= 0x200A) || code == 0x2028 || code == 0x2029
        || code == 0x202F || code == 0x205F || code == 0x3000
}

/// The first index at or after `from` that holds a line feed, or the length
/// of `s` when none follows.
pub open spec fn line_end(s: Seq<char>, from: int) -> int
    decreases s.len() - from,
{
    if from < 0 || from >= s.len() {
        s.len() as int
    } else if s[from] == '\n' {
        from
    } else {
        line_end(s, from + 1)
    }
}

/// The first line of `s`: what stands before its first line feed, and all
/// of `s` where it holds none.
pub open spec fn first_line(s: Seq<char>) -> Seq<char> {
    s.subrange(0, line_end(s, 0))
}

proof fn lemma_line_end(s: Seq<char>, from: int)
    requires
        0 <= from <= s.len(),
    ensures
        from <= line_end(s, from) <= s.len(),
        forall|j: int| from <= j < line_end(s, from) ==> s[j] != '\n',
        line_end(s, from) < s.len() ==> s[line_end(s, from)] == '\n',
    decreases s.len() - from,
{
    if from < s.len() && s[from] != '\n' {
        lemma_line_end(s, from + 1);
    }
}

/// The first line, said without reference to how it is found: it holds no
/// line feed, `s` begins with it, and `s` ends with it or goes on with a
/// line feed.
pub proof fn lemma_first_line(s: Seq<char>)
    ensures
        !first_line(s).contains('\n'),
        first_line(s).len() <= s.len(),
        first_line(s) == s.subrange(0, first_line(s).len() as int),
        first_line(s).len() < s.len() ==> s[first_line(s).len() as int] == '\n',
        !s.contains('\n') ==> first_line(s) == s,
{
    lemma_line_end(s, 0);
    if !s.contains('\n') {
        if line_end(s, 0) < s.len() {
            assert(s[line_end(s, 0)] == '\n');
        }
        assert(first_line(s) =~= s);
    }
}

/// The first index at or after `from` that holds no white space, or the
/// length of `s` when only white space follows.
pub open spec fn skip_white(s: Seq<char>, from: int) -> int
    decreases s.len() - from,
{
    if from < 0 || from >= s.len() {
        s.len() as int
    } else if !is_white_space(s[from]) {
        from
    } else {
        skip_white(s, from + 1)
    }
}

/// The first index at or after `from` that holds white space, or the length
/// of `s` when none follows.
pub open spec fn skip_text(s: Seq<char>, from: int) -> int
    decreases s.len() - from,
{
    if from < 0 || from >= s.len() {
        s.len() as int
    } else if is_white_space(s[from]) {
        from
    } else {
        skip_text(s, from + 1)
    }
}

/// The index just past the last character before `to` that is no white
/// space, or 0 when only white space precedes `to`.
pub open spec fn text_end(s: Seq<char>, to: int) -> int
    decreases to,
{
    if to <= 0 || to > s.len() {
        0
    } else if !is_white_space(s[to - 1]) {
        to
    } else {
        text_end(s, to - 1)
    }
}

/// `s` without the white space at its two ends.
pub open spec fn trimmed(s: Seq<char>) -> Seq<char> {
    let start = skip_white(s, 0);
    let end = text_end(s, s.len() as int);
    if start < end {
        s.subrange(start, end)
    } else {
        Seq::empty()
    }
}

/// The first run of characters in `s` that holds no white space, if `s` has
/// any character that is none.
pub open spec fn first_token(s: Seq<char>) -> Option<Seq<char>> {
    let start = skip_white(s, 0);
    if start < s.len() {
        Some(s.subrange(start, skip_text(s, start)))
    } else {
        None
    }
}

proof fn lemma_skip_white(s: Seq<char>, from: int)
    requires
        0 <= from <= s.len(),
    ensures
        from <= skip_white(s, from) <= s.len(),
        forall|j: int| from <= j < skip_white(s, from) ==> is_white_space(s[j]),
        skip_white(s, from) < s.len() ==> !is_white_space(s[skip_white(s, from)]),
    decreases s.len() - from,
{
    if from < s.len() && is_white_space(s[from]) {
        lemma_skip_white(s, from + 1);
    }
}

proof fn lemma_skip_text(s: Seq<char>, from: int)
    requires
        0 <= from <= s.len(),
    ensures
        from <= skip_text(s, from) <= s.len(),
        forall|j: int| from <= j < skip_text(s, from) ==> !is_white_space(s[j]),
        skip_text(s, from) < s.len() ==> is_white_space(s[skip_text(s, from)]),
    decreases s.len() - from,
{
    if from < s.len() && !is_white_space(s[from]) {
        lemma_skip_text(s, from + 1);
    }
}

proof fn lemma_text_end(s: Seq<char>, to: int)
    requires
        0 <= to <= s.len(),
    ensures
        0 <= text_end(s, to) <= to,
        forall|j: int| text_end(s, to) <= j < to ==> is_white_space(s[j]),
        text_end(s, to) > 0 ==> !is_white_space(s[text_end(s, to) - 1]),
    decreases to,
{
    if to > 0 && is_white_space(s[to - 1]) {
        lemma_text_end(s, to - 1);
    }
}

/// What trimming leaves, said without reference to how it is found: a
/// stretch of `s` with nothing but white space before it and after it, which
/// neither begins nor ends with white space.
pub proof fn lemma_trimmed(s: Seq<char>)
    ensures
        exists|start: int, end: int|
            {
                &&& 0 <= start <= end <= s.len()
                &&& #[trigger] s.subrange(start, end) == trimmed(s)
                &&& forall|j: int| 0 <= j < start ==> is_white_space(s[j])
                &&& forall|j: int| end <= j < s.len() ==> is_white_space(s[j])
            },
        trimmed(s).len() > 0 ==> !is_white_space(trimmed(s).first()) && !is_white_space(
            trimmed(s).last(),
        ),
{
    let start = skip_white(s, 0);
    let end = text_end(s, s.len() as int);
    lemma_skip_white(s, 0);
    lemma_text_end(s, s.len() as int);
    if start < end {
        assert(s.subrange(start, end) == trimmed(s));
    } else {
        assert forall|j: int| 0 <= j < s.len() implies is_white_space(s[j]) by {
            if !is_white_space(s[j]) {
                assert(start <= j);
                assert(end > j);
            }
        }
        assert(s.subrange(0, 0) =~= trimmed(s));
    }
}

/// The first token, said without reference to how it is found: where `s` is
/// nothing but white space there is none; otherwise it is a stretch of `s`
/// that holds no white space, is not empty, has nothing but white space
/// before it, and ends where `s` ends or white space follows.
pub proof fn lemma_first_token(s: Seq<char>)
    ensures
        first_token(s) is None <==> forall|j: int| 0 <= j < s.len() ==> is_white_space(s[j]),
        first_token(s) matches Some(token) ==> exists|start: int, end: int|
            {
                &&& 0 <= start < end <= s.len()
                &&& #[trigger] s.subrange(start, end) == token
                &&& forall|j: int| 0 <= j < start ==> is_white_space(s[j])
                &&& forall|j: int| start <= j < end ==> !is_white_space(s[j])
                &&& end < s.len() ==> is_white_space(s[end])
            },
{
    let start = skip_white(s, 0);
    lemma_skip_white(s, 0);
    if start < s.len() {
        let end = skip_text(s, start);
        lemma_skip_text(s, start);
        assert(s.subrange(start, end) == first_token(s)->0);
    }
}

/// The characters of `s`, in order.
pub fn chars_of(s: &str) -> (chars: Vec<char>)
    ensures
        chars@ == s@,
{
    let mut chars: Vec<char> = Vec::new();
    for c in it: s.chars()
        invariant
            it.seq() == s@,
            chars@ == s@.take(it.index() as int),
    {
        chars.push(c);
        assert(s@.take(it.index() + 1) == s@.take(it.index() as int).push(c));
    }
    assert(s@.take(s@.len() as int) == s@);
    chars
}

fn scan_white(chars: &Vec<char>, from: usize) -> (at: usize)
    requires
        from <= chars.len(),
    ensures
        at == skip_white(chars@, from as int),
        from <= at <= chars.len(),
{
    let mut at: usize = from;
    while at < chars.len()
        invariant
            from <= at <= chars.len(),
            skip_white(chars@, from as int) == skip_white(chars@, at as int),
        decreases chars.len() - at,
    {
        if !is_whitespace(chars[at]) {
            return at;
        }
        at = at + 1;
    }
    at
}

fn scan_text(chars: &Vec<char>, from: usize) -> (at: usize)
    requires
        from <= chars.len(),
    ensures
        at == skip_text(chars@, from as int),
        from <= at <= chars.len(),
{
    let mut at: usize = from;
    while at < chars.len()
        invariant
            from <= at <= chars.len(),
            skip_text(chars@, from as int) == skip_text(chars@, at as int),
        decreases chars.len() - at,
    {
        if is_whitespace(chars[at]) {
            return at;
        }
        at = at + 1;
    }
    at
}

fn scan_back(chars: &Vec<char>) -> (end: usize)
    ensures
        end == text_end(chars@, chars@.len() as int),
        end <= chars.len(),
{
    let mut end: usize = chars.len();
    while end > 0
        invariant
            end <= chars.len(),
            text_end(chars@, chars@.len() as int) == text_end(chars@, end as int),
        decreases end,
    {
        if !is_whitespace(chars[end - 1]) {
            return end;
        }
        end = end - 1;
    }
    end
}

fn scan_line(chars: &Vec<char>) -> (at: usize)
    ensures
        at == line_end(chars@, 0),
        at <= chars.len(),
{
    let mut at: usize = 0;
    while at < chars.len()
        invariant
            at <= chars.len(),
            line_end(chars@, 0) == line_end(chars@, at as int),
        decreases chars.len() - at,
    {
        if chars[at] == '\n' {
            return at;
        }
        at = at + 1;
    }
    at
}

/// The first line of `s`, without the line feed that ends it.
pub fn first_line_of(s: &str) -> (line: &str)
    ensures
        line@ == first_line(s@),
{
    let chars = chars_of(s);
    let end = scan_line(&chars);
    s.substring_char(0, end)
}

/// Removes the white space at the two ends of `s`.
pub fn trim(s: &str) -> (text: String)
    ensures
        text@ == trimmed(s@),
{
    let chars = chars_of(s);
    let start = scan_white(&chars, 0);
    let end = scan_back(&chars);
    if start < end {
        s.substring_char(start, end).to_owned()
    } else {
        String::new()
    }
}

/// Finds the first white-space-delimited token of `s`.
pub fn find_first_token(s: &str) -> (token: Option<String>)
    ensures
        token.deep_view() == first_token(s@),
{
    let chars = chars_of(s);
    let start = scan_white(&chars, 0);
    if start < chars.len() {
        let end = scan_text(&chars, start);
        Some(s.substring_char(start, end).to_owned())
    } else {
        None
    }
}

/// Whether `a` and `b` are long enough to have an index `k` or end there,
/// and hold the same characters before it.
pub open spec fn agree_before(a: Seq<char>, b: Seq<char>, k: int) -> bool {
    &&& 0 <= k <= a.len()
    &&& k <= b.len()
    &&& forall|j: int| 0 <= j < k ==> a[j] == b[j]
}

/// Whether index `k` is where `a` turns out to come before `b`: up to there
/// the two agree, and there `a` has ended while `b` goes on, or `a` has the
/// character with the smaller code point.
pub open spec fn comes_first_at(a: Seq<char>, b: Seq<char>, k: int) -> bool {
    &&& agree_before(a, b, k)
    &&& k < b.len()
    &&& (k == a.len() || (a[k] as u32) < (b[k] as u32))
}

/// The order of identifiers: lexicographic, character by character, by code
/// point.  This is the order of `str` and `String`.
pub open spec fn precedes(a: Seq<char>, b: Seq<char>) -> bool {
    exists|k: int| comes_first_at(a, b, k)
}

/// What comes before something that comes before a third text comes before
/// the third.
pub proof fn lemma_precedes_transitive(a: Seq<char>, b: Seq<char>, c: Seq<char>)
    requires
        precedes(a, b),
        precedes(b, c),
    ensures
        precedes(a, c),
{
    let i = choose|k: int| comes_first_at(a, b, k);
    let j = choose|k: int| comes_first_at(b, c, k);
    if i <= j {
        assert(comes_first_at(a, c, i));
    } else {
        assert(comes_first_at(a, c, j));
    }
}

proof fn lemma_compare_from(a: Seq<char>, b: Seq<char>, k: int)
    requires
        agree_before(a, b, k),
    ensures
        precedes(a, b) || precedes(b, a) || a == b,
    decreases a.len() - k,
{
    if k == a.len() && k == b.len() {
        assert(a =~= b);
    } else if k == a.len() {
        assert(comes_first_at(a, b, k));
    } else if k == b.len() {
        assert(comes_first_at(b, a, k));
    } else if a[k] == b[k] {
        lemma_compare_from(a, b, k + 1);
    } else {
        vstd::utf8::char_u32_cast(a[k], a[k] as u32);
        vstd::utf8::char_u32_cast(b[k], b[k] as u32);
        if (a[k] as u32) < (b[k] as u32) {
            assert(comes_first_at(a, b, k));
        } else {
            assert(comes_first_at(b, a, k));
        }
    }
}

/// Of two different texts one comes before the other, and never both.
pub proof fn lemma_precedes_total(a: Seq<char>, b: Seq<char>)
    ensures
        precedes(a, b) || precedes(b, a) || a == b,
        !(precedes(a, b) && precedes(b, a)),
{
    lemma_compare_from(a, b, 0);
    if precedes(a, b) && precedes(b, a) {
        lemma_precedes_transitive(a, b, a);
    }
}

/// Decides [`precedes`].
pub fn chars_precede(a: &Vec<char>, b: &Vec<char>) -> (less: bool)
    ensures
        less == precedes(a@, b@),
{
    let mut i: usize = 0;
    while i < a.len() && i < b.len()
        invariant
            agree_before(a@, b@, i as int),
        decreases a.len() - i,
    {
        if a[i] != b[i] {
            let less = (a[i] as u32) < (b[i] as u32);
            proof {
                if less {
                    assert(comes_first_at(a@, b@, i as int));
                } else {
                    assert forall|k: int| !comes_first_at(a@, b@, k) by {
                        if k > i && agree_before(a@, b@, k) {
                            assert(a@[i as int] == b@[i as int]);
                        }
                    }
                }
            }
            return less;
        }
        i = i + 1;
    }
    proof {
        if i < b.len() {
            assert(comes_first_at(a@, b@, i as int));
        }
    }
    i < b.len()
}

/// Whether `a` and `b` hold the same characters.
pub fn chars_equal(a: &Vec<char>, b: &Vec<char>) -> (same: bool)
    ensures
        same == (a@ == b@),
{
    if a.len() != b.len() {
        return false;
    }
    let mut i: usize = 0;
    while i < a.len()
        invariant
            a.len() == b.len(),
            agree_before(a@, b@, i as int),
        decreases a.len() - i,
    {
        if a[i] != b[i] {
            return false;
        }
        i = i + 1;
    }
    assert(a@ =~= b@);
    true
}

/// Whether `a` and `b` are the same text.
pub fn same_text(a: &str, b: &str) -> (same: bool)
    ensures
        same == (a@ == b@),
{
    let left = chars_of(a);
    let right = chars_of(b);
    chars_equal(&left, &right)
}

} // verus!
