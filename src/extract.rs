//! Pulling the plaintext answer out of the service's reply.
use vstd::prelude::*;
use vstd::string::StrSliceExecFns;
use vstd::string::StringExecFns;

verus! {

/// The text that opens the section holding the answer.
pub open spec fn result_marker() -> Seq<char> {
    "<pod title='Result'"@
}

/// The tag that opens the plaintext field.
pub open spec fn open_tag() -> Seq<char> {
    "<plaintext>"@
}

/// The tag that closes the plaintext field.
pub open spec fn close_tag() -> Seq<char> {
    "</plaintext>"@
}

/// What extraction gives when the reply holds no answer.
pub open spec fn not_found() -> Seq<char> {
    "No result found."@
}

/// `pat` occurs in `s` starting at position `i`.
pub open spec fn occurs_at(s: Seq<char>, pat: Seq<char>, i: int) -> bool {
    0 <= i && i + pat.len() <= s.len() && s.subrange(i, i + pat.len()) == pat
}

/// The first position at or after `i` where `pat` occurs in `s`.
pub open spec fn find_from(s: Seq<char>, pat: Seq<char>, i: int) -> Option<int>
    decreases s.len() + 1 - i,
{
    if i < 0 || i + pat.len() > s.len() {
        None
    } else if occurs_at(s, pat, i) {
        Some(i)
    } else {
        find_from(s, pat, i + 1)
    }
}

/// The first position where `pat` occurs in `s`, if any.
pub open spec fn find(s: Seq<char>, pat: Seq<char>) -> Option<int> {
    find_from(s, pat, 0)
}

/// Characters with the Unicode `White_Space` property.
pub open spec fn is_white_space(c: char) -> bool {
    let u = c as u32;
    (9 <= u <= 13) || u == 32 || u == 0x85 || u == 0xA0 || u == 0x1680 || (0x2000 <= u
        <= 0x200A) || u == 0x2028 || u == 0x2029 || u == 0x202F || u == 0x205F || u == 0x3000
}

/// `s` without its leading white space.
pub open spec fn trim_start(s: Seq<char>) -> Seq<char>
    decreases s.len(),
{
    if s.len() > 0 && is_white_space(s[0]) {
        trim_start(s.drop_first())
    } else {
        s
    }
}

/// `s` without its trailing white space.
pub open spec fn trim_end(s: Seq<char>) -> Seq<char>
    decreases s.len(),
{
    if s.len() > 0 && is_white_space(s.last()) {
        trim_end(s.drop_last())
    } else {
        s
    }
}

/// `s` without white space at either end.
pub open spec fn trim(s: Seq<char>) -> Seq<char> {
    trim_end(trim_start(s))
}

/// The answer in a reply: in the text from the first result marker on, the
/// trimmed text between the first opening tag and the first closing tag.
/// Without the marker or either tag, or with the closing tag before the end
/// of the opening one, the fixed not-found message.
pub open spec fn extract(s: Seq<char>) -> Seq<char> {
    match find(s, result_marker()) {
        None => not_found(),
        Some(m) => {
            let rest = s.subrange(m, s.len() as int);
            match (find(rest, open_tag()), find(rest, close_tag())) {
                (Some(a), Some(b)) => if a + open_tag().len() <= b {
                    trim(s.subrange(m + a + open_tag().len(), m + b))
                } else {
                    not_found()
                },
                _ => not_found(),
            }
        },
    }
}

/// The characters of `s`, one per element.
fn chars_of(s: &str) -> (v: Vec<char>)
    ensures
        v@ == s@,
{
    let mut v: Vec<char> = Vec::new();
    for c in it: s.chars()
        invariant
            v@ == it.seq().take(it.index() as int),
    {
        v.push(c);
    }
    v
}

/// Whether `pat` occurs in `s` at position `i`.
fn occurs_at_exec(s: &Vec<char>, pat: &Vec<char>, i: usize) -> (r: bool)
    ensures
        r == occurs_at(s@, pat@, i as int),
{
    if pat.len() > s.len() || i > s.len() - pat.len() {
        return false;
    }
    let n = s.len();
    let mut j: usize = 0;
    while j < pat.len()
        invariant
            n == s@.len(),
            i + pat@.len() <= n,
            j <= pat@.len(),
            forall|k: int| 0 <= k < j ==> s@[i + k] == pat@[k],
        decreases pat@.len() - j,
    {
        if s[i + j] != pat[j] {
            assert(s@.subrange(i as int, i + pat@.len())[j as int] != pat@[j as int]);
            return false;
        }
        j = j + 1;
    }
    assert(s@.subrange(i as int, i + pat@.len()) =~= pat@);
    true
}

/// The first position at or after `start` where `pat` occurs in `s`.
fn find_from_exec(s: &Vec<char>, pat: &Vec<char>, start: usize) -> (r: Option<usize>)
    ensures
        match r {
            None => find_from(s@, pat@, start as int) is None,
            Some(i) => find_from(s@, pat@, start as int) == Some(i as int) && occurs_at(
                s@,
                pat@,
                i as int,
            ),
        },
{
    if pat.len() > s.len() {
        return None;
    }
    let last = s.len() - pat.len();
    if start > last {
        assert(find_from(s@, pat@, start as int) is None);
        return None;
    }
    let mut i: usize = start;
    loop
        invariant
            last == s@.len() - pat@.len(),
            start <= i <= last,
            find_from(s@, pat@, start as int) == find_from(s@, pat@, i as int),
        decreases last - i,
    {
        if occurs_at_exec(s, pat, i) {
            return Some(i);
        }
        if i == last {
            assert(find_from(s@, pat@, i + 1) is None);
            return None;
        }
        i = i + 1;
    }
}

/// The plaintext answer in the reply `response`, trimmed, or the not-found
/// message where the reply holds none.
pub fn parse_response(response: &str) -> (r: String)
    ensures
        r@ == extract(response@),
{
    let s = chars_of(response);
    let marker = chars_of("<pod title='Result'");
    let open = chars_of("<plaintext>");
    let close = chars_of("</plaintext>");
    let missing = String::from_str("No result found.");
    let m = match find_from_exec(&s, &marker, 0) {
        None => return missing,
        Some(m) => m,
    };
    proof {
        lemma_find_shift(s@, open@, m as int, 0);
        lemma_find_shift(s@, close@, m as int, 0);
    }
    let a = match find_from_exec(&s, &open, m) {
        None => return missing,
        Some(a) => a,
    };
    let b = match find_from_exec(&s, &close, m) {
        None => return missing,
        Some(b) => b,
    };
    if a > b || b - a < open.len() {
        return missing;
    }
    let (lo, hi) = trim_bounds(&s, a + open.len(), b);
    String::from_str(response.substring_char(lo, hi))
}

/// Searching the suffix from `m` on finds what searching `s` from `m + i`
/// finds, shifted by `m`.
proof fn lemma_find_shift(s: Seq<char>, pat: Seq<char>, m: int, i: int)
    requires
        0 <= m <= s.len(),
        0 <= i,
    ensures
        match find_from(s.subrange(m, s.len() as int), pat, i) {
            None => find_from(s, pat, m + i) is None,
            Some(j) => find_from(s, pat, m + i) == Some(m + j),
        },
    decreases s.len() + 1 - m - i,
{
    let rest = s.subrange(m, s.len() as int);
    if i + pat.len() > rest.len() {
    } else {
        assert(rest.subrange(i, i + pat.len()) =~= s.subrange(m + i, m + i + pat.len()));
        if !occurs_at(rest, pat, i) {
            lemma_find_shift(s, pat, m, i + 1);
        }
    }
}

/// Bounds of `s[lo..hi]` with white space taken off both ends.
fn trim_bounds(s: &Vec<char>, lo: usize, hi: usize) -> (r: (usize, usize))
    requires
        lo <= hi <= s@.len(),
    ensures
        r.0 <= r.1 <= s@.len(),
        s@.subrange(r.0 as int, r.1 as int) == trim(s@.subrange(lo as int, hi as int)),
{
    let mut a: usize = lo;
    while a < hi && is_white_space_exec(s[a])
        invariant
            lo <= a <= hi <= s@.len(),
            trim_start(s@.subrange(lo as int, hi as int)) == trim_start(
                s@.subrange(a as int, hi as int),
            ),
        decreases hi - a,
    {
        assert(s@.subrange(a as int, hi as int).drop_first() =~= s@.subrange(a + 1, hi as int));
        a = a + 1;
    }
    let mut b: usize = hi;
    while b > a && is_white_space_exec(s[b - 1])
        invariant
            a <= b <= hi <= s@.len(),
            trim_end(s@.subrange(a as int, hi as int)) == trim_end(s@.subrange(a as int, b as int)),
        decreases b - a,
    {
        assert(s@.subrange(a as int, b as int).drop_last() =~= s@.subrange(a as int, b - 1));
        b = b - 1;
    }
    (a, b)
}

/// Whether `c` has the Unicode `White_Space` property.
fn is_white_space_exec(c: char) -> (r: bool)
    ensures
        r == is_white_space(c),
{
    let u = c as u32;
    (9 <= u && u <= 13) || u == 32 || u == 0x85 || u == 0xA0 || u == 0x1680 || (0x2000 <= u
        && u <= 0x200A) || u == 0x2028 || u == 0x2029 || u == 0x202F || u == 0x205F || u
        == 0x3000
}

/// Extraction depends on the reply's text alone: calls on equal texts, or
/// repeated calls on one text, give equal answers.
pub proof fn parse_response_deterministic(a: &str, b: &str, ra: Seq<char>, rb: Seq<char>)
    requires
        a@ == b@,
        ra == extract(a@),
        rb == extract(b@),
    ensures
        ra == rb,
{
}

} // verus!
