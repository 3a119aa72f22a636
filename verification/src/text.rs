//! Character-level helpers: whitespace, trimming, searching, and extracting
//! pieces of a text by character position.

use vstd::prelude::*;
use vstd::string::*;

verus! {

/// The characters that Unicode gives the property `White_Space`.
pub open spec fn is_whitespace(c: char) -> bool {
    let n = c as u32;
    ||| 0x09 <= n <= 0x0D
    ||| n == 0x20
    ||| n == 0x85
    ||| n == 0xA0
    ||| n == 0x1680
    ||| 0x2000 <= n <= 0x200A
    ||| n == 0x2028
    ||| n == 0x2029
    ||| n == 0x202F
    ||| n == 0x205F
    ||| n == 0x3000
}

/// Whether `c` is a whitespace character.
pub fn whitespace(c: char) -> (b: bool)
    ensures
        b == is_whitespace(c),
{
    let n: u32 = c as u32;
    (0x09 <= n && n <= 0x0D) || n == 0x20 || n == 0x85 || n == 0xA0 || n == 0x1680 || (0x2000 <= n
        && n <= 0x200A) || n == 0x2028 || n == 0x2029 || n == 0x202F || n == 0x205F || n == 0x3000
}

/// The characters of an optional string.
pub open spec fn text_view(o: Option<String>) -> Option<Seq<char>> {
    match o {
        Some(s) => Some(s@),
        None => None,
    }
}

/// The characters of `s`, in order.
pub fn chars_of(s: &str) -> (v: Vec<char>)
    ensures
        v@ == s@,
{
    let mut v: Vec<char> = Vec::new();
    for c in it: s.chars()
        invariant
            v@ == it.seq().take(it.index() as int),
            it.seq() == s@,
    {
        v.push(c);
    }
    v
}

/// `s` without its leading whitespace.
pub open spec fn trim_start(s: Seq<char>) -> Seq<char>
    decreases s.len(),
{
    if s.len() > 0 && is_whitespace(s[0]) {
        trim_start(s.drop_first())
    } else {
        s
    }
}

/// `s` without its trailing whitespace.
pub open spec fn trim_end(s: Seq<char>) -> Seq<char>
    decreases s.len(),
{
    if s.len() > 0 && is_whitespace(s.last()) {
        trim_end(s.drop_last())
    } else {
        s
    }
}

/// `s` without the whitespace around it.
pub open spec fn trim(s: Seq<char>) -> Seq<char> {
    trim_end(trim_start(s))
}

/// How many characters of `s` stand before the first `c` (all of them, if
/// `s` holds no `c`).
pub open spec fn run_before(s: Seq<char>, c: char) -> nat
    decreases s.len(),
{
    if s.len() == 0 || s[0] == c {
        0
    } else {
        1 + run_before(s.drop_first(), c)
    }
}

/// Whether `s` begins with the three-character delimiter `---`.
pub open spec fn starts_with_delimiter(s: Seq<char>) -> bool {
    s.len() >= 3 && s[0] == '-' && s[1] == '-' && s[2] == '-'
}

/// How many characters of `s` stand before the first `---` (all of them, if
/// `s` holds none).
pub open spec fn before_delimiter(s: Seq<char>) -> nat
    decreases s.len(),
{
    if s.len() < 3 {
        s.len()
    } else if starts_with_delimiter(s) {
        0
    } else {
        1 + before_delimiter(s.drop_first())
    }
}

/// The three characters of the delimiter.
pub open spec fn delimiter() -> Seq<char> {
    seq!['-', '-', '-']
}

/// `before_delimiter(s)` is the least position at which `---` stands in `s`:
/// it lies within `s`, a delimiter stands there unless fewer than three
/// characters follow, and none begins before it.
pub proof fn lemma_before_delimiter(s: Seq<char>)
    ensures
        before_delimiter(s) <= s.len(),
        before_delimiter(s) + 3 <= s.len() ==> s.subrange(
            before_delimiter(s) as int,
            before_delimiter(s) as int + 3,
        ) == delimiter(),
        forall|j: int| 0 <= j < before_delimiter(s) ==> !starts_with_delimiter(#[trigger] s.skip(j)),
    decreases s.len(),
{
    if s.len() >= 3 && !starts_with_delimiter(s) {
        let rest = s.drop_first();
        lemma_before_delimiter(rest);
        assert forall|j: int| 0 <= j < before_delimiter(s) implies !starts_with_delimiter(
            #[trigger] s.skip(j),
        ) by {
            if j > 0 {
                assert(s.skip(j) =~= rest.skip(j - 1));
            }
        }
    }
}

/// Trimming leaves no whitespace at either end, and a text without
/// whitespace at its ends is its own trimming.
pub proof fn lemma_trim(s: Seq<char>)
    ensures
        trim(s).len() > 0 ==> !is_whitespace(trim(s).first()) && !is_whitespace(trim(s).last()),
        s.len() > 0 && !is_whitespace(s.first()) && !is_whitespace(s.last()) ==> trim(s) == s,
        trim(s).len() <= s.len(),
{
    lemma_trim_start(s);
    lemma_trim_end(trim_start(s));
}

/// `trim_start` takes whitespace from the front only.
pub proof fn lemma_trim_start(s: Seq<char>)
    ensures
        trim_start(s).len() <= s.len(),
        trim_start(s).len() > 0 ==> !is_whitespace(trim_start(s).first()) && trim_start(s).last()
            == s.last(),
    decreases s.len(),
{
    if s.len() > 0 && is_whitespace(s[0]) {
        lemma_trim_start(s.drop_first());
    }
}

/// `trim_end` takes whitespace from the back only.
pub proof fn lemma_trim_end(s: Seq<char>)
    ensures
        trim_end(s).len() <= s.len(),
        trim_end(s).len() > 0 ==> !is_whitespace(trim_end(s).last()) && trim_end(s).first()
            == s.first(),
    decreases s.len(),
{
    if s.len() > 0 && is_whitespace(s.last()) {
        lemma_trim_end(s.drop_last());
    }
}

/// The bounds, within `chars[from..to]`, of that piece trimmed.
pub fn trim_bounds(chars: &Vec<char>, from: usize, to: usize) -> (r: (usize, usize))
    requires
        from <= to <= chars.len(),
    ensures
        from <= r.0 <= r.1 <= to,
        chars@.subrange(r.0 as int, r.1 as int) == trim(chars@.subrange(from as int, to as int)),
{
    let mut a: usize = from;
    while a < to && whitespace(chars[a])
        invariant
            from <= a <= to <= chars.len(),
            trim_start(chars@.subrange(from as int, to as int)) == trim_start(
                chars@.subrange(a as int, to as int),
            ),
        decreases to - a,
    {
        proof {
            assert(chars@.subrange(a as int, to as int).drop_first() =~= chars@.subrange(
                a + 1,
                to as int,
            ));
        }
        a += 1;
    }
    let mut b: usize = to;
    while b > a && whitespace(chars[b - 1])
        invariant
            a <= b <= to <= chars.len(),
            trim_end(chars@.subrange(a as int, to as int)) == trim_end(
                chars@.subrange(a as int, b as int),
            ),
        decreases b - a,
    {
        proof {
            assert(chars@.subrange(a as int, b as int).drop_last() =~= chars@.subrange(
                a as int,
                b - 1,
            ));
        }
        b -= 1;
    }
    (a, b)
}

/// The position of the first `c` in `chars[from..to]`, or `to` if there is none.
pub fn find_char(chars: &Vec<char>, c: char, from: usize, to: usize) -> (e: usize)
    requires
        from <= to <= chars.len(),
    ensures
        from <= e <= to,
        e - from == run_before(chars@.subrange(from as int, to as int), c),
{
    let mut e: usize = from;
    while e < to && chars[e] != c
        invariant
            from <= e <= to <= chars.len(),
            run_before(chars@.subrange(from as int, to as int), c) == (e - from) + run_before(
                chars@.subrange(e as int, to as int),
                c,
            ),
        decreases to - e,
    {
        proof {
            assert(chars@.subrange(e as int, to as int).drop_first() =~= chars@.subrange(
                e + 1,
                to as int,
            ));
        }
        e += 1;
    }
    e
}

/// The position of the first `---` at or after `from`, or the length of
/// `chars` if there is none.
pub fn find_delimiter(chars: &Vec<char>, from: usize) -> (e: usize)
    requires
        from <= chars.len(),
    ensures
        from <= e <= chars.len(),
        e - from == before_delimiter(chars@.skip(from as int)),
{
    let n: usize = chars.len();
    let mut e: usize = from;
    while n - e >= 3 && !(chars[e] == '-' && chars[e + 1] == '-' && chars[e + 2] == '-')
        invariant
            from <= e <= n == chars.len(),
            before_delimiter(chars@.skip(from as int)) == (e - from) + before_delimiter(
                chars@.skip(e as int),
            ),
        decreases n - e,
    {
        proof {
            assert(chars@.skip(e as int).drop_first() =~= chars@.skip(e + 1));
        }
        e += 1;
    }
    if n - e < 3 {
        n
    } else {
        e
    }
}

/// Whether `chars[from..to]` spells `word`.
pub fn range_is(chars: &Vec<char>, from: usize, to: usize, word: &str) -> (same: bool)
    requires
        from <= to <= chars.len(),
    ensures
        same == (chars@.subrange(from as int, to as int) == word@),
{
    let n: usize = word.unicode_len();
    if to - from != n {
        return false;
    }
    let mut i: usize = 0;
    while i < n
        invariant
            i <= n == word@.len(),
            to - from == n,
            to <= chars.len(),
            forall|j: int| 0 <= j < i ==> chars@[from + j] == word@[j],
        decreases n - i,
    {
        if chars[from + i] != word.get_char(i) {
            return false;
        }
        i += 1;
    }
    proof {
        assert(chars@.subrange(from as int, to as int) =~= word@);
    }
    true
}

/// The characters `from..to` of `text`, as a string of their own.
pub fn piece(text: &str, from: usize, to: usize) -> (s: String)
    requires
        from <= to <= text@.len(),
    ensures
        s@ == text@.subrange(from as int, to as int),
{
    String::from_str(text.substring_char(from, to))
}

} // verus!
