//! Character level helpers shared by the parsers of the crate.
use vstd::prelude::*;
use vstd::string::StrSliceExecFns;

verus! {

/// Unicode's `White_Space` property.
pub open spec fn is_whitespace(c: char) -> bool {
    let v = c as u32;
    ||| 0x09 <= v <= 0x0D
    ||| v == 0x20
    ||| v == 0x85
    ||| v == 0xA0
    ||| v == 0x1680
    ||| 0x2000 <= v <= 0x200A
    ||| v == 0x2028
    ||| v == 0x2029
    ||| v == 0x202F
    ||| v == 0x205F
    ||| v == 0x3000
}

/// Does `c` have Unicode's `White_Space` property?
pub fn char_is_whitespace(c: char) -> (r: bool)
    ensures
        r == is_whitespace(c),
{
    let v = c as u32;
    (0x09 <= v && v <= 0x0D) || v == 0x20 || v == 0x85 || v == 0xA0 || v == 0x1680 || (0x2000
        <= v && v <= 0x200A) || v == 0x2028 || v == 0x2029 || v == 0x202F || v == 0x205F || v
        == 0x3000
}

/// Is `c` an uppercase ASCII letter?
pub open spec fn is_ascii_uppercase(c: char) -> bool {
    'A' <= c <= 'Z'
}

/// Is `c` an uppercase ASCII letter?
pub fn char_is_ascii_uppercase(c: char) -> (r: bool)
    ensures
        r == is_ascii_uppercase(c),
{
    'A' <= c && c <= 'Z'
}

/// The number of bytes that `c` takes in UTF-8.
pub open spec fn utf8_width(c: char) -> nat {
    let v = c as u32;
    if v < 0x80 {
        1
    } else if v < 0x800 {
        2
    } else if v < 0x10000 {
        3
    } else {
        4
    }
}

/// The number of bytes that `s` takes in UTF-8.
pub open spec fn utf8_len(s: Seq<char>) -> nat
    decreases s.len(),
{
    if s.len() == 0 {
        0
    } else {
        utf8_len(s.drop_last()) + utf8_width(s.last())
    }
}

/// The number of bytes that `c` takes in UTF-8.
pub fn char_utf8_width(c: char) -> (r: usize)
    ensures
        r == utf8_width(c),
{
    let v = c as u32;
    if v < 0x80 {
        1
    } else if v < 0x800 {
        2
    } else if v < 0x10000 {
        3
    } else {
        4
    }
}

/// The number of leading whitespace characters of `s`.
pub open spec fn leading_whitespace(s: Seq<char>) -> nat
    decreases s.len(),
{
    if s.len() > 0 && is_whitespace(s[0]) {
        1 + leading_whitespace(s.drop_first())
    } else {
        0
    }
}

/// `s` without its leading whitespace.
pub open spec fn trim_start(s: Seq<char>) -> Seq<char> {
    s.skip(leading_whitespace(s) as int)
}

/// The leading whitespace count never exceeds the length.
pub proof fn lemma_leading_whitespace_bound(s: Seq<char>)
    ensures
        leading_whitespace(s) <= s.len(),
        leading_whitespace(s) < s.len() ==> !is_whitespace(s[leading_whitespace(s) as int]),
        forall|i: int| 0 <= i < leading_whitespace(s) ==> is_whitespace(#[trigger] s[i]),
    decreases s.len(),
{
    if s.len() > 0 && is_whitespace(s[0]) {
        lemma_leading_whitespace_bound(s.drop_first());
        assert forall|i: int| 0 <= i < leading_whitespace(s) implies is_whitespace(
            #[trigger] s[i],
        ) by {
            if i > 0 {
                assert(s[i] == s.drop_first()[i - 1]);
            }
        }
    }
}

/// The UTF-8 length of a sequence extended by one character.
pub proof fn lemma_utf8_len_push(s: Seq<char>, c: char)
    ensures
        utf8_len(s.push(c)) == utf8_len(s) + utf8_width(c),
{
    assert(s.push(c).drop_last() =~= s);
}

/// The characters of a string slice.
pub fn chars_of(s: &str) -> (r: Vec<char>)
    ensures
        r@ == s@,
{
    let n = s.unicode_len();
    let mut v: Vec<char> = Vec::new();
    let mut i: usize = 0;
    while i < n
        invariant
            n == s@.len(),
            i <= n,
            v@ == s@.subrange(0, i as int),
        decreases n - i,
    {
        v.push(s.get_char(i));
        i = i + 1;
        assert(v@ =~= s@.subrange(0, i as int));
    }
    assert(v@ =~= s@);
    v
}

/// The number of leading whitespace characters of `s[from..]`.
pub fn count_leading_whitespace(s: &Vec<char>, from: usize) -> (r: usize)
    requires
        from <= s@.len(),
    ensures
        r == leading_whitespace(s@.skip(from as int)),
        from + r <= s@.len(),
{
    let mut i = from;
    proof {
        lemma_leading_whitespace_bound(s@.skip(from as int));
    }
    while i < s.len() && char_is_whitespace(s[i])
        invariant
            from <= i <= s@.len(),
            i - from <= leading_whitespace(s@.skip(from as int)),
            leading_whitespace(s@.skip(from as int)) <= s@.len() - from,
            forall|j: int| from <= j < i ==> is_whitespace(#[trigger] s@[j]),
        decreases s@.len() - i,
    {
        proof {
            lemma_leading_whitespace_bound(s@.skip(from as int));
            if i - from == leading_whitespace(s@.skip(from as int)) {
                assert(s@.skip(from as int)[i - from] == s@[i as int]);
            }
        }
        i = i + 1;
    }
    proof {
        lemma_leading_whitespace_bound(s@.skip(from as int));
        if i - from < leading_whitespace(s@.skip(from as int)) {
            assert(is_whitespace(s@.skip(from as int)[i - from]));
            assert(s@.skip(from as int)[i - from] == s@[i as int]);
        }
    }
    i - from
}

/// The smaller of two integers.
pub open spec fn min_int(a: int, b: int) -> int {
    if a <= b {
        a
    } else {
        b
    }
}

/// The UTF-8 length of `s[from..to]`, or `usize::MAX` where it would not fit.
pub fn utf8_len_between(s: &Vec<char>, from: usize, to: usize) -> (r: usize)
    requires
        from <= to <= s@.len(),
    ensures
        r == min_int(utf8_len(s@.subrange(from as int, to as int)) as int, usize::MAX as int),
{
    let mut i = from;
    let mut bytes: usize = 0;
    while i < to
        invariant
            from <= i <= to <= s@.len(),
            bytes == min_int(utf8_len(s@.subrange(from as int, i as int)) as int, usize::MAX as int),
        decreases to - i,
    {
        proof {
            lemma_utf8_len_push(s@.subrange(from as int, i as int), s@[i as int]);
            assert(s@.subrange(from as int, i as int).push(s@[i as int]) =~= s@.subrange(
                from as int,
                i + 1,
            ));
        }
        bytes = bytes.saturating_add(char_utf8_width(s[i]));
        i = i + 1;
    }
    bytes
}

/// Appends `c` to the end of `s`, through `String::push`, which by its documentation appends the
/// given character to the end of the string.
#[verifier::external_body]
pub fn push_char(s: &mut String, c: char)
    ensures
        final(s)@ == old(s)@.push(c),
{
    s.push(c);
}

/// Appends the characters of `t` to the end of `s`.
pub fn push_str(s: &mut String, t: &str)
    ensures
        final(s)@ == old(s)@ + t@,
{
    let n = t.unicode_len();
    let mut i: usize = 0;
    while i < n
        invariant
            n == t@.len(),
            i <= n,
            s@ == old(s)@ + t@.subrange(0, i as int),
        decreases n - i,
    {
        push_char(s, t.get_char(i));
        i = i + 1;
        assert(s@ =~= old(s)@ + t@.subrange(0, i as int));
    }
    assert(t@.subrange(0, n as int) =~= t@);
}

/// The number of trailing whitespace characters of `s`.
pub open spec fn trailing_whitespace(s: Seq<char>) -> nat
    decreases s.len(),
{
    if s.len() > 0 && is_whitespace(s.last()) {
        1 + trailing_whitespace(s.drop_last())
    } else {
        0
    }
}

/// `s` without its leading and trailing whitespace.
pub open spec fn trim(s: Seq<char>) -> Seq<char> {
    let t = trim_start(s);
    t.take(t.len() - trailing_whitespace(t))
}

/// The trailing whitespace count never exceeds the length.
pub proof fn lemma_trailing_whitespace_bound(s: Seq<char>)
    ensures
        trailing_whitespace(s) <= s.len(),
    decreases s.len(),
{
    if s.len() > 0 && is_whitespace(s.last()) {
        lemma_trailing_whitespace_bound(s.drop_last());
    }
}

/// The number of trailing whitespace characters of `s[from..to]`.
pub fn count_trailing_whitespace(s: &Vec<char>, from: usize, to: usize) -> (r: usize)
    requires
        from <= to <= s@.len(),
    ensures
        r == trailing_whitespace(s@.subrange(from as int, to as int)),
        r <= to - from,
{
    let mut j = to;
    while j > from && char_is_whitespace(s[j - 1])
        invariant
            from <= j <= to <= s@.len(),
            trailing_whitespace(s@.subrange(from as int, to as int)) == (to - j)
                + trailing_whitespace(s@.subrange(from as int, j as int)),
        decreases j - from,
    {
        let ghost sub = s@.subrange(from as int, j as int);
        assert(sub.drop_last() =~= s@.subrange(from as int, j - 1));
        assert(sub.last() == s@[j - 1]);
        j = j - 1;
    }
    proof {
        let sub = s@.subrange(from as int, j as int);
        if j > from {
            assert(sub.last() == s@[j - 1]);
        }
    }
    to - j
}

/// The range of `s[from..to]` without its leading and trailing whitespace.
pub fn trim_range(s: &Vec<char>, from: usize, to: usize) -> (r: (usize, usize))
    requires
        from <= to <= s@.len(),
    ensures
        from <= r.0 <= r.1 <= to,
        s@.subrange(r.0 as int, r.1 as int) == trim(s@.subrange(from as int, to as int)),
        r.0 == from + leading_whitespace(s@.subrange(from as int, to as int)),
{
    let ghost sub = s@.subrange(from as int, to as int);
    proof {
        lemma_leading_whitespace_bound(sub);
    }
    let mut i = from;
    while i < to && char_is_whitespace(s[i])
        invariant
            from <= i <= to <= s@.len(),
            sub == s@.subrange(from as int, to as int),
            i - from <= leading_whitespace(sub),
            forall|k: int| from <= k < i ==> is_whitespace(#[trigger] s@[k]),
        decreases to - i,
    {
        proof {
            lemma_leading_whitespace_bound(sub);
            if i - from == leading_whitespace(sub) {
                assert(sub[i - from] == s@[i as int]);
            }
        }
        i = i + 1;
    }
    proof {
        lemma_leading_whitespace_bound(sub);
        if i - from < leading_whitespace(sub) {
            assert(is_whitespace(sub[i - from]));
            assert(sub[i - from] == s@[i as int]);
        }
    }
    assert(i - from == leading_whitespace(sub));
    let t = count_trailing_whitespace(s, i, to);
    assert(trim_start(sub) =~= s@.subrange(i as int, to as int));
    assert(s@.subrange(i as int, (to - t) as int) =~= trim_start(sub).take(
        trim_start(sub).len() - trailing_whitespace(trim_start(sub)),
    ));
    (i, to - t)
}

/// Are the characters `s[from..]` preceded by the text `p` at `from`?
pub fn starts_with_at(s: &Vec<char>, from: usize, p: &str) -> (r: bool)
    requires
        from <= s@.len(),
    ensures
        r == (from + p@.len() <= s@.len() && s@.subrange(from as int, from + p@.len()) == p@),
{
    let n = p.unicode_len();
    if n > s.len() - from {
        return false;
    }
    let mut k: usize = 0;
    while k < n
        invariant
            n == p@.len(),
            from + n <= s@.len(),
            s@.len() == s.len(),
            k <= n,
            forall|j: int| 0 <= j < k ==> s@[from + j] == p@[j],
        decreases n - k,
    {
        if s[from + k] != p.get_char(k) {
            assert(s@.subrange(from as int, from + n)[k as int] != p@[k as int]);
            return false;
        }
        k = k + 1;
    }
    assert(s@.subrange(from as int, from + n) =~= p@);
    true
}

/// Is the text `a` the text `b`?
pub fn str_eq(a: &str, b: &str) -> (r: bool)
    ensures
        r == (a@ == b@),
{
    let c = chars_of(a);
    let r = c.len() == b.unicode_len() && starts_with_at(&c, 0, b);
    proof {
        if c@.len() == b@.len() {
            assert(c@.subrange(0, b@.len() as int) =~= c@);
        }
    }
    r
}

} // verus!
