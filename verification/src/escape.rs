//! Escaping text for SVG and HTML.
use vstd::prelude::*;
use vstd::string::StrSliceExecFns;

use crate::text::push_char;

verus! {

/// The escaped form of a character: `<`, `>`, `"` and `&` become entities, any other character
/// stands for itself.
pub open spec fn escape_char(c: char) -> Seq<char> {
    if c == '<' {
        seq!['&', 'l', 't', ';']
    } else if c == '>' {
        seq!['&', 'g', 't', ';']
    } else if c == '"' {
        seq!['&', 'q', 'u', 'o', 't', ';']
    } else if c == '&' {
        seq!['&', 'a', 'm', 'p', ';']
    } else {
        seq![c]
    }
}

/// The escaped form of a text: each character escaped in turn.
pub open spec fn escaped(s: Seq<char>) -> Seq<char>
    decreases s.len(),
{
    if s.len() == 0 {
        seq![]
    } else {
        escaped(s.drop_last()) + escape_char(s.last())
    }
}

/// Appends the characters of `t` to `out`.
fn push_all(out: &mut String, Ghost(t): Ghost<Seq<char>>, a: char, b: char, c: char, d: char, e: char, f: char, n: usize)
    requires
        n <= 6,
        t.len() == n,
        n > 0 ==> t[0] == a,
        n > 1 ==> t[1] == b,
        n > 2 ==> t[2] == c,
        n > 3 ==> t[3] == d,
        n > 4 ==> t[4] == e,
        n > 5 ==> t[5] == f,
    ensures
        final(out)@ == old(out)@ + t,
{
    let ghost start = out@;
    let chars = [a, b, c, d, e, f];
    let mut i: usize = 0;
    while i < n
        invariant
            i <= n,
            n <= 6,
            t.len() == n,
            chars@ == seq![a, b, c, d, e, f],
            n > 0 ==> t[0] == a,
            n > 1 ==> t[1] == b,
            n > 2 ==> t[2] == c,
            n > 3 ==> t[3] == d,
            n > 4 ==> t[4] == e,
            n > 5 ==> t[5] == f,
            out@ == start + t.subrange(0, i as int),
        decreases n - i,
    {
        push_char(out, chars[i]);
        i = i + 1;
        assert(out@ =~= start + t.subrange(0, i as int));
    }
    assert(t.subrange(0, n as int) =~= t);
}

/// Escape `<`, `>`, `"` and `&` in `s` (see [`escaped`]).
pub fn escape_str(s: &str) -> (r: String)
    ensures
        r@ == escaped(s@),
{
    let n = s.unicode_len();
    let mut out = String::new();
    let mut i: usize = 0;
    while i < n
        invariant
            n == s@.len(),
            i <= n,
            out@ == escaped(s@.subrange(0, i as int)),
        decreases n - i,
    {
        let c = s.get_char(i);
        let ghost next = s@.subrange(0, i + 1);
        assert(next.drop_last() =~= s@.subrange(0, i as int));
        if c == '<' {
            push_all(&mut out, Ghost(escape_char(c)), '&', 'l', 't', ';', ' ', ' ', 4);
        } else if c == '>' {
            push_all(&mut out, Ghost(escape_char(c)), '&', 'g', 't', ';', ' ', ' ', 4);
        } else if c == '"' {
            push_all(&mut out, Ghost(escape_char(c)), '&', 'q', 'u', 'o', 't', ';', 6);
        } else if c == '&' {
            push_all(&mut out, Ghost(escape_char(c)), '&', 'a', 'm', 'p', ';', ' ', 5);
        } else {
            push_char(&mut out, c);
        }
        i = i + 1;
    }
    assert(s@.subrange(0, n as int) =~= s@);
    out
}

/// Is `c` a character that has to be escaped?
pub open spec fn is_special(c: char) -> bool {
    c == '<' || c == '>' || c == '"' || c == '&'
}

/// Escaped text holds no `<`, `>` or `"`, and text without special characters is left as it is.
pub proof fn lemma_escaped(s: Seq<char>)
    ensures
        forall|i: int|
            0 <= i < escaped(s).len() ==> #[trigger] escaped(s)[i] != '<' && escaped(s)[i] != '>'
                && escaped(s)[i] != '"',
        (forall|i: int| 0 <= i < s.len() ==> !is_special(#[trigger] s[i])) ==> escaped(s) == s,
    decreases s.len(),
{
    if s.len() > 0 {
        lemma_escaped(s.drop_last());
        let a = escaped(s.drop_last());
        let b = escape_char(s.last());
        assert forall|i: int| 0 <= i < escaped(s).len() implies #[trigger] escaped(s)[i] != '<'
            && escaped(s)[i] != '>' && escaped(s)[i] != '"' by {
            if i < a.len() {
                assert(escaped(s)[i] == a[i]);
            } else {
                assert(escaped(s)[i] == b[i - a.len()]);
            }
        }
        if forall|i: int| 0 <= i < s.len() ==> !is_special(#[trigger] s[i]) {
            assert(!is_special(s[s.len() - 1]));
            assert forall|i: int| 0 <= i < s.drop_last().len() implies !is_special(
                #[trigger] s.drop_last()[i],
            ) by {
                assert(s.drop_last()[i] == s[i]);
            }
            assert(escaped(s) =~= s);
        }
    }
}

} // verus!
