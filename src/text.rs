//! Characters, trimming, whitespace-separated tokens and joining.
use vstd::prelude::*;

verus! {

/// A character with the Unicode `White_Space` property.
pub open spec fn is_space(c: char) -> bool {
    let u = c as u32;
    ||| 0x09 <= u <= 0x0D
    ||| u == 0x20
    ||| u == 0x85
    ||| u == 0xA0
    ||| u == 0x1680
    ||| 0x2000 <= u <= 0x200A
    ||| u == 0x2028
    ||| u == 0x2029
    ||| u == 0x202F
    ||| u == 0x205F
    ||| u == 0x3000
}

/// A character that ends a line of input.
pub open spec fn is_line_end(c: char) -> bool {
    c == '\n' || c == '\r'
}

/// `s` without its leading whitespace.
pub open spec fn trim_start(s: Seq<char>) -> Seq<char>
    decreases s.len(),
{
    if s.len() > 0 && is_space(s[0]) {
        trim_start(s.drop_first())
    } else {
        s
    }
}

/// `s` without its trailing whitespace.
pub open spec fn trim_end(s: Seq<char>) -> Seq<char>
    decreases s.len(),
{
    if s.len() > 0 && is_space(s.last()) {
        trim_end(s.drop_last())
    } else {
        s
    }
}

/// `s` without whitespace at either end.
pub open spec fn trim(s: Seq<char>) -> Seq<char> {
    trim_end(trim_start(s))
}

/// `s` without the line-terminator characters at its end.
pub open spec fn strip_line_end(s: Seq<char>) -> Seq<char>
    decreases s.len(),
{
    if s.len() > 0 && is_line_end(s.last()) {
        strip_line_end(s.drop_last())
    } else {
        s
    }
}

/// The maximal runs of non-whitespace characters of `s`, in order.
pub open spec fn tokens(s: Seq<char>) -> Seq<Seq<char>>
    decreases s.len(),
{
    if s.len() == 0 {
        Seq::empty()
    } else {
        let prev = tokens(s.drop_last());
        let c = s.last();
        if is_space(c) {
            prev
        } else if s.len() >= 2 && !is_space(s[s.len() - 2]) {
            prev.drop_last().push(prev.last().push(c))
        } else {
            prev.push(seq![c])
        }
    }
}

/// The parts of `ts` joined with one space between neighbours.
pub open spec fn join(ts: Seq<Seq<char>>) -> Seq<char>
    decreases ts.len(),
{
    if ts.len() == 0 {
        Seq::empty()
    } else if ts.len() == 1 {
        ts[0]
    } else {
        join(ts.drop_last()) + seq![' '] + ts.last()
    }
}

/// The character sequences held by a list of character vectors.
pub open spec fn words(ts: Seq<Vec<char>>) -> Seq<Seq<char>> {
    ts.map_values(|t: Vec<char>| t@)
}

/// Whether `c` has the Unicode `White_Space` property.
pub fn is_whitespace(c: char) -> (r: bool)
    ensures
        r == is_space(c),
{
    let u = c as u32;
    (0x09 <= u && u <= 0x0D) || u == 0x20 || u == 0x85 || u == 0xA0 || u == 0x1680 || (0x2000
        <= u && u <= 0x200A) || u == 0x2028 || u == 0x2029 || u == 0x202F || u == 0x205F || u
        == 0x3000
}

/// The characters of `s`, in order.
pub fn to_chars(s: &str) -> (r: Vec<char>)
    ensures
        r@ == s@,
{
    let mut r: Vec<char> = Vec::new();
    for c in it: s.chars()
        invariant
            r@ == it.seq().take(it.index() as int),
    {
        r.push(c);
    }
    r
}

/// Relies on `String::push`: appends one character to the end of the string.
#[verifier::external_body]
fn push_char(s: &mut String, c: char)
    ensures
        final(s)@ == old(s)@.push(c),
{
    s.push(c);
}

/// Appends the characters of `cs` to `s`.
pub fn push_chars(s: &mut String, cs: &Vec<char>)
    ensures
        final(s)@ == old(s)@ + cs@,
{
    let ghost start = s@;
    for i in 0..cs.len()
        invariant
            s@ == start + cs@.take(i as int),
    {
        push_char(s, cs[i]);
        assert(cs@.take(i + 1) =~= cs@.take(i as int).push(cs@[i as int]));
    }
    assert(cs@.take(cs@.len() as int) =~= cs@);
}

/// A string holding the characters of `cs`.
pub fn from_chars(cs: &Vec<char>) -> (r: String)
    ensures
        r@ == cs@,
{
    let mut r = String::new();
    push_chars(&mut r, cs);
    r
}

/// The characters of `s` from `lo` up to `hi`.
fn slice_chars(s: &Vec<char>, lo: usize, hi: usize) -> (r: Vec<char>)
    requires
        lo <= hi <= s.len(),
    ensures
        r@ == s@.subrange(lo as int, hi as int),
{
    let mut r: Vec<char> = Vec::new();
    for i in lo..hi
        invariant
            lo <= hi <= s.len(),
            r@ == s@.subrange(lo as int, i as int),
    {
        r.push(s[i]);
        assert(s@.subrange(lo as int, i + 1) =~= s@.subrange(lo as int, i as int).push(s@[i as int]));
    }
    r
}

/// `s` without whitespace at either end.
pub fn trim_chars(s: &Vec<char>) -> (r: Vec<char>)
    ensures
        r@ == trim(s@),
{
    let n = s.len();
    let mut lo: usize = 0;
    assert(s@.subrange(0, n as int) =~= s@);
    while lo < n && is_whitespace(s[lo])
        invariant
            lo <= n == s.len(),
            trim_start(s@) == trim_start(s@.subrange(lo as int, n as int)),
        decreases n - lo,
    {
        assert(s@.subrange(lo as int, n as int).drop_first() =~= s@.subrange(lo + 1, n as int));
        lo = lo + 1;
    }
    let mut hi: usize = n;
    while hi > lo && is_whitespace(s[hi - 1])
        invariant
            lo <= hi <= n == s.len(),
            trim(s@) == trim_end(s@.subrange(lo as int, hi as int)),
        decreases hi,
    {
        assert(s@.subrange(lo as int, hi as int).drop_last() =~= s@.subrange(lo as int, hi - 1));
        hi = hi - 1;
    }
    slice_chars(s, lo, hi)
}

/// `s` without the line-terminator characters at its end.
pub fn strip_line_end_chars(s: &Vec<char>) -> (r: Vec<char>)
    ensures
        r@ == strip_line_end(s@),
{
    let n = s.len();
    let mut hi: usize = n;
    assert(s@.subrange(0, n as int) =~= s@);
    while hi > 0 && (s[hi - 1] == '\n' || s[hi - 1] == '\r')
        invariant
            hi <= n == s.len(),
            strip_line_end(s@) == strip_line_end(s@.subrange(0, hi as int)),
        decreases hi,
    {
        assert(s@.subrange(0, hi as int).drop_last() =~= s@.subrange(0, hi - 1));
        hi = hi - 1;
    }
    slice_chars(s, 0, hi)
}

/// The maximal runs of non-whitespace characters of `s`, in order.
pub fn split_tokens(s: &Vec<char>) -> (r: Vec<Vec<char>>)
    ensures
        words(r@) == tokens(s@),
{
    let mut done: Vec<Vec<char>> = Vec::new();
    let mut cur: Vec<char> = Vec::new();
    for i in 0..s.len()
        invariant
            tokens(s@.take(i as int)) == if cur.len() > 0 {
                words(done@).push(cur@)
            } else {
                words(done@)
            },
            cur.len() > 0 <==> (i > 0 && !is_space(s@[i - 1])),
    {
        let c = s[i];
        let ghost prev = words(done@);
        assert(s@.take(i + 1).drop_last() =~= s@.take(i as int));
        if is_whitespace(c) {
            if cur.len() > 0 {
                let ghost w = cur@;
                done.push(cur);
                assert(words(done@) =~= prev.push(w));
                cur = Vec::new();
            }
        } else {
            let ghost w = cur@;
            cur.push(c);
            proof {
                if w.len() > 0 {
                    let p = prev.push(w);
                    assert(p.drop_last() =~= prev);
                    assert(tokens(s@.take(i + 1)) == p.drop_last().push(p.last().push(c)));
                } else {
                    assert(tokens(s@.take(i + 1)) == prev.push(seq![c]));
                    assert(cur@ =~= seq![c]);
                }
            }
        }
    }
    assert(s@.take(s@.len() as int) =~= s@);
    if cur.len() > 0 {
        let ghost prev = words(done@);
        let ghost w = cur@;
        done.push(cur);
        assert(words(done@) =~= prev.push(w));
    }
    done
}

/// The parts of `ts` from index `start` on, joined with single spaces.
pub fn join_from(ts: &Vec<Vec<char>>, start: usize) -> (r: String)
    requires
        start <= ts.len(),
    ensures
        r@ == join(words(ts@).skip(start as int)),
{
    let mut r = String::new();
    let ghost all = words(ts@);
    for i in start..ts.len()
        invariant
            start <= ts.len(),
            all == words(ts@),
            r@ == join(all.subrange(start as int, i as int)),
    {
        let ghost before = r@;
        assert(all.subrange(start as int, i + 1).drop_last() =~= all.subrange(start as int, i as int));
        if i > start {
            push_char(&mut r, ' ');
        }
        push_chars(&mut r, &ts[i]);
        assert(all[i as int] == ts[i as int]@);
    }
    assert(all.subrange(start as int, ts.len() as int) =~= all.skip(start as int));
    r
}

/// Whether `a` and `b` hold the same characters.
pub fn same_chars(a: &Vec<char>, b: &Vec<char>) -> (r: bool)
    ensures
        r == (a@ == b@),
{
    if a.len() != b.len() {
        return false;
    }
    for i in 0..a.len()
        invariant
            a.len() == b.len(),
            forall|j: int| 0 <= j < i ==> a@[j] == b@[j],
    {
        if a[i] != b[i] {
            return false;
        }
    }
    assert(a@ =~= b@);
    true
}

/// Whether every character of `w` is whitespace.
pub open spec fn all_space(w: Seq<char>) -> bool {
    forall|i: int| 0 <= i < w.len() ==> is_space(#[trigger] w[i])
}

/// Whitespace at the end of a line adds no token.
pub proof fn lemma_tokens_trailing_space(a: Seq<char>, w: Seq<char>)
    requires
        all_space(w),
    ensures
        tokens(a + w) == tokens(a),
    decreases w.len(),
{
    if w.len() == 0 {
        assert(a + w =~= a);
    } else {
        let w0 = w.drop_last();
        assert((a + w).drop_last() =~= a + w0);
        assert(is_space(w[w.len() - 1]));
        lemma_tokens_trailing_space(a, w0);
    }
}

/// Tokens do not depend on the width of the whitespace between them: any
/// non-empty run of whitespace may stand for any other.
pub proof fn lemma_tokens_ignore_spacing(a: Seq<char>, w1: Seq<char>, w2: Seq<char>, b: Seq<char>)
    requires
        w1.len() > 0,
        w2.len() > 0,
        all_space(w1),
        all_space(w2),
    ensures
        tokens(a + w1 + b) == tokens(a + w2 + b),
    decreases b.len(),
{
    if b.len() == 0 {
        assert(a + w1 + b =~= a + w1);
        assert(a + w2 + b =~= a + w2);
        lemma_tokens_trailing_space(a, w1);
        lemma_tokens_trailing_space(a, w2);
    } else {
        let b0 = b.drop_last();
        let s1 = a + w1 + b;
        let s2 = a + w2 + b;
        assert(s1.drop_last() =~= a + w1 + b0);
        assert(s2.drop_last() =~= a + w2 + b0);
        lemma_tokens_ignore_spacing(a, w1, w2, b0);
        if b0.len() > 0 {
            assert(s1[s1.len() - 2] == b0.last());
            assert(s2[s2.len() - 2] == b0.last());
        } else {
            assert(s1[s1.len() - 2] == w1[w1.len() - 1]);
            assert(s2[s2.len() - 2] == w2[w2.len() - 1]);
        }
        assert(s1.last() == b.last() && s2.last() == b.last());
    }
}

} // verus!
