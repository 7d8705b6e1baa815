//! Character-level normalisation used when a request is put into canonical form.

use vstd::prelude::*;
use vstd::std_specs::iter::IteratorSpec;

verus! {

/// `String::push` appends exactly one character to the end of the string.
pub assume_specification[ String::push ](s: &mut String, c: char)
    ensures
        final(s)@ == old(s)@.push(c),
;

/// The characters of `s`, in order.
pub fn chars_of(s: &str) -> (out: Vec<char>)
    ensures
        out@ == s@,
{
    let mut out: Vec<char> = Vec::new();
    let mut it = s.chars();
    loop
        invariant
            it.obeys_prophetic_iter_laws(),
            out@ + it.remaining() == s@,
            it.decrease() is Some,
        ensures
            out@ == s@,
        decreases it.decrease()->0,
    {
        match it.next() {
            Some(c) => {
                out.push(c);
                assert(out@ + it.remaining() =~= s@);
            },
            None => {
                assert(out@ =~= s@);
                break;
            },
        }
    }
    out
}

/// Appends the characters of `chars` to `out`.
pub fn push_chars(out: &mut String, chars: &Vec<char>)
    ensures
        final(out)@ == old(out)@ + chars@,
{
    let mut i: usize = 0;
    assert(out@ =~= old(out)@ + chars@.take(0));
    while i < chars.len()
        invariant
            i <= chars.len(),
            out@ == old(out)@ + chars@.take(i as int),
        decreases chars.len() - i,
    {
        out.push(chars[i]);
        i += 1;
        assert(out@ =~= old(out)@ + chars@.take(i as int));
    }
    assert(chars@.take(i as int) =~= chars@);
}

/// An ASCII capital letter becomes its small letter; every other character stays.
pub open spec fn fold_char(c: char) -> char {
    if 'A' <= c && c <= 'Z' {
        ((c as u8) + 32) as char
    } else {
        c
    }
}

/// `s` with each ASCII capital letter replaced by its small letter.
pub open spec fn lowercase(s: Seq<char>) -> Seq<char> {
    Seq::new(s.len(), |i: int| fold_char(s[i]))
}

/// Space, tab, line feed, vertical tab, form feed and carriage return.
pub open spec fn is_blank(c: char) -> bool {
    c == ' ' || ('\t' <= c && c <= '\r')
}

/// `s` without leading and trailing blanks, each inner run of blanks replaced
/// by one space.
///
/// A blank contributes nothing by itself; a visible character that follows a
/// blank brings one space with it, unless nothing visible came before.
pub open spec fn squeeze(s: Seq<char>) -> Seq<char>
    decreases s.len(),
{
    if s.len() == 0 {
        Seq::empty()
    } else {
        let head = squeeze(s.drop_last());
        let c = s.last();
        if is_blank(c) {
            head
        } else if head.len() > 0 && is_blank(s[s.len() - 2]) {
            head.push(' ').push(c)
        } else {
            head.push(c)
        }
    }
}

/// No ASCII capital letter occurs in `s`.
pub open spec fn is_folded(s: Seq<char>) -> bool {
    forall|i: int| #![trigger s[i]] 0 <= i < s.len() ==> !('A' <= s[i] && s[i] <= 'Z')
}

/// `s` does not begin with a blank, and each blank in it is a space with a
/// visible character behind it: nothing is left to trim or to collapse.
pub open spec fn is_squeezed(s: Seq<char>) -> bool {
    &&& s.len() > 0 ==> !is_blank(s[0])
    &&& forall|i: int|
        0 <= i < s.len() && is_blank(#[trigger] s[i]) ==> s[i] == ' ' && i + 1 < s.len()
            && !is_blank(s[i + 1])
}

/// Lower-casing keeps the length and leaves no capital letter.
pub proof fn lemma_lowercase_is_folded(s: Seq<char>)
    ensures
        lowercase(s).len() == s.len(),
        is_folded(lowercase(s)),
        is_folded(s) ==> lowercase(s) == s,
{
    if is_folded(s) {
        assert(lowercase(s) =~= s);
    }
}

/// What squeezing leaves is squeezed.
pub proof fn lemma_squeeze_is_squeezed(s: Seq<char>)
    ensures
        is_squeezed(squeeze(s)),
    decreases s.len(),
{
    if s.len() > 0 {
        let head = squeeze(s.drop_last());
        lemma_squeeze_is_squeezed(s.drop_last());
        let c = s.last();
        let r = squeeze(s);
        if !is_blank(c) {
            assert forall|i: int| 0 <= i < r.len() && is_blank(#[trigger] r[i]) implies r[i] == ' '
                && i + 1 < r.len() && !is_blank(r[i + 1]) by {
                if i < head.len() {
                    assert(r[i] == head[i]);
                    assert(is_blank(head[i]));
                    assert(r[i + 1] == head[i + 1]);
                }
            }
            if head.len() > 0 {
                assert(r[0] == head[0]);
            }
        }
    }
}

/// Squeezing changes nothing in a text that is squeezed already.
pub proof fn lemma_squeezed_is_kept(s: Seq<char>)
    requires
        is_squeezed(s),
    ensures
        squeeze(s) == s,
    decreases s.len(),
{
    if s.len() > 0 {
        let n = s.len() as int;
        let c = s.last();
        assert(!is_blank(c)) by {
            if is_blank(s[n - 1]) {
            }
        }
        if n == 1 {
            assert(s.drop_last() =~= Seq::<char>::empty());
            assert(squeeze(s.drop_last()) =~= Seq::<char>::empty());
            assert(squeeze(s) =~= s);
        } else if is_blank(s[n - 2]) {
            let mid = s.drop_last();
            let front = mid.drop_last();
            assert(mid.last() == s[n - 2]);
            assert(n >= 3) by {
                if n == 2 {
                    assert(is_blank(s[0]));
                }
            }
            assert(!is_blank(s[n - 3])) by {
                if is_blank(s[n - 3]) {
                    assert(!is_blank(s[n - 3 + 1]));
                }
            }
            assert(is_squeezed(front)) by {
                assert(front[0] == s[0]);
                assert forall|i: int| 0 <= i < front.len() && is_blank(
                    #[trigger] front[i],
                ) implies front[i] == ' ' && i + 1 < front.len() && !is_blank(front[i + 1]) by {
                    assert(front[i] == s[i]);
                    assert(is_blank(s[i]));
                    if i + 1 == front.len() {
                        assert(i == n - 3);
                    } else {
                        assert(front[i + 1] == s[i + 1]);
                    }
                }
            }
            lemma_squeezed_is_kept(front);
            assert(squeeze(mid) == front);
            assert(s[n - 2] == ' ');
            assert(squeeze(s) =~= s);
        } else {
            let mid = s.drop_last();
            assert(is_squeezed(mid)) by {
                assert(mid[0] == s[0]);
                assert forall|i: int| 0 <= i < mid.len() && is_blank(#[trigger] mid[i]) implies mid[i]
                    == ' ' && i + 1 < mid.len() && !is_blank(mid[i + 1]) by {
                    assert(mid[i] == s[i]);
                    assert(is_blank(s[i]));
                    assert(i != n - 2);
                    assert(mid[i + 1] == s[i + 1]);
                }
            }
            lemma_squeezed_is_kept(mid);
            assert(squeeze(s) =~= s);
        }
    }
}

/// Squeezing twice is squeezing once.
pub proof fn lemma_squeeze_idempotent(s: Seq<char>)
    ensures
        squeeze(squeeze(s)) == squeeze(s),
{
    lemma_squeeze_is_squeezed(s);
    lemma_squeezed_is_kept(squeeze(s));
}

/// The small letter of an ASCII capital, any other character unchanged.
pub fn fold(c: char) -> (r: char)
    ensures
        r == fold_char(c),
{
    if 'A' <= c && c <= 'Z' {
        let b: u8 = c as u8;
        (b + 32) as char
    } else {
        c
    }
}

/// Tells whether `c` is one of the six ASCII blanks.
pub fn blank(c: char) -> (r: bool)
    ensures
        r == is_blank(c),
{
    c == ' ' || ('\t' <= c && c <= '\r')
}

/// Lower-cases the ASCII letters of `s`.
pub fn to_lowercase(s: &str) -> (out: String)
    ensures
        out@ == lowercase(s@),
{
    let chars = chars_of(s);
    let mut out = String::new();
    let mut i: usize = 0;
    while i < chars.len()
        invariant
            i <= chars.len(),
            chars@ == s@,
            out@ == lowercase(s@.take(i as int)),
        decreases chars.len() - i,
    {
        out.push(fold(chars[i]));
        i += 1;
        assert(out@ =~= lowercase(s@.take(i as int)));
    }
    assert(s@.take(i as int) =~= s@);
    out
}

/// Trims `s` and collapses each inner run of blanks to one space.
pub fn squeeze_blanks(s: &str) -> (out: String)
    ensures
        out@ == squeeze(s@),
{
    let chars = chars_of(s);
    let mut out = String::new();
    let mut after_blank = false;
    let mut started = false;
    let mut i: usize = 0;
    while i < chars.len()
        invariant
            i <= chars.len(),
            chars@ == s@,
            out@ == squeeze(s@.take(i as int)),
            after_blank == (i > 0 && is_blank(s@[i - 1])),
            started == (out@.len() > 0),
        decreases chars.len() - i,
    {
        let c = chars[i];
        proof {
            let next = s@.take(i + 1);
            assert(next.drop_last() =~= s@.take(i as int));
            assert(next.last() == c);
            if i > 0 {
                assert(next[next.len() - 2] == s@[i - 1]);
            }
        }
        if blank(c) {
            after_blank = true;
        } else {
            if started && after_blank {
                out.push(' ');
            }
            out.push(c);
            after_blank = false;
            started = true;
        }
        i += 1;
    }
    assert(s@.take(i as int) =~= s@);
    out
}

} // verus!
