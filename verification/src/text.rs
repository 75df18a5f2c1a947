//! Moving between strings and sequences of characters.

use crate::tokenizer::collapse_quotes;
use vstd::prelude::*;

verus! {

/// `String::push` appends one character to the end of the string.
pub assume_specification[ String::push ](s: &mut String, c: char)
    ensures
        final(s)@ == old(s)@.push(c),
;

/// The characters of `s`, in order.
pub fn chars_of(s: &str) -> (v: Vec<char>)
    ensures
        v@ == s@,
{
    let mut v: Vec<char> = Vec::new();
    let chars = s.chars();
    proof {
        vstd::string::axiom_spec_iter(s);
    }
    for c in it: chars
        invariant
            it.seq() == s@,
            v@ == s@.take(it.index()),
    {
        proof {
            assert(s@.take(it.index() + 1) =~= s@.take(it.index()).push(c));
        }
        v.push(c);
    }
    proof {
        assert(s@.take(s@.len() as int) =~= s@);
    }
    v
}

/// Whether `a` and `b` hold the same characters.
pub fn same_chars(a: &Vec<char>, b: &Vec<char>) -> (same: bool)
    ensures
        same == (a@ == b@),
{
    if a.len() != b.len() {
        return false;
    }
    let mut i: usize = 0;
    while i < a.len()
        invariant
            i <= a.len(),
            a.len() == b.len(),
            forall|k: int| 0 <= k < i ==> a@[k] == b@[k],
        decreases a.len() - i,
    {
        if a[i] != b[i] {
            return false;
        }
        i += 1;
    }
    assert(a@ =~= b@);
    true
}

/// A copy of `texts`.
pub fn copy_of(texts: &[String]) -> (copy: Vec<String>)
    ensures
        copy.deep_view() == texts.deep_view(),
{
    let mut copy: Vec<String> = Vec::with_capacity(texts.len());
    let mut i: usize = 0;
    while i < texts.len()
        invariant
            i <= texts.len(),
            copy.deep_view() == texts.deep_view().take(i as int),
        decreases texts.len() - i,
    {
        let ghost before = copy.deep_view();
        copy.push(texts[i].clone());
        proof {
            assert(copy.deep_view() =~= before.push(texts[i as int]@));
            assert(texts.deep_view().take(i + 1) =~= before.push(texts[i as int]@));
        }
        i += 1;
    }
    proof {
        assert(texts.deep_view().take(texts.len() as int) =~= texts.deep_view());
    }
    copy
}

/// The characters of `chars` from `start` up to `end`, as a string.
pub fn text_of(chars: &Vec<char>, start: usize, end: usize) -> (s: String)
    requires
        start <= end <= chars.len(),
    ensures
        s@ == chars@.subrange(start as int, end as int),
{
    let mut s = String::new();
    let mut i: usize = start;
    while i < end
        invariant
            start <= i <= end <= chars.len(),
            s@ == chars@.subrange(start as int, i as int),
        decreases end - i,
    {
        s.push(chars[i]);
        proof {
            assert(chars@.subrange(start as int, i + 1) =~= chars@.subrange(
                start as int,
                i as int,
            ).push(chars@[i as int]));
        }
        i += 1;
    }
    s
}

/// The characters of `chars` from `start` up to `end` as a string, with each
/// pair of adjacent quotes replaced by one quote.
pub fn collapsed_text_of(chars: &Vec<char>, start: usize, end: usize) -> (s: String)
    requires
        start <= end <= chars.len(),
    ensures
        s@ == collapse_quotes(chars@.subrange(start as int, end as int)),
{
    let mut s = String::new();
    let mut i: usize = start;
    while i < end
        invariant
            start <= i <= end <= chars.len(),
            s@ + collapse_quotes(chars@.subrange(i as int, end as int)) == collapse_quotes(
                chars@.subrange(start as int, end as int),
            ),
        decreases end - i,
    {
        let ghost rest = chars@.subrange(i as int, end as int);
        let ghost before = s@;
        if i + 1 < end && chars[i] == '"' && chars[i + 1] == '"' {
            s.push('"');
            proof {
                assert(rest.skip(2) =~= chars@.subrange(i + 2, end as int));
                assert(before.push('"') + collapse_quotes(rest.skip(2)) =~= before + (seq!['"']
                    + collapse_quotes(rest.skip(2))));
            }
            i += 2;
        } else {
            s.push(chars[i]);
            proof {
                assert(rest.skip(1) =~= chars@.subrange(i + 1, end as int));
                assert(before.push(rest[0]) + collapse_quotes(rest.skip(1)) =~= before
                    + (seq![rest[0]] + collapse_quotes(rest.skip(1))));
            }
            i += 1;
        }
    }
    proof {
        assert(chars@.subrange(end as int, end as int) =~= Seq::<char>::empty());
        assert(s@ + Seq::<char>::empty() =~= s@);
    }
    s
}

} // verus!
