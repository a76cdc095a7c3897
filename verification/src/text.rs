//! The whitespace tokenizer shared by indexing and querying, and small
//! verified string helpers used across the crate.

use std::borrow::Cow;
use vstd::prelude::*;

verus! {

use vstd::string::StrSliceExecFns;

/// The tokens of `s` when split at every single space character, empty
/// pieces included, exactly as `str::split(' ')` yields them.
pub open spec fn split_ws(s: Seq<char>) -> Seq<Seq<char>>
    decreases s.len(),
{
    if s.len() == 0 {
        seq![Seq::<char>::empty()]
    } else if s[0] == ' ' {
        seq![Seq::<char>::empty()] + split_ws(s.drop_first())
    } else {
        let rest = split_ws(s.drop_first());
        seq![seq![s[0]] + rest[0]] + rest.drop_first()
    }
}

/// The non-empty tokens of `s`: what the search index actually files,
/// since it ignores empty tokens.
pub open spec fn words_of(s: Seq<char>) -> Seq<Seq<char>> {
    split_ws(s).filter(|t: Seq<char>| t.len() > 0)
}

pub open spec fn has_space(s: Seq<char>) -> bool {
    exists|i: int| 0 <= i < s.len() && s[i] == ' '
}

/// Splitting never yields an empty token list: even `""` splits to `[""]`.
pub proof fn lemma_split_ws_len(s: Seq<char>)
    ensures
        split_ws(s).len() >= 1,
    decreases s.len(),
{
    if s.len() == 0 {
    } else {
        lemma_split_ws_len(s.drop_first());
    }
}

/// A string without a space is a single token.
pub proof fn lemma_split_ws_no_space(s: Seq<char>)
    requires
        !has_space(s),
    ensures
        split_ws(s) == seq![s],
    decreases s.len(),
{
    if s.len() == 0 {
        assert(split_ws(s) =~~= seq![s]);
    } else {
        assert(s[0] != ' ');
        assert(!has_space(s.drop_first())) by {
            if has_space(s.drop_first()) {
                let i = choose|i: int|
                    0 <= i < s.drop_first().len() && s.drop_first()[i] == ' ';
                assert(s[i + 1] == ' ');
            }
        }
        lemma_split_ws_no_space(s.drop_first());
        lemma_split_ws_len(s.drop_first());
        assert(split_ws(s) =~~= seq![s]) by {
            assert(seq![s[0]] + split_ws(s.drop_first())[0] =~= s);
        }
    }
}

/// Splitting a space-free prefix, a space, and a remainder yields the prefix
/// as one token followed by the split of the remainder.
pub proof fn lemma_split_ws_step(p: Seq<char>, rest: Seq<char>)
    requires
        !has_space(p),
    ensures
        split_ws(p + seq![' '] + rest) == seq![p] + split_ws(rest),
    decreases p.len(),
{
    let whole = p + seq![' '] + rest;
    if p.len() == 0 {
        assert(whole[0] == ' ');
        assert(whole.drop_first() =~= rest);
        assert(split_ws(whole) =~~= seq![p] + split_ws(rest));
    } else {
        assert(whole[0] == p[0]);
        assert(p[0] != ' ');
        assert(!has_space(p.drop_first())) by {
            if has_space(p.drop_first()) {
                let i = choose|i: int|
                    0 <= i < p.drop_first().len() && p.drop_first()[i] == ' ';
                assert(p[i + 1] == ' ');
            }
        }
        assert(whole.drop_first() =~= p.drop_first() + seq![' '] + rest);
        lemma_split_ws_step(p.drop_first(), rest);
        let tail = split_ws(p.drop_first() + seq![' '] + rest);
        assert(tail == seq![p.drop_first()] + split_ws(rest));
        assert(split_ws(rest).len() >= 1) by {
            lemma_split_ws_len(rest);
        }
        assert(split_ws(whole) =~~= seq![p] + split_ws(rest)) by {
            assert(seq![whole[0]] + tail[0] =~= p);
            assert(tail.drop_first() =~= split_ws(rest));
        }
    }
}

/// Relies on `String::push`: appends the given character to the end of the
/// string.
#[verifier::external_body]
fn push_char(s: &mut String, c: char)
    ensures
        final(s)@ == old(s)@.push(c),
{
    s.push(c);
}

/// The whitespace tokenizer: splits on single-space boundaries, with no
/// stemming, case folding or punctuation stripping. Empty pieces are kept,
/// as the index and the scorer discard them on their own.
pub fn tokenizer(s: &str) -> (r: Vec<Cow<'_, str>>)
    ensures
        r.deep_view() == split_ws(s@),
{
    let n = s.unicode_len();
    let mut r: Vec<Cow<str>> = Vec::new();
    let mut cur = String::new();
    let mut i: usize = 0;
    proof {
        assert(cur@ + s@.skip(0) =~= s@);
        assert(r.deep_view() + split_ws(s@) =~= split_ws(s@));
    }
    while i < n
        invariant
            i <= n,
            n == s@.len(),
            !has_space(cur@),
            r.deep_view() + split_ws(cur@ + s@.skip(i as int)) =~= split_ws(s@),
        decreases n - i,
    {
        let c = s.get_char(i);
        let ghost prev = cur@ + s@.skip(i as int);
        if c == ' ' {
            proof {
                assert(prev =~= cur@ + seq![' '] + s@.skip(i + 1));
                lemma_split_ws_step(cur@, s@.skip(i + 1));
            }
            r.push(Cow::Owned(cur));
            cur = String::new();
            proof {
                assert(cur@ + s@.skip(i + 1) =~= s@.skip(i + 1));
                assert(r.deep_view() + split_ws(s@.skip(i + 1)) =~= split_ws(s@));
            }
        } else {
            let ghost cur0 = cur@;
            push_char(&mut cur, c);
            proof {
                assert(cur@ + s@.skip(i + 1) =~= prev);
                assert(!has_space(cur@)) by {
                    if has_space(cur@) {
                        let j = choose|j: int| 0 <= j < cur@.len() && cur@[j] == ' ';
                        if j < cur0.len() {
                            assert(cur0[j] == ' ');
                        }
                    }
                }
            }
        }
        i = i + 1;
    }
    proof {
        assert(cur@ + s@.skip(n as int) =~= cur@);
        lemma_split_ws_no_space(cur@);
    }
    r.push(Cow::Owned(cur));
    proof {
        assert(r.deep_view() =~= split_ws(s@));
    }
    r
}

/// Whether `prefix` is a prefix of `s`, stated over the character views.
pub fn starts_with(s: &str, prefix: &str) -> (r: bool)
    ensures
        r == prefix@.is_prefix_of(s@),
{
    let np = prefix.unicode_len();
    let ns = s.unicode_len();
    if np > ns {
        return false;
    }
    let mut i: usize = 0;
    while i < np
        invariant
            i <= np,
            np == prefix@.len(),
            ns == s@.len(),
            np <= ns,
            forall|j: int| 0 <= j < i ==> s@[j] == prefix@[j],
        decreases np - i,
    {
        if s.get_char(i) != prefix.get_char(i) {
            return false;
        }
        i = i + 1;
    }
    assert(prefix@.is_prefix_of(s@)) by {
        assert(prefix@ =~= s@.subrange(0, np as int));
    }
    true
}

} // verus!
