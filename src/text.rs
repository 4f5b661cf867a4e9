//! Post-transcription text transformations.

use vstd::prelude::*;
use crate::chars::{
    alphabetic, alphanumeric, chars_of, is_alphabetic, is_alphanumeric, is_white_space,
    to_upper_first, upper_first, white_space,
};

verus! {

/// One step of sentence capitalisation: the character written for `c`, and
/// whether the next letter is to be capitalised, given whether this one was.
pub open spec fn cap_step(c: char, capitalize_next: bool) -> (char, bool) {
    let raise = capitalize_next && alphabetic(c);
    let out = if raise { upper_first(c) } else { c };
    let f1 = if raise { false } else { capitalize_next };
    let f2 = if c == '.' || c == '!' || c == '?' { true } else { f1 };
    let f3 = if alphanumeric(c) && f2 && !white_space(c) { false } else { f2 };
    (out, f3)
}

/// Sentence capitalisation of `s`, starting in the given state.
pub open spec fn capitalized_from(s: Seq<char>, capitalize_next: bool) -> Seq<char>
    decreases s.len(),
{
    if s.len() == 0 {
        Seq::empty()
    } else {
        let (out, next) = cap_step(s[0], capitalize_next);
        seq![out] + capitalized_from(s.drop_first(), next)
    }
}

/// The first letter of the text, and the first letter after each `.`, `!`
/// or `?`, in upper case; everything else unchanged.
pub open spec fn capitalized(s: Seq<char>) -> Seq<char> {
    capitalized_from(s, true)
}

/// What `process_text` makes of a transcript.
pub open spec fn processed(s: Seq<char>, auto_capitalize: bool) -> Seq<char> {
    if auto_capitalize {
        capitalized(s)
    } else {
        s
    }
}

proof fn lemma_capitalized_len(s: Seq<char>, flag: bool)
    ensures
        capitalized_from(s, flag).len() == s.len(),
    decreases s.len(),
{
    if s.len() > 0 {
        let (_, next) = cap_step(s[0], flag);
        lemma_capitalized_len(s.drop_first(), next);
    }
}

/// Process transcribed text with the enabled transformations.
pub fn process_text(text: &str, auto_capitalize: bool) -> (r: String)
    ensures
        r@ == processed(text@, auto_capitalize),
{
    if !auto_capitalize {
        return text.to_string();
    }
    capitalize_sentences(text)
}

/// Capitalise the first letter of the text and each first letter after
/// sentence-ending punctuation.
pub fn capitalize_sentences(text: &str) -> (r: String)
    ensures
        r@ == capitalized(text@),
        r@.len() == text@.len(),
{
    let cs = chars_of(text);
    let mut result = String::new();
    let mut capitalize_next = true;
    let n = cs.len();
    let mut i: usize = 0;
    proof {
        assert(cs@.subrange(0, n as int) =~= cs@);
        assert(result@ + capitalized(text@) =~= capitalized(text@));
    }
    while i < n
        invariant
            n == cs@.len(),
            cs@ == text@,
            i <= n,
            result@ + capitalized_from(cs@.subrange(i as int, n as int), capitalize_next)
                == capitalized(text@),
        decreases n - i,
    {
        let c = cs[i];
        let ghost rest = cs@.subrange(i as int, n as int);
        let ghost before = capitalize_next;
        assert(rest.drop_first() =~= cs@.subrange(i + 1, n as int));
        if capitalize_next && is_alphabetic(c) {
            result.push(to_upper_first(c));
            capitalize_next = false;
        } else {
            result.push(c);
        }
        if c == '.' || c == '!' || c == '?' {
            capitalize_next = true;
        }
        if is_alphanumeric(c) && capitalize_next && !is_white_space(c) {
            capitalize_next = false;
        }
        proof {
            let (o, f) = cap_step(c, before);
            assert(o == result@.last());
            assert(f == capitalize_next);
            assert(result@ =~= result@.drop_last().push(o));
            assert(result@ + capitalized_from(cs@.subrange(i + 1, n as int), f)
                =~= result@.drop_last() + capitalized_from(rest, before));
        }
        i = i + 1;
    }
    proof {
        assert(cs@.subrange(n as int, n as int) =~= Seq::<char>::empty());
        assert(result@ =~= capitalized(text@));
        lemma_capitalized_len(text@, true);
    }
    result
}

} // verus!
