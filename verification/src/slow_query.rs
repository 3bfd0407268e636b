//! What the slow-query log keeps of a statement.

use vstd::prelude::*;

use crate::metrics::{char_width, fitting, sanitized, text_width};
use crate::text::collapsed;

verus! {

/// The width of a text is the number of bytes of its UTF-8 encoding.
pub proof fn law_width_is_the_encoded_length(s: Seq<char>)
    ensures
        text_width(s) == vstd::utf8::encode_utf8(s).len(),
    decreases s.len(),
{
    if s.len() > 0 {
        let rest = s.drop_first();
        law_width_is_the_encoded_length(rest);
        lemma_width_of_first(s);
        vstd::utf8::char_is_scalar(s[0]);
        assert(vstd::utf8::encode_scalar(s[0] as u32).len() == char_width(s[0]));
    }
}

proof fn lemma_width_of_first(s: Seq<char>)
    requires
        s.len() > 0,
    ensures
        text_width(s) == char_width(s[0]) + text_width(s.drop_first()),
    decreases s.len(),
{
    if s.len() > 1 {
        lemma_width_of_first(s.drop_last());
        assert(s.drop_last().drop_first() =~= s.drop_first().drop_last());
        assert(s.drop_first().last() == s.last());
    } else {
        assert(s.drop_last() =~= Seq::<char>::empty());
        assert(s.drop_first() =~= Seq::<char>::empty());
    }
}

/// A statement of at most 300 bytes, its whitespace collapsed, is kept whole. Of
/// a longer one as many characters are kept as fit into 300 bytes, and three dots
/// show the cut.
pub proof fn law_slow_query_is_cut(query: Seq<char>)
    ensures
        ({
            let text = collapsed(query);
            let width = |n: int| vstd::utf8::encode_utf8(text.take(n)).len();
            if width(text.len() as int) <= 300 {
                sanitized(query) == text
            } else {
                exists|n: int|
                    {
                        &&& 0 <= n < text.len()
                        &&& #[trigger] width(n) <= 300
                        &&& width(n + 1) > 300
                        &&& sanitized(query) == text.take(n) + seq!['.', '.', '.']
                    }
            }
        }),
{
    let text = collapsed(query);
    let width = |n: int| vstd::utf8::encode_utf8(text.take(n)).len();
    assert(text.take(text.len() as int) =~= text);
    law_width_is_the_encoded_length(text);
    if text_width(text) > 300 {
        reveal_strlit("...");
        assert("..."@ =~= seq!['.', '.', '.']);
        let n = lemma_fitting_is_longest(text, 300);
        law_width_is_the_encoded_length(text.take(n));
        law_width_is_the_encoded_length(text.take(n + 1));
        assert(width(n) <= 300 && width(n + 1) > 300);
    }
}

proof fn lemma_fitting_is_longest(s: Seq<char>, max: nat) -> (n: int)
    requires
        text_width(s) > max,
    ensures
        0 <= n < s.len(),
        fitting(s, max) == s.take(n),
        text_width(s.take(n)) <= max,
        text_width(s.take(n + 1)) > max,
    decreases s.len(),
{
    let shorter = s.drop_last();
    if text_width(shorter) <= max {
        assert(s.take(s.len() - 1) =~= shorter);
        assert(s.take(s.len() as int) =~= s);
        assert(fitting(shorter, max) == shorter);
        s.len() - 1
    } else {
        let n = lemma_fitting_is_longest(shorter, max);
        assert(shorter.take(n) =~= s.take(n));
        assert(shorter.take(n + 1) =~= s.take(n + 1));
        n
    }
}

} // verus!
