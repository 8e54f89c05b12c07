use vstd::prelude::*;

use crate::text::{
    all_digits, dec_val, digit_val, digits_prefix_len, is_digit_char, lemma_dec_val_prefix,
    lemma_digits_prefix_len_at_least, lemma_digits_prefix_len_bounds, lemma_digits_prefix_len_is,
};

verus! {

/// What the `count[/total]` grammar accepts, and with which value.
///
/// The token is one or more decimal digits (the current chapter), a literal
/// `/`, and then either nothing (an open-ended work) or one or more decimal
/// digits (the total chapter count). The whole token must be consumed, and
/// each number must fit in sixteen bits; anything else is a failure with no
/// partial result.
pub open spec fn chapters_spec(s: Seq<char>) -> Option<(u16, Option<u16>)> {
    let k = digits_prefix_len(s);
    if 1 <= k < s.len() && s[k] == '/' && dec_val(s.subrange(0, k)) <= u16::MAX {
        let rest = s.subrange(k + 1, s.len() as int);
        if rest.len() == 0 {
            Some(((dec_val(s.subrange(0, k)) as u16), None))
        } else if all_digits(rest) && dec_val(rest) <= u16::MAX {
            Some(((dec_val(s.subrange(0, k)) as u16), Some(dec_val(rest) as u16)))
        } else {
            None
        }
    } else {
        None
    }
}

/// One way of splitting a token under the grammar: one or more digits whose
/// value fits sixteen bits, a literal `/`, and a remainder that is either
/// empty or digits whose value fits sixteen bits, together consuming the
/// whole token.
pub open spec fn chapters_decomposes_as(s: Seq<char>, d: Seq<char>, e: Seq<char>) -> bool {
    s == d + seq!['/'] + e && d.len() >= 1 && all_digits(d) && dec_val(d) <= u16::MAX && (e.len()
        == 0 || (all_digits(e) && dec_val(e) <= u16::MAX))
}

/// The grammar law: a token parses exactly when it splits as digits,
/// `/`, and an optionally empty run of digits, both values fitting sixteen
/// bits; and then the parsed pair is the split's two values (an empty
/// remainder meaning an open-ended work).
pub proof fn lemma_chapters_decomposition(s: Seq<char>)
    ensures
        (chapters_spec(s) is Some) <==> (exists|d: Seq<char>, e: Seq<char>|
            chapters_decomposes_as(s, d, e)),
        forall|d: Seq<char>, e: Seq<char>|
            #[trigger] chapters_decomposes_as(s, d, e) ==> chapters_spec(s) == Some(
                (
                    (dec_val(d) as u16),
                    if e.len() == 0 {
                        None
                    } else {
                        Some(dec_val(e) as u16)
                    },
                ),
            ),
{
    assert forall|d: Seq<char>, e: Seq<char>| #[trigger] chapters_decomposes_as(s, d, e)
        implies chapters_spec(s) == Some(
        ((dec_val(d) as u16), if e.len() == 0 { None } else { Some(dec_val(e) as u16) }),
    ) by {
        let k = d.len() as int;
        assert(s.len() == k + 1 + e.len());
        assert(forall|i: int| 0 <= i < k ==> s[i] == #[trigger] d[i]);
        assert(s[k] == (d + seq!['/'] + e)[k]);
        assert(s[k] == '/');
        assert(!is_digit_char('/'));
        lemma_digits_prefix_len_is(s, k);
        assert(s.subrange(0, k) =~= d);
        assert(s.subrange(k + 1, s.len() as int) =~= e);
    }
    if chapters_spec(s) is Some {
        lemma_digits_prefix_len_bounds(s);
        let k = digits_prefix_len(s);
        let d = s.subrange(0, k);
        let e = s.subrange(k + 1, s.len() as int);
        assert(s =~= d + seq!['/'] + e);
        assert(chapters_decomposes_as(s, d, e));
    }
}

/// The record invariant a parsed chapters pair must satisfy: the current
/// chapter number never exceeds the total chapter count when one is given.
pub open spec fn chapters_in_range(c: (u16, Option<u16>)) -> bool {
    match c.1 {
        Some(total) => c.0 <= total,
        None => true,
    }
}

/// Parses a `count[/total]` token, exactly as `chapters_spec` describes.
pub fn chapters(input: &str) -> (r: Option<(u16, Option<u16>)>)
    ensures
        r == chapters_spec(input@),
{
    let len: usize = input.unicode_len();
    proof {
        lemma_digits_prefix_len_bounds(input@);
    }
    let mut i: usize = 0;
    let mut acc: u64 = 0;
    while i < len
        invariant
            len == input@.len(),
            0 <= i <= len,
            forall|j: int| 0 <= j < i ==> is_digit_char(#[trigger] input@[j]),
            acc as nat == dec_val(input@.subrange(0, i as int)),
            acc <= 65535,
        ensures
            len == input@.len(),
            0 <= i <= len,
            forall|j: int| 0 <= j < i ==> is_digit_char(#[trigger] input@[j]),
            acc as nat == dec_val(input@.subrange(0, i as int)),
            acc <= 65535,
            i == len || !is_digit_char(input@[i as int]),
        decreases len - i,
    {
        let c = input.get_char(i);
        if !('0' <= c && c <= '9') {
            break;
        }
        let d: u64 = (c as u32 - 48) as u64;
        proof {
            assert(d as nat == digit_val(c));
            assert(input@.subrange(0, i + 1).drop_last() =~= input@.subrange(0, i as int));
            assert(input@.subrange(0, i + 1).last() == c);
            assert(dec_val(input@.subrange(0, i + 1)) == acc * 10 + d);
        }
        if acc > 6553 || (acc == 6553 && d > 5) {
            // the chapter number cannot fit in sixteen bits
            proof {
                lemma_digits_prefix_len_bounds(input@);
                lemma_digits_prefix_len_at_least(input@, i + 1);
                let k = digits_prefix_len(input@);
                assert(input@.subrange(0, i + 1) + input@.subrange(i + 1, k) =~= input@.subrange(
                    0,
                    k,
                ));
                lemma_dec_val_prefix(input@.subrange(0, i + 1), input@.subrange(i + 1, k));
                assert(dec_val(input@.subrange(0, k)) > 65535);
            }
            return None;
        }
        acc = acc * 10 + d;
        i = i + 1;
    }
    let k: usize = i;
    proof {
        lemma_digits_prefix_len_is(input@, k as int);
    }
    if k == 0 || k == len {
        return None;
    }
    if input.get_char(k) != '/' {
        return None;
    }
    let chapter: u16 = acc as u16;
    let ghost rest = input@.subrange(k + 1, len as int);
    if k + 1 == len {
        proof {
            assert(rest.len() == 0);
        }
        return Some((chapter, None));
    }
    let mut j: usize = k + 1;
    let mut total: u64 = 0;
    while j < len
        invariant
            len == input@.len(),
            k + 1 <= j <= len,
            1 <= k < len,
            input@[k as int] == '/',
            digits_prefix_len(input@) == k,
            acc <= 65535,
            acc as nat == dec_val(input@.subrange(0, k as int)),
            chapter == acc as u16,
            rest == input@.subrange(k + 1, len as int),
            forall|m: int| k + 1 <= m < j ==> is_digit_char(#[trigger] input@[m]),
            total as nat == dec_val(input@.subrange(k + 1, j as int)),
            total <= 65535,
        decreases len - j,
    {
        let c = input.get_char(j);
        if !('0' <= c && c <= '9') {
            proof {
                assert(rest[j - (k + 1)] == input@[j as int]);
                assert(!all_digits(rest));
            }
            return None;
        }
        let d: u64 = (c as u32 - 48) as u64;
        proof {
            assert(d as nat == digit_val(c));
            assert(input@.subrange(k + 1, j + 1).drop_last() =~= input@.subrange(k + 1, j as int));
            assert(input@.subrange(k + 1, j + 1).last() == c);
            assert(dec_val(input@.subrange(k + 1, j + 1)) == total * 10 + d);
        }
        if total > 6553 || (total == 6553 && d > 5) {
            // the total chapter count cannot fit in sixteen bits
            proof {
                assert(input@.subrange(k + 1, j + 1) + input@.subrange(j + 1, len as int) =~= rest);
                lemma_dec_val_prefix(
                    input@.subrange(k + 1, j + 1),
                    input@.subrange(j + 1, len as int),
                );
                assert(dec_val(rest) > 65535);
            }
            return None;
        }
        total = total * 10 + d;
        j = j + 1;
    }
    proof {
        assert(rest =~= input@.subrange(k + 1, len as int));
        assert(forall|m: int| 0 <= m < rest.len() ==> #[trigger] rest[m] == input@[m + k + 1]);
        assert(all_digits(rest));
        assert(dec_val(rest) == total as nat);
    }
    Some((chapter, Some(total as u16)))
}

} // verus!
