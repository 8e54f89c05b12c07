use vstd::prelude::*;

verus! {

/// Decimal digit characters and the numbers they denote.
pub open spec fn is_digit_char(c: char) -> bool {
    '0' <= c && c <= '9'
}

pub open spec fn digit_val(c: char) -> nat {
    (c as int - '0' as int) as nat
}

pub open spec fn all_digits(s: Seq<char>) -> bool {
    forall|i: int| 0 <= i < s.len() ==> is_digit_char(#[trigger] s[i])
}

/// The number denoted by a sequence of decimal digits (most significant first).
pub open spec fn dec_val(s: Seq<char>) -> nat
    decreases s.len(),
{
    if s.len() == 0 {
        0
    } else {
        dec_val(s.drop_last()) * 10 + digit_val(s.last())
    }
}

pub open spec fn digit_char(d: nat) -> char {
    if d == 0 {
        '0'
    } else if d == 1 {
        '1'
    } else if d == 2 {
        '2'
    } else if d == 3 {
        '3'
    } else if d == 4 {
        '4'
    } else if d == 5 {
        '5'
    } else if d == 6 {
        '6'
    } else if d == 7 {
        '7'
    } else if d == 8 {
        '8'
    } else {
        '9'
    }
}

/// The canonical decimal rendering of a number: no sign, no leading zero
/// except for the number zero itself.
pub open spec fn dec_str(n: nat) -> Seq<char>
    decreases n,
{
    if n < 10 {
        seq![digit_char(n)]
    } else {
        dec_str(n / 10).push(digit_char(n % 10))
    }
}

pub proof fn lemma_dec_str_digits(n: nat)
    ensures
        dec_str(n).len() >= 1,
        all_digits(dec_str(n)),
    decreases n,
{
    if n >= 10 {
        lemma_dec_str_digits(n / 10);
        assert forall|i: int| 0 <= i < dec_str(n).len() implies is_digit_char(
            #[trigger] dec_str(n)[i],
        ) by {
            if i < dec_str(n / 10).len() {
                assert(dec_str(n)[i] == dec_str(n / 10)[i]);
            }
        }
    }
}

fn append_digit(s: &mut String, d: u64)
    requires
        d < 10,
    ensures
        final(s)@ == old(s)@.push(digit_char(d as nat)),
{
    proof {
        reveal_strlit("0");
        reveal_strlit("1");
        reveal_strlit("2");
        reveal_strlit("3");
        reveal_strlit("4");
        reveal_strlit("5");
        reveal_strlit("6");
        reveal_strlit("7");
        reveal_strlit("8");
        reveal_strlit("9");
    }
    if d == 0 {
        s.append("0");
    } else if d == 1 {
        s.append("1");
    } else if d == 2 {
        s.append("2");
    } else if d == 3 {
        s.append("3");
    } else if d == 4 {
        s.append("4");
    } else if d == 5 {
        s.append("5");
    } else if d == 6 {
        s.append("6");
    } else if d == 7 {
        s.append("7");
    } else if d == 8 {
        s.append("8");
    } else {
        s.append("9");
    }
    proof {
        assert(s@ =~= old(s)@.push(digit_char(d as nat)));
    }
}

fn push_dec(s: &mut String, n: u64)
    ensures
        final(s)@ == old(s)@ + dec_str(n as nat),
    decreases n,
{
    if n < 10 {
        append_digit(s, n);
        proof {
            assert(s@ =~= old(s)@ + dec_str(n as nat));
        }
    } else {
        push_dec(s, n / 10);
        append_digit(s, n % 10);
        proof {
            assert(s@ =~= old(s)@ + dec_str(n as nat));
        }
    }
}

/// Renders an unsigned number in decimal, exactly as `dec_str` describes.
pub fn u64_to_dec(n: u64) -> (r: String)
    ensures
        r@ == dec_str(n as nat),
{
    let mut s = String::new();
    push_dec(&mut s, n);
    proof {
        assert(s@ =~= dec_str(n as nat));
    }
    s
}

/// Character-for-character equality of two text slices.
pub fn str_eq_str(a: &str, b: &str) -> (r: bool)
    ensures
        r == (a@ == b@),
{
    let la: usize = a.unicode_len();
    let lb: usize = b.unicode_len();
    if la != lb {
        proof {
            if a@ == b@ {
                assert(a@.len() == b@.len());
            }
        }
        return false;
    }
    let mut i: usize = 0;
    while i < la
        invariant
            la == a@.len(),
            la == b@.len(),
            0 <= i <= la,
            forall|j: int| 0 <= j < i ==> a@[j] == b@[j],
        decreases la - i,
    {
        if a.get_char(i) != b.get_char(i) {
            return false;
        }
        i = i + 1;
    }
    proof {
        assert(a@ =~= b@);
    }
    true
}

/// The text with every `,` removed and all other characters kept in order.
pub open spec fn strip_commas(s: Seq<char>) -> Seq<char>
    decreases s.len(),
{
    if s.len() == 0 {
        Seq::empty()
    } else if s.last() == ',' {
        strip_commas(s.drop_last())
    } else {
        strip_commas(s.drop_last()).push(s.last())
    }
}

/// What parsing a whole token as an unsigned 64-bit decimal number yields:
/// defined exactly when the token is one or more digits denoting a value
/// that fits.
pub open spec fn parse_u64_spec(s: Seq<char>) -> Option<u64> {
    if s.len() >= 1 && all_digits(s) && dec_val(s) <= u64::MAX {
        Some(dec_val(s) as u64)
    } else {
        None
    }
}

pub proof fn lemma_dec_val_prefix(a: Seq<char>, b: Seq<char>)
    ensures
        dec_val(a + b) >= dec_val(a),
    decreases b.len(),
{
    if b.len() == 0 {
        assert(a + b =~= a);
    } else {
        assert((a + b).drop_last() =~= a + b.drop_last());
        lemma_dec_val_prefix(a, b.drop_last());
    }
}

pub proof fn lemma_strip_commas_append(a: Seq<char>, b: Seq<char>)
    ensures
        strip_commas(a + b) == strip_commas(a) + strip_commas(b),
    decreases b.len(),
{
    if b.len() == 0 {
        assert(a + b =~= a);
        assert(strip_commas(a) + strip_commas(b) =~= strip_commas(a));
    } else {
        assert((a + b).drop_last() =~= a + b.drop_last());
        lemma_strip_commas_append(a, b.drop_last());
        assert((a + b).last() == b.last());
        if b.last() == ',' {
            assert(strip_commas(a + b) == strip_commas(a) + strip_commas(b.drop_last()));
        } else {
            assert(strip_commas(a) + strip_commas(b) =~= (strip_commas(a) + strip_commas(
                b.drop_last(),
            )).push(b.last()));
        }
    }
}

/// The length of the longest run of digits at the front of the text.
pub open spec fn digits_prefix_len(s: Seq<char>) -> int
    decreases s.len(),
{
    if s.len() == 0 || !is_digit_char(s[0]) {
        0
    } else {
        1 + digits_prefix_len(s.drop_first())
    }
}

pub proof fn lemma_digits_prefix_len_is(s: Seq<char>, j: int)
    requires
        0 <= j <= s.len(),
        forall|i: int| 0 <= i < j ==> is_digit_char(#[trigger] s[i]),
        j == s.len() || !is_digit_char(s[j]),
    ensures
        digits_prefix_len(s) == j,
    decreases j,
{
    if j == 0 {
    } else {
        let t = s.drop_first();
        assert(forall|i: int| 0 <= i < j - 1 ==> is_digit_char(#[trigger] t[i]) && t[i] == s[i
            + 1]);
        lemma_digits_prefix_len_is(t, j - 1);
    }
}

pub proof fn lemma_digits_prefix_len_at_least(s: Seq<char>, j: int)
    requires
        0 <= j <= s.len(),
        forall|i: int| 0 <= i < j ==> is_digit_char(#[trigger] s[i]),
    ensures
        digits_prefix_len(s) >= j,
    decreases j,
{
    lemma_digits_prefix_len_bounds(s);
    if j > 0 {
        assert(is_digit_char(s[0]));
        let t = s.drop_first();
        assert(forall|i: int| 0 <= i < j - 1 ==> is_digit_char(#[trigger] t[i]) && t[i] == s[i
            + 1]);
        lemma_digits_prefix_len_at_least(t, j - 1);
        assert(digits_prefix_len(s) == 1 + digits_prefix_len(t));
    }
}

pub proof fn lemma_digits_prefix_len_bounds(s: Seq<char>)
    ensures
        0 <= digits_prefix_len(s) <= s.len(),
        forall|i: int|
            0 <= i < digits_prefix_len(s) ==> is_digit_char(#[trigger] s[i]),
    decreases s.len(),
{
    if s.len() > 0 && is_digit_char(s[0]) {
        let t = s.drop_first();
        lemma_digits_prefix_len_bounds(t);
        assert(digits_prefix_len(s) == 1 + digits_prefix_len(t));
        assert forall|i: int| 0 <= i < digits_prefix_len(s) implies is_digit_char(
            #[trigger] s[i],
        ) by {
            if i > 0 {
                assert(t[i - 1] == s[i]);
                assert(is_digit_char(t[i - 1]));
            }
        }
    }
}

/// Parses a whole token as a decimal number after removing every `,`
/// (a thousands separator); any other non-digit, an empty remainder, or a
/// value that does not fit is a failure.
pub fn parse_u64_commas(s: &str) -> (r: Option<u64>)
    ensures
        r == parse_u64_spec(strip_commas(s@)),
{
    let len: usize = s.unicode_len();
    let mut i: usize = 0;
    let mut acc: u64 = 0;
    let mut kept: usize = 0;
    while i < len
        invariant
            len == s@.len(),
            0 <= i <= len,
            kept == strip_commas(s@.subrange(0, i as int)).len(),
            kept <= i,
            all_digits(strip_commas(s@.subrange(0, i as int))),
            acc as nat == dec_val(strip_commas(s@.subrange(0, i as int))),
        decreases len - i,
    {
        let c = s.get_char(i);
        let ghost pre = s@.subrange(0, i as int);
        let ghost ext = s@.subrange(0, i + 1);
        proof {
            assert(ext.drop_last() =~= pre);
            assert(ext.last() == s@[i as int]);
        }
        if c == ',' {
            proof {
                assert(strip_commas(ext) == strip_commas(pre));
            }
        } else if '0' <= c && c <= '9' {
            let d: u64 = (c as u32 - 48) as u64;
            proof {
                assert(strip_commas(ext) == strip_commas(pre).push(c));
                assert(d as nat == digit_val(c));
            }
            let m = acc.checked_mul(10);
            let step = match m {
                Some(m10) => m10.checked_add(d),
                None => None,
            };
            match step {
                Some(next) => {
                    acc = next;
                    kept = kept + 1;
                    proof {
                        assert(strip_commas(ext).drop_last() =~= strip_commas(pre));
                        assert(dec_val(strip_commas(ext)) == dec_val(strip_commas(pre)) * 10
                            + digit_val(c));
                    }
                },
                None => {
                    proof {
                        assert(strip_commas(ext).drop_last() =~= strip_commas(pre));
                        assert(dec_val(strip_commas(ext)) == dec_val(strip_commas(pre)) * 10
                            + digit_val(c));
                        assert(dec_val(strip_commas(ext)) > u64::MAX);
                        let rest = s@.subrange(i + 1, len as int);
                        assert(ext + rest =~= s@);
                        lemma_strip_commas_append(ext, rest);
                        lemma_dec_val_prefix(strip_commas(ext), strip_commas(rest));
                        assert(dec_val(strip_commas(s@)) > u64::MAX);
                    }
                    return None;
                },
            }
        } else {
            proof {
                assert(strip_commas(ext) == strip_commas(pre).push(c));
                let rest = s@.subrange(i + 1, len as int);
                assert(ext + rest =~= s@);
                lemma_strip_commas_append(ext, rest);
                let stripped = strip_commas(s@);
                assert(stripped[strip_commas(pre).len() as int] == c);
                assert(!all_digits(stripped));
            }
            return None;
        }
        i = i + 1;
    }
    proof {
        assert(s@.subrange(0, len as int) =~= s@);
    }
    if kept == 0 {
        None
    } else {
        Some(acc)
    }
}

} // verus!
