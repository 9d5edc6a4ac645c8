//! Verified text primitives: string equality, prefix test, lexicographic
//! order, whitespace tokenization and decimal integer parsing. All of
//! them are specified over the character-sequence view of a string.

use vstd::prelude::*;
use vstd::string::StrSliceExecFns;
use vstd::string::StringExecFns;

verus! {

/// `p` is a prefix of `s`.
pub open spec fn is_prefix(p: Seq<char>, s: Seq<char>) -> bool {
    p.len() <= s.len() && s.subrange(0, p.len() as int) == p
}

/// Character-wise string equality.
pub fn str_eq(a: &str, b: &str) -> (r: bool)
    ensures
        r == (a@ == b@),
{
    let n: usize = a.unicode_len();
    if n != b.unicode_len() {
        return false;
    }
    let mut i: usize = 0;
    while i < n
        invariant
            n == a@.len(),
            n == b@.len(),
            i <= n,
            forall|j: int| 0 <= j < i ==> a@[j] == b@[j],
        decreases n - i,
    {
        if a.get_char(i) != b.get_char(i) {
            return false;
        }
        i += 1;
    }
    proof {
        assert(a@ =~= b@);
    }
    true
}

/// Whether `s` starts with `p`.
pub fn str_starts_with(s: &str, p: &str) -> (r: bool)
    ensures
        r == is_prefix(p@, s@),
{
    let np: usize = p.unicode_len();
    if np > s.unicode_len() {
        return false;
    }
    let mut i: usize = 0;
    while i < np
        invariant
            np == p@.len(),
            np <= s@.len(),
            i <= np,
            forall|j: int| 0 <= j < i ==> s@[j] == p@[j],
        decreases np - i,
    {
        if s.get_char(i) != p.get_char(i) {
            proof {
                assert(s@.subrange(0, p@.len() as int)[i as int] != p@[i as int]);
            }
            return false;
        }
        i += 1;
    }
    proof {
        assert(s@.subrange(0, p@.len() as int) =~= p@);
    }
    true
}

/// Lexicographic order on character sequences, by code point.
pub open spec fn lex_le(a: Seq<char>, b: Seq<char>) -> bool
    decreases a.len(),
{
    if a.len() == 0 {
        true
    } else if b.len() == 0 {
        false
    } else if (a[0] as u32) < (b[0] as u32) {
        true
    } else if (a[0] as u32) > (b[0] as u32) {
        false
    } else {
        lex_le(a.drop_first(), b.drop_first())
    }
}

/// Character-wise lexicographic comparison.
pub fn str_le(a: &str, b: &str) -> (r: bool)
    ensures
        r == lex_le(a@, b@),
{
    let na: usize = a.unicode_len();
    let nb: usize = b.unicode_len();
    let mut i: usize = 0;
    proof {
        assert(a@.skip(0) =~= a@);
        assert(b@.skip(0) =~= b@);
    }
    loop
        invariant
            na == a@.len(),
            nb == b@.len(),
            i <= na,
            i <= nb,
            lex_le(a@, b@) == lex_le(a@.skip(i as int), b@.skip(i as int)),
        decreases na - i,
    {
        if i >= na {
            proof {
                assert(a@.skip(i as int).len() == 0);
            }
            return true;
        }
        if i >= nb {
            proof {
                assert(b@.skip(i as int).len() == 0);
                assert(a@.skip(i as int).len() > 0);
            }
            return false;
        }
        let ca: u32 = a.get_char(i) as u32;
        let cb: u32 = b.get_char(i) as u32;
        proof {
            assert(a@.skip(i as int)[0] == a@[i as int]);
            assert(b@.skip(i as int)[0] == b@[i as int]);
        }
        if ca < cb {
            return true;
        }
        if ca > cb {
            return false;
        }
        proof {
            assert(a@.skip(i as int).drop_first() =~= a@.skip(i as int + 1));
            assert(b@.skip(i as int).drop_first() =~= b@.skip(i as int + 1));
        }
        i += 1;
    }
}

/// The lexicographic order is total.
pub proof fn lemma_lex_le_total(a: Seq<char>, b: Seq<char>)
    ensures
        lex_le(a, b) || lex_le(b, a),
    decreases a.len(),
{
    if a.len() > 0 && b.len() > 0 && a[0] as u32 == b[0] as u32 {
        lemma_lex_le_total(a.drop_first(), b.drop_first());
    }
}

/// The lexicographic order is transitive.
pub proof fn lemma_lex_le_trans(a: Seq<char>, b: Seq<char>, c: Seq<char>)
    requires
        lex_le(a, b),
        lex_le(b, c),
    ensures
        lex_le(a, c),
    decreases a.len(),
{
    if a.len() > 0 && b.len() > 0 && c.len() > 0 && a[0] as u32 == b[0] as u32 && b[0] as u32 == c[
        0] as u32 {
        lemma_lex_le_trans(a.drop_first(), b.drop_first(), c.drop_first());
    }
}

/// Whitespace as command text is tokenized on: the Unicode `White_Space`
/// characters (tab through carriage return, space, next line, no-break
/// space, ogham space mark, the en-quad range, the line and paragraph
/// separators, narrow and medium mathematical spaces, ideographic space).
pub open spec fn is_space(c: char) -> bool {
    ||| ('\t' as u32 <= c as u32 && c as u32 <= '\r' as u32)
    ||| c == ' '
    ||| c == '\u{85}'
    ||| c == '\u{a0}'
    ||| c == '\u{1680}'
    ||| ('\u{2000}' as u32 <= c as u32 && c as u32 <= '\u{200a}' as u32)
    ||| c == '\u{2028}'
    ||| c == '\u{2029}'
    ||| c == '\u{202f}'
    ||| c == '\u{205f}'
    ||| c == '\u{3000}'
}

fn is_space_exec(c: char) -> (r: bool)
    ensures
        r == is_space(c),
{
    let u: u32 = c as u32;
    ('\t' as u32 <= u && u <= '\r' as u32) || c == ' ' || c == '\u{85}' || c == '\u{a0}'
        || c == '\u{1680}' || ('\u{2000}' as u32 <= u && u <= '\u{200a}' as u32) || c == '\u{2028}'
        || c == '\u{2029}' || c == '\u{202f}' || c == '\u{205f}' || c == '\u{3000}'
}

/// Length of the leading run of non-whitespace characters.
pub open spec fn head_len(s: Seq<char>) -> nat
    decreases s.len(),
{
    if s.len() == 0 || is_space(s[0]) {
        0
    } else {
        1 + head_len(s.drop_first())
    }
}

/// The whitespace-separated tokens of `s`, in order.
pub open spec fn tokens(s: Seq<char>) -> Seq<Seq<char>>
    decreases s.len(),
    via tokens_decreases
{
    if s.len() == 0 {
        Seq::empty()
    } else if is_space(s[0]) {
        tokens(s.drop_first())
    } else {
        seq![s.take(head_len(s) as int)] + tokens(s.skip(head_len(s) as int))
    }
}

#[via_fn]
proof fn tokens_decreases(s: Seq<char>) {
    if s.len() > 0 && !is_space(s[0]) {
        lemma_head_len_le(s);
        assert(head_len(s) >= 1);
    }
}

proof fn lemma_head_len_le(s: Seq<char>)
    ensures
        head_len(s) <= s.len(),
    decreases s.len(),
{
    if s.len() > 0 && !is_space(s[0]) {
        lemma_head_len_le(s.drop_first());
    }
}

proof fn lemma_head_len(s: Seq<char>, k: int)
    requires
        0 <= k <= s.len(),
        forall|m: int| 0 <= m < k ==> !is_space(s[m]),
        k == s.len() || is_space(s[k]),
    ensures
        head_len(s) == k,
    decreases s.len(),
{
    if k == 0 {
    } else {
        assert(!is_space(s[0]));
        assert forall|m: int| 0 <= m < k - 1 implies !is_space(s.drop_first()[m]) by {
            assert(s.drop_first()[m] == s[m + 1]);
        }
        if k < s.len() {
            assert(s.drop_first()[k - 1] == s[k]);
        }
        lemma_head_len(s.drop_first(), k - 1);
    }
}

/// Skipping over one whitespace character changes no token.
proof fn lemma_tokens_skip_space(s: Seq<char>, i: int)
    requires
        0 <= i < s.len(),
        is_space(s[i]),
    ensures
        tokens(s.skip(i)) == tokens(s.skip(i + 1)),
{
    assert(s.skip(i)[0] == s[i]);
    assert(s.skip(i).drop_first() =~= s.skip(i + 1));
}

/// A token runs from its first character to the next whitespace.
proof fn lemma_tokens_take_token(s: Seq<char>, i: int, j: int)
    requires
        0 <= i < j <= s.len(),
        forall|m: int| i <= m < j ==> !is_space(s[m]),
        j == s.len() || is_space(s[j]),
    ensures
        tokens(s.skip(i)) == seq![s.subrange(i, j)] + tokens(s.skip(j)),
{
    let t = s.skip(i);
    assert forall|m: int| 0 <= m < j - i implies !is_space(t[m]) by {
        assert(t[m] == s[m + i]);
    }
    if j < s.len() {
        assert(t[j - i] == s[j]);
    }
    lemma_head_len(t, j - i);
    assert(!is_space(t[0]));
    assert(t.take(j - i) =~= s.subrange(i, j));
    assert(t.skip(j - i) =~= s.skip(j));
}

/// Splits `s` into its whitespace-separated tokens.
pub fn tokenize(s: &str) -> (r: Vec<String>)
    ensures
        r.deep_view() == tokens(s@),
{
    let n: usize = s.unicode_len();
    let mut out: Vec<String> = Vec::new();
    let mut i: usize = 0;
    proof {
        assert(s@.skip(0) =~= s@);
        assert(out.deep_view() =~= Seq::<Seq<char>>::empty());
    }
    while i < n
        invariant
            n == s@.len(),
            i <= n,
            tokens(s@) == out.deep_view() + tokens(s@.skip(i as int)),
        decreases n - i,
    {
        let c = s.get_char(i);
        if is_space_exec(c) {
            proof {
                lemma_tokens_skip_space(s@, i as int);
            }
            i += 1;
        } else {
            let start: usize = i;
            let mut j: usize = i;
            while j < n && !is_space_exec(s.get_char(j))
                invariant
                    n == s@.len(),
                    start <= j <= n,
                    forall|m: int| start <= m < j ==> !is_space(s@[m]),
                decreases n - j,
            {
                j += 1;
            }
            assert(j > start);
            let token = String::from_str(s.substring_char(start, j));
            let ghost pre = out.deep_view();
            let ghost tok = s@.subrange(start as int, j as int);
            out.push(token);
            proof {
                assert(out.deep_view() =~= pre.push(tok));
                lemma_tokens_take_token(s@, start as int, j as int);
                assert(pre + (seq![tok] + tokens(s@.skip(j as int))) =~= pre.push(tok) + tokens(
                    s@.skip(j as int),
                ));
            }
            i = j;
        }
    }
    proof {
        assert(s@.skip(n as int).len() == 0);
        assert(tokens(s@) =~= out.deep_view());
    }
    out
}

/// A decimal digit.
pub open spec fn is_digit(c: char) -> bool {
    '0' as u32 <= c as u32 && c as u32 <= '9' as u32
}

/// The numeric value of a decimal digit.
pub open spec fn digit_val(c: char) -> int {
    c as u32 - '0' as u32
}

pub open spec fn all_digits(s: Seq<char>) -> bool {
    forall|i: int| 0 <= i < s.len() ==> is_digit(s[i])
}

/// The unbounded value of a digit string.
pub open spec fn digits_val(s: Seq<char>) -> int
    decreases s.len(),
{
    if s.len() == 0 {
        0
    } else {
        digits_val(s.drop_last()) * 10 + digit_val(s.last())
    }
}

/// The digits of an integer literal: everything after an optional sign.
pub open spec fn int_body(s: Seq<char>) -> Seq<char> {
    if s.len() > 0 && (s[0] == '+' || s[0] == '-') {
        s.drop_first()
    } else {
        s
    }
}

pub open spec fn int_negative(s: Seq<char>) -> bool {
    s.len() > 0 && s[0] == '-'
}

/// `s` is an optional sign followed by at least one digit.
pub open spec fn is_int_string(s: Seq<char>) -> bool {
    int_body(s).len() > 0 && all_digits(int_body(s))
}

/// The unbounded value an integer literal denotes.
pub open spec fn int_value(s: Seq<char>) -> int {
    if int_negative(s) {
        -digits_val(int_body(s))
    } else {
        digits_val(int_body(s))
    }
}

/// What decimal parsing returns: the denoted value when the text is a
/// well-formed literal whose value fits the machine integer, nothing
/// otherwise.
pub open spec fn parse_i64_spec(s: Seq<char>) -> Option<i64> {
    if is_int_string(s) && i64::MIN <= int_value(s) <= i64::MAX {
        Some(int_value(s) as i64)
    } else {
        None
    }
}

proof fn lemma_digits_val_nonneg(s: Seq<char>)
    requires
        all_digits(s),
    ensures
        digits_val(s) >= 0,
    decreases s.len(),
{
    if s.len() > 0 {
        assert forall|i: int| 0 <= i < s.drop_last().len() implies is_digit(
            #[trigger] s.drop_last()[i],
        ) by {
            assert(is_digit(s[i]));
        }
        lemma_digits_val_nonneg(s.drop_last());
        assert(is_digit(s.last()));
    }
}

proof fn lemma_digits_val_monotone(s: Seq<char>, i: int)
    requires
        all_digits(s),
        0 <= i <= s.len(),
    ensures
        digits_val(s.take(i)) <= digits_val(s),
    decreases s.len() - i,
{
    if i == s.len() {
        assert(s.take(i) =~= s);
    } else {
        assert(s.take(i + 1).drop_last() =~= s.take(i));
        assert(s.take(i + 1).last() == s[i]);
        assert forall|m: int| 0 <= m < s.take(i).len() implies is_digit(
            #[trigger] s.take(i)[m],
        ) by {
            assert(is_digit(s[m]));
        }
        lemma_digits_val_nonneg(s.take(i));
        assert(is_digit(s[i]));
        assert(digits_val(s.take(i + 1)) == digits_val(s.take(i)) * 10 + digit_val(s[i]));
        assert(digits_val(s.take(i)) * 10 >= digits_val(s.take(i)));
        lemma_digits_val_monotone(s, i + 1);
    }
}

/// Parses a signed decimal integer, as the trim-interval command needs:
/// an optional `+` or `-` sign, then one or more digits, value within the
/// machine range. Anything else is rejected.
pub fn parse_i64(s: &str) -> (r: Option<i64>)
    ensures
        r == parse_i64_spec(s@),
{
    let n: usize = s.unicode_len();
    if n == 0 {
        return None;
    }
    let first = s.get_char(0);
    let neg = first == '-';
    let has_sign = first == '-' || first == '+';
    let start: usize = if has_sign {
        1
    } else {
        0
    };
    let ghost body = int_body(s@);
    proof {
        if has_sign {
            assert(body =~= s@.skip(start as int));
        } else {
            assert(body =~= s@.skip(start as int));
        }
    }
    if start == n {
        return None;
    }
    let mut acc: i64 = 0;
    let mut i: usize = start;
    proof {
        assert(body.take(0) =~= Seq::<char>::empty());
    }
    while i < n
        invariant
            n == s@.len(),
            start <= i <= n,
            start <= 1,
            body == int_body(s@),
            body == s@.skip(start as int),
            body.len() == n - start,
            neg == int_negative(s@),
            forall|m: int| 0 <= m < i - start ==> is_digit(#[trigger] body[m]),
            acc == -digits_val(body.take(i - start)),
            acc <= 0,
        decreases n - i,
    {
        let c = s.get_char(i);
        proof {
            assert(body[i - start] == s@[i as int]);
        }
        let cu: u32 = c as u32;
        if cu < '0' as u32 || cu > '9' as u32 {
            proof {
                assert(!is_digit(body[i - start]));
                assert(!is_int_string(s@));
            }
            return None;
        }
        let d: i64 = (cu - '0' as u32) as i64;
        let ghost m: int = i as int - start as int;
        proof {
            assert(body.take(m + 1).drop_last() =~= body.take(m as int));
            assert(body.take(m + 1).last() == body[m as int]);
            assert(digits_val(body.take(m + 1)) == digits_val(body.take(m as int)) * 10
                + digit_val(body[m as int]));
            assert(digit_val(body[m as int]) == d);
        }
        let acc10: i64 = match acc.checked_mul(10) {
            Some(v) => v,
            None => {
                proof {
                    lemma_parse_overflow(s@, body, m + 1);
                }
                return None;
            },
        };
        acc = match acc10.checked_sub(d) {
            Some(v) => v,
            None => {
                proof {
                    lemma_parse_overflow(s@, body, m + 1);
                }
                return None;
            },
        };
        i += 1;
    }
    proof {
        assert(body.take(n - start) =~= body);
        assert(all_digits(body));
        assert(is_int_string(s@));
        lemma_digits_val_nonneg(body);
    }
    if neg {
        Some(acc)
    } else {
        if acc == i64::MIN {
            proof {
                assert(int_value(s@) == -(acc as int));
                assert(int_value(s@) > i64::MAX);
            }
            None
        } else {
            Some(-acc)
        }
    }
}

/// When some prefix of the digits already denotes more than the machine
/// can hold, the whole literal is rejected.
proof fn lemma_parse_overflow(s: Seq<char>, body: Seq<char>, k: int)
    requires
        body == int_body(s),
        0 <= k <= body.len(),
        digits_val(body.take(k)) > -(i64::MIN as int),
    ensures
        parse_i64_spec(s) is None,
{
    if is_int_string(s) {
        lemma_digits_val_monotone(body, k);
        assert(digits_val(body) > -(i64::MIN as int));
    }
}

} // verus!
