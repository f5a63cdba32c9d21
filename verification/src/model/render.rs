//! Shared text machinery: the spec-level model of rendered SQL fragments
//! (decimal numbers, escaped strings, quoted identifiers, separator joins)
//! and the verified executable routines that produce them.

use vstd::prelude::*;
use vstd::string::StrSliceExecFns;
use vstd::string::StringExecFns;

verus! {

/// The character for one decimal digit.
pub open spec fn digit_char(d: nat) -> char {
    if d == 0 {
        '0'
    } else if d == 1 {
        '1'
    } else if d == 2 {
        '2'
    } else if d == 3 {
        '3'
    } else if d == 4 {
        '4'
    } else if d == 5 {
        '5'
    } else if d == 6 {
        '6'
    } else if d == 7 {
        '7'
    } else if d == 8 {
        '8'
    } else {
        '9'
    }
}

/// Decimal text of a natural number: no sign, no leading zeros except for "0".
pub open spec fn dec_digits(n: nat) -> Seq<char>
    decreases n,
{
    if n < 10 {
        seq![digit_char(n)]
    } else {
        dec_digits(n / 10) + seq![digit_char(n % 10)]
    }
}

/// Decimal text of an integer: a leading '-' for negative numbers.
pub open spec fn int_text(i: int) -> Seq<char> {
    if i < 0 {
        seq!['-'] + dec_digits((-i) as nat)
    } else {
        dec_digits(i as nat)
    }
}

/// `s` with every occurrence of `q` doubled; all other characters unchanged.
pub open spec fn escaped_with(s: Seq<char>, q: char) -> Seq<char>
    decreases s.len(),
{
    if s.len() == 0 {
        Seq::empty()
    } else {
        escaped_with(s.drop_last(), q) + (if s.last() == q {
            seq![q, q]
        } else {
            seq![s.last()]
        })
    }
}

/// A double-quoted SQL identifier, inner double quotes doubled.
pub open spec fn quoted_ident(s: Seq<char>) -> Seq<char> {
    seq!['"'] + escaped_with(s, '"') + seq!['"']
}

/// A single-quoted SQL string literal, inner single quotes doubled.
pub open spec fn quoted_literal(s: Seq<char>) -> Seq<char> {
    seq!['\''] + escaped_with(s, '\'') + seq!['\'']
}

/// `parts` joined by `sep`: empty for no parts, and no leading or
/// trailing separator.
pub open spec fn joined(parts: Seq<Seq<char>>, sep: Seq<char>) -> Seq<char>
    decreases parts.len(),
{
    if parts.len() == 0 {
        Seq::empty()
    } else if parts.len() == 1 {
        parts[0]
    } else {
        joined(parts.drop_last(), sep) + sep + parts.last()
    }
}

/// Joining the concatenation of two non-empty part lists joins each list
/// and puts one separator between the two rendered halves.
pub proof fn lemma_joined_append(xs: Seq<Seq<char>>, ys: Seq<Seq<char>>, sep: Seq<char>)
    requires
        xs.len() > 0,
        ys.len() > 0,
    ensures
        joined(xs + ys, sep) == joined(xs, sep) + sep + joined(ys, sep),
    decreases ys.len(),
{
    if ys.len() == 1 {
        assert((xs + ys).drop_last() =~= xs);
        assert((xs + ys).last() == ys[0]);
        assert(joined(xs + ys, sep) == joined(xs, sep) + sep + ys[0]);
    } else {
        lemma_joined_append(xs, ys.drop_last(), sep);
        assert((xs + ys).drop_last() =~= xs + ys.drop_last());
        assert((xs + ys).last() == ys.last());
        assert(joined(xs + ys, sep) == joined(xs, sep) + sep + joined(ys.drop_last(), sep) + sep
            + ys.last());
        assert(joined(xs + ys, sep) == joined(xs, sep) + sep + joined(ys, sep));
    }
}

/// Whether `pat` occurs in `s` as a contiguous substring.
pub open spec fn contains_text(s: Seq<char>, pat: Seq<char>) -> bool {
    exists|k: int| 0 <= k <= s.len() - pat.len() && #[trigger] s.subrange(k, k + pat.len())
        == pat
}

/// Whether no character of `s` is `c`.
pub open spec fn text_free_of(s: Seq<char>, c: char) -> bool {
    forall|i: int| 0 <= i < s.len() ==> s[i] != c
}

/// Escaping changes nothing in a text that is free of the escaped
/// character.
pub proof fn lemma_escaped_free(s: Seq<char>, q: char)
    requires
        text_free_of(s, q),
    ensures
        escaped_with(s, q) == s,
    decreases s.len(),
{
    if s.len() > 0 {
        lemma_escaped_free(s.drop_last(), q);
        assert(escaped_with(s, q) =~= s);
    }
}

/// A concatenation is free of a character when both halves are.
pub proof fn lemma_concat_free(a: Seq<char>, b: Seq<char>, c: char)
    requires
        text_free_of(a, c),
        text_free_of(b, c),
    ensures
        text_free_of(a + b, c),
{
    assert forall|i: int| 0 <= i < (a + b).len() implies (a + b)[i] != c by {
        if i < a.len() {
            assert((a + b)[i] == a[i]);
        } else {
            assert((a + b)[i] == b[i - a.len()]);
        }
    }
}

/// A join is free of a character when every part and the separator are.
pub proof fn lemma_joined_free(parts: Seq<Seq<char>>, sep: Seq<char>, c: char)
    requires
        forall|i: int| 0 <= i < parts.len() ==> text_free_of(#[trigger] parts[i], c),
        text_free_of(sep, c),
    ensures
        text_free_of(joined(parts, sep), c),
    decreases parts.len(),
{
    if parts.len() == 0 {
    } else if parts.len() == 1 {
        assert(joined(parts, sep) == parts[0]);
    } else {
        lemma_joined_free(parts.drop_last(), sep, c);
        lemma_concat_free(joined(parts.drop_last(), sep), sep, c);
        lemma_concat_free(joined(parts.drop_last(), sep) + sep, parts.last(), c);
    }
}

/// A text free of some character of the pattern cannot contain the
/// pattern.
pub proof fn lemma_free_char_no_contains(s: Seq<char>, pat: Seq<char>, j: int, c: char)
    requires
        0 <= j < pat.len(),
        pat[j] == c,
        text_free_of(s, c),
    ensures
        !contains_text(s, pat),
{
    assert forall|k: int| 0 <= k <= s.len() - pat.len() implies #[trigger] s.subrange(
        k,
        k + pat.len(),
    ) != pat by {
        assert(s.subrange(k, k + pat.len())[j] == s[k + j]);
    }
}

/// Relies on String::push from std: appends exactly the given character.
#[verifier::external_body]
pub(crate) fn push_char(s: &mut String, c: char)
    ensures
        final(s)@ == old(s)@.push(c),
{
    s.push(c);
}

fn digit_to_char(d: u64) -> (c: char)
    requires
        d < 10,
    ensures
        c == digit_char(d as nat),
{
    if d == 0 {
        '0'
    } else if d == 1 {
        '1'
    } else if d == 2 {
        '2'
    } else if d == 3 {
        '3'
    } else if d == 4 {
        '4'
    } else if d == 5 {
        '5'
    } else if d == 6 {
        '6'
    } else if d == 7 {
        '7'
    } else if d == 8 {
        '8'
    } else {
        '9'
    }
}

/// Decimal text of an unsigned number.
pub fn u64_text(n: u64) -> (s: String)
    ensures
        s@ == dec_digits(n as nat),
    decreases n,
{
    if n < 10 {
        let mut s = String::new();
        push_char(&mut s, digit_to_char(n));
        proof {
            assert(s@ =~= dec_digits(n as nat));
        }
        s
    } else {
        let mut s = u64_text(n / 10);
        push_char(&mut s, digit_to_char(n % 10));
        proof {
            assert(s@ =~= dec_digits(n as nat));
        }
        s
    }
}

/// Decimal text of a signed number, '-'-prefixed when negative.
pub fn i64_text(n: i64) -> (s: String)
    ensures
        s@ == int_text(n as int),
{
    if n >= 0 {
        u64_text(n as u64)
    } else {
        let mag: u64 = ((-(n + 1)) as u64) + 1;
        proof {
            assert(mag == -(n as int));
        }
        let mut s = String::new();
        push_char(&mut s, '-');
        let digits = u64_text(mag);
        s.append(digits.as_str());
        proof {
            assert(s@ =~= int_text(n as int));
        }
        s
    }
}

/// `s` with every occurrence of `q` doubled.
pub fn escaped_string(s: &str, q: char) -> (r: String)
    ensures
        r@ == escaped_with(s@, q),
{
    let n = s.unicode_len();
    let mut r = String::new();
    let mut i: usize = 0;
    while i < n
        invariant
            i <= n,
            n == s@.len(),
            r@ == escaped_with(s@.take(i as int), q),
        decreases n - i,
    {
        let c = s.get_char(i);
        if c == q {
            push_char(&mut r, q);
            push_char(&mut r, q);
        } else {
            push_char(&mut r, c);
        }
        proof {
            assert(s@.take(i + 1).drop_last() =~= s@.take(i as int));
            assert(s@.take(i + 1).last() == s@[i as int]);
            assert(r@ =~= escaped_with(s@.take(i + 1), q));
        }
        i = i + 1;
    }
    proof {
        assert(s@.take(n as int) =~= s@);
    }
    r
}

/// Append a double-quoted identifier rendering of `s` to `out`.
pub fn push_quoted_ident(out: &mut String, s: &str)
    ensures
        final(out)@ == old(out)@ + quoted_ident(s@),
{
    push_char(out, '"');
    let escaped = escaped_string(s, '"');
    out.append(escaped.as_str());
    push_char(out, '"');
    proof {
        assert(final(out)@ =~= old(out)@ + quoted_ident(s@));
    }
}

/// A single-quoted string literal rendering of `s`.
pub fn quoted_literal_string(s: &str) -> (r: String)
    ensures
        r@ == quoted_literal(s@),
{
    let mut r = String::new();
    push_char(&mut r, '\'');
    let escaped = escaped_string(s, '\'');
    r.append(escaped.as_str());
    push_char(&mut r, '\'');
    proof {
        assert(r@ =~= quoted_literal(s@));
    }
    r
}

/// `parts` joined by `sep`.
pub fn join_with(parts: &Vec<String>, sep: &str) -> (r: String)
    ensures
        r@ == joined(parts@.map_values(|p: String| p@), sep@),
{
    let ghost views = parts@.map_values(|p: String| p@);
    let mut r = String::new();
    let mut i: usize = 0;
    while i < parts.len()
        invariant
            i <= parts.len(),
            views == parts@.map_values(|p: String| p@),
            r@ == joined(views.take(i as int), sep@),
        decreases parts.len() - i,
    {
        if i > 0 {
            r.append(sep);
        }
        r.append(parts[i].as_str());
        proof {
            assert(views.take(i + 1).drop_last() =~= views.take(i as int));
            assert(views.take(i + 1).last() == parts@[i as int]@);
            if i == 0 {
                assert(r@ =~= joined(views.take(1), sep@));
            } else {
                assert(r@ =~= joined(views.take(i + 1), sep@));
            }
        }
        i = i + 1;
    }
    proof {
        assert(views.take(parts.len() as int) =~= views);
    }
    r
}

} // verus!
