//! Byte-level text helpers shared by the frame codec: ASCII whitespace
//! tokenization, ASCII case folding, and decimal parsing and rendering.

use vstd::prelude::*;

verus! {

/// ASCII whitespace, the byte forms of the characters that line
/// tokenization splits on: space, tab, line feed, vertical tab, form
/// feed, carriage return.
pub open spec fn is_ws(b: u8) -> bool {
    b == 32 || b == 9 || b == 10 || b == 11 || b == 12 || b == 13
}

fn is_ws_byte(b: u8) -> (r: bool)
    ensures
        r == is_ws(b),
{
    b == 32 || b == 9 || b == 10 || b == 11 || b == 12 || b == 13
}

/// Length of the maximal whitespace-free prefix of `s`.
pub open spec fn token_len(s: Seq<u8>) -> nat
    decreases s.len(),
{
    if s.len() == 0 || is_ws(s[0]) {
        0
    } else {
        1 + token_len(s.drop_first())
    }
}

/// The whitespace-separated tokens of `s`, in order; every token is
/// non-empty and holds no whitespace byte.
pub open spec fn spec_tokens(s: Seq<u8>) -> Seq<Seq<u8>>
    decreases s.len(),
    via spec_tokens_decreases
{
    if s.len() == 0 {
        Seq::empty()
    } else if is_ws(s[0]) {
        spec_tokens(s.drop_first())
    } else {
        seq![s.take(token_len(s) as int)] + spec_tokens(s.skip(token_len(s) as int))
    }
}

#[via_fn]
proof fn spec_tokens_decreases(s: Seq<u8>) {
    if s.len() > 0 && !is_ws(s[0]) {
        lemma_token_len_le(s);
    }
}

pub proof fn lemma_token_len_le(s: Seq<u8>)
    ensures
        token_len(s) <= s.len(),
        s.len() > 0 && !is_ws(s[0]) ==> token_len(s) >= 1,
    decreases s.len(),
{
    if s.len() > 0 && !is_ws(s[0]) {
        lemma_token_len_le(s.drop_first());
    }
}

/// `token_len` is the first whitespace position (or the length).
pub proof fn lemma_token_len_is_scan(s: Seq<u8>, k: nat)
    requires
        k <= s.len(),
        forall|j: int| 0 <= j < k ==> !is_ws(s[j]),
        k < s.len() ==> is_ws(s[k as int]),
    ensures
        token_len(s) == k,
    decreases s.len(),
{
    if s.len() == 0 {
    } else if is_ws(s[0]) {
    } else {
        assert(s.drop_first().len() == s.len() - 1);
        assert(forall|j: int| 0 <= j < k - 1 ==> s.drop_first()[j] == s[j + 1] && !is_ws(
            s.drop_first()[j],
        ));
        lemma_token_len_is_scan(s.drop_first(), (k - 1) as nat);
    }
}

/// Dropping a leading whitespace byte leaves the tokens unchanged.
pub proof fn lemma_tokens_skip_ws(s: Seq<u8>, i: int)
    requires
        0 <= i < s.len(),
        is_ws(s[i]),
        forall|j: int| 0 <= j < i ==> is_ws(s[j]),
    ensures
        spec_tokens(s.skip(i)) == spec_tokens(s.skip(i + 1)),
{
    assert(s.skip(i)[0] == s[i]);
    assert(s.skip(i).drop_first() =~= s.skip(i + 1));
}

/// At a non-whitespace byte, the tokens are the token starting there
/// followed by the tokens of the rest.
pub proof fn lemma_tokens_at_token(s: Seq<u8>, i: int, j: int)
    requires
        0 <= i <= j <= s.len(),
        i < j,
        forall|k: int| i <= k < j ==> !is_ws(s[k]),
        j < s.len() ==> is_ws(s[j]),
    ensures
        spec_tokens(s.skip(i)) == seq![s.subrange(i, j)] + spec_tokens(s.skip(j)),
{
    let t = s.skip(i);
    assert(forall|k: int| 0 <= k < j - i ==> t[k] == s[i + k] && !is_ws(t[k]));
    if j - i < t.len() {
        assert(t[j - i] == s[j]);
    }
    lemma_token_len_is_scan(t, (j - i) as nat);
    assert(t.take(j - i) =~= s.subrange(i, j));
    assert(t.skip(j - i) =~= s.skip(j));
}

/// A whitespace-free run at the front is the first token.
pub proof fn lemma_tokens_prepend(t: Seq<u8>, rest: Seq<u8>)
    requires
        t.len() > 0,
        forall|k: int| 0 <= k < t.len() ==> !is_ws(t[k]),
        rest.len() > 0 ==> is_ws(rest[0]),
    ensures
        spec_tokens(t + rest) == seq![t] + spec_tokens(rest),
{
    let s = t + rest;
    assert(forall|k: int| 0 <= k < t.len() ==> s[k] == t[k]);
    if t.len() < s.len() {
        assert(s[t.len() as int] == rest[0]);
    }
    lemma_tokens_at_token(s, 0, t.len() as int);
    assert(s.skip(0) =~= s);
    assert(s.subrange(0, t.len() as int) =~= t);
    assert(s.skip(t.len() as int) =~= rest);
}

/// Dropping one leading whitespace byte drops no token.
pub proof fn lemma_tokens_drop_ws(s: Seq<u8>)
    requires
        s.len() > 0,
        is_ws(s[0]),
    ensures
        spec_tokens(s) == spec_tokens(s.drop_first()),
{
}

/// Split a line into its whitespace-separated tokens.
pub fn tokenize(line: &[u8]) -> (r: Vec<Vec<u8>>)
    ensures
        r.deep_view() == spec_tokens(line@),
{
    let mut toks: Vec<Vec<u8>> = Vec::new();
    let mut i: usize = 0;
    proof {
        assert(line@.skip(0) =~= line@);
    }
    while i < line.len()
        invariant
            i <= line@.len(),
            spec_tokens(line@) == toks.deep_view() + spec_tokens(line@.skip(i as int)),
        decreases line@.len() - i,
    {
        if is_ws_byte(line[i]) {
            proof {
                lemma_tokens_skip_ws(line@.skip(i as int), 0);
                assert(line@.skip(i as int).skip(1) =~= line@.skip(i as int + 1));
            }
            i = i + 1;
        } else {
            let start = i;
            let mut t: Vec<u8> = Vec::new();
            while i < line.len() && !is_ws_byte(line[i])
                invariant
                    start <= i <= line@.len(),
                    start < line@.len(),
                    t@ =~= line@.subrange(start as int, i as int),
                    forall|k: int| start <= k < i ==> !is_ws(line@[k]),
                decreases line@.len() - i,
            {
                let b = line[i];
                t.push(b);
                i = i + 1;
            }
            proof {
                lemma_tokens_at_token(line@, start as int, i as int);
            }
            let ghost prev = toks.deep_view();
            toks.push(t);
            proof {
                assert(toks.deep_view() =~~= prev + seq![t@]);
            }
        }
    }
    proof {
        assert(line@.skip(i as int) =~= Seq::<u8>::empty());
        assert(toks.deep_view() + spec_tokens(Seq::<u8>::empty()) =~= toks.deep_view());
    }
    toks
}

/// ASCII case folding of one byte: the letters A..=Z fold to a..=z and
/// every other byte is unchanged.
pub open spec fn lower(b: u8) -> u8 {
    if 65 <= b <= 90 {
        (b + 32) as u8
    } else {
        b
    }
}

/// Whether `t`, case-folded, reads as `pat` (`pat` given already folded).
pub open spec fn folds_to(t: Seq<u8>, pat: Seq<u8>) -> bool {
    t.map_values(|b: u8| lower(b)) == pat
}

/// Whether `b` is an ASCII decimal digit.
pub open spec fn is_digit(b: u8) -> bool {
    48 <= b <= 57
}

/// The number a sequence of digit bytes denotes, most significant first.
pub open spec fn digits_value(t: Seq<u8>) -> nat
    decreases t.len(),
{
    if t.len() == 0 {
        0
    } else {
        digits_value(t.drop_last()) * 10 + (t.last() - 48) as nat
    }
}

pub open spec fn all_digits(t: Seq<u8>) -> bool {
    forall|k: int| 0 <= k < t.len() ==> is_digit(#[trigger] t[k])
}

/// What `str::parse::<usize>` accepts on a whitespace-free token: an
/// optional leading `+`, then one or more digits, denoting a value that
/// fits in `usize`.
pub open spec fn spec_parse_usize(t: Seq<u8>) -> Option<nat> {
    let digits = if t.len() > 0 && t[0] == 43 {
        t.drop_first()
    } else {
        t
    };
    if digits.len() > 0 && all_digits(digits) && digits_value(digits) <= usize::MAX {
        Some(digits_value(digits))
    } else {
        None
    }
}

/// Value of a digit prefix never exceeds the value of the whole.
proof fn lemma_digits_value_prefix(t: Seq<u8>, i: int)
    requires
        0 <= i <= t.len(),
    ensures
        digits_value(t.take(i)) <= digits_value(t),
    decreases t.len() - i,
{
    if i < t.len() {
        assert(t.take(i + 1).drop_last() =~= t.take(i));
        assert(digits_value(t.take(i + 1)) == digits_value(t.take(i)) * 10 + ((t.take(i + 1).last()
            - 48) as nat));
        lemma_digits_value_prefix(t, i + 1);
    } else {
        assert(t.take(i) =~= t);
    }
}

/// Parse a digit run as `usize`, rejecting overflow.
fn parse_digits(t: &[u8]) -> (r: Option<usize>)
    ensures
        ({
            let v = if t@.len() > 0 && all_digits(t@) && digits_value(t@) <= usize::MAX {
                Some(digits_value(t@))
            } else {
                None
            };
            match r {
                Some(n) => v == Some(n as nat),
                None => v is None,
            }
        }),
{
    if t.len() == 0 {
        return None;
    }
    let mut acc: usize = 0;
    let mut i: usize = 0;
    proof {
        assert(t@.take(0) =~= Seq::<u8>::empty());
    }
    while i < t.len()
        invariant
            i <= t@.len(),
            acc as nat == digits_value(t@.take(i as int)),
            all_digits(t@.take(i as int)),
        decreases t@.len() - i,
    {
        let b = t[i];
        if b < 48 || b > 57 {
            proof {
                assert(t@[i as int] == b);
            }
            return None;
        }
        let d = (b - 48) as usize;
        if acc > (usize::MAX - d) / 10 {
            proof {
                assert(t@.take(i as int + 1).drop_last() =~= t@.take(i as int));
                assert(t@.take(i as int + 1).last() == b);
                assert(digits_value(t@.take(i as int + 1)) == acc * 10 + d);
                lemma_digits_value_prefix(t@, i as int + 1);
                assert(acc * 10 + d > usize::MAX) by (nonlinear_arith)
                    requires
                        acc > (usize::MAX - d) / 10,
                        d <= 9,
                        acc >= 0,
                ;
            }
            return None;
        }
        proof {
            assert(acc * 10 + d <= usize::MAX) by (nonlinear_arith)
                requires
                    acc <= (usize::MAX - d) / 10,
                    0 <= d <= 9,
                    acc >= 0,
            ;
            assert(t@.take(i as int + 1).drop_last() =~= t@.take(i as int));
            assert(t@.take(i as int + 1).last() == b);
        }
        acc = acc * 10 + d;
        i = i + 1;
    }
    proof {
        assert(t@.take(i as int) =~= t@);
    }
    Some(acc)
}

/// Parse a token the way `str::parse::<usize>` reads it: optional `+`,
/// then digits, no other bytes, value within range.
pub fn parse_usize_token(t: &[u8]) -> (r: Option<usize>)
    ensures
        match r {
            Some(n) => spec_parse_usize(t@) == Some(n as nat),
            None => spec_parse_usize(t@) is None,
        },
{
    if t.len() > 0 && t[0] == 43 {
        let rest = slice_drop_first(t);
        parse_digits(&rest)
    } else {
        parse_digits(t)
    }
}

/// Copy of a slice without its first element.
fn slice_drop_first(t: &[u8]) -> (r: Vec<u8>)
    requires
        t@.len() > 0,
    ensures
        r@ == t@.drop_first(),
{
    let mut out: Vec<u8> = Vec::new();
    let mut i: usize = 1;
    while i < t.len()
        invariant
            1 <= i <= t@.len(),
            out@ =~= t@.subrange(1, i as int),
        decreases t@.len() - i,
    {
        let b = t[i];
        out.push(b);
        i = i + 1;
    }
    proof {
        assert(t@.subrange(1, t@.len() as int) =~= t@.drop_first());
    }
    out
}

/// Parse a digit run as `u64`, rejecting overflow: `Some` exactly when
/// the run is one or more digits denoting a value that fits.
pub fn parse_digits_u64(t: &[u8]) -> (r: Option<u64>)
    ensures
        ({
            let v = if t@.len() > 0 && all_digits(t@) && digits_value(t@) <= u64::MAX {
                Some(digits_value(t@))
            } else {
                None
            };
            match r {
                Some(n) => v == Some(n as nat),
                None => v is None,
            }
        }),
{
    if t.len() == 0 {
        return None;
    }
    let mut acc: u64 = 0;
    let mut i: usize = 0;
    proof {
        assert(t@.take(0) =~= Seq::<u8>::empty());
    }
    while i < t.len()
        invariant
            i <= t@.len(),
            acc as nat == digits_value(t@.take(i as int)),
            all_digits(t@.take(i as int)),
        decreases t@.len() - i,
    {
        let b = t[i];
        if b < 48 || b > 57 {
            proof {
                assert(t@[i as int] == b);
            }
            return None;
        }
        let d = (b - 48) as u64;
        if acc > (u64::MAX - d) / 10 {
            proof {
                assert(t@.take(i as int + 1).drop_last() =~= t@.take(i as int));
                assert(t@.take(i as int + 1).last() == b);
                assert(digits_value(t@.take(i as int + 1)) == acc * 10 + d);
                lemma_digits_value_prefix(t@, i as int + 1);
                assert(acc * 10 + d > u64::MAX) by (nonlinear_arith)
                    requires
                        acc > (u64::MAX - d) / 10,
                        d <= 9,
                        acc >= 0,
                ;
            }
            return None;
        }
        proof {
            assert(acc * 10 + d <= u64::MAX) by (nonlinear_arith)
                requires
                    acc <= (u64::MAX - d) / 10,
                    0 <= d <= 9,
                    acc >= 0,
            ;
            assert(t@.take(i as int + 1).drop_last() =~= t@.take(i as int));
            assert(t@.take(i as int + 1).last() == b);
        }
        acc = acc * 10 + d;
        i = i + 1;
    }
    proof {
        assert(t@.take(i as int) =~= t@);
    }
    Some(acc)
}

/// A digit run denotes zero exactly when every digit is `0`.
pub proof fn lemma_digits_value_zero(t: Seq<u8>)
    requires
        all_digits(t),
    ensures
        (digits_value(t) == 0) <==> (forall|k: int| 0 <= k < t.len() ==> t[k] == 48),
    decreases t.len(),
{
    if t.len() > 0 {
        assert(forall|k: int| 0 <= k < t.len() - 1 ==> t.drop_last()[k] == t[k]);
        lemma_digits_value_zero(t.drop_last());
        assert(digits_value(t) == digits_value(t.drop_last()) * 10 + ((t.last() - 48) as nat));
        if digits_value(t.drop_last()) == 0 && t.last() == 48 {
            assert(digits_value(t) == 0);
        }
        if digits_value(t) == 0 {
            assert(digits_value(t.drop_last()) * 10 == 0 ==> digits_value(t.drop_last()) == 0);
        }
    }
}

/// Decimal rendering of `n`, most significant digit first, no sign and
/// no leading zero except for the number 0 itself.
pub open spec fn spec_dec_bytes(n: nat) -> Seq<u8>
    decreases n,
{
    if n < 10 {
        seq![(48 + n) as u8]
    } else {
        spec_dec_bytes(n / 10).push((48 + n % 10) as u8)
    }
}

pub proof fn lemma_dec_bytes_digits(n: nat)
    ensures
        all_digits(spec_dec_bytes(n)),
        spec_dec_bytes(n).len() >= 1,
    decreases n,
{
    if n >= 10 {
        lemma_dec_bytes_digits(n / 10);
    }
}

/// Rendering then reading a number gives the number back.
pub proof fn lemma_dec_bytes_value(n: nat)
    ensures
        digits_value(spec_dec_bytes(n)) == n,
    decreases n,
{
    if n < 10 {
        let s = spec_dec_bytes(n);
        assert(s.drop_last() =~= Seq::<u8>::empty());
        assert(digits_value(Seq::<u8>::empty()) == 0);
        assert(s.last() == (48 + n) as u8);
        assert(48 + n < 256);
        assert(digits_value(s) == digits_value(s.drop_last()) * 10 + ((s.last() - 48) as nat));
    } else {
        lemma_dec_bytes_value(n / 10);
        assert(spec_dec_bytes(n).drop_last() =~= spec_dec_bytes(n / 10));
        assert(spec_dec_bytes(n).last() == (48 + n % 10) as u8);
        assert(digits_value(spec_dec_bytes(n)) == (n / 10) * 10 + n % 10);
    }
}

/// Append the decimal rendering of `n` to `out`.
pub fn push_dec(out: &mut Vec<u8>, n: usize)
    ensures
        final(out)@ == old(out)@ + spec_dec_bytes(n as nat),
    decreases n,
{
    if n >= 10 {
        push_dec(out, n / 10);
    }
    out.push(48 + (n % 10) as u8);
    proof {
        if n < 10 {
            assert(old(out)@ + spec_dec_bytes(n as nat) =~= old(out)@.push((48 + n) as u8));
        } else {
            assert(old(out)@ + spec_dec_bytes(n as nat) =~= (old(out)@ + spec_dec_bytes(
                n as nat / 10,
            )).push((48 + n as nat % 10) as u8));
        }
    }
}

/// Append a copy of `s` to `out`.
pub fn push_bytes(out: &mut Vec<u8>, s: &[u8])
    ensures
        final(out)@ == old(out)@ + s@,
{
    let mut i: usize = 0;
    while i < s.len()
        invariant
            i <= s@.len(),
            out@ =~= old(out)@ + s@.subrange(0, i as int),
        decreases s@.len() - i,
    {
        let b = s[i];
        out.push(b);
        i = i + 1;
    }
    proof {
        assert(old(out)@ + s@.subrange(0, s@.len() as int) =~= old(out)@ + s@);
    }
}

} // verus!
