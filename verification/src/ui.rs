//! Formatting of playback positions for the presentation layer.

use crate::ascii::spec_dec_bytes;
use vstd::prelude::*;
use vstd::string::StringExecFns;

verus! {

broadcast use vstd::string::group_string_axioms;

/// The decimal rendering of `n`, as characters.
pub open spec fn spec_dec_chars(n: nat) -> Seq<char> {
    spec_dec_bytes(n).map_values(|b: u8| b as char)
}

/// A number zero-padded to at least two digits.
pub open spec fn spec_pad2(n: nat) -> Seq<char> {
    if n < 10 {
        seq!['0'] + spec_dec_chars(n)
    } else {
        spec_dec_chars(n)
    }
}

/// `mm:ss`, or `hh:mm:ss` from one hour on; every part zero-padded to
/// two digits, the hours taking more digits when they need them.
pub open spec fn spec_fmt_duration(ms: nat) -> Seq<char> {
    let total = ms / 1000;
    let secs = total % 60;
    let mins = (total / 60) % 60;
    let hours = total / 3600;
    if hours > 0 {
        spec_pad2(hours) + seq![':'] + spec_pad2(mins) + seq![':'] + spec_pad2(secs)
    } else {
        spec_pad2(mins) + seq![':'] + spec_pad2(secs)
    }
}

fn digit_str(d: u64) -> (r: &'static str)
    requires
        d < 10,
    ensures
        r@ =~= seq![((48 + d) as u8) as char],
{
    let r: &'static str = if d == 0 {
        "0"
    } else if d == 1 {
        "1"
    } else if d == 2 {
        "2"
    } else if d == 3 {
        "3"
    } else if d == 4 {
        "4"
    } else if d == 5 {
        "5"
    } else if d == 6 {
        "6"
    } else if d == 7 {
        "7"
    } else if d == 8 {
        "8"
    } else {
        "9"
    };
    proof {
        reveal_strlit("0");
        reveal_strlit("1");
        reveal_strlit("2");
        reveal_strlit("3");
        reveal_strlit("4");
        reveal_strlit("5");
        reveal_strlit("6");
        reveal_strlit("7");
        reveal_strlit("8");
        reveal_strlit("9");
    }
    r
}

/// Append the decimal rendering of `n`.
fn append_dec(s: &mut String, n: u64)
    ensures
        final(s)@ == old(s)@ + spec_dec_chars(n as nat),
    decreases n,
{
    if n >= 10 {
        append_dec(s, n / 10);
    }
    s.append(digit_str(n % 10));
    proof {
        if n < 10 {
            assert(spec_dec_bytes(n as nat) =~= seq![(48 + n as nat) as u8]);
            assert(spec_dec_chars(n as nat) =~= seq![((48 + n) as u8) as char]);
            assert(s@ =~= old(s)@ + spec_dec_chars(n as nat));
        } else {
            assert(spec_dec_bytes(n as nat) =~= spec_dec_bytes((n / 10) as nat).push(
                (48 + n % 10) as u8,
            ));
            assert(spec_dec_chars(n as nat) =~= spec_dec_chars((n / 10) as nat).push(
                ((48 + n % 10) as u8) as char,
            ));
            assert(s@ =~= old(s)@ + spec_dec_chars(n as nat));
        }
    }
}

/// Append `n` zero-padded to at least two digits.
fn append_pad2(s: &mut String, n: u64)
    ensures
        final(s)@ == old(s)@ + spec_pad2(n as nat),
{
    if n < 10 {
        s.append("0");
        proof {
            reveal_strlit("0");
            assert("0"@ =~= seq!['0']);
        }
    }
    append_dec(s, n);
    proof {
        assert(s@ =~= old(s)@ + spec_pad2(n as nat));
    }
}

fn append_colon(s: &mut String)
    ensures
        final(s)@ == old(s)@ + seq![':'],
{
    s.append(":");
    proof {
        reveal_strlit(":");
        assert(":"@ =~= seq![':']);
        assert(s@ =~= old(s)@ + seq![':']);
    }
}

/// Render a playback duration or position, given in milliseconds.
pub fn fmt_duration(ms: u64) -> (r: String)
    ensures
        r@ == spec_fmt_duration(ms as nat),
{
    let total = ms / 1000;
    let secs = total % 60;
    let mins = (total / 60) % 60;
    let hours = total / 3600;
    let mut out = String::new();
    if hours > 0 {
        append_pad2(&mut out, hours);
        append_colon(&mut out);
    }
    append_pad2(&mut out, mins);
    append_colon(&mut out);
    append_pad2(&mut out, secs);
    proof {
        assert(out@ =~= spec_fmt_duration(ms as nat));
    }
    out
}

} // verus!
