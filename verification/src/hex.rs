//! Decoding of hex listings: whitespace-separated tokens of two hexadecimal
//! digits each, one token per byte.

use vstd::prelude::*;

verus! {

/// Whether `c` separates tokens: the code points with the Unicode property
/// `White_Space`.
pub open spec fn is_whitespace(c: char) -> bool {
    let n: u32 = c as u32;
    ||| 0x09 <= n <= 0x0d
    ||| n == 0x20
    ||| n == 0x85
    ||| n == 0xa0
    ||| n == 0x1680
    ||| 0x2000 <= n <= 0x200a
    ||| n == 0x2028
    ||| n == 0x2029
    ||| n == 0x202f
    ||| n == 0x205f
    ||| n == 0x3000
}

/// The value of `c` as a hexadecimal digit, in either case, if it is one.
pub open spec fn digit_value(c: char) -> Option<u8> {
    let n: u32 = c as u32;
    if 0x30 <= n <= 0x39 {
        Some((n - 0x30) as u8)
    } else if 0x41 <= n <= 0x46 {
        Some((n - 0x41 + 10) as u8)
    } else if 0x61 <= n <= 0x66 {
        Some((n - 0x61 + 10) as u8)
    } else {
        None
    }
}

/// The number of characters of `s` before its first whitespace.
pub open spec fn run_length(s: Seq<char>) -> nat
    decreases s.len(),
{
    if s.len() == 0 || is_whitespace(s[0]) {
        0
    } else {
        1 + run_length(s.skip(1))
    }
}

/// The tokens of `s` in order: its maximal runs of characters that are not
/// whitespace.
pub open spec fn tokens(s: Seq<char>) -> Seq<Seq<char>>
    decreases s.len(),
{
    if s.len() == 0 {
        Seq::empty()
    } else if is_whitespace(s[0]) {
        tokens(s.skip(1))
    } else {
        let n: nat = run_length(s);
        proof {
            lemma_run_length(s, 1);
        }
        seq![s.take(n as int)] + tokens(s.skip(n as int))
    }
}

/// The byte that a token stands for: a token is two hexadecimal digits, the
/// high one first.
pub open spec fn token_value(t: Seq<char>) -> Option<u8> {
    if t.len() == 2 {
        match (digit_value(t[0]), digit_value(t[1])) {
            (Some(hi), Some(lo)) => Some((16 * hi + lo) as u8),
            _ => None,
        }
    } else {
        None
    }
}

/// Every token stands for a byte.
pub open spec fn all_hex_pairs(ts: Seq<Seq<char>>) -> bool {
    forall|i: int| 0 <= i < ts.len() ==> token_value(#[trigger] ts[i]) is Some
}

/// The bytes that the tokens stand for, in order.
pub open spec fn values(ts: Seq<Seq<char>>) -> Seq<u8> {
    ts.map_values(|t: Seq<char>| token_value(t).unwrap())
}

/// Token `k` is the first one that stands for no byte.
pub open spec fn first_malformed(ts: Seq<Seq<char>>, k: int) -> bool {
    &&& 0 <= k < ts.len()
    &&& token_value(ts[k]) is None
    &&& all_hex_pairs(ts.take(k))
}

/// Whether `s` is a hex listing: each of its tokens is two hexadecimal digits.
pub open spec fn is_hex_listing(s: Seq<char>) -> bool {
    all_hex_pairs(tokens(s))
}

/// The bytes that a hex listing lists, in order.
pub open spec fn listed_bytes(s: Seq<char>) -> Seq<u8> {
    values(tokens(s))
}

/// If the first `k` characters of `s` are not whitespace, the first run has at
/// least `k` characters, and exactly `k` where `s` ends there or goes on with
/// whitespace. A run never exceeds the sequence.
pub proof fn lemma_run_length(s: Seq<char>, k: int)
    requires
        0 <= k <= s.len(),
        forall|j: int| 0 <= j < k ==> !is_whitespace(#[trigger] s[j]),
    ensures
        k <= run_length(s) <= s.len(),
        k == s.len() || is_whitespace(s[k]) ==> run_length(s) == k,
    decreases s.len(),
{
    if s.len() > 0 && !is_whitespace(s[0]) {
        let rest = s.skip(1);
        let m = if k > 0 { k - 1 } else { 0 };
        assert forall|j: int| 0 <= j < m implies !is_whitespace(#[trigger] rest[j]) by {
            assert(rest[j] == s[j + 1]);
        }
        lemma_run_length(rest, m);
    }
}

/// A character that is not whitespace begins a token: the first run of `s`.
proof fn lemma_first_token(s: Seq<char>)
    requires
        s.len() > 0,
        !is_whitespace(s[0]),
    ensures
        1 <= run_length(s) <= s.len(),
        tokens(s) == seq![s.take(run_length(s) as int)] + tokens(s.skip(run_length(s) as int)),
        tokens(s).len() >= 1,
        tokens(s)[0] == s.take(run_length(s) as int),
{
    lemma_run_length(s, 1);
}

/// Where the tokens of a listing are `done` followed by the tokens of `rest`,
/// and the first token of `rest` stands for no byte, that token is the
/// listing's first malformed one.
proof fn lemma_malformed(all: Seq<Seq<char>>, done: Seq<Seq<char>>, rest: Seq<char>)
    requires
        all == done + tokens(rest),
        all_hex_pairs(done),
        rest.len() > 0,
        !is_whitespace(rest[0]),
        token_value(rest.take(run_length(rest) as int)) is None,
    ensures
        first_malformed(all, done.len() as int),
{
    lemma_first_token(rest);
    assert(all[done.len() as int] == tokens(rest)[0]);
    assert(all.take(done.len() as int) =~= done);
}

/// Whether `c` separates tokens.
pub fn whitespace(c: char) -> (b: bool)
    ensures
        b == is_whitespace(c),
{
    let n: u32 = c as u32;
    (0x09 <= n && n <= 0x0d) || n == 0x20 || n == 0x85 || n == 0xa0 || n == 0x1680 || (0x2000 <= n
        && n <= 0x200a) || n == 0x2028 || n == 0x2029 || n == 0x202f || n == 0x205f || n == 0x3000
}

/// The value of `c` as a hexadecimal digit, if it is one.
pub fn hex_digit(c: char) -> (d: Option<u8>)
    ensures
        d == digit_value(c),
{
    let n: u32 = c as u32;
    if 0x30 <= n && n <= 0x39 {
        Some((n - 0x30) as u8)
    } else if 0x41 <= n && n <= 0x46 {
        Some((n - 0x41 + 10) as u8)
    } else if 0x61 <= n && n <= 0x66 {
        Some((n - 0x61 + 10) as u8)
    } else {
        None
    }
}

/// A listing that could not be decoded.
#[derive(Debug, Clone, Copy, PartialEq, Eq, Structural)]
pub struct HexDecodeError {
    /// The index of the first token that is not two hexadecimal digits,
    /// counting the tokens from 0.
    pub token: usize,
}

/// Decodes a hex listing into the bytes it lists, or names the first token
/// that is not two hexadecimal digits.
pub fn try_parse_buffer(buffer: &str) -> (res: Result<Vec<u8>, HexDecodeError>)
    ensures
        res is Ok <==> is_hex_listing(buffer@),
        match res {
            Ok(bytes) => bytes@ == listed_bytes(buffer@),
            Err(e) => first_malformed(tokens(buffer@), e.token as int),
        },
{
    let mut bytes: Vec<u8> = Vec::new();
    // The digits read of the token at hand, and what they amount to.
    let mut digits: u8 = 0;
    let mut value: u8 = 0;
    let ghost text = buffer@;
    let ghost mut done: Seq<Seq<char>> = Seq::empty();
    assert(text.skip(0) =~= text && done + tokens(text) =~= tokens(text));
    for c in it: buffer.chars()
        invariant
            it.seq() == text,
            text == buffer@,
            digits <= 2,
            digits <= it.index(),
            tokens(text) == done + tokens(text.skip(it.index() - digits)),
            all_hex_pairs(done),
            bytes@ == values(done),
            forall|k: int|
                it.index() - digits <= k < it.index() ==> digit_value(#[trigger] text[k]) is Some,
            digits == 1 ==> value == digit_value(text[it.index() - 1])->0,
            digits == 2 ==> value == 16 * digit_value(text[it.index() - 2])->0 + digit_value(
                text[it.index() - 1],
            )->0,
    {
        let ghost idx = it.index();
        let ghost rest = text.skip(idx - digits);
        if whitespace(c) {
            if digits == 1 {
                proof {
                    lemma_run_length(rest, 1);
                    lemma_malformed(tokens(text), done, rest);
                }
                return Err(HexDecodeError { token: bytes.len() });
            }
            if digits == 2 {
                proof {
                    lemma_run_length(rest, 2);
                    lemma_first_token(rest);
                    let token = rest.take(2);
                    assert(rest.skip(2) =~= text.skip(idx));
                    assert(tokens(text) =~= done.push(token) + tokens(text.skip(idx)));
                    assert(values(done.push(token)) =~= values(done).push(value));
                    done = done.push(token);
                }
                bytes.push(value);
            }
            proof {
                assert(text.skip(idx).skip(1) =~= text.skip(idx + 1));
            }
            digits = 0;
        } else {
            match hex_digit(c) {
                Some(d) if digits == 0 => {
                    value = d;
                    digits = 1;
                },
                Some(d) if digits == 1 => {
                    value = value * 16 + d;
                    digits = 2;
                },
                _ => {
                    proof {
                        lemma_run_length(rest, digits + 1);
                        lemma_malformed(tokens(text), done, rest);
                    }
                    return Err(HexDecodeError { token: bytes.len() });
                },
            }
        }
    }
    let ghost rest = text.skip(text.len() - digits);
    if digits == 1 {
        proof {
            lemma_run_length(rest, 1);
            lemma_malformed(tokens(text), done, rest);
        }
        return Err(HexDecodeError { token: bytes.len() });
    }
    if digits == 2 {
        proof {
            lemma_run_length(rest, 2);
            lemma_first_token(rest);
            let token = rest.take(2);
            assert(rest.skip(2) =~= Seq::<char>::empty());
            assert(tokens(text) =~= done.push(token));
            assert(values(done.push(token)) =~= values(done).push(value));
            done = done.push(token);
        }
        bytes.push(value);
    }
    Ok(bytes)
}

/// Decodes a hex listing into the bytes it lists.
pub fn parse_buffer(buffer: &str) -> (bytes: Vec<u8>)
    requires
        is_hex_listing(buffer@),
    ensures
        bytes@ == listed_bytes(buffer@),
{
    match try_parse_buffer(buffer) {
        Ok(bytes) => bytes,
        Err(_) => vstd::pervasive::unreached(),
    }
}

} // verus!
