//! Base64 with the standard alphabet and padding.

use crate::text::chars_of;
use vstd::prelude::*;

verus! {

/// Bytes that are encoded at a time when a file is read piece by piece.
/// A multiple of three, so that the pieces' encodings join up.
pub const CHUNK_SIZE: usize = 3072;

/// The character that stands for the six-bit number `v`.
pub open spec fn symbol(v: int) -> char {
    if v < 26 {
        (65 + v) as char
    } else if v < 52 {
        (71 + v) as char
    } else if v < 62 {
        (v - 4) as char
    } else if v == 62 {
        '+'
    } else {
        '/'
    }
}

/// The six-bit number that `c` stands for, or -1 where it stands for none.
pub open spec fn value_of(c: char) -> int {
    if 'A' <= c <= 'Z' {
        c as int - 65
    } else if 'a' <= c <= 'z' {
        c as int - 71
    } else if '0' <= c <= '9' {
        c as int + 4
    } else if c == '+' {
        62
    } else if c == '/' {
        63
    } else {
        -1
    }
}

/// The four characters for three bytes.
pub open spec fn group(a: u8, b: u8, c: u8) -> Seq<char> {
    seq![
        symbol(a as int / 4),
        symbol((a as int % 4) * 16 + b as int / 16),
        symbol((b as int % 16) * 4 + c as int / 64),
        symbol(c as int % 64),
    ]
}

/// The text that encodes `bytes`: four characters for every three bytes,
/// and a last group padded with `=` where one or two bytes are left.
pub open spec fn encoded(bytes: Seq<u8>) -> Seq<char>
    decreases bytes.len(),
{
    if bytes.len() == 0 {
        Seq::empty()
    } else if bytes.len() == 1 {
        seq![symbol(bytes[0] as int / 4), symbol((bytes[0] as int % 4) * 16), '=', '=']
    } else if bytes.len() == 2 {
        seq![
            symbol(bytes[0] as int / 4),
            symbol((bytes[0] as int % 4) * 16 + bytes[1] as int / 16),
            symbol((bytes[1] as int % 16) * 4),
            '=',
        ]
    } else {
        group(bytes[0], bytes[1], bytes[2]) + encoded(bytes.skip(3))
    }
}

/// The bytes that `text` encodes, where it is the encoding of any.
pub open spec fn decoded(text: Seq<char>) -> Option<Seq<u8>>
    decreases text.len(),
{
    if text.len() == 0 {
        Some(Seq::empty())
    } else if text.len() < 4 {
        None
    } else {
        let a = value_of(text[0]);
        let b = value_of(text[1]);
        let c = value_of(text[2]);
        let d = value_of(text[3]);
        if a < 0 || b < 0 {
            None
        } else if text[2] == '=' {
            if text.len() == 4 && text[3] == '=' && b % 16 == 0 {
                Some(seq![(a * 4 + b / 16) as u8])
            } else {
                None
            }
        } else if c < 0 {
            None
        } else if text[3] == '=' {
            if text.len() == 4 && c % 4 == 0 {
                Some(seq![(a * 4 + b / 16) as u8, ((b % 16) * 16 + c / 4) as u8])
            } else {
                None
            }
        } else if d < 0 {
            None
        } else {
            match decoded(text.skip(4)) {
                Some(rest) => Some(
                    seq![
                        (a * 4 + b / 16) as u8,
                        ((b % 16) * 16 + c / 4) as u8,
                        ((c % 4) * 64 + d) as u8,
                    ] + rest,
                ),
                None => None,
            }
        }
    }
}

/// Each six-bit number has a character of its own, which is not the
/// padding character.
pub proof fn lemma_symbol_value(v: int)
    requires
        0 <= v < 64,
    ensures
        value_of(symbol(v)) == v,
        symbol(v) != '=',
{
}

/// A character that stands for a number is the character of that number.
pub proof fn lemma_value_symbol(c: char)
    requires
        value_of(c) >= 0,
    ensures
        0 <= value_of(c) < 64,
        symbol(value_of(c)) == c,
        c != '=',
{
}

/// Decoding what was encoded gives the bytes back.
pub proof fn lemma_round_trip(bytes: Seq<u8>)
    ensures
        decoded(encoded(bytes)) == Some(bytes),
    decreases bytes.len(),
{
    let text = encoded(bytes);
    if bytes.len() == 0 {
    } else if bytes.len() == 1 {
        let a = bytes[0] as int;
        lemma_symbol_value(a / 4);
        lemma_symbol_value((a % 4) * 16);
        assert(decoded(text)->0 =~= bytes);
    } else if bytes.len() == 2 {
        let a = bytes[0] as int;
        let b = bytes[1] as int;
        lemma_symbol_value(a / 4);
        lemma_symbol_value((a % 4) * 16 + b / 16);
        lemma_symbol_value((b % 16) * 4);
        assert(decoded(text)->0 =~= bytes);
    } else {
        let a = bytes[0] as int;
        let b = bytes[1] as int;
        let c = bytes[2] as int;
        lemma_symbol_value(a / 4);
        lemma_symbol_value((a % 4) * 16 + b / 16);
        lemma_symbol_value((b % 16) * 4 + c / 64);
        lemma_symbol_value(c % 64);
        lemma_round_trip(bytes.skip(3));
        assert(text.skip(4) =~= encoded(bytes.skip(3)));
        assert(seq![bytes[0], bytes[1], bytes[2]] + bytes.skip(3) =~= bytes);
    }
}

/// Four six-bit numbers packed into three bytes come out again.
proof fn lemma_unpack(a: int, b: int, c: int, d: int)
    requires
        0 <= a < 64,
        0 <= b < 64,
        0 <= c < 64,
        0 <= d < 64,
    ensures
        0 <= a * 4 + b / 16 < 256,
        0 <= (b % 16) * 16 + c / 4 < 256,
        0 <= (c % 4) * 64 + d < 256,
        (a * 4 + b / 16) / 4 == a,
        ((a * 4 + b / 16) % 4) * 16 + ((b % 16) * 16 + c / 4) / 16 == b,
        (((b % 16) * 16 + c / 4) % 16) * 4 + ((c % 4) * 64 + d) / 64 == c,
        ((c % 4) * 64 + d) % 64 == d,
        b % 16 == 0 ==> ((a * 4 + b / 16) % 4) * 16 == b,
        c % 4 == 0 ==> (((b % 16) * 16 + c / 4) % 16) * 4 == c,
{
}

/// Text that decodes is the encoding of what it decodes to: no two texts
/// decode to the same bytes.
pub proof fn lemma_decoded_is_encoding(text: Seq<char>)
    requires
        decoded(text) is Some,
    ensures
        encoded(decoded(text)->0) == text,
    decreases text.len(),
{
    if text.len() >= 4 {
        let a = value_of(text[0]);
        let b = value_of(text[1]);
        let bytes = decoded(text)->0;
        lemma_value_symbol(text[0]);
        lemma_value_symbol(text[1]);
        if text[2] == '=' {
            lemma_unpack(a, b, 0, 0);
            assert(bytes.len() == 1);
            assert(bytes[0] as int == a * 4 + b / 16);
            let e = encoded(bytes);
            assert(e.len() == 4);
            assert(e[0] == text[0]);
            assert(e[1] == text[1]);
            assert(e =~= text);
        } else {
            let c = value_of(text[2]);
            lemma_value_symbol(text[2]);
            if text[3] == '=' {
                lemma_unpack(a, b, c, 0);
                assert(bytes.len() == 2);
                assert(bytes[0] as int == a * 4 + b / 16);
                assert(bytes[1] as int == (b % 16) * 16 + c / 4);
                let e = encoded(bytes);
                assert(e.len() == 4);
                assert(e[0] == text[0]);
                assert(e[1] == text[1]);
                assert(e[2] == text[2]);
                assert(e =~= text);
            } else {
                let d = value_of(text[3]);
                lemma_value_symbol(text[3]);
                lemma_unpack(a, b, c, d);
                let rest = decoded(text.skip(4))->0;
                lemma_decoded_is_encoding(text.skip(4));
                assert(bytes.len() == 3 + rest.len());
                assert(bytes[0] as int == a * 4 + b / 16);
                assert(bytes[1] as int == (b % 16) * 16 + c / 4);
                assert(bytes[2] as int == (c % 4) * 64 + d);
                assert(bytes.skip(3) =~= rest);
                let g = group(bytes[0], bytes[1], bytes[2]);
                assert(g[0] == text[0]);
                assert(g[1] == text[1]);
                assert(g[2] == text[2]);
                assert(g[3] == text[3]);
                assert(g =~= text.take(4));
                assert(text.take(4) + text.skip(4) =~= text);
            }
        }
    }
}

/// The encoding of a whole is the encodings of its parts joined, as long
/// as the length of the first part is a multiple of three.
pub proof fn lemma_encoded_in_parts(first: Seq<u8>, second: Seq<u8>)
    requires
        first.len() % 3 == 0,
    ensures
        encoded(first + second) == encoded(first) + encoded(second),
    decreases first.len(),
{
    if first.len() == 0 {
        assert(first + second =~= second);
        assert(encoded(first) + encoded(second) =~= encoded(second));
    } else {
        let whole = first + second;
        lemma_encoded_in_parts(first.skip(3), second);
        assert(whole.skip(3) =~= first.skip(3) + second);
        assert(encoded(whole) =~= encoded(first) + encoded(second));
    }
}

/// The character for a six-bit number.
fn symbol_of(v: u8) -> (c: char)
    requires
        v < 64,
    ensures
        c == symbol(v as int),
{
    if v < 26 {
        (65u8 + v) as char
    } else if v < 52 {
        (71u8 + v) as char
    } else if v < 62 {
        (v - 4u8) as char
    } else if v == 62 {
        '+'
    } else {
        '/'
    }
}

/// The six-bit number of a character.
fn number_of(c: char) -> (r: Option<u8>)
    ensures
        r matches Some(v) ==> value_of(c) == v && v < 64,
        r is None ==> value_of(c) == -1,
{
    if c >= 'A' && c <= 'Z' {
        Some((c as u8) - 65u8)
    } else if c >= 'a' && c <= 'z' {
        Some((c as u8) - 71u8)
    } else if c >= '0' && c <= '9' {
        Some((c as u8) + 4u8)
    } else if c == '+' {
        Some(62)
    } else if c == '/' {
        Some(63)
    } else {
        None
    }
}

/// Appends the encoding of `bytes` to `out`.
pub fn push_encoded(out: &mut String, bytes: &Vec<u8>)
    ensures
        final(out)@ == old(out)@ + encoded(bytes@),
{
    let n = bytes.len();
    let mut i: usize = 0;
    assert(bytes@.skip(0) =~= bytes@);
    while n - i >= 3
        invariant
            i <= n,
            n == bytes.len(),
            out@ + encoded(bytes@.skip(i as int)) == old(out)@ + encoded(bytes@),
        decreases n - i,
    {
        let a = bytes[i];
        let b = bytes[i + 1];
        let c = bytes[i + 2];
        let ghost before = out@;
        let ghost rest = bytes@.skip(i as int);
        out.push(symbol_of(a / 4));
        out.push(symbol_of((a % 4) * 16 + b / 16));
        out.push(symbol_of((b % 16) * 4 + c / 64));
        out.push(symbol_of(c % 64));
        proof {
            assert(rest.skip(3) =~= bytes@.skip(i + 3));
            assert(out@ =~= before + group(rest[0], rest[1], rest[2]));
            assert(out@ + encoded(bytes@.skip(i + 3)) =~= before + encoded(rest));
        }
        i += 3;
    }
    let ghost before = out@;
    let ghost rest = bytes@.skip(i as int);
    if n - i == 1 {
        let a = bytes[i];
        out.push(symbol_of(a / 4));
        out.push(symbol_of((a % 4) * 16));
        out.push('=');
        out.push('=');
        assert(out@ =~= before + encoded(rest));
    } else if n - i == 2 {
        let a = bytes[i];
        let b = bytes[i + 1];
        out.push(symbol_of(a / 4));
        out.push(symbol_of((a % 4) * 16 + b / 16));
        out.push(symbol_of((b % 16) * 4));
        out.push('=');
        assert(out@ =~= before + encoded(rest));
    } else {
        assert(out@ =~= before + encoded(rest));
    }
}

/// The text that encodes `bytes`.
pub fn base64_encode(bytes: &Vec<u8>) -> (text: String)
    ensures
        text@ == encoded(bytes@),
        decoded(text@) == Some(bytes@),
{
    let mut text = String::new();
    push_encoded(&mut text, bytes);
    proof {
        assert(Seq::<char>::empty() + encoded(bytes@) =~= encoded(bytes@));
        lemma_round_trip(bytes@);
    }
    text
}

/// The bytes that `text` encodes; nothing where `text` is the encoding of
/// no bytes.
#[verifier::loop_isolation(false)]
pub fn base64_decode(text: &str) -> (r: Option<Vec<u8>>)
    ensures
        r matches Some(bytes) ==> decoded(text@) == Some(bytes@) && encoded(bytes@) == text@,
        r is None ==> decoded(text@) is None,
        r is None ==> forall|bytes: Seq<u8>| #[trigger] encoded(bytes) != text@,
{
    let s = chars_of(text);
    let n = s.len();
    let mut out: Vec<u8> = Vec::new();
    let mut i: usize = 0;
    proof {
        assert(s@.skip(0) =~= s@);
        assert forall|bytes: Seq<u8>| decoded(s@) is None implies #[trigger] encoded(bytes)
            != s@ by {
            lemma_round_trip(bytes);
        }
    }
    while i < n
        invariant
            i <= n,
            n == s.len(),
            decoded(s@) == match decoded(s@.skip(i as int)) {
                Some(rest) => Some(out@ + rest),
                None => None,
            },
        decreases n - i,
    {
        let ghost tail = s@.skip(i as int);
        let ghost seen = out@;
        if n - i < 4 {
            return None;
        }
        assert(tail[0] == s@[i as int] && tail[1] == s@[i + 1] && tail[2] == s@[i + 2] && tail[3]
            == s@[i + 3]);
        let a = match number_of(s[i]) {
            Some(v) => v,
            None => {
                return None;
            },
        };
        let b = match number_of(s[i + 1]) {
            Some(v) => v,
            None => {
                return None;
            },
        };
        if s[i + 2] == '=' {
            if n - i == 4 && s[i + 3] == '=' && b % 16 == 0 {
                out.push(a * 4 + b / 16);
                proof {
                    assert(out@ =~= seen + decoded(tail)->0);
                    lemma_decoded_is_encoding(s@);
                }
                return Some(out);
            }
            return None;
        }
        let c = match number_of(s[i + 2]) {
            Some(v) => v,
            None => {
                return None;
            },
        };
        if s[i + 3] == '=' {
            if n - i == 4 && c % 4 == 0 {
                out.push(a * 4 + b / 16);
                out.push((b % 16) * 16 + c / 4);
                proof {
                    assert(out@ =~= seen + decoded(tail)->0);
                    lemma_decoded_is_encoding(s@);
                }
                return Some(out);
            }
            return None;
        }
        let d = match number_of(s[i + 3]) {
            Some(v) => v,
            None => {
                return None;
            },
        };
        out.push(a * 4 + b / 16);
        out.push((b % 16) * 16 + c / 4);
        out.push((c % 4) * 64 + d);
        proof {
            assert(tail.skip(4) =~= s@.skip(i + 4));
            if decoded(tail.skip(4)) is Some {
                let rest = decoded(tail.skip(4))->0;
                assert(out@ + rest =~= seen + decoded(tail)->0);
            }
        }
        i += 4;
    }
    proof {
        assert(out@ + Seq::<u8>::empty() =~= out@);
        lemma_decoded_is_encoding(s@);
    }
    Some(out)
}

} // verus!
