use vstd::prelude::*;
use vstd::utf8::encode_utf8;

verus! {

pub open spec fn spec_digit(n: u8) -> u8
    recommends
        n < 10,
{
    (48 + n) as u8
}

pub open spec fn spec_hex_digit(n: u8) -> u8
    recommends
        n < 16,
{
    if n < 10 {
        (48 + n) as u8
    } else {
        (87 + n) as u8
    }
}

/// The JSON expansion of one byte inside a double-quoted string: quote
/// and backslash are escaped, the named control escapes `\b \t \n \f \r`
/// are used where they exist, the remaining control bytes become
/// `\u00` plus two lowercase hex digits, and every other byte stands
/// for itself.
pub open spec fn spec_escaped_byte(b: u8) -> Seq<u8> {
    if b == 34 {
        seq![92u8, 34u8]
    } else if b == 92 {
        seq![92u8, 92u8]
    } else if b == 8 {
        seq![92u8, 98u8]
    } else if b == 9 {
        seq![92u8, 116u8]
    } else if b == 10 {
        seq![92u8, 110u8]
    } else if b == 12 {
        seq![92u8, 102u8]
    } else if b == 13 {
        seq![92u8, 114u8]
    } else if b < 32 {
        seq![92u8, 117u8, 48u8, 48u8, spec_hex_digit(b / 16), spec_hex_digit(b % 16)]
    } else {
        seq![b]
    }
}

/// A byte sequence escaped for the inside of a JSON string literal.
pub open spec fn spec_escape(s: Seq<u8>) -> Seq<u8>
    decreases s.len(),
{
    if s.len() == 0 {
        Seq::empty()
    } else {
        spec_escaped_byte(s[0]) + spec_escape(s.drop_first())
    }
}

/// The decimal rendering of one byte value, without leading zeros.
pub open spec fn spec_decimal(n: u8) -> Seq<u8> {
    if n < 10 {
        seq![spec_digit(n)]
    } else if n < 100 {
        seq![spec_digit(n / 10), spec_digit(n % 10)]
    } else {
        seq![spec_digit(n / 100), spec_digit((n / 10) % 10), spec_digit(n % 10)]
    }
}

/// The decimal renderings of the bytes after the first, each preceded
/// by a comma.
pub open spec fn spec_decimal_rest(s: Seq<u8>) -> Seq<u8>
    decreases s.len(),
{
    if s.len() == 0 {
        Seq::empty()
    } else {
        seq![44u8] + spec_decimal(s[0]) + spec_decimal_rest(s.drop_first())
    }
}

/// A JSON array of byte values: `[` then comma-separated decimals then `]`.
pub open spec fn spec_byte_array(s: Seq<u8>) -> Seq<u8> {
    if s.len() == 0 {
        seq![91u8, 93u8]
    } else {
        seq![91u8] + spec_decimal(s[0]) + spec_decimal_rest(s.drop_first()) + seq![93u8]
    }
}

/// A JSON string literal: quoted and escaped.
pub open spec fn spec_quoted(s: Seq<u8>) -> Seq<u8> {
    seq![34u8] + spec_escape(s) + seq![34u8]
}

/// The JSON string literals after the first, each preceded by a comma.
pub open spec fn spec_string_array_rest(xs: Seq<Seq<u8>>) -> Seq<u8>
    decreases xs.len(),
{
    if xs.len() == 0 {
        Seq::empty()
    } else {
        seq![44u8] + spec_quoted(xs[0]) + spec_string_array_rest(xs.drop_first())
    }
}

/// A JSON array of string literals.
pub open spec fn spec_string_array(xs: Seq<Seq<u8>>) -> Seq<u8> {
    if xs.len() == 0 {
        seq![91u8, 93u8]
    } else {
        seq![91u8] + spec_quoted(xs[0]) + spec_string_array_rest(xs.drop_first()) + seq![93u8]
    }
}

pub proof fn lemma_escape_push(s: Seq<u8>, b: u8)
    ensures
        spec_escape(s.push(b)) == spec_escape(s) + spec_escaped_byte(b),
    decreases s.len(),
{
    if s.len() == 0 {
        assert(s =~= Seq::<u8>::empty());
        assert(spec_escape(Seq::<u8>::empty()) == Seq::<u8>::empty());
        assert(s.push(b).drop_first() =~= Seq::<u8>::empty());
        assert(s.push(b)[0] == b);
        assert(spec_escape(s.push(b)) == spec_escaped_byte(b) + Seq::<u8>::empty());
        assert(spec_escaped_byte(b) + Seq::<u8>::empty() =~= Seq::<u8>::empty()
            + spec_escaped_byte(b));
    } else {
        assert(s.push(b).drop_first() =~= s.drop_first().push(b));
        lemma_escape_push(s.drop_first(), b);
        assert(s.push(b)[0] == s[0]);
        assert(spec_escaped_byte(s[0]) + (spec_escape(s.drop_first()) + spec_escaped_byte(b)) =~= (
        spec_escaped_byte(s[0]) + spec_escape(s.drop_first())) + spec_escaped_byte(b));
    }
}

pub proof fn lemma_decimal_rest_push(s: Seq<u8>, b: u8)
    ensures
        spec_decimal_rest(s.push(b)) == spec_decimal_rest(s) + seq![44u8] + spec_decimal(b),
    decreases s.len(),
{
    if s.len() == 0 {
        assert(s =~= Seq::<u8>::empty());
        assert(spec_decimal_rest(Seq::<u8>::empty()) == Seq::<u8>::empty());
        assert(s.push(b).drop_first() =~= Seq::<u8>::empty());
        assert(s.push(b)[0] == b);
        assert(spec_decimal_rest(s.push(b)) == seq![44u8] + spec_decimal(b)
            + Seq::<u8>::empty());
        assert(seq![44u8] + spec_decimal(b) + Seq::<u8>::empty() =~= Seq::<u8>::empty()
            + seq![44u8] + spec_decimal(b));
    } else {
        assert(s.push(b).drop_first() =~= s.drop_first().push(b));
        lemma_decimal_rest_push(s.drop_first(), b);
        assert(s.push(b)[0] == s[0]);
        assert(seq![44u8] + spec_decimal(s[0]) + (spec_decimal_rest(s.drop_first()) + seq![44u8]
            + spec_decimal(b)) =~= (seq![44u8] + spec_decimal(s[0]) + spec_decimal_rest(
            s.drop_first(),
        )) + seq![44u8] + spec_decimal(b));
    }
}

pub proof fn lemma_string_array_rest_push(xs: Seq<Seq<u8>>, x: Seq<u8>)
    ensures
        spec_string_array_rest(xs.push(x)) == spec_string_array_rest(xs) + seq![44u8]
            + spec_quoted(x),
    decreases xs.len(),
{
    if xs.len() == 0 {
        assert(xs =~= Seq::<Seq<u8>>::empty());
        assert(spec_string_array_rest(Seq::<Seq<u8>>::empty()) == Seq::<u8>::empty());
        assert(xs.push(x).drop_first() =~= Seq::<Seq<u8>>::empty());
        assert(xs.push(x)[0] == x);
        assert(spec_string_array_rest(xs.push(x)) == seq![44u8] + spec_quoted(x)
            + Seq::<u8>::empty());
        assert(seq![44u8] + spec_quoted(x) + Seq::<u8>::empty() =~= Seq::<u8>::empty()
            + seq![44u8] + spec_quoted(x));
    } else {
        assert(xs.push(x).drop_first() =~= xs.drop_first().push(x));
        lemma_string_array_rest_push(xs.drop_first(), x);
        assert(xs.push(x)[0] == xs[0]);
        assert(seq![44u8] + spec_quoted(xs[0]) + (spec_string_array_rest(xs.drop_first())
            + seq![44u8] + spec_quoted(x)) =~= (seq![44u8] + spec_quoted(xs[0])
            + spec_string_array_rest(xs.drop_first())) + seq![44u8] + spec_quoted(x));
    }
}

fn hex_digit(n: u8) -> (r: u8)
    requires
        n < 16,
    ensures
        r == spec_hex_digit(n),
{
    if n < 10 {
        48 + n
    } else {
        87 + n
    }
}

/// Appends the decimal rendering of one byte value.
pub fn push_decimal(out: &mut Vec<u8>, n: u8)
    ensures
        final(out)@ == old(out)@ + spec_decimal(n),
{
    if n < 10 {
        out.push(48 + n);
    } else if n < 100 {
        out.push(48 + n / 10);
        out.push(48 + n % 10);
    } else {
        out.push(48 + n / 100);
        out.push(48 + (n / 10) % 10);
        out.push(48 + n % 10);
    }
    proof {
        assert(out@ =~= old(out)@ + spec_decimal(n));
    }
}

/// Appends the JSON escape of one byte.
pub fn push_escaped_byte(out: &mut Vec<u8>, b: u8)
    ensures
        final(out)@ == old(out)@ + spec_escaped_byte(b),
{
    if b == 34 {
        out.push(92);
        out.push(34);
    } else if b == 92 {
        out.push(92);
        out.push(92);
    } else if b == 8 {
        out.push(92);
        out.push(98);
    } else if b == 9 {
        out.push(92);
        out.push(116);
    } else if b == 10 {
        out.push(92);
        out.push(110);
    } else if b == 12 {
        out.push(92);
        out.push(102);
    } else if b == 13 {
        out.push(92);
        out.push(114);
    } else if b < 32 {
        out.push(92);
        out.push(117);
        out.push(48);
        out.push(48);
        out.push(hex_digit(b / 16));
        out.push(hex_digit(b % 16));
    } else {
        out.push(b);
    }
    proof {
        assert(out@ =~= old(out)@ + spec_escaped_byte(b));
    }
}

/// Appends a byte sequence escaped for the inside of a JSON string.
pub fn push_escaped(out: &mut Vec<u8>, s: &[u8])
    ensures
        final(out)@ == old(out)@ + spec_escape(s@),
{
    proof {
        assert(s@.take(0) =~= Seq::<u8>::empty());
        assert(out@ =~= out@ + spec_escape(s@.take(0)));
    }
    let n = s.len();
    let mut i: usize = 0;
    while i < n
        invariant
            i <= n,
            n == s@.len(),
            out@ == old(out)@ + spec_escape(s@.take(i as int)),
        decreases n - i,
    {
        let ghost pre = s@.take(i as int);
        push_escaped_byte(out, s[i]);
        proof {
            assert(pre.push(s@[i as int]) =~= s@.take(i + 1 as int));
            lemma_escape_push(pre, s@[i as int]);
            assert(old(out)@ + spec_escape(pre) + spec_escaped_byte(s@[i as int]) =~= old(out)@
                + spec_escape(s@.take(i + 1 as int)));
        }
        i = i + 1;
    }
    proof {
        assert(s@.take(n as int) =~= s@);
    }
}

/// Appends a JSON array of byte values.
pub fn push_byte_array(out: &mut Vec<u8>, s: &[u8])
    ensures
        final(out)@ == old(out)@ + spec_byte_array(s@),
{
    out.push(91);
    let n = s.len();
    if n > 0 {
        push_decimal(out, s[0]);
        proof {
            assert(s@.subrange(1, 1) =~= Seq::<u8>::empty());
        }
        let mut i: usize = 1;
        while i < n
            invariant
                1 <= i <= n,
                n == s@.len(),
                out@ == old(out)@ + seq![91u8] + spec_decimal(s@[0]) + spec_decimal_rest(
                    s@.subrange(1, i as int),
                ),
            decreases n - i,
        {
            let ghost pre = s@.subrange(1, i as int);
            out.push(44);
            push_decimal(out, s[i]);
            proof {
                assert(pre.push(s@[i as int]) =~= s@.subrange(1, i + 1 as int));
                lemma_decimal_rest_push(pre, s@[i as int]);
                assert(old(out)@ + seq![91u8] + spec_decimal(s@[0]) + spec_decimal_rest(pre)
                    + seq![44u8] + spec_decimal(s@[i as int]) =~= old(out)@ + seq![91u8]
                    + spec_decimal(s@[0]) + spec_decimal_rest(s@.subrange(1, i + 1 as int)));
            }
            i = i + 1;
        }
        proof {
            assert(s@.subrange(1, n as int) =~= s@.drop_first());
        }
    }
    out.push(93);
    proof {
        assert(out@ =~= old(out)@ + spec_byte_array(s@));
    }
}

/// Appends a JSON string literal holding the given bytes.
pub fn push_quoted(out: &mut Vec<u8>, s: &[u8])
    ensures
        final(out)@ == old(out)@ + spec_quoted(s@),
{
    out.push(34);
    push_escaped(out, s);
    out.push(34);
    proof {
        assert(out@ =~= old(out)@ + spec_quoted(s@));
    }
}

/// Encodes a list of strings as a JSON array of string literals, each
/// escaped over its UTF-8 bytes.
pub fn encode_string_array(items: &Vec<String>) -> (r: Vec<u8>)
    ensures
        r@ == spec_string_array(items@.map(|_i: int, s: String| encode_utf8(s@))),
{
    let ghost xs = items@.map(|_i: int, s: String| encode_utf8(s@));
    let mut out: Vec<u8> = Vec::new();
    out.push(91);
    let n = items.len();
    if n > 0 {
        push_quoted(&mut out, items[0].as_str().as_bytes());
        proof {
            assert(out@ =~= seq![91u8] + spec_quoted(xs[0]));
            assert(xs.subrange(1, 1) =~= Seq::<Seq<u8>>::empty());
        }
        let mut i: usize = 1;
        while i < n
            invariant
                1 <= i <= n,
                n == items@.len(),
                xs.len() == n,
                forall|k: int| 0 <= k < n ==> xs[k] == encode_utf8(#[trigger] items@[k]@),
                out@ == seq![91u8] + spec_quoted(xs[0]) + spec_string_array_rest(
                    xs.subrange(1, i as int),
                ),
            decreases n - i,
        {
            let ghost pre = xs.subrange(1, i as int);
            out.push(44);
            push_quoted(&mut out, items[i].as_str().as_bytes());
            proof {
                lemma_string_array_rest_push(pre, xs[i as int]);
                assert(pre.push(xs[i as int]) =~= xs.subrange(1, i + 1 as int));
                assert(out@ =~= seq![91u8] + spec_quoted(xs[0]) + spec_string_array_rest(
                    xs.subrange(1, i + 1 as int),
                ));
            }
            i = i + 1;
        }
        proof {
            assert(xs.subrange(1, n as int) =~= xs.drop_first());
        }
    }
    out.push(93);
    proof {
        assert(out@ =~= spec_string_array(xs));
    }
    out
}

} // verus!
