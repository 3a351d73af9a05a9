use vstd::prelude::*;
use vstd::string::StringSliceAdditionalSpecFns;

use crate::ids::{hex_text, push_bytes};

verus! {

// The canonical JSON text of the engine's records: compact, fields in declaration order,
// integers in decimal, identities and digests as lowercase hexadecimal strings, unit enum
// variants by their snake-case names. Digests of records are taken over this text.

/// The bytes of a text literal.
pub open spec fn lit(s: &str) -> Seq<u8> {
    s.spec_bytes()
}

/// The decimal digits of `n`, without leading zeros.
pub open spec fn dec(n: nat) -> Seq<u8>
    decreases n,
{
    if n < 10 {
        seq![(48 + n) as u8]
    } else {
        dec(n / 10) + seq![(48 + n % 10) as u8]
    }
}

/// `s` between double quotes.
pub open spec fn quoted(s: Seq<u8>) -> Seq<u8> {
    seq![34u8] + s + seq![34u8]
}

/// A lowercase hexadecimal digit byte for a value below sixteen.
pub open spec fn hex_low(n: int) -> u8 {
    if n < 10 {
        (48 + n) as u8
    } else {
        (87 + n) as u8
    }
}

/// The JSON string escape of one byte: quote, backslash and control bytes are escaped.
pub open spec fn escape_byte(b: u8) -> Seq<u8> {
    if b == 34 {
        seq![92u8, 34u8]
    } else if b == 92 {
        seq![92u8, 92u8]
    } else if b == 8 {
        seq![92u8, 98u8]
    } else if b == 12 {
        seq![92u8, 102u8]
    } else if b == 10 {
        seq![92u8, 110u8]
    } else if b == 13 {
        seq![92u8, 114u8]
    } else if b == 9 {
        seq![92u8, 116u8]
    } else if b < 32 {
        seq![92u8, 117u8, 48u8, 48u8, hex_low(b as int / 16), hex_low(b as int % 16)]
    } else {
        seq![b]
    }
}

/// The JSON string escape of a byte string.
pub open spec fn json_escape(s: Seq<u8>) -> Seq<u8>
    decreases s.len(),
{
    if s.len() == 0 {
        Seq::empty()
    } else {
        json_escape(s.drop_last()) + escape_byte(s.last())
    }
}

/// A JSON string holding the UTF-8 text of `chars`.
pub open spec fn json_text(chars: Seq<char>) -> Seq<u8> {
    quoted(json_escape(vstd::utf8::encode_utf8(chars)))
}

/// A digest or identity as a JSON string of its lowercase hexadecimal text.
pub open spec fn json_hex(bytes: Seq<u8>) -> Seq<u8> {
    quoted(vstd::utf8::encode_utf8(hex_text(bytes)))
}

/// A JSON boolean.
pub open spec fn json_bool(b: bool) -> Seq<u8> {
    if b {
        lit("true")
    } else {
        lit("false")
    }
}

/// JSON texts separated by commas.
pub open spec fn json_join(items: Seq<Seq<u8>>) -> Seq<u8>
    decreases items.len(),
{
    if items.len() == 0 {
        Seq::empty()
    } else if items.len() == 1 {
        items[0]
    } else {
        json_join(items.drop_last()) + seq![44u8] + items.last()
    }
}

/// A JSON array of the given element texts.
pub open spec fn json_array(items: Seq<Seq<u8>>) -> Seq<u8> {
    seq![91u8] + json_join(items) + seq![93u8]
}

/// Appending the next element text to a partly written array.
pub proof fn lemma_join_next(items: Seq<Seq<u8>>, i: int)
    requires
        0 <= i < items.len(),
    ensures
        json_join(items.take(i + 1)) == if i == 0 {
            items[0]
        } else {
            json_join(items.take(i)) + seq![44u8] + items[i]
        },
{
    assert(items.take(i + 1).drop_last() =~= items.take(i));
    if i == 0 {
        assert(items.take(1).len() == 1);
    }
}

pub fn push_lit(out: &mut Vec<u8>, s: &str)
    ensures
        final(out)@ == old(out)@ + lit(s),
{
    push_bytes(out, s.as_bytes());
}

pub fn push_dec(out: &mut Vec<u8>, n: u128)
    ensures
        final(out)@ == old(out)@ + dec(n as nat),
    decreases n,
{
    if n >= 10 {
        push_dec(out, n / 10);
    }
    out.push((48 + n % 10) as u8);
    proof {
        if n < 10 {
            assert(n % 10 == n);
        }
    }
}

fn push_escaped_byte(out: &mut Vec<u8>, b: u8)
    ensures
        final(out)@ == old(out)@ + escape_byte(b),
{
    if b == 34 {
        out.push(92);
        out.push(34);
    } else if b == 92 {
        out.push(92);
        out.push(92);
    } else if b == 8 {
        out.push(92);
        out.push(98);
    } else if b == 12 {
        out.push(92);
        out.push(102);
    } else if b == 10 {
        out.push(92);
        out.push(110);
    } else if b == 13 {
        out.push(92);
        out.push(114);
    } else if b == 9 {
        out.push(92);
        out.push(116);
    } else if b < 32 {
        out.push(92);
        out.push(117);
        out.push(48);
        out.push(48);
        let hi = b / 16;
        let lo = b % 16;
        out.push(48 + hi);
        if lo < 10 {
            out.push(48 + lo);
        } else {
            out.push(87 + lo);
        }
    } else {
        out.push(b);
    }
    assert(final(out)@ =~= old(out)@ + escape_byte(b));
}

/// Appends `s` as a JSON string.
pub fn push_json_bytes(out: &mut Vec<u8>, s: &[u8])
    ensures
        final(out)@ == old(out)@ + quoted(json_escape(s@)),
{
    let ghost start = out@;
    out.push(34);
    let mut i: usize = 0;
    while i < s.len()
        invariant
            0 <= i <= s@.len(),
            out@ == start + seq![34u8] + json_escape(s@.take(i as int)),
        decreases s@.len() - i,
    {
        push_escaped_byte(out, s[i]);
        proof {
            assert(s@.take(i as int + 1).drop_last() =~= s@.take(i as int));
        }
        i = i + 1;
    }
    out.push(34);
    assert(s@.take(s@.len() as int) =~= s@);
    assert(final(out)@ =~= old(out)@ + quoted(json_escape(s@)));
}

/// Appends a text as a JSON string.
pub fn push_json_str(out: &mut Vec<u8>, s: &str)
    ensures
        final(out)@ == old(out)@ + json_text(s@),
{
    push_json_bytes(out, s.as_bytes());
}

/// Appends 32 bytes as a JSON string of their hexadecimal text.
pub fn push_json_hex(out: &mut Vec<u8>, bytes: &[u8; 32])
    ensures
        final(out)@ == old(out)@ + json_hex(bytes@),
{
    let text = crate::ids::Digest(*bytes).to_hex();
    out.push(34);
    push_bytes(out, text.as_str().as_bytes());
    out.push(34);
    assert(final(out)@ =~= old(out)@ + json_hex(bytes@));
}

pub fn push_json_bool(out: &mut Vec<u8>, b: bool)
    ensures
        final(out)@ == old(out)@ + json_bool(b),
{
    if b {
        push_lit(out, "true");
    } else {
        push_lit(out, "false");
    }
}

} // verus!
