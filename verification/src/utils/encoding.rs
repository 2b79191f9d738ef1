use vstd::prelude::*;

verus! {

/// The 64 characters of the standard base64 alphabet, in value order.
pub open spec fn b64_alphabet() -> Seq<char> {
    seq!['A', 'B', 'C', 'D', 'E', 'F', 'G', 'H', 'I', 'J', 'K', 'L', 'M', 'N', 'O', 'P', 'Q', 'R', 'S', 'T', 'U', 'V', 'W', 'X', 'Y', 'Z', 'a', 'b', 'c', 'd', 'e', 'f', 'g', 'h', 'i', 'j', 'k', 'l', 'm', 'n', 'o', 'p', 'q', 'r', 's', 't', 'u', 'v', 'w', 'x', 'y', 'z', '0', '1', '2', '3', '4', '5', '6', '7', '8', '9', '+', '/']
}

/// The four characters that encode one full 3-byte group.
pub open spec fn b64_group(b0: u8, b1: u8, b2: u8) -> Seq<char> {
    seq![
        b64_alphabet()[(b0 >> 2) as int],
        b64_alphabet()[(((b0 & 3) << 4) | (b1 >> 4)) as int],
        b64_alphabet()[(((b1 & 15) << 2) | (b2 >> 6)) as int],
        b64_alphabet()[(b2 & 63) as int],
    ]
}

/// The standard base64 encoding of a byte sequence: full 3-byte groups,
/// then a padded tail of one or two bytes.
pub open spec fn base64_of(bytes: Seq<u8>) -> Seq<char>
    decreases bytes.len(),
{
    if bytes.len() == 0 {
        Seq::empty()
    } else if bytes.len() == 1 {
        seq![
            b64_alphabet()[(bytes[0] >> 2) as int],
            b64_alphabet()[((bytes[0] & 3) << 4) as int],
            '=',
            '=',
        ]
    } else if bytes.len() == 2 {
        seq![
            b64_alphabet()[(bytes[0] >> 2) as int],
            b64_alphabet()[(((bytes[0] & 3) << 4) | (bytes[1] >> 4)) as int],
            b64_alphabet()[((bytes[1] & 15) << 2) as int],
            '=',
        ]
    } else {
        b64_group(bytes[0], bytes[1], bytes[2]) + base64_of(bytes.skip(3))
    }
}

/// The character of one base64 value.
fn b64_char(v: u8) -> (r: char)
    requires
        v < 64,
    ensures
        r == b64_alphabet()[v as int],
{
    if v == 0 {
        'A'
        } else if v == 1 {
            'B'
        } else if v == 2 {
            'C'
        } else if v == 3 {
            'D'
        } else if v == 4 {
            'E'
        } else if v == 5 {
            'F'
        } else if v == 6 {
            'G'
        } else if v == 7 {
            'H'
        } else if v == 8 {
            'I'
        } else if v == 9 {
            'J'
        } else if v == 10 {
            'K'
        } else if v == 11 {
            'L'
        } else if v == 12 {
            'M'
        } else if v == 13 {
            'N'
        } else if v == 14 {
            'O'
        } else if v == 15 {
            'P'
        } else if v == 16 {
            'Q'
        } else if v == 17 {
            'R'
        } else if v == 18 {
            'S'
        } else if v == 19 {
            'T'
        } else if v == 20 {
            'U'
        } else if v == 21 {
            'V'
        } else if v == 22 {
            'W'
        } else if v == 23 {
            'X'
        } else if v == 24 {
            'Y'
        } else if v == 25 {
            'Z'
        } else if v == 26 {
            'a'
        } else if v == 27 {
            'b'
        } else if v == 28 {
            'c'
        } else if v == 29 {
            'd'
        } else if v == 30 {
            'e'
        } else if v == 31 {
            'f'
        } else if v == 32 {
            'g'
        } else if v == 33 {
            'h'
        } else if v == 34 {
            'i'
        } else if v == 35 {
            'j'
        } else if v == 36 {
            'k'
        } else if v == 37 {
            'l'
        } else if v == 38 {
            'm'
        } else if v == 39 {
            'n'
        } else if v == 40 {
            'o'
        } else if v == 41 {
            'p'
        } else if v == 42 {
            'q'
        } else if v == 43 {
            'r'
        } else if v == 44 {
            's'
        } else if v == 45 {
            't'
        } else if v == 46 {
            'u'
        } else if v == 47 {
            'v'
        } else if v == 48 {
            'w'
        } else if v == 49 {
            'x'
        } else if v == 50 {
            'y'
        } else if v == 51 {
            'z'
        } else if v == 52 {
            '0'
        } else if v == 53 {
            '1'
        } else if v == 54 {
            '2'
        } else if v == 55 {
            '3'
        } else if v == 56 {
            '4'
        } else if v == 57 {
            '5'
        } else if v == 58 {
            '6'
        } else if v == 59 {
            '7'
        } else if v == 60 {
            '8'
        } else if v == 61 {
            '9'
        } else if v == 62 {
            '+'
        } else if v == 63 {
            '/'
        } else {
            '/'
        }
}

/// The decimal digits of a non-negative number, most significant first.
pub open spec fn dec_of(n: int) -> Seq<char>
    decreases n,
{
    if n < 10 {
        seq![dec_digit(n)]
    } else {
        dec_of(n / 10).push(dec_digit(n % 10))
    }
}

/// The character of one decimal digit.
pub open spec fn dec_digit(d: int) -> char {
    if d == 0 {
        '0'
    } else if d == 1 {
        '1'
    } else if d == 2 {
        '2'
    } else if d == 3 {
        '3'
    } else if d == 4 {
        '4'
    } else if d == 5 {
        '5'
    } else if d == 6 {
        '6'
    } else if d == 7 {
        '7'
    } else if d == 8 {
        '8'
    } else {
        '9'
    }
}

/// The character of one decimal digit value.
fn dec_digit_char(d: u64) -> (r: char)
    requires
        d < 10,
    ensures
        r == dec_digit(d as int),
{
    if d == 0 {
        '0'
    } else if d == 1 {
        '1'
    } else if d == 2 {
        '2'
    } else if d == 3 {
        '3'
    } else if d == 4 {
        '4'
    } else if d == 5 {
        '5'
    } else if d == 6 {
        '6'
    } else if d == 7 {
        '7'
    } else if d == 8 {
        '8'
    } else if d == 9 {
        '9'
    } else {
        '9'
    }
}

/// Relies on String::push: appends exactly the given character.
#[verifier::external_body]
fn push_char(s: &mut String, c: char)
    ensures
        final(s)@ == old(s)@.push(c),
{
    s.push(c);
}

/// Encode bytes with the standard base64 alphabet and padding.
#[verifier::loop_isolation(false)]
pub fn base64_encode_standard(data: &[u8]) -> (r: String)
    ensures
        r@ == base64_of(data@),
{
    let mut out = String::new();
    let mut i: usize = 0;
    proof {
        assert(data@.skip(0) =~= data@);
    }
    while data.len() - i >= 3
        invariant
            i <= data@.len(),
            out@ + base64_of(data@.skip(i as int)) == base64_of(data@),
        decreases data@.len() - i,
    {
        let ghost suffix = data@.skip(i as int);
        let b0 = data[i];
        let b1 = data[i + 1];
        let b2 = data[i + 2];
        proof {
            assert(suffix[0] == b0 && suffix[1] == b1 && suffix[2] == b2);
            assert((b0 >> 2) < 64 && (((b0 & 3) << 4) | (b1 >> 4)) < 64 && (((b1 & 15) << 2) | (b2
                >> 6)) < 64 && (b2 & 63) < 64) by (bit_vector);
        }
        push_char(&mut out, b64_char(b0 >> 2));
        push_char(&mut out, b64_char(((b0 & 3) << 4) | (b1 >> 4)));
        push_char(&mut out, b64_char(((b1 & 15) << 2) | (b2 >> 6)));
        push_char(&mut out, b64_char(b2 & 63));
        i = i + 3;
        proof {
            assert(data@.skip(i as int) =~= suffix.skip(3));
            assert(base64_of(suffix) == b64_group(b0, b1, b2) + base64_of(suffix.skip(3)));
            assert(out@ + base64_of(data@.skip(i as int)) =~= base64_of(data@));
        }
    }
    let remaining = data.len() - i;
    let ghost suffix = data@.skip(i as int);
    if remaining == 1 {
        let b0 = data[i];
        proof {
            assert(suffix[0] == b0);
            assert((b0 >> 2) < 64 && ((b0 & 3) << 4) < 64) by (bit_vector);
        }
        push_char(&mut out, b64_char(b0 >> 2));
        push_char(&mut out, b64_char((b0 & 3) << 4));
        push_char(&mut out, '=');
        push_char(&mut out, '=');
        proof {
            assert(out@ =~= base64_of(data@));
        }
    } else if remaining == 2 {
        let b0 = data[i];
        let b1 = data[i + 1];
        proof {
            assert(suffix[0] == b0 && suffix[1] == b1);
            assert((b0 >> 2) < 64 && (((b0 & 3) << 4) | (b1 >> 4)) < 64 && ((b1 & 15) << 2) < 64)
                by (bit_vector);
        }
        push_char(&mut out, b64_char(b0 >> 2));
        push_char(&mut out, b64_char(((b0 & 3) << 4) | (b1 >> 4)));
        push_char(&mut out, b64_char((b1 & 15) << 2));
        push_char(&mut out, '=');
        proof {
            assert(out@ =~= base64_of(data@));
        }
    } else {
        proof {
            assert(suffix =~= Seq::<u8>::empty());
            assert(out@ =~= base64_of(data@));
        }
    }
    out
}

/// Render a number in decimal.
#[verifier::loop_isolation(false)]
pub fn u64_to_decimal(value: u64) -> (r: String)
    ensures
        r@ == dec_of(value as int),
{
    let mut digits: Vec<char> = Vec::new();
    let ghost full = dec_of(value as int);
    let mut rest = value;
    if value < 10 {
        let mut out = String::new();
        push_char(&mut out, dec_digit_char(value));
        return out;
    }
    while rest > 0
        invariant
            rest > 0 ==> dec_of(rest as int) == full.take(full.len() - digits@.len()),
            rest == 0 ==> digits@.len() == full.len(),
            digits@.len() <= full.len(),
            forall|k: int|
                0 <= k < digits@.len() ==> digits@[k] == full[full.len() - 1 - k],
        decreases rest,
    {
        let ghost m = full.len() - digits@.len();
        let d = rest % 10;
        proof {
            if rest >= 10 {
                let x = dec_of(rest as int / 10);
                let d0 = dec_digit(rest as int % 10);
                assert(dec_of(rest as int) == x.push(d0));
                assert(x.push(d0) == full.take(m as int));
                assert(full.take(m as int).len() == m);
                assert(x.len() == m - 1);
                assert(x.push(d0)[m - 1] == d0);
                assert(full.take(m as int)[m - 1] == full[m - 1]);
                assert(full[m - 1] == d0);
                assert(x =~= full.take(m as int).take(m - 1));
                assert(full.take(m as int).take(m - 1) =~= full.take(m - 1));
            } else {
                assert(dec_of(rest as int) == seq![dec_digit(rest as int)]);
                assert(full.take(m as int).len() == m);
                assert(m == 1);
                assert(full.take(1)[0] == full[0]);
                assert(seq![dec_digit(rest as int)][0] == dec_digit(rest as int));
                assert(full[0] == dec_digit(rest as int));
            }
        }
        digits.push(dec_digit_char(d));
        rest = rest / 10;
    }
    let mut out = String::new();
    let mut j = digits.len();
    while j > 0
        invariant
            j <= digits@.len(),
            out@.len() == digits@.len() - j,
            forall|k: int| 0 <= k < out@.len() ==> out@[k] == full[k],
        decreases j,
    {
        j = j - 1;
        push_char(&mut out, digits[j]);
    }
    proof {
        assert(out@ =~= full);
    }
    out
}

} // verus!
