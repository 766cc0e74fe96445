use vstd::prelude::*;

verus! {

/// The lowercase hexadecimal digit for a value below sixteen.
pub open spec fn hex_digit(n: u8) -> char
    recommends
        n < 16,
{
    if n == 0 {
        '0'
    } else if n == 1 {
        '1'
    } else if n == 2 {
        '2'
    } else if n == 3 {
        '3'
    } else if n == 4 {
        '4'
    } else if n == 5 {
        '5'
    } else if n == 6 {
        '6'
    } else if n == 7 {
        '7'
    } else if n == 8 {
        '8'
    } else if n == 9 {
        '9'
    } else if n == 10 {
        'a'
    } else if n == 11 {
        'b'
    } else if n == 12 {
        'c'
    } else if n == 13 {
        'd'
    } else if n == 14 {
        'e'
    } else {
        'f'
    }
}

/// The two lowercase hexadecimal digits of one byte, high nibble first.
pub open spec fn hex_pair(b: u8) -> Seq<char> {
    seq![hex_digit(b / 16), hex_digit(b % 16)]
}

/// The sixteen entropy bytes with the version and variant bits forced:
/// the high nibble of byte six becomes 4, the two high bits of byte eight
/// become the binary pattern one-zero.
pub open spec fn v4_masked(e: Seq<u8>) -> Seq<u8>
    recommends
        e.len() == 16,
{
    e.update(6, (e[6] & 0x0f) | 0x40).update(8, (e[8] & 0x3f) | 0x80)
}

/// The canonical textual form of the identifier allocated from sixteen
/// entropy bytes: lowercase hexadecimal in five hyphen-separated groups of
/// 8, 4, 4, 4 and 12 digits.
pub open spec fn uuid_of(e: Seq<u8>) -> Seq<char>
    recommends
        e.len() == 16,
{
    let b = v4_masked(e);
    hex_pair(b[0]) + hex_pair(b[1]) + hex_pair(b[2]) + hex_pair(b[3]) + seq!['-'] + hex_pair(b[4])
        + hex_pair(b[5]) + seq!['-'] + hex_pair(b[6]) + hex_pair(b[7]) + seq!['-'] + hex_pair(b[8])
        + hex_pair(b[9]) + seq!['-'] + hex_pair(b[10]) + hex_pair(b[11]) + hex_pair(b[12])
        + hex_pair(b[13]) + hex_pair(b[14]) + hex_pair(b[15])
}

/// A lowercase hexadecimal digit.
pub open spec fn is_lower_hex(c: char) -> bool {
    (48 <= c as u32 && c as u32 <= 57) || (97 <= c as u32 && c as u32 <= 102)
}

/// The shape of a version-4 identifier: 36 characters, hyphens at positions
/// 8, 13, 18 and 23, the version digit 4 at position 14, a variant digit
/// among 8, 9, a, b at position 19, and lowercase hexadecimal digits
/// everywhere else.
pub open spec fn is_uuid_v4(s: Seq<char>) -> bool {
    &&& s.len() == 36
    &&& s[8] == '-' && s[13] == '-' && s[18] == '-' && s[23] == '-'
    &&& s[14] == '4'
    &&& (s[19] == '8' || s[19] == '9' || s[19] == 'a' || s[19] == 'b')
    &&& forall|i: int|
        0 <= i < 36 && i != 8 && i != 13 && i != 18 && i != 23 ==> is_lower_hex(#[trigger] s[i])
}

proof fn lemma_hex_digit_is_hex(n: u8)
    requires
        n < 16,
    ensures
        is_lower_hex(hex_digit(n)),
{
}

/// Appends one lowercase hexadecimal digit to a string.
fn append_hex_digit(s: &mut String, n: u8)
    requires
        n < 16,
    ensures
        final(s)@ == old(s)@ + seq![hex_digit(n)],
{
    let digits = "0123456789abcdef";
    proof {
        reveal_strlit("0123456789abcdef");
    }
    let d = digits.substring_char(n as usize, n as usize + 1);
    proof {
        assert(d@ =~= seq![hex_digit(n)]);
    }
    s.append(d);
    proof {
        assert(final(s)@ =~= old(s)@ + seq![hex_digit(n)]);
    }
}

/// Appends the two hexadecimal digits of one byte, high nibble first.
fn append_hex_pair(s: &mut String, b: u8)
    ensures
        final(s)@ == old(s)@ + hex_pair(b),
{
    append_hex_digit(s, b / 16);
    append_hex_digit(s, b % 16);
    proof {
        assert(final(s)@ =~= old(s)@ + hex_pair(b));
    }
}

/// Appends one hyphen.
fn append_hyphen(s: &mut String)
    ensures
        final(s)@ == old(s)@ + seq!['-'],
{
    proof {
        reveal_strlit("-");
    }
    s.append("-");
    proof {
        assert(final(s)@ =~= old(s)@ + seq!['-']);
    }
}

/// Produces a fresh local identifier from sixteen bytes of entropy: a pure
/// function of the entropy, never failing and touching nothing else. The
/// caller draws the entropy from a cryptographically adequate source;
/// collisions within the scale of a single-user store are treated as
/// negligible and are not checked here, but every store operation that
/// persists a fresh identifier still surfaces a uniqueness violation as an
/// identity conflict rather than overwriting anything.
pub fn allocate(entropy: &[u8; 16]) -> (r: String)
    ensures
        r@ == uuid_of(entropy@),
        is_uuid_v4(r@),
{
    let mut s = String::new();
    let b6: u8 = (entropy[6] & 0x0f) | 0x40;
    let b8: u8 = (entropy[8] & 0x3f) | 0x80;
    proof {
        assert(s@ =~= Seq::<char>::empty());
        assert(b6 == v4_masked(entropy@)[6]);
        assert(b8 == v4_masked(entropy@)[8]);
    }
    append_hex_pair(&mut s, entropy[0]);
    proof {
        assert(s@ =~= hex_pair(v4_masked(entropy@)[0]));
    }
    append_hex_pair(&mut s, entropy[1]);
    append_hex_pair(&mut s, entropy[2]);
    append_hex_pair(&mut s, entropy[3]);
    append_hyphen(&mut s);
    append_hex_pair(&mut s, entropy[4]);
    append_hex_pair(&mut s, entropy[5]);
    append_hyphen(&mut s);
    append_hex_pair(&mut s, b6);
    append_hex_pair(&mut s, entropy[7]);
    append_hyphen(&mut s);
    append_hex_pair(&mut s, b8);
    append_hex_pair(&mut s, entropy[9]);
    append_hyphen(&mut s);
    append_hex_pair(&mut s, entropy[10]);
    append_hex_pair(&mut s, entropy[11]);
    append_hex_pair(&mut s, entropy[12]);
    append_hex_pair(&mut s, entropy[13]);
    append_hex_pair(&mut s, entropy[14]);
    append_hex_pair(&mut s, entropy[15]);
    proof {
        assert(s@ == uuid_of(entropy@));
        lemma_uuid_of_shape(entropy@);
    }
    s
}

/// The identifier allocated from any sixteen entropy bytes has the
/// version-4 shape.
pub proof fn lemma_uuid_of_shape(e: Seq<u8>)
    requires
        e.len() == 16,
    ensures
        is_uuid_v4(uuid_of(e)),
{
    let b = v4_masked(e);
    let s = uuid_of(e);
    assert(b[6] == (e[6] & 0x0f) | 0x40);
    assert(b[8] == (e[8] & 0x3f) | 0x80);
    assert(b[6] / 16 == 4 && b[8] / 16 >= 8 && b[8] / 16 <= 11) by {
        let x = e[6];
        let y = e[8];
        assert(((x & 0x0f) | 0x40) / 16 == 4) by (bit_vector);
        assert(((y & 0x3f) | 0x80) / 16 >= 8 && ((y & 0x3f) | 0x80) / 16 <= 11) by (bit_vector);
    }
    assert(s.len() == 36);
    assert(s[8] == '-' && s[13] == '-' && s[18] == '-' && s[23] == '-');
    assert(s[14] == hex_digit(b[6] / 16));
    assert(s[19] == hex_digit(b[8] / 16));
    assert forall|i: int|
        0 <= i < 36 && i != 8 && i != 13 && i != 18 && i != 23 implies is_lower_hex(
        #[trigger] s[i],
    ) by {
        assert forall|k: u8| k < 16 implies is_lower_hex(#[trigger] hex_digit(k)) by {
            lemma_hex_digit_is_hex(k);
        }
    }
}

} // verus!
