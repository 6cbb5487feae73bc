use vstd::prelude::*;

verus! {

/// Number of bytes in a version-one BitTorrent info-hash.
pub const INFO_HASH_LEN: usize = 20;

/// Number of hexadecimal characters that encode an info-hash.
pub const INFO_HASH_HEX_LEN: usize = 40;

/// True for `0-9`, `a-f` and `A-F`.
pub open spec fn is_hex_digit(c: char) -> bool {
    ('0' <= c && c <= '9') || ('a' <= c && c <= 'f') || ('A' <= c && c <= 'F')
}

/// The value of a hexadecimal digit, in either letter case.
pub open spec fn hex_value(c: char) -> int {
    if '0' <= c && c <= '9' {
        c as int - '0' as int
    } else if 'a' <= c && c <= 'f' {
        c as int - 'a' as int + 10
    } else {
        c as int - 'A' as int + 10
    }
}

/// The lowercase hexadecimal digit for a value below sixteen.
pub open spec fn hex_char(v: int) -> char {
    if v < 10 {
        ((v + '0' as int) as u8) as char
    } else {
        ((v - 10 + 'a' as int) as u8) as char
    }
}

/// ASCII lowercasing of one character; other characters are kept.
pub open spec fn ascii_lower(c: char) -> char {
    if 'A' <= c && c <= 'Z' {
        ((c as int + 32) as u8) as char
    } else {
        c
    }
}

/// ASCII lowercasing of a whole text.
pub open spec fn ascii_lower_text(s: Seq<char>) -> Seq<char> {
    Seq::new(s.len(), |i: int| ascii_lower(s[i]))
}

/// Exactly forty hexadecimal digits, in any letter case.
pub open spec fn is_info_hash_text(s: Seq<char>) -> bool {
    s.len() == INFO_HASH_HEX_LEN && forall|i: int| 0 <= i < s.len() ==> #[trigger] is_hex_digit(s[i])
}

/// The bytes denoted by a text of hexadecimal digit pairs, high nibble first.
pub open spec fn bytes_of_hex(s: Seq<char>) -> Seq<u8> {
    Seq::new(s.len() / 2, |i: int| (hex_value(s[2 * i]) * 16 + hex_value(s[2 * i + 1])) as u8)
}

/// The lowercase hexadecimal text of a byte sequence, high nibble first.
pub open spec fn hex_of_bytes(b: Seq<u8>) -> Seq<char> {
    Seq::new(
        2 * b.len(),
        |i: int|
            if i % 2 == 0 {
                hex_char(b[i / 2] as int / 16)
            } else {
                hex_char(b[i / 2] as int % 16)
            },
    )
}

/// A hexadecimal digit, written back from its value, is the digit in lowercase.
proof fn lemma_digit_round_trip(c: char)
    requires
        is_hex_digit(c),
    ensures
        0 <= hex_value(c) < 16,
        hex_char(hex_value(c)) == ascii_lower(c),
{
}

/// Any text of forty hexadecimal digits parses, and the parsed info-hash
/// writes back as the same text in lowercase.
pub proof fn lemma_parse_then_hex(s: Seq<char>)
    requires
        is_info_hash_text(s),
    ensures
        bytes_of_hex(s).len() == INFO_HASH_LEN,
        hex_of_bytes(bytes_of_hex(s)) == ascii_lower_text(s),
{
    let b = bytes_of_hex(s);
    assert forall|i: int| 0 <= i < s.len() implies #[trigger] hex_of_bytes(b)[i] == ascii_lower_text(
        s,
    )[i] by {
        let k = i / 2;
        let h = hex_value(s[2 * k]);
        let l = hex_value(s[2 * k + 1]);
        lemma_digit_round_trip(s[2 * k]);
        lemma_digit_round_trip(s[2 * k + 1]);
        assert(0 <= h * 16 + l < 256) by (nonlinear_arith)
            requires
                0 <= h < 16,
                0 <= l < 16,
        ;
        assert((h * 16 + l) / 16 == h && (h * 16 + l) % 16 == l) by (nonlinear_arith)
            requires
                0 <= h < 16,
                0 <= l < 16,
        ;
        assert(b[k] as int == h * 16 + l);
    }
    assert(hex_of_bytes(b) =~= ascii_lower_text(s));
}

/// The error of parsing a text that is not forty hexadecimal digits.
#[derive(Clone, Copy, Debug, PartialEq, Eq)]
pub struct InvalidFormat;

/// A version-one BitTorrent info-hash: twenty bytes.
#[derive(Debug, PartialEq, Eq, Hash)]
pub struct InfoHash {
    bytes: Vec<u8>,
}

impl View for InfoHash {
    type V = Seq<u8>;

    closed spec fn view(&self) -> Seq<u8> {
        self.bytes@
    }
}

impl Clone for InfoHash {
    fn clone(&self) -> (r: Self)
        ensures
            r@ == self@,
    {
        proof {
            use_type_invariant(self);
        }
        InfoHash { bytes: self.bytes.clone() }
    }
}

/// Appends one character to a string.
/// Relies on `String::push`: the character is added at the end.
#[verifier::external_body]
pub(crate) fn push_char(s: &mut String, c: char)
    ensures
        final(s)@ == old(s)@.push(c),
{
    s.push(c)
}

/// The value of `c` as a hexadecimal digit, or `None` when it is not one.
fn digit_value(c: char) -> (r: Option<u8>)
    ensures
        r is Some <==> is_hex_digit(c),
        r is Some ==> r->0 as int == hex_value(c) && r->0 < 16,
{
    if '0' <= c && c <= '9' {
        Some((c as u32 - '0' as u32) as u8)
    } else if 'a' <= c && c <= 'f' {
        Some((c as u32 - 'a' as u32 + 10) as u8)
    } else if 'A' <= c && c <= 'F' {
        Some((c as u32 - 'A' as u32 + 10) as u8)
    } else {
        None
    }
}

/// The lowercase hexadecimal digit for `v`.
fn digit_char(v: u8) -> (r: char)
    requires
        v < 16,
    ensures
        r == hex_char(v as int),
{
    if v < 10 {
        (v + 48) as char
    } else {
        (v - 10 + 97) as char
    }
}

impl InfoHash {
    #[verifier::type_invariant]
    spec fn well_formed(self) -> bool {
        self.bytes@.len() == INFO_HASH_LEN
    }

    /// Parses forty hexadecimal digits in any letter case; anything else is refused.
    pub fn from_str(s: &str) -> (r: Result<InfoHash, InvalidFormat>)
        ensures
            r is Ok <==> is_info_hash_text(s@),
            r is Ok ==> r->Ok_0@ == bytes_of_hex(s@),
    {
        let n = s.unicode_len();
        if n != INFO_HASH_HEX_LEN {
            return Err(InvalidFormat);
        }
        let mut bytes: Vec<u8> = Vec::new();
        let mut i: usize = 0;
        while i < INFO_HASH_LEN
            invariant
                n == s@.len(),
                n == INFO_HASH_HEX_LEN,
                i <= INFO_HASH_LEN,
                bytes@.len() == i,
                forall|j: int| 0 <= j < 2 * i ==> #[trigger] is_hex_digit(s@[j]),
                forall|j: int|
                    0 <= j < i ==> #[trigger] bytes@[j] == (hex_value(s@[2 * j]) * 16 + hex_value(
                        s@[2 * j + 1],
                    )) as u8,
            decreases INFO_HASH_LEN - i,
        {
            let hi = digit_value(s.get_char(2 * i));
            let lo = digit_value(s.get_char(2 * i + 1));
            match (hi, lo) {
                (Some(h), Some(l)) => {
                    bytes.push(h * 16 + l);
                },
                _ => {
                    proof {
                        let k: int = if hi is None { 2 * i as int } else { 2 * i as int + 1 };
                        assert(!is_hex_digit(s@[k]));
                    }
                    return Err(InvalidFormat);
                },
            }
            i = i + 1;
        }
        assert(bytes@ =~= bytes_of_hex(s@));
        Ok(InfoHash { bytes })
    }

    /// The twenty bytes of the info-hash.
    pub fn as_bytes(&self) -> (r: &[u8])
        ensures
            r@ == self@,
            r@.len() == INFO_HASH_LEN,
    {
        proof {
            use_type_invariant(self);
        }
        self.bytes.as_slice()
    }

    /// Whether the two info-hashes hold the same bytes.
    pub fn same_as(&self, other: &InfoHash) -> (r: bool)
        ensures
            r == (self@ == other@),
    {
        proof {
            use_type_invariant(self);
            use_type_invariant(other);
        }
        let mut i: usize = 0;
        while i < INFO_HASH_LEN
            invariant
                self.bytes@.len() == INFO_HASH_LEN,
                other.bytes@.len() == INFO_HASH_LEN,
                i <= INFO_HASH_LEN,
                forall|j: int| 0 <= j < i ==> self.bytes@[j] == other.bytes@[j],
            decreases INFO_HASH_LEN - i,
        {
            if self.bytes[i] != other.bytes[i] {
                assert(self.bytes@[i as int] != other.bytes@[i as int]);
                return false;
            }
            i = i + 1;
        }
        assert(self.bytes@ =~= other.bytes@);
        true
    }

    /// The forty lowercase hexadecimal digits of the info-hash.
    pub fn to_hex_string(&self) -> (r: String)
        ensures
            r@ == hex_of_bytes(self@),
            r@.len() == INFO_HASH_HEX_LEN,
    {
        proof {
            use_type_invariant(self);
        }
        let mut r = String::new();
        let mut i: usize = 0;
        while i < self.bytes.len()
            invariant
                self.bytes@.len() == INFO_HASH_LEN,
                i <= self.bytes@.len(),
                r@ =~= hex_of_bytes(self.bytes@.subrange(0, i as int)),
            decreases self.bytes@.len() - i,
        {
            let b = self.bytes[i];
            push_char(&mut r, digit_char(b / 16));
            push_char(&mut r, digit_char(b % 16));
            proof {
                assert(hex_of_bytes(self.bytes@.subrange(0, i + 1)) =~= hex_of_bytes(
                    self.bytes@.subrange(0, i as int),
                ).push(hex_char(b as int / 16)).push(hex_char(b as int % 16)));
            }
            i = i + 1;
        }
        assert(self.bytes@.subrange(0, i as int) =~= self.bytes@);
        r
    }
}

} // verus!
