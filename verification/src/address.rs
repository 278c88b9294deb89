//! Account addresses: parsing the textual form a caller submits and
//! rendering the canonical hex-literal form used as the set member key.
//!
//! An address is a fixed-width byte string. The parser accepts exactly two
//! shapes: a `0x`-prefixed hex literal of at most the full width, which is
//! left-padded with zeros, and an unprefixed string of exactly the full
//! width in hex digits. The canonical form is the `0x`-prefixed lower-case
//! literal with leading zeros trimmed (the zero address renders as `0x0`).

use vstd::prelude::*;

verus! {

/// Number of bytes in an account address.
pub const ADDRESS_LENGTH: usize = 16;

/// Number of hex digits that spell out a full account address.
pub const ADDRESS_HEX_LENGTH: usize = 32;

/// True for the characters that denote a hex digit, in either case.
pub open spec fn is_hex_digit(c: char) -> bool {
    ('0' <= c && c <= '9') || ('a' <= c && c <= 'f') || ('A' <= c && c <= 'F')
}

/// The numeric value denoted by a hex digit.
pub open spec fn hex_digit_value(c: char) -> int {
    if '0' <= c && c <= '9' {
        c as int - '0' as int
    } else if 'a' <= c && c <= 'f' {
        c as int - 'a' as int + 10
    } else {
        c as int - 'A' as int + 10
    }
}

/// The lower-case hex digit that denotes a nibble value.
pub open spec fn hex_char_of(v: int) -> char {
    if v == 0 {
        '0'
    } else if v == 1 {
        '1'
    } else if v == 2 {
        '2'
    } else if v == 3 {
        '3'
    } else if v == 4 {
        '4'
    } else if v == 5 {
        '5'
    } else if v == 6 {
        '6'
    } else if v == 7 {
        '7'
    } else if v == 8 {
        '8'
    } else if v == 9 {
        '9'
    } else if v == 10 {
        'a'
    } else if v == 11 {
        'b'
    } else if v == 12 {
        'c'
    } else if v == 13 {
        'd'
    } else if v == 14 {
        'e'
    } else {
        'f'
    }
}

/// True when every character of `s` is a hex digit.
pub open spec fn all_hex_digits(s: Seq<char>) -> bool {
    forall|i: int| 0 <= i < s.len() ==> is_hex_digit(#[trigger] s[i])
}

/// The bytes denoted by a sequence of hex digits of even length.
pub open spec fn bytes_of_hex_digits(s: Seq<char>) -> Seq<u8> {
    Seq::new(
        s.len() / 2,
        |i: int| (16 * hex_digit_value(s[2 * i]) + hex_digit_value(s[2 * i + 1])) as u8,
    )
}

/// `s` left-padded with `'0'` up to the full address width.
pub open spec fn zero_padded(s: Seq<char>) -> Seq<char> {
    Seq::new((ADDRESS_HEX_LENGTH - s.len()) as nat, |i: int| '0') + s
}

/// True when `s` begins with the literal prefix `0x`.
pub open spec fn has_hex_prefix(s: Seq<char>) -> bool {
    s.len() >= 2 && s[0] == '0' && s[1] == 'x'
}

/// The bytes an address string denotes, or `None` when the string is not a
/// valid address. A `0x`-prefixed literal may be short and is left-padded;
/// an unprefixed string must spell out the full width.
pub open spec fn spec_parse_address(s: Seq<char>) -> Option<Seq<u8>> {
    if has_hex_prefix(s) && s.len() <= ADDRESS_HEX_LENGTH + 2 && all_hex_digits(s.skip(2)) {
        Some(bytes_of_hex_digits(zero_padded(s.skip(2))))
    } else if s.len() == ADDRESS_HEX_LENGTH && all_hex_digits(s) {
        Some(bytes_of_hex_digits(s))
    } else {
        None
    }
}

/// The full (untrimmed) lower-case hex spelling of a byte string.
pub open spec fn hex_digits_of_bytes(b: Seq<u8>) -> Seq<char> {
    Seq::new(
        2 * b.len(),
        |i: int|
            if i % 2 == 0 {
                hex_char_of(b[i / 2] as int / 16)
            } else {
                hex_char_of(b[i / 2] as int % 16)
            },
    )
}

/// `s` with every leading `'0'` removed.
pub open spec fn trim_leading_zeros(s: Seq<char>) -> Seq<char>
    decreases s.len(),
{
    if s.len() > 0 && s[0] == '0' {
        trim_leading_zeros(s.skip(1))
    } else {
        s
    }
}

/// The canonical textual form of an address: `0x` followed by the hex
/// spelling with leading zeros trimmed; the zero address reads `0x0`.
pub open spec fn spec_hex_literal(b: Seq<u8>) -> Seq<char> {
    let digits = trim_leading_zeros(hex_digits_of_bytes(b));
    if digits.len() == 0 {
        seq!['0', 'x', '0']
    } else {
        seq!['0', 'x'] + digits
    }
}

/// Rejection of a string that does not spell an address.
#[derive(Clone, Copy, Debug, PartialEq, Eq, Structural)]
pub enum ValidationError {
    CouldNotParseAddress,
}

/// A fixed-width account address.
#[derive(Debug, PartialEq, Eq)]
pub struct AccountAddress {
    bytes: Vec<u8>,
}

impl View for AccountAddress {
    type V = Seq<u8>;

    closed spec fn view(&self) -> Seq<u8> {
        self.bytes@
    }
}

/// The numeric value of a hex digit, or `None` for any other character.
pub fn hex_value(c: char) -> (r: Option<u8>)
    ensures
        r is Some <==> is_hex_digit(c),
        r is Some ==> r->Some_0 == hex_digit_value(c) && r->Some_0 < 16,
{
    if '0' <= c && c <= '9' {
        Some(c as u8 - '0' as u8)
    } else if 'a' <= c && c <= 'f' {
        Some(c as u8 - 'a' as u8 + 10)
    } else if 'A' <= c && c <= 'F' {
        Some(c as u8 - 'A' as u8 + 10)
    } else {
        None
    }
}

/// The lower-case hex digit that denotes a nibble value.
pub fn hex_char_str(v: u8) -> (r: &'static str)
    requires
        v < 16,
    ensures
        r@ == seq![hex_char_of(v as int)],
{
    if v == 0 {
        proof {
            reveal_strlit("0");
            assert("0"@ =~= seq!['0']);
        }
        "0"
    } else if v == 1 {
        proof {
            reveal_strlit("1");
            assert("1"@ =~= seq!['1']);
        }
        "1"
    } else if v == 2 {
        proof {
            reveal_strlit("2");
            assert("2"@ =~= seq!['2']);
        }
        "2"
    } else if v == 3 {
        proof {
            reveal_strlit("3");
            assert("3"@ =~= seq!['3']);
        }
        "3"
    } else if v == 4 {
        proof {
            reveal_strlit("4");
            assert("4"@ =~= seq!['4']);
        }
        "4"
    } else if v == 5 {
        proof {
            reveal_strlit("5");
            assert("5"@ =~= seq!['5']);
        }
        "5"
    } else if v == 6 {
        proof {
            reveal_strlit("6");
            assert("6"@ =~= seq!['6']);
        }
        "6"
    } else if v == 7 {
        proof {
            reveal_strlit("7");
            assert("7"@ =~= seq!['7']);
        }
        "7"
    } else if v == 8 {
        proof {
            reveal_strlit("8");
            assert("8"@ =~= seq!['8']);
        }
        "8"
    } else if v == 9 {
        proof {
            reveal_strlit("9");
            assert("9"@ =~= seq!['9']);
        }
        "9"
    } else if v == 10 {
        proof {
            reveal_strlit("a");
            assert("a"@ =~= seq!['a']);
        }
        "a"
    } else if v == 11 {
        proof {
            reveal_strlit("b");
            assert("b"@ =~= seq!['b']);
        }
        "b"
    } else if v == 12 {
        proof {
            reveal_strlit("c");
            assert("c"@ =~= seq!['c']);
        }
        "c"
    } else if v == 13 {
        proof {
            reveal_strlit("d");
            assert("d"@ =~= seq!['d']);
        }
        "d"
    } else if v == 14 {
        proof {
            reveal_strlit("e");
            assert("e"@ =~= seq!['e']);
        }
        "e"
    } else {
        proof {
            reveal_strlit("f");
            assert("f"@ =~= seq!['f']);
        }
        "f"
    }
}

/// The bytes spelled by a full-width sequence of hex digits.
fn decode_hex_digits(digits: &Vec<char>) -> (bytes: Vec<u8>)
    requires
        digits@.len() == ADDRESS_HEX_LENGTH,
        all_hex_digits(digits@),
    ensures
        bytes@ == bytes_of_hex_digits(digits@),
{
    let mut bytes: Vec<u8> = Vec::new();
    let mut i: usize = 0;
    while i < ADDRESS_LENGTH
        invariant
            i <= ADDRESS_LENGTH,
            digits@.len() == ADDRESS_HEX_LENGTH,
            all_hex_digits(digits@),
            bytes@.len() == i,
            forall|j: int| 0 <= j < i ==> bytes@[j] == bytes_of_hex_digits(digits@)[j],
        decreases ADDRESS_LENGTH - i,
    {
        let hi = hex_value(digits[2 * i]).unwrap();
        let lo = hex_value(digits[2 * i + 1]).unwrap();
        bytes.push(16 * hi + lo);
        i += 1;
    }
    proof {
        assert(bytes@ =~= bytes_of_hex_digits(digits@));
    }
    bytes
}

impl AccountAddress {
    /// True of every address this module hands out: the byte string has the
    /// fixed address width.
    pub open spec fn wf(&self) -> bool {
        self@.len() == ADDRESS_LENGTH
    }

    /// Parse an arbitrary string as an address, accepting exactly the
    /// strings that `spec_parse_address` accepts and returning the bytes it
    /// denotes.
    pub fn parse(raw: &str) -> (r: Result<AccountAddress, ValidationError>)
        ensures
            r is Ok <==> spec_parse_address(raw@) is Some,
            r is Ok ==> r->Ok_0.wf() && spec_parse_address(raw@) == Some(r->Ok_0@),
            r is Err ==> r->Err_0 == ValidationError::CouldNotParseAddress,
    {
        let n = raw.unicode_len();
        let prefixed = n >= 2 && raw.get_char(0) == '0' && raw.get_char(1) == 'x';
        proof {
            assert(prefixed == has_hex_prefix(raw@));
        }
        if prefixed {
            if n > ADDRESS_HEX_LENGTH + 2 {
                return Err(ValidationError::CouldNotParseAddress);
            }
        } else {
            if n != ADDRESS_HEX_LENGTH {
                return Err(ValidationError::CouldNotParseAddress);
            }
        }
        let start: usize = if prefixed {
            2
        } else {
            0
        };
        let pad: usize = ADDRESS_HEX_LENGTH - (n - start);
        let mut digits: Vec<char> = Vec::new();
        let mut i: usize = 0;
        while i < pad
            invariant
                i <= pad,
                digits@.len() == i,
                forall|j: int| 0 <= j < i ==> digits@[j] == '0',
            decreases pad - i,
        {
            digits.push('0');
            i += 1;
        }
        let mut k: usize = start;
        while k < n
            invariant
                start <= k <= n,
                start == 2 || start == 0,
                prefixed == has_hex_prefix(raw@),
                prefixed ==> start == 2,
                !prefixed ==> start == 0 && n == ADDRESS_HEX_LENGTH,
                n == raw@.len(),
                pad == ADDRESS_HEX_LENGTH - (n - start),
                digits@.len() == pad + (k - start),
                forall|j: int| 0 <= j < pad ==> digits@[j] == '0',
                forall|j: int| pad <= j < digits@.len() ==> digits@[j] == raw@[start + j - pad],
                forall|j: int| pad <= j < digits@.len() ==> is_hex_digit(#[trigger] digits@[j]),
            decreases n - k,
        {
            let c = raw.get_char(k);
            if hex_value(c).is_none() {
                proof {
                    if prefixed {
                        assert(raw@.skip(2)[k - 2] == raw@[k as int]);
                        assert(!all_hex_digits(raw@.skip(2)));
                        assert(!is_hex_digit(raw@[1]));
                        assert(!all_hex_digits(raw@));
                    } else {
                        assert(!all_hex_digits(raw@));
                    }
                }
                return Err(ValidationError::CouldNotParseAddress);
            }
            digits.push(c);
            k += 1;
        }
        proof {
            if prefixed {
                assert(digits@ =~= zero_padded(raw@.skip(2)));
                assert(all_hex_digits(raw@.skip(2))) by {
                    assert forall|j: int| 0 <= j < raw@.skip(2).len() implies is_hex_digit(
                        #[trigger] raw@.skip(2)[j],
                    ) by {
                        assert(raw@.skip(2)[j] == digits@[pad + j]);
                    }
                }
            } else {
                assert(digits@ =~= raw@);
                assert(all_hex_digits(raw@));
                assert(digits@ =~= zero_padded(raw@.skip(0)));
            }
        }
        let bytes = decode_hex_digits(&digits);
        Ok(AccountAddress { bytes })
    }

    /// The nibble at hex position `j` of the address, high nibble first.
    fn nibble(&self, j: usize) -> (v: u8)
        requires
            self.wf(),
            j < ADDRESS_HEX_LENGTH,
        ensures
            v < 16,
            hex_digits_of_bytes(self@)[j as int] == hex_char_of(v as int),
    {
        let b = self.bytes[j / 2];
        if j % 2 == 0 {
            b / 16
        } else {
            b % 16
        }
    }

    /// Render the canonical hex-literal form of the address.
    pub fn to_hex_literal(&self) -> (r: String)
        requires
            self.wf(),
        ensures
            r@ == spec_hex_literal(self@),
    {
        let ghost h = hex_digits_of_bytes(self@);
        let mut i: usize = 0;
        while i < ADDRESS_HEX_LENGTH && self.nibble(i) == 0
            invariant
                self.wf(),
                i <= ADDRESS_HEX_LENGTH,
                h == hex_digits_of_bytes(self@),
                forall|k: int| 0 <= k < i ==> h[k] == '0',
            decreases ADDRESS_HEX_LENGTH - i,
        {
            proof {
                assert(h[i as int] == hex_char_of(0));
            }
            i += 1;
        }
        let mut r = String::from_str("0x");
        proof {
            reveal_strlit("0x");
            assert(r@ =~= seq!['0', 'x']);
        }
        if i == ADDRESS_HEX_LENGTH {
            r.append("0");
            proof {
                reveal_strlit("0");
                lemma_trim_skip(h, ADDRESS_HEX_LENGTH as int);
                assert(trim_leading_zeros(h) =~= Seq::<char>::empty());
                assert(r@ =~= spec_hex_literal(self@));
            }
            r
        } else {
            proof {
                assert(h[i as int] != '0');
            }
            let mut j: usize = i;
            while j < ADDRESS_HEX_LENGTH
                invariant
                    self.wf(),
                    i <= j <= ADDRESS_HEX_LENGTH,
                    i < ADDRESS_HEX_LENGTH,
                    h == hex_digits_of_bytes(self@),
                    forall|k: int| 0 <= k < i ==> h[k] == '0',
                    h[i as int] != '0',
                    r@ == seq!['0', 'x'] + h.subrange(i as int, j as int),
                decreases ADDRESS_HEX_LENGTH - j,
            {
                let v = self.nibble(j);
                r.append(hex_char_str(v));
                proof {
                    assert(h.subrange(i as int, j + 1) =~= h.subrange(i as int, j as int).push(
                        h[j as int],
                    ));
                    assert(r@ =~= seq!['0', 'x'] + h.subrange(i as int, j + 1));
                }
                j += 1;
            }
            proof {
                lemma_trim_skip(h, i as int);
                assert(h.subrange(i as int, ADDRESS_HEX_LENGTH as int) =~= h.skip(i as int));
                assert(trim_leading_zeros(h).len() > 0);
                assert(r@ =~= spec_hex_literal(self@));
            }
            r
        }
    }

    /// The address as its byte string.
    pub fn into_bytes(self) -> (r: Vec<u8>)
        ensures
            r@ == self@,
    {
        self.bytes
    }
}

/// Trimming leading zeros is exactly skipping over a block of `'0'`
/// characters up to the first other character (or the whole string).
proof fn lemma_trim_skip(s: Seq<char>, i: int)
    requires
        0 <= i <= s.len(),
        forall|k: int| 0 <= k < i ==> s[k] == '0',
        i < s.len() ==> s[i] != '0',
    ensures
        trim_leading_zeros(s) == s.skip(i),
    decreases i,
{
    if i == 0 {
        assert(s.skip(0) =~= s);
    } else {
        assert(s[0] == '0');
        lemma_trim_skip(s.skip(1), i - 1);
        assert(s.skip(1).skip(i - 1) =~= s.skip(i));
    }
}

/// What is trimmed away is a block of `'0'` characters, and what remains is
/// a suffix that does not begin with `'0'`.
proof fn lemma_trim_properties(s: Seq<char>)
    ensures
        trim_leading_zeros(s).len() <= s.len(),
        trim_leading_zeros(s) == s.skip(s.len() - trim_leading_zeros(s).len()),
        forall|k: int| 0 <= k < s.len() - trim_leading_zeros(s).len() ==> s[k] == '0',
        trim_leading_zeros(s).len() > 0 ==> trim_leading_zeros(s)[0] != '0',
    decreases s.len(),
{
    if s.len() > 0 && s[0] == '0' {
        lemma_trim_properties(s.skip(1));
        assert(s.skip(1).skip(s.skip(1).len() - trim_leading_zeros(s.skip(1)).len()) =~= s.skip(
            s.len() - trim_leading_zeros(s).len(),
        ));
        assert forall|k: int| 0 <= k < s.len() - trim_leading_zeros(s).len() implies s[k]
            == '0' by {
            if k > 0 {
                assert(s.skip(1)[k - 1] == '0');
            }
        }
    } else {
        assert(s.skip(0) =~= s);
    }
}

/// A hex digit produced for a nibble value reads back as that value.
proof fn lemma_hex_char_of_value(v: int)
    requires
        0 <= v < 16,
    ensures
        is_hex_digit(hex_char_of(v)),
        hex_digit_value(hex_char_of(v)) == v,
{
}

/// Reading a full hex spelling back gives the bytes it was produced from.
proof fn lemma_bytes_of_hex_digits_of_bytes(b: Seq<u8>)
    ensures
        bytes_of_hex_digits(hex_digits_of_bytes(b)) == b,
{
    let h = hex_digits_of_bytes(b);
    assert forall|j: int| 0 <= j < b.len() implies bytes_of_hex_digits(h)[j] == b[j] by {
        lemma_hex_char_of_value(b[j] as int / 16);
        lemma_hex_char_of_value(b[j] as int % 16);
        assert(h[2 * j] == hex_char_of(b[j] as int / 16));
        assert(h[2 * j + 1] == hex_char_of(b[j] as int % 16));
    }
    assert(bytes_of_hex_digits(h) =~= b);
}

/// Every character of a hex spelling is a hex digit.
proof fn lemma_hex_digits_of_bytes_are_hex(b: Seq<u8>)
    ensures
        all_hex_digits(hex_digits_of_bytes(b)),
{
    let h = hex_digits_of_bytes(b);
    assert forall|i: int| 0 <= i < h.len() implies is_hex_digit(#[trigger] h[i]) by {
        if i % 2 == 0 {
            lemma_hex_char_of_value(b[i / 2] as int / 16);
        } else {
            lemma_hex_char_of_value(b[i / 2] as int % 16);
        }
    }
}

/// The canonical hex-literal form of any full-width byte string parses back
/// to exactly those bytes: parsing accepts every canonical address and
/// re-parsing the canonical form changes nothing.
#[verifier::rlimit(50)]
pub proof fn lemma_canonical_round_trip(b: Seq<u8>)
    requires
        b.len() == ADDRESS_LENGTH,
    ensures
        spec_parse_address(spec_hex_literal(b)) == Some(b),
{
    let h = hex_digits_of_bytes(b);
    let t = trim_leading_zeros(h);
    let s = spec_hex_literal(b);
    lemma_trim_properties(h);
    lemma_hex_digits_of_bytes_are_hex(b);
    lemma_bytes_of_hex_digits_of_bytes(b);
    if t.len() == 0 {
        assert(s =~= seq!['0', 'x', '0']);
        assert(has_hex_prefix(s));
        assert(s.skip(2) =~= seq!['0']);
        assert(all_hex_digits(s.skip(2))) by {
            assert(s.skip(2)[0] == '0');
        }
        let p = zero_padded(s.skip(2));
        assert(p =~= h) by {
            assert forall|k: int| 0 <= k < ADDRESS_HEX_LENGTH implies p[k] == h[k] by {
                assert(h[k] == '0');
            }
        }
        assert(spec_parse_address(s) == Some(b));
    } else {
        let z = h.len() - t.len();
        assert(t == h.skip(z));
        assert(s =~= seq!['0', 'x'] + t);
        assert(s[0] == '0' && s[1] == 'x');
        assert(has_hex_prefix(s));
        assert(s.len() == 2 + t.len() <= ADDRESS_HEX_LENGTH + 2);
        assert(s.skip(2) =~= t);
        assert(all_hex_digits(t)) by {
            assert forall|k: int| 0 <= k < t.len() implies is_hex_digit(#[trigger] t[k]) by {
                assert(t[k] == h[z + k]);
                assert(is_hex_digit(h[z + k]));
            }
        }
        let p = zero_padded(t);
        assert(p =~= h) by {
            assert forall|k: int| 0 <= k < ADDRESS_HEX_LENGTH implies p[k] == h[k] by {
                if k < z {
                    assert(h[k] == '0');
                } else {
                    assert(p[k] == t[k - z]);
                    assert(t[k - z] == h[k]);
                }
            }
        }
        assert(spec_parse_address(s) == Some(b));
    }
}

} // verus!
