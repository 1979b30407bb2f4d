//! Resource identifiers (128-bit UUIDs) and their canonical text.
use vstd::prelude::*;
use vstd::arithmetic::div_mod::{lemma_div_denominator, lemma_fundamental_div_mod, lemma_mod_bound, lemma_div_pos_is_pos};

verus! {

pub open spec fn pow16(k: nat) -> nat
    decreases k,
{
    if k == 0 {
        1
    } else {
        16 * pow16((k - 1) as nat)
    }
}

/// The `j`-th hexadecimal digit of `v`, counted from the least significant.
pub open spec fn nibble(v: nat, j: nat) -> nat {
    (v / pow16(j)) % 16
}

/// A version 7 UUID of the RFC 4122 variant: its 13th hexadecimal digit
/// is `7` and the two top bits of its 17th digit are `10`.
pub open spec fn is_version7(v: u128) -> bool {
    nibble(v as nat, 19) == 7 && nibble(v as nat, 15) / 4 == 2
}

/// Lower-case hexadecimal digit.
pub open spec fn hex_digit(d: nat) -> char {
    if d < 10 {
        ((48 + d) as u8) as char
    } else {
        ((87 + d) as u8) as char
    }
}

/// The 32 hexadecimal digits of a 128-bit value, most significant first.
pub open spec fn uuid_hex(v: u128) -> Seq<char> {
    Seq::new(32, |h: int| hex_digit(nibble(v as nat, (31 - h) as nat)))
}

/// The hyphenated lower-case form `xxxxxxxx-xxxx-xxxx-xxxx-xxxxxxxxxxxx`
/// in which a UUID is displayed.
pub open spec fn uuid_text(v: u128) -> Seq<char> {
    let h = uuid_hex(v);
    h.subrange(0, 8) + seq!['-'] + h.subrange(8, 12) + seq!['-'] + h.subrange(12, 16) + seq!['-']
        + h.subrange(16, 20) + seq!['-'] + h.subrange(20, 32)
}

pub proof fn lemma_pow16_pos(k: nat)
    ensures
        pow16(k) >= 1,
    decreases k,
{
    if k > 0 {
        lemma_pow16_pos((k - 1) as nat);
    }
}

/// Shifting by one digit: the digits of `v / 16` are those of `v` moved down by one.
pub proof fn lemma_nibble_shift(v: nat, j: nat)
    ensures
        nibble(v / 16, j) == nibble(v, j + 1),
{
    lemma_pow16_pos(j);
    lemma_div_denominator(v as int, 16, pow16(j) as int);
    assert(pow16(j + 1) == 16 * pow16(j));
}

/// Values below `16^n` with the same `n` low digits are equal.
pub proof fn lemma_nibbles_determine(a: nat, b: nat, n: nat)
    requires
        a < pow16(n),
        b < pow16(n),
        forall|j: nat| j < n ==> #[trigger] nibble(a, j) == nibble(b, j),
    ensures
        a == b,
    decreases n,
{
    if n > 0 {
        lemma_pow16_pos((n - 1) as nat);
        assert(pow16(0) == 1);
        assert(a / 1 == a && b / 1 == b);
        assert(nibble(a, 0) == a % 16);
        assert(nibble(b, 0) == b % 16);
        assert forall|j: nat| j < (n - 1) as nat implies #[trigger] nibble(a / 16, j) == nibble(b / 16, j) by {
            lemma_nibble_shift(a, j);
            lemma_nibble_shift(b, j);
            assert(nibble(a, j + 1) == nibble(b, j + 1));
        }
        assert(a / 16 < pow16((n - 1) as nat)) by {
            lemma_fundamental_div_mod(a as int, 16);
            lemma_mod_bound(a as int, 16);
        }
        assert(b / 16 < pow16((n - 1) as nat)) by {
            lemma_fundamental_div_mod(b as int, 16);
            lemma_mod_bound(b as int, 16);
        }
        lemma_nibbles_determine(a / 16, b / 16, (n - 1) as nat);
        lemma_fundamental_div_mod(a as int, 16);
        lemma_fundamental_div_mod(b as int, 16);
    }
}

pub proof fn lemma_hex_digit_injective(a: nat, b: nat)
    requires
        a < 16,
        b < 16,
        hex_digit(a) == hex_digit(b),
    ensures
        a == b,
{
}

/// Distinct identifiers have distinct texts.
pub proof fn lemma_uuid_text_injective(a: u128, b: u128)
    requires
        uuid_text(a) == uuid_text(b),
    ensures
        a == b,
{
    let ha = uuid_hex(a);
    let hb = uuid_hex(b);
    assert forall|h: int| 0 <= h < 32 implies ha[h] == hb[h] by {
        let ta = uuid_text(a);
        let tb = uuid_text(b);
        let p = if h < 8 {
            h
        } else if h < 12 {
            h + 1
        } else if h < 16 {
            h + 2
        } else if h < 20 {
            h + 3
        } else {
            h + 4
        };
        assert(ta[p] == ha[h]);
        assert(tb[p] == hb[h]);
    }
    assert forall|j: nat| j < 32 implies #[trigger] nibble(a as nat, j) == nibble(b as nat, j) by {
        let h = 31 - j;
        assert(ha[h] == hex_digit(nibble(a as nat, j)));
        assert(hb[h] == hex_digit(nibble(b as nat, j)));
        lemma_pow16_pos(j);
        lemma_mod_bound((a as nat / pow16(j)) as int, 16);
        lemma_mod_bound((b as nat / pow16(j)) as int, 16);
        lemma_hex_digit_injective(nibble(a as nat, j), nibble(b as nat, j));
    }
    assert(pow16(32) == 0x1_0000_0000_0000_0000_0000_0000_0000_0000nat) by {
        reveal_with_fuel(pow16, 33);
    }
    lemma_nibbles_determine(a as nat, b as nat, 32);
}

pub open spec fn is_lower_hex_or_dash(c: char) -> bool {
    ('0' <= c && c <= '9') || ('a' <= c && c <= 'f') || c == '-'
}

/// The text of an identifier has 36 characters, each a lower-case
/// hexadecimal digit or a hyphen.
pub proof fn lemma_uuid_text_shape(v: u128)
    ensures
        uuid_text(v).len() == 36,
        forall|i: int| 0 <= i < 36 ==> is_lower_hex_or_dash(#[trigger] uuid_text(v)[i]),
{
    let h = uuid_hex(v);
    let t = uuid_text(v);
    assert forall|k: int| 0 <= k < 32 implies is_lower_hex_or_dash(#[trigger] h[k]) by {
        lemma_pow16_pos((31 - k) as nat);
        lemma_mod_bound((v as nat / pow16((31 - k) as nat)) as int, 16);
    }
    assert forall|i: int| 0 <= i < 36 implies is_lower_hex_or_dash(#[trigger] t[i]) by {
        if i < 8 {
            assert(t[i] == h[i]);
        } else if i == 8 || i == 13 || i == 18 || i == 23 {
        } else if i < 13 {
            assert(t[i] == h[i - 1]);
        } else if i < 18 {
            assert(t[i] == h[i - 2]);
        } else if i < 23 {
            assert(t[i] == h[i - 3]);
        } else {
            assert(t[i] == h[i - 4]);
        }
    }
}

/// A unique identifier for any resource in the system (a UUID).
#[derive(Debug, Clone, Copy, PartialEq, Eq, Hash, Structural)]
pub struct ResourceId(pub u128);

pub fn hex_digit_exec(d: u128) -> (c: char)
    requires
        d < 16,
    ensures
        c == hex_digit(d as nat),
{
    if d < 10 {
        let b: u8 = d as u8 + 48;
        b as char
    } else {
        let b: u8 = d as u8 + 87;
        b as char
    }
}

/// The 32 hexadecimal digits of `v`, most significant first.
pub fn uuid_hex_exec(v: u128) -> (r: Vec<char>)
    ensures
        r@ == uuid_hex(v),
{
    let mut digits: Vec<char> = Vec::new();
    let mut cur: u128 = v;
    let mut j: usize = 0;
    assert(pow16(0) == 1);
    assert(v as nat / 1 == v as nat);
    while j < 32
        invariant
            j <= 32,
            cur as nat == v as nat / pow16(j as nat),
            digits@.len() == j,
            forall|k: int| 0 <= k < j ==> digits@[k] == hex_digit(nibble(v as nat, k as nat)),
        decreases 32 - j,
    {
        proof {
            lemma_pow16_pos(j as nat);
            lemma_div_denominator(v as int, pow16(j as nat) as int, 16);
            assert(pow16((j + 1) as nat) == 16 * pow16(j as nat));
        }
        let c = hex_digit_exec(cur % 16);
        digits.push(c);
        cur = cur / 16;
        j = j + 1;
    }
    let mut out: Vec<char> = Vec::new();
    let mut h: usize = 0;
    while h < 32
        invariant
            h <= 32,
            digits@.len() == 32,
            forall|k: int| 0 <= k < 32 ==> digits@[k] == hex_digit(nibble(v as nat, k as nat)),
            out@ == uuid_hex(v).take(h as int),
        decreases 32 - h,
    {
        out.push(digits[31 - h]);
        assert(out@ =~= uuid_hex(v).take(h + 1));
        h = h + 1;
    }
    assert(out@ =~= uuid_hex(v));
    out
}

impl ResourceId {
    /// A new time-ordered identifier (UUID version 7).
    pub fn new() -> (r: Self)
        ensures
            is_version7(r.0),
    {
        ResourceId(uuid_now_v7())
    }

    pub fn from_uuid(uuid: u128) -> (r: Self)
        ensures
            r.0 == uuid,
    {
        ResourceId(uuid)
    }

    pub fn as_uuid(&self) -> (r: u128)
        ensures
            r == self.0,
    {
        self.0
    }

    /// The hyphenated lower-case text of the identifier.
    pub fn to_text(&self) -> (r: Vec<char>)
        ensures
            r@ == uuid_text(self.0),
    {
        let h = uuid_hex_exec(self.0);
        let mut out: Vec<char> = Vec::new();
        let mut i: usize = 0;
        while i < 32
            invariant
                i <= 32,
                h@ == uuid_hex(self.0),
                out@ == (if i <= 8 {
                    h@.subrange(0, i as int)
                } else if i <= 12 {
                    h@.subrange(0, 8) + seq!['-'] + h@.subrange(8, i as int)
                } else if i <= 16 {
                    h@.subrange(0, 8) + seq!['-'] + h@.subrange(8, 12) + seq!['-'] + h@.subrange(
                        12,
                        i as int,
                    )
                } else if i <= 20 {
                    h@.subrange(0, 8) + seq!['-'] + h@.subrange(8, 12) + seq!['-'] + h@.subrange(
                        12,
                        16,
                    ) + seq!['-'] + h@.subrange(16, i as int)
                } else {
                    h@.subrange(0, 8) + seq!['-'] + h@.subrange(8, 12) + seq!['-'] + h@.subrange(
                        12,
                        16,
                    ) + seq!['-'] + h@.subrange(16, 20) + seq!['-'] + h@.subrange(20, i as int)
                }),
            decreases 32 - i,
        {
            if i == 8 || i == 12 || i == 16 || i == 20 {
                out.push('-');
            }
            out.push(h[i]);
            proof {
                let hs = h@;
                if i < 8 {
                    assert(out@ =~= hs.subrange(0, i + 1));
                } else if i < 12 {
                    assert(out@ =~= hs.subrange(0, 8) + seq!['-'] + hs.subrange(8, i + 1));
                } else if i < 16 {
                    assert(out@ =~= hs.subrange(0, 8) + seq!['-'] + hs.subrange(8, 12) + seq!['-']
                        + hs.subrange(12, i + 1));
                } else if i < 20 {
                    assert(out@ =~= hs.subrange(0, 8) + seq!['-'] + hs.subrange(8, 12) + seq!['-']
                        + hs.subrange(12, 16) + seq!['-'] + hs.subrange(16, i + 1));
                } else {
                    assert(out@ =~= hs.subrange(0, 8) + seq!['-'] + hs.subrange(8, 12) + seq!['-']
                        + hs.subrange(12, 16) + seq!['-'] + hs.subrange(16, 20) + seq!['-']
                        + hs.subrange(20, i + 1));
                }
            }
            i = i + 1;
        }
        out
    }

    /// The hyphenated lower-case text of the identifier, as a `String`.
    pub fn to_string(&self) -> (r: String)
        ensures
            r@ == uuid_text(self.0),
    {
        let t = self.to_text();
        crate::text::string_of(t.as_slice())
    }

    /// Parses the text forms that `uuid::Uuid::parse_str` accepts.
    pub fn from_str(s: &str) -> (r: Option<Self>)
        ensures
            r == (match uuid_parse(s@) {
                Some(v) => Some(ResourceId(v)),
                None => None,
            }),
    {
        match uuid_parse_str(s) {
            Some(v) => Some(ResourceId(v)),
            None => None,
        }
    }
}

/// The value that `uuid::Uuid::parse_str` reads from a text, as a 128-bit
/// big-endian number, or `None` where it reports an error.
pub uninterp spec fn uuid_parse(text: Seq<char>) -> Option<u128>;

/// Calls `uuid::Uuid::now_v7`, which combines the current time with random
/// bits. The contract states only what `Uuid::new_v7` fixes in every
/// outcome: the version nibble 7 and the RFC 4122 variant bits; the
/// timestamp and random parts are left unsaid.
#[verifier::external_body]
fn uuid_now_v7() -> (r: u128)
    ensures
        is_version7(r),
{
    uuid::Uuid::now_v7().as_u128()
}

/// Calls `uuid::Uuid::parse_str`; the contract only names its result.
#[verifier::external_body]
fn uuid_parse_str(s: &str) -> (r: Option<u128>)
    ensures
        r == uuid_parse(s@),
{
    uuid::Uuid::parse_str(s).ok().map(|u| u.as_u128())
}

} // verus!
