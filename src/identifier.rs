//! Typed entity identifiers.
//!
//! Every identifier holds a 128-bit universally unique value; the four types
//! differ only in name, so that one kind of identifier cannot stand where
//! another is expected. Their text is the standard UUID text, which `uuid`
//! reads and writes.

use vstd::arithmetic::div_mod::lemma_mod_breakdown;
use vstd::prelude::*;

verus! {

pub open spec fn is_hex_digit(c: char) -> bool {
    ('0' <= c && c <= '9') || ('a' <= c && c <= 'f') || ('A' <= c && c <= 'F')
}

/// The value of a hexadecimal digit of either case.
pub open spec fn hex_digit_value(c: char) -> nat {
    if '0' <= c && c <= '9' {
        (c as int - '0' as int) as nat
    } else if 'a' <= c && c <= 'f' {
        (c as int - 'a' as int + 10) as nat
    } else {
        (c as int - 'A' as int + 10) as nat
    }
}

/// The lowercase digit for `d < 16`.
pub open spec fn lower_hex_char(d: nat) -> char {
    seq!['0', '1', '2', '3', '4', '5', '6', '7', '8', '9', 'a', 'b', 'c', 'd', 'e', 'f'][d as int]
}

pub open spec fn all_hex(s: Seq<char>) -> bool {
    forall|i: int| 0 <= i < s.len() ==> is_hex_digit(#[trigger] s[i])
}

/// The number that hexadecimal digits spell, most significant first.
pub open spec fn hex_value(s: Seq<char>) -> nat
    decreases s.len(),
{
    if s.len() == 0 {
        0
    } else {
        hex_value(s.drop_last()) * 16 + hex_digit_value(s.last())
    }
}

/// `16^n`.
pub open spec fn pow16(n: nat) -> nat
    decreases n,
{
    if n == 0 {
        1
    } else {
        16 * pow16((n - 1) as nat)
    }
}

/// The last `n` hexadecimal digits of `v`, lowercase, most significant first.
pub open spec fn hex_digits(v: nat, n: nat) -> Seq<char>
    decreases n,
{
    if n == 0 {
        Seq::<char>::empty()
    } else {
        hex_digits(v / 16, (n - 1) as nat).push(lower_hex_char(v % 16))
    }
}

/// The 32 digits of 36 characters grouped 8-4-4-4-12, without the hyphens.
pub open spec fn hyphen_groups(s: Seq<char>) -> Seq<char> {
    s.subrange(0, 8) + s.subrange(9, 13) + s.subrange(14, 18) + s.subrange(19, 23) + s.subrange(
        24,
        36,
    )
}

/// `s` is `v` as 32 hex digits grouped 8-4-4-4-12 by hyphens.
pub open spec fn hyphenated_form(s: Seq<char>, v: u128) -> bool {
    &&& s.len() == 36
    &&& s[8] == '-' && s[13] == '-' && s[18] == '-' && s[23] == '-'
    &&& all_hex(hyphen_groups(s))
    &&& hex_value(hyphen_groups(s)) == v as nat
}

/// `s` is `v` as 32 hex digits.
pub open spec fn simple_form(s: Seq<char>, v: u128) -> bool {
    s.len() == 32 && all_hex(s) && hex_value(s) == v as nat
}

/// `s` is the hyphenated form of `v` in braces.
pub open spec fn braced_form(s: Seq<char>, v: u128) -> bool {
    s.len() == 38 && s[0] == '{' && s[37] == '}' && hyphenated_form(s.subrange(1, 37), v)
}

/// `s` is `urn:uuid:`, in any case, before the hyphenated form of `v`.
pub open spec fn urn_form(s: Seq<char>, v: u128) -> bool {
    let lower = seq!['u', 'r', 'n', ':', 'u', 'u', 'i', 'd', ':'];
    let upper = seq!['U', 'R', 'N', ':', 'U', 'U', 'I', 'D', ':'];
    &&& s.len() == 45
    &&& forall|i: int| 0 <= i < 9 ==> #[trigger] s[i] == lower[i] || s[i] == upper[i]
    &&& hyphenated_form(s.subrange(9, 45), v)
}

/// The texts that are read as the identifier value `v`.
pub open spec fn uuid_text_form(s: Seq<char>, v: u128) -> bool {
    simple_form(s, v) || hyphenated_form(s, v) || braced_form(s, v) || urn_form(s, v)
}

/// The canonical text of `v`: lowercase, hyphenated.
pub open spec fn canonical_text(v: u128) -> Seq<char> {
    let h = hex_digits(v as nat, 32);
    h.subrange(0, 8) + seq!['-'] + h.subrange(8, 12) + seq!['-'] + h.subrange(12, 16) + seq!['-']
        + h.subrange(16, 20) + seq!['-'] + h.subrange(20, 32)
}

/// A random (version 4, RFC 4122 variant) identifier value.
pub open spec fn is_random_v4(v: u128) -> bool {
    (v >> 76u128) & 0xfu128 == 4u128 && (v >> 62u128) & 3u128 == 2u128
}

/// A random value is never all zero.
proof fn lemma_random_v4_nonzero(v: u128)
    requires
        is_random_v4(v),
    ensures
        v != 0,
{
    assert((v >> 76u128) & 0xfu128 == 4u128 ==> v != 0) by (bit_vector);
}

#[verifier::external_type_specification]
#[verifier::external_body]
pub struct ExUuidError(uuid::Error);

/// Relies on `uuid::Uuid::parse_str`: it accepts 32 hex digits, bare,
/// hyphenated 8-4-4-4-12, hyphenated in braces or hyphenated after
/// `urn:uuid:`, digits in either case, and nothing else.
#[verifier::external_body]
fn parse_uuid(s: &str) -> (r: Result<u128, uuid::Error>)
    ensures
        match r {
            Ok(v) => uuid_text_form(s@, v),
            Err(_) => forall|v: u128| !uuid_text_form(s@, v),
        },
{
    match uuid::Uuid::parse_str(s) {
        Ok(u) => Ok(u.as_u128()),
        Err(e) => Err(e),
    }
}

/// Relies on `uuid::Uuid`'s `Display`: lowercase, hyphenated.
#[verifier::external_body]
pub(crate) fn uuid_text(v: u128) -> (r: String)
    ensures
        r@ == canonical_text(v),
{
    uuid::Uuid::from_u128(v).to_string()
}

/// Relies on `uuid::Uuid::new_v4`: random bits, with the version set to 4
/// and the variant to RFC 4122.
#[verifier::external_body]
fn random_uuid() -> (r: u128)
    ensures
        is_random_v4(r),
{
    uuid::Uuid::new_v4().as_u128()
}

/// Identifies an order.
#[derive(PartialEq, Eq, Structural, Debug, Clone, Copy)]
pub struct OrderId(u128);

impl View for OrderId {
    type V = u128;

    closed spec fn view(&self) -> u128 {
        self.0
    }
}

impl OrderId {
    /// A fresh random identifier.
    pub fn new() -> (r: Self)
        ensures
            is_random_v4(r@),
            r@ != 0,
    {
        let v = random_uuid();
        proof {
            lemma_random_v4_nonzero(v);
        }
        OrderId(v)
    }

    /// The identifier with this value, as it is.
    pub fn from_uuid(value: u128) -> (r: Self)
        ensures
            r@ == value,
    {
        OrderId(value)
    }

    /// Reads the identifier from its text; fails where the text is no
    /// identifier.
    pub fn from_str(s: &str) -> (r: Result<Self, uuid::Error>)
        ensures
            match r {
                Ok(id) => uuid_text_form(s@, id@),
                Err(_) => forall|v: u128| !uuid_text_form(s@, v),
            },
    {
        match parse_uuid(s) {
            Ok(v) => Ok(OrderId(v)),
            Err(e) => Err(e),
        }
    }

    /// The value.
    pub fn as_uuid(&self) -> (r: u128)
        ensures
            r == self@,
    {
        self.0
    }

    /// The canonical text: lowercase, hyphenated.
    pub fn to_string(&self) -> (r: String)
        ensures
            r@ == canonical_text(self@),
    {
        uuid_text(self.0)
    }

    /// Two identifiers are equal exactly when their values are.
    pub proof fn same_value(self, other: Self)
        ensures
            (self@ == other@) <==> (self == other),
    {
    }
}

impl Default for OrderId {
    /// The all-zero identifier, which no fresh identifier ever is.
    fn default() -> (r: Self)
        ensures
            r@ == 0,
    {
        OrderId(0)
    }
}

/// Identifies a customer.
#[derive(PartialEq, Eq, Structural, Debug, Clone, Copy)]
pub struct CustomerId(u128);

impl View for CustomerId {
    type V = u128;

    closed spec fn view(&self) -> u128 {
        self.0
    }
}

impl CustomerId {
    /// A fresh random identifier.
    pub fn new() -> (r: Self)
        ensures
            is_random_v4(r@),
            r@ != 0,
    {
        let v = random_uuid();
        proof {
            lemma_random_v4_nonzero(v);
        }
        CustomerId(v)
    }

    /// The identifier with this value, as it is.
    pub fn from_uuid(value: u128) -> (r: Self)
        ensures
            r@ == value,
    {
        CustomerId(value)
    }

    /// Reads the identifier from its text; fails where the text is no
    /// identifier.
    pub fn from_str(s: &str) -> (r: Result<Self, uuid::Error>)
        ensures
            match r {
                Ok(id) => uuid_text_form(s@, id@),
                Err(_) => forall|v: u128| !uuid_text_form(s@, v),
            },
    {
        match parse_uuid(s) {
            Ok(v) => Ok(CustomerId(v)),
            Err(e) => Err(e),
        }
    }

    /// The value.
    pub fn as_uuid(&self) -> (r: u128)
        ensures
            r == self@,
    {
        self.0
    }

    /// The canonical text: lowercase, hyphenated.
    pub fn to_string(&self) -> (r: String)
        ensures
            r@ == canonical_text(self@),
    {
        uuid_text(self.0)
    }

    /// Two identifiers are equal exactly when their values are.
    pub proof fn same_value(self, other: Self)
        ensures
            (self@ == other@) <==> (self == other),
    {
    }
}

impl Default for CustomerId {
    /// The all-zero identifier, which no fresh identifier ever is.
    fn default() -> (r: Self)
        ensures
            r@ == 0,
    {
        CustomerId(0)
    }
}

/// Identifies a product.
#[derive(PartialEq, Eq, Structural, Debug, Clone, Copy)]
pub struct ProductId(u128);

impl View for ProductId {
    type V = u128;

    closed spec fn view(&self) -> u128 {
        self.0
    }
}

impl ProductId {
    /// A fresh random identifier.
    pub fn new() -> (r: Self)
        ensures
            is_random_v4(r@),
            r@ != 0,
    {
        let v = random_uuid();
        proof {
            lemma_random_v4_nonzero(v);
        }
        ProductId(v)
    }

    /// The identifier with this value, as it is.
    pub fn from_uuid(value: u128) -> (r: Self)
        ensures
            r@ == value,
    {
        ProductId(value)
    }

    /// Reads the identifier from its text; fails where the text is no
    /// identifier.
    pub fn from_str(s: &str) -> (r: Result<Self, uuid::Error>)
        ensures
            match r {
                Ok(id) => uuid_text_form(s@, id@),
                Err(_) => forall|v: u128| !uuid_text_form(s@, v),
            },
    {
        match parse_uuid(s) {
            Ok(v) => Ok(ProductId(v)),
            Err(e) => Err(e),
        }
    }

    /// The value.
    pub fn as_uuid(&self) -> (r: u128)
        ensures
            r == self@,
    {
        self.0
    }

    /// The canonical text: lowercase, hyphenated.
    pub fn to_string(&self) -> (r: String)
        ensures
            r@ == canonical_text(self@),
    {
        uuid_text(self.0)
    }

    /// Two identifiers are equal exactly when their values are.
    pub proof fn same_value(self, other: Self)
        ensures
            (self@ == other@) <==> (self == other),
    {
    }
}

impl Default for ProductId {
    /// The all-zero identifier, which no fresh identifier ever is.
    fn default() -> (r: Self)
        ensures
            r@ == 0,
    {
        ProductId(0)
    }
}

/// Identifies a product category.
#[derive(PartialEq, Eq, Structural, Debug, Clone, Copy)]
pub struct CategoryId(u128);

impl View for CategoryId {
    type V = u128;

    closed spec fn view(&self) -> u128 {
        self.0
    }
}

impl CategoryId {
    /// A fresh random identifier.
    pub fn new() -> (r: Self)
        ensures
            is_random_v4(r@),
            r@ != 0,
    {
        let v = random_uuid();
        proof {
            lemma_random_v4_nonzero(v);
        }
        CategoryId(v)
    }

    /// The identifier with this value, as it is.
    pub fn from_uuid(value: u128) -> (r: Self)
        ensures
            r@ == value,
    {
        CategoryId(value)
    }

    /// Reads the identifier from its text; fails where the text is no
    /// identifier.
    pub fn from_str(s: &str) -> (r: Result<Self, uuid::Error>)
        ensures
            match r {
                Ok(id) => uuid_text_form(s@, id@),
                Err(_) => forall|v: u128| !uuid_text_form(s@, v),
            },
    {
        match parse_uuid(s) {
            Ok(v) => Ok(CategoryId(v)),
            Err(e) => Err(e),
        }
    }

    /// The value.
    pub fn as_uuid(&self) -> (r: u128)
        ensures
            r == self@,
    {
        self.0
    }

    /// The canonical text: lowercase, hyphenated.
    pub fn to_string(&self) -> (r: String)
        ensures
            r@ == canonical_text(self@),
    {
        uuid_text(self.0)
    }

    /// Two identifiers are equal exactly when their values are.
    pub proof fn same_value(self, other: Self)
        ensures
            (self@ == other@) <==> (self == other),
    {
    }
}

impl Default for CategoryId {
    /// The all-zero identifier, which no fresh identifier ever is.
    fn default() -> (r: Self)
        ensures
            r@ == 0,
    {
        CategoryId(0)
    }
}

proof fn lemma_hex_digits(v: nat, n: nat)
    ensures
        hex_digits(v, n).len() == n,
        all_hex(hex_digits(v, n)),
        hex_value(hex_digits(v, n)) == v % pow16(n),
        pow16(n) > 0,
    decreases n,
{
    if n > 0 {
        let m = (n - 1) as nat;
        lemma_hex_digits(v / 16, m);
        let h = hex_digits(v, n);
        let d = v % 16;
        assert(h.drop_last() =~= hex_digits(v / 16, m));
        assert(hex_digit_value(lower_hex_char(d)) == d) by {
            assert(0 <= d < 16);
        }
        lemma_mod_breakdown(v as int, 16, pow16(m) as int);
        assert(16 * pow16(m) == pow16(n));
        assert(hex_value(h) == (v / 16) % pow16(m) * 16 + d);
        assert(all_hex(h)) by {
            assert forall|i: int| 0 <= i < h.len() implies is_hex_digit(#[trigger] h[i]) by {
                if i < m {
                    assert(h[i] == hex_digits(v / 16, m)[i]);
                }
            }
        }
    }
}

/// Reading the canonical text of a value gives that value back, and no
/// other.
pub proof fn text_round_trip(v: u128)
    ensures
        uuid_text_form(canonical_text(v), v),
        forall|w: u128| uuid_text_form(canonical_text(v), w) ==> w == v,
{
    let h = hex_digits(v as nat, 32);
    lemma_hex_digits(v as nat, 32);
    reveal_with_fuel(pow16, 33);
    assert(pow16(32) == 0x1_0000_0000_0000_0000_0000_0000_0000_0000);
    let t = canonical_text(v);
    assert(hyphen_groups(t) =~= h);
    assert(t[8] == '-' && t[13] == '-' && t[18] == '-' && t[23] == '-');
}

} // verus!
