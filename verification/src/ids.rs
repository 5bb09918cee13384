//! Message identifiers: 128-bit UUIDs, rendered and read by the `uuid` crate.
use vstd::prelude::*;

verus! {

/// The lowercase hexadecimal digit for `d` (`0 <= d < 16`).
pub open spec fn hex_digit(d: int) -> char {
    if d < 10 {
        (48 + d) as char
    } else {
        (87 + d) as char
    }
}

/// The `i`-th hexadecimal digit of `id`, counting from the most significant.
pub open spec fn nibble(id: u128, i: int) -> int {
    ((id >> ((4 * (31 - i)) as u128)) & 15u128) as int
}

/// Hexadecimal digits `from .. to` of `id`.
pub open spec fn hex_run(id: u128, from: int, to: int) -> Seq<char> {
    Seq::new((to - from) as nat, |k: int| hex_digit(nibble(id, from + k)))
}

/// The hyphenated lowercase form of a UUID, `8-4-4-4-12` hexadecimal digits
/// of its 128 bits, most significant first.
pub open spec fn uuid_text(id: u128) -> Seq<char> {
    hex_run(id, 0, 8) + seq!['-'] + hex_run(id, 8, 12) + seq!['-'] + hex_run(id, 12, 16) + seq!['-']
        + hex_run(id, 16, 20) + seq!['-'] + hex_run(id, 20, 32)
}

/// Where in the hyphenated form the `k`-th hexadecimal digit stands.
pub open spec fn uuid_pos(k: int) -> int {
    if k < 8 {
        k
    } else if k < 12 {
        k + 1
    } else if k < 16 {
        k + 2
    } else if k < 20 {
        k + 3
    } else {
        k + 4
    }
}

proof fn lemma_uuid_text_at(id: u128, k: int)
    requires
        0 <= k < 32,
    ensures
        uuid_text(id).len() == 36,
        uuid_text(id)[uuid_pos(k)] == hex_digit(nibble(id, k)),
{
}

proof fn lemma_hex_digit_injective(x: int, y: int)
    requires
        0 <= x < 16,
        0 <= y < 16,
        hex_digit(x) == hex_digit(y),
    ensures
        x == y,
{
}

proof fn lemma_nibble_range(id: u128, k: int)
    ensures
        0 <= nibble(id, k) < 16,
{
    let s = (4 * (31 - k)) as u128;
    assert((id >> s) & 15u128 <= 15u128) by (bit_vector);
}

proof fn lemma_shift_step(x: u128, s: u128)
    by (bit_vector)
    requires
        s <= 120,
    ensures
        x >> s == ((x >> (s + 4)) << 4u128) | ((x >> s) & 15u128),
{
}

proof fn lemma_top_nibble(x: u128)
    by (bit_vector)
    ensures
        x >> 124u128 == (x >> 124u128) & 15u128,
        x >> 0u128 == x,
{
}

/// Where all hexadecimal digits from the `j`-th least significant one up
/// agree, so do the numbers shifted right by `4 * j` bits.
proof fn lemma_high_digits_agree(a: u128, b: u128, j: int)
    requires
        0 <= j <= 31,
        forall|k: int| j <= k <= 31 ==> #[trigger] nibble(a, 31 - k) == nibble(b, 31 - k),
    ensures
        a >> ((4 * j) as u128) == b >> ((4 * j) as u128),
    decreases 31 - j,
{
    let s = (4 * j) as u128;
    assert(nibble(a, 31 - j) == nibble(b, 31 - j));
    if j == 31 {
        lemma_top_nibble(a);
        lemma_top_nibble(b);
    } else {
        lemma_high_digits_agree(a, b, j + 1);
        lemma_shift_step(a, s);
        lemma_shift_step(b, s);
        assert((s + 4) as u128 == (4 * (j + 1)) as u128);
    }
}

/// Different identifiers have different hyphenated forms.
pub proof fn lemma_uuid_text_injective(a: u128, b: u128)
    requires
        uuid_text(a) == uuid_text(b),
    ensures
        a == b,
{
    assert forall|k: int| 0 <= k < 32 implies nibble(a, k) == nibble(b, k) by {
        lemma_uuid_text_at(a, k);
        lemma_uuid_text_at(b, k);
        lemma_nibble_range(a, k);
        lemma_nibble_range(b, k);
        lemma_hex_digit_injective(nibble(a, k), nibble(b, k));
    }
    assert forall|k: int| 0 <= k <= 31 implies #[trigger] nibble(a, 31 - k) == nibble(b, 31 - k) by {}
    lemma_high_digits_agree(a, b, 0);
    lemma_top_nibble(a);
    lemma_top_nibble(b);
}

/// What `uuid::Uuid::parse_str` reads from a text, as the UUID's 128 bits.
pub uninterp spec fn uuid_parse_result(s: Seq<char>) -> Option<u128>;

/// Renders an identifier through `uuid::Uuid::from_u128` and the crate's
/// `Display`, which writes the hyphenated lowercase form.
#[verifier::external_body]
pub(crate) fn uuid_to_text(id: u128) -> (r: String)
    ensures
        r@ == uuid_text(id),
{
    uuid::Uuid::from_u128(id).to_string()
}

/// Reads an identifier with `uuid::Uuid::parse_str`. The crate documents
/// that every format it writes, the hyphenated one among them, reads back
/// as the same UUID; which other texts it accepts is left to the name
/// `uuid_parse_result`.
#[verifier::external_body]
pub(crate) fn uuid_parse(s: &str) -> (r: Option<u128>)
    ensures
        r == uuid_parse_result(s@),
        forall|id: u128| s@ == uuid_text(id) ==> r == Some(id),
{
    match uuid::Uuid::parse_str(s) {
        Ok(u) => Some(u.as_u128()),
        Err(_) => None,
    }
}

/// The version bits (4, random) and the variant bits (RFC 4122, `10`) of
/// an identifier.
pub open spec fn is_random_uuid(id: u128) -> bool {
    (id >> 76u128) & 15u128 == 4 && (id >> 62u128) & 3u128 == 2
}

/// A fresh random identifier from `uuid::Uuid::new_v4`, which fixes its
/// version and variant bits and draws the rest from the operating system's
/// random source; only the fixed bits are stated.
#[verifier::external_body]
pub(crate) fn new_random_id() -> (r: u128)
    ensures
        is_random_uuid(r),
{
    uuid::Uuid::new_v4().as_u128()
}

} // verus!

verus! {

/// The identifier a text denotes: the one whose hyphenated form it is, and
/// otherwise what `uuid::Uuid::parse_str` makes of it.
pub open spec fn read_uuid(s: Seq<char>) -> Option<u128> {
    if exists|id: u128| uuid_text(id) == s {
        Some(choose|id: u128| uuid_text(id) == s)
    } else {
        uuid_parse_result(s)
    }
}

/// The hyphenated form of an identifier reads back as that identifier.
pub proof fn lemma_read_uuid_text(id: u128)
    ensures
        read_uuid(uuid_text(id)) == Some(id),
{
    let c = choose|x: u128| uuid_text(x) == uuid_text(id);
    lemma_uuid_text_injective(c, id);
}

/// Reads a message identifier from its text.
pub fn parse_message_id(s: &str) -> (r: Option<u128>)
    ensures
        r == read_uuid(s@),
{
    let r = uuid_parse(s);
    proof {
        if exists|id: u128| uuid_text(id) == s@ {
            let id = choose|id: u128| uuid_text(id) == s@;
            assert(r == Some(id));
        }
    }
    r
}

} // verus!
