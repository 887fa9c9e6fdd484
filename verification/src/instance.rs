use rand::Rng;
use vstd::prelude::*;

verus! {

/// Fills sixteen bytes from `rand::thread_rng()` through `Rng::fill`.
/// Nothing is promised of the bytes: they are random. `thread_rng` panics if
/// the operating system's randomness source cannot seed it; that depends on
/// the machine, not on an argument, so no `requires` can exclude it.
#[verifier::external_body]
fn random_bytes() -> (b: [u8; 16]) {
    let mut b = [0u8; 16];
    rand::thread_rng().fill(&mut b);
    b
}

/// Byte 6 of a version-4 UUID: the high nibble set to `4`.
pub open spec fn version_byte(b: u8) -> u8 {
    (b & 0x0f) | 0x40
}

/// Byte 8 of an RFC 4122 UUID: the two high bits set to `10`.
pub open spec fn variant_byte(b: u8) -> u8 {
    (b & 0x3f) | 0x80
}

/// The lower-case hexadecimal digit for `n < 16`.
pub open spec fn hex_digit(n: u8) -> char {
    if n < 10 {
        (('0' as u8) + n) as char
    } else {
        (('a' as u8) + n - 10) as char
    }
}

/// The two lower-case hexadecimal digits of `b` (`{:02x}`).
pub open spec fn hex2(b: u8) -> Seq<char> {
    seq![hex_digit(b >> 4), hex_digit(b & 0x0f)]
}

/// The textual form `xxxxxxxx-xxxx-xxxx-xxxx-xxxxxxxxxxxx` of sixteen bytes.
pub open spec fn uuid_text(b: Seq<u8>) -> Seq<char> {
    hex2(b[0]) + hex2(b[1]) + hex2(b[2]) + hex2(b[3]) + seq!['-'] + hex2(b[4]) + hex2(b[5]) + seq![
        '-',
    ] + hex2(b[6]) + hex2(b[7]) + seq!['-'] + hex2(b[8]) + hex2(b[9]) + seq!['-'] + hex2(b[10])
        + hex2(b[11]) + hex2(b[12]) + hex2(b[13]) + hex2(b[14]) + hex2(b[15])
}

/// The instance identifier made from sixteen random bytes: the bytes with the
/// UUID version (4) and variant bits set, in textual UUID form.
pub open spec fn instance_id_text(raw: Seq<u8>) -> Seq<char> {
    uuid_text(raw.update(6, version_byte(raw[6])).update(8, variant_byte(raw[8])))
}

fn hex_digit_exec(n: u8) -> (c: char)
    requires
        n < 16,
    ensures
        c == hex_digit(n),
{
    if n == 0 { '0' } else if n == 1 { '1' } else if n == 2 { '2' } else if n == 3 { '3' }
    else if n == 4 { '4' } else if n == 5 { '5' } else if n == 6 { '6' } else if n == 7 { '7' }
    else if n == 8 { '8' } else if n == 9 { '9' } else if n == 10 { 'a' } else if n == 11 { 'b' }
    else if n == 12 { 'c' } else if n == 13 { 'd' } else if n == 14 { 'e' } else { 'f' }
}

fn push_hex2(s: &mut String, b: u8)
    ensures
        final(s)@ == old(s)@ + hex2(b),
{
    assert(b >> 4 < 16 && b & 0x0f < 16) by (bit_vector);
    let hi = hex_digit_exec(b >> 4);
    let lo = hex_digit_exec(b & 0x0f);
    crate::text::push_char(s, hi);
    crate::text::push_char(s, lo);
    assert(s@ =~= old(s)@ + hex2(b));
}

/// Formats sixteen bytes as a version-4 UUID (lower-case hexadecimal, with
/// dashes), after setting the version and variant bits.
pub fn format_instance_id(raw: [u8; 16]) -> (id: String)
    ensures
        id@ == instance_id_text(raw@),
{
    let mut b = raw;
    b[6] = (b[6] & 0x0f) | 0x40;
    b[8] = (b[8] & 0x3f) | 0x80;
    let ghost u = raw@.update(6, version_byte(raw@[6])).update(8, variant_byte(raw@[8]));
    assert(b@ =~= u);
    let mut s = String::new();
    push_hex2(&mut s, b[0]);
    push_hex2(&mut s, b[1]);
    push_hex2(&mut s, b[2]);
    push_hex2(&mut s, b[3]);
    crate::text::push_char(&mut s, '-');
    push_hex2(&mut s, b[4]);
    push_hex2(&mut s, b[5]);
    crate::text::push_char(&mut s, '-');
    push_hex2(&mut s, b[6]);
    push_hex2(&mut s, b[7]);
    crate::text::push_char(&mut s, '-');
    push_hex2(&mut s, b[8]);
    push_hex2(&mut s, b[9]);
    crate::text::push_char(&mut s, '-');
    push_hex2(&mut s, b[10]);
    push_hex2(&mut s, b[11]);
    push_hex2(&mut s, b[12]);
    push_hex2(&mut s, b[13]);
    push_hex2(&mut s, b[14]);
    push_hex2(&mut s, b[15]);
    assert(s@ =~= uuid_text(u));
    s
}

/// Whether `t` is the identifier made from some sixteen bytes.
pub open spec fn is_instance_id(t: Seq<char>) -> bool {
    exists|raw: Seq<u8>| raw.len() == 16 && #[trigger] instance_id_text(raw) == t
}

/// A fresh random instance identifier (a version-4 UUID).
pub fn new_instance_id() -> (id: String)
    ensures
        is_instance_id(id@),
{
    let raw = random_bytes();
    let id = format_instance_id(raw);
    assert(raw@.len() == 16);
    assert(instance_id_text(raw@) == id@);
    id
}

/// Every instance identifier is a canonical version-4 UUID: 36 characters,
/// dashes at positions 8, 13, 18 and 23, version digit `4` at position 14 and
/// a variant digit among `8`, `9`, `a`, `b` at position 19.
pub proof fn law_instance_id_is_uuid_v4(raw: Seq<u8>)
    requires
        raw.len() == 16,
    ensures
        instance_id_text(raw).len() == 36,
        instance_id_text(raw)[8] == '-' && instance_id_text(raw)[13] == '-'
            && instance_id_text(raw)[18] == '-' && instance_id_text(raw)[23] == '-',
        instance_id_text(raw)[14] == '4',
        instance_id_text(raw)[19] == '8' || instance_id_text(raw)[19] == '9'
            || instance_id_text(raw)[19] == 'a' || instance_id_text(raw)[19] == 'b',
{
    let b6 = raw[6];
    let b8 = raw[8];
    assert(((b6 & 0x0f) | 0x40) >> 4 == 4) by (bit_vector);
    assert(8 <= ((b8 & 0x3f) | 0x80) >> 4 <= 11) by (bit_vector);
    let u = raw.update(6, version_byte(b6)).update(8, variant_byte(b8));
    assert(u[6] == version_byte(b6));
    assert(u[8] == variant_byte(b8));
    assert(instance_id_text(raw)[14] == hex2(u[6])[0]);
    assert(instance_id_text(raw)[19] == hex2(u[8])[0]);
}

} // verus!
