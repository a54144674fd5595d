//! How a lookup that finds nothing names what it looked for: the type of the
//! entry and its storage key, the key written as a list of bytes in two-digit
//! upper-case hex, as in `type: cw2::ContractVersion; key: [63, 6F, ...]`.
//! Storage keys follow the layout of the contract's maps: a map's namespace,
//! preceded by its length on two bytes, then the entry's key.
use vstd::prelude::*;

verus! {

/// The text of a hex digit.
pub open spec fn hex_digit_text(n: int) -> Seq<char> {
    if n == 0 { "0"@ }
    else if n == 1 { "1"@ }
    else if n == 2 { "2"@ }
    else if n == 3 { "3"@ }
    else if n == 4 { "4"@ }
    else if n == 5 { "5"@ }
    else if n == 6 { "6"@ }
    else if n == 7 { "7"@ }
    else if n == 8 { "8"@ }
    else if n == 9 { "9"@ }
    else if n == 10 { "A"@ }
    else if n == 11 { "B"@ }
    else if n == 12 { "C"@ }
    else if n == 13 { "D"@ }
    else if n == 14 { "E"@ }
    else { "F"@ }
}

/// A byte as two upper-case hex digits.
pub open spec fn hex_byte_text(b: u8) -> Seq<char> {
    hex_digit_text((b / 16) as int) + hex_digit_text((b % 16) as int)
}

/// The bytes as hex pairs separated by `", "`.
pub open spec fn hex_items_text(bytes: Seq<u8>) -> Seq<char>
    decreases bytes.len(),
{
    if bytes.len() == 0 {
        Seq::empty()
    } else if bytes.len() == 1 {
        hex_byte_text(bytes[0])
    } else {
        hex_items_text(bytes.drop_last()) + ", "@ + hex_byte_text(bytes.last())
    }
}

/// The description of a missing entry of the named type under `key`.
pub open spec fn object_info_text(entry_type: Seq<char>, key: Seq<u8>) -> Seq<char> {
    "type: "@ + entry_type + "; key: ["@ + hex_items_text(key) + "]"@
}

/// The bytes of `id`, most significant first.
pub open spec fn u64_be_bytes(id: u64) -> Seq<u8> {
    Seq::new(8, |i: int| ((id >> ((56 - 8 * i) as u64)) & 0xff) as u8)
}

/// The storage key of the order of id `id`: the namespace `order`, preceded by
/// its length, then the id's bytes.
pub open spec fn order_storage_key(id: u64) -> Seq<u8> {
    seq![0x00u8, 0x05u8, 0x6Fu8, 0x72u8, 0x64u8, 0x65u8, 0x72u8] + u64_be_bytes(id)
}

/// The storage key of the contract's name and version: `contract_info`.
pub open spec fn contract_info_storage_key() -> Seq<u8> {
    seq![0x63u8, 0x6Fu8, 0x6Eu8, 0x74u8, 0x72u8, 0x61u8, 0x63u8, 0x74u8, 0x5Fu8, 0x69u8, 0x6Eu8, 0x66u8, 0x6Fu8]
}

fn hex_digit(n: u8) -> (r: &'static str)
    requires
        n < 16,
    ensures
        r@ == hex_digit_text(n as int),
{
    match n {
        0 => "0",
        1 => "1",
        2 => "2",
        3 => "3",
        4 => "4",
        5 => "5",
        6 => "6",
        7 => "7",
        8 => "8",
        9 => "9",
        10 => "A",
        11 => "B",
        12 => "C",
        13 => "D",
        14 => "E",
        _ => "F",
    }
}

/// Describes the missing entry of the named type under `key`.
pub fn object_info(entry_type: &str, key: &Vec<u8>) -> (r: String)
    ensures
        r@ == object_info_text(entry_type@, key@),
{
    let mut r = String::from_str("type: ");
    r.append(entry_type);
    r.append("; key: [");
    let ghost head = r@;
    let mut i: usize = 0;
    while i < key.len()
        invariant
            i <= key@.len(),
            r@ == head + hex_items_text(key@.take(i as int)),
        decreases key@.len() - i,
    {
        let b = key[i];
        let ghost before = r@;
        assert(key@.take(i + 1).drop_last() =~= key@.take(i as int));
        assert(key@.take(i + 1).last() == b);
        if i > 0 {
            r.append(", ");
        }
        r.append(hex_digit(b / 16));
        r.append(hex_digit(b % 16));
        assert(r@ =~= head + hex_items_text(key@.take(i + 1))) by {
            if i == 0 {
                assert(key@.take(1) =~= seq![b]);
                assert(hex_items_text(key@.take(0)) =~= Seq::<char>::empty());
            }
        }
        i = i + 1;
    }
    assert(key@.take(key@.len() as int) =~= key@);
    r.append("]");
    r
}

/// The storage key of the order of id `id`.
pub fn order_storage_key_bytes(id: u64) -> (r: Vec<u8>)
    ensures
        r@ == order_storage_key(id),
{
    let mut r: Vec<u8> = vec![0x00u8, 0x05u8, 0x6Fu8, 0x72u8, 0x64u8, 0x65u8, 0x72u8];
    let ghost prefix = r@;
    let mut i: u64 = 0;
    while i < 8
        invariant
            i <= 8,
            r@ =~= prefix + u64_be_bytes(id).take(i as int),
        decreases 8 - i,
    {
        let shift: u64 = 56 - 8 * i;
        let b = ((id >> shift) & 0xff) as u8;
        r.push(b);
        assert(u64_be_bytes(id).take(i + 1) =~= u64_be_bytes(id).take(i as int).push(b));
        i = i + 1;
    }
    assert(u64_be_bytes(id).take(8) =~= u64_be_bytes(id));
    r
}

/// The storage key of the contract's name and version.
pub fn contract_info_storage_key_bytes() -> (r: Vec<u8>)
    ensures
        r@ == contract_info_storage_key(),
{
    let r: Vec<u8> = vec![0x63u8, 0x6Fu8, 0x6Eu8, 0x74u8, 0x72u8, 0x61u8, 0x63u8, 0x74u8, 0x5Fu8, 0x69u8, 0x6Eu8, 0x66u8, 0x6Fu8];
    assert(r@ =~= contract_info_storage_key());
    r
}

} // verus!
