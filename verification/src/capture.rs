use vstd::prelude::*;
use vstd::string::*;

use crate::protocol::{change_mask, changed_bits};
use crate::text::{decimal_chars, hex_byte_chars, hex_join, push_decimal, push_hex_byte, push_hex_join};

verus! {

/// The change mask of a captured report: all bits when there is no previous
/// report or the lengths differ, otherwise bit `k` for each of the first
/// eight bytes that changed.
pub open spec fn capture_mask(previous: Option<Seq<u8>>, current: Seq<u8>) -> nat {
    match previous {
        None => 255,
        Some(p) => if p.len() != current.len() {
            255
        } else {
            changed_bits(current, p, if current.len() < 8 { current.len() } else { 8 })
        },
    }
}

proof fn lemma_changed_bits_single(current: Seq<u8>, previous: Seq<u8>, k: int, n: nat)
    requires
        n <= current.len(),
        n <= previous.len(),
        0 <= k,
        forall|i: int| 0 <= i < n && i != k ==> current[i] == previous[i],
        k < n ==> current[k] != previous[k],
    ensures
        changed_bits(current, previous, n) == if k < n { vstd::arithmetic::power2::pow2(k as nat) } else { 0 },
    decreases n,
{
    if n > 0 {
        lemma_changed_bits_single(current, previous, k, (n - 1) as nat);
    }
}

/// The change mask marks exactly the byte that changed: two reports of the
/// same length that differ only in byte `k` (one of the first eight) give
/// the mask `2^k`, and identical reports give 0. Without a previous report,
/// or with one of another length, every bit is set.
pub proof fn law_change_mask_marks_the_changed_byte(previous: Seq<u8>, current: Seq<u8>, k: int)
    requires
        previous.len() == current.len(),
        0 <= k < 8,
        forall|i: int| 0 <= i < current.len() && i != k ==> current[i] == previous[i],
    ensures
        k < current.len() && current[k] != previous[k] ==> capture_mask(Some(previous), current)
            == vstd::arithmetic::power2::pow2(k as nat),
        (k >= current.len() || current[k] == previous[k]) ==> capture_mask(Some(previous), current) == 0,
        capture_mask(None, current) == 255,
{
    let n: nat = if current.len() < 8 { current.len() } else { 8 };
    if k < current.len() && current[k] != previous[k] {
        lemma_changed_bits_single(current, previous, k, n);
    } else {
        lemma_changed_bits_single(current, previous, 8, n);
    }
}

/// Which bytes of `current` differ from `previous`.
pub fn changed_mask(previous: Option<&[u8]>, current: &[u8]) -> (mask: u8)
    ensures
        mask as nat == capture_mask(
            match previous {
                None => None,
                Some(p) => Some(p@),
            },
            current@,
        ),
{
    let previous = match previous {
        None => return u8::MAX,
        Some(previous) => previous,
    };
    if current.len() != previous.len() {
        return u8::MAX;
    }
    let n = if current.len() < 8 { current.len() } else { 8 };
    change_mask(current, previous, n)
}

/// One CSV line of the capture log:
/// `sequence,timestamp_us,interval_us,length,bytes,mask` with the bytes in
/// lower-case hexadecimal separated by spaces and the mask as two hex digits.
pub open spec fn csv_line(
    sequence: u64,
    timestamp_us: u128,
    interval_us: u128,
    bytes: Seq<u8>,
    changed_mask: u8,
) -> Seq<char> {
    decimal_chars(sequence as nat) + seq![','] + decimal_chars(timestamp_us as nat) + seq![',']
        + decimal_chars(interval_us as nat) + seq![','] + decimal_chars(bytes.len()) + seq![',']
        + hex_join(bytes, false) + seq![','] + hex_byte_chars(changed_mask, false)
}

pub fn csv_record(
    sequence: u64,
    timestamp_us: u128,
    interval_us: u128,
    bytes: &[u8],
    changed_mask: u8,
) -> (line: String)
    ensures
        line@ == csv_line(sequence, timestamp_us, interval_us, bytes@, changed_mask),
{
    proof { reveal_strlit(","); }
    let mut line = String::new();
    push_decimal(&mut line, sequence as u128);
    line.append(",");
    push_decimal(&mut line, timestamp_us);
    line.append(",");
    push_decimal(&mut line, interval_us);
    line.append(",");
    push_decimal(&mut line, bytes.len() as u128);
    line.append(",");
    push_hex_join(&mut line, bytes, false);
    line.append(",");
    push_hex_byte(&mut line, changed_mask, false);
    assert(line@ =~= csv_line(sequence, timestamp_us, interval_us, bytes@, changed_mask));
    line
}

} // verus!
