//! Variable length numbers: the ID and the size that precede the data of every element.

use vstd::prelude::*;

use crate::error::DemuxError;
use crate::number::{be_number, be_value};
use crate::number::{be_count, lemma_be_counts, lemma_be_value_bound, lemma_be_value_first};
use crate::source::{Media, Source};

verus! {

/// The size of an element whose size is not known when it is written.
pub const UNKNOWN_SIZE: u64 = 0xFFFF_FFFF_FFFF_FFFF;

/// The length of a variable length number, which the leading zero bits of its first octet give;
/// nine if all bits are zero, which no number starts with.
pub open spec fn vint_width(first: u8) -> int {
    if first >= 0x80 {
        1
    } else if first >= 0x40 {
        2
    } else if first >= 0x20 {
        3
    } else if first >= 0x10 {
        4
    } else if first >= 0x08 {
        5
    } else if first >= 0x04 {
        6
    } else if first >= 0x02 {
        7
    } else if first >= 0x01 {
        8
    } else {
        9
    }
}

/// How many numbers the data bits, seven per octet, of a variable length number can give. This is
/// also the value of the bit that marks its length.
pub open spec fn vint_count(width: int) -> int
    decreases width,
{
    if width <= 0 {
        1
    } else {
        vint_count(width - 1) * 128
    }
}

/// The element ID at `position`, and the position behind it. The bit that marks the length is part
/// of the ID.
pub open spec fn id_at(media: Media, position: int) -> Result<(u32, int), DemuxError> {
    match media.read(position, 1) {
        Err(failure) => Err(DemuxError::IoError(failure)),
        Ok(first) => {
            let width = vint_width(first[0]);
            if width > 4 {
                Err(DemuxError::InvalidEbmlElementId)
            } else {
                match media.read(position + 1, width - 1) {
                    Err(failure) => Err(DemuxError::IoError(failure)),
                    Ok(rest) => Ok((be_value(first + rest) as u32, position + width)),
                }
            }
        },
    }
}

/// The element size at `position`, and the position behind it. The bit that marks the length is
/// not part of the size. If all other bits are set, the size is not known.
pub open spec fn size_at(media: Media, position: int) -> Result<(int, int), DemuxError> {
    match media.read(position, 1) {
        Err(failure) => Err(DemuxError::IoError(failure)),
        Ok(first) => {
            let width = vint_width(first[0]);
            if width > 8 {
                Err(DemuxError::InvalidEbmlDataSize)
            } else {
                match media.read(position + 1, width - 1) {
                    Err(failure) => Err(DemuxError::IoError(failure)),
                    Ok(rest) => {
                        let size = be_value(first + rest) - vint_count(width);
                        if size == vint_count(width) - 1 {
                            Ok((UNKNOWN_SIZE as int, position + width))
                        } else {
                            Ok((size, position + width))
                        }
                    },
                }
            }
        },
    }
}

proof fn lemma_first_octet(first: int, place: int, count: int)
    by (nonlinear_arith)
    requires
        ({
            ||| 0x80 <= first < 0x100 && place == 1 && count == 0x80
            ||| 0x40 <= first < 0x80 && place == 0x100 && count == 0x4000
            ||| 0x20 <= first < 0x40 && place == 0x1_0000 && count == 0x20_0000
            ||| 0x10 <= first < 0x20 && place == 0x100_0000 && count == 0x1000_0000
            ||| 0x08 <= first < 0x10 && place == 0x1_0000_0000 && count == 0x8_0000_0000
            ||| 0x04 <= first < 0x08 && place == 0x100_0000_0000 && count == 0x400_0000_0000
            ||| 0x02 <= first < 0x04 && place == 0x1_0000_0000_0000 && count == 0x2_0000_0000_0000
            ||| 0x01 <= first < 0x02 && place == 0x100_0000_0000_0000 && count == 0x100_0000_0000_0000
        }),
    ensures
        count <= first * place,
        first * place + place <= 2 * count,
{
}

/// Octets whose first one announces their number give a value with the marking bit as its highest.
pub proof fn lemma_vint_range(octets: Seq<u8>)
    requires
        octets.len() > 0,
        vint_width(octets[0]) == octets.len(),
        octets.len() <= 8,
    ensures
        vint_count(octets.len() as int) <= be_value(octets) < 2 * vint_count(octets.len() as int),
        vint_count(octets.len() as int) <= 0x100_0000_0000_0000,
{
    lemma_be_value_first(octets);
    lemma_be_value_bound(octets.drop_first());
    reveal_with_fuel(be_count, 9);
    reveal_with_fuel(vint_count, 9);
    lemma_first_octet(
        octets[0] as int,
        be_count((octets.len() - 1) as nat) as int,
        vint_count(octets.len() as int),
    );
}

fn width_of(first: u8) -> (width: u64)
    ensures
        width == vint_width(first),
        1 <= width <= 9,
{
    if first >= 0x80 {
        1
    } else if first >= 0x40 {
        2
    } else if first >= 0x20 {
        3
    } else if first >= 0x10 {
        4
    } else if first >= 0x08 {
        5
    } else if first >= 0x04 {
        6
    } else if first >= 0x02 {
        7
    } else if first >= 0x01 {
        8
    } else {
        9
    }
}

/// The value of the bit that marks the length.
fn marker(width: u64) -> (value: u64)
    requires
        1 <= width <= 8,
    ensures
        value == vint_count(width as int),
{
    let mut value: u64 = 1;
    let mut octets: u64 = 0;
    while octets < width
        invariant
            octets <= width <= 8,
            value == vint_count(octets as int),
        decreases width - octets,
    {
        assert(value <= 0x2_0000_0000_0000) by {
            reveal_with_fuel(vint_count, 9);
        }
        value = value * 128;
        octets = octets + 1;
    }
    value
}

/// Reads an element ID at the current position.
pub fn parse_id<R: Source>(r: &mut R) -> (result: Result<u32, DemuxError>)
    ensures
        final(r).media() == old(r).media(),
        match (result, id_at(old(r).media(), old(r).position() as int)) {
            (Ok(id), Ok((number, next))) => id == number && final(r).position() == next,
            (Err(error), Err(cause)) => error == cause,
            _ => false,
        },
{
    let mut octets: Vec<u8> = match r.read_exact(1) {
        Ok(octets) => octets,
        Err(failure) => return Err(DemuxError::IoError(failure)),
    };
    let width: u64 = width_of(octets[0]);
    if width > 4 {
        return Err(DemuxError::InvalidEbmlElementId);
    }
    let mut rest: Vec<u8> = match r.read_exact(width - 1) {
        Ok(rest) => rest,
        Err(failure) => return Err(DemuxError::IoError(failure)),
    };
    octets.append(&mut rest);
    proof {
        lemma_be_value_bound(octets@);
        lemma_be_counts(octets@.len());
    }
    Ok(be_number(&octets) as u32)
}

/// Reads an element size at the current position.
pub fn parse_size<R: Source>(r: &mut R) -> (result: Result<u64, DemuxError>)
    ensures
        final(r).media() == old(r).media(),
        match (result, size_at(old(r).media(), old(r).position() as int)) {
            (Ok(size), Ok((number, next))) => size == number && final(r).position() == next,
            (Err(error), Err(cause)) => error == cause,
            _ => false,
        },
{
    let mut octets: Vec<u8> = match r.read_exact(1) {
        Ok(octets) => octets,
        Err(failure) => return Err(DemuxError::IoError(failure)),
    };
    let width: u64 = width_of(octets[0]);
    if width > 8 {
        return Err(DemuxError::InvalidEbmlDataSize);
    }
    let mut rest: Vec<u8> = match r.read_exact(width - 1) {
        Ok(rest) => rest,
        Err(failure) => return Err(DemuxError::IoError(failure)),
    };
    octets.append(&mut rest);
    proof {
        lemma_vint_range(octets@);
    }
    let count: u64 = marker(width);
    let size: u64 = be_number(&octets) - count;
    if size == count - 1 {
        Ok(UNKNOWN_SIZE)
    } else {
        Ok(size)
    }
}

} // verus!
