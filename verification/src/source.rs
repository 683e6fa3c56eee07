//! Where the octets of a file come from.

use vstd::prelude::*;

use crate::error::IoFailure;

verus! {

/// What a source holds, and which of its requests are refused.
pub struct Media {
    /// The octets of the file.
    pub octets: Seq<u8>,
    /// Whether reading so many octets (second argument) at a position (first argument) is refused.
    pub read_refused: spec_fn(int, int) -> bool,
    /// Whether moving to a position is refused.
    pub seek_refused: spec_fn(int) -> bool,
}

impl Media {
    /// What reading exactly `length` octets at `position` gives.
    pub open spec fn read(self, position: int, length: int) -> Result<Seq<u8>, IoFailure> {
        if length == 0 {
            Ok(Seq::empty())
        } else if (self.read_refused)(position, length) {
            Err(IoFailure::Refused)
        } else if 0 <= position && 0 <= length && position + length <= self.octets.len() {
            Ok(self.octets.subrange(position, position + length))
        } else {
            Err(IoFailure::UnexpectedEof)
        }
    }

    /// How many octets lie behind `position`.
    pub open spec fn remaining(self, position: int) -> nat {
        if position < self.octets.len() {
            (self.octets.len() - position) as nat
        } else {
            0
        }
    }
}

/// A file that can be read at a current position, and whose current position can be moved.
///
/// The same request is always answered in the same way: a source stands for one unchanging file.
pub trait Source: Sized {
    /// What the source holds. Nothing is known of it unless the source says what it is.
    open spec fn media(&self) -> Media {
        arbitrary()
    }

    /// The current position.
    open spec fn position(&self) -> u64 {
        arbitrary()
    }

    /// Returns the current position.
    fn stream_position(&self) -> (position: u64)
        ensures
            position == self.position(),
    ;

    /// Moves the current position to `position`, which may lie behind the end of the file.
    fn seek(&mut self, position: u64) -> (result: Result<(), IoFailure>)
        ensures
            final(self).media() == old(self).media(),
            match result {
                Ok(()) => !(old(self).media().seek_refused)(position as int),
                Err(failure) => failure == IoFailure::Refused && (old(
                    self,
                ).media().seek_refused)(position as int),
            },
            result is Ok ==> final(self).position() == position,
    ;

    /// Reads exactly `length` octets at the current position, and moves behind them.
    fn read_exact(&mut self, length: u64) -> (result: Result<Vec<u8>, IoFailure>)
        ensures
            final(self).media() == old(self).media(),
            match (
                result,
                old(self).media().read(old(self).position() as int, length as int),
            ) {
                (Ok(octets), Ok(held)) => {
                    &&& octets@ == held
                    &&& held.len() == length
                    &&& final(self).position() == old(self).position() + length
                },
                (Err(failure), Err(cause)) => failure == cause,
                _ => false,
            },
    ;
}

/// A file that is held in memory.
#[derive(Clone, Debug)]
pub struct MemoryFile {
    octets: Vec<u8>,
    position: u64,
}

impl MemoryFile {
    /// Makes a source of the given octets, positioned at their start.
    pub fn new(octets: Vec<u8>) -> (file: MemoryFile)
        ensures
            file.media().octets == octets@,
            forall|position: int, length: int| !(#[trigger] (file.media().read_refused)(position, length)),
            forall|position: int| !(#[trigger] (file.media().seek_refused)(position)),
            file.position() == 0,
    {
        MemoryFile { octets, position: 0 }
    }
}

impl Source for MemoryFile {
    closed spec fn media(&self) -> Media {
        Media {
            octets: self.octets@,
            read_refused: |position: int, length: int| false,
            seek_refused: |position: int| false,
        }
    }

    closed spec fn position(&self) -> u64 {
        self.position
    }

    fn stream_position(&self) -> (position: u64) {
        self.position
    }

    fn seek(&mut self, position: u64) -> (result: Result<(), IoFailure>) {
        self.position = position;
        Ok(())
    }

    fn read_exact(&mut self, length: u64) -> (result: Result<Vec<u8>, IoFailure>) {
        let mut octets: Vec<u8> = Vec::new();
        if length == 0 {
            assert(octets@ =~= Seq::empty());
            return Ok(octets);
        }
        let held: u64 = self.octets.len() as u64;
        if self.position > held || length > held - self.position {
            return Err(IoFailure::UnexpectedEof);
        }
        let start: usize = self.position as usize;
        let end: usize = start + length as usize;
        let mut next: usize = start;
        while next < end
            invariant
                start <= next <= end <= self.octets@.len(),
                octets@ == self.octets@.subrange(start as int, next as int),
            decreases end - next,
        {
            octets.push(self.octets[next]);
            next = next + 1;
            assert(octets@ =~= self.octets@.subrange(start as int, next as int));
        }
        self.position = self.position + length;
        Ok(octets)
    }
}

} // verus!
