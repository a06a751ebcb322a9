//! The upload boundary of the grid.
//!
//! The grid batches however many paint and simulate calls occurred since
//! the last frame into at most one upload per frame: its sync entry
//! point hands the full pixel buffer to an [`Uploader`] exactly once
//! when the dirty flag is set, and not at all otherwise. An interactive
//! caller implements the trait over whatever holds the displayed
//! texture; [`LogUploader`] records what it is handed and serves as the
//! observable double.

use vstd::prelude::*;

verus! {

/// A sink for pixel uploads. The `log` spec method names the sequence of
/// buffers uploaded so far, oldest first, so that contracts can state
/// exactly how often — and with what — the sink was invoked.
pub trait Uploader {
    /// The buffers uploaded so far, oldest first.
    spec fn log(&self) -> Seq<Seq<u8>>;

    /// Receive one full pixel buffer: dense RGBA bytes, row-major, top
    /// row first, four bytes per pixel, tightly packed.
    fn upload(&mut self, pixels: &Vec<u8>)
        ensures
            final(self).log() == old(self).log().push(pixels@),
    ;
}

/// An uploader that keeps every buffer it is handed.
pub struct LogUploader {
    uploads: Vec<Vec<u8>>,
}

impl LogUploader {
    /// A fresh uploader with an empty log.
    pub fn new() -> (u: LogUploader)
        ensures
            u.log() == Seq::<Seq<u8>>::empty(),
    {
        let u = LogUploader { uploads: Vec::new() };
        proof {
            assert(u.log() =~= Seq::<Seq<u8>>::empty());
        }
        u
    }

    /// How many uploads have been received.
    pub fn count(&self) -> (n: usize)
        ensures
            n == self.log().len(),
    {
        self.uploads.len()
    }

    /// The most recent upload.
    pub fn last(&self) -> (pixels: &Vec<u8>)
        requires
            self.log().len() > 0,
        ensures
            pixels@ == self.log().last(),
    {
        &self.uploads[self.uploads.len() - 1]
    }
}

impl Uploader for LogUploader {
    closed spec fn log(&self) -> Seq<Seq<u8>> {
        self.uploads@.map_values(|v: Vec<u8>| v@)
    }

    fn upload(&mut self, pixels: &Vec<u8>) {
        let mut copy: Vec<u8> = Vec::new();
        let mut i: usize = 0;
        while i < pixels.len()
            invariant
                i <= pixels@.len(),
                copy@ == pixels@.subrange(0, i as int),
            decreases pixels@.len() - i,
        {
            copy.push(pixels[i]);
            proof {
                assert(copy@ =~= pixels@.subrange(0, i + 1));
            }
            i = i + 1;
        }
        proof {
            assert(copy@ =~= pixels@);
        }
        self.uploads.push(copy);
        proof {
            assert(self.log() =~= old(self).log().push(pixels@));
        }
    }
}

} // verus!
