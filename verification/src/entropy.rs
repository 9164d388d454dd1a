//! A byte source backed by the operating system's random number generator.

use miracl_core::rand::RAND;
use vstd::prelude::*;

verus! {

/// Number of bytes drawn from the operating system at a time.
pub const BLOCK_LEN: usize = 32;

/// `getrandom::Error`, the error of a draw that the operating system
/// refused. Nothing is known of what it holds.
#[verifier::external_type_specification]
#[verifier::external_body]
pub struct ExEntropyError(getrandom::Error);

/// Calls `getrandom::getrandom` on the whole of `block`.
///
/// The call overwrites bytes in place, so the length stays what it was.
/// Nothing is claimed of the bytes themselves or of whether the call
/// succeeds: both depend on the operating system.
#[verifier::external_body]
fn os_entropy(block: &mut Vec<u8>) -> (drawn: Result<(), getrandom::Error>)
    ensures
        final(block)@.len() == old(block)@.len(),
{
    getrandom::getrandom(block.as_mut_slice())
}

/// Serves random bytes one at a time from a block of operating-system
/// entropy, drawing a new block whenever the current one is used up.
///
/// A draw that the operating system refuses is never hidden: the source
/// remembers it, see [`WasmRAND::has_failed`].
pub struct WasmRAND {
    buffer: Vec<u8>,
    pos: usize,
    failed: bool,
}

impl WasmRAND {
    #[verifier::type_invariant]
    spec fn inv(&self) -> bool {
        self.pos <= self.buffer@.len()
    }

    /// The bytes that are buffered and not yet served, next one first.
    pub closed spec fn pending(&self) -> Seq<u8> {
        self.buffer@.subrange(self.pos as int, self.buffer@.len() as int)
    }

    /// Whether some draw from the operating system has failed so far.
    pub closed spec fn entropy_failed(&self) -> bool {
        self.failed
    }

    /// A source with nothing buffered and no failure recorded.
    pub fn new() -> (rng: Self)
        ensures
            rng.pending() == Seq::<u8>::empty(),
            !rng.entropy_failed(),
    {
        let rng = WasmRAND { buffer: Vec::new(), pos: 0, failed: false };
        assert(rng.pending() =~= Seq::<u8>::empty());
        rng
    }

    /// Whether some draw from the operating system has failed so far. Bytes
    /// served since then are not random.
    pub fn has_failed(&self) -> (failed: bool)
        ensures
            failed == self.entropy_failed(),
    {
        self.failed
    }

    /// Number of bytes that can be served before the next draw.
    pub fn available(&self) -> (n: usize)
        ensures
            n == self.pending().len(),
    {
        proof {
            use_type_invariant(&*self);
        }
        self.buffer.len() - self.pos
    }

    /// Replaces whatever is buffered by `block`, the outcome of a draw, and
    /// records a failure unless the draw succeeded.
    pub fn install(&mut self, block: Vec<u8>, drawn: bool)
        ensures
            final(self).pending() == block@,
            final(self).entropy_failed() == (old(self).entropy_failed() || !drawn),
    {
        let failed: bool = self.failed || !drawn;
        *self = WasmRAND { buffer: block, pos: 0, failed };
        assert(self.pending() =~= block@);
    }

    /// Draws a fresh block from the operating system.
    fn refill(&mut self)
        ensures
            final(self).pending().len() == BLOCK_LEN,
            old(self).entropy_failed() ==> final(self).entropy_failed(),
    {
        let mut block: Vec<u8> = vec![0u8; BLOCK_LEN];
        let drawn = os_entropy(&mut block);
        self.install(block, drawn.is_ok());
    }
}

impl RAND for WasmRAND {
    /// Discards what is buffered and draws a fresh block. The arguments are
    /// not used: the operating system is the only source of entropy.
    fn seed(&mut self, _rawlen: usize, _raw: &[u8])
        ensures
            final(self).pending().len() == BLOCK_LEN,
            old(self).entropy_failed() ==> final(self).entropy_failed(),
    {
        self.refill();
    }

    /// Serves the next byte, drawing a fresh block first if none is pending.
    fn getbyte(&mut self) -> (byte: u8)
        ensures
            old(self).pending().len() > 0 ==> {
                &&& byte == old(self).pending()[0]
                &&& final(self).pending() == old(self).pending().drop_first()
                &&& final(self).entropy_failed() == old(self).entropy_failed()
            },
            old(self).pending().len() == 0 ==> {
                &&& final(self).pending().len() == BLOCK_LEN - 1
                &&& (old(self).entropy_failed() ==> final(self).entropy_failed())
            },
    {
        proof {
            use_type_invariant(&*self);
        }
        if self.pos >= self.buffer.len() {
            self.refill();
        }
        proof {
            use_type_invariant(&*self);
        }
        let ghost before = self.pending();
        let len: usize = self.buffer.len();
        assert(self.pos < len);
        let byte: u8 = self.buffer[self.pos];
        self.pos = self.pos + 1;
        assert(self.pending() =~= before.drop_first());
        byte
    }
}

} // verus!
