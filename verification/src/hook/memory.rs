//! Executable-memory scope arithmetic.
//!
//! Every write to executable code happens under a scope that covers the
//! written range with whole pages: the scope's base is the containing
//! page of the first byte and its width a multiple of the page size
//! reaching past the last byte. The protection changes themselves are the
//! embedder's to make; the scope says exactly which range they cover.

use vstd::prelude::*;

use crate::error::SubstrateError;

verus! {

/// A page-aligned range covering a patch write: protection is lifted on
/// `[address, address + width)` for the duration of the write and
/// restored when the scope ends.
pub struct ProtectedMemory {
    pub address: u64,
    pub width: u64,
}

impl ProtectedMemory {
    /// Computes the page-aligned scope covering `size` bytes at `data`.
    /// A null address or an empty range is refused.
    pub fn new(data: u64, size: usize, page_size: usize) -> (r: Result<
        ProtectedMemory,
        SubstrateError,
    >)
        requires
            0 < page_size <= 0x1_0000_0000,
            data + size + page_size < 0x8000_0000_0000_0000,
        ensures
            r is Ok <==> (data != 0 && size != 0),
            r matches Err(e) ==> e is NullPointer,
            r matches Ok(m) ==> {
                &&& m.address == (data / page_size as u64) * page_size as u64
                &&& m.width == ((data + size - 1) as u64 / (page_size as u64) + 1) * (
                page_size as int) - m.address
                &&& m.address % (page_size as u64) == 0
                &&& m.width % (page_size as u64) == 0
                &&& m.address <= data
                &&& data + size <= m.address + m.width
            },
    {
        if data == 0 || size == 0 {
            return Err(SubstrateError::NullPointer);
        }

        let p: u64 = page_size as u64;
        proof {
            let d = data as int;
            let s = size as int;
            let pi = p as int;
            assert((d / pi) * pi <= d && d < (d / pi) * pi + pi && (d / pi) * pi >= 0) by (nonlinear_arith)
                requires
                    pi > 0 && d >= 0,
            ;
            assert(((d + s - 1) / pi) * pi <= d + s - 1 && d + s - 1 < ((d + s - 1) / pi) * pi
                + pi) by (nonlinear_arith)
                requires
                    pi > 0 && d + s - 1 >= 0,
            ;
            assert((d / pi) * pi % pi == 0 && ((d + s - 1) / pi + 1) * pi % pi == 0) by (nonlinear_arith)
                requires
                    pi > 0,
            ;
            assert((((d + s - 1) / pi + 1) * pi - (d / pi) * pi) % pi == 0) by (nonlinear_arith)
                requires
                    pi > 0,
            ;
            assert(((d + s - 1) / pi + 1) * pi == ((d + s - 1) / pi) * pi + pi) by (nonlinear_arith);
        }
        let base: u64 = (data / p) * p;
        let width: u64 = ((data + size as u64 - 1) / p + 1) * p - base;
        Ok(ProtectedMemory { address: base, width })
    }
}

} // verus!
