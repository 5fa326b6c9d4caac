//! The boundary to the host: commands come in with host addresses given as
//! offsets into the host's shared buffer, and enter the pipeline with
//! addresses of this process.

use crate::common::base::Command;
use crate::common::bytes::{le_byte, le_u32, read_le_u32, write_le_u32};
use vstd::prelude::*;

verus! {

/// Where the host's shared buffer lies in this process.
#[derive(Debug, Clone, Copy)]
pub struct HostRegion {
    pub base: usize,
    pub size: usize,
}

/// Why a command was turned away at the boundary.
#[derive(Debug, Clone, Copy, PartialEq, Eq, Structural)]
pub enum RangeErr {
    /// The image does not lie inside the shared buffer.
    OutOfRegion,
    /// The image lies at an address that does not fit the command's 32-bit
    /// address field.
    AddressTooWide,
}

impl HostRegion {
    /// `bytes` with bytes 2 to 5 replaced by the little-endian encoding of
    /// `addr`.
    pub open spec fn with_host_addr(bytes: Seq<u8>, addr: u32) -> Seq<u8> {
        Seq::new(
            16,
            |i: int|
                if 2 <= i < 6 {
                    le_byte(addr, i - 2)
                } else {
                    bytes[i]
                },
        )
    }

    /// What becomes of the 16 bytes of a command at the boundary. A KERNEL
    /// command names its image by offset (bytes 2 to 5) and length (bytes 6
    /// to 9): the image must lie inside the buffer, and the offset is
    /// replaced by the address of the image in this process, which must fit
    /// 32 bits. Every other command passes as it is.
    pub open spec fn localized(&self, bytes: Seq<u8>) -> Result<Seq<u8>, RangeErr> {
        if bytes[0] != 0 {
            Ok(bytes)
        } else if le_u32(bytes, 2) + le_u32(bytes, 6) > self.size {
            Err(RangeErr::OutOfRegion)
        } else if self.base + le_u32(bytes, 2) > u32::MAX {
            Err(RangeErr::AddressTooWide)
        } else {
            Ok(HostRegion::with_host_addr(bytes, (self.base + le_u32(bytes, 2)) as u32))
        }
    }

    /// Takes the 16 bytes of a command over the boundary.
    pub fn localize(&self, bytes: [u8; 16]) -> (r: Result<Command, RangeErr>)
        ensures
            match r {
                Ok(cmd) => self.localized(bytes@) == Ok::<Seq<u8>, RangeErr>(cmd@),
                Err(e) => self.localized(bytes@) == Err::<Seq<u8>, RangeErr>(e),
            },
    {
        if bytes[0] != 0 {
            return Ok(Command::from_bytes(bytes));
        }
        let offset: u64 = read_le_u32(bytes.as_slice(), 2) as u64;
        let len: u64 = read_le_u32(bytes.as_slice(), 6) as u64;
        if offset + len > self.size as u64 {
            return Err(RangeErr::OutOfRegion);
        }
        if self.base as u64 > u32::MAX as u64 - offset {
            return Err(RangeErr::AddressTooWide);
        }
        let addr: [u8; 4] = write_le_u32((self.base as u64 + offset) as u32);
        let out: [u8; 16] = [
            bytes[0],
            bytes[1],
            addr[0],
            addr[1],
            addr[2],
            addr[3],
            bytes[6],
            bytes[7],
            bytes[8],
            bytes[9],
            bytes[10],
            bytes[11],
            bytes[12],
            bytes[13],
            bytes[14],
            bytes[15],
        ];
        assert(out@ =~= HostRegion::with_host_addr(
            bytes@,
            (self.base + le_u32(bytes@, 2)) as u32,
        ));
        Ok(Command::from_bytes(out))
    }
}

/// A KERNEL command that crossed the boundary carries the address of its
/// image, and its length is untouched.
pub proof fn lemma_local_addr(bytes: Seq<u8>, addr: u32)
    requires
        bytes.len() == 16,
    ensures
        le_u32(HostRegion::with_host_addr(bytes, addr), 2) == addr,
        le_u32(HostRegion::with_host_addr(bytes, addr), 6) == le_u32(bytes, 6),
        HostRegion::with_host_addr(bytes, addr)[0] == bytes[0],
        HostRegion::with_host_addr(bytes, addr)[1] == bytes[1],
{
}

} // verus!
