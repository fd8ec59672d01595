use vstd::prelude::*;

verus! {

/// The header keys that a subfile must carry.
#[derive(Clone, Copy, Debug, PartialEq, Eq, Structural)]
pub enum HeaderKey {
    SubobsId,
    Ninputs,
    CoarseChannel,
    IdxPacketMap,
}

impl HeaderKey {
    /// The key as it is written in the header.
    pub open spec fn spec_name(self) -> Seq<char> {
        match self {
            HeaderKey::SubobsId => "SUBOBS_ID"@,
            HeaderKey::Ninputs => "NINPUTS"@,
            HeaderKey::CoarseChannel => "COARSE_CHANNEL"@,
            HeaderKey::IdxPacketMap => "IDX_PACKET_MAP"@,
        }
    }

    pub fn name(&self) -> (r: &'static str)
        ensures
            r@ == self.spec_name(),
    {
        match self {
            HeaderKey::SubobsId => "SUBOBS_ID",
            HeaderKey::Ninputs => "NINPUTS",
            HeaderKey::CoarseChannel => "COARSE_CHANNEL",
            HeaderKey::IdxPacketMap => "IDX_PACKET_MAP",
        }
    }
}

/// A key that no header line carries.
#[derive(Clone, Debug)]
pub struct MissingHeaderKey {
    pub key: String,
}

/// Why a subfile could not be turned into packet statistics.
#[derive(Clone, Copy, Debug, PartialEq, Eq, Structural)]
pub enum SubfileError {
    /// The header block is not valid UTF-8.
    InvalidUtf8,
    /// No header line carries this key.
    MissingKey(HeaderKey),
    /// The value of this key is not a non-negative decimal integer that fits.
    InvalidNumber(HeaderKey),
    /// `IDX_PACKET_MAP` has no `+` between start and length.
    MalformedPacketMapIndex,
    /// `NINPUTS` is zero, so no row width can be computed.
    ZeroInputs,
    /// The packet map length is not a multiple of `NINPUTS`.
    UnevenPacketMap,
    /// The packet map's absolute offset does not fit in 64 bits.
    PacketMapOutOfRange,
}

} // verus!
