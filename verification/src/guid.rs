use vstd::prelude::*;

use uuid::Uuid;

verus! {

/// The little-endian 16-bit value of `b[i]`, `b[i + 1]`.
pub open spec fn le_u16(b: Seq<u8>, i: int) -> int {
    b[i] + b[i + 1] * 0x100
}

/// The little-endian 32-bit value of `b[i]` .. `b[i + 3]`.
pub open spec fn le_u32(b: Seq<u8>, i: int) -> int {
    b[i] + b[i + 1] * 0x100 + b[i + 2] * 0x10000 + b[i + 3] * 0x1000000
}

/// `Uuid::to_fields_le` on the UUID made by `Uuid::from_bytes(bytes)`: reads
/// the first four bytes as a little-endian `u32`, the next two pairs as
/// little-endian `u16`s, and hands out the last eight bytes as they stand.
#[verifier::external_body]
fn uuid_fields_le(bytes: [u8; 16]) -> (fields: (u32, u16, u16, [u8; 8]))
    ensures
        fields.0 == le_u32(bytes@, 0),
        fields.1 == le_u16(bytes@, 4),
        fields.2 == le_u16(bytes@, 6),
        fields.3@ == bytes@.subrange(8, 16),
{
    let uuid = Uuid::from_bytes(bytes);
    let (d1, d2, d3, d4) = uuid.to_fields_le();
    (d1, d2, d3, *d4)
}

/// The identifier that the driver gives an adapter, laid out as a Windows
/// `GUID`.
#[derive(Clone, Copy, Debug, PartialEq, Eq)]
pub struct Guid {
    pub data1: u32,
    pub data2: u16,
    pub data3: u16,
    pub data4: [u8; 8],
}

impl Guid {
    /// Whether `self` is the GUID layout of a UUID holding `bytes`: the first
    /// three fields read little-endian, the last eight bytes kept in order.
    pub open spec fn lays_out(self, bytes: Seq<u8>) -> bool {
        &&& self.data1 == le_u32(bytes, 0)
        &&& self.data2 == le_u16(bytes, 4)
        &&& self.data3 == le_u16(bytes, 6)
        &&& self.data4@ == bytes.subrange(8, 16)
    }

    /// The GUID under which an adapter is created whose identifier is the
    /// UUID holding `bytes` (in the order of the UUID's textual form).
    pub fn from_uuid_bytes(bytes: [u8; 16]) -> (guid: Guid)
        ensures
            guid.lays_out(bytes@),
            guid.data1 == bytes[0] + bytes[1] * 0x100 + bytes[2] * 0x10000 + bytes[3] * 0x1000000,
            guid.data2 == bytes[4] + bytes[5] * 0x100,
            guid.data3 == bytes[6] + bytes[7] * 0x100,
            forall|i: int| 0 <= i < 8 ==> guid.data4[i] == bytes[i + 8],
    {
        let (data1, data2, data3, data4) = uuid_fields_le(bytes);
        Guid { data1, data2, data3, data4 }
    }
}

/// The GUID layout of a UUID's sixteen bytes: bytes 0 to 3 make `data1`
/// least significant first, bytes 4 and 5 make `data2`, bytes 6 and 7 make
/// `data3`, each least significant first, and bytes 8 to 15 are `data4` in
/// order.
pub proof fn lemma_guid_layout_fields(g: Guid, bytes: Seq<u8>)
    requires
        bytes.len() == 16,
        g.lays_out(bytes),
    ensures
        g.data1 == bytes[0] + bytes[1] * 0x100 + bytes[2] * 0x10000 + bytes[3] * 0x1000000,
        g.data2 == bytes[4] + bytes[5] * 0x100,
        g.data3 == bytes[6] + bytes[7] * 0x100,
        forall|i: int| 0 <= i < 8 ==> g.data4[i] == bytes[i + 8],
{
    assert forall|i: int| 0 <= i < 8 implies g.data4[i] == bytes[i + 8] by {
        assert(g.data4@[i] == bytes.subrange(8, 16)[i]);
    }
}

/// Two UUIDs laid out as the same GUID hold the same bytes: the layout loses
/// nothing, so the GUID identifies the UUID it came from.
pub proof fn lemma_guid_layout_injective(g: Guid, a: Seq<u8>, b: Seq<u8>)
    requires
        a.len() == 16,
        b.len() == 16,
        g.lays_out(a),
        g.lays_out(b),
    ensures
        a == b,
{
    assert forall|i: int| 0 <= i < 8 implies a[i] == b[i] by {
        let (x0, x1, x2, x3) = (a[0] as int, a[1] as int, a[2] as int, a[3] as int);
        let (y0, y1, y2, y3) = (b[0] as int, b[1] as int, b[2] as int, b[3] as int);
        let (x4, x5, x6, x7) = (a[4] as int, a[5] as int, a[6] as int, a[7] as int);
        let (y4, y5, y6, y7) = (b[4] as int, b[5] as int, b[6] as int, b[7] as int);
        assert(x0 == y0 && x1 == y1 && x2 == y2 && x3 == y3) by (nonlinear_arith)
            requires
                0 <= x0 < 256, 0 <= x1 < 256, 0 <= x2 < 256, 0 <= x3 < 256,
                0 <= y0 < 256, 0 <= y1 < 256, 0 <= y2 < 256, 0 <= y3 < 256,
                x0 + x1 * 0x100 + x2 * 0x10000 + x3 * 0x1000000
                    == y0 + y1 * 0x100 + y2 * 0x10000 + y3 * 0x1000000,
        ;
        assert(x4 == y4 && x5 == y5) by (nonlinear_arith)
            requires
                0 <= x4 < 256, 0 <= x5 < 256, 0 <= y4 < 256, 0 <= y5 < 256,
                x4 + x5 * 0x100 == y4 + y5 * 0x100,
        ;
        assert(x6 == y6 && x7 == y7) by (nonlinear_arith)
            requires
                0 <= x6 < 256, 0 <= x7 < 256, 0 <= y6 < 256, 0 <= y7 < 256,
                x6 + x7 * 0x100 == y6 + y7 * 0x100,
        ;
    }
    assert forall|i: int| 8 <= i < 16 implies a[i] == b[i] by {
        assert(a.subrange(8, 16)[i - 8] == b.subrange(8, 16)[i - 8]);
    }
    assert(a =~= b);
}

} // verus!
