//! The asset streaming pipeline: split an asset's payload into a start frame
//! plus continuation frames that each fit under the negotiated maximum
//! payload size, so that concatenating the chunks in emission order rebuilds
//! the payload byte for byte.

use vstd::prelude::*;
use crate::asset::Asset;
use crate::packet::{PacketV, ServerPacket};
use crate::wire::str_fits;

verus! {

/// Fixed per-datagram overhead of a streamed chunk: the reliability class
/// tag, the reliable identifier, the message tag, the chunk length prefix,
/// and headroom kept in reserve.
pub const HEADER_SIZE: usize = 1 + 8 + 2 + 2 + 16;

/// The payload a streamed chunk frame carries; empty for any other message.
pub open spec fn chunk_payload(p: ServerPacket) -> Seq<u8> {
    match p {
        ServerPacket::AssetStream { data } => data@,
        _ => Seq::empty(),
    }
}

/// The chunk payloads of `packets[from..]`, concatenated in emission order.
pub open spec fn chunks_concat(packets: Seq<ServerPacket>, from: int) -> Seq<u8>
    decreases packets.len() - from,
{
    if from < 0 || from >= packets.len() {
        Seq::empty()
    } else {
        chunk_payload(packets[from]) + chunks_concat(packets, from + 1)
    }
}

/// Frame `i` of a stream (for `i >= 1`) carries exactly the payload bytes
/// `[(i-1)*room, min(i*room, len))`: chunks in order, each under `room`
/// bytes, the last possibly shorter but never longer.
pub open spec fn chunked(packets: Seq<ServerPacket>, bytes: Seq<u8>, room: int) -> bool {
    forall|i: int|
        1 <= i < packets.len() ==> {
            &&& (i - 1) * room < bytes.len()
            &&& #[trigger] packets[i] is AssetStream
            &&& chunk_payload(packets[i]) == bytes.subrange(
                (i - 1) * room,
                if i * room < bytes.len() {
                    i * room
                } else {
                    bytes.len() as int
                },
            )
        }
}

/// Split `asset` into a start frame and bounded chunk frames.
///
/// The start frame carries the asset's name, timestamp, cacheability, media
/// kind and total byte length; each following frame carries the next chunk.
/// A zero-length payload yields the start frame and no chunks; otherwise the
/// number of chunks is exactly `ceil(len / room)`.
pub fn create_asset_stream(max_payload_size: usize, name: &str, asset: &Asset) -> (packets: Vec<
    ServerPacket,
>)
    requires
        max_payload_size > HEADER_SIZE,
        max_payload_size - HEADER_SIZE <= 0xFFFF,
        str_fits(name@),
    ensures
        ({
            let room = max_payload_size - HEADER_SIZE;
            let bytes = asset.data.spec_bytes();
            let l = bytes.len() as int;
            let k = packets@.len() - 1;
            &&& packets@.len() >= 1
            &&& packets@[0]@ == (PacketV::AssetStreamStart {
                name: name@,
                last_modified: asset.last_modified,
                cachable: asset.cachable,
                data_kind: asset.data.spec_kind(),
                size: bytes.len() as u64,
            })
            &&& (l == 0 ==> k == 0)
            &&& (l > 0 ==> (k - 1) * room < l <= k * room)
            &&& (l > 0 ==> k == (l + room - 1) / (room as int))
            &&& chunked(packets@, bytes, room as int)
            &&& forall|i: int|
                0 <= i < packets@.len() ==> crate::codec::wf_packet(#[trigger] packets@[i]@)
        }),
{
    let room = max_payload_size - HEADER_SIZE;
    let bytes = asset.data.bytes();
    let l = bytes.len();
    let ghost bs = asset.data.spec_bytes();
    let size_u64 = asset.len() as u64;
    let mut packets: Vec<ServerPacket> = Vec::new();
    let start = ServerPacket::AssetStreamStart {
        name: name.to_owned(),
        last_modified: asset.last_modified,
        cachable: asset.cachable,
        data_kind: asset.data.kind(),
        size: size_u64,
    };
    packets.push(start);
    let mut offset: usize = 0;
    let mut k: usize = 0;
    while offset < l
        invariant
            room == max_payload_size - HEADER_SIZE,
            0 < room <= 0xFFFF,
            bytes@ == bs,
            l == bs.len(),
            str_fits(name@),
            packets@.len() == k + 1,
            packets@[0]@ == (PacketV::AssetStreamStart {
                name: name@,
                last_modified: asset.last_modified,
                cachable: asset.cachable,
                data_kind: asset.data.spec_kind(),
                size: bs.len() as u64,
            }),
            offset <= l,
            offset == k * room || (offset == l && k >= 1 && (k - 1) * room < l && k * room > l),
            forall|i: int|
                1 <= i < packets@.len() ==> {
                    &&& (i - 1) * room < bs.len()
                    &&& #[trigger] packets@[i] is AssetStream
                    &&& chunk_payload(packets@[i]) == bs.subrange(
                        (i - 1) * room,
                        if i * room < bs.len() {
                            i * room
                        } else {
                            bs.len() as int
                        },
                    )
                    &&& chunk_payload(packets@[i]).len() <= room
                },
        decreases l - offset,
    {
        proof {
            assert(offset == k * room);
            assert(k <= k * room) by (nonlinear_arith)
                requires
                    room >= 1,
                    k >= 0,
            ;
        }
        let available = l - offset;
        let size = if available < room {
            available
        } else {
            room
        };
        let chunk = vstd::slice::slice_to_vec(
            vstd::slice::slice_subrange(bytes, offset, offset + size),
        );
        packets.push(ServerPacket::AssetStream { data: chunk });
        proof {
            let i: int = k + 1;
            assert(i * room == (i - 1) * room + room) by (nonlinear_arith);
            assert(chunk_payload(packets@[i]) =~= bs.subrange(
                (i - 1) * room,
                if i * room < bs.len() {
                    i * room
                } else {
                    bs.len() as int
                },
            ));
        }
        offset = offset + size;
        k = k + 1;
        proof {
            assert((k - 1) * room + room == k as int * room) by (nonlinear_arith);
        }
    }
    proof {
        let roomi = room as int;
        let li = bs.len() as int;
        let ki = k as int;
        if li == 0 {
            assert(ki == 0) by (nonlinear_arith)
                requires
                    roomi >= 1,
                    li == 0,
                    ki >= 0,
                    ki * roomi == li || (ki >= 1 && (ki - 1) * roomi < li && ki * roomi > li),
            ;
        }
        assert forall|i: int| 1 <= i < packets@.len() implies {
            &&& (i - 1) * (room as int) < bs.len()
            &&& #[trigger] packets@[i] is AssetStream
            &&& chunk_payload(packets@[i]) == bs.subrange(
                (i - 1) * (room as int),
                if i * (room as int) < bs.len() {
                    i * (room as int)
                } else {
                    bs.len() as int
                },
            )
        } by {
            assert(packets@[i] is AssetStream);
        }
        assert(chunked(packets@, bs, room as int));
        if li > 0 {
            assert(ki >= 1 && (ki - 1) * roomi < li <= ki * roomi) by (nonlinear_arith)
                requires
                    roomi >= 1,
                    li > 0,
                    ki >= 0,
                    ki * roomi == li || (ki >= 1 && (ki - 1) * roomi < li && ki * roomi > li),
            ;
            assert(ki == (li + roomi - 1) / roomi) by (nonlinear_arith)
                requires
                    roomi >= 1,
                    ki >= 1,
                    (ki - 1) * roomi < li,
                    li <= ki * roomi,
            ;
        }
        assert forall|i: int| 0 <= i < packets@.len() implies crate::codec::wf_packet(
            #[trigger] packets@[i]@,
        ) by {
            if i >= 1 {
                assert(packets@[i] is AssetStream);
                assert(chunk_payload(packets@[i]).len() <= room);
            }
        }
    }
    packets
}

/// Reassembly: concatenating the chunk payloads of an emitted stream, in
/// emission order, rebuilds the original payload exactly.
pub proof fn lemma_stream_reassembles(packets: Seq<ServerPacket>, bytes: Seq<u8>, room: int)
    requires
        room > 0,
        packets.len() >= 1,
        bytes.len() as int <= (packets.len() - 1) * room,
        chunked(packets, bytes, room),
    ensures
        chunks_concat(packets, 1) == bytes,
{
    lemma_stream_reassembles_from(packets, bytes, room, 1);
    if packets.len() == 1 {
        assert(bytes.len() as int <= 0);
        assert(chunks_concat(packets, 1) =~= bytes);
    } else {
        assert(bytes.skip(0) =~= bytes);
    }
}

proof fn lemma_stream_reassembles_from(packets: Seq<ServerPacket>, bytes: Seq<u8>, room: int, i: int)
    requires
        room > 0,
        packets.len() >= 1,
        bytes.len() as int <= (packets.len() - 1) * room,
        1 <= i <= packets.len(),
        chunked(packets, bytes, room),
    ensures
        i < packets.len() ==> chunks_concat(packets, i) == bytes.skip((i - 1) * room),
        i == packets.len() ==> chunks_concat(packets, i) == Seq::<u8>::empty(),
    decreases packets.len() - i,
{
    if i == packets.len() {
        assert(chunks_concat(packets, i) == Seq::<u8>::empty());
    } else {
        let pi = chunk_payload(packets[i]);
        assert((i - 1) * room < bytes.len());
        let m = if i * room < bytes.len() {
            i * room
        } else {
            bytes.len() as int
        };
        assert(i * room == (i - 1) * room + room) by (nonlinear_arith);
        lemma_stream_reassembles_from(packets, bytes, room, i + 1);
        if i + 1 < packets.len() {
            let pnext = chunk_payload(packets[i + 1]);
            assert(i * room < bytes.len());
            assert(m == i * room);
            assert(chunks_concat(packets, i + 1) == bytes.skip(m));
        } else {
            assert(bytes.len() as int <= (packets.len() - 1) * room);
            assert(m == bytes.len());
            assert(chunks_concat(packets, i + 1) == Seq::<u8>::empty());
            assert(bytes.skip(m) =~= Seq::<u8>::empty());
            assert(chunks_concat(packets, i + 1) == bytes.skip(m));
        }
        assert(chunks_concat(packets, i) == chunk_payload(packets[i]) + chunks_concat(
            packets,
            i + 1,
        ));
        assert(bytes.subrange((i - 1) * room, m) + bytes.skip(m) =~= bytes.skip((i - 1) * room));
    }
}

} // verus!
