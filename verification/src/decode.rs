//! Decoding: `spec_decode` is the exact meaning of a whole inbound buffer,
//! and `decode` computes it, reporting `MalformedMessage` on any buffer that
//! is not the encoding of a well-formed message.

use vstd::prelude::*;
use crate::direction::{direction_from_byte, spec_direction_of_byte};
use crate::packet::{
    ease_from_byte, kind_from_byte, kfs_view, posts_view, spec_ease_of_byte, spec_kind_of_byte,
    steps_view, version_id, version_id_str, ActorProperty, ActorPropertyV, BbsPost, BbsPostV,
    BoardColor, Ease, KeyFrame, KeyFrameV, PacketV, ServerPacket, VERSION_ITERATION,
};
use crate::wire::{
    p_bool, p_data, p_str, p_u16, p_u32, p_u64, p_u8, read_bool, read_data, read_string, read_u16,
    read_u32, read_u64, read_u8, rem, DecodeError,
};

verus! {

// ---------------------------------------------------------------------------
// Spec-level readers for the compound pieces
// ---------------------------------------------------------------------------

pub open spec fn p_opt_str(s: Seq<u8>) -> Option<(Option<Seq<char>>, Seq<u8>)> {
    match p_bool(s) {
        Option::None => Option::None,
        Some((present, r)) => if present {
            match p_str(r) {
                Option::None => Option::None,
                Some((t, r2)) => Some((Some(t), r2)),
            }
        } else {
            Some((Option::None, r))
        },
    }
}

pub open spec fn p_post(s: Seq<u8>) -> Option<(BbsPostV, Seq<u8>)> {
    match p_str(s) {
        Option::None => Option::None,
        Some((id, r)) => match p_bool(r) {
            Option::None => Option::None,
            Some((read, r)) => match p_str(r) {
                Option::None => Option::None,
                Some((title, r)) => match p_str(r) {
                    Option::None => Option::None,
                    Some((author, r)) => Some((BbsPostV { id, read, title, author }, r)),
                },
            },
        },
    }
}

pub open spec fn p_post_list(s: Seq<u8>, n: nat) -> Option<(Seq<BbsPostV>, Seq<u8>)>
    decreases n,
{
    if n == 0 {
        Some((Seq::empty(), s))
    } else {
        match p_post(s) {
            Option::None => Option::None,
            Some((x, r)) => match p_post_list(r, (n - 1) as nat) {
                Option::None => Option::None,
                Some((xs, r2)) => Some((seq![x] + xs, r2)),
            },
        }
    }
}

pub open spec fn p_posts(s: Seq<u8>) -> Option<(Seq<BbsPostV>, Seq<u8>)> {
    match p_u16(s) {
        Option::None => Option::None,
        Some((n, r)) => p_post_list(r, n as nat),
    }
}

pub open spec fn p_prop(s: Seq<u8>, pb: u8) -> Option<(ActorPropertyV, Seq<u8>)> {
    if pb == 0 {
        match p_str(s) {
            Option::None => Option::None,
            Some((t, r)) => Some((ActorPropertyV::Animation(t), r)),
        }
    } else if pb == 1 {
        match p_u32(s) {
            Option::None => Option::None,
            Some((v, r)) => Some((ActorPropertyV::X(v), r)),
        }
    } else if pb == 2 {
        match p_u32(s) {
            Option::None => Option::None,
            Some((v, r)) => Some((ActorPropertyV::Y(v), r)),
        }
    } else if pb == 3 {
        match p_u32(s) {
            Option::None => Option::None,
            Some((v, r)) => Some((ActorPropertyV::Z(v), r)),
        }
    } else if pb == 4 {
        match p_u32(s) {
            Option::None => Option::None,
            Some((v, r)) => Some((ActorPropertyV::ScaleX(v), r)),
        }
    } else if pb == 5 {
        match p_u32(s) {
            Option::None => Option::None,
            Some((v, r)) => Some((ActorPropertyV::ScaleY(v), r)),
        }
    } else if pb == 6 {
        match p_u32(s) {
            Option::None => Option::None,
            Some((v, r)) => Some((ActorPropertyV::Rotation(v), r)),
        }
    } else if pb == 7 {
        match p_u8(s) {
            Option::None => Option::None,
            Some((b, r)) => Some((ActorPropertyV::Direction(spec_direction_of_byte(b)), r)),
        }
    } else if pb == 8 {
        match p_str(s) {
            Option::None => Option::None,
            Some((t, r)) => Some((ActorPropertyV::SoundEffect(t), r)),
        }
    } else if pb == 9 {
        match p_str(s) {
            Option::None => Option::None,
            Some((t, r)) => Some((ActorPropertyV::SoundEffectLoop(t), r)),
        }
    } else {
        Option::None
    }
}

pub open spec fn p_step(s: Seq<u8>) -> Option<((ActorPropertyV, Ease), Seq<u8>)> {
    match p_u8(s) {
        Option::None => Option::None,
        Some((eb, r)) => match spec_ease_of_byte(eb) {
            Option::None => Option::None,
            Some(ease) => match p_u8(r) {
                Option::None => Option::None,
                Some((pb, r)) => match p_prop(r, pb) {
                    Option::None => Option::None,
                    Some((prop, r)) => Some(((prop, ease), r)),
                },
            },
        },
    }
}

pub open spec fn p_step_list(s: Seq<u8>, n: nat) -> Option<(Seq<(ActorPropertyV, Ease)>, Seq<u8>)>
    decreases n,
{
    if n == 0 {
        Some((Seq::empty(), s))
    } else {
        match p_step(s) {
            Option::None => Option::None,
            Some((x, r)) => match p_step_list(r, (n - 1) as nat) {
                Option::None => Option::None,
                Some((xs, r2)) => Some((seq![x] + xs, r2)),
            },
        }
    }
}

pub open spec fn p_keyframe(s: Seq<u8>) -> Option<(KeyFrameV, Seq<u8>)> {
    match p_u32(s) {
        Option::None => Option::None,
        Some((duration, r)) => match p_u16(r) {
            Option::None => Option::None,
            Some((n, r)) => match p_step_list(r, n as nat) {
                Option::None => Option::None,
                Some((ss, r2)) => Some((KeyFrameV { duration, property_steps: ss }, r2)),
            },
        },
    }
}

pub open spec fn p_keyframe_list(s: Seq<u8>, n: nat) -> Option<(Seq<KeyFrameV>, Seq<u8>)>
    decreases n,
{
    if n == 0 {
        Some((Seq::empty(), s))
    } else {
        match p_keyframe(s) {
            Option::None => Option::None,
            Some((x, r)) => match p_keyframe_list(r, (n - 1) as nat) {
                Option::None => Option::None,
                Some((xs, r2)) => Some((seq![x] + xs, r2)),
            },
        }
    }
}

pub open spec fn p_keyframes(s: Seq<u8>) -> Option<(Seq<KeyFrameV>, Seq<u8>)> {
    match p_u16(s) {
        Option::None => Option::None,
        Some((n, r)) => p_keyframe_list(r, n as nat),
    }
}

// ---------------------------------------------------------------------------
// Executable readers for the compound pieces
// ---------------------------------------------------------------------------

fn read_opt_string(bytes: &[u8], pos: &mut usize) -> (r: Result<Option<String>, DecodeError>)
    requires
        *old(pos) <= bytes@.len(),
    ensures
        *final(pos) <= bytes@.len(),
        match r {
            Ok(o) => p_opt_str(rem(bytes@, *old(pos) as int)) == Some(
                (crate::packet::opt_view(o), rem(bytes@, *final(pos) as int)),
            ),
            Err(_) => p_opt_str(rem(bytes@, *old(pos) as int)) is None,
        },
{
    let present = read_bool(bytes, pos)?;
    if present {
        let t = read_string(bytes, pos)?;
        Ok(Some(t))
    } else {
        Ok(Option::None)
    }
}

fn read_post(bytes: &[u8], pos: &mut usize) -> (r: Result<BbsPost, DecodeError>)
    requires
        *old(pos) <= bytes@.len(),
    ensures
        *final(pos) <= bytes@.len(),
        match r {
            Ok(p) => p_post(rem(bytes@, *old(pos) as int)) == Some(
                (p@, rem(bytes@, *final(pos) as int)),
            ),
            Err(_) => p_post(rem(bytes@, *old(pos) as int)) is None,
        },
{
    let id = read_string(bytes, pos)?;
    let read = read_bool(bytes, pos)?;
    let title = read_string(bytes, pos)?;
    let author = read_string(bytes, pos)?;
    Ok(BbsPost { id, read, title, author })
}

fn read_posts(bytes: &[u8], pos: &mut usize) -> (r: Result<Vec<BbsPost>, DecodeError>)
    requires
        *old(pos) <= bytes@.len(),
    ensures
        *final(pos) <= bytes@.len(),
        match r {
            Ok(v) => p_posts(rem(bytes@, *old(pos) as int)) == Some(
                (posts_view(v@), rem(bytes@, *final(pos) as int)),
            ),
            Err(_) => p_posts(rem(bytes@, *old(pos) as int)) is None,
        },
{
    let ghost orig = rem(bytes@, *pos as int);
    let n = read_u16(bytes, pos)?;
    let ghost r1 = rem(bytes@, *pos as int);
    let mut out: Vec<BbsPost> = Vec::new();
    let mut i: usize = 0;
    proof {
        assert(posts_view(out@) =~= Seq::<BbsPostV>::empty());
        assert(Seq::<BbsPostV>::empty() + Seq::<BbsPostV>::empty() =~= Seq::<BbsPostV>::empty());
    }
    while i < n as usize
        invariant
            *pos <= bytes@.len(),
            i <= n as usize,
            out@.len() == i,
            p_u16(orig) == Some((n, r1)),
            orig == rem(bytes@, *old(pos) as int),
            match p_post_list(rem(bytes@, *pos as int), (n as usize - i) as nat) {
                Some(res) => p_post_list(r1, n as nat) == Some((posts_view(out@) + res.0, res.1)),
                Option::None => p_post_list(r1, n as nat) is None,
            },
        decreases n as usize - i,
    {
        let ghost rem_i = rem(bytes@, *pos as int);
        let ghost out_before = out@;
        let p = read_post(bytes, pos)?;
        out.push(p);
        proof {
            let ghost tail = p_post_list(rem(bytes@, *pos as int), (n as usize - i - 1) as nat);
            assert(posts_view(out@) =~= posts_view(out_before).push(p@));
            assert(posts_view(out@) =~= posts_view(out_before) + seq![p@]);
            match tail {
                Some(res) => {
                    crate::wire::lemma_cat_assoc(posts_view(out_before), seq![p@], res.0);
                },
                Option::None => {},
            }
        }
        i = i + 1;
    }
    proof {
        assert(p_post_list(rem(bytes@, *pos as int), 0) == Some(
            (Seq::<BbsPostV>::empty(), rem(bytes@, *pos as int)),
        ));
        assert(posts_view(out@) + Seq::<BbsPostV>::empty() =~= posts_view(out@));
    }
    Ok(out)
}

fn read_step(bytes: &[u8], pos: &mut usize) -> (r: Result<(ActorProperty, Ease), DecodeError>)
    requires
        *old(pos) <= bytes@.len(),
    ensures
        *final(pos) <= bytes@.len(),
        match r {
            Ok(s) => p_step(rem(bytes@, *old(pos) as int)) == Some(
                ((s.0@, s.1), rem(bytes@, *final(pos) as int)),
            ),
            Err(_) => p_step(rem(bytes@, *old(pos) as int)) is None,
        },
{
    let eb = read_u8(bytes, pos)?;
    let ease = match ease_from_byte(eb) {
        Some(e) => e,
        Option::None => {
            return Err(DecodeError::MalformedMessage);
        },
    };
    let pb = read_u8(bytes, pos)?;
    if pb == 0 {
        let t = read_string(bytes, pos)?;
        Ok((ActorProperty::Animation(t), ease))
    } else if pb == 1 {
        let v = read_u32(bytes, pos)?;
        Ok((ActorProperty::X(v), ease))
    } else if pb == 2 {
        let v = read_u32(bytes, pos)?;
        Ok((ActorProperty::Y(v), ease))
    } else if pb == 3 {
        let v = read_u32(bytes, pos)?;
        Ok((ActorProperty::Z(v), ease))
    } else if pb == 4 {
        let v = read_u32(bytes, pos)?;
        Ok((ActorProperty::ScaleX(v), ease))
    } else if pb == 5 {
        let v = read_u32(bytes, pos)?;
        Ok((ActorProperty::ScaleY(v), ease))
    } else if pb == 6 {
        let v = read_u32(bytes, pos)?;
        Ok((ActorProperty::Rotation(v), ease))
    } else if pb == 7 {
        let b = read_u8(bytes, pos)?;
        let d = direction_from_byte(b);
        Ok((ActorProperty::Direction(d), ease))
    } else if pb == 8 {
        let t = read_string(bytes, pos)?;
        Ok((ActorProperty::SoundEffect(t), ease))
    } else if pb == 9 {
        let t = read_string(bytes, pos)?;
        Ok((ActorProperty::SoundEffectLoop(t), ease))
    } else {
        Err(DecodeError::MalformedMessage)
    }
}

fn read_keyframe(bytes: &[u8], pos: &mut usize) -> (r: Result<KeyFrame, DecodeError>)
    requires
        *old(pos) <= bytes@.len(),
    ensures
        *final(pos) <= bytes@.len(),
        match r {
            Ok(k) => p_keyframe(rem(bytes@, *old(pos) as int)) == Some(
                (k@, rem(bytes@, *final(pos) as int)),
            ),
            Err(_) => p_keyframe(rem(bytes@, *old(pos) as int)) is None,
        },
{
    let duration = read_u32(bytes, pos)?;
    let ghost rm1 = rem(bytes@, *pos as int);
    let n = read_u16(bytes, pos)?;
    let ghost r1 = rem(bytes@, *pos as int);
    let mut out: Vec<(ActorProperty, Ease)> = Vec::new();
    let mut i: usize = 0;
    proof {
        assert(steps_view(out@) =~= Seq::<(ActorPropertyV, Ease)>::empty());
    }
    while i < n as usize
        invariant
            *pos <= bytes@.len(),
            i <= n as usize,
            out@.len() == i,
            p_u32(rem(bytes@, *old(pos) as int)) == Some((duration, rm1)),
            p_u16(rm1) == Some((n, r1)),
            match p_step_list(rem(bytes@, *pos as int), (n as usize - i) as nat) {
                Some(res) => p_step_list(r1, n as nat) == Some((steps_view(out@) + res.0, res.1)),
                Option::None => p_step_list(r1, n as nat) is None,
            },
        decreases n as usize - i,
    {
        let ghost out_before = out@;
        let s = read_step(bytes, pos)?;
        out.push(s);
        proof {
            let ghost tail = p_step_list(rem(bytes@, *pos as int), (n as usize - i - 1) as nat);
            assert(steps_view(out@) =~= steps_view(out_before).push((out@[i as int].0@, out@[
                i as int
            ].1)));
            assert(steps_view(out@) =~= steps_view(out_before) + seq![(out@[i as int].0@, out@[
                i as int
            ].1)]);
            match tail {
                Some(res) => {
                    crate::wire::lemma_cat_assoc(
                        steps_view(out_before),
                        seq![(out@[i as int].0@, out@[i as int].1)],
                        res.0,
                    );
                },
                Option::None => {},
            }
        }
        i = i + 1;
    }
    proof {
        assert(p_step_list(rem(bytes@, *pos as int), 0) == Some(
            (Seq::<(ActorPropertyV, Ease)>::empty(), rem(bytes@, *pos as int)),
        ));
        assert(steps_view(out@) + Seq::<(ActorPropertyV, Ease)>::empty() =~= steps_view(out@));
    }
    let kf = KeyFrame { duration, property_steps: out };
    Ok(kf)
}

fn read_keyframes(bytes: &[u8], pos: &mut usize) -> (r: Result<Vec<KeyFrame>, DecodeError>)
    requires
        *old(pos) <= bytes@.len(),
    ensures
        *final(pos) <= bytes@.len(),
        match r {
            Ok(v) => p_keyframes(rem(bytes@, *old(pos) as int)) == Some(
                (kfs_view(v@), rem(bytes@, *final(pos) as int)),
            ),
            Err(_) => p_keyframes(rem(bytes@, *old(pos) as int)) is None,
        },
{
    let ghost orig = rem(bytes@, *pos as int);
    let n = read_u16(bytes, pos)?;
    let ghost r1 = rem(bytes@, *pos as int);
    let mut out: Vec<KeyFrame> = Vec::new();
    let mut i: usize = 0;
    proof {
        assert(kfs_view(out@) =~= Seq::<KeyFrameV>::empty());
    }
    while i < n as usize
        invariant
            *pos <= bytes@.len(),
            i <= n as usize,
            out@.len() == i,
            p_u16(orig) == Some((n, r1)),
            orig == rem(bytes@, *old(pos) as int),
            match p_keyframe_list(rem(bytes@, *pos as int), (n as usize - i) as nat) {
                Some(res) => p_keyframe_list(r1, n as nat) == Some(
                    (kfs_view(out@) + res.0, res.1),
                ),
                Option::None => p_keyframe_list(r1, n as nat) is None,
            },
        decreases n as usize - i,
    {
        let ghost out_before = out@;
        let k = read_keyframe(bytes, pos)?;
        out.push(k);
        proof {
            let ghost tail = p_keyframe_list(rem(bytes@, *pos as int), (n as usize - i - 1) as nat);
            assert(kfs_view(out@) =~= kfs_view(out_before).push(out@[i as int]@));
            assert(kfs_view(out@) =~= kfs_view(out_before) + seq![out@[i as int]@]);
            match tail {
                Some(res) => {
                    crate::wire::lemma_cat_assoc(kfs_view(out_before), seq![out@[i as int]@], res.0);
                },
                Option::None => {},
            }
        }
        i = i + 1;
    }
    proof {
        assert(p_keyframe_list(rem(bytes@, *pos as int), 0) == Some(
            (Seq::<KeyFrameV>::empty(), rem(bytes@, *pos as int)),
        ));
        assert(kfs_view(out@) + Seq::<KeyFrameV>::empty() =~= kfs_view(out@));
    }
    Ok(out)
}
/// The message a whole buffer decodes to, if any: the tag picks the kind,
/// the fields follow in declaration order, and nothing may trail them. A
/// handshake whose protocol identifier or iteration counter differs from this
/// build's is not a message of this protocol.
pub open spec fn spec_decode(bytes: Seq<u8>) -> Option<PacketV> {
    match p_u16(bytes) {
        Option::None => Option::None,
        Some((tag, r0)) => spec_decode_body(tag, r0),
    }
}

pub open spec fn spec_decode_body(tag: u16, r0: Seq<u8>) -> Option<PacketV> {
    if tag < 12 {
        spec_decode_body_a(tag, r0)
    } else if tag < 24 {
        spec_decode_body_b(tag, r0)
    } else if tag < 36 {
        spec_decode_body_c(tag, r0)
    } else if tag < 42 {
        spec_decode_body_d(tag, r0)
    } else if tag < 48 {
        spec_decode_body_e(tag, r0)
    } else {
        Option::None
    }
}

#[verifier::opaque]
pub open spec fn spec_decode_body_a(tag: u16, r0: Seq<u8>) -> Option<PacketV> {
    if tag == 0 {
        match p_str(r0) { Option::None => Option::None, Some((vid, r1)) => if vid == version_id() { match p_u64(r1) { Option::None => Option::None, Some((it, r2)) => if it == VERSION_ITERATION { match p_u16(r2) { Option::None => Option::None, Some((mps, r3)) => if r3.len() == 0 { Some(PacketV::Pong { max_payload_size: mps as usize }) } else { Option::None } } } else { Option::None } } } else { Option::None } }
    } else
    if tag == 1 {
        match p_u8(r0) { Option::None => Option::None, Some((reliability, r1)) => match p_u64(r1) { Option::None => Option::None, Some((id, r2)) => if r2.len() == 0 { Some(PacketV::Ack { reliability: reliability, id: id }) } else { Option::None } } }
    } else
    if tag == 2 {
        match p_str(r0) { Option::None => Option::None, Some((ticket, r1)) => match p_bool(r1) { Option::None => Option::None, Some((warp_in, r2)) => match p_u32(r2) { Option::None => Option::None, Some((spawn_x, r3)) => match p_u32(r3) { Option::None => Option::None, Some((spawn_y, r4)) => match p_u32(r4) { Option::None => Option::None, Some((spawn_z, r5)) => match p_u8(r5) { Option::None => Option::None, Some((spawn_direction_b, r6)) => if r6.len() == 0 { Some(PacketV::Login { ticket: ticket, warp_in: warp_in, spawn_x: spawn_x, spawn_y: spawn_y, spawn_z: spawn_z, spawn_direction: spec_direction_of_byte(spawn_direction_b) }) } else { Option::None } } } } } } }
    } else
    if tag == 3 {
        if r0.len() == 0 { Some(PacketV::CompleteConnection) } else { Option::None }
    } else
    if tag == 4 {
        if r0.len() == 0 { Some(PacketV::TransferWarp) } else { Option::None }
    } else
    if tag == 5 {
        if r0.len() == 0 { Some(PacketV::TransferStart) } else { Option::None }
    } else
    if tag == 6 {
        match p_bool(r0) { Option::None => Option::None, Some((warp_in, r1)) => match p_u8(r1) { Option::None => Option::None, Some((direction_b, r2)) => if r2.len() == 0 { Some(PacketV::TransferComplete { warp_in: warp_in, direction: spec_direction_of_byte(direction_b) }) } else { Option::None } } }
    } else
    if tag == 7 {
        match p_str(r0) { Option::None => Option::None, Some((address, r1)) => match p_u16(r1) { Option::None => Option::None, Some((port, r2)) => match p_str(r2) { Option::None => Option::None, Some((data, r3)) => match p_bool(r3) { Option::None => Option::None, Some((warp_out, r4)) => if r4.len() == 0 { Some(PacketV::TransferServer { address: address, port: port, data: data, warp_out: warp_out }) } else { Option::None } } } } }
    } else
    if tag == 8 {
        match p_str(r0) { Option::None => Option::None, Some((reason, r1)) => if r1.len() == 0 { Some(PacketV::Kick { reason: reason }) } else { Option::None } }
    } else
    if tag == 9 {
        match p_str(r0) { Option::None => Option::None, Some((path, r1)) => if r1.len() == 0 { Some(PacketV::RemoveAsset { path: path }) } else { Option::None } }
    } else
    if tag == 10 {
        match p_str(r0) { Option::None => Option::None, Some((name, r1)) => match p_u64(r1) { Option::None => Option::None, Some((last_modified, r2)) => match p_bool(r2) { Option::None => Option::None, Some((cachable, r3)) => match p_u8(r3) { Option::None => Option::None, Some((data_kind_byte, r4)) => match spec_kind_of_byte(data_kind_byte) { Option::None => Option::None, Some(data_kind) => match p_u64(r4) { Option::None => Option::None, Some((size, r5)) => if r5.len() == 0 { Some(PacketV::AssetStreamStart { name: name, last_modified: last_modified, cachable: cachable, data_kind: data_kind, size: size }) } else { Option::None } } } } } } }
    } else
    if tag == 11 {
        match p_data(r0) { Option::None => Option::None, Some((data, r1)) => if r1.len() == 0 { Some(PacketV::AssetStream { data: data }) } else { Option::None } }
    } else {
        Option::None
    }
}

#[verifier::opaque]
pub open spec fn spec_decode_body_b(tag: u16, r0: Seq<u8>) -> Option<PacketV> {
    if tag == 12 {
        match p_str(r0) { Option::None => Option::None, Some((asset_path, r1)) => if r1.len() == 0 { Some(PacketV::Preload { asset_path: asset_path }) } else { Option::None } }
    } else
    if tag == 13 {
        match p_str(r0) { Option::None => Option::None, Some((asset_path, r1)) => if r1.len() == 0 { Some(PacketV::CustomEmotesPath { asset_path: asset_path }) } else { Option::None } }
    } else
    if tag == 14 {
        match p_str(r0) { Option::None => Option::None, Some((map_path, r1)) => if r1.len() == 0 { Some(PacketV::MapUpdate { map_path: map_path }) } else { Option::None } }
    } else
    if tag == 15 {
        match p_u32(r0) { Option::None => Option::None, Some((health, r1)) => match p_u32(r1) { Option::None => Option::None, Some((max_health, r2)) => if r2.len() == 0 { Some(PacketV::Health { health: health, max_health: max_health }) } else { Option::None } } }
    } else
    if tag == 16 {
        match p_u8(r0) { Option::None => Option::None, Some((emotion, r1)) => if r1.len() == 0 { Some(PacketV::Emotion { emotion: emotion }) } else { Option::None } }
    } else
    if tag == 17 {
        match p_u32(r0) { Option::None => Option::None, Some((money, r1)) => if r1.len() == 0 { Some(PacketV::Money { money: money }) } else { Option::None } }
    } else
    if tag == 18 {
        match p_str(r0) { Option::None => Option::None, Some((path, r1)) => if r1.len() == 0 { Some(PacketV::PlaySound { path: path }) } else { Option::None } }
    } else
    if tag == 19 {
        match p_u32(r0) { Option::None => Option::None, Some((id, r1)) => if r1.len() == 0 { Some(PacketV::ExcludeObject { id: id }) } else { Option::None } }
    } else
    if tag == 20 {
        match p_u32(r0) { Option::None => Option::None, Some((id, r1)) => if r1.len() == 0 { Some(PacketV::IncludeObject { id: id }) } else { Option::None } }
    } else
    if tag == 21 {
        match p_u32(r0) { Option::None => Option::None, Some((x, r1)) => match p_u32(r1) { Option::None => Option::None, Some((y, r2)) => match p_u32(r2) { Option::None => Option::None, Some((z, r3)) => match p_u32(r3) { Option::None => Option::None, Some((hold_time, r4)) => if r4.len() == 0 { Some(PacketV::MoveCamera { x: x, y: y, z: z, hold_time: hold_time }) } else { Option::None } } } } }
    } else
    if tag == 22 {
        match p_u32(r0) { Option::None => Option::None, Some((x, r1)) => match p_u32(r1) { Option::None => Option::None, Some((y, r2)) => match p_u32(r2) { Option::None => Option::None, Some((z, r3)) => match p_u32(r3) { Option::None => Option::None, Some((duration, r4)) => if r4.len() == 0 { Some(PacketV::SlideCamera { x: x, y: y, z: z, duration: duration }) } else { Option::None } } } } }
    } else
    if tag == 23 {
        match p_u32(r0) { Option::None => Option::None, Some((strength, r1)) => match p_u32(r1) { Option::None => Option::None, Some((duration, r2)) => if r2.len() == 0 { Some(PacketV::ShakeCamera { strength: strength, duration: duration }) } else { Option::None } } }
    } else {
        Option::None
    }
}

#[verifier::opaque]
pub open spec fn spec_decode_body_c(tag: u16, r0: Seq<u8>) -> Option<PacketV> {
    if tag == 24 {
        match p_opt_str(r0) { Option::None => Option::None, Some((actor_id, r1)) => if r1.len() == 0 { Some(PacketV::TrackWithCamera { actor_id: actor_id }) } else { Option::None } }
    } else
    if tag == 25 {
        if r0.len() == 0 { Some(PacketV::UnlockCamera) } else { Option::None }
    } else
    if tag == 26 {
        if r0.len() == 0 { Some(PacketV::LockInput) } else { Option::None }
    } else
    if tag == 27 {
        if r0.len() == 0 { Some(PacketV::UnlockInput) } else { Option::None }
    } else
    if tag == 28 {
        match p_bool(r0) { Option::None => Option::None, Some((warp, r1)) => match p_u32(r1) { Option::None => Option::None, Some((x, r2)) => match p_u32(r2) { Option::None => Option::None, Some((y, r3)) => match p_u32(r3) { Option::None => Option::None, Some((z, r4)) => match p_u8(r4) { Option::None => Option::None, Some((direction_b, r5)) => if r5.len() == 0 { Some(PacketV::Teleport { warp: warp, x: x, y: y, z: z, direction: spec_direction_of_byte(direction_b) }) } else { Option::None } } } } } }
    } else
    if tag == 29 {
        match p_str(r0) { Option::None => Option::None, Some((message, r1)) => match p_str(r1) { Option::None => Option::None, Some((mug_texture_path, r2)) => match p_str(r2) { Option::None => Option::None, Some((mug_animation_path, r3)) => if r3.len() == 0 { Some(PacketV::Message { message: message, mug_texture_path: mug_texture_path, mug_animation_path: mug_animation_path }) } else { Option::None } } } }
    } else
    if tag == 30 {
        match p_str(r0) { Option::None => Option::None, Some((message, r1)) => match p_str(r1) { Option::None => Option::None, Some((mug_texture_path, r2)) => match p_str(r2) { Option::None => Option::None, Some((mug_animation_path, r3)) => if r3.len() == 0 { Some(PacketV::Question { message: message, mug_texture_path: mug_texture_path, mug_animation_path: mug_animation_path }) } else { Option::None } } } }
    } else
    if tag == 31 {
        match p_str(r0) { Option::None => Option::None, Some((option_a, r1)) => match p_str(r1) { Option::None => Option::None, Some((option_b, r2)) => match p_str(r2) { Option::None => Option::None, Some((option_c, r3)) => match p_str(r3) { Option::None => Option::None, Some((mug_texture_path, r4)) => match p_str(r4) { Option::None => Option::None, Some((mug_animation_path, r5)) => if r5.len() == 0 { Some(PacketV::Quiz { option_a: option_a, option_b: option_b, option_c: option_c, mug_texture_path: mug_texture_path, mug_animation_path: mug_animation_path }) } else { Option::None } } } } } }
    } else
    if tag == 32 {
        match p_u16(r0) { Option::None => Option::None, Some((character_limit, r1)) => match p_opt_str(r1) { Option::None => Option::None, Some((default_text, r2)) => if r2.len() == 0 { Some(PacketV::Prompt { character_limit: character_limit, default_text: default_text }) } else { Option::None } } }
    } else
    if tag == 33 {
        match p_u8(r0) { Option::None => Option::None, Some((current_depth, r1)) => match p_str(r1) { Option::None => Option::None, Some((name, r2)) => match p_u8(r2) { Option::None => Option::None, Some((c_r, r3)) => match p_u8(r3) { Option::None => Option::None, Some((c_g, r4)) => match p_u8(r4) { Option::None => Option::None, Some((c_b, r5)) => match p_posts(r5) { Option::None => Option::None, Some((posts, r6)) => if r6.len() == 0 { Some(PacketV::OpenBoard { current_depth: current_depth, name: name, color: (BoardColor { r: c_r, g: c_g, b: c_b }), posts: posts }) } else { Option::None } } } } } } }
    } else
    if tag == 34 {
        match p_u8(r0) { Option::None => Option::None, Some((current_depth, r1)) => match p_opt_str(r1) { Option::None => Option::None, Some((reference, r2)) => match p_posts(r2) { Option::None => Option::None, Some((posts, r3)) => if r3.len() == 0 { Some(PacketV::PrependPosts { current_depth: current_depth, reference: reference, posts: posts }) } else { Option::None } } } }
    } else
    if tag == 35 {
        match p_u8(r0) { Option::None => Option::None, Some((current_depth, r1)) => match p_opt_str(r1) { Option::None => Option::None, Some((reference, r2)) => match p_posts(r2) { Option::None => Option::None, Some((posts, r3)) => if r3.len() == 0 { Some(PacketV::AppendPosts { current_depth: current_depth, reference: reference, posts: posts }) } else { Option::None } } } }
    } else {
        Option::None
    }
}

#[verifier::opaque]
pub open spec fn spec_decode_body_d(tag: u16, r0: Seq<u8>) -> Option<PacketV> {
    if tag == 36 {
        match p_u8(r0) { Option::None => Option::None, Some((current_depth, r1)) => match p_str(r1) { Option::None => Option::None, Some((id, r2)) => if r2.len() == 0 { Some(PacketV::RemovePost { current_depth: current_depth, id: id }) } else { Option::None } } }
    } else
    if tag == 37 {
        if r0.len() == 0 { Some(PacketV::PostSelectionAck) } else { Option::None }
    } else
    if tag == 38 {
        if r0.len() == 0 { Some(PacketV::CloseBBS) } else { Option::None }
    } else
    if tag == 39 {
        match p_str(r0) { Option::None => Option::None, Some((address, r1)) => if r1.len() == 0 { Some(PacketV::InitiatePvp { address: address }) } else { Option::None } }
    } else
    if tag == 40 {
        match p_str(r0) { Option::None => Option::None, Some((ticket, r1)) => match p_str(r1) { Option::None => Option::None, Some((name, r2)) => match p_str(r2) { Option::None => Option::None, Some((texture_path, r3)) => match p_str(r3) { Option::None => Option::None, Some((animation_path, r4)) => match p_u8(r4) { Option::None => Option::None, Some((direction_b, r5)) => match p_u32(r5) { Option::None => Option::None, Some((x, r6)) => match p_u32(r6) { Option::None => Option::None, Some((y, r7)) => match p_u32(r7) { Option::None => Option::None, Some((z, r8)) => match p_bool(r8) { Option::None => Option::None, Some((solid, r9)) => match p_bool(r9) { Option::None => Option::None, Some((warp_in, r10)) => match p_u32(r10) { Option::None => Option::None, Some((scale_x, r11)) => match p_u32(r11) { Option::None => Option::None, Some((scale_y, r12)) => match p_u32(r12) { Option::None => Option::None, Some((rotation, r13)) => match p_opt_str(r13) { Option::None => Option::None, Some((animation, r14)) => if r14.len() == 0 { Some(PacketV::ActorConnected { ticket: ticket, name: name, texture_path: texture_path, animation_path: animation_path, direction: spec_direction_of_byte(direction_b), x: x, y: y, z: z, solid: solid, warp_in: warp_in, scale_x: scale_x, scale_y: scale_y, rotation: rotation, animation: animation }) } else { Option::None } } } } } } } } } } } } } } }
    } else
    if tag == 41 {
        match p_str(r0) { Option::None => Option::None, Some((ticket, r1)) => match p_bool(r1) { Option::None => Option::None, Some((warp_out, r2)) => if r2.len() == 0 { Some(PacketV::ActorDisconnected { ticket: ticket, warp_out: warp_out }) } else { Option::None } } }
    } else {
        Option::None
    }
}

#[verifier::opaque]
pub open spec fn spec_decode_body_e(tag: u16, r0: Seq<u8>) -> Option<PacketV> {
    if tag == 42 {
        match p_str(r0) { Option::None => Option::None, Some((ticket, r1)) => match p_str(r1) { Option::None => Option::None, Some((name, r2)) => if r2.len() == 0 { Some(PacketV::ActorSetName { ticket: ticket, name: name }) } else { Option::None } } }
    } else
    if tag == 43 {
        match p_str(r0) { Option::None => Option::None, Some((ticket, r1)) => match p_u32(r1) { Option::None => Option::None, Some((x, r2)) => match p_u32(r2) { Option::None => Option::None, Some((y, r3)) => match p_u32(r3) { Option::None => Option::None, Some((z, r4)) => match p_u8(r4) { Option::None => Option::None, Some((direction_b, r5)) => if r5.len() == 0 { Some(PacketV::ActorMove { ticket: ticket, x: x, y: y, z: z, direction: spec_direction_of_byte(direction_b) }) } else { Option::None } } } } } }
    } else
    if tag == 44 {
        match p_str(r0) { Option::None => Option::None, Some((ticket, r1)) => match p_str(r1) { Option::None => Option::None, Some((texture_path, r2)) => match p_str(r2) { Option::None => Option::None, Some((animation_path, r3)) => if r3.len() == 0 { Some(PacketV::ActorSetAvatar { ticket: ticket, texture_path: texture_path, animation_path: animation_path }) } else { Option::None } } } }
    } else
    if tag == 45 {
        match p_str(r0) { Option::None => Option::None, Some((ticket, r1)) => match p_u8(r1) { Option::None => Option::None, Some((emote_id, r2)) => match p_bool(r2) { Option::None => Option::None, Some((use_custom_emotes, r3)) => if r3.len() == 0 { Some(PacketV::ActorEmote { ticket: ticket, emote_id: emote_id, use_custom_emotes: use_custom_emotes }) } else { Option::None } } } }
    } else
    if tag == 46 {
        match p_str(r0) { Option::None => Option::None, Some((ticket, r1)) => match p_str(r1) { Option::None => Option::None, Some((state, r2)) => match p_bool(r2) { Option::None => Option::None, Some((loop_animation, r3)) => if r3.len() == 0 { Some(PacketV::ActorAnimate { ticket: ticket, state: state, loop_animation: loop_animation }) } else { Option::None } } } }
    } else
    if tag == 47 {
        match p_str(r0) { Option::None => Option::None, Some((ticket, r1)) => match p_bool(r1) { Option::None => Option::None, Some((tail, r2)) => match p_keyframes(r2) { Option::None => Option::None, Some((keyframes, r3)) => if r3.len() == 0 { Some(PacketV::ActorPropertyKeyFrames { ticket: ticket, tail: tail, keyframes: keyframes }) } else { Option::None } } } }
    } else {
        Option::None
    }
}

#[verifier::rlimit(100)]
#[verifier::spinoff_prover]
fn decode_tags_a(tag: u16, bytes: &[u8], pos: &mut usize) -> (r: Result<
    ServerPacket,
    DecodeError,
>)
    requires
        *old(pos) <= bytes@.len(),
        p_u16(bytes@) == Some((tag, rem(bytes@, *old(pos) as int))),
        0 <= tag < 12,
    ensures
        match r {
            Ok(p) => spec_decode(bytes@) == Some(p@),
            Err(_) => spec_decode(bytes@) is None,
        },
{
    proof {
        reveal(spec_decode_body_a);
    }
        match tag {
            0 => {
                let vid = read_string(bytes, pos)?;
                if !(vid == version_id_str().to_owned()) {
                    return Err(DecodeError::MalformedMessage);
                }
                let it = read_u64(bytes, pos)?;
                if it != VERSION_ITERATION {
                    return Err(DecodeError::MalformedMessage);
                }
                let mps = read_u16(bytes, pos)?;
                if *pos != bytes.len() {
                    return Err(DecodeError::MalformedMessage);
                }
                Ok(ServerPacket::Pong { max_payload_size: mps as usize })
            },
            1 => {
                let reliability = read_u8(bytes, pos)?;
                let id = read_u64(bytes, pos)?;
                if *pos != bytes.len() {
                    return Err(DecodeError::MalformedMessage);
                }
                Ok(ServerPacket::Ack { reliability: reliability, id: id })
            },
            2 => {
                let ticket = read_string(bytes, pos)?;
                let warp_in = read_bool(bytes, pos)?;
                let spawn_x = read_u32(bytes, pos)?;
                let spawn_y = read_u32(bytes, pos)?;
                let spawn_z = read_u32(bytes, pos)?;
                let spawn_direction_b = read_u8(bytes, pos)?;
                let spawn_direction = direction_from_byte(spawn_direction_b);
                if *pos != bytes.len() {
                    return Err(DecodeError::MalformedMessage);
                }
                Ok(ServerPacket::Login { ticket: ticket, warp_in: warp_in, spawn_x: spawn_x, spawn_y: spawn_y, spawn_z: spawn_z, spawn_direction: spawn_direction })
            },
            3 => {
                if *pos != bytes.len() {
                    return Err(DecodeError::MalformedMessage);
                }
                Ok(ServerPacket::CompleteConnection)
            },
            4 => {
                if *pos != bytes.len() {
                    return Err(DecodeError::MalformedMessage);
                }
                Ok(ServerPacket::TransferWarp)
            },
            5 => {
                if *pos != bytes.len() {
                    return Err(DecodeError::MalformedMessage);
                }
                Ok(ServerPacket::TransferStart)
            },
            6 => {
                let warp_in = read_bool(bytes, pos)?;
                let direction_b = read_u8(bytes, pos)?;
                let direction = direction_from_byte(direction_b);
                if *pos != bytes.len() {
                    return Err(DecodeError::MalformedMessage);
                }
                Ok(ServerPacket::TransferComplete { warp_in: warp_in, direction: direction })
            },
            7 => {
                let address = read_string(bytes, pos)?;
                let port = read_u16(bytes, pos)?;
                let data = read_string(bytes, pos)?;
                let warp_out = read_bool(bytes, pos)?;
                if *pos != bytes.len() {
                    return Err(DecodeError::MalformedMessage);
                }
                Ok(ServerPacket::TransferServer { address: address, port: port, data: data, warp_out: warp_out })
            },
            8 => {
                let reason = read_string(bytes, pos)?;
                if *pos != bytes.len() {
                    return Err(DecodeError::MalformedMessage);
                }
                Ok(ServerPacket::Kick { reason: reason })
            },
            9 => {
                let path = read_string(bytes, pos)?;
                if *pos != bytes.len() {
                    return Err(DecodeError::MalformedMessage);
                }
                Ok(ServerPacket::RemoveAsset { path: path })
            },
            10 => {
                let name = read_string(bytes, pos)?;
                let last_modified = read_u64(bytes, pos)?;
                let cachable = read_bool(bytes, pos)?;
                let data_kind_byte = read_u8(bytes, pos)?;
                let data_kind = match kind_from_byte(data_kind_byte) {
                    Some(k) => k,
                    Option::None => {
                        return Err(DecodeError::MalformedMessage);
                    },
                };
                let size = read_u64(bytes, pos)?;
                if *pos != bytes.len() {
                    return Err(DecodeError::MalformedMessage);
                }
                Ok(ServerPacket::AssetStreamStart { name: name, last_modified: last_modified, cachable: cachable, data_kind: data_kind, size: size })
            },
            11 => {
                let data = read_data(bytes, pos)?;
                if *pos != bytes.len() {
                    return Err(DecodeError::MalformedMessage);
                }
                Ok(ServerPacket::AssetStream { data: data })
            },
            _ => {
                proof {
                    assert(false);
                }
                Err(DecodeError::MalformedMessage)
            },
        }
}

#[verifier::rlimit(100)]
#[verifier::spinoff_prover]
fn decode_tags_b(tag: u16, bytes: &[u8], pos: &mut usize) -> (r: Result<
    ServerPacket,
    DecodeError,
>)
    requires
        *old(pos) <= bytes@.len(),
        p_u16(bytes@) == Some((tag, rem(bytes@, *old(pos) as int))),
        12 <= tag < 24,
    ensures
        match r {
            Ok(p) => spec_decode(bytes@) == Some(p@),
            Err(_) => spec_decode(bytes@) is None,
        },
{
    proof {
        reveal(spec_decode_body_b);
    }
        match tag {
            12 => {
                let asset_path = read_string(bytes, pos)?;
                if *pos != bytes.len() {
                    return Err(DecodeError::MalformedMessage);
                }
                Ok(ServerPacket::Preload { asset_path: asset_path })
            },
            13 => {
                let asset_path = read_string(bytes, pos)?;
                if *pos != bytes.len() {
                    return Err(DecodeError::MalformedMessage);
                }
                Ok(ServerPacket::CustomEmotesPath { asset_path: asset_path })
            },
            14 => {
                let map_path = read_string(bytes, pos)?;
                if *pos != bytes.len() {
                    return Err(DecodeError::MalformedMessage);
                }
                Ok(ServerPacket::MapUpdate { map_path: map_path })
            },
            15 => {
                let health = read_u32(bytes, pos)?;
                let max_health = read_u32(bytes, pos)?;
                if *pos != bytes.len() {
                    return Err(DecodeError::MalformedMessage);
                }
                Ok(ServerPacket::Health { health: health, max_health: max_health })
            },
            16 => {
                let emotion = read_u8(bytes, pos)?;
                if *pos != bytes.len() {
                    return Err(DecodeError::MalformedMessage);
                }
                Ok(ServerPacket::Emotion { emotion: emotion })
            },
            17 => {
                let money = read_u32(bytes, pos)?;
                if *pos != bytes.len() {
                    return Err(DecodeError::MalformedMessage);
                }
                Ok(ServerPacket::Money { money: money })
            },
            18 => {
                let path = read_string(bytes, pos)?;
                if *pos != bytes.len() {
                    return Err(DecodeError::MalformedMessage);
                }
                Ok(ServerPacket::PlaySound { path: path })
            },
            19 => {
                let id = read_u32(bytes, pos)?;
                if *pos != bytes.len() {
                    return Err(DecodeError::MalformedMessage);
                }
                Ok(ServerPacket::ExcludeObject { id: id })
            },
            20 => {
                let id = read_u32(bytes, pos)?;
                if *pos != bytes.len() {
                    return Err(DecodeError::MalformedMessage);
                }
                Ok(ServerPacket::IncludeObject { id: id })
            },
            21 => {
                let x = read_u32(bytes, pos)?;
                let y = read_u32(bytes, pos)?;
                let z = read_u32(bytes, pos)?;
                let hold_time = read_u32(bytes, pos)?;
                if *pos != bytes.len() {
                    return Err(DecodeError::MalformedMessage);
                }
                Ok(ServerPacket::MoveCamera { x: x, y: y, z: z, hold_time: hold_time })
            },
            22 => {
                let x = read_u32(bytes, pos)?;
                let y = read_u32(bytes, pos)?;
                let z = read_u32(bytes, pos)?;
                let duration = read_u32(bytes, pos)?;
                if *pos != bytes.len() {
                    return Err(DecodeError::MalformedMessage);
                }
                Ok(ServerPacket::SlideCamera { x: x, y: y, z: z, duration: duration })
            },
            23 => {
                let strength = read_u32(bytes, pos)?;
                let duration = read_u32(bytes, pos)?;
                if *pos != bytes.len() {
                    return Err(DecodeError::MalformedMessage);
                }
                Ok(ServerPacket::ShakeCamera { strength: strength, duration: duration })
            },
            _ => {
                proof {
                    assert(false);
                }
                Err(DecodeError::MalformedMessage)
            },
        }
}

#[verifier::rlimit(100)]
#[verifier::spinoff_prover]
fn decode_tags_c(tag: u16, bytes: &[u8], pos: &mut usize) -> (r: Result<
    ServerPacket,
    DecodeError,
>)
    requires
        *old(pos) <= bytes@.len(),
        p_u16(bytes@) == Some((tag, rem(bytes@, *old(pos) as int))),
        24 <= tag < 30,
    ensures
        match r {
            Ok(p) => spec_decode(bytes@) == Some(p@),
            Err(_) => spec_decode(bytes@) is None,
        },
{
    proof {
        reveal(spec_decode_body_c);
    }
        match tag {
            24 => {
                let actor_id = read_opt_string(bytes, pos)?;
                if *pos != bytes.len() {
                    return Err(DecodeError::MalformedMessage);
                }
                Ok(ServerPacket::TrackWithCamera { actor_id: actor_id })
            },
            25 => {
                if *pos != bytes.len() {
                    return Err(DecodeError::MalformedMessage);
                }
                Ok(ServerPacket::UnlockCamera)
            },
            26 => {
                if *pos != bytes.len() {
                    return Err(DecodeError::MalformedMessage);
                }
                Ok(ServerPacket::LockInput)
            },
            27 => {
                if *pos != bytes.len() {
                    return Err(DecodeError::MalformedMessage);
                }
                Ok(ServerPacket::UnlockInput)
            },
            28 => {
                let warp = read_bool(bytes, pos)?;
                let x = read_u32(bytes, pos)?;
                let y = read_u32(bytes, pos)?;
                let z = read_u32(bytes, pos)?;
                let direction_b = read_u8(bytes, pos)?;
                let direction = direction_from_byte(direction_b);
                if *pos != bytes.len() {
                    return Err(DecodeError::MalformedMessage);
                }
                Ok(ServerPacket::Teleport { warp: warp, x: x, y: y, z: z, direction: direction })
            },
            29 => {
                let message = read_string(bytes, pos)?;
                let mug_texture_path = read_string(bytes, pos)?;
                let mug_animation_path = read_string(bytes, pos)?;
                if *pos != bytes.len() {
                    return Err(DecodeError::MalformedMessage);
                }
                Ok(ServerPacket::Message { message: message, mug_texture_path: mug_texture_path, mug_animation_path: mug_animation_path })
            },
            _ => {
                proof {
                    assert(false);
                }
                Err(DecodeError::MalformedMessage)
            },
        }
}

#[verifier::rlimit(100)]
#[verifier::spinoff_prover]
fn decode_tags_c2(tag: u16, bytes: &[u8], pos: &mut usize) -> (r: Result<
    ServerPacket,
    DecodeError,
>)
    requires
        *old(pos) <= bytes@.len(),
        p_u16(bytes@) == Some((tag, rem(bytes@, *old(pos) as int))),
        30 <= tag < 33,
    ensures
        match r {
            Ok(p) => spec_decode(bytes@) == Some(p@),
            Err(_) => spec_decode(bytes@) is None,
        },
{
    proof {
        reveal(spec_decode_body_c);
    }
        match tag {
            30 => {
                let message = read_string(bytes, pos)?;
                let mug_texture_path = read_string(bytes, pos)?;
                let mug_animation_path = read_string(bytes, pos)?;
                if *pos != bytes.len() {
                    return Err(DecodeError::MalformedMessage);
                }
                Ok(ServerPacket::Question { message: message, mug_texture_path: mug_texture_path, mug_animation_path: mug_animation_path })
            },
            31 => {
                let option_a = read_string(bytes, pos)?;
                let option_b = read_string(bytes, pos)?;
                let option_c = read_string(bytes, pos)?;
                let mug_texture_path = read_string(bytes, pos)?;
                let mug_animation_path = read_string(bytes, pos)?;
                if *pos != bytes.len() {
                    return Err(DecodeError::MalformedMessage);
                }
                Ok(ServerPacket::Quiz { option_a: option_a, option_b: option_b, option_c: option_c, mug_texture_path: mug_texture_path, mug_animation_path: mug_animation_path })
            },
            32 => {
                let character_limit = read_u16(bytes, pos)?;
                let default_text = read_opt_string(bytes, pos)?;
                if *pos != bytes.len() {
                    return Err(DecodeError::MalformedMessage);
                }
                Ok(ServerPacket::Prompt { character_limit: character_limit, default_text: default_text })
            },
            _ => {
                proof {
                    assert(false);
                }
                Err(DecodeError::MalformedMessage)
            },
        }
}

#[verifier::rlimit(100)]
#[verifier::spinoff_prover]
fn decode_tags_c3(tag: u16, bytes: &[u8], pos: &mut usize) -> (r: Result<
    ServerPacket,
    DecodeError,
>)
    requires
        *old(pos) <= bytes@.len(),
        p_u16(bytes@) == Some((tag, rem(bytes@, *old(pos) as int))),
        33 <= tag < 36,
    ensures
        match r {
            Ok(p) => spec_decode(bytes@) == Some(p@),
            Err(_) => spec_decode(bytes@) is None,
        },
{
    proof {
        reveal(spec_decode_body_c);
    }
        match tag {
            33 => {
                let current_depth = read_u8(bytes, pos)?;
                let name = read_string(bytes, pos)?;
                let c_r = read_u8(bytes, pos)?;
                let c_g = read_u8(bytes, pos)?;
                let c_b = read_u8(bytes, pos)?;
                let color = BoardColor { r: c_r, g: c_g, b: c_b };
                let posts = read_posts(bytes, pos)?;
                if *pos != bytes.len() {
                    return Err(DecodeError::MalformedMessage);
                }
                Ok(ServerPacket::OpenBoard { current_depth: current_depth, name: name, color: color, posts: posts })
            },
            34 => {
                let current_depth = read_u8(bytes, pos)?;
                let reference = read_opt_string(bytes, pos)?;
                let posts = read_posts(bytes, pos)?;
                if *pos != bytes.len() {
                    return Err(DecodeError::MalformedMessage);
                }
                Ok(ServerPacket::PrependPosts { current_depth: current_depth, reference: reference, posts: posts })
            },
            35 => {
                let current_depth = read_u8(bytes, pos)?;
                let reference = read_opt_string(bytes, pos)?;
                let posts = read_posts(bytes, pos)?;
                if *pos != bytes.len() {
                    return Err(DecodeError::MalformedMessage);
                }
                Ok(ServerPacket::AppendPosts { current_depth: current_depth, reference: reference, posts: posts })
            },
            _ => {
                proof {
                    assert(false);
                }
                Err(DecodeError::MalformedMessage)
            },
        }
}

#[verifier::rlimit(100)]
#[verifier::spinoff_prover]
fn decode_tags_d(tag: u16, bytes: &[u8], pos: &mut usize) -> (r: Result<
    ServerPacket,
    DecodeError,
>)
    requires
        *old(pos) <= bytes@.len(),
        p_u16(bytes@) == Some((tag, rem(bytes@, *old(pos) as int))),
        36 <= tag < 42,
    ensures
        match r {
            Ok(p) => spec_decode(bytes@) == Some(p@),
            Err(_) => spec_decode(bytes@) is None,
        },
{
    proof {
        reveal(spec_decode_body_d);
    }
        match tag {
            36 => {
                let current_depth = read_u8(bytes, pos)?;
                let id = read_string(bytes, pos)?;
                if *pos != bytes.len() {
                    return Err(DecodeError::MalformedMessage);
                }
                Ok(ServerPacket::RemovePost { current_depth: current_depth, id: id })
            },
            37 => {
                if *pos != bytes.len() {
                    return Err(DecodeError::MalformedMessage);
                }
                Ok(ServerPacket::PostSelectionAck)
            },
            38 => {
                if *pos != bytes.len() {
                    return Err(DecodeError::MalformedMessage);
                }
                Ok(ServerPacket::CloseBBS)
            },
            39 => {
                let address = read_string(bytes, pos)?;
                if *pos != bytes.len() {
                    return Err(DecodeError::MalformedMessage);
                }
                Ok(ServerPacket::InitiatePvp { address: address })
            },
            40 => {
                let ticket = read_string(bytes, pos)?;
                let name = read_string(bytes, pos)?;
                let texture_path = read_string(bytes, pos)?;
                let animation_path = read_string(bytes, pos)?;
                let direction_b = read_u8(bytes, pos)?;
                let direction = direction_from_byte(direction_b);
                let x = read_u32(bytes, pos)?;
                let y = read_u32(bytes, pos)?;
                let z = read_u32(bytes, pos)?;
                let solid = read_bool(bytes, pos)?;
                let warp_in = read_bool(bytes, pos)?;
                let scale_x = read_u32(bytes, pos)?;
                let scale_y = read_u32(bytes, pos)?;
                let rotation = read_u32(bytes, pos)?;
                let animation = read_opt_string(bytes, pos)?;
                if *pos != bytes.len() {
                    return Err(DecodeError::MalformedMessage);
                }
                Ok(ServerPacket::ActorConnected { ticket: ticket, name: name, texture_path: texture_path, animation_path: animation_path, direction: direction, x: x, y: y, z: z, solid: solid, warp_in: warp_in, scale_x: scale_x, scale_y: scale_y, rotation: rotation, animation: animation })
            },
            41 => {
                let ticket = read_string(bytes, pos)?;
                let warp_out = read_bool(bytes, pos)?;
                if *pos != bytes.len() {
                    return Err(DecodeError::MalformedMessage);
                }
                Ok(ServerPacket::ActorDisconnected { ticket: ticket, warp_out: warp_out })
            },
            _ => {
                proof {
                    assert(false);
                }
                Err(DecodeError::MalformedMessage)
            },
        }
}

#[verifier::rlimit(100)]
#[verifier::spinoff_prover]
fn decode_tags_e(tag: u16, bytes: &[u8], pos: &mut usize) -> (r: Result<
    ServerPacket,
    DecodeError,
>)
    requires
        *old(pos) <= bytes@.len(),
        p_u16(bytes@) == Some((tag, rem(bytes@, *old(pos) as int))),
        42 <= tag < 48,
    ensures
        match r {
            Ok(p) => spec_decode(bytes@) == Some(p@),
            Err(_) => spec_decode(bytes@) is None,
        },
{
    proof {
        reveal(spec_decode_body_e);
    }
        match tag {
            42 => {
                let ticket = read_string(bytes, pos)?;
                let name = read_string(bytes, pos)?;
                if *pos != bytes.len() {
                    return Err(DecodeError::MalformedMessage);
                }
                Ok(ServerPacket::ActorSetName { ticket: ticket, name: name })
            },
            43 => {
                let ticket = read_string(bytes, pos)?;
                let x = read_u32(bytes, pos)?;
                let y = read_u32(bytes, pos)?;
                let z = read_u32(bytes, pos)?;
                let direction_b = read_u8(bytes, pos)?;
                let direction = direction_from_byte(direction_b);
                if *pos != bytes.len() {
                    return Err(DecodeError::MalformedMessage);
                }
                Ok(ServerPacket::ActorMove { ticket: ticket, x: x, y: y, z: z, direction: direction })
            },
            44 => {
                let ticket = read_string(bytes, pos)?;
                let texture_path = read_string(bytes, pos)?;
                let animation_path = read_string(bytes, pos)?;
                if *pos != bytes.len() {
                    return Err(DecodeError::MalformedMessage);
                }
                Ok(ServerPacket::ActorSetAvatar { ticket: ticket, texture_path: texture_path, animation_path: animation_path })
            },
            45 => {
                let ticket = read_string(bytes, pos)?;
                let emote_id = read_u8(bytes, pos)?;
                let use_custom_emotes = read_bool(bytes, pos)?;
                if *pos != bytes.len() {
                    return Err(DecodeError::MalformedMessage);
                }
                Ok(ServerPacket::ActorEmote { ticket: ticket, emote_id: emote_id, use_custom_emotes: use_custom_emotes })
            },
            46 => {
                let ticket = read_string(bytes, pos)?;
                let state = read_string(bytes, pos)?;
                let loop_animation = read_bool(bytes, pos)?;
                if *pos != bytes.len() {
                    return Err(DecodeError::MalformedMessage);
                }
                Ok(ServerPacket::ActorAnimate { ticket: ticket, state: state, loop_animation: loop_animation })
            },
            47 => {
                let ticket = read_string(bytes, pos)?;
                let tail = read_bool(bytes, pos)?;
                let keyframes = read_keyframes(bytes, pos)?;
                if *pos != bytes.len() {
                    return Err(DecodeError::MalformedMessage);
                }
                Ok(ServerPacket::ActorPropertyKeyFrames { ticket: ticket, tail: tail, keyframes: keyframes })
            },
            _ => {
                proof {
                    assert(false);
                }
                Err(DecodeError::MalformedMessage)
            },
        }
}

/// Decode one whole buffer into a message, or report it malformed: an
/// unknown tag, a length prefix past the end of the buffer, an enumeration
/// byte out of range, a handshake of another protocol build, or trailing
/// bytes.
pub fn decode(bytes: &[u8]) -> (r: Result<ServerPacket, DecodeError>)
    ensures
        match r {
            Ok(p) => spec_decode(bytes@) == Some(p@),
            Err(_) => spec_decode(bytes@) is None,
        },
{
    let mut pos: usize = 0;
    proof {
        assert(rem(bytes@, 0) =~= bytes@);
    }
    let tag = match read_u16(bytes, &mut pos) {
        Ok(t) => t,
        Err(e) => {
            return Err(e);
        },
    };
    if tag < 12 {
        decode_tags_a(tag, bytes, &mut pos)
    } else if tag < 24 {
        decode_tags_b(tag, bytes, &mut pos)
    } else if tag < 30 {
        decode_tags_c(tag, bytes, &mut pos)
    } else if tag < 33 {
        decode_tags_c2(tag, bytes, &mut pos)
    } else if tag < 36 {
        decode_tags_c3(tag, bytes, &mut pos)
    } else if tag < 42 {
        decode_tags_d(tag, bytes, &mut pos)
    } else if tag < 48 {
        decode_tags_e(tag, bytes, &mut pos)
    } else {
        Err(DecodeError::MalformedMessage)
    }
}

} // verus!
