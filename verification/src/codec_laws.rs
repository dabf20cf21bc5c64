//! The round-trip law of the codec: decoding undoes encoding for every
//! message kind and every well-formed field value, boundary cases included.

use vstd::prelude::*;
use vstd::utf8::encode_utf8;
use crate::codec::{
    enc_keyframes, enc_opt_str, enc_post, enc_post_list, enc_posts, enc_keyframe,
    enc_keyframe_list, enc_prop_payload, enc_step, enc_step_list, in_group_a, in_group_b,
    in_group_c, in_group_d, spec_encode, wf_keyframe, wf_keyframes, wf_opt_str, wf_packet,
    wf_post, wf_posts, wf_step,
};
use crate::decode::{
    p_keyframe, p_keyframe_list, p_keyframes, p_opt_str, p_post, p_post_list, p_posts, p_prop,
    p_step, p_step_list, spec_decode, spec_decode_body, spec_decode_body_a, spec_decode_body_b,
    spec_decode_body_c, spec_decode_body_d, spec_decode_body_e,
};
use crate::direction::spec_direction_byte;
use crate::packet::{
    spec_ease_identifier, spec_ease_of_byte, spec_kind_byte, spec_kind_of_byte,
    spec_property_identifier, version_id, ActorPropertyV, BbsPostV, BoardColor, Ease, KeyFrameV,
    PacketV, VERSION_ITERATION,
};
use crate::wire::{
    enc_bool, enc_data, enc_str, enc_u16, enc_u32, enc_u64, enc_u8, le_bytes, lemma_encode_utf8_len,
    lemma_p_bool_round, lemma_p_data_round, lemma_p_str_round, lemma_p_u16_round,
    lemma_p_u32_round, lemma_p_u64_round, lemma_p_u8_round, p_u16, str_fits,
};

verus! {

proof fn lemma_version_id_fits()
    ensures
        str_fits(version_id()),
{
    reveal_strlit("netcore-protocol");
    assert(version_id().len() == 16);
    lemma_encode_utf8_len(version_id());
}

#[verifier::rlimit(100)]
#[verifier::spinoff_prover]
proof fn lemma_p_opt_str_round(o: Option<Seq<char>>, rest: Seq<u8>)
    requires
        wf_opt_str(o),
    ensures
        p_opt_str(enc_opt_str(o) + rest) == Some((o, rest)),
{
    match o {
        Some(s) => {
            assert(enc_opt_str(o) + rest =~= enc_bool(true) + (enc_str(s) + rest));
            lemma_p_bool_round(true, enc_str(s) + rest);
            lemma_p_str_round(s, rest);
        },
        Option::None => {
            assert(enc_opt_str(o) + rest =~= enc_bool(false) + rest);
            lemma_p_bool_round(false, rest);
        },
    }
}

#[verifier::rlimit(100)]
#[verifier::spinoff_prover]
proof fn lemma_p_post_round(p: BbsPostV, rest: Seq<u8>)
    requires
        wf_post(p),
    ensures
        p_post(enc_post(p) + rest) == Some((p, rest)),
{
    let r4: Seq<u8> = rest;
    let r3 = enc_str(p.author) + r4;
    let r2 = enc_str(p.title) + r3;
    let r1 = enc_bool(p.read) + r2;
    assert(enc_post(p) + rest =~= enc_str(p.id) + r1);
    lemma_p_str_round(p.id, r1);
    lemma_p_bool_round(p.read, r2);
    lemma_p_str_round(p.title, r3);
    lemma_p_str_round(p.author, r4);
    assert((BbsPostV { id: p.id, read: p.read, title: p.title, author: p.author }) == p);
}

#[verifier::rlimit(100)]
#[verifier::spinoff_prover]
proof fn lemma_p_post_list_round(ps: Seq<BbsPostV>, rest: Seq<u8>)
    requires
        forall|i: int| 0 <= i < ps.len() ==> wf_post(#[trigger] ps[i]),
    ensures
        p_post_list(enc_post_list(ps) + rest, ps.len()) == Some((ps, rest)),
    decreases ps.len(),
{
    if ps.len() == 0 {
        assert(enc_post_list(ps) + rest =~= rest);
        assert(ps =~= Seq::<BbsPostV>::empty());
    } else {
        let t = ps.drop_first();
        assert forall|i: int| 0 <= i < t.len() implies wf_post(#[trigger] t[i]) by {
            assert(t[i] == ps[i + 1]);
        }
        assert(enc_post_list(ps) + rest =~= enc_post(ps[0]) + (enc_post_list(t) + rest));
        lemma_p_post_round(ps[0], enc_post_list(t) + rest);
        lemma_p_post_list_round(t, rest);
        assert(seq![ps[0]] + t =~= ps);
    }
}

#[verifier::rlimit(100)]
#[verifier::spinoff_prover]
proof fn lemma_p_posts_round(ps: Seq<BbsPostV>, rest: Seq<u8>)
    requires
        wf_posts(ps),
    ensures
        p_posts(enc_posts(ps) + rest) == Some((ps, rest)),
{
    let n = ps.len() as u16;
    assert(n as nat == ps.len());
    assert(le_bytes(ps.len(), 2) == enc_u16(n));
    assert(enc_posts(ps) + rest =~= enc_u16(n) + (enc_post_list(ps) + rest));
    lemma_p_u16_round(n, enc_post_list(ps) + rest);
    lemma_p_post_list_round(ps, rest);
}

#[verifier::rlimit(100)]
#[verifier::spinoff_prover]
proof fn lemma_p_prop_round(p: ActorPropertyV, rest: Seq<u8>)
    requires
        match p {
            ActorPropertyV::Animation(t) => str_fits(t),
            ActorPropertyV::SoundEffect(t) => str_fits(t),
            ActorPropertyV::SoundEffectLoop(t) => str_fits(t),
            _ => true,
        },
    ensures
        p_prop(enc_prop_payload(p) + rest, spec_property_identifier(p)) == Some((p, rest)),
{
    match p {
        ActorPropertyV::Animation(t) => {
            lemma_p_str_round(t, rest);
        },
        ActorPropertyV::X(w) => {
            lemma_p_u32_round(w, rest);
        },
        ActorPropertyV::Y(w) => {
            lemma_p_u32_round(w, rest);
        },
        ActorPropertyV::Z(w) => {
            lemma_p_u32_round(w, rest);
        },
        ActorPropertyV::ScaleX(w) => {
            lemma_p_u32_round(w, rest);
        },
        ActorPropertyV::ScaleY(w) => {
            lemma_p_u32_round(w, rest);
        },
        ActorPropertyV::Rotation(w) => {
            lemma_p_u32_round(w, rest);
        },
        ActorPropertyV::Direction(d) => {
            lemma_p_u8_round(spec_direction_byte(d), rest);
            crate::direction::lemma_direction_round(d);
        },
        ActorPropertyV::SoundEffect(t) => {
            lemma_p_str_round(t, rest);
        },
        ActorPropertyV::SoundEffectLoop(t) => {
            lemma_p_str_round(t, rest);
        },
    }
}

#[verifier::rlimit(100)]
#[verifier::spinoff_prover]
proof fn lemma_p_step_round(s: (ActorPropertyV, Ease), rest: Seq<u8>)
    requires
        wf_step(s),
    ensures
        p_step(enc_step(s) + rest) == Some((s, rest)),
{
    let r2 = enc_prop_payload(s.0) + rest;
    let r1 = enc_u8(spec_property_identifier(s.0)) + r2;
    assert(enc_step(s) + rest =~= enc_u8(spec_ease_identifier(s.1)) + r1);
    lemma_p_u8_round(spec_ease_identifier(s.1), r1);
    assert(spec_ease_of_byte(spec_ease_identifier(s.1)) == Some(s.1));
    lemma_p_u8_round(spec_property_identifier(s.0), r2);
    lemma_p_prop_round(s.0, rest);
    assert((s.0, s.1) == s);
}

#[verifier::rlimit(100)]
#[verifier::spinoff_prover]
proof fn lemma_p_step_list_round(ss: Seq<(ActorPropertyV, Ease)>, rest: Seq<u8>)
    requires
        forall|i: int| 0 <= i < ss.len() ==> wf_step(#[trigger] ss[i]),
    ensures
        p_step_list(enc_step_list(ss) + rest, ss.len()) == Some((ss, rest)),
    decreases ss.len(),
{
    if ss.len() == 0 {
        assert(enc_step_list(ss) + rest =~= rest);
        assert(ss =~= Seq::<(ActorPropertyV, Ease)>::empty());
    } else {
        let t = ss.drop_first();
        assert forall|i: int| 0 <= i < t.len() implies wf_step(#[trigger] t[i]) by {
            assert(t[i] == ss[i + 1]);
        }
        assert(enc_step_list(ss) + rest =~= enc_step(ss[0]) + (enc_step_list(t) + rest));
        lemma_p_step_round(ss[0], enc_step_list(t) + rest);
        lemma_p_step_list_round(t, rest);
        assert(seq![ss[0]] + t =~= ss);
    }
}

#[verifier::rlimit(100)]
#[verifier::spinoff_prover]
proof fn lemma_p_keyframe_round(k: KeyFrameV, rest: Seq<u8>)
    requires
        wf_keyframe(k),
    ensures
        p_keyframe(enc_keyframe(k) + rest) == Some((k, rest)),
{
    let n = k.property_steps.len() as u16;
    assert(n as nat == k.property_steps.len());
    assert(le_bytes(k.property_steps.len(), 2) == enc_u16(n));
    let r2 = enc_step_list(k.property_steps) + rest;
    let r1 = enc_u16(n) + r2;
    assert(enc_keyframe(k) + rest =~= enc_u32(k.duration) + r1);
    lemma_p_u32_round(k.duration, r1);
    lemma_p_u16_round(n, r2);
    lemma_p_step_list_round(k.property_steps, rest);
    assert((KeyFrameV { duration: k.duration, property_steps: k.property_steps }) == k);
}

#[verifier::rlimit(100)]
#[verifier::spinoff_prover]
proof fn lemma_p_keyframe_list_round(ks: Seq<KeyFrameV>, rest: Seq<u8>)
    requires
        forall|i: int| 0 <= i < ks.len() ==> wf_keyframe(#[trigger] ks[i]),
    ensures
        p_keyframe_list(enc_keyframe_list(ks) + rest, ks.len()) == Some((ks, rest)),
    decreases ks.len(),
{
    if ks.len() == 0 {
        assert(enc_keyframe_list(ks) + rest =~= rest);
        assert(ks =~= Seq::<KeyFrameV>::empty());
    } else {
        let t = ks.drop_first();
        assert forall|i: int| 0 <= i < t.len() implies wf_keyframe(#[trigger] t[i]) by {
            assert(t[i] == ks[i + 1]);
        }
        assert(enc_keyframe_list(ks) + rest =~= enc_keyframe(ks[0]) + (enc_keyframe_list(t)
            + rest));
        lemma_p_keyframe_round(ks[0], enc_keyframe_list(t) + rest);
        lemma_p_keyframe_list_round(t, rest);
        assert(seq![ks[0]] + t =~= ks);
    }
}

#[verifier::rlimit(100)]
#[verifier::spinoff_prover]
proof fn lemma_p_keyframes_round(ks: Seq<KeyFrameV>, rest: Seq<u8>)
    requires
        wf_keyframes(ks),
    ensures
        p_keyframes(enc_keyframes(ks) + rest) == Some((ks, rest)),
{
    let n = ks.len() as u16;
    assert(n as nat == ks.len());
    assert(le_bytes(ks.len(), 2) == enc_u16(n));
    assert(enc_keyframes(ks) + rest =~= enc_u16(n) + (enc_keyframe_list(ks) + rest));
    lemma_p_u16_round(n, enc_keyframe_list(ks) + rest);
    lemma_p_keyframe_list_round(ks, rest);
}

#[verifier::rlimit(100)]
#[verifier::spinoff_prover]
proof fn lemma_rt_pong(v: PacketV)
    requires
        wf_packet(v),
        v is Pong,
    ensures
        spec_decode(spec_encode(v)) == Some(v),
{    reveal(spec_decode_body_a);

    match v {
        PacketV::Pong { max_payload_size } => {
            let r3: Seq<u8> = Seq::empty();
            let r2 = le_bytes(max_payload_size as nat, 2) + r3;
            let r1 = enc_u64(VERSION_ITERATION) + r2;
            let r0 = enc_str(version_id()) + r1;
            assert(spec_encode(v) =~= enc_u16(0) + r0);
            lemma_p_u16_round(0u16, r0);
            lemma_version_id_fits();
            lemma_p_str_round(version_id(), r1);
            lemma_p_u64_round(VERSION_ITERATION, r2);
            assert((max_payload_size as u16) as nat == max_payload_size as nat);
            assert(le_bytes(max_payload_size as nat, 2) == enc_u16(max_payload_size as u16));
            lemma_p_u16_round(max_payload_size as u16, r3);
            assert((max_payload_size as u16) as usize == max_payload_size);
            assert(spec_decode(spec_encode(v)) == Some(v));
        },
        _ => {
            assert(false);
        },
    }
}

#[verifier::rlimit(100)]
#[verifier::spinoff_prover]
proof fn lemma_rt_ack(v: PacketV)
    requires
        wf_packet(v),
        v is Ack,
    ensures
        spec_decode(spec_encode(v)) == Some(v),
{    reveal(spec_decode_body_a);

    match v {
        PacketV::Ack { reliability, id } => {
            let r2: Seq<u8> = Seq::empty();
            let r1 = enc_u64(id) + r2;
            let r0 = enc_u8(reliability) + r1;
            assert(spec_encode(v) =~= enc_u16(1) + r0);
            lemma_p_u16_round(1u16, r0);
            lemma_p_u8_round(reliability, r1);
            lemma_p_u64_round(id, r2);
            assert(spec_decode(spec_encode(v)) == Some(v));
        },
        _ => {
            assert(false);
        },
    }
}

#[verifier::rlimit(100)]
#[verifier::spinoff_prover]
proof fn lemma_rt_login(v: PacketV)
    requires
        wf_packet(v),
        v is Login,
    ensures
        spec_decode(spec_encode(v)) == Some(v),
{    reveal(spec_decode_body_a);

    match v {
        PacketV::Login { ticket, warp_in, spawn_x, spawn_y, spawn_z, spawn_direction } => {
            let r6: Seq<u8> = Seq::empty();
            let r5 = enc_u8(spec_direction_byte(spawn_direction)) + r6;
            let r4 = enc_u32(spawn_z) + r5;
            let r3 = enc_u32(spawn_y) + r4;
            let r2 = enc_u32(spawn_x) + r3;
            let r1 = enc_bool(warp_in) + r2;
            let r0 = enc_str(ticket) + r1;
            assert(spec_encode(v) =~= enc_u16(2) + r0);
            lemma_p_u16_round(2u16, r0);
            lemma_p_str_round(ticket, r1);
            lemma_p_bool_round(warp_in, r2);
            lemma_p_u32_round(spawn_x, r3);
            lemma_p_u32_round(spawn_y, r4);
            lemma_p_u32_round(spawn_z, r5);
            lemma_p_u8_round(spec_direction_byte(spawn_direction), r6);
            crate::direction::lemma_direction_round(spawn_direction);
            assert(spec_decode(spec_encode(v)) == Some(v));
        },
        _ => {
            assert(false);
        },
    }
}

#[verifier::rlimit(100)]
#[verifier::spinoff_prover]
proof fn lemma_rt_complete_connection(v: PacketV)
    requires
        wf_packet(v),
        v is CompleteConnection,
    ensures
        spec_decode(spec_encode(v)) == Some(v),
{    reveal(spec_decode_body_a);

    match v {
        PacketV::CompleteConnection => {
            let r0: Seq<u8> = Seq::empty();
            assert(spec_encode(v) =~= enc_u16(3) + r0);
            lemma_p_u16_round(3u16, r0);
            assert(spec_decode(spec_encode(v)) == Some(v));
        },
        _ => {
            assert(false);
        },
    }
}

#[verifier::rlimit(100)]
#[verifier::spinoff_prover]
proof fn lemma_rt_transfer_warp(v: PacketV)
    requires
        wf_packet(v),
        v is TransferWarp,
    ensures
        spec_decode(spec_encode(v)) == Some(v),
{    reveal(spec_decode_body_a);

    match v {
        PacketV::TransferWarp => {
            let r0: Seq<u8> = Seq::empty();
            assert(spec_encode(v) =~= enc_u16(4) + r0);
            lemma_p_u16_round(4u16, r0);
            assert(spec_decode(spec_encode(v)) == Some(v));
        },
        _ => {
            assert(false);
        },
    }
}

#[verifier::rlimit(100)]
#[verifier::spinoff_prover]
proof fn lemma_rt_transfer_start(v: PacketV)
    requires
        wf_packet(v),
        v is TransferStart,
    ensures
        spec_decode(spec_encode(v)) == Some(v),
{    reveal(spec_decode_body_a);

    match v {
        PacketV::TransferStart => {
            let r0: Seq<u8> = Seq::empty();
            assert(spec_encode(v) =~= enc_u16(5) + r0);
            lemma_p_u16_round(5u16, r0);
            assert(spec_decode(spec_encode(v)) == Some(v));
        },
        _ => {
            assert(false);
        },
    }
}

#[verifier::rlimit(100)]
#[verifier::spinoff_prover]
proof fn lemma_rt_transfer_complete(v: PacketV)
    requires
        wf_packet(v),
        v is TransferComplete,
    ensures
        spec_decode(spec_encode(v)) == Some(v),
{    reveal(spec_decode_body_a);

    match v {
        PacketV::TransferComplete { warp_in, direction } => {
            let r2: Seq<u8> = Seq::empty();
            let r1 = enc_u8(spec_direction_byte(direction)) + r2;
            let r0 = enc_bool(warp_in) + r1;
            assert(spec_encode(v) =~= enc_u16(6) + r0);
            lemma_p_u16_round(6u16, r0);
            lemma_p_bool_round(warp_in, r1);
            lemma_p_u8_round(spec_direction_byte(direction), r2);
            crate::direction::lemma_direction_round(direction);
            assert(spec_decode(spec_encode(v)) == Some(v));
        },
        _ => {
            assert(false);
        },
    }
}

#[verifier::rlimit(100)]
#[verifier::spinoff_prover]
proof fn lemma_rt_transfer_server(v: PacketV)
    requires
        wf_packet(v),
        v is TransferServer,
    ensures
        spec_decode(spec_encode(v)) == Some(v),
{    reveal(spec_decode_body_a);

    match v {
        PacketV::TransferServer { address, port, data, warp_out } => {
            let r4: Seq<u8> = Seq::empty();
            let r3 = enc_bool(warp_out) + r4;
            let r2 = enc_str(data) + r3;
            let r1 = enc_u16(port) + r2;
            let r0 = enc_str(address) + r1;
            assert(spec_encode(v) =~= enc_u16(7) + r0);
            lemma_p_u16_round(7u16, r0);
            lemma_p_str_round(address, r1);
            lemma_p_u16_round(port, r2);
            lemma_p_str_round(data, r3);
            lemma_p_bool_round(warp_out, r4);
            assert(spec_decode(spec_encode(v)) == Some(v));
        },
        _ => {
            assert(false);
        },
    }
}

#[verifier::rlimit(100)]
#[verifier::spinoff_prover]
proof fn lemma_rt_kick(v: PacketV)
    requires
        wf_packet(v),
        v is Kick,
    ensures
        spec_decode(spec_encode(v)) == Some(v),
{    reveal(spec_decode_body_a);

    match v {
        PacketV::Kick { reason } => {
            let r1: Seq<u8> = Seq::empty();
            let r0 = enc_str(reason) + r1;
            assert(spec_encode(v) =~= enc_u16(8) + r0);
            lemma_p_u16_round(8u16, r0);
            lemma_p_str_round(reason, r1);
            assert(spec_decode(spec_encode(v)) == Some(v));
        },
        _ => {
            assert(false);
        },
    }
}

#[verifier::rlimit(100)]
#[verifier::spinoff_prover]
proof fn lemma_rt_remove_asset(v: PacketV)
    requires
        wf_packet(v),
        v is RemoveAsset,
    ensures
        spec_decode(spec_encode(v)) == Some(v),
{    reveal(spec_decode_body_a);

    match v {
        PacketV::RemoveAsset { path } => {
            let r1: Seq<u8> = Seq::empty();
            let r0 = enc_str(path) + r1;
            assert(spec_encode(v) =~= enc_u16(9) + r0);
            lemma_p_u16_round(9u16, r0);
            lemma_p_str_round(path, r1);
            assert(spec_decode(spec_encode(v)) == Some(v));
        },
        _ => {
            assert(false);
        },
    }
}

#[verifier::rlimit(100)]
#[verifier::spinoff_prover]
proof fn lemma_rt_asset_stream_start(v: PacketV)
    requires
        wf_packet(v),
        v is AssetStreamStart,
    ensures
        spec_decode(spec_encode(v)) == Some(v),
{    reveal(spec_decode_body_a);

    match v {
        PacketV::AssetStreamStart { name, last_modified, cachable, data_kind, size } => {
            let r5: Seq<u8> = Seq::empty();
            let r4 = enc_u64(size) + r5;
            let r3 = enc_u8(spec_kind_byte(data_kind)) + r4;
            let r2 = enc_bool(cachable) + r3;
            let r1 = enc_u64(last_modified) + r2;
            let r0 = enc_str(name) + r1;
            assert(spec_encode(v) =~= enc_u16(10) + r0);
            lemma_p_u16_round(10u16, r0);
            lemma_p_str_round(name, r1);
            lemma_p_u64_round(last_modified, r2);
            lemma_p_bool_round(cachable, r3);
            lemma_p_u8_round(spec_kind_byte(data_kind), r4);
            assert(spec_kind_of_byte(spec_kind_byte(data_kind)) == Some(data_kind));
            lemma_p_u64_round(size, r5);
            assert(spec_decode(spec_encode(v)) == Some(v));
        },
        _ => {
            assert(false);
        },
    }
}

#[verifier::rlimit(100)]
#[verifier::spinoff_prover]
proof fn lemma_rt_asset_stream(v: PacketV)
    requires
        wf_packet(v),
        v is AssetStream,
    ensures
        spec_decode(spec_encode(v)) == Some(v),
{    reveal(spec_decode_body_a);

    match v {
        PacketV::AssetStream { data } => {
            let r1: Seq<u8> = Seq::empty();
            let r0 = enc_data(data) + r1;
            assert(spec_encode(v) =~= enc_u16(11) + r0);
            lemma_p_u16_round(11u16, r0);
            lemma_p_data_round(data, r1);
            assert(spec_decode(spec_encode(v)) == Some(v));
        },
        _ => {
            assert(false);
        },
    }
}

#[verifier::rlimit(100)]
#[verifier::spinoff_prover]
proof fn lemma_rt_preload(v: PacketV)
    requires
        wf_packet(v),
        v is Preload,
    ensures
        spec_decode(spec_encode(v)) == Some(v),
{    reveal(spec_decode_body_b);

    match v {
        PacketV::Preload { asset_path } => {
            let r1: Seq<u8> = Seq::empty();
            let r0 = enc_str(asset_path) + r1;
            assert(spec_encode(v) =~= enc_u16(12) + r0);
            lemma_p_u16_round(12u16, r0);
            lemma_p_str_round(asset_path, r1);
            assert(spec_decode(spec_encode(v)) == Some(v));
        },
        _ => {
            assert(false);
        },
    }
}

#[verifier::rlimit(100)]
#[verifier::spinoff_prover]
proof fn lemma_rt_custom_emotes_path(v: PacketV)
    requires
        wf_packet(v),
        v is CustomEmotesPath,
    ensures
        spec_decode(spec_encode(v)) == Some(v),
{    reveal(spec_decode_body_b);

    match v {
        PacketV::CustomEmotesPath { asset_path } => {
            let r1: Seq<u8> = Seq::empty();
            let r0 = enc_str(asset_path) + r1;
            assert(spec_encode(v) =~= enc_u16(13) + r0);
            lemma_p_u16_round(13u16, r0);
            lemma_p_str_round(asset_path, r1);
            assert(spec_decode(spec_encode(v)) == Some(v));
        },
        _ => {
            assert(false);
        },
    }
}

#[verifier::rlimit(100)]
#[verifier::spinoff_prover]
proof fn lemma_rt_map_update(v: PacketV)
    requires
        wf_packet(v),
        v is MapUpdate,
    ensures
        spec_decode(spec_encode(v)) == Some(v),
{    reveal(spec_decode_body_b);

    match v {
        PacketV::MapUpdate { map_path } => {
            let r1: Seq<u8> = Seq::empty();
            let r0 = enc_str(map_path) + r1;
            assert(spec_encode(v) =~= enc_u16(14) + r0);
            lemma_p_u16_round(14u16, r0);
            lemma_p_str_round(map_path, r1);
            assert(spec_decode(spec_encode(v)) == Some(v));
        },
        _ => {
            assert(false);
        },
    }
}

#[verifier::rlimit(100)]
#[verifier::spinoff_prover]
proof fn lemma_rt_health(v: PacketV)
    requires
        wf_packet(v),
        v is Health,
    ensures
        spec_decode(spec_encode(v)) == Some(v),
{    reveal(spec_decode_body_b);

    match v {
        PacketV::Health { health, max_health } => {
            let r2: Seq<u8> = Seq::empty();
            let r1 = enc_u32(max_health) + r2;
            let r0 = enc_u32(health) + r1;
            assert(spec_encode(v) =~= enc_u16(15) + r0);
            lemma_p_u16_round(15u16, r0);
            lemma_p_u32_round(health, r1);
            lemma_p_u32_round(max_health, r2);
            assert(spec_decode(spec_encode(v)) == Some(v));
        },
        _ => {
            assert(false);
        },
    }
}

#[verifier::rlimit(100)]
#[verifier::spinoff_prover]
proof fn lemma_rt_emotion(v: PacketV)
    requires
        wf_packet(v),
        v is Emotion,
    ensures
        spec_decode(spec_encode(v)) == Some(v),
{    reveal(spec_decode_body_b);

    match v {
        PacketV::Emotion { emotion } => {
            let r1: Seq<u8> = Seq::empty();
            let r0 = enc_u8(emotion) + r1;
            assert(spec_encode(v) =~= enc_u16(16) + r0);
            lemma_p_u16_round(16u16, r0);
            lemma_p_u8_round(emotion, r1);
            assert(spec_decode(spec_encode(v)) == Some(v));
        },
        _ => {
            assert(false);
        },
    }
}

#[verifier::rlimit(100)]
#[verifier::spinoff_prover]
proof fn lemma_rt_money(v: PacketV)
    requires
        wf_packet(v),
        v is Money,
    ensures
        spec_decode(spec_encode(v)) == Some(v),
{    reveal(spec_decode_body_b);

    match v {
        PacketV::Money { money } => {
            let r1: Seq<u8> = Seq::empty();
            let r0 = enc_u32(money) + r1;
            assert(spec_encode(v) =~= enc_u16(17) + r0);
            lemma_p_u16_round(17u16, r0);
            lemma_p_u32_round(money, r1);
            assert(spec_decode(spec_encode(v)) == Some(v));
        },
        _ => {
            assert(false);
        },
    }
}

#[verifier::rlimit(100)]
#[verifier::spinoff_prover]
proof fn lemma_rt_play_sound(v: PacketV)
    requires
        wf_packet(v),
        v is PlaySound,
    ensures
        spec_decode(spec_encode(v)) == Some(v),
{    reveal(spec_decode_body_b);

    match v {
        PacketV::PlaySound { path } => {
            let r1: Seq<u8> = Seq::empty();
            let r0 = enc_str(path) + r1;
            assert(spec_encode(v) =~= enc_u16(18) + r0);
            lemma_p_u16_round(18u16, r0);
            lemma_p_str_round(path, r1);
            assert(spec_decode(spec_encode(v)) == Some(v));
        },
        _ => {
            assert(false);
        },
    }
}

#[verifier::rlimit(100)]
#[verifier::spinoff_prover]
proof fn lemma_rt_exclude_object(v: PacketV)
    requires
        wf_packet(v),
        v is ExcludeObject,
    ensures
        spec_decode(spec_encode(v)) == Some(v),
{    reveal(spec_decode_body_b);

    match v {
        PacketV::ExcludeObject { id } => {
            let r1: Seq<u8> = Seq::empty();
            let r0 = enc_u32(id) + r1;
            assert(spec_encode(v) =~= enc_u16(19) + r0);
            lemma_p_u16_round(19u16, r0);
            lemma_p_u32_round(id, r1);
            assert(spec_decode(spec_encode(v)) == Some(v));
        },
        _ => {
            assert(false);
        },
    }
}

#[verifier::rlimit(100)]
#[verifier::spinoff_prover]
proof fn lemma_rt_include_object(v: PacketV)
    requires
        wf_packet(v),
        v is IncludeObject,
    ensures
        spec_decode(spec_encode(v)) == Some(v),
{    reveal(spec_decode_body_b);

    match v {
        PacketV::IncludeObject { id } => {
            let r1: Seq<u8> = Seq::empty();
            let r0 = enc_u32(id) + r1;
            assert(spec_encode(v) =~= enc_u16(20) + r0);
            lemma_p_u16_round(20u16, r0);
            lemma_p_u32_round(id, r1);
            assert(spec_decode(spec_encode(v)) == Some(v));
        },
        _ => {
            assert(false);
        },
    }
}

#[verifier::rlimit(100)]
#[verifier::spinoff_prover]
proof fn lemma_rt_move_camera(v: PacketV)
    requires
        wf_packet(v),
        v is MoveCamera,
    ensures
        spec_decode(spec_encode(v)) == Some(v),
{    reveal(spec_decode_body_b);

    match v {
        PacketV::MoveCamera { x, y, z, hold_time } => {
            let r4: Seq<u8> = Seq::empty();
            let r3 = enc_u32(hold_time) + r4;
            let r2 = enc_u32(z) + r3;
            let r1 = enc_u32(y) + r2;
            let r0 = enc_u32(x) + r1;
            assert(spec_encode(v) =~= enc_u16(21) + r0);
            lemma_p_u16_round(21u16, r0);
            lemma_p_u32_round(x, r1);
            lemma_p_u32_round(y, r2);
            lemma_p_u32_round(z, r3);
            lemma_p_u32_round(hold_time, r4);
            assert(spec_decode(spec_encode(v)) == Some(v));
        },
        _ => {
            assert(false);
        },
    }
}

#[verifier::rlimit(100)]
#[verifier::spinoff_prover]
proof fn lemma_rt_slide_camera(v: PacketV)
    requires
        wf_packet(v),
        v is SlideCamera,
    ensures
        spec_decode(spec_encode(v)) == Some(v),
{    reveal(spec_decode_body_b);

    match v {
        PacketV::SlideCamera { x, y, z, duration } => {
            let r4: Seq<u8> = Seq::empty();
            let r3 = enc_u32(duration) + r4;
            let r2 = enc_u32(z) + r3;
            let r1 = enc_u32(y) + r2;
            let r0 = enc_u32(x) + r1;
            assert(spec_encode(v) =~= enc_u16(22) + r0);
            lemma_p_u16_round(22u16, r0);
            lemma_p_u32_round(x, r1);
            lemma_p_u32_round(y, r2);
            lemma_p_u32_round(z, r3);
            lemma_p_u32_round(duration, r4);
            assert(spec_decode(spec_encode(v)) == Some(v));
        },
        _ => {
            assert(false);
        },
    }
}

#[verifier::rlimit(100)]
#[verifier::spinoff_prover]
proof fn lemma_rt_shake_camera(v: PacketV)
    requires
        wf_packet(v),
        v is ShakeCamera,
    ensures
        spec_decode(spec_encode(v)) == Some(v),
{    reveal(spec_decode_body_b);

    match v {
        PacketV::ShakeCamera { strength, duration } => {
            let r2: Seq<u8> = Seq::empty();
            let r1 = enc_u32(duration) + r2;
            let r0 = enc_u32(strength) + r1;
            assert(spec_encode(v) =~= enc_u16(23) + r0);
            lemma_p_u16_round(23u16, r0);
            lemma_p_u32_round(strength, r1);
            lemma_p_u32_round(duration, r2);
            assert(spec_decode(spec_encode(v)) == Some(v));
        },
        _ => {
            assert(false);
        },
    }
}

#[verifier::rlimit(100)]
#[verifier::spinoff_prover]
proof fn lemma_rt_track_with_camera(v: PacketV)
    requires
        wf_packet(v),
        v is TrackWithCamera,
    ensures
        spec_decode(spec_encode(v)) == Some(v),
{    reveal(spec_decode_body_c);

    match v {
        PacketV::TrackWithCamera { actor_id } => {
            let r1: Seq<u8> = Seq::empty();
            let r0 = enc_opt_str(actor_id) + r1;
            assert(spec_encode(v) =~= enc_u16(24) + r0);
            lemma_p_u16_round(24u16, r0);
            lemma_p_opt_str_round(actor_id, r1);
            assert(spec_decode(spec_encode(v)) == Some(v));
        },
        _ => {
            assert(false);
        },
    }
}

#[verifier::rlimit(100)]
#[verifier::spinoff_prover]
proof fn lemma_rt_unlock_camera(v: PacketV)
    requires
        wf_packet(v),
        v is UnlockCamera,
    ensures
        spec_decode(spec_encode(v)) == Some(v),
{    reveal(spec_decode_body_c);

    match v {
        PacketV::UnlockCamera => {
            let r0: Seq<u8> = Seq::empty();
            assert(spec_encode(v) =~= enc_u16(25) + r0);
            lemma_p_u16_round(25u16, r0);
            assert(spec_decode(spec_encode(v)) == Some(v));
        },
        _ => {
            assert(false);
        },
    }
}

#[verifier::rlimit(100)]
#[verifier::spinoff_prover]
proof fn lemma_rt_lock_input(v: PacketV)
    requires
        wf_packet(v),
        v is LockInput,
    ensures
        spec_decode(spec_encode(v)) == Some(v),
{    reveal(spec_decode_body_c);

    match v {
        PacketV::LockInput => {
            let r0: Seq<u8> = Seq::empty();
            assert(spec_encode(v) =~= enc_u16(26) + r0);
            lemma_p_u16_round(26u16, r0);
            assert(spec_decode(spec_encode(v)) == Some(v));
        },
        _ => {
            assert(false);
        },
    }
}

#[verifier::rlimit(100)]
#[verifier::spinoff_prover]
proof fn lemma_rt_unlock_input(v: PacketV)
    requires
        wf_packet(v),
        v is UnlockInput,
    ensures
        spec_decode(spec_encode(v)) == Some(v),
{    reveal(spec_decode_body_c);

    match v {
        PacketV::UnlockInput => {
            let r0: Seq<u8> = Seq::empty();
            assert(spec_encode(v) =~= enc_u16(27) + r0);
            lemma_p_u16_round(27u16, r0);
            assert(spec_decode(spec_encode(v)) == Some(v));
        },
        _ => {
            assert(false);
        },
    }
}

#[verifier::rlimit(100)]
#[verifier::spinoff_prover]
proof fn lemma_rt_teleport(v: PacketV)
    requires
        wf_packet(v),
        v is Teleport,
    ensures
        spec_decode(spec_encode(v)) == Some(v),
{    reveal(spec_decode_body_c);

    match v {
        PacketV::Teleport { warp, x, y, z, direction } => {
            let r5: Seq<u8> = Seq::empty();
            let r4 = enc_u8(spec_direction_byte(direction)) + r5;
            let r3 = enc_u32(z) + r4;
            let r2 = enc_u32(y) + r3;
            let r1 = enc_u32(x) + r2;
            let r0 = enc_bool(warp) + r1;
            assert(spec_encode(v) =~= enc_u16(28) + r0);
            lemma_p_u16_round(28u16, r0);
            lemma_p_bool_round(warp, r1);
            lemma_p_u32_round(x, r2);
            lemma_p_u32_round(y, r3);
            lemma_p_u32_round(z, r4);
            lemma_p_u8_round(spec_direction_byte(direction), r5);
            crate::direction::lemma_direction_round(direction);
            assert(spec_decode(spec_encode(v)) == Some(v));
        },
        _ => {
            assert(false);
        },
    }
}

#[verifier::rlimit(100)]
#[verifier::spinoff_prover]
proof fn lemma_rt_message(v: PacketV)
    requires
        wf_packet(v),
        v is Message,
    ensures
        spec_decode(spec_encode(v)) == Some(v),
{    reveal(spec_decode_body_c);

    match v {
        PacketV::Message { message, mug_texture_path, mug_animation_path } => {
            let r3: Seq<u8> = Seq::empty();
            let r2 = enc_str(mug_animation_path) + r3;
            let r1 = enc_str(mug_texture_path) + r2;
            let r0 = enc_str(message) + r1;
            assert(spec_encode(v) =~= enc_u16(29) + r0);
            lemma_p_u16_round(29u16, r0);
            lemma_p_str_round(message, r1);
            lemma_p_str_round(mug_texture_path, r2);
            lemma_p_str_round(mug_animation_path, r3);
            assert(spec_decode(spec_encode(v)) == Some(v));
        },
        _ => {
            assert(false);
        },
    }
}

#[verifier::rlimit(100)]
#[verifier::spinoff_prover]
proof fn lemma_rt_question(v: PacketV)
    requires
        wf_packet(v),
        v is Question,
    ensures
        spec_decode(spec_encode(v)) == Some(v),
{    reveal(spec_decode_body_c);

    match v {
        PacketV::Question { message, mug_texture_path, mug_animation_path } => {
            let r3: Seq<u8> = Seq::empty();
            let r2 = enc_str(mug_animation_path) + r3;
            let r1 = enc_str(mug_texture_path) + r2;
            let r0 = enc_str(message) + r1;
            assert(spec_encode(v) =~= enc_u16(30) + r0);
            lemma_p_u16_round(30u16, r0);
            lemma_p_str_round(message, r1);
            lemma_p_str_round(mug_texture_path, r2);
            lemma_p_str_round(mug_animation_path, r3);
            assert(spec_decode(spec_encode(v)) == Some(v));
        },
        _ => {
            assert(false);
        },
    }
}

#[verifier::rlimit(100)]
#[verifier::spinoff_prover]
proof fn lemma_rt_quiz(v: PacketV)
    requires
        wf_packet(v),
        v is Quiz,
    ensures
        spec_decode(spec_encode(v)) == Some(v),
{    reveal(spec_decode_body_c);

    match v {
        PacketV::Quiz { option_a, option_b, option_c, mug_texture_path, mug_animation_path } => {
            let r5: Seq<u8> = Seq::empty();
            let r4 = enc_str(mug_animation_path) + r5;
            let r3 = enc_str(mug_texture_path) + r4;
            let r2 = enc_str(option_c) + r3;
            let r1 = enc_str(option_b) + r2;
            let r0 = enc_str(option_a) + r1;
            assert(spec_encode(v) =~= enc_u16(31) + r0);
            lemma_p_u16_round(31u16, r0);
            lemma_p_str_round(option_a, r1);
            lemma_p_str_round(option_b, r2);
            lemma_p_str_round(option_c, r3);
            lemma_p_str_round(mug_texture_path, r4);
            lemma_p_str_round(mug_animation_path, r5);
            assert(spec_decode(spec_encode(v)) == Some(v));
        },
        _ => {
            assert(false);
        },
    }
}

#[verifier::rlimit(100)]
#[verifier::spinoff_prover]
proof fn lemma_rt_prompt(v: PacketV)
    requires
        wf_packet(v),
        v is Prompt,
    ensures
        spec_decode(spec_encode(v)) == Some(v),
{    reveal(spec_decode_body_c);

    match v {
        PacketV::Prompt { character_limit, default_text } => {
            let r2: Seq<u8> = Seq::empty();
            let r1 = enc_opt_str(default_text) + r2;
            let r0 = enc_u16(character_limit) + r1;
            assert(spec_encode(v) =~= enc_u16(32) + r0);
            lemma_p_u16_round(32u16, r0);
            lemma_p_u16_round(character_limit, r1);
            lemma_p_opt_str_round(default_text, r2);
            assert(spec_decode(spec_encode(v)) == Some(v));
        },
        _ => {
            assert(false);
        },
    }
}

#[verifier::rlimit(100)]
#[verifier::spinoff_prover]
proof fn lemma_rt_open_board(v: PacketV)
    requires
        wf_packet(v),
        v is OpenBoard,
    ensures
        spec_decode(spec_encode(v)) == Some(v),
{    reveal(spec_decode_body_c);

    match v {
        PacketV::OpenBoard { current_depth, name, color, posts } => {
            let r6: Seq<u8> = Seq::empty();
            let r5 = enc_posts(posts) + r6;
            let r4 = enc_u8(color.b) + r5;
            let r3 = enc_u8(color.g) + r4;
            let r2 = enc_u8(color.r) + r3;
            let r1 = enc_str(name) + r2;
            let r0 = enc_u8(current_depth) + r1;
            assert(spec_encode(v) =~= enc_u16(33) + r0);
            lemma_p_u16_round(33u16, r0);
            lemma_p_u8_round(current_depth, r1);
            lemma_p_str_round(name, r2);
            lemma_p_u8_round(color.r, r3);
            lemma_p_u8_round(color.g, r4);
            lemma_p_u8_round(color.b, r5);
            assert((BoardColor { r: color.r, g: color.g, b: color.b }) == color);
            lemma_p_posts_round(posts, r6);
            assert(spec_decode(spec_encode(v)) == Some(v));
        },
        _ => {
            assert(false);
        },
    }
}

#[verifier::rlimit(100)]
#[verifier::spinoff_prover]
proof fn lemma_rt_prepend_posts(v: PacketV)
    requires
        wf_packet(v),
        v is PrependPosts,
    ensures
        spec_decode(spec_encode(v)) == Some(v),
{    reveal(spec_decode_body_c);

    match v {
        PacketV::PrependPosts { current_depth, reference, posts } => {
            let r3: Seq<u8> = Seq::empty();
            let r2 = enc_posts(posts) + r3;
            let r1 = enc_opt_str(reference) + r2;
            let r0 = enc_u8(current_depth) + r1;
            assert(spec_encode(v) =~= enc_u16(34) + r0);
            lemma_p_u16_round(34u16, r0);
            lemma_p_u8_round(current_depth, r1);
            lemma_p_opt_str_round(reference, r2);
            lemma_p_posts_round(posts, r3);
            assert(spec_decode(spec_encode(v)) == Some(v));
        },
        _ => {
            assert(false);
        },
    }
}

#[verifier::rlimit(100)]
#[verifier::spinoff_prover]
proof fn lemma_rt_append_posts(v: PacketV)
    requires
        wf_packet(v),
        v is AppendPosts,
    ensures
        spec_decode(spec_encode(v)) == Some(v),
{    reveal(spec_decode_body_c);

    match v {
        PacketV::AppendPosts { current_depth, reference, posts } => {
            let r3: Seq<u8> = Seq::empty();
            let r2 = enc_posts(posts) + r3;
            let r1 = enc_opt_str(reference) + r2;
            let r0 = enc_u8(current_depth) + r1;
            assert(spec_encode(v) =~= enc_u16(35) + r0);
            lemma_p_u16_round(35u16, r0);
            lemma_p_u8_round(current_depth, r1);
            lemma_p_opt_str_round(reference, r2);
            lemma_p_posts_round(posts, r3);
            assert(spec_decode(spec_encode(v)) == Some(v));
        },
        _ => {
            assert(false);
        },
    }
}

#[verifier::rlimit(100)]
#[verifier::spinoff_prover]
proof fn lemma_rt_remove_post(v: PacketV)
    requires
        wf_packet(v),
        v is RemovePost,
    ensures
        spec_decode(spec_encode(v)) == Some(v),
{    reveal(spec_decode_body_d);

    match v {
        PacketV::RemovePost { current_depth, id } => {
            let r2: Seq<u8> = Seq::empty();
            let r1 = enc_str(id) + r2;
            let r0 = enc_u8(current_depth) + r1;
            assert(spec_encode(v) =~= enc_u16(36) + r0);
            lemma_p_u16_round(36u16, r0);
            lemma_p_u8_round(current_depth, r1);
            lemma_p_str_round(id, r2);
            assert(spec_decode(spec_encode(v)) == Some(v));
        },
        _ => {
            assert(false);
        },
    }
}

#[verifier::rlimit(100)]
#[verifier::spinoff_prover]
proof fn lemma_rt_post_selection_ack(v: PacketV)
    requires
        wf_packet(v),
        v is PostSelectionAck,
    ensures
        spec_decode(spec_encode(v)) == Some(v),
{    reveal(spec_decode_body_d);

    match v {
        PacketV::PostSelectionAck => {
            let r0: Seq<u8> = Seq::empty();
            assert(spec_encode(v) =~= enc_u16(37) + r0);
            lemma_p_u16_round(37u16, r0);
            assert(spec_decode(spec_encode(v)) == Some(v));
        },
        _ => {
            assert(false);
        },
    }
}

#[verifier::rlimit(100)]
#[verifier::spinoff_prover]
proof fn lemma_rt_close_b_b_s(v: PacketV)
    requires
        wf_packet(v),
        v is CloseBBS,
    ensures
        spec_decode(spec_encode(v)) == Some(v),
{    reveal(spec_decode_body_d);

    match v {
        PacketV::CloseBBS => {
            let r0: Seq<u8> = Seq::empty();
            assert(spec_encode(v) =~= enc_u16(38) + r0);
            lemma_p_u16_round(38u16, r0);
            assert(spec_decode(spec_encode(v)) == Some(v));
        },
        _ => {
            assert(false);
        },
    }
}

#[verifier::rlimit(100)]
#[verifier::spinoff_prover]
proof fn lemma_rt_initiate_pvp(v: PacketV)
    requires
        wf_packet(v),
        v is InitiatePvp,
    ensures
        spec_decode(spec_encode(v)) == Some(v),
{    reveal(spec_decode_body_d);

    match v {
        PacketV::InitiatePvp { address } => {
            let r1: Seq<u8> = Seq::empty();
            let r0 = enc_str(address) + r1;
            assert(spec_encode(v) =~= enc_u16(39) + r0);
            lemma_p_u16_round(39u16, r0);
            lemma_p_str_round(address, r1);
            assert(spec_decode(spec_encode(v)) == Some(v));
        },
        _ => {
            assert(false);
        },
    }
}

/// The field bytes of an actor-connected message after its tag.
spec fn ac_rest(
    ticket: Seq<char>,
    name: Seq<char>,
    texture_path: Seq<char>,
    animation_path: Seq<char>,
    direction: crate::direction::Direction,
    x: u32,
    y: u32,
    z: u32,
    solid: bool,
    warp_in: bool,
    scale_x: u32,
    scale_y: u32,
    rotation: u32,
    animation: Option<Seq<char>>,
) -> Seq<u8> {
    let r14: Seq<u8> = Seq::empty();
    let r13 = enc_opt_str(animation) + r14;
    let r12 = enc_u32(rotation) + r13;
    let r11 = enc_u32(scale_y) + r12;
    let r10 = enc_u32(scale_x) + r11;
    let r9 = enc_bool(warp_in) + r10;
    let r8 = enc_bool(solid) + r9;
    let r7 = enc_u32(z) + r8;
    let r6 = enc_u32(y) + r7;
    let r5 = enc_u32(x) + r6;
    let r4 = enc_u8(spec_direction_byte(direction)) + r5;
    let r3 = enc_str(animation_path) + r4;
    let r2 = enc_str(texture_path) + r3;
    let r1 = enc_str(name) + r2;
    let r0 = enc_str(ticket) + r1;
    r0
}

#[verifier::rlimit(100)]
#[verifier::spinoff_prover]
proof fn lemma_rt_actor_connected_decode(
    ticket: Seq<char>,
    name: Seq<char>,
    texture_path: Seq<char>,
    animation_path: Seq<char>,
    direction: crate::direction::Direction,
    x: u32,
    y: u32,
    z: u32,
    solid: bool,
    warp_in: bool,
    scale_x: u32,
    scale_y: u32,
    rotation: u32,
    animation: Option<Seq<char>>,
)
    requires
        str_fits(ticket),
        str_fits(name),
        str_fits(texture_path),
        str_fits(animation_path),
        wf_opt_str(animation),
    ensures
        spec_decode_body_d(40u16, ac_rest(ticket, name, texture_path, animation_path, direction, x, y, z, solid, warp_in, scale_x, scale_y, rotation, animation)) == Some((PacketV::ActorConnected { ticket, name, texture_path, animation_path, direction, x, y, z, solid, warp_in, scale_x, scale_y, rotation, animation })),
{    reveal(spec_decode_body_d);

    let r14: Seq<u8> = Seq::empty();
    let r13 = enc_opt_str(animation) + r14;
    let r12 = enc_u32(rotation) + r13;
    let r11 = enc_u32(scale_y) + r12;
    let r10 = enc_u32(scale_x) + r11;
    let r9 = enc_bool(warp_in) + r10;
    let r8 = enc_bool(solid) + r9;
    let r7 = enc_u32(z) + r8;
    let r6 = enc_u32(y) + r7;
    let r5 = enc_u32(x) + r6;
    let r4 = enc_u8(spec_direction_byte(direction)) + r5;
    let r3 = enc_str(animation_path) + r4;
    let r2 = enc_str(texture_path) + r3;
    let r1 = enc_str(name) + r2;
    let r0 = enc_str(ticket) + r1;
    lemma_p_str_round(ticket, r1);
    lemma_p_str_round(name, r2);
    lemma_p_str_round(texture_path, r3);
    lemma_p_str_round(animation_path, r4);
    lemma_p_u8_round(spec_direction_byte(direction), r5);
    crate::direction::lemma_direction_round(direction);
    lemma_p_u32_round(x, r6);
    lemma_p_u32_round(y, r7);
    lemma_p_u32_round(z, r8);
    lemma_p_bool_round(solid, r9);
    lemma_p_bool_round(warp_in, r10);
    lemma_p_u32_round(scale_x, r11);
    lemma_p_u32_round(scale_y, r12);
    lemma_p_u32_round(rotation, r13);
    lemma_p_opt_str_round(animation, r14);
    assert(spec_decode_body_d(40u16, r0) == Some((PacketV::ActorConnected { ticket, name, texture_path, animation_path, direction, x, y, z, solid, warp_in, scale_x, scale_y, rotation, animation })));
    assert(ac_rest(ticket, name, texture_path, animation_path, direction, x, y, z, solid, warp_in, scale_x, scale_y, rotation, animation) == r0);
}

#[verifier::rlimit(100)]
#[verifier::spinoff_prover]
proof fn lemma_rt_actor_connected_encode(
    ticket: Seq<char>,
    name: Seq<char>,
    texture_path: Seq<char>,
    animation_path: Seq<char>,
    direction: crate::direction::Direction,
    x: u32,
    y: u32,
    z: u32,
    solid: bool,
    warp_in: bool,
    scale_x: u32,
    scale_y: u32,
    rotation: u32,
    animation: Option<Seq<char>>,
)
    ensures
        ({
            let p = (PacketV::ActorConnected { ticket, name, texture_path, animation_path, direction, x, y, z, solid, warp_in, scale_x, scale_y, rotation, animation });
            spec_encode(p) == enc_u16(40) + ac_rest(ticket, name, texture_path, animation_path, direction, x, y, z, solid, warp_in, scale_x, scale_y, rotation, animation)
        }),
{
    let r14: Seq<u8> = Seq::empty();
    let r13 = enc_opt_str(animation) + r14;
    let r12 = enc_u32(rotation) + r13;
    let r11 = enc_u32(scale_y) + r12;
    let r10 = enc_u32(scale_x) + r11;
    let r9 = enc_bool(warp_in) + r10;
    let r8 = enc_bool(solid) + r9;
    let r7 = enc_u32(z) + r8;
    let r6 = enc_u32(y) + r7;
    let r5 = enc_u32(x) + r6;
    let r4 = enc_u8(spec_direction_byte(direction)) + r5;
    let r3 = enc_str(animation_path) + r4;
    let r2 = enc_str(texture_path) + r3;
    let r1 = enc_str(name) + r2;
    let r0 = enc_str(ticket) + r1;
    assert(ac_rest(ticket, name, texture_path, animation_path, direction, x, y, z, solid, warp_in, scale_x, scale_y, rotation, animation) == r0);
    let p0 = enc_u16(40);
    let p1 = p0 + enc_str(ticket);
    let p2 = p1 + enc_str(name);
    let p3 = p2 + enc_str(texture_path);
    let p4 = p3 + enc_str(animation_path);
    let p5 = p4 + enc_u8(spec_direction_byte(direction));
    let p6 = p5 + enc_u32(x);
    let p7 = p6 + enc_u32(y);
    let p8 = p7 + enc_u32(z);
    let p9 = p8 + enc_bool(solid);
    let p10 = p9 + enc_bool(warp_in);
    let p11 = p10 + enc_u32(scale_x);
    let p12 = p11 + enc_u32(scale_y);
    let p13 = p12 + enc_u32(rotation);
    let p14 = p13 + enc_opt_str(animation);
    assert(spec_encode((PacketV::ActorConnected { ticket, name, texture_path, animation_path, direction, x, y, z, solid, warp_in, scale_x, scale_y, rotation, animation })) == p14);
    assert(p14 + r14 =~= p14);
    crate::wire::lemma_cat_assoc(p0, enc_str(ticket), r1);
    crate::wire::lemma_cat_assoc(p1, enc_str(name), r2);
    crate::wire::lemma_cat_assoc(p2, enc_str(texture_path), r3);
    crate::wire::lemma_cat_assoc(p3, enc_str(animation_path), r4);
    crate::wire::lemma_cat_assoc(p4, enc_u8(spec_direction_byte(direction)), r5);
    crate::wire::lemma_cat_assoc(p5, enc_u32(x), r6);
    crate::wire::lemma_cat_assoc(p6, enc_u32(y), r7);
    crate::wire::lemma_cat_assoc(p7, enc_u32(z), r8);
    crate::wire::lemma_cat_assoc(p8, enc_bool(solid), r9);
    crate::wire::lemma_cat_assoc(p9, enc_bool(warp_in), r10);
    crate::wire::lemma_cat_assoc(p10, enc_u32(scale_x), r11);
    crate::wire::lemma_cat_assoc(p11, enc_u32(scale_y), r12);
    crate::wire::lemma_cat_assoc(p12, enc_u32(rotation), r13);
    crate::wire::lemma_cat_assoc(p13, enc_opt_str(animation), r14);
}

#[verifier::rlimit(100)]
#[verifier::spinoff_prover]
proof fn lemma_rt_actor_connected(v: PacketV)
    requires
        wf_packet(v),
        v is ActorConnected,
    ensures
        spec_decode(spec_encode(v)) == Some(v),
{
    match v {
        PacketV::ActorConnected {
            ticket,
            name,
            texture_path,
            animation_path,
            direction,
            x,
            y,
            z,
            solid,
            warp_in,
            scale_x,
            scale_y,
            rotation,
            animation,
        } => {
            lemma_rt_actor_connected_encode(ticket, name, texture_path, animation_path, direction, x, y, z, solid, warp_in, scale_x, scale_y, rotation, animation);
            lemma_rt_actor_connected_decode(ticket, name, texture_path, animation_path, direction, x, y, z, solid, warp_in, scale_x, scale_y, rotation, animation);
            lemma_p_u16_round(40u16, ac_rest(ticket, name, texture_path, animation_path, direction, x, y, z, solid, warp_in, scale_x, scale_y, rotation, animation));
            assert(spec_decode_body(40u16, ac_rest(ticket, name, texture_path, animation_path, direction, x, y, z, solid, warp_in, scale_x, scale_y, rotation, animation)) == Some(v));
            assert(spec_decode(spec_encode(v)) == Some(v));
        },
        _ => {
            assert(false);
        },
    }
}

#[verifier::rlimit(100)]
#[verifier::spinoff_prover]
proof fn lemma_rt_actor_disconnected(v: PacketV)
    requires
        wf_packet(v),
        v is ActorDisconnected,
    ensures
        spec_decode(spec_encode(v)) == Some(v),
{    reveal(spec_decode_body_d);

    match v {
        PacketV::ActorDisconnected { ticket, warp_out } => {
            let r2: Seq<u8> = Seq::empty();
            let r1 = enc_bool(warp_out) + r2;
            let r0 = enc_str(ticket) + r1;
            assert(spec_encode(v) =~= enc_u16(41) + r0);
            lemma_p_u16_round(41u16, r0);
            lemma_p_str_round(ticket, r1);
            lemma_p_bool_round(warp_out, r2);
            assert(spec_decode(spec_encode(v)) == Some(v));
        },
        _ => {
            assert(false);
        },
    }
}

#[verifier::rlimit(100)]
#[verifier::spinoff_prover]
proof fn lemma_rt_actor_set_name(v: PacketV)
    requires
        wf_packet(v),
        v is ActorSetName,
    ensures
        spec_decode(spec_encode(v)) == Some(v),
{    reveal(spec_decode_body_e);

    match v {
        PacketV::ActorSetName { ticket, name } => {
            let r2: Seq<u8> = Seq::empty();
            let r1 = enc_str(name) + r2;
            let r0 = enc_str(ticket) + r1;
            assert(spec_encode(v) =~= enc_u16(42) + r0);
            lemma_p_u16_round(42u16, r0);
            lemma_p_str_round(ticket, r1);
            lemma_p_str_round(name, r2);
            assert(spec_decode(spec_encode(v)) == Some(v));
        },
        _ => {
            assert(false);
        },
    }
}

#[verifier::rlimit(100)]
#[verifier::spinoff_prover]
proof fn lemma_rt_actor_move(v: PacketV)
    requires
        wf_packet(v),
        v is ActorMove,
    ensures
        spec_decode(spec_encode(v)) == Some(v),
{    reveal(spec_decode_body_e);

    match v {
        PacketV::ActorMove { ticket, x, y, z, direction } => {
            let r5: Seq<u8> = Seq::empty();
            let r4 = enc_u8(spec_direction_byte(direction)) + r5;
            let r3 = enc_u32(z) + r4;
            let r2 = enc_u32(y) + r3;
            let r1 = enc_u32(x) + r2;
            let r0 = enc_str(ticket) + r1;
            assert(spec_encode(v) =~= enc_u16(43) + r0);
            lemma_p_u16_round(43u16, r0);
            lemma_p_str_round(ticket, r1);
            lemma_p_u32_round(x, r2);
            lemma_p_u32_round(y, r3);
            lemma_p_u32_round(z, r4);
            lemma_p_u8_round(spec_direction_byte(direction), r5);
            crate::direction::lemma_direction_round(direction);
            assert(spec_decode(spec_encode(v)) == Some(v));
        },
        _ => {
            assert(false);
        },
    }
}

#[verifier::rlimit(100)]
#[verifier::spinoff_prover]
proof fn lemma_rt_actor_set_avatar(v: PacketV)
    requires
        wf_packet(v),
        v is ActorSetAvatar,
    ensures
        spec_decode(spec_encode(v)) == Some(v),
{    reveal(spec_decode_body_e);

    match v {
        PacketV::ActorSetAvatar { ticket, texture_path, animation_path } => {
            let r3: Seq<u8> = Seq::empty();
            let r2 = enc_str(animation_path) + r3;
            let r1 = enc_str(texture_path) + r2;
            let r0 = enc_str(ticket) + r1;
            assert(spec_encode(v) =~= enc_u16(44) + r0);
            lemma_p_u16_round(44u16, r0);
            lemma_p_str_round(ticket, r1);
            lemma_p_str_round(texture_path, r2);
            lemma_p_str_round(animation_path, r3);
            assert(spec_decode(spec_encode(v)) == Some(v));
        },
        _ => {
            assert(false);
        },
    }
}

#[verifier::rlimit(100)]
#[verifier::spinoff_prover]
proof fn lemma_rt_actor_emote(v: PacketV)
    requires
        wf_packet(v),
        v is ActorEmote,
    ensures
        spec_decode(spec_encode(v)) == Some(v),
{    reveal(spec_decode_body_e);

    match v {
        PacketV::ActorEmote { ticket, emote_id, use_custom_emotes } => {
            let r3: Seq<u8> = Seq::empty();
            let r2 = enc_bool(use_custom_emotes) + r3;
            let r1 = enc_u8(emote_id) + r2;
            let r0 = enc_str(ticket) + r1;
            assert(spec_encode(v) =~= enc_u16(45) + r0);
            lemma_p_u16_round(45u16, r0);
            lemma_p_str_round(ticket, r1);
            lemma_p_u8_round(emote_id, r2);
            lemma_p_bool_round(use_custom_emotes, r3);
            assert(spec_decode(spec_encode(v)) == Some(v));
        },
        _ => {
            assert(false);
        },
    }
}

#[verifier::rlimit(100)]
#[verifier::spinoff_prover]
proof fn lemma_rt_actor_animate(v: PacketV)
    requires
        wf_packet(v),
        v is ActorAnimate,
    ensures
        spec_decode(spec_encode(v)) == Some(v),
{    reveal(spec_decode_body_e);

    match v {
        PacketV::ActorAnimate { ticket, state, loop_animation } => {
            let r3: Seq<u8> = Seq::empty();
            let r2 = enc_bool(loop_animation) + r3;
            let r1 = enc_str(state) + r2;
            let r0 = enc_str(ticket) + r1;
            assert(spec_encode(v) =~= enc_u16(46) + r0);
            lemma_p_u16_round(46u16, r0);
            lemma_p_str_round(ticket, r1);
            lemma_p_str_round(state, r2);
            lemma_p_bool_round(loop_animation, r3);
            assert(spec_decode(spec_encode(v)) == Some(v));
        },
        _ => {
            assert(false);
        },
    }
}

#[verifier::rlimit(100)]
#[verifier::spinoff_prover]
proof fn lemma_rt_actor_property_key_frames(v: PacketV)
    requires
        wf_packet(v),
        v is ActorPropertyKeyFrames,
    ensures
        spec_decode(spec_encode(v)) == Some(v),
{    reveal(spec_decode_body_e);

    match v {
        PacketV::ActorPropertyKeyFrames { ticket, tail, keyframes } => {
            let r3: Seq<u8> = Seq::empty();
            let r2 = enc_keyframes(keyframes) + r3;
            let r1 = enc_bool(tail) + r2;
            let r0 = enc_str(ticket) + r1;
            assert(spec_encode(v) =~= enc_u16(47) + r0);
            lemma_p_u16_round(47u16, r0);
            lemma_p_str_round(ticket, r1);
            lemma_p_bool_round(tail, r2);
            lemma_p_keyframes_round(keyframes, r3);
            assert(spec_decode(spec_encode(v)) == Some(v));
        },
        _ => {
            assert(false);
        },
    }
}

proof fn lemma_round_trip_a(v: PacketV)
    requires
        wf_packet(v),
        in_group_a(v),
    ensures
        spec_decode(spec_encode(v)) == Some(v),
{
    if v is Pong {
        lemma_rt_pong(v);
    }
    if v is Ack {
        lemma_rt_ack(v);
    }
    if v is Login {
        lemma_rt_login(v);
    }
    if v is CompleteConnection {
        lemma_rt_complete_connection(v);
    }
    if v is TransferWarp {
        lemma_rt_transfer_warp(v);
    }
    if v is TransferStart {
        lemma_rt_transfer_start(v);
    }
    if v is TransferComplete {
        lemma_rt_transfer_complete(v);
    }
    if v is TransferServer {
        lemma_rt_transfer_server(v);
    }
    if v is Kick {
        lemma_rt_kick(v);
    }
    if v is RemoveAsset {
        lemma_rt_remove_asset(v);
    }
    if v is AssetStreamStart {
        lemma_rt_asset_stream_start(v);
    }
    if v is AssetStream {
        lemma_rt_asset_stream(v);
    }
}

proof fn lemma_round_trip_b(v: PacketV)
    requires
        wf_packet(v),
        in_group_b(v),
    ensures
        spec_decode(spec_encode(v)) == Some(v),
{
    if v is Preload {
        lemma_rt_preload(v);
    }
    if v is CustomEmotesPath {
        lemma_rt_custom_emotes_path(v);
    }
    if v is MapUpdate {
        lemma_rt_map_update(v);
    }
    if v is Health {
        lemma_rt_health(v);
    }
    if v is Emotion {
        lemma_rt_emotion(v);
    }
    if v is Money {
        lemma_rt_money(v);
    }
    if v is PlaySound {
        lemma_rt_play_sound(v);
    }
    if v is ExcludeObject {
        lemma_rt_exclude_object(v);
    }
    if v is IncludeObject {
        lemma_rt_include_object(v);
    }
    if v is MoveCamera {
        lemma_rt_move_camera(v);
    }
    if v is SlideCamera {
        lemma_rt_slide_camera(v);
    }
    if v is ShakeCamera {
        lemma_rt_shake_camera(v);
    }
}

proof fn lemma_round_trip_c(v: PacketV)
    requires
        wf_packet(v),
        in_group_c(v),
    ensures
        spec_decode(spec_encode(v)) == Some(v),
{
    if v is TrackWithCamera {
        lemma_rt_track_with_camera(v);
    }
    if v is UnlockCamera {
        lemma_rt_unlock_camera(v);
    }
    if v is LockInput {
        lemma_rt_lock_input(v);
    }
    if v is UnlockInput {
        lemma_rt_unlock_input(v);
    }
    if v is Teleport {
        lemma_rt_teleport(v);
    }
    if v is Message {
        lemma_rt_message(v);
    }
    if v is Question {
        lemma_rt_question(v);
    }
    if v is Quiz {
        lemma_rt_quiz(v);
    }
    if v is Prompt {
        lemma_rt_prompt(v);
    }
    if v is OpenBoard {
        lemma_rt_open_board(v);
    }
    if v is PrependPosts {
        lemma_rt_prepend_posts(v);
    }
    if v is AppendPosts {
        lemma_rt_append_posts(v);
    }
}

proof fn lemma_round_trip_d(v: PacketV)
    requires
        wf_packet(v),
        in_group_d(v),
    ensures
        spec_decode(spec_encode(v)) == Some(v),
{
    if v is RemovePost {
        lemma_rt_remove_post(v);
    }
    if v is PostSelectionAck {
        lemma_rt_post_selection_ack(v);
    }
    if v is CloseBBS {
        lemma_rt_close_b_b_s(v);
    }
    if v is InitiatePvp {
        lemma_rt_initiate_pvp(v);
    }
    if v is ActorConnected {
        lemma_rt_actor_connected(v);
    }
    if v is ActorDisconnected {
        lemma_rt_actor_disconnected(v);
    }
    if v is ActorSetName {
        lemma_rt_actor_set_name(v);
    }
    if v is ActorMove {
        lemma_rt_actor_move(v);
    }
    if v is ActorSetAvatar {
        lemma_rt_actor_set_avatar(v);
    }
    if v is ActorEmote {
        lemma_rt_actor_emote(v);
    }
    if v is ActorAnimate {
        lemma_rt_actor_animate(v);
    }
    if v is ActorPropertyKeyFrames {
        lemma_rt_actor_property_key_frames(v);
    }
}

/// Round trip: decoding the encoding of any well-formed message yields the
/// message back, whatever its kind and field values.
pub proof fn lemma_round_trip(v: PacketV)
    requires
        wf_packet(v),
    ensures
        spec_decode(spec_encode(v)) == Some(v),
{
    if in_group_a(v) {
        lemma_round_trip_a(v);
    } else if in_group_b(v) {
        lemma_round_trip_b(v);
    } else if in_group_c(v) {
        lemma_round_trip_c(v);
    } else {
        lemma_round_trip_d(v);
    }
}

} // verus!
