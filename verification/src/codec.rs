//! Encoding: `spec_encode` is the single authoritative byte layout of every
//! message kind, and `build_packet` produces exactly those bytes.
//!
//! Every message starts with its 16-bit kind tag, immediately followed by its
//! fields in declaration order. Strings are length-prefixed UTF-8, optional
//! values carry a one-byte presence flag, and lists a 16-bit count.

use vstd::prelude::*;
use vstd::utf8::encode_utf8;
use crate::direction::{spec_direction_byte, translate_direction, Direction};
use crate::packet::{
    get_actor_property_identifier, get_ease_identifier, kfs_view, opt_view, posts_view,
    spec_ease_identifier, spec_kind_byte, spec_property_identifier, steps_view, version_id,
    ActorProperty, ActorPropertyV, BbsPost, BbsPostV, Ease, KeyFrame, KeyFrameV, PacketV,
    ServerPacket, version_id_str,
    VERSION_ITERATION,
};
use crate::wire::{
    enc_bool, enc_data, enc_str, enc_u16, enc_u32, enc_u64, enc_u8, le_bytes, str_fits, write_bool,
    write_string, write_u16, write_u32, write_u64, write_u8,
};

verus! {

// ---------------------------------------------------------------------------
// Well-formedness: what must hold of a message for it to fit the wire format
// (every length fits its 16-bit or stated prefix). Encoding is total on
// well-formed messages; oversized fields are rejected, never silently
// wrapped.
// ---------------------------------------------------------------------------

pub open spec fn wf_opt_str(o: Option<Seq<char>>) -> bool {
    match o {
        Some(s) => str_fits(s),
        None => true,
    }
}

pub open spec fn wf_post(p: BbsPostV) -> bool {
    str_fits(p.id) && str_fits(p.title) && str_fits(p.author)
}

pub open spec fn wf_posts(ps: Seq<BbsPostV>) -> bool {
    ps.len() <= 0xFFFF && forall|i: int| 0 <= i < ps.len() ==> wf_post(#[trigger] ps[i])
}

pub open spec fn wf_step(s: (ActorPropertyV, Ease)) -> bool {
    match s.0 {
        ActorPropertyV::Animation(t) => str_fits(t),
        ActorPropertyV::SoundEffect(t) => str_fits(t),
        ActorPropertyV::SoundEffectLoop(t) => str_fits(t),
        _ => true,
    }
}

pub open spec fn wf_keyframe(k: KeyFrameV) -> bool {
    k.property_steps.len() <= 0xFFFF && forall|i: int|
        0 <= i < k.property_steps.len() ==> wf_step(#[trigger] k.property_steps[i])
}

pub open spec fn wf_keyframes(ks: Seq<KeyFrameV>) -> bool {
    ks.len() <= 0xFFFF && forall|i: int| 0 <= i < ks.len() ==> wf_keyframe(#[trigger] ks[i])
}

/// A message is well-formed when every variable-length field fits its length
/// prefix. `spec_encode` yields the wire bytes of exactly these messages.
pub open spec fn wf_packet(p: PacketV) -> bool {
    match p {
        PacketV::Pong { max_payload_size } => max_payload_size <= 0xFFFF,
        PacketV::Login { ticket, .. } => str_fits(ticket),
        PacketV::TransferServer { address, data, .. } => str_fits(address) && str_fits(data),
        PacketV::Kick { reason } => str_fits(reason),
        PacketV::RemoveAsset { path } => str_fits(path),
        PacketV::AssetStreamStart { name, .. } => str_fits(name),
        PacketV::AssetStream { data } => data.len() <= 0xFFFF,
        PacketV::Preload { asset_path } => str_fits(asset_path),
        PacketV::CustomEmotesPath { asset_path } => str_fits(asset_path),
        PacketV::MapUpdate { map_path } => str_fits(map_path),
        PacketV::PlaySound { path } => str_fits(path),
        PacketV::TrackWithCamera { actor_id } => wf_opt_str(actor_id),
        PacketV::Message { message, mug_texture_path, mug_animation_path } => str_fits(message)
            && str_fits(mug_texture_path) && str_fits(mug_animation_path),
        PacketV::Question { message, mug_texture_path, mug_animation_path } => str_fits(message)
            && str_fits(mug_texture_path) && str_fits(mug_animation_path),
        PacketV::Quiz { option_a, option_b, option_c, mug_texture_path, mug_animation_path } => (
            str_fits(option_a) && str_fits(option_b) && str_fits(option_c) && str_fits(
            mug_texture_path,
        ) && str_fits(mug_animation_path)),
        PacketV::Prompt { default_text, .. } => wf_opt_str(default_text),
        PacketV::OpenBoard { name, posts, .. } => str_fits(name) && wf_posts(posts),
        PacketV::PrependPosts { reference, posts, .. } => wf_opt_str(reference) && wf_posts(posts),
        PacketV::AppendPosts { reference, posts, .. } => wf_opt_str(reference) && wf_posts(posts),
        PacketV::RemovePost { id, .. } => str_fits(id),
        PacketV::InitiatePvp { address } => str_fits(address),
        PacketV::ActorConnected { ticket, name, texture_path, animation_path, animation, .. } => (
            str_fits(ticket) && str_fits(name) && str_fits(texture_path) && str_fits(
            animation_path,
        ) && wf_opt_str(animation)),
        PacketV::ActorDisconnected { ticket, .. } => str_fits(ticket),
        PacketV::ActorSetName { ticket, name } => str_fits(ticket) && str_fits(name),
        PacketV::ActorMove { ticket, .. } => str_fits(ticket),
        PacketV::ActorSetAvatar { ticket, texture_path, animation_path } => str_fits(ticket)
            && str_fits(texture_path) && str_fits(animation_path),
        PacketV::ActorEmote { ticket, .. } => str_fits(ticket),
        PacketV::ActorAnimate { ticket, state, .. } => str_fits(ticket) && str_fits(state),
        PacketV::ActorPropertyKeyFrames { ticket, keyframes, .. } => str_fits(ticket)
            && wf_keyframes(keyframes),
        _ => true,
    }
}

// ---------------------------------------------------------------------------
// The byte layout, one spec function per compound piece
// ---------------------------------------------------------------------------

pub open spec fn enc_opt_str(o: Option<Seq<char>>) -> Seq<u8> {
    match o {
        Some(s) => enc_bool(true) + enc_str(s),
        None => enc_bool(false),
    }
}

pub open spec fn enc_post(p: BbsPostV) -> Seq<u8> {
    enc_str(p.id) + enc_bool(p.read) + enc_str(p.title) + enc_str(p.author)
}

pub open spec fn enc_post_list(ps: Seq<BbsPostV>) -> Seq<u8>
    decreases ps.len(),
{
    if ps.len() == 0 {
        Seq::empty()
    } else {
        enc_post(ps[0]) + enc_post_list(ps.drop_first())
    }
}

pub open spec fn enc_posts(ps: Seq<BbsPostV>) -> Seq<u8> {
    le_bytes(ps.len(), 2) + enc_post_list(ps)
}

pub open spec fn enc_prop_payload(p: ActorPropertyV) -> Seq<u8> {
    match p {
        ActorPropertyV::Animation(s) => enc_str(s),
        ActorPropertyV::X(v) => enc_u32(v),
        ActorPropertyV::Y(v) => enc_u32(v),
        ActorPropertyV::Z(v) => enc_u32(v),
        ActorPropertyV::ScaleX(v) => enc_u32(v),
        ActorPropertyV::ScaleY(v) => enc_u32(v),
        ActorPropertyV::Rotation(v) => enc_u32(v),
        ActorPropertyV::Direction(d) => enc_u8(spec_direction_byte(d)),
        ActorPropertyV::SoundEffect(s) => enc_str(s),
        ActorPropertyV::SoundEffectLoop(s) => enc_str(s),
    }
}

pub open spec fn enc_step(s: (ActorPropertyV, Ease)) -> Seq<u8> {
    enc_u8(spec_ease_identifier(s.1)) + enc_u8(spec_property_identifier(s.0))
        + enc_prop_payload(s.0)
}

pub open spec fn enc_step_list(ss: Seq<(ActorPropertyV, Ease)>) -> Seq<u8>
    decreases ss.len(),
{
    if ss.len() == 0 {
        Seq::empty()
    } else {
        enc_step(ss[0]) + enc_step_list(ss.drop_first())
    }
}

pub open spec fn enc_keyframe(k: KeyFrameV) -> Seq<u8> {
    enc_u32(k.duration) + le_bytes(k.property_steps.len(), 2) + enc_step_list(k.property_steps)
}

pub open spec fn enc_keyframe_list(ks: Seq<KeyFrameV>) -> Seq<u8>
    decreases ks.len(),
{
    if ks.len() == 0 {
        Seq::empty()
    } else {
        enc_keyframe(ks[0]) + enc_keyframe_list(ks.drop_first())
    }
}

pub open spec fn enc_keyframes(ks: Seq<KeyFrameV>) -> Seq<u8> {
    le_bytes(ks.len(), 2) + enc_keyframe_list(ks)
}

/// The exact wire bytes of a message: its tag, then its fields in order.
pub open spec fn spec_encode(p: PacketV) -> Seq<u8> {
    match p {
        PacketV::Pong { max_payload_size } => enc_u16(0) + enc_str(version_id()) + enc_u64(
            VERSION_ITERATION,
        ) + le_bytes(max_payload_size as nat, 2),
        PacketV::Ack { reliability, id } => enc_u16(1) + enc_u8(reliability) + enc_u64(id),
        PacketV::Login { ticket, warp_in, spawn_x, spawn_y, spawn_z, spawn_direction } => enc_u16(
            2,
        ) + enc_str(ticket) + enc_bool(warp_in) + enc_u32(spawn_x) + enc_u32(spawn_y) + enc_u32(
            spawn_z,
        ) + enc_u8(spec_direction_byte(spawn_direction)),
        PacketV::CompleteConnection => enc_u16(3),
        PacketV::TransferWarp => enc_u16(4),
        PacketV::TransferStart => enc_u16(5),
        PacketV::TransferComplete { warp_in, direction } => enc_u16(6) + enc_bool(warp_in)
            + enc_u8(spec_direction_byte(direction)),
        PacketV::TransferServer { address, port, data, warp_out } => enc_u16(7) + enc_str(address)
            + enc_u16(port) + enc_str(data) + enc_bool(warp_out),
        PacketV::Kick { reason } => enc_u16(8) + enc_str(reason),
        PacketV::RemoveAsset { path } => enc_u16(9) + enc_str(path),
        PacketV::AssetStreamStart { name, last_modified, cachable, data_kind, size } => enc_u16(10)
            + enc_str(name) + enc_u64(last_modified) + enc_bool(cachable) + enc_u8(
            spec_kind_byte(data_kind),
        ) + enc_u64(size),
        PacketV::AssetStream { data } => enc_u16(11) + enc_data(data),
        PacketV::Preload { asset_path } => enc_u16(12) + enc_str(asset_path),
        PacketV::CustomEmotesPath { asset_path } => enc_u16(13) + enc_str(asset_path),
        PacketV::MapUpdate { map_path } => enc_u16(14) + enc_str(map_path),
        PacketV::Health { health, max_health } => enc_u16(15) + enc_u32(health) + enc_u32(
            max_health,
        ),
        PacketV::Emotion { emotion } => enc_u16(16) + enc_u8(emotion),
        PacketV::Money { money } => enc_u16(17) + enc_u32(money),
        PacketV::PlaySound { path } => enc_u16(18) + enc_str(path),
        PacketV::ExcludeObject { id } => enc_u16(19) + enc_u32(id),
        PacketV::IncludeObject { id } => enc_u16(20) + enc_u32(id),
        PacketV::MoveCamera { x, y, z, hold_time } => enc_u16(21) + enc_u32(x) + enc_u32(y)
            + enc_u32(z) + enc_u32(hold_time),
        PacketV::SlideCamera { x, y, z, duration } => enc_u16(22) + enc_u32(x) + enc_u32(y)
            + enc_u32(z) + enc_u32(duration),
        PacketV::ShakeCamera { strength, duration } => enc_u16(23) + enc_u32(strength) + enc_u32(
            duration,
        ),
        PacketV::TrackWithCamera { actor_id } => enc_u16(24) + enc_opt_str(actor_id),
        PacketV::UnlockCamera => enc_u16(25),
        PacketV::LockInput => enc_u16(26),
        PacketV::UnlockInput => enc_u16(27),
        PacketV::Teleport { warp, x, y, z, direction } => enc_u16(28) + enc_bool(warp) + enc_u32(x)
            + enc_u32(y) + enc_u32(z) + enc_u8(spec_direction_byte(direction)),
        PacketV::Message { message, mug_texture_path, mug_animation_path } => enc_u16(29)
            + enc_str(message) + enc_str(mug_texture_path) + enc_str(mug_animation_path),
        PacketV::Question { message, mug_texture_path, mug_animation_path } => enc_u16(30)
            + enc_str(message) + enc_str(mug_texture_path) + enc_str(mug_animation_path),
        PacketV::Quiz { option_a, option_b, option_c, mug_texture_path, mug_animation_path } => (
            enc_u16(31) + enc_str(option_a) + enc_str(option_b) + enc_str(option_c) + enc_str(
            mug_texture_path,
        ) + enc_str(mug_animation_path)),
        PacketV::Prompt { character_limit, default_text } => enc_u16(32) + enc_u16(character_limit)
            + enc_opt_str(default_text),
        PacketV::OpenBoard { current_depth, name, color, posts } => enc_u16(33) + enc_u8(
            current_depth,
        ) + enc_str(name) + enc_u8(color.r) + enc_u8(color.g) + enc_u8(color.b) + enc_posts(posts),
        PacketV::PrependPosts { current_depth, reference, posts } => enc_u16(34) + enc_u8(
            current_depth,
        ) + enc_opt_str(reference) + enc_posts(posts),
        PacketV::AppendPosts { current_depth, reference, posts } => enc_u16(35) + enc_u8(
            current_depth,
        ) + enc_opt_str(reference) + enc_posts(posts),
        PacketV::RemovePost { current_depth, id } => enc_u16(36) + enc_u8(current_depth) + enc_str(
            id,
        ),
        PacketV::PostSelectionAck => enc_u16(37),
        PacketV::CloseBBS => enc_u16(38),
        PacketV::InitiatePvp { address } => enc_u16(39) + enc_str(address),
        PacketV::ActorConnected {
            ticket,
            name,
            texture_path,
            animation_path,
            direction,
            x,
            y,
            z,
            solid,
            warp_in,
            scale_x,
            scale_y,
            rotation,
            animation,
        } => enc_u16(40) + enc_str(ticket) + enc_str(name) + enc_str(texture_path) + enc_str(
            animation_path,
        ) + enc_u8(spec_direction_byte(direction)) + enc_u32(x) + enc_u32(y) + enc_u32(z)
            + enc_bool(solid) + enc_bool(warp_in) + enc_u32(scale_x) + enc_u32(scale_y) + enc_u32(
            rotation,
        ) + enc_opt_str(animation),
        PacketV::ActorDisconnected { ticket, warp_out } => enc_u16(41) + enc_str(ticket)
            + enc_bool(warp_out),
        PacketV::ActorSetName { ticket, name } => enc_u16(42) + enc_str(ticket) + enc_str(name),
        PacketV::ActorMove { ticket, x, y, z, direction } => enc_u16(43) + enc_str(ticket)
            + enc_u32(x) + enc_u32(y) + enc_u32(z) + enc_u8(spec_direction_byte(direction)),
        PacketV::ActorSetAvatar { ticket, texture_path, animation_path } => enc_u16(44) + enc_str(
            ticket,
        ) + enc_str(texture_path) + enc_str(animation_path),
        PacketV::ActorEmote { ticket, emote_id, use_custom_emotes } => enc_u16(45) + enc_str(
            ticket,
        ) + enc_u8(emote_id) + enc_bool(use_custom_emotes),
        PacketV::ActorAnimate { ticket, state, loop_animation } => enc_u16(46) + enc_str(ticket)
            + enc_str(state) + enc_bool(loop_animation),
        PacketV::ActorPropertyKeyFrames { ticket, tail, keyframes } => enc_u16(47) + enc_str(
            ticket,
        ) + enc_bool(tail) + enc_keyframes(keyframes),
    }
}

// ---------------------------------------------------------------------------
// Push lemmas for the recursive list layouts
// ---------------------------------------------------------------------------

pub proof fn lemma_enc_post_list_snoc(ps: Seq<BbsPostV>, i: int)
    requires
        0 <= i < ps.len(),
    ensures
        enc_post_list(ps.take(i + 1)) == enc_post_list(ps.take(i)) + enc_post(ps[i]),
    decreases i,
{
    if i == 0 {
        assert(ps.take(0) =~= Seq::<BbsPostV>::empty());
        assert(ps.take(1).drop_first() =~= Seq::<BbsPostV>::empty());
        assert(ps.take(1)[0] == ps[0]);
        assert(enc_post_list(ps.take(i + 1)) =~= enc_post_list(ps.take(i)) + enc_post(ps[i]));
    } else {
        let t = ps.drop_first();
        lemma_enc_post_list_snoc(t, i - 1);
        assert(ps.take(i + 1).drop_first() =~= t.take(i));
        assert(ps.take(i).drop_first() =~= t.take(i - 1));
        assert(t[i - 1] == ps[i]);
        assert(enc_post_list(ps.take(i + 1)) == enc_post(ps[0]) + enc_post_list(t.take(i)));
        assert(enc_post_list(ps.take(i)) == enc_post(ps[0]) + enc_post_list(t.take(i - 1)));
        assert(enc_post_list(ps.take(i + 1)) =~= enc_post_list(ps.take(i)) + enc_post(ps[i]));
    }
}

pub proof fn lemma_enc_step_list_snoc(ss: Seq<(ActorPropertyV, Ease)>, i: int)
    requires
        0 <= i < ss.len(),
    ensures
        enc_step_list(ss.take(i + 1)) == enc_step_list(ss.take(i)) + enc_step(ss[i]),
    decreases i,
{
    if i == 0 {
        assert(ss.take(0) =~= Seq::<(ActorPropertyV, Ease)>::empty());
        assert(ss.take(1).drop_first() =~= Seq::<(ActorPropertyV, Ease)>::empty());
        assert(ss.take(1)[0] == ss[0]);
        assert(enc_step_list(ss.take(i + 1)) =~= enc_step_list(ss.take(i)) + enc_step(ss[i]));
    } else {
        let t = ss.drop_first();
        lemma_enc_step_list_snoc(t, i - 1);
        assert(ss.take(i + 1).drop_first() =~= t.take(i));
        assert(ss.take(i).drop_first() =~= t.take(i - 1));
        assert(t[i - 1] == ss[i]);
        assert(enc_step_list(ss.take(i + 1)) == enc_step(ss[0]) + enc_step_list(t.take(i)));
        assert(enc_step_list(ss.take(i)) == enc_step(ss[0]) + enc_step_list(t.take(i - 1)));
        assert(enc_step_list(ss.take(i + 1)) =~= enc_step_list(ss.take(i)) + enc_step(ss[i]));
    }
}

pub proof fn lemma_enc_keyframe_list_snoc(ks: Seq<KeyFrameV>, i: int)
    requires
        0 <= i < ks.len(),
    ensures
        enc_keyframe_list(ks.take(i + 1)) == enc_keyframe_list(ks.take(i)) + enc_keyframe(ks[i]),
    decreases i,
{
    if i == 0 {
        assert(ks.take(0) =~= Seq::<KeyFrameV>::empty());
        assert(ks.take(1).drop_first() =~= Seq::<KeyFrameV>::empty());
        assert(ks.take(1)[0] == ks[0]);
        assert(enc_keyframe_list(ks.take(i + 1)) =~= enc_keyframe_list(ks.take(i))
            + enc_keyframe(ks[i]));
    } else {
        let t = ks.drop_first();
        lemma_enc_keyframe_list_snoc(t, i - 1);
        assert(ks.take(i + 1).drop_first() =~= t.take(i));
        assert(ks.take(i).drop_first() =~= t.take(i - 1));
        assert(t[i - 1] == ks[i]);
        assert(enc_keyframe_list(ks.take(i + 1)) == enc_keyframe(ks[0]) + enc_keyframe_list(
            t.take(i),
        ));
        assert(enc_keyframe_list(ks.take(i)) == enc_keyframe(ks[0]) + enc_keyframe_list(
            t.take(i - 1),
        ));
        assert(enc_keyframe_list(ks.take(i + 1)) =~= enc_keyframe_list(ks.take(i))
            + enc_keyframe(ks[i]));
    }
}

// ---------------------------------------------------------------------------
// Executable writers for the compound pieces
// ---------------------------------------------------------------------------

fn write_opt_string(buf: &mut Vec<u8>, o: &Option<String>)
    requires
        wf_opt_str(opt_view(*o)),
    ensures
        final(buf)@ == old(buf)@ + enc_opt_str(opt_view(*o)),
{
    match o {
        Some(s) => {
            write_bool(buf, true);
            write_string(buf, s.as_str());
        },
        None => {
            write_bool(buf, false);
        },
    }
}

fn write_post(buf: &mut Vec<u8>, p: &BbsPost)
    requires
        wf_post(p@),
    ensures
        final(buf)@ == old(buf)@ + enc_post(p@),
{
    write_string(buf, p.id.as_str());
    write_bool(buf, p.read);
    write_string(buf, p.title.as_str());
    write_string(buf, p.author.as_str());
}

fn write_posts(buf: &mut Vec<u8>, posts: &Vec<BbsPost>)
    requires
        wf_posts(posts_view(posts@)),
    ensures
        final(buf)@ == old(buf)@ + enc_posts(posts_view(posts@)),
{
    let ghost pv = posts_view(posts@);
    let n = posts.len();
    write_u16(buf, n as u16);
    proof {
        assert(pv.take(0) =~= Seq::<BbsPostV>::empty());
        assert(buf@ =~= old(buf)@ + le_bytes(pv.len(), 2) + enc_post_list(pv.take(0)));
    }
    let mut i: usize = 0;
    while i < n
        invariant
            0 <= i <= n,
            n == posts.len(),
            pv == posts_view(posts@),
            wf_posts(pv),
            buf@ == old(buf)@ + le_bytes(pv.len(), 2) + enc_post_list(pv.take(i as int)),
        decreases n - i,
    {
        proof {
            assert(pv[i as int] == posts@[i as int]@);
        }
        write_post(buf, &posts[i]);
        proof {
            lemma_enc_post_list_snoc(pv, i as int);
            crate::wire::lemma_cat_assoc(
                old(buf)@ + le_bytes(pv.len(), 2),
                enc_post_list(pv.take(i as int)),
                enc_post(pv[i as int]),
            );
        }
        i = i + 1;
    }
    proof {
        assert(pv.take(n as int) =~= pv);
    }
}

fn write_step(buf: &mut Vec<u8>, property: &ActorProperty, ease: &Ease)
    requires
        wf_step((property@, *ease)),
    ensures
        final(buf)@ == old(buf)@ + enc_step((property@, *ease)),
{
    let e = get_ease_identifier(ease);
    write_u8(buf, e);
    let p = get_actor_property_identifier(property);
    write_u8(buf, p);
    match property {
        ActorProperty::Animation(value) => write_string(buf, value.as_str()),
        ActorProperty::X(value) => write_u32(buf, *value),
        ActorProperty::Y(value) => write_u32(buf, *value),
        ActorProperty::Z(value) => write_u32(buf, *value),
        ActorProperty::ScaleX(value) => write_u32(buf, *value),
        ActorProperty::ScaleY(value) => write_u32(buf, *value),
        ActorProperty::Rotation(value) => write_u32(buf, *value),
        ActorProperty::Direction(value) => {
            let b = translate_direction(*value);
            write_u8(buf, b);
        },
        ActorProperty::SoundEffect(value) => write_string(buf, value.as_str()),
        ActorProperty::SoundEffectLoop(value) => write_string(buf, value.as_str()),
    }
}

fn write_keyframe(buf: &mut Vec<u8>, kf: &KeyFrame)
    requires
        wf_keyframe(kf@),
    ensures
        final(buf)@ == old(buf)@ + enc_keyframe(kf@),
{
    let ghost sv = steps_view(kf.property_steps@);
    write_u32(buf, kf.duration);
    let n = kf.property_steps.len();
    write_u16(buf, n as u16);
    proof {
        assert(sv.take(0) =~= Seq::<(ActorPropertyV, Ease)>::empty());
        assert(buf@ =~= old(buf)@ + enc_u32(kf.duration) + le_bytes(sv.len(), 2) + enc_step_list(
            sv.take(0),
        ));
    }
    let mut i: usize = 0;
    while i < n
        invariant
            0 <= i <= n,
            n == kf.property_steps.len(),
            sv == steps_view(kf.property_steps@),
            wf_keyframe(kf@),
            buf@ == old(buf)@ + enc_u32(kf.duration) + le_bytes(sv.len(), 2) + enc_step_list(
                sv.take(i as int),
            ),
        decreases n - i,
    {
        proof {
            assert(sv[i as int] == (kf.property_steps@[i as int].0@, kf.property_steps@[
                i as int
            ].1));
            assert(wf_step(sv[i as int]));
        }
        let step = &kf.property_steps[i];
        write_step(buf, &step.0, &step.1);
        proof {
            lemma_enc_step_list_snoc(sv, i as int);
            crate::wire::lemma_cat_assoc(
                old(buf)@ + enc_u32(kf.duration) + le_bytes(sv.len(), 2),
                enc_step_list(sv.take(i as int)),
                enc_step(sv[i as int]),
            );
        }
        i = i + 1;
    }
    proof {
        assert(sv.take(n as int) =~= sv);
    }
}

fn write_keyframes(buf: &mut Vec<u8>, kfs: &Vec<KeyFrame>)
    requires
        wf_keyframes(kfs_view(kfs@)),
    ensures
        final(buf)@ == old(buf)@ + enc_keyframes(kfs_view(kfs@)),
{
    let ghost kv = kfs_view(kfs@);
    let n = kfs.len();
    write_u16(buf, n as u16);
    proof {
        assert(kv.take(0) =~= Seq::<KeyFrameV>::empty());
        assert(buf@ =~= old(buf)@ + le_bytes(kv.len(), 2) + enc_keyframe_list(kv.take(0)));
    }
    let mut i: usize = 0;
    while i < n
        invariant
            0 <= i <= n,
            n == kfs.len(),
            kv == kfs_view(kfs@),
            wf_keyframes(kv),
            buf@ == old(buf)@ + le_bytes(kv.len(), 2) + enc_keyframe_list(kv.take(i as int)),
        decreases n - i,
    {
        proof {
            assert(kv[i as int] == kfs@[i as int]@);
        }
        write_keyframe(buf, &kfs[i]);
        proof {
            lemma_enc_keyframe_list_snoc(kv, i as int);
            crate::wire::lemma_cat_assoc(
                old(buf)@ + le_bytes(kv.len(), 2),
                enc_keyframe_list(kv.take(i as int)),
                enc_keyframe(kv[i as int]),
            );
        }
        i = i + 1;
    }
    proof {
        assert(kv.take(n as int) =~= kv);
    }
}


// ---------------------------------------------------------------------------
// Building whole packets
// ---------------------------------------------------------------------------

proof fn lemma_version_id_fits()
    ensures
        str_fits(version_id()),
{
    reveal_strlit("netcore-protocol");
    assert(version_id().len() == 16);
    crate::wire::lemma_encode_utf8_len(version_id());
}

pub open spec fn in_group_a(p: PacketV) -> bool {
    p is Pong || p is Ack || p is Login || p is CompleteConnection || p is TransferWarp || p is TransferStart || p is TransferComplete || p is TransferServer || p is Kick || p is RemoveAsset || p is AssetStreamStart || p is AssetStream
}

fn build_packet_group_a(packet: &ServerPacket) -> (r: Option<Vec<u8>>)
    requires
        wf_packet(packet@),
    ensures
        match r {
            Some(buf) => buf@ == spec_encode(packet@) && in_group_a(packet@),
            None => !in_group_a(packet@),
        },
{
    let mut buf: Vec<u8> = Vec::new();
    match packet {
        ServerPacket::Pong { max_payload_size } => {
            write_u16(&mut buf, 0);
            proof {
                assert(buf@ =~= enc_u16(0));
                lemma_version_id_fits();
            }
            write_string(&mut buf, version_id_str());
            write_u64(&mut buf, VERSION_ITERATION);
            write_u16(&mut buf, *max_payload_size as u16);
            proof {
                assert((*max_payload_size as u16) as nat == *max_payload_size as nat);
            }
        },
        ServerPacket::Ack { reliability, id } => {
            write_u16(&mut buf, 1);
            proof {
                assert(buf@ =~= enc_u16(1));
            }
            write_u8(&mut buf, *reliability);
            write_u64(&mut buf, *id);
        },
        ServerPacket::Login { ticket, warp_in, spawn_x, spawn_y, spawn_z, spawn_direction } => {
            write_u16(&mut buf, 2);
            proof {
                assert(buf@ =~= enc_u16(2));
            }
            write_string(&mut buf, ticket.as_str());
            write_bool(&mut buf, *warp_in);
            write_u32(&mut buf, *spawn_x);
            write_u32(&mut buf, *spawn_y);
            write_u32(&mut buf, *spawn_z);
            let d = translate_direction(*spawn_direction);
            write_u8(&mut buf, d);
        },
        ServerPacket::CompleteConnection => {
            write_u16(&mut buf, 3);
            proof {
                assert(buf@ =~= enc_u16(3));
            }
        },
        ServerPacket::TransferWarp => {
            write_u16(&mut buf, 4);
            proof {
                assert(buf@ =~= enc_u16(4));
            }
        },
        ServerPacket::TransferStart => {
            write_u16(&mut buf, 5);
            proof {
                assert(buf@ =~= enc_u16(5));
            }
        },
        ServerPacket::TransferComplete { warp_in, direction } => {
            write_u16(&mut buf, 6);
            proof {
                assert(buf@ =~= enc_u16(6));
            }
            write_bool(&mut buf, *warp_in);
            let d = translate_direction(*direction);
            write_u8(&mut buf, d);
        },
        ServerPacket::TransferServer { address, port, data, warp_out } => {
            write_u16(&mut buf, 7);
            proof {
                assert(buf@ =~= enc_u16(7));
            }
            write_string(&mut buf, address.as_str());
            write_u16(&mut buf, *port);
            write_string(&mut buf, data.as_str());
            write_bool(&mut buf, *warp_out);
        },
        ServerPacket::Kick { reason } => {
            write_u16(&mut buf, 8);
            proof {
                assert(buf@ =~= enc_u16(8));
            }
            write_string(&mut buf, reason.as_str());
        },
        ServerPacket::RemoveAsset { path } => {
            write_u16(&mut buf, 9);
            proof {
                assert(buf@ =~= enc_u16(9));
            }
            write_string(&mut buf, path.as_str());
        },
        ServerPacket::AssetStreamStart { name, last_modified, cachable, data_kind, size } => {
            write_u16(&mut buf, 10);
            proof {
                assert(buf@ =~= enc_u16(10));
            }
            write_string(&mut buf, name.as_str());
            write_u64(&mut buf, *last_modified);
            write_bool(&mut buf, *cachable);
            let kb = crate::packet::kind_byte(*data_kind);
            write_u8(&mut buf, kb);
            write_u64(&mut buf, *size);
        },
        ServerPacket::AssetStream { data } => {
            write_u16(&mut buf, 11);
            proof {
                assert(buf@ =~= enc_u16(11));
            }
            crate::wire::write_data(&mut buf, data.as_slice());
        },
        _ => {
            return None;
        },
    }
    Some(buf)
}

pub open spec fn in_group_b(p: PacketV) -> bool {
    p is Preload || p is CustomEmotesPath || p is MapUpdate || p is Health || p is Emotion || p is Money || p is PlaySound || p is ExcludeObject || p is IncludeObject || p is MoveCamera || p is SlideCamera || p is ShakeCamera
}

fn build_packet_group_b(packet: &ServerPacket) -> (r: Option<Vec<u8>>)
    requires
        wf_packet(packet@),
    ensures
        match r {
            Some(buf) => buf@ == spec_encode(packet@) && in_group_b(packet@),
            None => !in_group_b(packet@),
        },
{
    let mut buf: Vec<u8> = Vec::new();
    match packet {
        ServerPacket::Preload { asset_path } => {
            write_u16(&mut buf, 12);
            proof {
                assert(buf@ =~= enc_u16(12));
            }
            write_string(&mut buf, asset_path.as_str());
        },
        ServerPacket::CustomEmotesPath { asset_path } => {
            write_u16(&mut buf, 13);
            proof {
                assert(buf@ =~= enc_u16(13));
            }
            write_string(&mut buf, asset_path.as_str());
        },
        ServerPacket::MapUpdate { map_path } => {
            write_u16(&mut buf, 14);
            proof {
                assert(buf@ =~= enc_u16(14));
            }
            write_string(&mut buf, map_path.as_str());
        },
        ServerPacket::Health { health, max_health } => {
            write_u16(&mut buf, 15);
            proof {
                assert(buf@ =~= enc_u16(15));
            }
            write_u32(&mut buf, *health);
            write_u32(&mut buf, *max_health);
        },
        ServerPacket::Emotion { emotion } => {
            write_u16(&mut buf, 16);
            proof {
                assert(buf@ =~= enc_u16(16));
            }
            write_u8(&mut buf, *emotion);
        },
        ServerPacket::Money { money } => {
            write_u16(&mut buf, 17);
            proof {
                assert(buf@ =~= enc_u16(17));
            }
            write_u32(&mut buf, *money);
        },
        ServerPacket::PlaySound { path } => {
            write_u16(&mut buf, 18);
            proof {
                assert(buf@ =~= enc_u16(18));
            }
            write_string(&mut buf, path.as_str());
        },
        ServerPacket::ExcludeObject { id } => {
            write_u16(&mut buf, 19);
            proof {
                assert(buf@ =~= enc_u16(19));
            }
            write_u32(&mut buf, *id);
        },
        ServerPacket::IncludeObject { id } => {
            write_u16(&mut buf, 20);
            proof {
                assert(buf@ =~= enc_u16(20));
            }
            write_u32(&mut buf, *id);
        },
        ServerPacket::MoveCamera { x, y, z, hold_time } => {
            write_u16(&mut buf, 21);
            proof {
                assert(buf@ =~= enc_u16(21));
            }
            write_u32(&mut buf, *x);
            write_u32(&mut buf, *y);
            write_u32(&mut buf, *z);
            write_u32(&mut buf, *hold_time);
        },
        ServerPacket::SlideCamera { x, y, z, duration } => {
            write_u16(&mut buf, 22);
            proof {
                assert(buf@ =~= enc_u16(22));
            }
            write_u32(&mut buf, *x);
            write_u32(&mut buf, *y);
            write_u32(&mut buf, *z);
            write_u32(&mut buf, *duration);
        },
        ServerPacket::ShakeCamera { strength, duration } => {
            write_u16(&mut buf, 23);
            proof {
                assert(buf@ =~= enc_u16(23));
            }
            write_u32(&mut buf, *strength);
            write_u32(&mut buf, *duration);
        },
        _ => {
            return None;
        },
    }
    Some(buf)
}

pub open spec fn in_group_c(p: PacketV) -> bool {
    p is TrackWithCamera || p is UnlockCamera || p is LockInput || p is UnlockInput || p is Teleport || p is Message || p is Question || p is Quiz || p is Prompt || p is OpenBoard || p is PrependPosts || p is AppendPosts
}

fn build_packet_group_c(packet: &ServerPacket) -> (r: Option<Vec<u8>>)
    requires
        wf_packet(packet@),
    ensures
        match r {
            Some(buf) => buf@ == spec_encode(packet@) && in_group_c(packet@),
            None => !in_group_c(packet@),
        },
{
    let mut buf: Vec<u8> = Vec::new();
    match packet {
        ServerPacket::TrackWithCamera { actor_id } => {
            write_u16(&mut buf, 24);
            proof {
                assert(buf@ =~= enc_u16(24));
            }
            write_opt_string(&mut buf, actor_id);
        },
        ServerPacket::UnlockCamera => {
            write_u16(&mut buf, 25);
            proof {
                assert(buf@ =~= enc_u16(25));
            }
        },
        ServerPacket::LockInput => {
            write_u16(&mut buf, 26);
            proof {
                assert(buf@ =~= enc_u16(26));
            }
        },
        ServerPacket::UnlockInput => {
            write_u16(&mut buf, 27);
            proof {
                assert(buf@ =~= enc_u16(27));
            }
        },
        ServerPacket::Teleport { warp, x, y, z, direction } => {
            write_u16(&mut buf, 28);
            proof {
                assert(buf@ =~= enc_u16(28));
            }
            write_bool(&mut buf, *warp);
            write_u32(&mut buf, *x);
            write_u32(&mut buf, *y);
            write_u32(&mut buf, *z);
            let d = translate_direction(*direction);
            write_u8(&mut buf, d);
        },
        ServerPacket::Message { message, mug_texture_path, mug_animation_path } => {
            write_u16(&mut buf, 29);
            proof {
                assert(buf@ =~= enc_u16(29));
            }
            write_string(&mut buf, message.as_str());
            write_string(&mut buf, mug_texture_path.as_str());
            write_string(&mut buf, mug_animation_path.as_str());
        },
        ServerPacket::Question { message, mug_texture_path, mug_animation_path } => {
            write_u16(&mut buf, 30);
            proof {
                assert(buf@ =~= enc_u16(30));
            }
            write_string(&mut buf, message.as_str());
            write_string(&mut buf, mug_texture_path.as_str());
            write_string(&mut buf, mug_animation_path.as_str());
        },
        ServerPacket::Quiz { option_a, option_b, option_c, mug_texture_path, mug_animation_path } => {
            write_u16(&mut buf, 31);
            proof {
                assert(buf@ =~= enc_u16(31));
            }
            write_string(&mut buf, option_a.as_str());
            write_string(&mut buf, option_b.as_str());
            write_string(&mut buf, option_c.as_str());
            write_string(&mut buf, mug_texture_path.as_str());
            write_string(&mut buf, mug_animation_path.as_str());
        },
        ServerPacket::Prompt { character_limit, default_text } => {
            write_u16(&mut buf, 32);
            proof {
                assert(buf@ =~= enc_u16(32));
            }
            write_u16(&mut buf, *character_limit);
            write_opt_string(&mut buf, default_text);
        },
        ServerPacket::OpenBoard { current_depth, name, color, posts } => {
            write_u16(&mut buf, 33);
            proof {
                assert(buf@ =~= enc_u16(33));
            }
            write_u8(&mut buf, *current_depth);
            write_string(&mut buf, name.as_str());
            write_u8(&mut buf, color.r);
            write_u8(&mut buf, color.g);
            write_u8(&mut buf, color.b);
            write_posts(&mut buf, posts);
        },
        ServerPacket::PrependPosts { current_depth, reference, posts } => {
            write_u16(&mut buf, 34);
            proof {
                assert(buf@ =~= enc_u16(34));
            }
            write_u8(&mut buf, *current_depth);
            write_opt_string(&mut buf, reference);
            write_posts(&mut buf, posts);
        },
        ServerPacket::AppendPosts { current_depth, reference, posts } => {
            write_u16(&mut buf, 35);
            proof {
                assert(buf@ =~= enc_u16(35));
            }
            write_u8(&mut buf, *current_depth);
            write_opt_string(&mut buf, reference);
            write_posts(&mut buf, posts);
        },
        _ => {
            return None;
        },
    }
    Some(buf)
}

pub open spec fn in_group_d(p: PacketV) -> bool {
    p is RemovePost || p is PostSelectionAck || p is CloseBBS || p is InitiatePvp || p is ActorConnected || p is ActorDisconnected || p is ActorSetName || p is ActorMove || p is ActorSetAvatar || p is ActorEmote || p is ActorAnimate || p is ActorPropertyKeyFrames
}

fn build_packet_group_d(packet: &ServerPacket) -> (r: Option<Vec<u8>>)
    requires
        wf_packet(packet@),
    ensures
        match r {
            Some(buf) => buf@ == spec_encode(packet@) && in_group_d(packet@),
            None => !in_group_d(packet@),
        },
{
    let mut buf: Vec<u8> = Vec::new();
    match packet {
        ServerPacket::RemovePost { current_depth, id } => {
            write_u16(&mut buf, 36);
            proof {
                assert(buf@ =~= enc_u16(36));
            }
            write_u8(&mut buf, *current_depth);
            write_string(&mut buf, id.as_str());
        },
        ServerPacket::PostSelectionAck => {
            write_u16(&mut buf, 37);
            proof {
                assert(buf@ =~= enc_u16(37));
            }
        },
        ServerPacket::CloseBBS => {
            write_u16(&mut buf, 38);
            proof {
                assert(buf@ =~= enc_u16(38));
            }
        },
        ServerPacket::InitiatePvp { address } => {
            write_u16(&mut buf, 39);
            proof {
                assert(buf@ =~= enc_u16(39));
            }
            write_string(&mut buf, address.as_str());
        },
        ServerPacket::ActorConnected {
            ticket,
            name,
            texture_path,
            animation_path,
            direction,
            x,
            y,
            z,
            solid,
            warp_in,
            scale_x,
            scale_y,
            rotation,
            animation,
        } => {
            write_u16(&mut buf, 40);
            proof {
                assert(buf@ =~= enc_u16(40));
            }
            write_string(&mut buf, ticket.as_str());
            write_string(&mut buf, name.as_str());
            write_string(&mut buf, texture_path.as_str());
            write_string(&mut buf, animation_path.as_str());
            let d = translate_direction(*direction);
            write_u8(&mut buf, d);
            write_u32(&mut buf, *x);
            write_u32(&mut buf, *y);
            write_u32(&mut buf, *z);
            write_bool(&mut buf, *solid);
            write_bool(&mut buf, *warp_in);
            write_u32(&mut buf, *scale_x);
            write_u32(&mut buf, *scale_y);
            write_u32(&mut buf, *rotation);
            write_opt_string(&mut buf, animation);
        },
        ServerPacket::ActorDisconnected { ticket, warp_out } => {
            write_u16(&mut buf, 41);
            proof {
                assert(buf@ =~= enc_u16(41));
            }
            write_string(&mut buf, ticket.as_str());
            write_bool(&mut buf, *warp_out);
        },
        ServerPacket::ActorSetName { ticket, name } => {
            write_u16(&mut buf, 42);
            proof {
                assert(buf@ =~= enc_u16(42));
            }
            write_string(&mut buf, ticket.as_str());
            write_string(&mut buf, name.as_str());
        },
        ServerPacket::ActorMove { ticket, x, y, z, direction } => {
            write_u16(&mut buf, 43);
            proof {
                assert(buf@ =~= enc_u16(43));
            }
            write_string(&mut buf, ticket.as_str());
            write_u32(&mut buf, *x);
            write_u32(&mut buf, *y);
            write_u32(&mut buf, *z);
            let d = translate_direction(*direction);
            write_u8(&mut buf, d);
        },
        ServerPacket::ActorSetAvatar { ticket, texture_path, animation_path } => {
            write_u16(&mut buf, 44);
            proof {
                assert(buf@ =~= enc_u16(44));
            }
            write_string(&mut buf, ticket.as_str());
            write_string(&mut buf, texture_path.as_str());
            write_string(&mut buf, animation_path.as_str());
        },
        ServerPacket::ActorEmote { ticket, emote_id, use_custom_emotes } => {
            write_u16(&mut buf, 45);
            proof {
                assert(buf@ =~= enc_u16(45));
            }
            write_string(&mut buf, ticket.as_str());
            write_u8(&mut buf, *emote_id);
            write_bool(&mut buf, *use_custom_emotes);
        },
        ServerPacket::ActorAnimate { ticket, state, loop_animation } => {
            write_u16(&mut buf, 46);
            proof {
                assert(buf@ =~= enc_u16(46));
            }
            write_string(&mut buf, ticket.as_str());
            write_string(&mut buf, state.as_str());
            write_bool(&mut buf, *loop_animation);
        },
        ServerPacket::ActorPropertyKeyFrames { ticket, tail, keyframes } => {
            write_u16(&mut buf, 47);
            proof {
                assert(buf@ =~= enc_u16(47));
            }
            write_string(&mut buf, ticket.as_str());
            write_bool(&mut buf, *tail);
            write_keyframes(&mut buf, keyframes);
        },
        _ => {
            return None;
        },
    }
    Some(buf)
}

/// The wire bytes of a message: exactly `spec_encode` of its shape.
pub fn build_packet(packet: &ServerPacket) -> (buf: Vec<u8>)
    requires
        wf_packet(packet@),
    ensures
        buf@ == spec_encode(packet@),
{
    if let Some(buf) = build_packet_group_a(packet) {
        return buf;
    }
    if let Some(buf) = build_packet_group_b(packet) {
        return buf;
    }
    if let Some(buf) = build_packet_group_c(packet) {
        return buf;
    }
    if let Some(buf) = build_packet_group_d(packet) {
        return buf;
    }
    proof {
        assert(false);
    }
    vstd::pervasive::unreached()
}

/// A packet in its unreliable envelope: a single zero byte marks a datagram
/// the shipper does not track for retransmission, then the packet bytes.
pub fn build_unreliable_packet(packet: &ServerPacket) -> (buf: Vec<u8>)
    requires
        wf_packet(packet@),
    ensures
        buf@ == seq![0u8] + spec_encode(packet@),
{
    let mut buf = build_packet(packet);
    buf.insert(0, 0);
    proof {
        assert(buf@ =~= seq![0u8] + spec_encode(packet@));
    }
    buf
}

} // verus!
