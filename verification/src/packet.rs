//! The server's message set: one variant per message kind, each with a fixed,
//! ordered field list. The on-wire tag and field order of a variant never
//! change without a protocol version bump; the handshake (`Pong`) carries the
//! protocol identifier and iteration counter so mismatched builds can refuse
//! to proceed.
//!
//! 32-bit floating-point fields travel as their IEEE-754 bit patterns and are
//! held here as `u32` bit patterns, which keeps the wire layout byte-exact.

use vstd::prelude::*;
use crate::direction::Direction;

verus! {

/// The protocol identifier embedded in the handshake message.
pub open spec fn version_id() -> Seq<char> {
    "netcore-protocol"@
}

pub fn version_id_str() -> (s: &'static str)
    ensures
        s@ == version_id(),
{
    "netcore-protocol"
}

/// The protocol iteration counter embedded in the handshake message.
pub const VERSION_ITERATION: u64 = 1;

/// How an ease curve interpolates a property key-frame.
#[derive(Clone, Copy, Debug, PartialEq, Eq, Structural)]
pub enum Ease {
    Linear,
    In,
    Out,
    InOut,
    Floor,
}

pub open spec fn spec_ease_identifier(e: Ease) -> u8 {
    match e {
        Ease::Linear => 0,
        Ease::In => 1,
        Ease::Out => 2,
        Ease::InOut => 3,
        Ease::Floor => 4,
    }
}

pub open spec fn spec_ease_of_byte(b: u8) -> Option<Ease> {
    if b == 0 {
        Some(Ease::Linear)
    } else if b == 1 {
        Some(Ease::In)
    } else if b == 2 {
        Some(Ease::Out)
    } else if b == 3 {
        Some(Ease::InOut)
    } else if b == 4 {
        Some(Ease::Floor)
    } else {
        None
    }
}

pub fn get_ease_identifier(ease: &Ease) -> (b: u8)
    ensures
        b == spec_ease_identifier(*ease),
{
    match ease {
        Ease::Linear => 0,
        Ease::In => 1,
        Ease::Out => 2,
        Ease::InOut => 3,
        Ease::Floor => 4,
    }
}

pub fn ease_from_byte(b: u8) -> (e: Option<Ease>)
    ensures
        e == spec_ease_of_byte(b),
{
    if b == 0 {
        Some(Ease::Linear)
    } else if b == 1 {
        Some(Ease::In)
    } else if b == 2 {
        Some(Ease::Out)
    } else if b == 3 {
        Some(Ease::InOut)
    } else if b == 4 {
        Some(Ease::Floor)
    } else {
        None
    }
}

/// One animatable property of a remote actor; the float-valued ones hold the
/// IEEE-754 bit pattern that travels on the wire.
#[derive(Clone, Debug, PartialEq)]
pub enum ActorProperty {
    Animation(String),
    X(u32),
    Y(u32),
    Z(u32),
    ScaleX(u32),
    ScaleY(u32),
    Rotation(u32),
    Direction(Direction),
    SoundEffect(String),
    SoundEffectLoop(String),
}

/// The mathematical shape of an [`ActorProperty`]: strings as their character
/// sequences.
pub enum ActorPropertyV {
    Animation(Seq<char>),
    X(u32),
    Y(u32),
    Z(u32),
    ScaleX(u32),
    ScaleY(u32),
    Rotation(u32),
    Direction(Direction),
    SoundEffect(Seq<char>),
    SoundEffectLoop(Seq<char>),
}

impl View for ActorProperty {
    type V = ActorPropertyV;

    open spec fn view(&self) -> ActorPropertyV {
        match self {
            ActorProperty::Animation(s) => ActorPropertyV::Animation(s@),
            ActorProperty::X(v) => ActorPropertyV::X(*v),
            ActorProperty::Y(v) => ActorPropertyV::Y(*v),
            ActorProperty::Z(v) => ActorPropertyV::Z(*v),
            ActorProperty::ScaleX(v) => ActorPropertyV::ScaleX(*v),
            ActorProperty::ScaleY(v) => ActorPropertyV::ScaleY(*v),
            ActorProperty::Rotation(v) => ActorPropertyV::Rotation(*v),
            ActorProperty::Direction(d) => ActorPropertyV::Direction(*d),
            ActorProperty::SoundEffect(s) => ActorPropertyV::SoundEffect(s@),
            ActorProperty::SoundEffectLoop(s) => ActorPropertyV::SoundEffectLoop(s@),
        }
    }
}

pub open spec fn spec_property_identifier(p: ActorPropertyV) -> u8 {
    match p {
        ActorPropertyV::Animation(_) => 0,
        ActorPropertyV::X(_) => 1,
        ActorPropertyV::Y(_) => 2,
        ActorPropertyV::Z(_) => 3,
        ActorPropertyV::ScaleX(_) => 4,
        ActorPropertyV::ScaleY(_) => 5,
        ActorPropertyV::Rotation(_) => 6,
        ActorPropertyV::Direction(_) => 7,
        ActorPropertyV::SoundEffect(_) => 8,
        ActorPropertyV::SoundEffectLoop(_) => 9,
    }
}

pub fn get_actor_property_identifier(property: &ActorProperty) -> (b: u8)
    ensures
        b == spec_property_identifier(property@),
{
    match property {
        ActorProperty::Animation(_) => 0,
        ActorProperty::X(_) => 1,
        ActorProperty::Y(_) => 2,
        ActorProperty::Z(_) => 3,
        ActorProperty::ScaleX(_) => 4,
        ActorProperty::ScaleY(_) => 5,
        ActorProperty::Rotation(_) => 6,
        ActorProperty::Direction(_) => 7,
        ActorProperty::SoundEffect(_) => 8,
        ActorProperty::SoundEffectLoop(_) => 9,
    }
}

/// One key-frame of a property animation track: a duration (an IEEE-754 bit
/// pattern) and the property steps eased over it.
#[derive(Clone, Debug, PartialEq)]
pub struct KeyFrame {
    pub duration: u32,
    pub property_steps: Vec<(ActorProperty, Ease)>,
}

pub struct KeyFrameV {
    pub duration: u32,
    pub property_steps: Seq<(ActorPropertyV, Ease)>,
}

impl View for KeyFrame {
    type V = KeyFrameV;

    open spec fn view(&self) -> KeyFrameV {
        KeyFrameV {
            duration: self.duration,
            property_steps: steps_view(self.property_steps@),
        }
    }
}

/// One post of the bulletin-board UI.
#[derive(Clone, Debug, PartialEq)]
pub struct BbsPost {
    pub id: String,
    pub read: bool,
    pub title: String,
    pub author: String,
}

pub struct BbsPostV {
    pub id: Seq<char>,
    pub read: bool,
    pub title: Seq<char>,
    pub author: Seq<char>,
}

impl View for BbsPost {
    type V = BbsPostV;

    open spec fn view(&self) -> BbsPostV {
        BbsPostV { id: self.id@, read: self.read, title: self.title@, author: self.author@ }
    }
}

/// The media kind of an asset payload, as tagged in the asset stream header.
#[derive(Clone, Copy, Debug, PartialEq, Eq, Structural)]
pub enum AssetDataKind {
    Text,
    Texture,
    Audio,
}

pub open spec fn spec_kind_byte(k: AssetDataKind) -> u8 {
    match k {
        AssetDataKind::Text => 0,
        AssetDataKind::Texture => 1,
        AssetDataKind::Audio => 2,
    }
}

pub fn kind_byte(k: AssetDataKind) -> (b: u8)
    ensures
        b == spec_kind_byte(k),
{
    match k {
        AssetDataKind::Text => 0,
        AssetDataKind::Texture => 1,
        AssetDataKind::Audio => 2,
    }
}

pub open spec fn spec_kind_of_byte(b: u8) -> Option<AssetDataKind> {
    if b == 0 {
        Some(AssetDataKind::Text)
    } else if b == 1 {
        Some(AssetDataKind::Texture)
    } else if b == 2 {
        Some(AssetDataKind::Audio)
    } else {
        None
    }
}

pub fn kind_from_byte(b: u8) -> (k: Option<AssetDataKind>)
    ensures
        k == spec_kind_of_byte(b),
{
    if b == 0 {
        Some(AssetDataKind::Text)
    } else if b == 1 {
        Some(AssetDataKind::Texture)
    } else if b == 2 {
        Some(AssetDataKind::Audio)
    } else {
        None
    }
}

/// The color of a bulletin board, one byte per channel.
#[derive(Clone, Copy, Debug, PartialEq, Eq, Structural)]
pub struct BoardColor {
    pub r: u8,
    pub g: u8,
    pub b: u8,
}

/// A server-to-client message. Field order is declaration order, which is
/// also wire order.
#[derive(Clone, Debug, PartialEq)]
pub enum ServerPacket {
    Pong { max_payload_size: usize },
    Ack { reliability: u8, id: u64 },
    Login {
        ticket: String,
        warp_in: bool,
        spawn_x: u32,
        spawn_y: u32,
        spawn_z: u32,
        spawn_direction: Direction,
    },
    CompleteConnection,
    TransferWarp,
    TransferStart,
    TransferComplete { warp_in: bool, direction: Direction },
    TransferServer { address: String, port: u16, data: String, warp_out: bool },
    Kick { reason: String },
    RemoveAsset { path: String },
    AssetStreamStart {
        name: String,
        last_modified: u64,
        cachable: bool,
        data_kind: AssetDataKind,
        size: u64,
    },
    AssetStream { data: Vec<u8> },
    Preload { asset_path: String },
    CustomEmotesPath { asset_path: String },
    MapUpdate { map_path: String },
    Health { health: u32, max_health: u32 },
    Emotion { emotion: u8 },
    Money { money: u32 },
    PlaySound { path: String },
    ExcludeObject { id: u32 },
    IncludeObject { id: u32 },
    MoveCamera { x: u32, y: u32, z: u32, hold_time: u32 },
    SlideCamera { x: u32, y: u32, z: u32, duration: u32 },
    ShakeCamera { strength: u32, duration: u32 },
    TrackWithCamera { actor_id: Option<String> },
    UnlockCamera,
    LockInput,
    UnlockInput,
    Teleport { warp: bool, x: u32, y: u32, z: u32, direction: Direction },
    Message { message: String, mug_texture_path: String, mug_animation_path: String },
    Question { message: String, mug_texture_path: String, mug_animation_path: String },
    Quiz {
        option_a: String,
        option_b: String,
        option_c: String,
        mug_texture_path: String,
        mug_animation_path: String,
    },
    Prompt { character_limit: u16, default_text: Option<String> },
    OpenBoard { current_depth: u8, name: String, color: BoardColor, posts: Vec<BbsPost> },
    PrependPosts { current_depth: u8, reference: Option<String>, posts: Vec<BbsPost> },
    AppendPosts { current_depth: u8, reference: Option<String>, posts: Vec<BbsPost> },
    RemovePost { current_depth: u8, id: String },
    PostSelectionAck,
    CloseBBS,
    InitiatePvp { address: String },
    ActorConnected {
        ticket: String,
        name: String,
        texture_path: String,
        animation_path: String,
        direction: Direction,
        x: u32,
        y: u32,
        z: u32,
        solid: bool,
        warp_in: bool,
        scale_x: u32,
        scale_y: u32,
        rotation: u32,
        animation: Option<String>,
    },
    ActorDisconnected { ticket: String, warp_out: bool },
    ActorSetName { ticket: String, name: String },
    ActorMove { ticket: String, x: u32, y: u32, z: u32, direction: Direction },
    ActorSetAvatar { ticket: String, texture_path: String, animation_path: String },
    ActorEmote { ticket: String, emote_id: u8, use_custom_emotes: bool },
    ActorAnimate { ticket: String, state: String, loop_animation: bool },
    ActorPropertyKeyFrames { ticket: String, tail: bool, keyframes: Vec<KeyFrame> },
}

/// The mathematical shape of a [`ServerPacket`]: strings as character
/// sequences, byte blocks and lists as sequences. Contracts and the codec
/// specification speak of this shape.
pub enum PacketV {
    Pong { max_payload_size: usize },
    Ack { reliability: u8, id: u64 },
    Login {
        ticket: Seq<char>,
        warp_in: bool,
        spawn_x: u32,
        spawn_y: u32,
        spawn_z: u32,
        spawn_direction: Direction,
    },
    CompleteConnection,
    TransferWarp,
    TransferStart,
    TransferComplete { warp_in: bool, direction: Direction },
    TransferServer { address: Seq<char>, port: u16, data: Seq<char>, warp_out: bool },
    Kick { reason: Seq<char> },
    RemoveAsset { path: Seq<char> },
    AssetStreamStart {
        name: Seq<char>,
        last_modified: u64,
        cachable: bool,
        data_kind: AssetDataKind,
        size: u64,
    },
    AssetStream { data: Seq<u8> },
    Preload { asset_path: Seq<char> },
    CustomEmotesPath { asset_path: Seq<char> },
    MapUpdate { map_path: Seq<char> },
    Health { health: u32, max_health: u32 },
    Emotion { emotion: u8 },
    Money { money: u32 },
    PlaySound { path: Seq<char> },
    ExcludeObject { id: u32 },
    IncludeObject { id: u32 },
    MoveCamera { x: u32, y: u32, z: u32, hold_time: u32 },
    SlideCamera { x: u32, y: u32, z: u32, duration: u32 },
    ShakeCamera { strength: u32, duration: u32 },
    TrackWithCamera { actor_id: Option<Seq<char>> },
    UnlockCamera,
    LockInput,
    UnlockInput,
    Teleport { warp: bool, x: u32, y: u32, z: u32, direction: Direction },
    Message { message: Seq<char>, mug_texture_path: Seq<char>, mug_animation_path: Seq<char> },
    Question { message: Seq<char>, mug_texture_path: Seq<char>, mug_animation_path: Seq<char> },
    Quiz {
        option_a: Seq<char>,
        option_b: Seq<char>,
        option_c: Seq<char>,
        mug_texture_path: Seq<char>,
        mug_animation_path: Seq<char>,
    },
    Prompt { character_limit: u16, default_text: Option<Seq<char>> },
    OpenBoard { current_depth: u8, name: Seq<char>, color: BoardColor, posts: Seq<BbsPostV> },
    PrependPosts { current_depth: u8, reference: Option<Seq<char>>, posts: Seq<BbsPostV> },
    AppendPosts { current_depth: u8, reference: Option<Seq<char>>, posts: Seq<BbsPostV> },
    RemovePost { current_depth: u8, id: Seq<char> },
    PostSelectionAck,
    CloseBBS,
    InitiatePvp { address: Seq<char> },
    ActorConnected {
        ticket: Seq<char>,
        name: Seq<char>,
        texture_path: Seq<char>,
        animation_path: Seq<char>,
        direction: Direction,
        x: u32,
        y: u32,
        z: u32,
        solid: bool,
        warp_in: bool,
        scale_x: u32,
        scale_y: u32,
        rotation: u32,
        animation: Option<Seq<char>>,
    },
    ActorDisconnected { ticket: Seq<char>, warp_out: bool },
    ActorSetName { ticket: Seq<char>, name: Seq<char> },
    ActorMove { ticket: Seq<char>, x: u32, y: u32, z: u32, direction: Direction },
    ActorSetAvatar { ticket: Seq<char>, texture_path: Seq<char>, animation_path: Seq<char> },
    ActorEmote { ticket: Seq<char>, emote_id: u8, use_custom_emotes: bool },
    ActorAnimate { ticket: Seq<char>, state: Seq<char>, loop_animation: bool },
    ActorPropertyKeyFrames { ticket: Seq<char>, tail: bool, keyframes: Seq<KeyFrameV> },
}

pub open spec fn opt_view(o: Option<String>) -> Option<Seq<char>> {
    match o {
        Some(s) => Some(s@),
        None => None,
    }
}

pub open spec fn posts_view(ps: Seq<BbsPost>) -> Seq<BbsPostV> {
    ps.map_values(|p: BbsPost| p@)
}

pub open spec fn kfs_view(ks: Seq<KeyFrame>) -> Seq<KeyFrameV> {
    ks.map_values(|k: KeyFrame| k@)
}

pub open spec fn steps_view(ss: Seq<(ActorProperty, Ease)>) -> Seq<(ActorPropertyV, Ease)> {
    ss.map_values(|s: (ActorProperty, Ease)| (s.0@, s.1))
}

impl View for ServerPacket {
    type V = PacketV;

    open spec fn view(&self) -> PacketV {
        match self {
            ServerPacket::Pong { max_payload_size } => PacketV::Pong {
                max_payload_size: *max_payload_size,
            },
            ServerPacket::Ack { reliability, id } => PacketV::Ack {
                reliability: *reliability,
                id: *id,
            },
            ServerPacket::Login {
                ticket,
                warp_in,
                spawn_x,
                spawn_y,
                spawn_z,
                spawn_direction,
            } => PacketV::Login {
                ticket: ticket@,
                warp_in: *warp_in,
                spawn_x: *spawn_x,
                spawn_y: *spawn_y,
                spawn_z: *spawn_z,
                spawn_direction: *spawn_direction,
            },
            ServerPacket::CompleteConnection => PacketV::CompleteConnection,
            ServerPacket::TransferWarp => PacketV::TransferWarp,
            ServerPacket::TransferStart => PacketV::TransferStart,
            ServerPacket::TransferComplete { warp_in, direction } => PacketV::TransferComplete {
                warp_in: *warp_in,
                direction: *direction,
            },
            ServerPacket::TransferServer { address, port, data, warp_out } => (
                PacketV::TransferServer {
                    address: address@,
                    port: *port,
                    data: data@,
                    warp_out: *warp_out,
                }
            ),
            ServerPacket::Kick { reason } => PacketV::Kick { reason: reason@ },
            ServerPacket::RemoveAsset { path } => PacketV::RemoveAsset { path: path@ },
            ServerPacket::AssetStreamStart { name, last_modified, cachable, data_kind, size } => (
                PacketV::AssetStreamStart {
                    name: name@,
                    last_modified: *last_modified,
                    cachable: *cachable,
                    data_kind: *data_kind,
                    size: *size,
                }
            ),
            ServerPacket::AssetStream { data } => PacketV::AssetStream { data: data@ },
            ServerPacket::Preload { asset_path } => PacketV::Preload { asset_path: asset_path@ },
            ServerPacket::CustomEmotesPath { asset_path } => PacketV::CustomEmotesPath {
                asset_path: asset_path@,
            },
            ServerPacket::MapUpdate { map_path } => PacketV::MapUpdate { map_path: map_path@ },
            ServerPacket::Health { health, max_health } => PacketV::Health {
                health: *health,
                max_health: *max_health,
            },
            ServerPacket::Emotion { emotion } => PacketV::Emotion { emotion: *emotion },
            ServerPacket::Money { money } => PacketV::Money { money: *money },
            ServerPacket::PlaySound { path } => PacketV::PlaySound { path: path@ },
            ServerPacket::ExcludeObject { id } => PacketV::ExcludeObject { id: *id },
            ServerPacket::IncludeObject { id } => PacketV::IncludeObject { id: *id },
            ServerPacket::MoveCamera { x, y, z, hold_time } => PacketV::MoveCamera {
                x: *x,
                y: *y,
                z: *z,
                hold_time: *hold_time,
            },
            ServerPacket::SlideCamera { x, y, z, duration } => PacketV::SlideCamera {
                x: *x,
                y: *y,
                z: *z,
                duration: *duration,
            },
            ServerPacket::ShakeCamera { strength, duration } => PacketV::ShakeCamera {
                strength: *strength,
                duration: *duration,
            },
            ServerPacket::TrackWithCamera { actor_id } => PacketV::TrackWithCamera {
                actor_id: opt_view(*actor_id),
            },
            ServerPacket::UnlockCamera => PacketV::UnlockCamera,
            ServerPacket::LockInput => PacketV::LockInput,
            ServerPacket::UnlockInput => PacketV::UnlockInput,
            ServerPacket::Teleport { warp, x, y, z, direction } => PacketV::Teleport {
                warp: *warp,
                x: *x,
                y: *y,
                z: *z,
                direction: *direction,
            },
            ServerPacket::Message { message, mug_texture_path, mug_animation_path } => (
                PacketV::Message {
                    message: message@,
                    mug_texture_path: mug_texture_path@,
                    mug_animation_path: mug_animation_path@,
                }
            ),
            ServerPacket::Question { message, mug_texture_path, mug_animation_path } => (
                PacketV::Question {
                    message: message@,
                    mug_texture_path: mug_texture_path@,
                    mug_animation_path: mug_animation_path@,
                }
            ),
            ServerPacket::Quiz {
                option_a,
                option_b,
                option_c,
                mug_texture_path,
                mug_animation_path,
            } => PacketV::Quiz {
                option_a: option_a@,
                option_b: option_b@,
                option_c: option_c@,
                mug_texture_path: mug_texture_path@,
                mug_animation_path: mug_animation_path@,
            },
            ServerPacket::Prompt { character_limit, default_text } => PacketV::Prompt {
                character_limit: *character_limit,
                default_text: opt_view(*default_text),
            },
            ServerPacket::OpenBoard { current_depth, name, color, posts } => PacketV::OpenBoard {
                current_depth: *current_depth,
                name: name@,
                color: *color,
                posts: posts_view(posts@),
            },
            ServerPacket::PrependPosts { current_depth, reference, posts } => (
                PacketV::PrependPosts {
                    current_depth: *current_depth,
                    reference: opt_view(*reference),
                    posts: posts_view(posts@),
                }
            ),
            ServerPacket::AppendPosts { current_depth, reference, posts } => (
                PacketV::AppendPosts {
                    current_depth: *current_depth,
                    reference: opt_view(*reference),
                    posts: posts_view(posts@),
                }
            ),
            ServerPacket::RemovePost { current_depth, id } => PacketV::RemovePost {
                current_depth: *current_depth,
                id: id@,
            },
            ServerPacket::PostSelectionAck => PacketV::PostSelectionAck,
            ServerPacket::CloseBBS => PacketV::CloseBBS,
            ServerPacket::InitiatePvp { address } => PacketV::InitiatePvp { address: address@ },
            ServerPacket::ActorConnected {
                ticket,
                name,
                texture_path,
                animation_path,
                direction,
                x,
                y,
                z,
                solid,
                warp_in,
                scale_x,
                scale_y,
                rotation,
                animation,
            } => PacketV::ActorConnected {
                ticket: ticket@,
                name: name@,
                texture_path: texture_path@,
                animation_path: animation_path@,
                direction: *direction,
                x: *x,
                y: *y,
                z: *z,
                solid: *solid,
                warp_in: *warp_in,
                scale_x: *scale_x,
                scale_y: *scale_y,
                rotation: *rotation,
                animation: opt_view(*animation),
            },
            ServerPacket::ActorDisconnected { ticket, warp_out } => PacketV::ActorDisconnected {
                ticket: ticket@,
                warp_out: *warp_out,
            },
            ServerPacket::ActorSetName { ticket, name } => PacketV::ActorSetName {
                ticket: ticket@,
                name: name@,
            },
            ServerPacket::ActorMove { ticket, x, y, z, direction } => PacketV::ActorMove {
                ticket: ticket@,
                x: *x,
                y: *y,
                z: *z,
                direction: *direction,
            },
            ServerPacket::ActorSetAvatar { ticket, texture_path, animation_path } => (
                PacketV::ActorSetAvatar {
                    ticket: ticket@,
                    texture_path: texture_path@,
                    animation_path: animation_path@,
                }
            ),
            ServerPacket::ActorEmote { ticket, emote_id, use_custom_emotes } => (
                PacketV::ActorEmote {
                    ticket: ticket@,
                    emote_id: *emote_id,
                    use_custom_emotes: *use_custom_emotes,
                }
            ),
            ServerPacket::ActorAnimate { ticket, state, loop_animation } => (
                PacketV::ActorAnimate {
                    ticket: ticket@,
                    state: state@,
                    loop_animation: *loop_animation,
                }
            ),
            ServerPacket::ActorPropertyKeyFrames { ticket, tail, keyframes } => (
                PacketV::ActorPropertyKeyFrames {
                    ticket: ticket@,
                    tail: *tail,
                    keyframes: kfs_view(keyframes@),
                }
            ),
        }
    }
}

} // verus!
