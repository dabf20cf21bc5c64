//! The in-memory shape of a loadable game resource: a payload of one of
//! three media kinds, a modification timestamp, cacheability, and references
//! to other assets, by concrete path or by logical alias.

use vstd::prelude::*;
use vstd::utf8::encode_utf8;
use crate::packet::AssetDataKind;

verus! {

/// The payload of an asset. Text is held as UTF-8 source; textures and audio
/// as raw bytes.
#[derive(Clone, Debug, PartialEq)]
pub enum AssetData {
    Text(String),
    Texture(Vec<u8>),
    Audio(Vec<u8>),
}

impl AssetData {
    /// The raw payload bytes, the same for every media kind.
    pub open spec fn spec_bytes(&self) -> Seq<u8> {
        match self {
            AssetData::Text(s) => encode_utf8(s@),
            AssetData::Texture(b) => b@,
            AssetData::Audio(b) => b@,
        }
    }

    pub open spec fn spec_kind(&self) -> AssetDataKind {
        match self {
            AssetData::Text(_) => AssetDataKind::Text,
            AssetData::Texture(_) => AssetDataKind::Texture,
            AssetData::Audio(_) => AssetDataKind::Audio,
        }
    }

    pub fn kind(&self) -> (k: AssetDataKind)
        ensures
            k == self.spec_kind(),
    {
        match self {
            AssetData::Text(_) => AssetDataKind::Text,
            AssetData::Texture(_) => AssetDataKind::Texture,
            AssetData::Audio(_) => AssetDataKind::Audio,
        }
    }

    /// The payload bytes as a slice.
    pub fn bytes(&self) -> (b: &[u8])
        ensures
            b@ == self.spec_bytes(),
    {
        match self {
            AssetData::Text(s) => s.as_str().as_bytes(),
            AssetData::Texture(b) => b.as_slice(),
            AssetData::Audio(b) => b.as_slice(),
        }
    }
}

/// A reference from one asset to another: a concrete path, or the logical
/// alias of a scripted character.
#[derive(Clone, Debug, PartialEq)]
pub enum AssetDependency {
    AssetPath(String),
    ScriptedCharacter(String),
}

/// A loadable game resource owned by the asset directory.
#[derive(Clone, Debug, PartialEq)]
pub struct Asset {
    pub data: AssetData,
    pub last_modified: u64,
    pub cachable: bool,
    pub dependencies: Vec<AssetDependency>,
    pub alternate_names: Vec<AssetDependency>,
}

impl Asset {
    /// The byte length of the payload.
    pub fn len(&self) -> (n: usize)
        ensures
            n == self.data.spec_bytes().len(),
    {
        self.data.bytes().len()
    }
}

} // verus!
