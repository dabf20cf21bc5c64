//! The asset directory, its alias index, dependency flattening, and the
//! streaming pipeline.

use netcore::asset::{Asset, AssetData, AssetDependency};
use netcore::asset_manager::AssetManager;
use netcore::packet::{AssetDataKind, ServerPacket};
use netcore::stream::{create_asset_stream, HEADER_SIZE};

fn text_asset(body: &str, deps: Vec<AssetDependency>, names: Vec<AssetDependency>) -> Asset {
    Asset {
        data: AssetData::Text(String::from(body)),
        last_modified: 7,
        cachable: true,
        dependencies: deps,
        alternate_names: names,
    }
}

#[test]
fn get_set_remove_asset() {
    let mut mgr = AssetManager::new();
    let path = String::from("/server/assets/a.lua");
    assert!(mgr.get_asset(&path).is_none());
    mgr.set_asset(path.clone(), text_asset("print(1)", Vec::new(), Vec::new()));
    let got = mgr.get_asset(&path).expect("stored asset is found");
    assert_eq!(got.data, AssetData::Text(String::from("print(1)")));
    mgr.set_asset(path.clone(), text_asset("print(2)", Vec::new(), Vec::new()));
    let got = mgr.get_asset(&path).expect("overwritten asset is found");
    assert_eq!(got.data, AssetData::Text(String::from("print(2)")));
    mgr.remove_asset(&path);
    assert!(mgr.get_asset(&path).is_none());
}

#[test]
fn alias_overwrite_resolves_to_newest() {
    let mut mgr = AssetManager::new();
    let pa = String::from("/server/a.lua");
    let pb = String::from("/server/b.lua");
    let alias = || AssetDependency::ScriptedCharacter(String::from("guard"));
    mgr.set_asset(pa.clone(), text_asset("a", Vec::new(), vec![alias()]));
    mgr.set_asset(pb.clone(), text_asset("b", Vec::new(), vec![alias()]));
    let resolved = mgr.resolve_dependency_path(&alias()).expect("alias resolves");
    assert_eq!(resolved, pb);
}

#[test]
fn alias_removal_guard_keeps_newer_claim() {
    let mut mgr = AssetManager::new();
    let pa = String::from("/server/a.lua");
    let pb = String::from("/server/b.lua");
    let alias = || AssetDependency::ScriptedCharacter(String::from("guard"));
    mgr.set_asset(pa.clone(), text_asset("a", Vec::new(), vec![alias()]));
    mgr.set_asset(pb.clone(), text_asset("b", Vec::new(), vec![alias()]));
    // removing the stale holder must not clear the alias B now owns
    mgr.remove_asset(&pa);
    let resolved = mgr.resolve_dependency_path(&alias()).expect("alias survives stale removal");
    assert_eq!(resolved, pb);
    // removing the current holder does clear it
    mgr.remove_asset(&pb);
    assert!(mgr.resolve_dependency_path(&alias()).is_none());
}

#[test]
fn dependency_chain_orders_dag() {
    let mut mgr = AssetManager::new();
    let root = String::from("/server/root.lua");
    let mid = String::from("/server/mid.lua");
    let leaf = String::from("/server/leaf.png");
    mgr.set_asset(leaf.clone(), text_asset("leaf", Vec::new(), Vec::new()));
    mgr.set_asset(
        mid.clone(),
        text_asset("mid", vec![AssetDependency::AssetPath(leaf.clone())], Vec::new()),
    );
    mgr.set_asset(
        root.clone(),
        text_asset(
            "root",
            vec![
                AssetDependency::AssetPath(mid.clone()),
                AssetDependency::AssetPath(leaf.clone()),
                AssetDependency::AssetPath(String::from("/server/missing.png")),
            ],
            Vec::new(),
        ),
    );
    let chain = mgr.get_flattened_dependency_chain(&root);
    assert_eq!(chain, vec![leaf.clone(), mid.clone(), root.clone()]);
    // each reachable asset appears exactly once, dependencies first
    let pos = |p: &String| chain.iter().position(|x| x == p).unwrap();
    assert!(pos(&leaf) < pos(&mid));
    assert!(pos(&mid) < pos(&root));
}

#[test]
fn dependency_chain_resolves_aliases_and_skips_dangling() {
    let mut mgr = AssetManager::new();
    let npc = String::from("/server/npc.lua");
    let root = String::from("/server/area.lua");
    mgr.set_asset(
        npc.clone(),
        text_asset(
            "npc",
            Vec::new(),
            vec![AssetDependency::ScriptedCharacter(String::from("mayor"))],
        ),
    );
    mgr.set_asset(
        root.clone(),
        text_asset(
            "area",
            vec![
                AssetDependency::ScriptedCharacter(String::from("mayor")),
                AssetDependency::ScriptedCharacter(String::from("nobody")),
            ],
            Vec::new(),
        ),
    );
    let chain = mgr.get_flattened_dependency_chain(&root);
    assert_eq!(chain, vec![npc, root]);
    let unknown = String::from("/server/none.lua");
    assert!(mgr.get_flattened_dependency_chain(&unknown).is_empty());
}

#[test]
fn dependency_chain_breaks_cycles() {
    let mut mgr = AssetManager::new();
    let a = String::from("/server/a.lua");
    let b = String::from("/server/b.lua");
    mgr.set_asset(
        a.clone(),
        text_asset("a", vec![AssetDependency::AssetPath(b.clone())], Vec::new()),
    );
    mgr.set_asset(
        b.clone(),
        text_asset("b", vec![AssetDependency::AssetPath(a.clone())], Vec::new()),
    );
    let chain = mgr.get_flattened_dependency_chain(&a);
    assert_eq!(chain.len(), 2);
    assert!(chain.contains(&a) && chain.contains(&b));
}

#[test]
fn stream_chunks_rebuild_payload() {
    let payload: Vec<u8> = (0..1000u32).map(|i| (i % 251) as u8).collect();
    let asset = Asset {
        data: AssetData::Texture(payload.clone()),
        last_modified: 42,
        cachable: false,
        dependencies: Vec::new(),
        alternate_names: Vec::new(),
    };
    let max_payload = HEADER_SIZE + 300;
    let packets = create_asset_stream(max_payload, "/server/tex.png", &asset);
    // ceil(1000 / 300) data chunks after the start frame
    assert_eq!(packets.len(), 1 + 4);
    match &packets[0] {
        ServerPacket::AssetStreamStart { name, last_modified, cachable, data_kind, size } => {
            assert_eq!(name, "/server/tex.png");
            assert_eq!(*last_modified, 42);
            assert!(!*cachable);
            assert_eq!(*data_kind, AssetDataKind::Texture);
            assert_eq!(*size, 1000);
        },
        other => panic!("expected a stream start frame, got {other:?}"),
    }
    let mut rebuilt: Vec<u8> = Vec::new();
    for p in &packets[1..] {
        match p {
            ServerPacket::AssetStream { data } => {
                assert!(data.len() <= 300);
                rebuilt.extend_from_slice(data);
            },
            other => panic!("expected a chunk frame, got {other:?}"),
        }
    }
    assert_eq!(rebuilt, payload);
}

#[test]
fn stream_of_empty_payload_has_no_chunks() {
    let asset = Asset {
        data: AssetData::Audio(Vec::new()),
        last_modified: 0,
        cachable: true,
        dependencies: Vec::new(),
        alternate_names: Vec::new(),
    };
    let packets = create_asset_stream(HEADER_SIZE + 8, "/server/s.ogg", &asset);
    assert_eq!(packets.len(), 1);
}

#[test]
fn stream_exact_multiple_fills_every_chunk() {
    let payload: Vec<u8> = vec![7; 600];
    let asset = Asset {
        data: AssetData::Texture(payload),
        last_modified: 1,
        cachable: true,
        dependencies: Vec::new(),
        alternate_names: Vec::new(),
    };
    let packets = create_asset_stream(HEADER_SIZE + 200, "/server/t.png", &asset);
    assert_eq!(packets.len(), 1 + 3);
    for p in &packets[1..] {
        match p {
            ServerPacket::AssetStream { data } => assert_eq!(data.len(), 200),
            other => panic!("expected a chunk frame, got {other:?}"),
        }
    }
}
