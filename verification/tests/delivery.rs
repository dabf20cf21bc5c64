//! The reliability layer over a simulated lossy channel, and the per-region
//! bookkeeping.

use netcore::area::{Area, AreaMap};
use netcore::decode::decode;
use netcore::packet::ServerPacket;
use netcore::shipper::{PacketSorter, PacketShipper};

#[test]
fn reliable_frame_layout() {
    let mut shipper = PacketShipper::new();
    let datagram = shipper.send_reliable(&ServerPacket::Money { money: 300 });
    // reliability class byte, then the 64-bit identifier, then the message
    assert_eq!(datagram[0], 1);
    assert_eq!(&datagram[1..9], &[0, 0, 0, 0, 0, 0, 0, 0]);
    let body = &datagram[9..];
    assert_eq!(decode(body).unwrap(), ServerPacket::Money { money: 300 });
    let second = shipper.send_reliable(&ServerPacket::UnlockInput);
    assert_eq!(&second[1..9], &[1, 0, 0, 0, 0, 0, 0, 0]);
}

#[test]
fn acknowledgment_retires_pending() {
    let mut shipper = PacketShipper::new();
    shipper.send_reliable(&ServerPacket::LockInput);
    shipper.send_reliable(&ServerPacket::UnlockInput);
    shipper.send_reliable(&ServerPacket::UnlockCamera);
    assert_eq!(shipper.backed_up_packets().len(), 3);
    assert!(shipper.acknowledged(1));
    assert_eq!(shipper.backed_up_packets().len(), 2);
    let ids: Vec<u64> = shipper.backed_up_packets().iter().map(|e| e.0).collect();
    assert_eq!(ids, vec![0, 2]);
    // an unknown or duplicate acknowledgment is harmless
    assert!(!shipper.acknowledged(1));
    assert!(!shipper.acknowledged(99));
    assert_eq!(shipper.backed_up_packets().len(), 2);
}

#[test]
fn lossy_channel_delivers_exactly_once() {
    // the channel drops every 3rd reliable datagram on first send, but every
    // acknowledgment gets through; retransmission must still deliver each
    // message exactly once, duplicates suppressed at the receiver
    let mut shipper = PacketShipper::new();
    let total: u64 = 10;
    for i in 0..total {
        shipper.send_reliable(&ServerPacket::Money { money: i as u32 });
    }
    let mut sorter = PacketSorter::new();
    let mut delivered: Vec<u64> = Vec::new();
    let mut round: usize = 0;
    while !shipper.backed_up_packets().is_empty() {
        round += 1;
        assert!(round < 10, "retry horizon exceeded");
        let resend: Vec<(u64, Vec<u8>)> = shipper.backed_up_packets().clone();
        let mut acks: Vec<u64> = Vec::new();
        for (k, (id, datagram)) in resend.iter().enumerate() {
            if round == 1 && k % 3 == 2 {
                continue; // dropped by the channel
            }
            // receiver side: always acknowledge, deliver only the first copy
            assert_eq!(datagram[0], 1);
            if sorter.receive_reliable(*id) {
                delivered.push(*id);
            }
            acks.push(*id);
            // duplicate arrival of the same datagram is acknowledged again
            // but never redelivered
            assert!(!sorter.receive_reliable(*id));
            acks.push(*id);
        }
        for id in acks {
            shipper.acknowledged(id);
        }
    }
    delivered.sort();
    let expected: Vec<u64> = (0..total).collect();
    assert_eq!(delivered, expected);
}

#[test]
fn area_tracks_players_and_bots() {
    let map = AreaMap::new(String::from("central square"));
    let mut area = Area::new(map);
    assert_eq!(area.get_id(), "central square");
    assert_eq!(area.get_map().get_name(), "central square");
    area.add_player(String::from("p1"));
    area.add_player(String::from("p2"));
    area.add_bot(String::from("b1"));
    assert_eq!(area.get_connected_players(), &vec![
        String::from("p1"),
        String::from("p2"),
    ]);
    area.remove_player(&String::from("p1"));
    assert_eq!(area.get_connected_players(), &vec![String::from("p2")]);
    // removing an unknown identity is a no-op
    area.remove_player(&String::from("p9"));
    assert_eq!(area.get_connected_players(), &vec![String::from("p2")]);
    area.remove_bot(&String::from("b1"));
    assert!(area.get_connected_bots().is_empty());
    area.get_map().set_name(String::from("renamed"));
    assert_eq!(area.get_map().get_name(), "renamed");
}
