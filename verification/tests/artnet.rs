use audio_2_dmx::artnet::{artnet_packet, frame_action, frame_universe, FrameAction, FrameChannels};

#[test]
fn artnet_packet_layout() {
    let p = artnet_packet(0x0102, &[10, 20, 30]);
    assert_eq!(&p[0..8], b"Art-Net\0");
    assert_eq!(&p[8..10], &[0x00, 0x50]);
    assert_eq!(&p[10..12], &[0x00, 0x0e]);
    assert_eq!(&p[12..14], &[0, 0]);
    assert_eq!(&p[14..16], &[0x02, 0x01]);
    assert_eq!(&p[16..18], &[0x00, 0x03]);
    assert_eq!(&p[18..], &[10, 20, 30]);
    assert_eq!(p.len(), 21);
}

#[test]
fn artnet_packet_small_frame() {
    let p = artnet_packet(1, &[7, 9]);
    assert_eq!(
        p,
        vec![
            0x41, 0x72, 0x74, 0x2D, 0x4E, 0x65, 0x74, 0x00, 0x00, 0x50, 0x00, 0x0E, 0x00, 0x00,
            0x01, 0x00, 0x00, 0x02, 0x07, 0x09
        ]
    );
}

#[test]
fn artnet_packet_full_universe() {
    let data = vec![7u8; 512];
    let p = artnet_packet(0, &data);
    assert_eq!(p.len(), 18 + 512);
    assert_eq!(&p[16..18], &[0x02, 0x00]);
    assert!(p[18..].iter().all(|&b| b == 7));
}

#[test]
fn artnet_packet_length_wraps() {
    let data = vec![1u8; 65536 + 5];
    let p = artnet_packet(0, &data);
    assert_eq!(&p[16..18], &[0x00, 0x05]);
}

fn entry(k: &str, v: Option<u64>) -> (String, Option<u64>) {
    (k.to_string(), v)
}

#[test]
fn frame_universe_fills_channels() {
    let dmx = frame_universe(&vec![entry("1", Some(9)), entry("512", Some(300)), entry("13", Some(255))]);
    assert_eq!(dmx.len(), 512);
    assert_eq!(dmx[0], 9);
    assert_eq!(dmx[511], 255);
    assert_eq!(dmx[12], 255);
    assert_eq!(dmx.iter().filter(|&&b| b != 0).count(), 3);
}

#[test]
fn frame_universe_skips_bad_entries() {
    let dmx = frame_universe(&vec![
        entry("0", Some(5)),
        entry("513", Some(5)),
        entry("x", Some(5)),
        entry(" 4", Some(5)),
        entry("-4", Some(5)),
        entry("4", None),
        entry("", Some(5)),
        entry("+", Some(5)),
        entry("1000000000000000000000000000000001", Some(5)),
    ]);
    assert!(dmx.iter().all(|&b| b == 0));
}

#[test]
fn frame_universe_last_entry_wins() {
    let dmx = frame_universe(&vec![entry("05", Some(1)), entry("+5", Some(2)), entry("5", Some(3))]);
    assert_eq!(dmx[4], 3);
    let dmx = frame_universe(&vec![entry("5", Some(3)), entry("005", Some(4))]);
    assert_eq!(dmx[4], 4);
}

#[test]
fn frame_universe_empty() {
    let dmx = frame_universe(&vec![]);
    assert_eq!(dmx, vec![0u8; 512]);
}

#[test]
fn frame_action_cases() {
    assert!(matches!(frame_action(FrameChannels::Missing), FrameAction::MissingChannels));
    assert!(matches!(frame_action(FrameChannels::NotObject), FrameAction::ChannelsNotObject));
    match frame_action(FrameChannels::Entries(vec![entry("3", Some(40))])) {
        FrameAction::Send(d) => {
            assert_eq!(d.len(), 512);
            assert_eq!(d[2], 40);
        }
        _ => panic!("expected a universe"),
    }
}
