use trustos_drivers::nvidia::{boot_ids, copy_backwards, fill_clip, pcie_link, vram_bytes};
use trustos_drivers::ata::{flush_command, transfer_registers};
use trustos_drivers::hda::{find_output_paths, melody_renderable, trace_to_dac, wav_precheck, Aw, Note, WidgetType};
use trustos_drivers::hda_stream::{
    amp_caps_for, bdl_entries, codec_addresses, codec_quirk, conn_selects, connection_entries,
    connection_list_length, gcap_streams, needs_amp_query, node_range, output_descriptor, path_pin_gain,
    play_target, probe_gain, ring_next, ring_size, speaker_pins, staged_samples, stream_tag_byte, tone_buffer,
    unmute_payloads, widgets_of_type, CodecQuirk, StreamCaps,
};
use trustos_drivers::iwl4965::Iwl4965;
use trustos_drivers::iwl_cmd::{
    find_network, hcmd_frame, rx_packet, rxon_assoc, rxon_scan_config, scan_notification_readable, scan_request,
};
use trustos_drivers::net::{E1000Driver, Rtl8169Driver};
use trustos_drivers::nic::{
    e1000_link_ctrl, e1000_mac_from_receive_address, e1000_variant, eeprom_read_command, eeprom_word,
    mac_or_default, promiscuous_rctl, receive_address_regs, rtl8169_link, rtl8169_mac, rtl_promiscuous, RTL_EOR,
    RTL_OWN,
};
use trustos_drivers::wifi::{Fg, WifiSecurity, WifiState};

fn widget(nid: u16, kind: u32, pin_config: u32, connections: Vec<u16>) -> Aw {
    let caps = kind << 20;
    Aw { nid, widget_type: WidgetType::lzc(caps), caps, pin_config, connections, amp_in_caps: 0, amp_out_caps: 0 }
}

#[test]
fn ata_task_file_lba28_and_lba48() {
    assert_eq!(transfer_registers(100, 0, 1, false, false, false), Err("Buffer too small"));
    let r = transfer_registers(1024, 0x0A0B0C0D, 2, true, false, false).unwrap();
    assert_eq!(r, vec![(2, 2), (3, 0x0D), (4, 0x0C), (5, 0x0B), (6, 0xE0 + 0x10 + 0x0A), (7, 0x20)]);
    let r = transfer_registers(512, 0x0605_0403_0201, 1, false, true, true).unwrap();
    assert_eq!(r, vec![(2, 0), (3, 0x04), (4, 0x05), (5, 0x06), (2, 1), (3, 0x01), (4, 0x02), (5, 0x03), (6, 0x40), (7, 0x34)]);
    assert_eq!(flush_command(true), 0xEA);
    assert_eq!(flush_command(false), 0xE7);
}

#[test]
fn hda_controller_decoding() {
    assert_eq!(gcap_streams(0x4401), StreamCaps { output: 4, input: 4, bidir: 0, addr64: true });
    assert_eq!(ring_size(0x42), (2, 256));
    assert_eq!(ring_size(0x22), (1, 16));
    assert_eq!(ring_size(0x01), (0, 2));
    assert_eq!(ring_next(0x12FF, 256), 0);
    assert_eq!(ring_next(5, 16), 6);
    assert_eq!(output_descriptor(4, 0), 0x100);
    assert_eq!(codec_addresses(0b101), vec![0, 2]);
    assert_eq!(codec_addresses(0x8000), Vec::<u8>::new());
    assert_eq!(node_range(0x0002_0010), (2, 0x10));
    assert_eq!(connection_list_length(0x85), (5, true));
    assert_eq!(connection_entries(0x0D0C_0B0A, 4, 6), vec![0x0A, 0x0B]);
    assert_eq!(connection_entries(0x0D0C_0B0A, 0, 9), vec![0x0A, 0x0B, 0x0C, 0x0D]);
    assert!(needs_amp_query(0b1100, true));
    assert!(!needs_amp_query(0b0100, true));
    assert_eq!(amp_caps_for(0b1100, true, 0, 77), 77);
    assert_eq!(amp_caps_for(0b1100, true, 5, 77), 5);
    assert_eq!(amp_caps_for(0b0000, true, 5, 77), 0);
    assert_eq!(codec_quirk(0x11D4_1984), CodecQuirk::AnalogDevices);
    assert_eq!(codec_quirk(0x14F1_5045), CodecQuirk::Conexant);
    assert_eq!(codec_quirk(0x10EC_0269), CodecQuirk::Plain);
    assert_eq!(stream_tag_byte(1), 0x10);
    assert_eq!(play_target(1000, 1 << 20), 192_000);
    assert_eq!(play_target(10_000, 1 << 20), 1 << 20);
}

#[test]
fn hda_amplifier_payloads() {
    assert_eq!(unmute_payloads(0x2700, 0, 0, 0x1000, 1), vec![0xB027, 0x7010]);
    assert_eq!(unmute_payloads(0, 0, 0x0500, 0x0300, 3), vec![0xB005, 0x7003, 0x7103, 0x7203]);
    assert_eq!(unmute_payloads(0, 0, 0, 0, 40).len(), 2 + 15);
    assert_eq!(path_pin_gain(0), 3);
    assert_eq!(path_pin_gain(0x1F00), 0x1F);
    assert_eq!(probe_gain(0), 0x1F);
    assert_eq!(probe_gain(0x0A00), 0x0A);
}

#[test]
fn hda_graph_queries() {
    let ws = vec![
        widget(2, 0, 0, vec![]),
        widget(3, 2, 0, vec![9, 2]),
        widget(4, 4, 0x0101_0010, vec![3]),
        widget(5, 4, 0x4045_0000, vec![]),
    ];
    assert_eq!(widgets_of_type(&ws, WidgetType::PinComplex), vec![4, 5]);
    assert_eq!(widgets_of_type(&ws, WidgetType::AudioOutput), vec![2]);
    assert_eq!(speaker_pins(&ws), vec![4]);
    assert_eq!(conn_selects(&ws, &vec![4, 3, 2]), vec![(4, 0), (3, 1)]);
    let mut anc = vec![];
    assert_eq!(trace_to_dac(&ws, 4, &mut anc), Some(vec![4, 3, 2]));
    let mut anc = vec![3];
    assert_eq!(trace_to_dac(&ws, 4, &mut anc), None);
    let paths = find_output_paths(&ws);
    assert_eq!(paths.len(), 1);
    assert_eq!(paths[0].pin_nid, 4);
}

#[test]
fn hda_buffers() {
    let b = tone_buffer(12_000, 1, 512).unwrap();
    assert_eq!(b.len(), 256);
    assert_eq!(&b[0..8], &[0, 0, 16000, 16000, 0, 0, -16000, -16000]);
    assert_eq!(&b[94..96], &[-16000, -16000]);
    assert!(b[96..].iter().all(|&s| s == 0));
    assert_eq!(tone_buffer(50_000, 1, 64), None);
    assert_eq!(staged_samples(&[1, 2, 3], 8), vec![1, 2, 3, 0]);
    assert_eq!(staged_samples(&[1, 2, 3], 4), vec![1, 2]);
    assert_eq!(bdl_entries(0x1000, 0x100, 2), vec![(0x1000, 0x100, 1), (0x1100, 0x100, 1)]);
}

#[test]
fn hda_input_checks() {
    let mut wav = Vec::new();
    wav.extend_from_slice(b"RIFF\0\0\0\0WAVE");
    wav.extend_from_slice(b"fmt ");
    wav.extend_from_slice(&16u32.to_le_bytes());
    wav.extend_from_slice(&[1, 0, 2, 0]);
    wav.extend_from_slice(&0u32.to_le_bytes());
    wav.extend_from_slice(&[0; 6]);
    wav.extend_from_slice(&16u16.to_le_bytes());
    wav.extend_from_slice(b"data\0\0\0\0");
    wav.extend_from_slice(&[0; 8]);
    assert!(!wav_precheck(&wav));
    wav[24] = 0x44;
    wav[25] = 0xAC;
    assert!(wav_precheck(&wav));
    let notes = vec![Note::new(60, 4, 100)];
    assert!(melody_renderable(&notes, 120));
    let long = vec![Note::new(60, 255, 100)];
    assert!(!melody_renderable(&long, 1));
}

#[test]
fn e1000_decisions() {
    assert_eq!(e1000_variant(0x100E), (false, false));
    assert_eq!(e1000_variant(0x10D3), (false, false));
    assert_eq!(e1000_variant(0x153A), (true, false));
    assert_eq!(e1000_variant(0x15B8), (true, true));
    assert_eq!(e1000_mac_from_receive_address(0, 0), None);
    assert_eq!(e1000_mac_from_receive_address(0x1200_5452, 0x5634), Some([0x52, 0x54, 0x00, 0x12, 0x34, 0x56]));
    assert_eq!(eeprom_read_command(2, true), 9);
    assert_eq!(eeprom_read_command(2, false), 513);
    assert_eq!(eeprom_word(0x5452_0010, false), Some(0x5452));
    assert_eq!(eeprom_word(0x5452_0002, false), None);
    assert_eq!(eeprom_word(0x5452_0002, true), Some(0x5452));
    assert_eq!(mac_or_default([0; 6], [1, 2, 3, 4, 5, 6]), [1, 2, 3, 4, 5, 6]);
    assert_eq!(receive_address_regs([0x52, 0x54, 0x00, 0x12, 0x34, 0x56]), (0x1200_5452, 0x8000_5634));
    assert_eq!(e1000_link_ctrl(0x1800, true), 0x60);
    assert_eq!(e1000_link_ctrl(0, false), 0x61);
    assert_eq!(promiscuous_rctl(0x2, true), 0x1A);
    assert_eq!(promiscuous_rctl(0x1E, false), 0x6);
}

#[test]
fn e1000_rings() {
    let mut d = E1000Driver::new();
    let rx: Vec<u64> = (0..32).map(|i| 0x10_0000 + 0x1000 * i).collect();
    let tx: Vec<u64> = (0..8).map(|i| 0x20_0000 + 0x1000 * i).collect();
    d.setup_rings(&rx, &tx);
    d.initialized = true;
    assert_eq!(d.rx_descs[3].buffer_addr, 0x10_3000);
    assert_eq!(d.transmit(&[0u8; 60]), Ok(1));
    assert_eq!(d.tx_descs[0].buffer_addr, 0x20_0000);
}

#[test]
fn rtl8169_rings() {
    assert_eq!(rtl8169_mac(0, 0), [0x52, 0x54, 0x00, 0x12, 0x81, 0x69]);
    assert_eq!(rtl8169_mac(0x0403_0201, 0x0605), [1, 2, 3, 4, 5, 6]);
    assert_eq!(rtl8169_link(0x12), (true, 1000));
    assert_eq!(rtl8169_link(0x0A), (true, 100));
    assert_eq!(rtl8169_link(0x04), (false, 10));
    assert_eq!(rtl8169_link(0), (false, 0));
    assert_eq!(rtl_promiscuous(0xE70E, true), 0xE70F);
    let mut d = Rtl8169Driver::new();
    let rx: Vec<u64> = (0..64).map(|i| 0x1_0000_0000 + 0x1000 * i).collect();
    let tx: Vec<u64> = (0..64).map(|i| 0x20_0000 + 0x1000 * i).collect();
    d.setup_rings(&rx, &tx);
    assert_eq!(d.rx_descs[0].opts1, RTL_OWN + 2048);
    assert_eq!(d.rx_descs[63].opts1, RTL_OWN + RTL_EOR + 2048);
    assert_eq!(d.rx_descs[0].buf_hi, 1);
    assert_eq!(d.tx_descs[63].opts1, RTL_EOR);
    d.initialized = true;
    assert_eq!(d.take_received(), None);
    assert_eq!(d.rx_cur, 0);
    let mut frame = vec![0xAAu8; 20];
    frame[0] = 1;
    assert_eq!(d.transmit(&frame), Ok(()));
    assert_eq!(d.tx_descs[0].opts1, RTL_OWN + 0x2000_0000 + 0x1000_0000 + 20);
    assert_eq!(d.tx_cur, 1);
    d.rx_descs[0].opts1 = 0x3000_0000 + 10;
    d.rx_buffers[0][0] = 7;
    assert_eq!(d.take_received(), Some(vec![7, 0, 0, 0, 0, 0]));
    assert_eq!(d.rx_descs[0].opts1, RTL_OWN + 2048);
    assert_eq!(d.rx_cur, 1);
    d.rx_descs[1].opts1 = 0x1000_0000 + 10;
    assert_eq!(d.take_received(), None);
    assert_eq!(d.rx_errors, 1);
}

#[test]
fn iwl_commands() {
    assert_eq!(hcmd_frame(0x10, 3, 4, &[9, 8]), vec![0x10, 0, 3, 4, 9, 8]);
    let r = rxon_scan_config([1, 2, 3, 4, 5, 6]);
    assert_eq!(r.len(), 44);
    assert_eq!(&r[0..6], &[1, 2, 3, 4, 5, 6]);
    assert_eq!(&r[8..14], &[0xFF; 6]);
    assert_eq!(r[24], 1);
    assert_eq!(&r[26..30], &[0x37, 0, 0x15, 0x0F]);
    assert_eq!(&r[32..36], &0x8031u32.to_le_bytes());
    assert_eq!(&r[36..40], &0x47u32.to_le_bytes());
    assert_eq!(r[40], 1);
    let a = rxon_assoc([0xB; 6], [0xA; 6], 6);
    assert_eq!(a.len(), 56);
    assert_eq!(&a[22..27], &[1, 0, 3, 3, 6]);
    let s = scan_request();
    assert_eq!(s.len(), 224 + 15 * 12);
    assert_eq!(&s[0..4], &[180, 0, 0, 15]);
    assert_eq!(s[48], 0xFF);
    assert_eq!(s[82], 1);
    assert_eq!(&s[224..236], &[0, 0, 0, 0, 1, 0, 0x28, 110, 20, 0, 120, 0]);
    assert_eq!(&s[236 + 12 * 13 + 4..236 + 12 * 13 + 6], &[48, 0]);
}

#[test]
fn iwl_receive_and_connect() {
    assert_eq!(rx_packet(&[0; 4]), None);
    let mut b = vec![0u8; 16];
    b[0] = 4;
    b[4] = 0x01;
    assert_eq!(rx_packet(&b), Some((1, b[..8].to_vec())));
    b[0] = 0;
    assert_eq!(rx_packet(&b), None);
    let mut n = vec![0u8; 12];
    n[8] = 1;
    n.extend_from_slice(&[1, 2, 3, 4, 5, 6, 6, 0xC0]);
    n.extend_from_slice(&6u16.to_le_bytes());
    n.extend_from_slice(&[221, 4, 0, 0, 0, 0]);
    assert!(scan_notification_readable(&n));
    let mut bad = n[..22].to_vec();
    bad[20] = 10;
    bad.extend_from_slice(&[1, 6, 0, 0, 0, 0, 0, 0, 221, 4]);
    assert_eq!(bad.len(), 32);
    assert!(!scan_notification_readable(&bad));
    let list = vec![
        Fg { ssid: String::from("home"), bssid: [1; 6], channel: 1, signal_dbm: -40, security: WifiSecurity::WPA2, frequency_mhz: 2412 },
        Fg { ssid: String::from("cafe"), bssid: [2; 6], channel: 6, signal_dbm: -70, security: WifiSecurity::Open, frequency_mhz: 2437 },
    ];
    assert_eq!(find_network(&list, "cafe"), Some(1));
    assert_eq!(find_network(&list, "work"), None);
    let mut d = Iwl4965::new();
    assert_eq!(d.begin_connect("cafe"), Err("Hardware not initialized"));
    d.initialized = true;
    d.scan_results = list;
    assert_eq!(d.begin_connect("cafe"), Ok(Some(1)));
    assert_eq!(d.wifi_state, WifiState::Connecting);
    assert_eq!(d.current_channel, 6);
    assert_eq!(d.connected_bssid, [2; 6]);
    d.finish_connect("cafe");
    assert_eq!(d.wifi_state, WifiState::Connected);
    assert_eq!(d.connected_ssid.as_deref(), Some("cafe"));
    assert_eq!(d.begin_connect("work"), Ok(None));
    assert_eq!(d.connected_ssid.as_deref(), Some("work"));
    d.process_rx_packet(0x01, &[]);
    assert!(d.fw_alive);
    d.scanning = true;
    d.process_rx_packet(0x84, &[]);
    assert!(!d.scanning);
    assert_eq!(d.wifi_state, WifiState::Connected);
    let frame = vec![5u8; 40];
    d.process_rx_packet(0xC1, &frame);
    assert_eq!(d.rx_pending.len(), 1);
    assert_eq!(d.rx_pending[0].len(), 24);
}

#[test]
fn nvidia_decoding_and_clipping() {
    assert_eq!(boot_ids(0x0928_00A2), (0x92, 0xA2));
    assert_eq!(vram_bytes(0x0200), 512 * 1024 * 1024);
    assert_eq!(vram_bytes(0x1000), 128 * 1024 * 1024);
    assert_eq!(pcie_link(Some(0x0042)), (2, 4));
    assert_eq!(pcie_link(None), (1, 16));
    assert_eq!(fill_clip(10, 10, 100, 100, 50, 200), Some((50, 110)));
    assert_eq!(fill_clip(60, 10, 1, 1, 50, 200), None);
    assert_eq!(fill_clip(0, 0, 1, 1, 0, 200), None);
    assert!(copy_backwards(0, 0, 0, 1));
    assert!(copy_backwards(0, 5, 3, 5));
    assert!(!copy_backwards(3, 5, 0, 5));
    assert!(!copy_backwards(0, 6, 9, 5));
}
