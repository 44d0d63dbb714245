use trustos_drivers::amdgpu::firmware::{firmware_plan, FwPlan};
use trustos_drivers::hda::{Aw, WidgetType, Wk};
use trustos_drivers::hda_dump::{
    amp_probe_text, codec_dump_text, path_mixers, path_nodes_distinct, CodecDump, DacDump, MixDump, PinDump, ProbeDump,
};

fn widget(nid: u16, widget_type: WidgetType, connections: Vec<u16>) -> Aw {
    Aw { nid, widget_type, caps: 0, pin_config: 0, connections, amp_in_caps: 0, amp_out_caps: 0 }
}

fn route(pin_nid: u16, dac_nid: u16, path: Vec<u16>) -> Wk {
    Wk { pin_nid, dac_nid, path, device_type: "Speaker" }
}

#[test]
fn route_nodes_are_listed_once_in_order() {
    let ws = vec![
        widget(20, WidgetType::PinComplex, vec![12]),
        widget(12, WidgetType::AudioMixer, vec![2, 11]),
        widget(2, WidgetType::AudioOutput, vec![]),
        widget(11, WidgetType::AudioSelector, vec![2]),
        widget(21, WidgetType::PinComplex, vec![11]),
    ];
    let ps = vec![route(20, 2, vec![20, 12, 2]), route(21, 2, vec![21, 11, 12, 2])];
    assert_eq!(path_nodes_distinct(&ps), vec![20, 12, 2, 21, 11]);
    assert_eq!(path_mixers(&ws, &ps), vec![12, 11]);
    // A node with no widget behind it is no mixer.
    let ps2 = vec![route(20, 2, vec![20, 99, 2])];
    assert_eq!(path_mixers(&ws, &ps2), Vec::<u16>::new());
    assert_eq!(path_nodes_distinct(&Vec::new()), Vec::<u16>::new());
}

#[test]
fn codec_dump_lists_every_section() {
    let pin = PinDump {
        nid: 20,
        config: 0x9017_0110,
        amp_caps: 0x0003_4040,
        pin_ctl: 0x40,
        eapd: 0x02,
        power: 0x30,
        wcaps: 0x0040_058D,
        amp_l: 0x57,
        amp_r: 0x57,
        pin_caps: 0x0001_0014,
    };
    let dac = DacDump { nid: 2, power: 0x33, stream: 0x10, fmt: 0x11, wcaps: 0x405, amp_l: 0x7F, amp_r: 0x7F, caps: 0x8005_7F7F };
    let mix = MixDump {
        nid: 12,
        widget_type: WidgetType::AudioMixer,
        conns: vec![2, 11],
        wcaps: 0x0020_010F,
        out_l: 0,
        out_r: 0,
        in_l: 0x80,
        in_r: 0x80,
        ocaps: 0,
        icaps: 0x0027_0000,
        sel: 0,
        power: 0,
    };
    let d = CodecDump {
        codec: 0,
        vendor: Some(0x10EC_0269),
        widget_count: 5,
        paths: vec![route(20, 2, vec![20, 12, 2])],
        gpio_count: 0x4000_0002,
        gpio_mask: 1,
        gpio_dir: 1,
        gpio_data: 1,
        pins: vec![pin],
        dacs: vec![dac],
        mixers: vec![mix],
    };
    let expected = String::new()
        + "Codec 0: vendor=0x10EC device=0x0269\n"
        + "Widgets: 5 discovered\nOutput paths: 1\n"
        + "  Path[0]: pin=20 dac=2 type=Speaker route=[20, 12, 2]\n"
        + "GPIO: count=2 mask=0x01 dir=0x01 data=0x01\n"
        + "\n--- Pin Widgets ---\n"
        + "  NID 20: Speaker (Fixed) loc=0x10 cfg=0x90170110\n"
        + "         wcaps=0x0040058D(out_amp=true amp_ovrd=true) pin_caps=0x00010014\n"
        + "         pin_ctl=0x40(out=true hp=false) eapd=0x02(on=true has=true)\n"
        + "         power=D0 amp_out L=0x57 R=0x57 amp_caps=0x00034040\n"
        + "\n--- DAC Widgets ---\n"
        + "  NID  2: power=D3 stream_tag=1 chan=0 fmt=0x0011\n"
        + "         wcaps=0x00000405(out_amp=true in_amp=false)\n"
        + "         amp_out L=0x7F R=0x7F caps=0x80057F7F\n"
        + "\n--- Path Mixer/Selector ---\n"
        + "  NID 12: Audio Mixer conns=[2, 11]\n"
        + "         wcaps=0x0020010F(out_amp=true in_amp=true)\n"
        + "         out L=0x00 R=0x00 ocaps=0x00000000\n"
        + "         in[0] L=0x80 R=0x80 icaps=0x00270000\n"
        + "         conn_sel=0 power=D0\n";
    assert_eq!(codec_dump_text(&d), expected);
}

#[test]
fn codec_dump_without_vendor_reply_or_widgets() {
    let d = CodecDump {
        codec: 1,
        vendor: None,
        widget_count: 0,
        paths: vec![],
        gpio_count: 0,
        gpio_mask: 0,
        gpio_dir: 0,
        gpio_data: 0,
        pins: vec![],
        dacs: vec![],
        mixers: vec![],
    };
    assert_eq!(
        codec_dump_text(&d),
        "Widgets: 0 discovered\nOutput paths: 0\nGPIO: count=0 mask=0x00 dir=0x00 data=0x00\n\n--- Pin Widgets ---\n\n--- DAC Widgets ---\n\n--- Path Mixer/Selector ---\n"
    );
}

#[test]
fn amp_probe_reports_each_node() {
    let probes = vec![
        ProbeDump {
            nid: 12,
            wcaps: 0x0020_010F,
            out_caps: 0,
            in_caps: 0x0005_2A2A,
            out_before: 0x00,
            out_after: 0x1F,
            in_before: 0x80,
            in_after: 0x80,
            set_out_ok: true,
            set_in_ok: false,
        },
        ProbeDump {
            nid: 3,
            wcaps: 0,
            out_caps: 0,
            in_caps: 0,
            out_before: 0xDEAD,
            out_after: 0xDEAD,
            in_before: 0xDEAD,
            in_after: 0x05,
            set_out_ok: false,
            set_in_ok: true,
        },
    ];
    let expected = String::new()
        + "=== Amp Probe (SET then GET) ===\n"
        + "NID 12 type=2 oamp=true(0) iamp=true(42)\n"
        + "  OUT: 0x00->0x1F CHANGED set=ok gain=31\n"
        + "  IN:  0x80->0x80 same set=ERR gain=42\n"
        + "NID  3 type=0 oamp=false(0) iamp=false(0)\n"
        + "  OUT: 0xDEAD->0xDEAD same set=ERR gain=31\n"
        + "  IN:  0xDEAD->0x05 CHANGED set=ok gain=31\n";
    assert_eq!(amp_probe_text(&probes), expected);
    assert_eq!(amp_probe_text(&Vec::new()), "=== Amp Probe (SET then GET) ===\n");
}

#[test]
fn firmware_plan_follows_the_images_found() {
    let none = [None; 8];
    assert_eq!(firmware_plan(none), FwPlan { rlc: false, cp: false, mec: false, sdma0: false, sdma1: false });
    let p = firmware_plan([Some(0), None, None, Some(4), None, Some(0), Some(8), Some(0)]);
    assert_eq!(p, FwPlan { rlc: false, cp: true, mec: true, sdma0: true, sdma1: false });
    let q = firmware_plan([Some(16), Some(2), None, None, None, None, None, Some(3)]);
    assert_eq!(q, FwPlan { rlc: true, cp: true, mec: false, sdma0: false, sdma1: true });
}
