use acid64c::player::hardsid_usb_device::{devices_can_be_numbered, layout_of_devices, HardsidLayout};
use acid64c::player::sid_device::{DeviceInfo, SidClock, SidModel, SidWrite};
use acid64c::player::sidblaster_scheduler::{BlasterBatch, SidWrite as BlasterWrite};
use acid64c::player::sidblaster_usb_device::SidBlasterRouter;
use acid64c::player::usbsid_device::{UsbsidLayout, UsbsidWriter};
use acid64c::player::usbsid_scheduler::{
    bulk_packets, clock_command, config_commands, encode_cycled_writes, model_bytes, mute_bytes, num_sids_command,
    pcb_version_command, push_sid_write, stereo_command, usbsid_command_step, SidClock as UsbClock, UsbSidAction,
    UsbSidCommand, UsbSidOutput,
};
use acid64c::player::{combine_mus_data, companion_file, mus_part, MusPart};

#[test]
fn hardsid_socket_mapping() {
    let mut layout = HardsidLayout::from_devices(&vec![(1, 4), (2, 1), (1, 2)]);
    assert_eq!(layout.device_mappings, vec![0, 1, 2, 3, 0, 0, 1]);
    assert!(layout.set_sid_model(2, 3));
    assert_eq!(layout.device_mappings[3], 1);
    assert!(layout.set_sid_model(5, 1));
    assert_eq!(layout.device_mappings[1], 6);
    assert!(layout.set_sid_model(0, 0));
    assert!(!layout.set_sid_model(0, 7));
    assert_eq!(layout.device_mappings, vec![0, 6, 2, 1, 0, 0, 1]);
}

#[test]
fn hardsid_uplay_activation() {
    let mut layout = HardsidLayout::from_devices(&vec![(1, 4), (2, 1), (1, 2)]);
    assert!(layout.activate_uplay(4));
    assert!(layout.device_init_done[4]);
    assert_eq!(layout.prev_uplay_dev_nr, 4);
    assert!(!layout.activate_uplay(4));
    assert!(!layout.activate_uplay(0));
}

#[test]
fn hardsid_targets() {
    let mut layout = HardsidLayout::from_devices(&vec![(1, 4), (2, 1), (1, 2)]);
    assert_eq!(layout.all_targets(1), vec![(0, 0x00), (1, 0x20), (2, 0x40), (3, 0x60)]);
    assert_eq!(layout.all_targets(4), vec![(4, 0)]);
    assert_eq!(layout.all_targets(6), vec![(5, 0x00), (6, 0x20)]);
    layout.set_sid_model(5, 1);
    assert_eq!(layout.active_targets(0, 2), vec![(0, 0x00), (0, 0x20)]);
    assert_eq!(layout.active_targets(4, 3), vec![(4, 0)]);
}

#[test]
fn usbsid_write_bytes() {
    let mut buffer = vec![7u8];
    push_sid_write(&mut buffer, &SidWrite { cycles: 0x1234, reg: 5, data: 9 });
    assert_eq!(buffer, vec![7, 5, 9, 0x12, 0x34]);
    let (bytes, total) = encode_cycled_writes(&vec![
        SidWrite { cycles: 0, reg: 1, data: 2 },
        SidWrite { cycles: 0x0101, reg: 3, data: 4 },
    ]);
    assert_eq!(bytes, vec![1, 2, 0, 0, 3, 4, 0x01, 0x00]);
    assert_eq!(total, 257);
}

#[test]
fn usbsid_bulk_packets() {
    let bytes: Vec<u8> = (0..130).map(|i| i as u8).collect();
    let packets = bulk_packets(&bytes);
    assert_eq!(packets.len(), 3);
    assert_eq!(packets[0].len(), 61);
    assert_eq!(packets[0][0], 0xbb);
    assert_eq!(&packets[0][1..], &bytes[0..60]);
    assert_eq!(&packets[1][1..], &bytes[60..120]);
    assert_eq!(packets[2][0], 0x89);
    assert_eq!(&packets[2][1..], &bytes[120..130]);
    assert!(bulk_packets(&vec![]).is_empty());
    let one = bulk_packets(&vec![0x55]);
    assert_eq!(one, vec![vec![0x80, 0x55]]);
}

#[test]
fn usbsid_commands() {
    assert_eq!(clock_command(UsbClock::Ntsc), vec![0xd2, 0x50, 2, 0, 0, 0]);
    assert_eq!(clock_command(UsbClock::Pal), vec![0xd2, 0x50, 1, 0, 0, 0]);
    assert_eq!(pcb_version_command(), vec![0xd2, 0x81, 1, 0, 0, 0]);
    assert_eq!(num_sids_command(), vec![0xd2, 0x39, 0, 0, 0, 0]);
    assert_eq!(stereo_command(UsbSidOutput::Stereo), vec![0xd2, 0x89, 1, 0, 0, 0]);
    assert_eq!(config_commands(13), vec![vec![0xd2, 0x89, 0, 0, 0, 0], vec![0xd2, 0x50, 1, 0, 0, 0]]);
    assert_eq!(config_commands(12), vec![vec![0xd2, 0x50, 1, 0, 0, 0]]);
}

#[test]
fn usbsid_mute_and_model() {
    let mute = mute_bytes(2);
    assert_eq!(mute.len(), 120);
    assert_eq!(&mute[0..4], &[0x01, 0, 0, 8]);
    assert_eq!(&mute[60..64], &[0x21, 0, 0, 8]);
    assert!(mute_bytes(0).is_empty());
    let model = model_bytes(1, &SidModel::Mos8580);
    assert_eq!(model.len(), 116);
    assert_eq!(&model[0..4], &[0x1d, 0x53, 0, 8]);
    assert_eq!(&model[12..16], &[0x1e, 0, 0x03, 0xe8]);
    assert_eq!(&model[112..116], &[0x1a, 0, 0, 8]);
    let two = model_bytes(2, &SidModel::Mos6581);
    assert_eq!(two.len(), 232);
    assert_eq!(&two[116..120], &[0x3d, 0x53, 0, 8]);
}

fn board(socket_count: i32) -> DeviceInfo {
    DeviceInfo { id: String::from("1"), name: String::from("USBSID-Pico-1"), socket_count }
}

#[test]
fn usbsid_layout() {
    let layout = UsbsidLayout::from_devices(&vec![board(2), board(0), board(1)]);
    let names: Vec<String> = layout.device_names.iter().map(|d| d.name.clone()).collect();
    assert_eq!(names, vec!["USBSID-Pico-1", "USBSID-Pico-2", "USBSID-Pico-3"]);
    assert_eq!(layout.device_names[2].id, "USBSID-Pico-3");
    assert_eq!(layout.device_index, vec![0, 1, 2]);
    assert_eq!(layout.device_base_reg, vec![0x00, 0x20, 0x00]);
    assert_eq!(layout.device_mappings, vec![0, 0, 2]);
    assert_eq!(layout.device_socket_count, vec![2, 2, 1]);
    assert!(layout.can_pair_devices(0, 1));
    assert!(!layout.can_pair_devices(0, 2));
    assert!(!layout.can_pair_devices(1, 1));
}

#[test]
fn usbsid_register_mapping() {
    let layout = UsbsidLayout::from_devices(&vec![board(2), board(0), board(1)]);
    assert_eq!(layout.map_device_to_reg(1, 0x05), 0x25);
    assert_eq!(layout.map_device_to_reg(1, 0x25), 0x05);
    assert_eq!(layout.map_device_to_reg(1, 0x45), 0x3e);
    assert_eq!(layout.map_device_to_reg(2, 0x25), 0x1e);
    assert_eq!(layout.filter_reg_for_unsupported_writes(0, 0x40), 0x1e);
    assert_eq!(layout.active_bases(1, 2), vec![0x20, 0x00]);
}

#[test]
fn usbsid_write_queue() {
    let layout = UsbsidLayout::from_devices(&vec![board(2), board(0), board(1)]);
    let mut writer = UsbsidWriter::new();
    assert_eq!(writer.queue_write(&layout, 2, 2500, 0x04, 0x11), Some(2));
    let queued: Vec<(u16, u8, u8)> = writer.temp_queue.iter().map(|w| (w.cycles, w.reg, w.data)).collect();
    assert_eq!(queued, vec![(992, 0x1e, 0), (992, 0x1e, 0), (516, 0x04, 0x11)]);
    assert_eq!(writer.queue_write(&layout, 2, 8, 0x05, 1), None);
    assert_eq!(writer.take_pushed(2), (1984, false));
    assert_eq!(writer.take_pushed(2), (524, true));
    assert_eq!(writer.queue_write(&layout, 0, 8, 0x05, 1), Some(0));
    writer.clear();
    assert!(writer.temp_queue.is_empty());
}

fn bw(cycles: u32, reg: u8, data: u8) -> BlasterWrite {
    BlasterWrite { cycles, reg, data, clock: 0, stop_draining: false }
}

#[test]
fn sidblaster_batches() {
    let mut batch = BlasterBatch::new();
    assert!(batch.step(&bw(10, 0x04, 0x21), &Some(bw(10, 0x05, 1))).is_none());
    assert_eq!(batch.buffer, vec![0xe4, 0x21]);
    let flush = batch.step(&bw(10, 0x05, 1), &Some(bw(600, 0x06, 2))).unwrap();
    assert_eq!((flush.dev_nr, flush.bytes.clone(), flush.cycles), (0, vec![0xe4, 0x21, 0xe5, 0x01], 20));
    assert!(batch.buffer.is_empty());
    let flush = batch.step(&bw(600, 0x26, 7), &None).unwrap();
    assert_eq!((flush.dev_nr, flush.bytes.clone(), flush.cycles), (1, vec![0xe6, 7], 620));
    let stop = BlasterWrite { cycles: 0, reg: 0, data: 0, clock: 0, stop_draining: true };
    assert!(batch.step(&stop, &None).is_none());
    assert_eq!(batch.cycles_processed, 0);
}

#[test]
fn sidblaster_batch_rules() {
    let mut batch = BlasterBatch::new();
    assert!(batch.step(&bw(10, 0x00, 1), &Some(bw(10, 0x01, 2))).is_none());
    let flush = batch.step(&bw(10, 0x21, 2), &None).unwrap();
    assert_eq!((flush.dev_nr, flush.bytes.clone()), (1, vec![0xe0, 1, 0xe1, 2]));
    let flush = batch.step(&bw(10, 0x02, 3), &Some(bw(30, 0x02, 4))).unwrap();
    assert_eq!(flush.bytes, vec![0xe2, 3]);
    assert!(batch.step(&bw(10, 0x02, 3), &Some(bw(20, 0x02, 4))).is_none());
    batch.restart_timing();
    assert_eq!(batch.cycles_processed, 0);
    assert_eq!(batch.buffer, vec![0xe2, 3]);
}

#[test]
fn sidblaster_routing() {
    let mut router = SidBlasterRouter::new(SidClock::Pal);
    router.sid_count = 2;
    router.number_of_sids = 1;
    let w = router.route(true, 0, 100, 0x24, 5);
    assert_eq!(w.len(), 1);
    assert_eq!((w[0].cycles, w[0].reg, w[0].data, w[0].clock, w[0].stop_draining), (100, 0x24, 5, 2, false));
    router.sid_count = 1;
    router.number_of_sids = 2;
    let w = router.route(true, 0, 50, 0x24, 5);
    assert_eq!((w[0].cycles, w[0].reg, w[0].data), (50, 0x1e, 5));
    assert!(router.route(false, 0, 50, 0x04, 5).is_empty());
}

#[test]
fn sidblaster_frequency_scaling() {
    let mut router = SidBlasterRouter::new(SidClock::Pal);
    router.use_native_device_clock = false;
    router.sid_count = 1;
    router.number_of_sids = 1;
    let w = router.route(true, 0, 100, 0x01, 0x10);
    let writes: Vec<(u32, u8, u8, u8)> = w.iter().map(|w| (w.cycles, w.reg, w.data, w.clock)).collect();
    assert_eq!(writes, vec![(100, 0x01, 0x0f, 0), (4, 0x00, 0xc2, 0)]);
    assert_eq!(router.cycles_to_compensate, 4);
    let w = router.route(true, 0, 20, 0x04, 0x41);
    assert_eq!((w[0].cycles, w[0].reg, w[0].data), (16, 0x04, 0x41));
    assert_eq!(router.cycles_to_compensate, 0);
}

#[test]
fn sidplayer_files() {
    assert_eq!(mus_part("song.mus"), MusPart::Mus);
    assert_eq!(mus_part("a.str"), MusPart::Str);
    assert_eq!(mus_part("x.sid"), MusPart::Other);
    assert_eq!(mus_part("mus"), MusPart::Other);
    assert_eq!(companion_file("dir/song.mus"), Some(String::from("dir/song.str")));
    assert_eq!(companion_file("a.str"), Some(String::from("a.mus")));
    assert_eq!(companion_file("x.sid"), None);
}

#[test]
fn sidplayer_data() {
    let err = || Err::<Vec<u8>, String>(String::from("missing"));
    assert_eq!(combine_mus_data(MusPart::Mus, Ok(vec![1, 2]), Ok(vec![3])), Ok(vec![1, 2, 3]));
    assert_eq!(combine_mus_data(MusPart::Mus, Ok(vec![1]), err()), Ok(vec![1]));
    assert_eq!(combine_mus_data(MusPart::Mus, err(), Ok(vec![3])), Err(String::from("Error loading mus file")));
    assert_eq!(combine_mus_data(MusPart::Str, Ok(vec![3]), Ok(vec![1, 2])), Ok(vec![1, 2, 3]));
    assert_eq!(combine_mus_data(MusPart::Str, Ok(vec![3]), err()), Err(String::from("Error loading mus file")));
    assert_eq!(combine_mus_data(MusPart::Str, err(), Ok(vec![1])), Err(String::from("Error loading str file")));
    assert_eq!(combine_mus_data(MusPart::Other, err(), Ok(vec![1])), Err(String::from("missing")));
}

#[test]
fn hardsid_devices_checked() {
    assert!(devices_can_be_numbered(&vec![(1, 4), (2, 1)]));
    assert!(!devices_can_be_numbered(&vec![(4, 1)]));
    assert!(!devices_can_be_numbered(&vec![(1, 9)]));
    assert!(!devices_can_be_numbered(&vec![(3, 8); 32]));
    assert!(devices_can_be_numbered(&vec![(3, 1); 40]));
    assert_eq!(layout_of_devices(&vec![]).err(), Some("No HardSID USB device found.".to_string()));
    assert_eq!(layout_of_devices(&vec![(1, 2)]).ok().map(|l| l.chips.len()), Some(2));
}

#[test]
fn usbsid_command_steps() {
    let (action, index) = usbsid_command_step(UsbSidCommand::SetDevice, 1, 0, 2);
    assert_eq!((action, index), (UsbSidAction::Configure, 1));
    let (action, index) = usbsid_command_step(UsbSidCommand::SetClock, 1, 1, 2);
    assert_eq!((action, index), (UsbSidAction::SetClock(UsbClock::Ntsc), 1));
    let (action, _) = usbsid_command_step(UsbSidCommand::SetModel, 0, 0, 1);
    assert_eq!(action, UsbSidAction::SetModel(SidModel::Mos6581));
    let (action, _) = usbsid_command_step(UsbSidCommand::Reset, 0x20, 0, 1);
    assert_eq!(action, UsbSidAction::ResetChip(0x20));
    let (action, _) = usbsid_command_step(UsbSidCommand::Abort, 0, 0, 1);
    assert_eq!(action, UsbSidAction::Stop);
}
