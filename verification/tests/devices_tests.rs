use acid64c::player::hardsid_usb_device::{reset_sid as hardsid_reset_sid, DelayQueue, DeviceCommand, FrequencyScaler, HardsidLayout, SidWrite as HsWrite, TimedWrite};
use acid64c::player::network_sid_device::{
    convert_device_number, flush_step, handle_response, network_device_name, plan_delay, reset_sid as network_reset_sid,
    sid_panning, silent_sid as network_silent_sid, unmute_arguments, v1_device_name, write_response, Command,
    CommandResponse, FlushStep, NetworkSidBuffer,
};
use acid64c::player::sid_device::{DeviceResponse, SamplingMethod, SidClock, SidModel};
use acid64c::player::sidblaster_scheduler::SidClock as BlasterClock;
use acid64c::utils::armsid::{configure_armsid, ArmSidWrite, SidFilter};
use acid64c::utils::fpgasid::configure_fpgasid;
use acid64c::utils::mossid::{reset_all_sids_sequence, reset_sid_sequence, silent_sid_sequence};
use acid64c::utils::sid_file::is_sid_file;

#[test]
fn mossid_sequences() {
    let silent = silent_sid_sequence(0x20, true);
    assert_eq!(silent.len(), 16);
    assert_eq!((silent[0].reg, silent[0].data, silent[0].cycles), (0x21, 0, 8));
    assert_eq!(silent[15].reg, 0x38);
    let reset = reset_sid_sequence(0, true);
    assert_eq!(reset.len(), 15 + 38 + 1 + 19 + 1);
    assert_eq!((reset[15].reg, reset[15].data), (0x02, 0xff));
    assert_eq!((reset[16].reg, reset[16].data), (0x02, 0x08));
    assert_eq!((reset[53].reg, reset[53].cycles), (0x1e, 0x32));
    assert_eq!(reset[73].cycles, 0x9c40);
    let all = reset_all_sids_sequence(9, false);
    assert_eq!(all.len(), 9 * 73);
    assert_eq!(all[73].reg, 0x21);
    assert_eq!(all[8 * 73].reg, 0x01);
}

#[test]
fn fpgasid_sequence() {
    let w = configure_fpgasid(&SidModel::Mos8580);
    let regs: Vec<(u8, u8)> = w.iter().map(|x| (x.reg, x.data)).collect();
    assert_eq!(regs, vec![(0x19, 0x80), (0x1a, 0x65), (0x1f, 0xff), (0x19, 0), (0x1a, 0)]);
}

#[test]
fn armsid_sequence() {
    let filter = SidFilter { filter_strength_6581: 7, filter_lowest_freq_6581: 1, filter_central_freq_8580: 3, filter_lowest_freq_8580: 2 };
    let w = configure_armsid(&SidModel::Mos6581, &filter);
    assert_eq!(w.len(), 7 + 4 + 6 + 3 + 4);
    assert_eq!(w[6], ArmSidWrite { cycles: 8, reg: 0x1f, data: b'6' });
    assert_eq!(w[11], ArmSidWrite { cycles: 8, reg: 0x1f, data: 0x80 | 0x00 });
    assert_eq!(w[14], ArmSidWrite { cycles: 8, reg: 0x1f, data: 0x90 | 0x00 });
    let w = configure_armsid(&SidModel::Mos8580, &filter);
    assert_eq!(w[11].data, 0xa0 | 0x00);
    assert_eq!(w[14].data, 0xb0 | 0x0f);
    assert_eq!(w[w.len() - 1], ArmSidWrite { cycles: 20_000, reg: 0x1e, data: 0 });
}

#[test]
fn sid_file_header() {
    let mut data = vec![0u8; 0x76];
    data[..4].copy_from_slice(b"PSID");
    assert!(is_sid_file(&data));
    data[..4].copy_from_slice(b"RSID");
    assert!(is_sid_file(&data));
    assert!(!is_sid_file(&data[..0x75]));
    data[..4].copy_from_slice(b"XSID");
    assert!(!is_sid_file(&data));
}

#[test]
fn sidblaster_clock() {
    assert_eq!(BlasterClock::from_u8(0), BlasterClock::Pal);
    assert_eq!(BlasterClock::from_u8(1), BlasterClock::Ntsc);
    assert_eq!(BlasterClock::from_u8(9), BlasterClock::OneMhz);
}

#[test]
fn hardsid_layout() {
    let layout = HardsidLayout::from_devices(&vec![(1, 4), (2, 1), (1, 2)]);
    assert_eq!(layout.chips.len(), 7);
    assert_eq!(layout.chips[3].base_reg, 0x60);
    assert_eq!(layout.chips[5].device_index, 4);
    assert_eq!(layout.chips[5].device_id, 2);
    assert_eq!(layout.device_mappings, vec![0, 1, 2, 3, 0, 0, 1]);
    assert_eq!(layout.get_device_info(4), "HS UPlay 1");
    assert_eq!(layout.get_device_info(6), "HardSID 4U 6");
    assert!(layout.can_pair_devices(0, 1));
    assert!(!layout.can_pair_devices(0, 0));
    assert!(!layout.can_pair_devices(0, 5));
    assert_eq!(layout.map_device_to_reg(2, 4, 0, 0x24), 0x24);
    assert_eq!(layout.map_device_to_reg(2, 7, 4, 0x24), 0x1e);
}

#[test]
fn hardsid_delays() {
    let mut q = DelayQueue::new();
    q.create_delay(2);
    assert_eq!(q.cycles_to_compensate, 2);
    q.create_delay(10);
    assert_eq!(q.cycles_to_compensate, 0);
    let delays: Vec<u16> = q.sid_write_fifo.iter().map(|w| w.cycles).collect();
    assert_eq!(delays, vec![4, 8]);
    let mut q = DelayQueue::new();
    q.create_delay(0xffff * 2 + 50);
    let delays: Vec<u16> = q.sid_write_fifo.iter().map(|w| w.cycles).collect();
    assert_eq!(delays, vec![100, 0xffff, 0xffff - 50]);
    let total: u32 = delays.iter().map(|&d| d as u32).sum();
    assert_eq!(total, 0xffff * 2 + 50);
    q.push_write(0x18, 0x0f);
    assert_eq!(q.sid_write_fifo.back().copied(), Some(HsWrite { command: DeviceCommand::Write, reg: 0x18, data: 0x0f, cycles: 0 }));
}

#[test]
fn hardsid_delay_at_minimum_with_large_debt() {
    let mut q = DelayQueue::new();
    q.cycles_to_compensate = u32::MAX;
    q.create_delay(4);
    assert_eq!(q.cycles_to_compensate, u32::MAX);
    q.cycles_to_compensate = u32::MAX - 3;
    q.create_delay(1);
    assert_eq!(q.cycles_to_compensate, u32::MAX);
    let delays: Vec<u16> = q.sid_write_fifo.iter().map(|w| w.cycles).collect();
    assert_eq!(delays, vec![4, 4]);
}

#[test]
fn hardsid_reset() {
    let w = hardsid_reset_sid(0x20);
    assert_eq!(w.len(), 9 + 19 * 4);
    assert_eq!(w[9], TimedWrite { cycles: 8, reg: 0x22, data: 0xff });
    assert_eq!(w[11], TimedWrite { cycles: 50, reg: 0x3e, data: 0 });
}

#[test]
fn frequency_scaling() {
    let mut f = FrequencyScaler::new(SidClock::Pal);
    f.update_frequency(0, 0, 0x34);
    f.update_frequency(0, 1, 0x12);
    assert_eq!(f.scale_frequency(0), (0x1234u32 * 64554) >> 16);
    assert_eq!(f.get_last_scaled_freq(0), (0x1234u32 * 64554) >> 16);
    let mut n = FrequencyScaler::new(SidClock::Ntsc);
    n.update_frequency(1, 0, 0xff);
    n.update_frequency(1, 1, 0xff);
    assert_eq!(n.scale_frequency(1), 0xffff);
}

#[test]
fn network_frames() {
    let mut b = NetworkSidBuffer::new();
    b.add_to_buffer(0x24, 0x7f, 0x1234, true, 2);
    b.add_to_buffer(0x24, 0x01, 8, false, 2);
    b.set_command(Command::TryWrite, 0, &[]);
    b.set_data_length();
    assert_eq!(b.frame_bytes(), vec![5, 0, 0, 8, 0x12, 0x34, 0x24, 0x7f, 0x00, 0x08, 0x1e, 0x01]);
    b.set_command(Command::TryDelay, 1, &[0x12, 0x34]);
    b.set_data_length();
    assert_eq!(b.frame_bytes(), vec![4, 1, 0, 2, 0x12, 0x34]);
    assert_eq!(handle_response(&mut b, &[1]), Some((CommandResponse::Busy, vec![0])));
    assert_eq!(handle_response(&mut b, &[4, 3]), Some((CommandResponse::Success, vec![3])));
    assert_eq!(handle_response(&mut b, &[6, 9, b'a', b'b', 0]), Some((CommandResponse::Success, vec![b'a', b'b'])));
    assert_eq!(handle_response(&mut b, &[9]), None);
    assert_eq!(b.frame_bytes().len(), 4);
}

#[test]
fn network_decisions() {
    assert_eq!(flush_step(Command::TryWrite, CommandResponse::Busy, false, false, 0, 3), FlushStep::Retry { sleep_millis: Some(3) });
    assert_eq!(flush_step(Command::GetVersion, CommandResponse::Busy, false, false, 0, 3), FlushStep::Retry { sleep_millis: Some(0) });
    assert_eq!(flush_step(Command::TryWrite, CommandResponse::Busy, true, false, 0, 3), FlushStep::GiveUp);
    assert_eq!(flush_step(Command::TryWrite, CommandResponse::Success, false, false, 20_001, 1), FlushStep::Done { sleep_millis: Some(1) });
    assert_eq!(write_response(CommandResponse::Busy, 0), (DeviceResponse::Busy, Some(3)));
    assert_eq!(write_response(CommandResponse::Error, 0), (DeviceResponse::Error, None));
    assert_eq!(convert_device_number(1, 5, 1, SidClock::Ntsc, SamplingMethod::Fast), 1 | 2 | 4);
    assert_eq!(convert_device_number(2, 5, 1, SidClock::Ntsc, SamplingMethod::Fast), 5);
    let (pieces, left) = plan_delay(0xffff * 3, 0x100);
    assert_eq!(pieces, vec![0xffff, 0xffff]);
    assert_eq!(left, 0x100 + 0xffff - 0x100);
    let (pieces, left) = plan_delay(2_000_000, 0x100);
    assert_eq!(pieces.iter().map(|&p| p as u32).sum::<u32>() + left, 2_000_000);
    assert_eq!(sid_panning(120, 3), vec![100, -100, 100]);
    assert_eq!(sid_panning(50, 1), vec![0]);
    assert_eq!(unmute_arguments(3).len(), 4);
    assert_eq!(network_silent_sid(false).len(), 15);
    assert_eq!(network_reset_sid().len(), 9 + 19 * 4);
    assert_eq!(v1_device_name(0), "Default 6581");
    assert_eq!(network_device_name("JSidDevice10_ReSID(6581)"), "DefaultReSID - 6581");
    assert_eq!(network_device_name("JSidDevice10_ReSID_8580"), "DefaultReSID - 8580");
}
