use std::collections::VecDeque;
use acid64c::player::sid_data_processor::{SidWrite, SidWriteLog};
use acid64c::player::sid_device::{DeviceResponse, SidClock, SidModel};
use acid64c::player::{
    adjust_cycles, clock_for_c64_model, cycles_per_second, fix_device_numbers, get_next_song, get_prev_song,
    get_valid_device_number, int_to_bcd, loop_step, plan_player_command, prepend_to_redo, reactivate_voice,
    sid_model_for_code, song_lengths_to_bcd, song_to_init, stop_action, validate_device_numbers,
    EmulatorAction, IdleCounter, LoopStep, PlayerCommand, PlayerOutput, SidCommand, StopAction, VoiceWrite,
};

#[test]
fn sid_command_numbers() {
    assert_eq!(SidCommand::from_integer(0), SidCommand::Idle);
    assert_eq!(SidCommand::from_integer(2), SidCommand::Write);
    assert_eq!(SidCommand::from_integer(7), SidCommand::SkipSilenceDone);
}

#[test]
fn player_output_default() {
    let o = PlayerOutput::default();
    assert_eq!((o.time, o.device_number, o.song_number, o.has_remote_sidplayer), (0, 0, 0, false));
    assert!(o.last_error.is_none());
}

#[test]
fn clocks() {
    assert_eq!(cycles_per_second(SidClock::Pal), 312 * 63 * 50);
    assert_eq!(cycles_per_second(SidClock::Ntsc), 263 * 65 * 60);
    assert_eq!(cycles_per_second(SidClock::OneMhz), 1_000_000);
    assert_eq!(clock_for_c64_model(2), SidClock::Ntsc);
    assert_eq!(clock_for_c64_model(1), SidClock::Pal);
    assert_eq!(sid_model_for_code(2), SidModel::Mos8580);
    assert_eq!(sid_model_for_code(1), SidModel::Mos6581);
}

#[test]
fn bcd_values() {
    assert_eq!(int_to_bcd(0), 0);
    assert_eq!(int_to_bcd(59), 0x59);
    assert_eq!(int_to_bcd(7), 0x07);
    assert_eq!(int_to_bcd(1234), 0x1234);
    assert_eq!(int_to_bcd(-12), -18);
}

#[test]
fn ssl_data() {
    assert_eq!(song_lengths_to_bcd(&vec![62_400, 299_500, 5_999_999]), vec![0x01, 0x02, 0x05, 0x00, 0x00, 0x00]);
    assert_eq!(song_lengths_to_bcd(&vec![]), Vec::<u8>::new());
}

#[test]
fn fast_forward_cycles() {
    assert_eq!(adjust_cycles(-1, 20_000), 8);
    assert_eq!(adjust_cycles(4, 100), 25);
    assert_eq!(adjust_cycles(4, 20), 8);
    assert_eq!(adjust_cycles(4, 6), 6);
    assert_eq!(adjust_cycles(1, 100), 100);
}

#[test]
fn next_and_previous_song() {
    assert_eq!(get_next_song(2, 3), 0);
    assert_eq!(get_next_song(-1, 3), 0);
    assert_eq!(get_prev_song(0, 3), 2);
    for n in 1..5 {
        for s in 0..n {
            assert_eq!(get_prev_song(get_next_song(s, n), n), s);
        }
    }
}

#[test]
fn device_numbers() {
    assert_eq!(get_valid_device_number(-1, &vec![2]), 0);
    assert_eq!(get_valid_device_number(-1, &vec![1]), 0);
    assert_eq!(get_valid_device_number(-1, &vec![]), 0);
    assert_eq!(get_valid_device_number(3, &vec![2]), 3);
    let mut numbers = vec![-1];
    fix_device_numbers(&mut numbers, 3, &vec![2, 2, 2]);
    assert_eq!(numbers, vec![0, 0, 0]);
    let mut numbers = vec![0, 5, 7];
    fix_device_numbers(&mut numbers, 1, &vec![1]);
    assert_eq!(numbers, vec![0, 5, 7]);
}

#[test]
fn validate_numbers() {
    assert!(validate_device_numbers(&vec![0, 1], 2, &vec![true, true]).is_ok());
    assert_eq!(
        validate_device_numbers(&vec![0, 2], 2, &vec![true, true]).err(),
        Some("Device number 3 doesn't exist, there are only 2 devices.".to_string())
    );
    assert_eq!(
        validate_device_numbers(&vec![0, 1], 2, &vec![true, false]).err(),
        Some("Device number 1 can't be used together with device 2. Specify a different second device with option -dX,Y".to_string())
    );
}

#[test]
fn songs_to_init() {
    assert_eq!(song_to_init(-1, 2, 5), Ok(2));
    assert_eq!(song_to_init(4, 0, 5), Ok(4));
    assert_eq!(song_to_init(5, 0, 5), Err("Song number 6 doesn't exist.".to_string()));
}

#[test]
fn idle_counter() {
    let mut idle = IdleCounter::new(1000);
    assert_eq!(idle.on_sid_command(SidCommand::Delay), EmulatorAction::WriteDelay);
    assert_eq!(idle.on_sid_command(SidCommand::Idle), EmulatorAction::Nothing);
    assert_eq!(idle.idle_count, 0);
    idle.sid_written = true;
    idle.idle_count = 999;
    assert_eq!(idle.on_sid_command(SidCommand::Idle), EmulatorAction::DummyWrite(1000));
    assert_eq!(idle.idle_count, 0);
    idle.idle_count = 5;
    assert_eq!(idle.on_sid_command(SidCommand::Write), EmulatorAction::WriteRegister);
    assert_eq!(idle.idle_count, 0);
}

#[test]
fn player_commands() {
    let p = plan_player_command(Some(PlayerCommand::Play), true, true);
    assert!(p.resume && p.restart_remote && !p.paused);
    let p = plan_player_command(Some(PlayerCommand::Pause), false, false);
    assert!(p.pause && p.paused && !p.resume);
    let p = plan_player_command(None, true, false);
    assert!(p.paused && !p.pause && !p.resume);
    assert_eq!(stop_action(0, false, true, true), StopAction::StopRemote);
    assert_eq!(stop_action(0, false, true, false), StopAction::Quit);
    assert_eq!(stop_action(-1, false, true, true), StopAction::Nothing);
}

#[test]
fn loop_steps() {
    assert_eq!(loop_step(true, DeviceResponse::Busy, false, false, 0), LoopStep::Sleep);
    assert_eq!(loop_step(false, DeviceResponse::Busy, true, false, 0), LoopStep::Quit);
    assert_eq!(loop_step(false, DeviceResponse::Busy, false, false, 12), LoopStep::RetryBusy { wait_first: true });
    assert_eq!(loop_step(false, DeviceResponse::Accepted, false, false, 0), LoopStep::ReplayRedo);
    assert_eq!(loop_step(false, DeviceResponse::Accepted, false, true, 0), LoopStep::RunEmulator);
}

#[test]
fn redo_buffer_order() {
    let mut redo = VecDeque::new();
    redo.push_back(SidWrite::new(3, 3, 3, 3));
    prepend_to_redo(&mut redo, &vec![SidWrite::new(1, 1, 1, 1), SidWrite::new(2, 2, 2, 2)]);
    let regs: Vec<u8> = redo.iter().map(|w| w.reg).collect();
    assert_eq!(regs, vec![1, 2, 3]);
}

#[test]
fn write_log() {
    let mut log = SidWriteLog::new();
    log.write(100, 0x04, 0x41, 120);
    log.write(50, 0x06, 0x09, 60);
    assert_eq!(log.get_cycles_in_fifo(), 150);
    assert_eq!(log.get_buffer_copy().len(), 2);
    log.process_next();
    assert_eq!(log.get_last_sid_write(0x04), 0x41);
    assert_eq!(log.get_last_sid_write_times(0x04), 120);
    assert_eq!(log.get_cycles_in_fifo(), 50);
    log.process_next();
    log.write(10, 0x04, 0x40, 1_000_000);
    log.process_next();
    assert!(!log.is_note_finished(0));
    log.write(10, 0x00, 0x01, 1_000_000);
    log.process_next();
    assert!(log.is_note_finished(0));
    log.clear_buffer();
    assert_eq!(log.get_cycles_in_fifo(), 0);
}

#[test]
fn voice_reactivation() {
    let mut last = vec![0u8; 256];
    for (reg, value) in [(0usize, 1u8), (1, 2), (2, 3), (3, 4), (5, 5), (6, 6)] {
        last[reg] = value;
    }
    let mut log = SidWriteLog::new();
    log.write(8, 0x04, 0x41, 8);
    log.process_next();
    let writes = reactivate_voice(0, 0, &last, &log);
    let expected = vec![
        VoiceWrite { direct: false, cycles: 8, reg: 3, data: 4 },
        VoiceWrite { direct: false, cycles: 8, reg: 2, data: 3 },
        VoiceWrite { direct: false, cycles: 8, reg: 5, data: 5 },
        VoiceWrite { direct: false, cycles: 8, reg: 6, data: 6 },
        VoiceWrite { direct: true, cycles: 8, reg: 4, data: 0x41 },
        VoiceWrite { direct: false, cycles: 8, reg: 0, data: 1 },
        VoiceWrite { direct: false, cycles: 8, reg: 1, data: 2 },
    ];
    assert_eq!(writes, expected);
}
