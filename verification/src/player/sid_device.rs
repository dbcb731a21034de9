//! What every SID output device offers to the player.
use vstd::prelude::*;

verus! {

/// Register that no SID chip reacts to; writing it only spends cycles.
pub const DUMMY_REG: u8 = 0x1e;

/// Clock a SID chip runs at.
#[derive(Copy, Clone, PartialEq, Eq, Structural, Debug)]
pub enum SidClock {
    Pal,
    Ntsc,
    OneMhz,
}

impl SidClock {
    /// The number of this clock in the device protocols.
    pub open spec fn spec_code(self) -> u8 {
        match self {
            SidClock::Pal => 0,
            SidClock::Ntsc => 1,
            SidClock::OneMhz => 2,
        }
    }

    pub fn code(self) -> (r: u8)
        ensures
            r == self.spec_code(),
    {
        match self {
            SidClock::Pal => 0,
            SidClock::Ntsc => 1,
            SidClock::OneMhz => 2,
        }
    }
}

/// How a software SID device renders its output.
#[derive(Copy, Clone, PartialEq, Eq, Structural, Debug)]
pub enum SamplingMethod {
    Best,
    Fast,
}

impl SamplingMethod {
    pub open spec fn spec_code(self) -> u8 {
        match self {
            SamplingMethod::Best => 0,
            SamplingMethod::Fast => 1,
        }
    }

    pub fn code(self) -> (r: u8)
        ensures
            r == self.spec_code(),
    {
        match self {
            SamplingMethod::Best => 0,
            SamplingMethod::Fast => 1,
        }
    }
}

/// Answer of a device to a write that may not be taken at once.
#[derive(Copy, Clone, PartialEq, Eq, Structural, Debug)]
pub enum DeviceResponse {
    Accepted,
    Busy,
    Error,
}

/// The two SID chip models.
#[derive(Copy, Clone, PartialEq, Eq, Structural, Debug)]
pub enum SidModel {
    Mos6581,
    Mos8580,
}

/// One register write, `cycles` after the previous one.
#[derive(Copy, Clone, PartialEq, Eq, Structural, Debug)]
pub struct SidWrite {
    pub cycles: u16,
    pub reg: u8,
    pub data: u8,
}

/// A device as it is listed to the user.
#[derive(Clone, Debug)]
pub struct DeviceInfo {
    pub id: String,
    pub name: String,
    pub socket_count: i32,
}

/// A SID output device. A device can hold several SID chips; `dev_nr`
/// selects one of them.
pub trait SidDevice: Send {
    fn disconnect(&mut self, dev_nr: i32);

    fn is_connected(&mut self, dev_nr: i32) -> bool;

    fn get_last_error(&mut self, dev_nr: i32) -> Option<String>;

    fn test_connection(&mut self, dev_nr: i32);

    fn can_pair_devices(&mut self, dev1: i32, dev2: i32) -> bool;

    fn get_device_count(&mut self, dev_nr: i32) -> i32;

    fn get_device_info(&mut self, dev_nr: i32) -> String;

    fn set_sid_count(&mut self, dev_nr: i32, sid_count: i32);

    fn set_sid_position(&mut self, dev_nr: i32, sid_position: i8);

    fn set_sid_model(&mut self, dev_nr: i32, sid_socket: i32);

    fn set_sid_clock(&mut self, dev_nr: i32, sid_clock: SidClock);

    fn set_sampling_method(&mut self, dev_nr: i32, sampling_method: SamplingMethod);

    fn set_sid_header(&mut self, dev_nr: i32, sid_header: Vec<u8>);

    fn set_fade_in(&mut self, dev_nr: i32, time_millis: u32);

    fn set_fade_out(&mut self, dev_nr: i32, time_millis: u32);

    fn silent_all_sids(&mut self, dev_nr: i32, write_volume: bool);

    fn silent_sid(&mut self, dev_nr: i32, write_volume: bool);

    fn device_reset(&mut self, dev_nr: i32);

    fn reset_all_sids(&mut self, dev_nr: i32);

    fn reset_sid(&mut self, dev_nr: i32);

    fn reset_all_buffers(&mut self, dev_nr: i32);

    fn enable_turbo_mode(&mut self, dev_nr: i32);

    fn disable_turbo_mode(&mut self, dev_nr: i32);

    fn dummy_write(&mut self, dev_nr: i32, cycles_input: u32);

    fn write(&mut self, dev_nr: i32, cycles_input: u32, reg: u8, data: u8);

    fn try_write(&mut self, dev_nr: i32, cycles_input: u32, reg: u8, data: u8) -> DeviceResponse;

    fn retry_write(&mut self, dev_nr: i32) -> DeviceResponse;

    fn force_flush(&mut self, dev_nr: i32);

    fn set_native_device_clock(&mut self, enabled: bool);

    fn get_device_clock(&mut self, dev_nr: i32) -> SidClock;
}

} // verus!
