use std::sync::atomic::AtomicI32;
use std::sync::Arc;
use acid64c::player::sid_device::{DeviceResponse, SamplingMethod, SidClock, SidDevice};
use acid64c::player::check_device_numbers;
use acid64c::player::sid_devices::SidDevices;
use acid64c::player::ultimate_device::{FilePart, HttpOutcome, UltimateDevice, UltimateDeviceFacade, UltimateHttp};
use acid64c::utils::sidblaster::{detect_devices, sidblaster_name, sidblaster_serials, FtdiBus, FtdiDevice};

struct FakeHttp {
    version_answer: Option<bool>,
    upload_answer: u8,
    requests: Vec<String>,
    uploads: Vec<Vec<(String, String, usize)>>,
}

impl UltimateHttp for FakeHttp {
    fn get_version(&mut self, url: &str) -> Option<bool> {
        self.requests.push(url.to_string());
        self.version_answer
    }

    fn post_files(&mut self, url: &str, parts: Vec<FilePart>) -> HttpOutcome {
        self.requests.push(url.to_string());
        self.uploads.push(parts.iter().map(|p| (p.name.clone(), p.filename.clone(), p.data.len())).collect());
        match self.upload_answer {
            0 => HttpOutcome::Success,
            1 => HttpOutcome::ErrorStatus("404 Not Found".to_string()),
            _ => HttpOutcome::Failed,
        }
    }

    fn pause_millis(&mut self, _millis: u64) {}
}

fn ultimate(version_answer: Option<bool>, upload_answer: u8) -> UltimateDevice<FakeHttp> {
    let http = FakeHttp { version_answer, upload_answer, requests: vec![], uploads: vec![] };
    UltimateDevice::new(Arc::new(AtomicI32::new(0)), http, vec![1, 2, 3])
}

fn lan() -> (Vec<String>, Vec<(String, String)>) {
    (vec!["192.168.1.64".to_string()], vec![("192.168.1.10".to_string(), "255.255.255.0".to_string())])
}

#[test]
fn ultimate_connects() {
    let (ips, ifs) = lan();
    let mut device = ultimate(Some(true), 0);
    assert_eq!(device.connect("192.168.1.64", "80", &ips, &ifs), Ok(()));
    assert!(device.is_connected());
    assert_eq!(device.get_device_count(), 1);
    assert_eq!(device.get_device_info(0), "Ultimate Device");
    let mut device = ultimate(Some(false), 0);
    assert_eq!(device.connect("192.168.1.64", "80", &ips, &ifs), Err("Could not connect to: http://192.168.1.64:80.".to_string()));
    let mut device = ultimate(Some(true), 0);
    assert_eq!(device.connect("8.8.8.8", "80", &vec!["8.8.8.8".to_string()], &ifs), Err("IP is not a local IP address.".to_string()));
    assert_eq!(device.connect("", "80", &vec![], &ifs), Err("No IP address configured for Ultimate device".to_string()));
}

#[test]
fn ultimate_uploads() {
    let (ips, ifs) = lan();
    let mut sid = vec![0u8; 0x7c];
    sid[..4].copy_from_slice(b"PSID");
    let mut facade = UltimateDeviceFacade { us_device: ultimate(Some(true), 0) };
    facade.us_device.connect("192.168.1.64", "80", &ips, &ifs).unwrap();
    facade.send_sid(0, "Commando.v2.sid", 2, &sid, &[1, 2]);
    assert!(facade.us_device.get_last_error().is_none());
    let r = UltimateDevice::<FakeHttp>::upload_request("http://u", "tune.prg", 0, &[9], &[]).unwrap();
    assert_eq!(r.0, "http://u/v1/runners:run_prg");
    let r = UltimateDevice::<FakeHttp>::upload_request("http://u", "Commando.v2.sid", 2, &sid, &[1, 2]).unwrap();
    assert_eq!(r.0, "http://u/v1/runners:sidplay?songnr=3");
    assert_eq!((r.1[0].name.as_str(), r.1[0].filename.as_str()), ("ssl", "Commando.ssl"));
    assert_eq!((r.1[1].name.as_str(), r.1[1].filename.as_str()), ("sid", "Commando.sid"));
    assert!(UltimateDevice::<FakeHttp>::upload_request("http://u", "tune.mus", 0, &[9], &[]).is_none());
    assert_eq!(UltimateDevice::<FakeHttp>::get_ssl_filename("a.sid"), "a.ssl");
    assert_eq!(UltimateDevice::<FakeHttp>::version_url("http://u"), "http://u/v1/version");
    let p = UltimateDevice::<FakeHttp>::pause_request("http://u", &[7]);
    assert_eq!(p.0, "http://u/v1/runners:run_crt");
    assert_eq!(p.1[0].filename, "acid64_pause.crt");
}

#[test]
fn ultimate_upload_errors() {
    let (ips, ifs) = lan();
    let mut device = ultimate(Some(true), 1);
    device.connect("192.168.1.64", "80", &ips, &ifs).unwrap();
    device.stop_sid();
    assert_eq!(device.get_last_error(), Some("HTTP error with status: 404 Not Found".to_string()));
    assert!(!device.is_connected());
    let mut device = ultimate(Some(true), 2);
    device.connect("192.168.1.64", "80", &ips, &ifs).unwrap();
    device.handle_response(HttpOutcome::Failed);
    assert_eq!(device.get_last_error(), Some("Could not send SID file. Connection failed.".to_string()));
    let mut device = ultimate(Some(true), 0);
    device.connect("192.168.1.64", "80", &ips, &ifs).unwrap();
    device.send_sid_file("notes.txt", 0, &[1], &[]);
    assert_eq!(device.get_last_error(), Some("File type not supported".to_string()));
    device.set_sid_clock(SidClock::Ntsc);
    assert_eq!(device.get_device_clock(), SidClock::Ntsc);
    device.disconnect();
    assert_eq!(device.get_device_clock(), SidClock::Pal);
}

struct TestDevice {
    chips: i32,
    connected: bool,
}

impl SidDevice for TestDevice {
    fn disconnect(&mut self, _dev_nr: i32) { self.connected = false; }
    fn is_connected(&mut self, _dev_nr: i32) -> bool { self.connected }
    fn get_last_error(&mut self, _dev_nr: i32) -> Option<String> { None }
    fn test_connection(&mut self, _dev_nr: i32) {}
    fn can_pair_devices(&mut self, dev1: i32, dev2: i32) -> bool { dev1 != dev2 }
    fn get_device_count(&mut self, _dev_nr: i32) -> i32 { self.chips }
    fn get_device_info(&mut self, dev_nr: i32) -> String { format!("chip {dev_nr}") }
    fn set_sid_count(&mut self, _dev_nr: i32, _sid_count: i32) {}
    fn set_sid_position(&mut self, _dev_nr: i32, _sid_position: i8) {}
    fn set_sid_model(&mut self, _dev_nr: i32, _sid_socket: i32) {}
    fn set_sid_clock(&mut self, _dev_nr: i32, _sid_clock: SidClock) {}
    fn set_sampling_method(&mut self, _dev_nr: i32, _sampling_method: SamplingMethod) {}
    fn set_sid_header(&mut self, _dev_nr: i32, _sid_header: Vec<u8>) {}
    fn set_fade_in(&mut self, _dev_nr: i32, _time_millis: u32) {}
    fn set_fade_out(&mut self, _dev_nr: i32, _time_millis: u32) {}
    fn silent_all_sids(&mut self, _dev_nr: i32, _write_volume: bool) {}
    fn silent_sid(&mut self, _dev_nr: i32, _write_volume: bool) {}
    fn device_reset(&mut self, _dev_nr: i32) {}
    fn reset_all_sids(&mut self, _dev_nr: i32) {}
    fn reset_sid(&mut self, _dev_nr: i32) {}
    fn reset_all_buffers(&mut self, _dev_nr: i32) {}
    fn enable_turbo_mode(&mut self, _dev_nr: i32) {}
    fn disable_turbo_mode(&mut self, _dev_nr: i32) {}
    fn dummy_write(&mut self, _dev_nr: i32, _cycles_input: u32) {}
    fn write(&mut self, _dev_nr: i32, _cycles_input: u32, _reg: u8, _data: u8) {}
    fn try_write(&mut self, _dev_nr: i32, _cycles_input: u32, _reg: u8, _data: u8) -> DeviceResponse { DeviceResponse::Accepted }
    fn retry_write(&mut self, _dev_nr: i32) -> DeviceResponse { DeviceResponse::Accepted }
    fn force_flush(&mut self, _dev_nr: i32) {}
    fn set_native_device_clock(&mut self, _enabled: bool) {}
    fn get_device_clock(&mut self, _dev_nr: i32) -> SidClock { SidClock::Pal }
}

#[test]
fn devices_numbered_in_order() {
    let mut devices: SidDevices<TestDevice> = SidDevices::new(Arc::new(AtomicI32::new(0)));
    let r = devices.connect(Ok(TestDevice { chips: 2, connected: true }), Ok(TestDevice { chips: 3, connected: true }));
    assert_eq!(r, Ok(()));
    assert_eq!(devices.get_device_count(0), 5);
    assert_eq!(devices.get_device_info(1), "chip 1");
    assert_eq!(devices.get_device_info(2), "chip 0");
    assert!(devices.can_pair_devices(0, 1));
    assert!(!devices.can_pair_devices(1, 2));
    devices.disconnect(0);
    assert_eq!(devices.get_device_count(0), 3);
    assert_eq!(devices.get_device_info(0), "chip 0");
    let mut none: SidDevices<TestDevice> = SidDevices::new(Arc::new(AtomicI32::new(0)));
    let r = none.connect(Err("no hardsid".to_string()), Err("no network".to_string()));
    assert_eq!(r, Err("no hardsid | no network".to_string()));
}

struct FakeBus {
    devices: Vec<(u16, &'static str, &'static str)>,
}

impl FtdiBus for FakeBus {
    fn list_devices(&mut self) -> Option<Vec<FtdiDevice>> {
        Some(self.devices.iter().map(|(v, d, s)| FtdiDevice { vendor_id: *v, description: d.to_string(), serial_number: s.to_string() }).collect())
    }

    fn description_of(&mut self, serial: &str) -> Option<String> {
        self.devices.iter().find(|(_, _, s)| *s == serial).map(|(_, d, _)| d.to_string())
    }
}

#[test]
fn sidblasters() {
    let devices = vec![
        FtdiDevice { vendor_id: 0x0403, description: "SIDBlaster/USB/8580".to_string(), serial_number: "B".to_string() },
        FtdiDevice { vendor_id: 0x0403, description: "FT232R".to_string(), serial_number: "X".to_string() },
        FtdiDevice { vendor_id: 0x0403, description: "SIDBlaster/USB/6581".to_string(), serial_number: "A".to_string() },
        FtdiDevice { vendor_id: 0x1234, description: "SIDBlaster/USB/6581".to_string(), serial_number: "C".to_string() },
    ];
    assert_eq!(sidblaster_serials(&devices), vec!["A".to_string(), "B".to_string()]);
    assert_eq!(sidblaster_name("SIDBlaster/USB/6581 "), "SIDBlaster 6581");
    let mut bus = FakeBus { devices: vec![(0x0403, "SIDBlaster/USB/8580", "B"), (0x0403, "SIDBlaster/USB/6581", "A")] };
    assert_eq!(
        detect_devices(&mut bus),
        Ok(vec![("A".to_string(), "SIDBlaster 6581".to_string()), ("B".to_string(), "SIDBlaster 8580".to_string())])
    );
}

#[test]
fn disconnected_devices_pruned() {
    let mut devices: SidDevices<TestDevice> = SidDevices::new(Arc::new(AtomicI32::new(0)));
    let r = devices.connect(Ok(TestDevice { chips: 2, connected: false }), Ok(TestDevice { chips: 3, connected: true }));
    assert_eq!(r, Ok(()));
    assert_eq!(devices.get_device_count(0), 5);
    devices.test_connection(-1);
    assert_eq!(devices.get_device_count(0), 3);
    assert_eq!(devices.get_device_info(0), "chip 0");
    assert_eq!(devices.get_device_info(2), "chip 2");
    assert!(devices.is_connected(-1));
}

#[test]
fn device_numbers_checked_with_device() {
    let mut device = TestDevice { chips: 2, connected: true };
    assert_eq!(check_device_numbers(&mut device, &vec![0, 1], 2), Ok(()));
    assert_eq!(
        check_device_numbers(&mut device, &vec![1, 1], 2),
        Err("Device number 2 can't be used together with device 2. Specify a different second device with option -dX,Y".to_string())
    );
    assert_eq!(
        check_device_numbers(&mut device, &vec![0, 5], 2),
        Err("Device number 6 doesn't exist, there are only 2 devices.".to_string())
    );
    assert_eq!(check_device_numbers(&mut device, &vec![], 0), Ok(()));
}
