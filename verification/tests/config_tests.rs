use acid64c::config::{arguments_are_sliceable, Config};

fn args(list: &[&str]) -> Vec<String> {
    list.iter().map(|s| s.to_string()).collect()
}

#[test]
fn read_defaults_for_file_only() {
    let config = Config::read(&args(&["acid64c", "tune.sid"])).ok().unwrap();
    assert_eq!(config.filename, "tune.sid");
    assert_eq!(config.device_numbers, vec![-1]);
    assert_eq!(config.song_number, -1);
    assert!(!config.adjust_clock && !config.display_stil && !config.display_devices);
    assert!(config.hvsc_location.is_none());
}

#[test]
fn read_all_options() {
    let config = Config::read(&args(&[
        "acid64c", "-c", "-d2,3", "-hs10.0.0.2", "-hu192.168.1.64", "-i", "-l/hvsc", "-p", "-s4", "tune.sid",
    ]))
    .ok()
    .unwrap();
    assert!(config.adjust_clock);
    assert_eq!(config.device_numbers, vec![1, 2]);
    assert_eq!(config.host_name_sid_device, Some("10.0.0.2".to_string()));
    assert_eq!(config.host_name_ultimate_device, Some("192.168.1.64".to_string()));
    assert!(config.display_stil);
    assert_eq!(config.hvsc_location, Some("/hvsc".to_string()));
    assert!(config.display_devices);
    assert_eq!(config.song_number, 3);
}

#[test]
fn read_host_option() {
    let config = Config::read(&args(&["acid64c", "-hmyhost", "tune.sid"])).ok().unwrap();
    assert_eq!(config.host_name_sid_device, Some("myhost".to_string()));
    assert_eq!(config.filename, "tune.sid".to_string());
}

#[test]
fn read_rejects_unknown_option() {
    let r = Config::read(&args(&["acid64c", "-x", "tune.sid"]));
    assert_eq!(r.err(), Some("Unknown option: -x".to_string()));
}

#[test]
fn read_rejects_song_zero() {
    let r = Config::read(&args(&["acid64c", "-s0", "tune.sid"]));
    assert_eq!(r.err(), Some("Song number must be higher than 0.".to_string()));
}

#[test]
fn read_rejects_bad_device_number() {
    let r = Config::read(&args(&["acid64c", "-d1,x", "tune.sid"]));
    assert_eq!(r.err(), Some("Device number must be a valid number and must be higher than 0.".to_string()));
}

#[test]
fn sliceable_arguments() {
    assert!(arguments_are_sliceable(&args(&["acid64c", "-hs1", "x"])));
    assert!(!arguments_are_sliceable(&args(&["acid64c", "-h"])));
    assert!(!arguments_are_sliceable(&args(&["acid64c", "-é"])));
}
