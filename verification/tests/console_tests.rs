use acid64c::console_player::{
    c64_model_display, check_library_version, convert_seconds_to_time_string, convert_song_length, get_clock_display,
    is_sidplayer_description, key_action, library_version_text, sid_model_display, KeyAction,
};
use acid64c::utils::keyboard::{convert_num_key_to_number, ESC_KEY, LEFT_KEY, RIGHT_KEY};

#[test]
fn time_strings() {
    assert_eq!(convert_seconds_to_time_string(0, false), "00:00");
    assert_eq!(convert_seconds_to_time_string(65, false), "01:05");
    assert_eq!(convert_seconds_to_time_string(3725, false), "02:05");
    assert_eq!(convert_seconds_to_time_string(3725, true), "01:02:05");
    assert_eq!(convert_song_length(62_400), "01:02");
    assert_eq!(get_clock_display(62_400), "(00:00 - 01:02)");
    assert_eq!(get_clock_display(0), "(00:00)");
}

#[test]
fn model_names() {
    assert_eq!(sid_model_display(1), "MOS 6581");
    assert_eq!(sid_model_display(3), "MOS 6581/8580");
    assert_eq!(sid_model_display(0), "Unknown");
    assert_eq!(c64_model_display(2), "NTSC");
    assert_eq!(c64_model_display(4), "Unknown");
}

#[test]
fn keys() {
    assert_eq!(convert_num_key_to_number('1'), 0);
    assert_eq!(convert_num_key_to_number('9'), 8);
    assert_eq!(convert_num_key_to_number('0'), 9);
    assert_eq!(convert_num_key_to_number('a'), -1);
    assert_eq!(key_action('p', 3, false), KeyAction::TogglePause);
    assert_eq!(key_action('2', 3, false), KeyAction::SelectSong(1));
    assert_eq!(key_action('4', 3, false), KeyAction::Ignore);
    assert_eq!(key_action('+', 3, false), KeyAction::NextSong);
    assert_eq!(key_action('_', 3, false), KeyAction::PreviousSong);
    assert_eq!(key_action(RIGHT_KEY, 3, false), KeyAction::ToggleFastForward);
    assert_eq!(key_action(RIGHT_KEY, 3, true), KeyAction::Ignore);
    assert_eq!(key_action(LEFT_KEY, 3, false), KeyAction::StopFastForward);
    assert_eq!(key_action(ESC_KEY, 3, false), KeyAction::Quit);
    assert_eq!(key_action('z', 3, false), KeyAction::Ignore);
}

#[test]
fn library_version() {
    assert_eq!(check_library_version(0x20f), Err("acid64pro.dll version 2.1.0 or higher required.".to_string()));
    assert_eq!(check_library_version(0x210), Ok(()));
    assert_eq!(library_version_text(0x213), "v2.1.3");
}

#[test]
fn sidplayer_descriptions() {
    assert!(is_sidplayer_description(&"x".repeat(33), "", ""));
    assert!(!is_sidplayer_description(&"x".repeat(32), "", ""));
    assert!(!is_sidplayer_description(&"x".repeat(33), "a", ""));
}
