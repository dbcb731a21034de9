//! What the console shows and how it reacts to keys.
use vstd::prelude::*;
use crate::utils::keyboard::{convert_num_key_to_number, spec_num_key, ESC_KEY, LEFT_KEY, RIGHT_KEY};
use crate::utils::text::{decimal, push_decimal};
use vstd::string::StringSliceAdditionalSpecFns;

verus! {

/// A number of at least two digits, as `{:02}` writes it.
pub open spec fn two_digits(n: nat) -> Seq<char> {
    if n < 10 {
        seq!['0'] + decimal(n)
    } else {
        decimal(n)
    }
}

fn push_two_digits(s: &mut String, n: u32)
    ensures
        final(s)@ == old(s)@ + two_digits(n as nat),
{
    if n < 10 {
        crate::utils::text::push_char(s, '0');
    }
    push_decimal(s, n as u64);
    proof {
        if n < 10 {
            assert(final(s)@ =~= old(s)@ + two_digits(n as nat));
        }
    }
}

/// "MM:SS" (minutes within the hour) or "HH:MM:SS".
pub open spec fn spec_time_string(seconds_total: u32, display_hours: bool) -> Seq<char> {
    let seconds = seconds_total % 60;
    let hours = seconds_total / 3600;
    let minutes = seconds_total / 60 - hours * 60;
    if !display_hours {
        two_digits(minutes as nat) + ":"@ + two_digits(seconds as nat)
    } else {
        two_digits(hours as nat) + ":"@ + two_digits(minutes as nat) + ":"@ + two_digits(seconds as nat)
    }
}

pub fn convert_seconds_to_time_string(seconds_total: u32, display_hours: bool) -> (r: String)
    ensures
        r@ == spec_time_string(seconds_total, display_hours),
{
    let seconds = seconds_total % 60;
    let hours = seconds_total / 3600;
    let minutes = seconds_total / 60 - hours * 60;
    let mut s = String::new();
    if display_hours {
        push_two_digits(&mut s, hours);
        s.append(":");
    }
    push_two_digits(&mut s, minutes);
    s.append(":");
    push_two_digits(&mut s, seconds);
    s
}

/// A song length in millis as "MM:SS", rounded to seconds.
pub open spec fn spec_song_length_text(song_length: i32) -> Seq<char> {
    let s = song_length + 500;
    let secs = if s >= 0 { s / 1000 } else { -((-s) / 1000) };
    spec_time_string((secs as i32) as u32, false)
}

pub fn convert_song_length(song_length: i32) -> (r: String)
    requires
        song_length <= i32::MAX - 500,
    ensures
        r@ == spec_song_length_text(song_length),
{
    let song_length_in_seconds = (song_length + 500) / 1000;
    convert_seconds_to_time_string(song_length_in_seconds as u32, false)
}

/// The clock shown while a song plays: elapsed time and, when known, the
/// song's length.
pub open spec fn spec_clock_display(song_length: i32) -> Seq<char> {
    if song_length > 0 {
        "(00:00 - "@ + spec_song_length_text(song_length) + ")"@
    } else {
        "(00:00)"@
    }
}

pub fn get_clock_display(song_length: i32) -> (r: String)
    requires
        song_length <= i32::MAX - 500,
    ensures
        r@ == spec_clock_display(song_length),
{
    if song_length > 0 {
        let mut s = String::from_str("(00:00 - ");
        s.append(convert_song_length(song_length).as_str());
        s.append(")");
        s
    } else {
        String::from_str("(00:00)")
    }
}

pub fn sid_model_display(sid_model: i32) -> (r: &'static str)
    ensures
        r@ == if sid_model == 1 {
            "MOS 6581"@
        } else if sid_model == 2 {
            "MOS 8580"@
        } else if sid_model == 3 {
            "MOS 6581/8580"@
        } else {
            "Unknown"@
        },
{
    if sid_model == 1 {
        "MOS 6581"
    } else if sid_model == 2 {
        "MOS 8580"
    } else if sid_model == 3 {
        "MOS 6581/8580"
    } else {
        "Unknown"
    }
}

pub fn c64_model_display(c64_model: i32) -> (r: &'static str)
    ensures
        r@ == if c64_model == 1 {
            "PAL"@
        } else if c64_model == 2 {
            "NTSC"@
        } else if c64_model == 3 {
            "PAL/NTSC"@
        } else {
            "Unknown"@
        },
{
    if c64_model == 1 {
        "PAL"
    } else if c64_model == 2 {
        "NTSC"
    } else if c64_model == 3 {
        "PAL/NTSC"
    } else {
        "Unknown"
    }
}

/// A tune with only a long title is a Sidplayer 64 tune, whose title holds
/// its description.
pub fn is_sidplayer_description(title: &str, author: &str, released: &str) -> (r: bool)
    ensures
        r == ((title.spec_bytes().len() as usize) > 32 && author@.len() == 0 && released@.len() == 0),
{
    title.len() > 32 && author.is_empty() && released.is_empty()
}

/// What a key does in the console.
#[derive(Copy, Clone, PartialEq, Eq, Structural, Debug)]
pub enum KeyAction {
    /// Pause or resume.
    TogglePause,
    /// Play the song with this number (counted from 0).
    SelectSong(i32),
    NextSong,
    PreviousSong,
    ToggleFastForward,
    StopFastForward,
    Quit,
    Ignore,
}

/// 'p' pauses or resumes; a number key selects a song the tune has, '+'
/// and '-' the next or previous song; the right arrow toggles fast forward
/// and the left arrow stops it, unless a device with its own player plays;
/// escape quits.
pub open spec fn spec_key_action(key: char, number_of_tunes: i32, remote_sidplayer_active: bool) -> KeyAction {
    if key == 'p' || key == 'P' {
        KeyAction::TogglePause
    } else if ('0' <= key <= '9') || key == '+' || key == '=' || key == '-' || key == '_' {
        let n = spec_num_key(key);
        if n != -1 && number_of_tunes - 1 < n {
            KeyAction::Ignore
        } else if key == '+' || key == '=' {
            KeyAction::NextSong
        } else if key == '-' || key == '_' {
            KeyAction::PreviousSong
        } else {
            KeyAction::SelectSong(n)
        }
    } else if key == RIGHT_KEY {
        if remote_sidplayer_active { KeyAction::Ignore } else { KeyAction::ToggleFastForward }
    } else if key == LEFT_KEY {
        if remote_sidplayer_active { KeyAction::Ignore } else { KeyAction::StopFastForward }
    } else if key == ESC_KEY {
        KeyAction::Quit
    } else {
        KeyAction::Ignore
    }
}

pub fn key_action(key: char, number_of_tunes: i32, remote_sidplayer_active: bool) -> (r: KeyAction)
    ensures
        r == spec_key_action(key, number_of_tunes, remote_sidplayer_active),
{
    if key == 'p' || key == 'P' {
        KeyAction::TogglePause
    } else if ('0' <= key && key <= '9') || key == '+' || key == '=' || key == '-' || key == '_' {
        let n = convert_num_key_to_number(key);
        if n != -1 && (number_of_tunes as i64) - 1 < n as i64 {
            KeyAction::Ignore
        } else if key == '+' || key == '=' {
            KeyAction::NextSong
        } else if key == '-' || key == '_' {
            KeyAction::PreviousSong
        } else {
            KeyAction::SelectSong(n)
        }
    } else if key == RIGHT_KEY {
        if remote_sidplayer_active {
            KeyAction::Ignore
        } else {
            KeyAction::ToggleFastForward
        }
    } else if key == LEFT_KEY {
        if remote_sidplayer_active {
            KeyAction::Ignore
        } else {
            KeyAction::StopFastForward
        }
    } else if key == ESC_KEY {
        KeyAction::Quit
    } else {
        KeyAction::Ignore
    }
}

/// The acid64 library must be version 2.1.0 or higher.
pub fn check_library_version(version: i32) -> (r: Result<(), String>)
    ensures
        r is Ok <==> version >= 0x210,
        r matches Err(e) ==> e@ == "acid64pro.dll version 2.1.0 or higher required."@,
{
    if version < 0x210 {
        Err(String::from_str("acid64pro.dll version 2.1.0 or higher required."))
    } else {
        Ok(())
    }
}

/// The library version as "vMAJOR.MINOR.PATCH" from its nibbles.
pub fn library_version_text(version: i32) -> (r: String)
    requires
        version >= 0,
    ensures
        r@ == "v"@ + decimal((version / 256) as nat) + "."@ + decimal(((version / 16) % 16) as nat) + "."@
            + decimal((version % 16) as nat),
{
    let major = version >> 8;
    let minor = (version >> 4) & 0x0f;
    let patch = version & 0x0f;
    proof {
        assert(version >= 0 ==> version >> 8 == version / 256) by (bit_vector);
        assert(version >= 0 ==> (version >> 4) & 0x0f == (version / 16) % 16) by (bit_vector);
        assert(version >= 0 ==> version & 0x0f == version % 16) by (bit_vector);
    }
    let mut s = String::from_str("v");
    push_decimal(&mut s, major as u64);
    s.append(".");
    push_decimal(&mut s, minor as u64);
    s.append(".");
    push_decimal(&mut s, patch as u64);
    s
}


/// A number key selects only a song the tune has.
pub proof fn lemma_selected_song_exists(key: char, number_of_tunes: i32, remote_sidplayer_active: bool)
    ensures
        spec_key_action(key, number_of_tunes, remote_sidplayer_active) matches KeyAction::SelectSong(n) ==> 0 <= n
            < number_of_tunes && n <= 9,
{
}

/// What each key does, whatever the tune and the device: 'p' and 'P' pause
/// or resume; '+' and '=' play the next song, '-' and '_' the previous one;
/// '1' to '9' play songs 1 to 9 and '0' song 10 (numbered from 0 here),
/// when the tune has that song, and are ignored otherwise; the right arrow
/// toggles and the left arrow stops fast forward unless a device with its own
/// player plays; escape quits; every other key is ignored.
pub proof fn lemma_key_actions(key: char, number_of_tunes: i32, remote_sidplayer_active: bool)
    ensures
        key == 'p' || key == 'P' ==> spec_key_action(key, number_of_tunes, remote_sidplayer_active)
            == KeyAction::TogglePause,
        key == '+' || key == '=' ==> spec_key_action(key, number_of_tunes, remote_sidplayer_active)
            == KeyAction::NextSong,
        key == '-' || key == '_' ==> spec_key_action(key, number_of_tunes, remote_sidplayer_active)
            == KeyAction::PreviousSong,
        spec_key_action('-', number_of_tunes, remote_sidplayer_active) == spec_key_action(
            '_',
            number_of_tunes,
            remote_sidplayer_active,
        ),
        '1' <= key <= '9' ==> spec_key_action(key, number_of_tunes, remote_sidplayer_active) == if (key as int)
            - ('1' as int) < number_of_tunes {
            KeyAction::SelectSong(((key as int) - ('1' as int)) as i32)
        } else {
            KeyAction::Ignore
        },
        key == '0' ==> spec_key_action(key, number_of_tunes, remote_sidplayer_active) == if 9 < number_of_tunes {
            KeyAction::SelectSong(9)
        } else {
            KeyAction::Ignore
        },
        key == RIGHT_KEY ==> spec_key_action(key, number_of_tunes, remote_sidplayer_active) == if remote_sidplayer_active {
            KeyAction::Ignore
        } else {
            KeyAction::ToggleFastForward
        },
        key == LEFT_KEY ==> spec_key_action(key, number_of_tunes, remote_sidplayer_active) == if remote_sidplayer_active {
            KeyAction::Ignore
        } else {
            KeyAction::StopFastForward
        },
        key == ESC_KEY ==> spec_key_action(key, number_of_tunes, remote_sidplayer_active) == KeyAction::Quit,
        !(key == 'p' || key == 'P' || key == '+' || key == '=' || key == '-' || key == '_' || '0' <= key <= '9'
            || key == RIGHT_KEY || key == LEFT_KEY || key == ESC_KEY) ==> spec_key_action(
            key,
            number_of_tunes,
            remote_sidplayer_active,
        ) == KeyAction::Ignore,
{
}

} // verus!
