//! Command line options of the console player.
use vstd::prelude::*;
use crate::utils::text::{parse_i32, spec_parse_i32, split_char, str_find_char};

verus! {

/// The options the player is started with.
pub struct Config {
    pub hvsc_location: Option<String>,
    pub host_name_sid_device: Option<String>,
    pub host_name_ultimate_device: Option<String>,
    pub display_stil: bool,
    pub display_devices: bool,
    pub adjust_clock: bool,
    pub device_numbers: Vec<i32>,
    pub song_number: i32,
    pub filename: String,
}

/// What a `Config` holds, with its text as char sequences.
pub ghost struct ConfigView {
    pub hvsc_location: Option<Seq<char>>,
    pub host_name_sid_device: Option<Seq<char>>,
    pub host_name_ultimate_device: Option<Seq<char>>,
    pub display_stil: bool,
    pub display_devices: bool,
    pub adjust_clock: bool,
    pub device_numbers: Seq<i32>,
    pub song_number: i32,
    pub filename: Seq<char>,
}

pub open spec fn opt_view(o: Option<String>) -> Option<Seq<char>> {
    match o {
        Some(s) => Some(s@),
        None => None,
    }
}

impl Config {
    pub open spec fn view(&self) -> ConfigView {
        ConfigView {
            hvsc_location: opt_view(self.hvsc_location),
            host_name_sid_device: opt_view(self.host_name_sid_device),
            host_name_ultimate_device: opt_view(self.host_name_ultimate_device),
            display_stil: self.display_stil,
            display_devices: self.display_devices,
            adjust_clock: self.adjust_clock,
            device_numbers: self.device_numbers@,
            song_number: self.song_number,
            filename: self.filename@,
        }
    }
}

/// An argument that is read as an option: longer than one char, starting with '-'.
pub open spec fn is_option(arg: Seq<char>) -> bool {
    arg.len() > 1 && arg[0] == '-'
}

/// An option whose chars the option parser can slice: the option letter is
/// ASCII, and after "-h" there is a further ASCII char.
pub open spec fn option_is_sliceable(arg: Seq<char>) -> bool {
    is_option(arg) ==> {
        &&& (arg[1] as u32) < 0x80
        &&& arg[1] == 'h' ==> arg.len() > 2 && (arg[2] as u32) < 0x80
    }
}

pub open spec fn must_be_valid_number(arg_name: Seq<char>) -> Seq<char> {
    arg_name + " must be a valid number and must be higher than 0."@
}

pub open spec fn must_be_higher(arg_name: Seq<char>) -> Seq<char> {
    arg_name + " must be higher than 0."@
}

/// A number option counts from 1; its value is stored counting from 0.
pub open spec fn spec_parse_argument_number(arg_name: Seq<char>, value: Seq<char>) -> Result<i32, Seq<char>> {
    match spec_parse_i32(value) {
        None => Err(must_be_valid_number(arg_name)),
        Some(n) => if n >= 1 {
            Ok((n - 1) as i32)
        } else {
            Err(must_be_higher(arg_name))
        },
    }
}

/// Each comma separated value parsed as a number option; the first error wins.
pub open spec fn spec_parse_numbers(arg_name: Seq<char>, values: Seq<Seq<char>>) -> Result<Seq<i32>, Seq<char>>
    decreases values.len(),
{
    if values.len() == 0 {
        Ok(seq![])
    } else {
        match spec_parse_argument_number(arg_name, values[0]) {
            Err(e) => Err(e),
            Ok(n) => match spec_parse_numbers(arg_name, values.drop_first()) {
                Err(e) => Err(e),
                Ok(rest) => Ok(seq![n] + rest),
            },
        }
    }
}

pub open spec fn spec_parse_argument_numbers(arg_name: Seq<char>, values: Seq<char>) -> Result<Seq<i32>, Seq<char>> {
    spec_parse_numbers(arg_name, split_char(values, ','))
}

pub open spec fn device_number_name() -> Seq<char> {
    "Device number"@
}

pub open spec fn song_number_name() -> Seq<char> {
    "Song number"@
}

/// The settings before any option is read.
pub open spec fn default_options(filename: Seq<char>) -> ConfigView {
    ConfigView {
        hvsc_location: None,
        host_name_sid_device: None,
        host_name_ultimate_device: None,
        display_stil: false,
        display_devices: false,
        adjust_clock: false,
        device_numbers: seq![-1i32],
        song_number: -1i32,
        filename,
    }
}

/// The effect of one option argument on the settings. "-hs{host}" and
/// "-h{host}" name the host of the network SID device, "-hu{ip}" that of the
/// Ultimate device.
pub open spec fn apply_option(c: ConfigView, arg: Seq<char>) -> Result<ConfigView, Seq<char>> {
    let letter = arg[1];
    if letter == 'c' {
        Ok(ConfigView { adjust_clock: true, ..c })
    } else if letter == 'd' {
        match spec_parse_argument_numbers(device_number_name(), arg.skip(2)) {
            Ok(numbers) => Ok(ConfigView { device_numbers: numbers, ..c }),
            Err(e) => Err(e),
        }
    } else if letter == 'h' {
        if arg[2] == 's' {
            Ok(ConfigView { host_name_sid_device: Some(arg.skip(3)), ..c })
        } else if arg[2] == 'u' {
            Ok(ConfigView { host_name_ultimate_device: Some(arg.skip(3)), ..c })
        } else {
            Ok(ConfigView { host_name_sid_device: Some(arg.skip(2)), ..c })
        }
    } else if letter == 'i' {
        Ok(ConfigView { display_stil: true, ..c })
    } else if letter == 'l' {
        Ok(ConfigView { hvsc_location: Some(arg.skip(2)), ..c })
    } else if letter == 'p' {
        Ok(ConfigView { display_devices: true, ..c })
    } else if letter == 's' {
        match spec_parse_argument_number(song_number_name(), arg.skip(2)) {
            Ok(n) => Ok(ConfigView { song_number: n, ..c }),
            Err(e) => Err(e),
        }
    } else {
        Err("Unknown option: "@ + arg)
    }
}

/// The settings after the options among `args` are applied in order; the
/// first option that fails gives the error.
pub open spec fn apply_options(c: ConfigView, args: Seq<Seq<char>>) -> Result<ConfigView, Seq<char>>
    decreases args.len(),
{
    if args.len() == 0 {
        Ok(c)
    } else if is_option(args[0]) {
        match apply_option(c, args[0]) {
            Ok(next) => apply_options(next, args.drop_first()),
            Err(e) => Err(e),
        }
    } else {
        apply_options(c, args.drop_first())
    }
}

pub open spec fn views(args: Seq<String>) -> Seq<Seq<char>> {
    args.map_values(|a: String| a@)
}

impl Config {
    /// Reads the settings from the command line `args` (the program name
    /// first): the last argument is the file to play, and every argument that
    /// starts with '-' is an option.
    pub fn read(args: &Vec<String>) -> (r: Result<Config, String>)
        requires
            args.len() > 0,
            forall|i: int| 0 <= i < args.len() ==> option_is_sliceable(#[trigger] args[i]@),
        ensures
            match r {
                Ok(config) => apply_options(default_options(args[args.len() - 1]@), views(args@))
                    == Ok::<ConfigView, Seq<char>>(config.view()),
                Err(e) => apply_options(default_options(args[args.len() - 1]@), views(args@))
                    == Err::<ConfigView, Seq<char>>(e@),
            },
    {
        let mut config = Config {
            hvsc_location: None,
            host_name_sid_device: None,
            host_name_ultimate_device: None,
            display_stil: false,
            display_devices: false,
            adjust_clock: false,
            device_numbers: vec![-1],
            song_number: -1i32,
            filename: args[args.len() - 1].clone(),
        };
        let ghost all = views(args@);
        let mut i: usize = 0;
        proof {
            assert(config.device_numbers@ =~= seq![-1i32]);
            assert(config.view() == default_options(args[args.len() - 1]@));
            assert(all.skip(0) =~= all);
        }
        while i < args.len()
            invariant
                0 <= i <= args.len(),
                all == views(args@),
                forall|j: int| 0 <= j < args.len() ==> option_is_sliceable(#[trigger] args[j]@),
                apply_options(default_options(args[args.len() - 1]@), all)
                    == apply_options(config.view(), all.skip(i as int)),
            decreases args.len() - i,
        {
            let argument = args[i].as_str();
            let ghost a = args[i as int]@;
            proof {
                assert(all[i as int] == a);
                assert(all.skip(i as int).drop_first() =~= all.skip(i + 1));
                assert(all.skip(i as int)[0] == a);
                assert(option_is_sliceable(a));
            }
            let n = argument.unicode_len();
            if n > 1 && argument.get_char(0) == '-' {
                match Self::apply_option(&mut config, argument) {
                    Ok(()) => {},
                    Err(e) => {
                        return Err(e);
                    },
                }
            }
            i = i + 1;
        }
        proof {
            assert(all.skip(args.len() as int) =~= Seq::<Seq<char>>::empty());
        }
        Ok(config)
    }

    fn apply_option(config: &mut Config, argument: &str) -> (r: Result<(), String>)
        requires
            is_option(argument@),
            option_is_sliceable(argument@),
        ensures
            match r {
                Ok(()) => apply_option(old(config).view(), argument@) == Ok::<ConfigView, Seq<char>>(
                    final(config).view(),
                ),
                Err(e) => apply_option(old(config).view(), argument@) == Err::<ConfigView, Seq<char>>(
                    e@,
                ),
            },
    {
        let n = argument.unicode_len();
        let letter = argument.get_char(1);
        if letter == 'c' {
            config.adjust_clock = true;
        } else if letter == 'd' {
            match Self::parse_argument_numbers("Device number", argument.substring_char(2, n)) {
                Ok(numbers) => {
                    config.device_numbers = numbers;
                },
                Err(e) => {
                    return Err(e);
                },
            }
        } else if letter == 'h' {
            let second = argument.get_char(2);
            if second == 's' {
                config.host_name_sid_device = Some(argument.substring_char(3, n).to_string());
            } else if second == 'u' {
                config.host_name_ultimate_device = Some(argument.substring_char(3, n).to_string());
            } else {
                config.host_name_sid_device = Some(argument.substring_char(2, n).to_string());
            }
        } else if letter == 'i' {
            config.display_stil = true;
        } else if letter == 'l' {
            config.hvsc_location = Some(argument.substring_char(2, n).to_string());
        } else if letter == 'p' {
            config.display_devices = true;
        } else if letter == 's' {
            match Self::parse_argument_number("Song number", argument.substring_char(2, n)) {
                Ok(number) => {
                    config.song_number = number;
                },
                Err(e) => {
                    return Err(e);
                },
            }
        } else {
            let mut message = String::from_str("Unknown option: ");
            message.append(argument);
            return Err(message);
        }
        proof {
            assert(argument@.subrange(2, n as int) =~= argument@.skip(2));
            assert(argument@.subrange(3, n as int) =~= argument@.skip(3));
        }
        Ok(())
    }

    /// Parses the comma separated numbers of an option such as "-d1,2".
    fn parse_argument_numbers(arg_name: &str, arg_values: &str) -> (r: Result<Vec<i32>, String>)
        ensures
            match r {
                Ok(v) => spec_parse_argument_numbers(arg_name@, arg_values@) == Ok::<Seq<i32>, Seq<char>>(v@),
                Err(e) => spec_parse_argument_numbers(arg_name@, arg_values@) == Err::<Seq<i32>, Seq<char>>(e@),
            },
    {
        let mut numbers: Vec<i32> = Vec::new();
        let mut rest: &str = arg_values;
        let ghost pieces = split_char(arg_values@, ',');
        let ghost mut done: int = 0;
        proof {
            assert(pieces.skip(0) =~= pieces);
        }
        loop
            invariant
                0 <= done <= pieces.len(),
                pieces == split_char(arg_values@, ','),
                split_char(rest@, ',') == pieces.skip(done),
                spec_parse_numbers(arg_name@, pieces) == match spec_parse_numbers(arg_name@, pieces.skip(done)) {
                    Ok(tail) => Ok::<Seq<i32>, Seq<char>>(numbers@ + tail),
                    Err(e) => Err::<Seq<i32>, Seq<char>>(e),
                },
            decreases pieces.len() - done,
        {
            let k = str_find_char(rest, ',');
            let n = rest.unicode_len();
            let ghost tail = pieces.skip(done);
            proof {
                crate::utils::text::lemma_find_char(rest@, ',');
            }
            let piece = rest.substring_char(0, k);
            proof {
                assert(tail == split_char(rest@, ','));
                if k < n {
                    assert(tail == seq![rest@.take(k as int)] + split_char(rest@.skip(k + 1), ','));
                } else {
                    assert(rest@.take(k as int) =~= rest@);
                }
                assert(rest@.take(k as int) =~= piece@);
                assert(tail[0] == piece@);
                assert(tail.drop_first() =~= pieces.skip(done + 1));
            }
            let result = Self::parse_argument_number(arg_name, piece);
            match result {
                Err(e) => {
                    proof {
                        assert(spec_parse_numbers(arg_name@, tail) == Err::<Seq<i32>, Seq<char>>(e@));
                    }
                    return Err(e);
                },
                Ok(number) => {
                    let ghost old_numbers = numbers@;
                    numbers.push(number);
                    proof {
                        assert(numbers@ =~= old_numbers + seq![number]);
                        match spec_parse_numbers(arg_name@, tail.drop_first()) {
                            Ok(t) => {
                                assert(old_numbers + (seq![number] + t) =~= numbers@ + t);
                            },
                            Err(_) => {},
                        }
                    }
                    if k < n {
                        rest = rest.substring_char(k + 1, n);
                        proof {
                            done = done + 1;
                        }
                    } else {
                        proof {
                            assert(tail.drop_first().len() == 0);
                            assert(spec_parse_numbers(arg_name@, tail.drop_first()) == Ok::<Seq<i32>, Seq<char>>(seq![]));
                            assert(seq![number] + seq![] =~= seq![number]);
                            assert(spec_parse_numbers(arg_name@, tail) == Ok::<Seq<i32>, Seq<char>>(seq![number]));
                            assert(numbers@ + seq![] =~= numbers@);
                        }
                        return Ok(numbers);
                    }
                },
            }
        }
    }

    /// Parses a number option counting from 1 and returns it counting from 0.
    fn parse_argument_number(arg_name: &str, arg_value: &str) -> (r: Result<i32, String>)
        ensures
            match r {
                Ok(n) => spec_parse_argument_number(arg_name@, arg_value@) == Ok::<i32, Seq<char>>(n),
                Err(e) => spec_parse_argument_number(arg_name@, arg_value@) == Err::<i32, Seq<char>>(e@),
            },
    {
        let number = match parse_i32(arg_value) {
            Some(i) => i,
            None => {
                let mut message = String::from_str(arg_name);
                message.append(" must be a valid number and must be higher than 0.");
                return Err(message);
            },
        };
        if number >= 1 {
            Ok(number - 1)
        } else {
            let mut message = String::from_str(arg_name);
            message.append(" must be higher than 0.");
            Err(message)
        }
    }
}


/// Whether the option parser can slice every argument; the parser needs it
/// (an option with a letter beyond ASCII cannot be sliced).
pub fn arguments_are_sliceable(args: &Vec<String>) -> (r: bool)
    ensures
        r == (forall|i: int| 0 <= i < args.len() ==> option_is_sliceable(#[trigger] args[i]@)),
{
    let mut i: usize = 0;
    while i < args.len()
        invariant
            i <= args.len(),
            forall|j: int| 0 <= j < i ==> option_is_sliceable(#[trigger] args[j]@),
        decreases args.len() - i,
    {
        let a = args[i].as_str();
        let n = a.unicode_len();
        if n > 1 && a.get_char(0) == '-' {
            let letter = a.get_char(1);
            if (letter as u32) >= 0x80 {
                return false;
            }
            if letter == 'h' && (n <= 2 || (a.get_char(2) as u32) >= 0x80) {
                return false;
            }
        }
        i = i + 1;
    }
    true
}

} // verus!
