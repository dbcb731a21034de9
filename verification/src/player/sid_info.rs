//! What is known of the loaded tune.
use vstd::prelude::*;

verus! {

/// Header data of the loaded tune and what the song length database and
/// STIL say of it.
pub struct SidInfo {
    pub title: String,
    pub author: String,
    pub released: String,
    pub load_address: i32,
    pub load_end_address: i32,
    pub init_address: i32,
    pub play_address: i32,
    pub number_of_songs: i32,
    pub default_song: i32,
    pub clock_frequency: i32,
    pub speed_flag: i32,
    pub speed_flags: i32,
    pub stil_entry: Option<String>,
    pub md5_hash: String,
    pub song_length: i32,
    pub mus_text: [u8; 160],
    pub mus_colors: [u8; 160],
    pub file_type: String,
    pub number_of_sids: i32,
    pub sid_models: Vec<i32>,
    pub sid_addresses: Vec<i32>,
    pub free_memory_address: i32,
    pub free_memory_end_address: i32,
    pub filename: String,
    pub file_format: String,
    pub basic_sid: bool,
}

impl SidInfo {
    /// Nothing loaded: empty texts, zero numbers, no chips.
    pub open spec fn is_empty(&self) -> bool {
        &&& self.title@ == Seq::<char>::empty()
        &&& self.author@ == Seq::<char>::empty()
        &&& self.released@ == Seq::<char>::empty()
        &&& self.load_address == 0
        &&& self.load_end_address == 0
        &&& self.init_address == 0
        &&& self.play_address == 0
        &&& self.number_of_songs == 0
        &&& self.default_song == 0
        &&& self.clock_frequency == 0
        &&& self.speed_flag == 0
        &&& self.speed_flags == 0
        &&& self.stil_entry is None
        &&& self.md5_hash@ == Seq::<char>::empty()
        &&& self.song_length == 0
        &&& self.mus_text@ == Seq::new(160, |i: int| 0u8)
        &&& self.mus_colors@ == Seq::new(160, |i: int| 0u8)
        &&& self.file_type@ == Seq::<char>::empty()
        &&& self.number_of_sids == 0
        &&& self.sid_models@ == Seq::<i32>::empty()
        &&& self.sid_addresses@ == Seq::<i32>::empty()
        &&& self.free_memory_address == 0
        &&& self.free_memory_end_address == 0
        &&& self.filename@ == Seq::<char>::empty()
        &&& self.file_format@ == Seq::<char>::empty()
        &&& !self.basic_sid
    }

    pub fn new() -> (r: SidInfo)
        ensures
            r.is_empty(),
    {
        let mus_text = [0u8; 160];
        let mus_colors = [0u8; 160];
        proof {
            assert(mus_text@ =~= Seq::new(160, |i: int| 0u8));
            assert(mus_colors@ =~= Seq::new(160, |i: int| 0u8));
        }
        SidInfo {
            title: String::new(),
            author: String::new(),
            released: String::new(),
            default_song: 0,
            number_of_songs: 0,
            clock_frequency: 0,
            speed_flag: 0,
            speed_flags: 0,
            init_address: 0,
            play_address: 0,
            load_address: 0,
            load_end_address: 0,
            stil_entry: None,
            md5_hash: String::new(),
            song_length: 0,
            mus_text,
            mus_colors,
            file_type: String::new(),
            file_format: String::new(),
            filename: String::new(),
            basic_sid: false,
            number_of_sids: 0,
            sid_models: Vec::new(),
            sid_addresses: Vec::new(),
            free_memory_address: 0,
            free_memory_end_address: 0,
        }
    }
}

impl Default for SidInfo {
    fn default() -> (r: Self)
        ensures
            r.is_empty(),
    {
        Self::new()
    }
}

} // verus!
