//! The HVSC song length database: for each tune, keyed by its MD5 hash, its
//! HVSC file name and the length of each sub tune.
use vstd::prelude::*;
use vstd::hash_map::StringHashMap;
use crate::utils::file::{read_buffer_as_lines, read_text_file_as_lines, file_view, spec_read_text_file, string_views, text_lines, windows_1252_text};
use crate::utils::text::{
    find_char, lemma_find_char, parse_i32, spec_parse_i32, split_once, split_whitespace,
    starts_with, str_find_char, str_split_once, str_split_whitespace, str_starts_with, str_trim,
    str_trim_start, trim, trim_start, views_of,
};

verus! {

pub const MAX_SLDB_FILE_SIZE: u64 = 1073741824;

/// Blank lines allowed before the "[Database]" header.
pub const MAX_LINES_TO_VALIDATE: usize = 20;

/// An entry as contracts see it: HVSC file name and song lengths in millis.
pub type EntryView = (Seq<char>, Seq<i32>);

/// What reading the entry lines has built: the entries so far, and the
/// song lengths, MD5 hash and file name of the entry being read.
pub type ReadState = (Map<Seq<char>, EntryView>, Seq<i32>, Seq<char>, Seq<char>);

pub struct Sldb {
    pub songlengths: StringHashMap<(String, Vec<i32>)>,
}

pub open spec fn entry_view(v: (String, Vec<i32>)) -> EntryView {
    (v.0@, v.1@)
}

/// The header check: the first line that is not blank must start with
/// "[Database]" and come within the first lines allowed. Gives the index of
/// the first entry line.
pub open spec fn header_end(lines: Seq<Seq<char>>, i: nat) -> Option<nat>
    decreases lines.len() - i,
{
    if i >= lines.len() {
        None
    } else if trim_start(lines[i as int]).len() == 0 {
        if i >= MAX_LINES_TO_VALIDATE {
            None
        } else {
            header_end(lines, i + 1)
        }
    } else if starts_with(trim_start(lines[i as int]), "[Database]"@) {
        Some(i + 1)
    } else {
        None
    }
}

proof fn lemma_header_end_bound(lines: Seq<Seq<char>>, i: nat)
    ensures
        header_end(lines, i) matches Some(k) ==> k <= lines.len(),
    decreases lines.len() - i,
{
    if i < lines.len() && trim_start(lines[i as int]).len() == 0 && i < MAX_LINES_TO_VALIDATE {
        lemma_header_end_bound(lines, i + 1);
    }
}

/// A song length without its trailing indicators such as "(G)".
pub open spec fn spec_strip_indicators(s: Seq<char>) -> Seq<char> {
    s.take(find_char(s, '(') as int)
}

/// The number `s` reads as, or `default`.
pub open spec fn parse_or(s: Seq<char>, default: i32) -> i32 {
    match spec_parse_i32(s) {
        Some(v) => v,
        None => default,
    }
}

/// Minutes, seconds and millis of a song length "m:ss.mmm"; 5 minutes when
/// there is no ':'.
pub open spec fn time_parts(s: Seq<char>) -> (i32, i32, i32) {
    let (time, millis) = match split_once(s, '.') {
        Some((t, m)) => (t, parse_or(m, 0)),
        None => (s, 0),
    };
    match split_once(time, ':') {
        Some((m, sec)) => (parse_or(m, 5), parse_or(sec, 0), millis),
        None => (5, 0, millis),
    }
}

pub open spec fn in_i32(v: int) -> bool {
    i32::MIN <= v <= i32::MAX
}

/// Each step of `(minutes * 60 + seconds) * 1000 + millis` fits an `i32`.
pub open spec fn time_fits(s: Seq<char>) -> bool {
    let (m, sec, ms) = time_parts(s);
    &&& in_i32(m * 60)
    &&& in_i32(m * 60 + sec)
    &&& in_i32((m * 60 + sec) * 1000)
    &&& in_i32((m * 60 + sec) * 1000 + ms)
}

/// A song length in millis.
pub open spec fn spec_time_to_millis(s: Seq<char>) -> int {
    let (m, sec, ms) = time_parts(s);
    (m * 60 + sec) * 1000 + ms
}

/// The song lengths listed after the '=' of an entry line.
pub open spec fn lengths_of(text: Seq<char>) -> Seq<i32> {
    split_whitespace(text).map_values(
        |tok: Seq<char>| spec_time_to_millis(spec_strip_indicators(tok)) as i32,
    )
}

/// The first char of a trimmed line; '#' for an empty one.
pub open spec fn first_char(t: Seq<char>) -> char {
    if t.len() > 0 {
        t[0]
    } else {
        '#'
    }
}

/// An entry line that can be read: a file name line ("; name") has a one
/// byte char after the ';', and each song length fits an `i32`.
pub open spec fn entry_line_ok(line: Seq<char>) -> bool {
    let t = trim(line);
    if first_char(t) == '#' {
        true
    } else if first_char(t) == ';' {
        t.len() >= 2 && (t[1] as u32) < 0x80
    } else {
        match split_once(t, '=') {
            Some((_, lengths)) => lengths_fit(lengths),
            None => true,
        }
    }
}

/// Each song length listed in `lengths` fits an `i32`.
pub open spec fn lengths_fit(lengths: Seq<char>) -> bool {
    forall|j: int|
        0 <= j < split_whitespace(lengths).len() ==> time_fits(
            spec_strip_indicators(#[trigger] split_whitespace(lengths)[j]),
        )
}

/// Stores the entry being read, if it has song lengths.
pub open spec fn add_entry(st: ReadState) -> Map<Seq<char>, EntryView> {
    if st.1.len() > 0 {
        st.0.insert(st.2, (st.3, st.1))
    } else {
        st.0
    }
}

/// Reads one entry line: '#' comments are skipped, "; name" starts the
/// entry of a file, "hash=lengths" gives its hash and song lengths.
pub open spec fn read_step(st: ReadState, line: Seq<char>) -> ReadState {
    let t = trim(line);
    if first_char(t) == '#' {
        st
    } else if first_char(t) == ';' {
        (add_entry(st), seq![], st.2, t.skip(2))
    } else {
        match split_once(t, '=') {
            Some((hash, lengths)) => (st.0, st.1 + lengths_of(lengths), hash, st.3),
            None => st,
        }
    }
}

pub open spec fn read_start() -> ReadState {
    (Map::empty(), seq![], seq![], seq![])
}

/// The state after the first `n` of `lines`.
pub open spec fn read_prefix(lines: Seq<Seq<char>>, n: int) -> ReadState
    decreases n,
{
    if n <= 0 {
        read_start()
    } else {
        read_step(read_prefix(lines, n - 1), lines[n - 1])
    }
}

/// The entries of a whole song length file, or its format error.
pub open spec fn spec_read_sldb(lines: Seq<Seq<char>>) -> Result<Map<Seq<char>, EntryView>, Seq<char>> {
    match header_end(lines, 0) {
        None => Err("Songlengths file format error"@),
        Some(k) => {
            let body = lines.skip(k as int);
            if forall|i: int| 0 <= i < body.len() ==> entry_line_ok(#[trigger] body[i]) {
                Ok(add_entry(read_prefix(body, body.len() as int)))
            } else {
                Err("Songlengths file format error"@)
            }
        },
    }
}

pub open spec fn not_found(hvsc_path: Seq<char>) -> Seq<char> {
    "Songlengths file not found in: "@ + hvsc_path
}

/// A song length file as `load` takes it: its display path, and its size
/// and bytes or why it could not be opened.
pub open spec fn sldb_file_view(f: Option<(String, Result<(u64, Vec<u8>), String>)>) -> Option<(Seq<char>, Result<(u64, Seq<u8>), Seq<char>>)> {
    match f {
        Some((path, file)) => Some((path@, file_view(file))),
        None => None,
    }
}

/// The file that is read: the newer format when there is such a file.
pub open spec fn newer_file<F>(md5_file: Option<F>, txt_file: Option<F>) -> Option<F> {
    if md5_file is Some {
        md5_file
    } else {
        txt_file
    }
}

impl Sldb {
    /// The entries, by MD5 hash.
    pub open spec fn entries(&self) -> Map<Seq<char>, EntryView> {
        self.songlengths@.map_values(|v: (String, Vec<i32>)| entry_view(v))
    }

    /// `load` and `load_from_buffer` leave the database as `r` says: the
    /// entries read, or unchanged with the error.
    pub open spec fn loaded(&self, before: Map<Seq<char>, EntryView>, r: Result<(), String>, read: Result<Map<Seq<char>, EntryView>, Seq<char>>) -> bool {
        match read {
            Ok(m) => r is Ok && self.entries() == m,
            Err(e) => r is Err && r->Err_0@ == e && self.entries() == before,
        }
    }

    pub fn new() -> (r: Sldb)
        ensures
            r.entries() == Map::<Seq<char>, EntryView>::empty(),
    {
        let r = Sldb { songlengths: StringHashMap::new() };
        proof {
            assert(r.entries() =~= Map::<Seq<char>, EntryView>::empty());
        }
        r
    }

    /// The length in millis of sub tune `sub_tune` of the tune with hash
    /// `md5_hash`.
    pub fn get_song_length(&self, md5_hash: &str, sub_tune: i32) -> (r: Option<i32>)
        ensures
            r == (if self.entries().contains_key(md5_hash@) && 0 <= sub_tune
                < self.entries()[md5_hash@].1.len() {
                Some(self.entries()[md5_hash@].1[sub_tune as int])
            } else {
                None::<i32>
            }),
    {
        match self.songlengths.get(md5_hash) {
            Some(entry) => {
                if 0 <= sub_tune && (sub_tune as usize) < entry.1.len() {
                    Some(entry.1[sub_tune as usize])
                } else {
                    None
                }
            },
            None => None,
        }
    }

    /// The HVSC file name of the tune with hash `md5_hash`.
    pub fn get_hvsc_filename(&self, md5_hash: &str) -> (r: Option<String>)
        ensures
            match r {
                Some(name) => self.entries().contains_key(md5_hash@) && name@
                    == self.entries()[md5_hash@].0,
                None => !self.entries().contains_key(md5_hash@),
            },
    {
        match self.songlengths.get(md5_hash) {
            Some(entry) => Some(entry.0.clone()),
            None => None,
        }
    }

    /// What `load` leaves when it reads `file` (its display path and what
    /// opening it gave) for the HVSC at `hvsc_path`: the entries read, or
    /// the database unchanged with the error; no file is "not found".
    pub open spec fn loaded_from_hvsc(
        &self,
        before: Map<Seq<char>, EntryView>,
        r: Result<(), String>,
        hvsc_path: Seq<char>,
        file: Option<(Seq<char>, Result<(u64, Seq<u8>), Seq<char>>)>,
    ) -> bool {
        match file {
            None => r is Err && r->Err_0@ == not_found(hvsc_path) && self.entries() == before,
            Some((path, f)) => match spec_read_text_file(path, f, Some(MAX_SLDB_FILE_SIZE)) {
                Err(e) => r is Err && r->Err_0@ == e && self.entries() == before,
                Ok(lines) => self.loaded(before, r, spec_read_sldb(lines)),
            },
        }
    }

    /// Loads the database of the HVSC at `hvsc_path`. `md5_file` and
    /// `txt_file` are its song length files in the newer and the older
    /// format, each with its display path and what opening it gave, `None`
    /// where there is no such file. The newer file is read when there is one.
    pub fn load(
        &mut self,
        hvsc_path: &str,
        md5_file: Option<(String, Result<(u64, Vec<u8>), String>)>,
        txt_file: Option<(String, Result<(u64, Vec<u8>), String>)>,
    ) -> (r: Result<(), String>)
        ensures
            final(self).loaded_from_hvsc(
                old(self).entries(),
                r,
                hvsc_path@,
                newer_file(sldb_file_view(md5_file), sldb_file_view(txt_file)),
            ),
    {
        let sldb_file = if md5_file.is_some() {
            md5_file
        } else {
            txt_file
        };
        match sldb_file {
            None => {
                let mut message = String::from_str("Songlengths file not found in: ");
                message.append(hvsc_path);
                Err(message)
            },
            Some((path, file)) => {
                let lines = read_text_file_as_lines(path.as_str(), file, Some(MAX_SLDB_FILE_SIZE))?;
                self.process_lines(&lines)
            },
        }
    }

    /// Loads the database from the bytes of a song length file.
    pub fn load_from_buffer(&mut self, buffer: &[u8]) -> (r: Result<(), String>)
        ensures
            final(self).loaded(old(self).entries(), r, spec_read_sldb(text_lines(windows_1252_text(buffer@)))),
    {
        let lines = read_buffer_as_lines(buffer);
        self.process_lines(&lines)
    }

    fn process_lines(&mut self, lines: &Vec<String>) -> (r: Result<(), String>)
        ensures
            final(self).loaded(old(self).entries(), r, spec_read_sldb(string_views(lines@))),
    {
        let ghost all = string_views(lines@);
        let start = match Self::validate_file_format(lines) {
            Ok(k) => k,
            Err(e) => return Err(e),
        };
        let ghost body = all.skip(start as int);
        proof {
            lemma_header_end_bound(all, 0);
        }
        if !Self::entry_lines_ok(lines, start) {
            return Err(String::from_str("Songlengths file format error"));
        }
        let mut song_lengths: Vec<i32> = Vec::new();
        let mut md5_hash = String::new();
        let mut hvsc_filename = String::new();
        self.songlengths.clear();
        let mut i: usize = start;
        proof {
            assert(self.entries() =~= Map::<Seq<char>, EntryView>::empty());
        }
        while i < lines.len()
            invariant
                start <= i <= lines.len(),
                all == string_views(lines@),
                body == all.skip(start as int),
                forall|j: int| 0 <= j < body.len() ==> entry_line_ok(#[trigger] body[j]),
                (self.entries(), song_lengths@, md5_hash@, hvsc_filename@) == read_prefix(
                    body,
                    i - start,
                ),
            decreases lines.len() - i,
        {
            proof {
                assert(body[i - start] == lines@[i as int]@);
            }
            self.process_line(&mut song_lengths, &mut md5_hash, &mut hvsc_filename, &lines[i]);
            i = i + 1;
        }
        self.add_sldb_entry(&hvsc_filename, &song_lengths, &md5_hash);
        proof {
            assert(body.len() == lines.len() - start);
        }
        Ok(())
    }

    fn entry_lines_ok(lines: &Vec<String>, start: usize) -> (r: bool)
        requires
            start <= lines.len(),
        ensures
            r == (forall|j: int|
                0 <= j < string_views(lines@).skip(start as int).len() ==> entry_line_ok(
                    #[trigger] string_views(lines@).skip(start as int)[j],
                )),
    {
        let ghost body = string_views(lines@).skip(start as int);
        let mut i: usize = start;
        while i < lines.len()
            invariant
                start <= i <= lines.len(),
                body == string_views(lines@).skip(start as int),
                forall|j: int| 0 <= j < i - start ==> entry_line_ok(#[trigger] body[j]),
            decreases lines.len() - i,
        {
            proof {
                assert(body[i - start] == lines@[i as int]@);
            }
            if !Self::line_ok(lines[i].as_str()) {
                return false;
            }
            i = i + 1;
        }
        true
    }

    fn line_ok(line: &str) -> (r: bool)
        ensures
            r == entry_line_ok(line@),
    {
        let t = str_trim(line);
        let n = t.unicode_len();
        let first = if n > 0 {
            t.get_char(0)
        } else {
            '#'
        };
        if first == '#' {
            true
        } else if first == ';' {
            n >= 2 && (t.get_char(1) as u32) < 0x80
        } else {
            match str_split_once(t, '=') {
                Some((hash, lengths)) => {
                    proof {
                        assert(first_char(trim(line@)) != '#' && first_char(trim(line@)) != ';');
                        assert(split_once(trim(line@), '=') == Some((hash@, lengths@)));
                        assert(entry_line_ok(line@) == lengths_fit(lengths@));
                    }
                    let tokens = str_split_whitespace(lengths);
                    let mut j: usize = 0;
                    while j < tokens.len()
                        invariant
                            j <= tokens.len(),
                            entry_line_ok(line@) == lengths_fit(lengths@),
                            views_of(tokens@) == split_whitespace(lengths@),
                            forall|k: int|
                                0 <= k < j ==> time_fits(
                                    spec_strip_indicators(#[trigger] split_whitespace(lengths@)[k]),
                                ),
                        decreases tokens.len() - j,
                    {
                        proof {
                            assert(views_of(tokens@)[j as int] == tokens@[j as int]@);
                        }
                        if !Self::time_fits(Self::strip_indicators(tokens[j])) {
                            proof {
                                assert(!time_fits(spec_strip_indicators(split_whitespace(lengths@)[j as int])));
                                assert(!lengths_fit(lengths@));
                            }
                            return false;
                        }
                        j = j + 1;
                    }
                    true
                },
                None => true,
            }
        }
    }

    fn time_parts(song_length: &str) -> (r: (i32, i32, i32))
        ensures
            r == time_parts(song_length@),
    {
        let (time, millis) = match str_split_once(song_length, '.') {
            Some((t, m)) => (t, Self::parse_or(m, 0)),
            None => (song_length, 0),
        };
        match str_split_once(time, ':') {
            Some((m, sec)) => (Self::parse_or(m, 5), Self::parse_or(sec, 0), millis),
            None => (5, 0, millis),
        }
    }

    fn parse_or(s: &str, default: i32) -> (r: i32)
        ensures
            r == parse_or(s@, default),
    {
        match parse_i32(s) {
            Some(v) => v,
            None => default,
        }
    }

    fn time_fits(song_length: &str) -> (r: bool)
        ensures
            r == time_fits(song_length@),
    {
        let (m, sec, ms) = Self::time_parts(song_length);
        let total: i64 = (m as i64 * 60 + sec as i64) * 1000 + ms as i64;
        let lo = i32::MIN as i64;
        let hi = i32::MAX as i64;
        let a: i64 = m as i64 * 60;
        let b: i64 = a + sec as i64;
        let c: i64 = b * 1000;
        lo <= a && a <= hi && lo <= b && b <= hi && lo <= c && c <= hi && lo <= total && total <= hi
    }

    fn process_line(
        &mut self,
        song_lengths: &mut Vec<i32>,
        md5_hash: &mut String,
        hvsc_filename: &mut String,
        line: &String,
    )
        requires
            entry_line_ok(line@),
        ensures
            (final(self).entries(), final(song_lengths)@, final(md5_hash)@, final(hvsc_filename)@)
                == read_step(
                (old(self).entries(), old(song_lengths)@, old(md5_hash)@, old(hvsc_filename)@),
                line@,
            ),
    {
        let sldb_text = str_trim(line.as_str());
        let n = sldb_text.unicode_len();
        let first = if n > 0 {
            sldb_text.get_char(0)
        } else {
            '#'
        };
        if first == '#' {
        } else if first == ';' {
            self.add_sldb_entry(hvsc_filename, song_lengths, md5_hash);
            song_lengths.clear();
            *hvsc_filename = String::from_str(sldb_text.substring_char(2, n));
        } else {
            if let Some((hash, lengths)) = str_split_once(sldb_text, '=') {
                proof {
                    assert(first_char(trim(line@)) != '#' && first_char(trim(line@)) != ';');
                    assert(split_once(trim(line@), '=') == Some((hash@, lengths@)));
                    assert(lengths_fit(lengths@));
                }
                *md5_hash = String::from_str(hash);
                let tokens = str_split_whitespace(lengths);
                let ghost before = song_lengths@;
                let ghost listed = lengths_of(lengths@);
                let mut j: usize = 0;
                while j < tokens.len()
                    invariant
                        j <= tokens.len(),
                        views_of(tokens@) == split_whitespace(lengths@),
                        listed == lengths_of(lengths@),
                        forall|k: int|
                            0 <= k < split_whitespace(lengths@).len() ==> time_fits(
                                spec_strip_indicators(#[trigger] split_whitespace(lengths@)[k]),
                            ),
                        song_lengths@ == before + listed.take(j as int),
                    decreases tokens.len() - j,
                {
                    proof {
                        assert(views_of(tokens@)[j as int] == tokens@[j as int]@);
                        assert(time_fits(spec_strip_indicators(split_whitespace(lengths@)[j as int])));
                    }
                    let song_length = Self::strip_indicators(tokens[j]);
                    let millis = Self::convert_time_to_millis(song_length);
                    song_lengths.push(millis);
                    proof {
                        assert(listed.take(j + 1) =~= listed.take(j as int).push(listed[j as int]));
                    }
                    j = j + 1;
                }
                proof {
                    assert(listed.take(tokens.len() as int) =~= listed);
                }
            }
        }
    }

    fn add_sldb_entry(&mut self, hvsc_filename: &String, song_lengths: &Vec<i32>, md5_hash: &String)
        ensures
            final(self).entries() == add_entry(
                (old(self).entries(), song_lengths@, md5_hash@, hvsc_filename@),
            ),
    {
        if song_lengths.len() > 0 {
            let lengths = song_lengths.clone();
            proof {
                assert(lengths@ =~= song_lengths@);
            }
            self.songlengths.insert(md5_hash.clone(), (hvsc_filename.clone(), lengths));
            proof {
                assert(final(self).entries() =~= old(self).entries().insert(
                    md5_hash@,
                    (hvsc_filename@, song_lengths@),
                ));
            }
        }
    }

    /// Checks the "[Database]" header and gives the index of the first
    /// entry line.
    fn validate_file_format(lines: &Vec<String>) -> (r: Result<usize, String>)
        ensures
            match r {
                Ok(k) => header_end(string_views(lines@), 0) == Some(k as nat),
                Err(e) => header_end(string_views(lines@), 0) is None && e@
                    == "Songlengths file format error"@,
            },
    {
        let ghost all = string_views(lines@);
        let mut index: usize = 0;
        while index < lines.len()
            invariant
                index <= lines.len(),
                index <= MAX_LINES_TO_VALIDATE,
                all == string_views(lines@),
                header_end(all, 0) == header_end(all, index as nat),
            decreases lines.len() - index,
        {
            proof {
                assert(all[index as int] == lines@[index as int]@);
            }
            let trimmed_line = str_trim_start(lines[index].as_str());
            if trimmed_line.unicode_len() == 0 {
                if index >= MAX_LINES_TO_VALIDATE {
                    return Err(String::from_str("Songlengths file format error"));
                }
                index = index + 1;
            } else if str_starts_with(trimmed_line, "[Database]") {
                return Ok(index + 1);
            } else {
                return Err(String::from_str("Songlengths file format error"));
            }
        }
        Err(String::from_str("Songlengths file format error"))
    }

    /// `song_length` up to its first '('.
    fn strip_indicators(song_length: &str) -> (r: &str)
        ensures
            r@ == spec_strip_indicators(song_length@),
    {
        let index = str_find_char(song_length, '(');
        proof {
            lemma_find_char(song_length@, '(');
        }
        song_length.substring_char(0, index)
    }

    /// A song length "m:ss.mmm" in millis.
    fn convert_time_to_millis(song_length: &str) -> (r: i32)
        requires
            time_fits(song_length@),
        ensures
            r == spec_time_to_millis(song_length@),
    {
        let (minutes, seconds, millis) = Self::time_parts(song_length);
        (minutes * 60 + seconds) * 1000 + millis
    }
}

/// `line` gives song lengths for the tune with MD5 hash `h`.
pub open spec fn hash_line(line: Seq<char>, h: Seq<char>) -> bool {
    let t = trim(line);
    &&& first_char(t) != '#'
    &&& first_char(t) != ';'
    &&& split_once(t, '=') is Some
    &&& (split_once(t, '=')->0).0 == h
}

proof fn lemma_keys_from_lines(body: Seq<Seq<char>>, k: int)
    requires
        0 <= k <= body.len(),
    ensures
        forall|key: Seq<char>|
            #[trigger] read_prefix(body, k).0.contains_key(key) ==> exists|j: int|
                0 <= j < k && #[trigger] hash_line(body[j], key),
        read_prefix(body, k).1.len() > 0 ==> exists|j: int| 0 <= j < k && #[trigger] hash_line(body[j], read_prefix(body, k).2),
    decreases k,
{
    if k > 0 {
        lemma_keys_from_lines(body, k - 1);
        let st = read_prefix(body, k - 1);
        let t = trim(body[k - 1]);
        if first_char(t) != '#' && first_char(t) != ';' && split_once(t, '=') is Some {
            assert(hash_line(body[k - 1], read_prefix(body, k).2));
        }
        assert forall|key: Seq<char>| #[trigger] read_prefix(body, k).0.contains_key(key) implies exists|j: int|
            0 <= j < k && #[trigger] hash_line(body[j], key) by {
            if !st.0.contains_key(key) {
                assert(key == st.2 && st.1.len() > 0);
            }
        }
    }
}

proof fn lemma_entry_kept(body: Seq<Seq<char>>, hash: Seq<char>, name: Seq<char>, lens: Seq<i32>, start: int, k: int)
    requires
        0 <= start <= k <= body.len(),
        read_prefix(body, start).0.contains_key(hash),
        read_prefix(body, start).0[hash] == (name, lens),
        read_prefix(body, start).2 == hash ==> read_prefix(body, start).1.len() == 0,
        forall|j: int| start <= j < body.len() ==> !(#[trigger] hash_line(body[j], hash)),
    ensures
        read_prefix(body, k).0.contains_key(hash),
        read_prefix(body, k).0[hash] == (name, lens),
        read_prefix(body, k).2 == hash ==> read_prefix(body, k).1.len() == 0,
    decreases k - start,
{
    if k > start {
        lemma_entry_kept(body, hash, name, lens, start, k - 1);
        let t = trim(body[k - 1]);
        if first_char(t) != '#' && first_char(t) != ';' && split_once(t, '=') is Some {
            assert(!hash_line(body[k - 1], hash));
        }
    }
}

/// In the song length file `lines`, entry line `i` (after the header) is
/// "; name", followed by exactly one line "hash=lengths" with at least one
/// length before the next "; " line or the end, and no later line gives
/// lengths for that hash.
pub open spec fn names_hash(lines: Seq<Seq<char>>, i: int, hash: Seq<char>, lengths: Seq<char>) -> bool {
    &&& header_end(lines, 0) is Some
    &&& {
        let body = lines.skip(header_end(lines, 0)->0 as int);
        &&& 0 <= i
        &&& i + 1 < body.len()
        &&& first_char(trim(body[i])) == ';'
        &&& hash_line(body[i + 1], hash)
        &&& split_once(trim(body[i + 1]), '=') == Some((hash, lengths))
        &&& lengths_of(lengths).len() > 0
        &&& i + 2 == body.len() || first_char(trim(body[i + 2])) == ';'
        &&& forall|j: int| i + 1 < j < body.len() ==> !(#[trigger] hash_line(body[j], hash))
    }
}

/// A database loaded from a song length file gives back each tune's file
/// name: with the entries read from `lines` (as `load` and
/// `load_from_buffer` leave them after `Ok`), `get_hvsc_filename(hash)`
/// answers the name on the "; " line; a hash that no line gives lengths for
/// is not in the database, so it answers `None`.
pub proof fn lemma_loaded_file_name(s: &Sldb, lines: Seq<Seq<char>>, i: int, hash: Seq<char>, lengths: Seq<char>)
    requires
        spec_read_sldb(lines) is Ok,
        s.entries() == spec_read_sldb(lines)->Ok_0,
        names_hash(lines, i, hash, lengths),
    ensures
        s.entries().contains_key(hash),
        s.entries()[hash].0 == trim(lines.skip(header_end(lines, 0)->0 as int)[i]).skip(2),
        forall|h: Seq<char>|
            #[trigger] s.entries().contains_key(h) ==> exists|j: int|
                0 <= j < lines.skip(header_end(lines, 0)->0 as int).len() && #[trigger] hash_line(
                    lines.skip(header_end(lines, 0)->0 as int)[j],
                    h,
                ),
{
    lemma_hvsc_file_name(lines, i, hash, lengths);
}

/// The song length file names each tune: when the line "; name" is followed
/// by exactly one line "hash=lengths" with at least one length before the
/// next "; " line (or the end), and no later line gives lengths for that
/// hash, the database read from the file holds `name` as the HVSC file name
/// of `hash`. A hash that no line gives lengths for is not in it.
pub proof fn lemma_hvsc_file_name(lines: Seq<Seq<char>>, i: int, hash: Seq<char>, lengths: Seq<char>)
    requires
        spec_read_sldb(lines) is Ok,
        names_hash(lines, i, hash, lengths),
    ensures
        spec_read_sldb(lines)->Ok_0.contains_key(hash),
        spec_read_sldb(lines)->Ok_0[hash].0 == trim(lines.skip(header_end(lines, 0)->0 as int)[i]).skip(2),
        forall|h: Seq<char>|
            #[trigger] spec_read_sldb(lines)->Ok_0.contains_key(h) ==> exists|j: int|
                0 <= j < lines.skip(header_end(lines, 0)->0 as int).len() && #[trigger] hash_line(
                    lines.skip(header_end(lines, 0)->0 as int)[j],
                    h,
                ),
{
    let body = lines.skip(header_end(lines, 0)->0 as int);
    let n = body.len() as int;
    let name = trim(body[i]).skip(2);
    let s1 = read_prefix(body, i + 1);
    assert(s1.1.len() == 0 && s1.3 == name);
    let s2 = read_prefix(body, i + 2);
    assert(s2.2 == hash && s2.3 == name && s2.1 == lengths_of(lengths));
    lemma_keys_from_lines(body, n);
    if i + 2 == n {
        assert(spec_read_sldb(lines)->Ok_0 == add_entry(s2));
    } else {
        let s3 = read_prefix(body, i + 3);
        assert(s3.0 == s2.0.insert(hash, (name, lengths_of(lengths))));
        assert(s3.2 == hash && s3.1.len() == 0);
        lemma_entry_kept(body, hash, name, lengths_of(lengths), i + 3, n);
        let fin = read_prefix(body, n);
        if fin.1.len() > 0 {
            assert(fin.2 != hash);
        }
    }
    assert forall|h: Seq<char>| #[trigger] spec_read_sldb(lines)->Ok_0.contains_key(h) implies exists|j: int|
        0 <= j < body.len() && #[trigger] hash_line(body[j], h) by {
        let fin = read_prefix(body, n);
        if !fin.0.contains_key(h) {
            assert(h == fin.2 && fin.1.len() > 0);
        }
    }
}

/// A database loaded from the bytes of a song length file gives back each
/// tune's file name: after `load_from_buffer(buffer)` answered `Ok`, the
/// entry line "; name" followed by exactly one line "hash=lengths" makes
/// `get_hvsc_filename(hash)` answer `name`; a hash that no line of the
/// buffer gives lengths for is not in the database, so it answers `None`.
pub proof fn lemma_buffer_file_name(
    s: &Sldb,
    before: Map<Seq<char>, EntryView>,
    buffer: Seq<u8>,
    i: int,
    hash: Seq<char>,
    lengths: Seq<char>,
)
    requires
        s.loaded(before, Ok(()), spec_read_sldb(text_lines(windows_1252_text(buffer)))),
        names_hash(text_lines(windows_1252_text(buffer)), i, hash, lengths),
    ensures
        s.entries().contains_key(hash),
        s.entries()[hash].0 == trim(
            text_lines(windows_1252_text(buffer)).skip(header_end(text_lines(windows_1252_text(buffer)), 0)->0 as int)[i],
        ).skip(2),
        forall|h: Seq<char>|
            #[trigger] s.entries().contains_key(h) ==> exists|j: int|
                0 <= j < text_lines(windows_1252_text(buffer)).skip(
                    header_end(text_lines(windows_1252_text(buffer)), 0)->0 as int,
                ).len() && #[trigger] hash_line(
                    text_lines(windows_1252_text(buffer)).skip(
                        header_end(text_lines(windows_1252_text(buffer)), 0)->0 as int,
                    )[j],
                    h,
                ),
{
    lemma_loaded_file_name(s, text_lines(windows_1252_text(buffer)), i, hash, lengths);
}

/// Loading the song lengths of an HVSC reads its newer file when there is
/// one and the older one otherwise: when the file read opened with bytes
/// `bytes` and is not too large, `load` leaves the same entries and gives
/// the same answer as `load_from_buffer(bytes)` from the same database.
pub proof fn lemma_load_newer_file(
    s1: &Sldb,
    r1: Result<(), String>,
    s2: &Sldb,
    r2: Result<(), String>,
    before: Map<Seq<char>, EntryView>,
    hvsc_path: Seq<char>,
    md5_file: Option<(Seq<char>, Result<(u64, Seq<u8>), Seq<char>>)>,
    txt_file: Option<(Seq<char>, Result<(u64, Seq<u8>), Seq<char>>)>,
    bytes: Seq<u8>,
)
    requires
        s1.loaded_from_hvsc(before, r1, hvsc_path, newer_file(md5_file, txt_file)),
        s2.loaded(before, r2, spec_read_sldb(text_lines(windows_1252_text(bytes)))),
        (md5_file matches Some((p, Ok((size, b)))) && size <= MAX_SLDB_FILE_SIZE && b == bytes) || (
        md5_file is None && (txt_file matches Some((p, Ok((size, b)))) && size <= MAX_SLDB_FILE_SIZE && b == bytes)),
    ensures
        s1.entries() == s2.entries(),
        r1 is Ok <==> r2 is Ok,
        r1 is Err ==> r1->Err_0@ == r2->Err_0@,
{
}

/// Without either song length file, `load` answers that none was found in
/// the HVSC and leaves the database as it was.
pub proof fn lemma_load_not_found(
    s: &Sldb,
    r: Result<(), String>,
    before: Map<Seq<char>, EntryView>,
    hvsc_path: Seq<char>,
)
    requires
        s.loaded_from_hvsc(before, r, hvsc_path, newer_file::<(Seq<char>, Result<(u64, Seq<u8>), Seq<char>>)>(None, None)),
    ensures
        r is Err,
        r->Err_0@ == not_found(hvsc_path),
        s.entries() == before,
{
}

} // verus!
