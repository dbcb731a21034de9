//! The SID Tune Information List (STIL): comments on tunes, keyed by their
//! lower case HVSC path, and comments on whole directories (keys ending in
//! '/') that hold for every tune below them.
use vstd::prelude::*;
use ahash::AHashMap;
use crate::utils::file::{file_view, read_buffer_as_lines, read_text_file_as_lines, spec_read_text_file, string_views, text_lines, windows_1252_text};
use crate::utils::text::{
    ascii_lowercase, ends_with_char, join, str_ends_with_char, str_to_ascii_lowercase, str_trim,
    str_trim_end, trim, trim_end,
};

verus! {

pub const MAX_STIL_FILE_SIZE: u64 = 1073741824;

pub const MIN_STIL_ENTRIES_CAPACITY: usize = 20000;

pub const MIN_GLOBAL_ENTRIES_CAPACITY: usize = 300;

/// Lines looked at for the first tune or directory name.
pub const MAX_LINES_TO_VALIDATE: usize = 50;

#[verifier::external_type_specification]
#[verifier::external_body]
#[verifier::reject_recursive_types(K)]
#[verifier::reject_recursive_types(V)]
#[verifier::reject_recursive_types(S)]
pub struct ExAHashMap<K, V, S>(AHashMap<K, V, S>);

#[verifier::external_type_specification]
#[verifier::external_body]
pub struct ExRandomState(ahash::RandomState);

/// What an `AHashMap` of texts by text holds.
pub uninterp spec fn text_map(m: AHashMap<String, String>) -> Map<Seq<char>, Seq<char>>;

/// `AHashMap::with_capacity`: an empty map. Claimed: it holds nothing.
#[verifier::external_body]
fn text_map_with_capacity(capacity: usize) -> (r: AHashMap<String, String>)
    ensures
        text_map(r) =~= Map::empty(),
{
    AHashMap::with_capacity(capacity)
}

/// `AHashMap::get` with a copy of the value. Claimed: the value held for
/// the key, or `None` when the map holds none (keys compare as `String`s,
/// by their text).
#[verifier::external_body]
fn text_map_get(map: &AHashMap<String, String>, key: &str) -> (r: Option<String>)
    ensures
        match r {
            Some(v) => text_map(*map).contains_key(key@) && text_map(*map)[key@] == v@,
            None => !text_map(*map).contains_key(key@),
        },
{
    map.get(key).cloned()
}

/// `AHashMap::insert`. Claimed: the key now holds the value, the other keys
/// what they held.
#[verifier::external_body]
fn text_map_insert(map: &mut AHashMap<String, String>, key: String, value: String)
    ensures
        text_map(*final(map)) == text_map(*old(map)).insert(key@, value@),
{
    map.insert(key, value);
}

/// `HashMap::clear`, reached through the `DerefMut` of `AHashMap`.
/// Claimed: the map holds nothing.
#[verifier::external_body]
fn text_map_clear(map: &mut AHashMap<String, String>)
    ensures
        text_map(*final(map)) =~= Map::empty(),
{
    map.clear();
}

/// `Path::parent` of `path` as text. Claimed: a parent is shorter than the
/// path. Which parent it is depends on the platform's path separators and
/// is not stated.
#[verifier::external_body]
fn path_parent(path: &str) -> (r: Option<String>)
    ensures
        r matches Some(p) ==> p@.len() < path@.len(),
{
    std::path::Path::new(path).parent().map(|p| p.to_string_lossy().to_string())
}

/// The text of an optional string.
pub open spec fn opt_view(o: Option<String>) -> Option<Seq<char>> {
    match o {
        Some(x) => Some(x@),
        None => None,
    }
}

/// `parent` is what `path_parent` gave for `path`.
pub closed spec fn parent_step(path: Seq<char>, parent: Option<Seq<char>>) -> bool {
    exists|s: &str, out: Option<String>|
        #[trigger] call_ensures(path_parent, (s,), out) && s@ == path && opt_view(out) == parent
}

/// The directory `k` of `chain` is the parent of: `path` for the first,
/// the directory before it for the others.
pub open spec fn chain_prev(path: Seq<char>, chain: Seq<Seq<char>>, k: int) -> Seq<char> {
    if k == 0 {
        path
    } else {
        chain[k - 1]
    }
}

/// `chain` holds the parents of `path`, nearest first, up to one that has
/// no parent.
pub open spec fn parent_chain(path: Seq<char>, chain: Seq<Seq<char>>) -> bool {
    &&& forall|k: int| 0 <= k < chain.len() ==> parent_step(chain_prev(path, chain, k), Some(#[trigger] chain[k]))
    &&& parent_step(chain_prev(path, chain, chain.len() as int), None)
}

/// The comments on the directories of `chain` that have one, in order.
pub open spec fn chain_comments(global: Map<Seq<char>, Seq<char>>, chain: Seq<Seq<char>>) -> Seq<Seq<char>>
    decreases chain.len(),
{
    if chain.len() == 0 {
        seq![]
    } else {
        let rest = chain_comments(global, chain.drop_last());
        let key = chain.last() + "/"@;
        if global.contains_key(key) {
            rest.push(global[key])
        } else {
            rest
        }
    }
}

/// A tune's STIL text: the comments on the directories above it joined by
/// newlines, then its own entry on the next line; `None` when there is
/// neither.
pub open spec fn stil_entry_text(comments: Seq<Seq<char>>, own: Option<Seq<char>>) -> Option<Seq<char>> {
    match own {
        Some(e) => if comments.len() > 0 {
            Some(join(comments, '\n') + seq!['\n'] + e)
        } else {
            Some(e)
        },
        None => if comments.len() > 0 {
            Some(join(comments, '\n'))
        } else {
            None
        },
    }
}

/// `v` is the comment on some directory.
pub open spec fn is_global_comment(global: Map<Seq<char>, Seq<char>>, v: Seq<char>) -> bool {
    exists|k: Seq<char>| #[trigger] global.contains_key(k) && global[k] == v
}

/// `t` is some directory comments joined by newlines.
pub open spec fn joins_global_comments(global: Map<Seq<char>, Seq<char>>, t: Seq<char>) -> bool {
    exists|vals: Seq<Seq<char>>|
        #![trigger join(vals, '\n')]
        vals.len() > 0 && t == join(vals, '\n') && forall|j: int|
            0 <= j < vals.len() ==> is_global_comment(global, #[trigger] vals[j])
}

/// `text` appended to what `map` holds for `key`, on a line of its own.
pub open spec fn upsert(map: Map<Seq<char>, Seq<char>>, key: Seq<char>, text: Seq<char>) -> Map<Seq<char>, Seq<char>> {
    if map.contains_key(key) {
        map.insert(key, map[key] + seq!['\n'] + text)
    } else {
        map.insert(key, text)
    }
}

/// What reading STIL lines has built: tune comments, directory comments,
/// the lines of the entry being read, its name and whether it is a
/// directory.
pub type StilState = (Map<Seq<char>, Seq<char>>, Map<Seq<char>, Seq<char>>, Seq<Seq<char>>, Seq<char>, bool);

/// Stores the entry being read, if it has lines.
pub open spec fn add_stil(st: StilState) -> (Map<Seq<char>, Seq<char>>, Map<Seq<char>, Seq<char>>) {
    if st.2.len() > 0 {
        let text = join(st.2, '\n');
        if st.4 {
            (st.0, upsert(st.1, st.3, text))
        } else {
            (upsert(st.0, st.3, text), st.1)
        }
    } else {
        (st.0, st.1)
    }
}

pub open spec fn first_or_hash(t: Seq<char>) -> char {
    if t.len() > 0 {
        t[0]
    } else {
        '#'
    }
}

/// Reads one STIL line: comments are skipped, a line starting with '/'
/// names the next entry (a directory when it ends with '/'), any other line
/// belongs to the entry.
pub open spec fn stil_step(st: StilState, line: Seq<char>) -> StilState {
    let t = trim_end(line);
    if first_or_hash(t) == '#' {
        st
    } else if first_or_hash(t) == '/' {
        let (info, global) = add_stil(st);
        (info, global, seq![], ascii_lowercase(t), ends_with_char(t, '/'))
    } else {
        (st.0, st.1, st.2.push(line), st.3, st.4)
    }
}

pub open spec fn stil_prefix(start: StilState, lines: Seq<Seq<char>>, n: int) -> StilState
    decreases n,
{
    if n <= 0 {
        start
    } else {
        stil_step(stil_prefix(start, lines, n - 1), lines[n - 1])
    }
}

/// The first name in a STIL file, with the index of the line after it and
/// whether it names a directory: comment lines may come first, within the
/// first lines allowed.
pub open spec fn stil_header(lines: Seq<Seq<char>>, i: nat) -> Option<(nat, Seq<char>, bool)>
    decreases lines.len() - i,
{
    if i >= lines.len() || i >= MAX_LINES_TO_VALIDATE {
        None
    } else if first_or_hash(trim(lines[i as int])) == '#' {
        stil_header(lines, i + 1)
    } else if first_or_hash(trim(lines[i as int])) == '/' {
        Some((i + 1, ascii_lowercase(trim(lines[i as int])), ends_with_char(trim(lines[i as int]), '/')))
    } else {
        None
    }
}

/// What reading the lines of a STIL file adds to the comments `info` and
/// `global`, or its format error.
pub open spec fn spec_read_stil(info: Map<Seq<char>, Seq<char>>, global: Map<Seq<char>, Seq<char>>, lines: Seq<Seq<char>>) -> Result<(Map<Seq<char>, Seq<char>>, Map<Seq<char>, Seq<char>>), Seq<char>> {
    match stil_header(lines, 0) {
        None => Err("STIL file format error"@),
        Some((k, name, is_dir)) => {
            let body = lines.skip(k as int);
            Ok(add_stil(stil_prefix((info, global, seq![], name, is_dir), body, body.len() as int)))
        },
    }
}

proof fn lemma_stil_header_bound(lines: Seq<Seq<char>>, i: nat)
    ensures
        stil_header(lines, i) matches Some((k, _, _)) ==> k <= lines.len(),
    decreases lines.len() - i,
{
    if i < lines.len() && i < MAX_LINES_TO_VALIDATE && first_or_hash(trim(lines[i as int])) == '#' {
        lemma_stil_header_bound(lines, i + 1);
    }
}

/// `parts` joined with newlines.
fn join_lines(parts: &Vec<String>) -> (r: String)
    ensures
        r@ == join(string_views(parts@), '\n'),
{
    let mut r = String::new();
    let mut i: usize = 0;
    while i < parts.len()
        invariant
            i <= parts.len(),
            r@ == join(string_views(parts@).take(i as int), '\n'),
        decreases parts.len() - i,
    {
        let ghost before = r@;
        if i > 0 {
            crate::utils::text::push_char(&mut r, '\n');
        }
        r.append(parts[i].as_str());
        proof {
            let v = string_views(parts@);
            assert(v.take(i + 1).drop_last() =~= v.take(i as int));
            if i == 0 {
                assert(v.take(1) =~= seq![v[0]]);
                assert(r@ =~= v[0]);
            } else {
                assert(r@ =~= before.push('\n') + v[i as int]);
            }
        }
        i = i + 1;
    }
    proof {
        assert(string_views(parts@).take(parts.len() as int) =~= string_views(parts@));
    }
    r
}

pub struct Stil {
    stil_info: AHashMap<String, String>,
    global_comments: AHashMap<String, String>,
}

impl Stil {
    /// Comments on tunes, by lower case HVSC path.
    pub closed spec fn info(&self) -> Map<Seq<char>, Seq<char>> {
        text_map(self.stil_info)
    }

    /// Comments on directories, by lower case HVSC path ending in '/'.
    pub closed spec fn global(&self) -> Map<Seq<char>, Seq<char>> {
        text_map(self.global_comments)
    }

    pub open spec fn loaded(&self, before: &Stil, r: Result<(), String>, read: Result<(Map<Seq<char>, Seq<char>>, Map<Seq<char>, Seq<char>>), Seq<char>>) -> bool {
        match read {
            Ok((info, global)) => r is Ok && self.info() == info && self.global() == global,
            Err(e) => r is Err && r->Err_0@ == e && self.info() == before.info() && self.global() == before.global(),
        }
    }

    pub fn new() -> (r: Stil)
        ensures
            r.info() == Map::<Seq<char>, Seq<char>>::empty(),
            r.global() == Map::<Seq<char>, Seq<char>>::empty(),
    {
        Stil {
            stil_info: text_map_with_capacity(MIN_STIL_ENTRIES_CAPACITY),
            global_comments: text_map_with_capacity(MIN_GLOBAL_ENTRIES_CAPACITY),
        }
    }

    /// Loads STIL from the HVSC at `hvsc_path`. `stil_file` is the STIL file
    /// found there (its display path and what opening it gave), `None` when
    /// there is none; `bug_list_file` the bug list found beside it, if any.
    /// The bug list adds to the comments of STIL.
    pub fn load(
        &mut self,
        hvsc_path: &str,
        stil_file: Option<(String, Result<(u64, Vec<u8>), String>)>,
        bug_list_file: Option<(String, Result<(u64, Vec<u8>), String>)>,
    ) -> (r: Result<(), String>)
        ensures
            stil_file is None ==> r is Err && r->Err_0@ == "STIL file not found in: "@ + hvsc_path@
                && final(self).info() == old(self).info() && final(self).global() == old(self).global(),
            stil_file matches Some((path, file)) ==> match spec_read_text_file(path@, file_view(file), Some(MAX_STIL_FILE_SIZE)) {
                Err(e) => r is Err && r->Err_0@ == e && final(self).info() == Map::<Seq<char>, Seq<char>>::empty() && final(self).global() == Map::<Seq<char>, Seq<char>>::empty(),
                Ok(lines) => match spec_read_stil(Map::empty(), Map::empty(), lines) {
                    Err(e) => r is Err && r->Err_0@ == e && final(self).info() == Map::<Seq<char>, Seq<char>>::empty() && final(self).global() == Map::<Seq<char>, Seq<char>>::empty(),
                    Ok((info, global)) => match bug_list_file {
                        None => r is Ok && final(self).info() == info && final(self).global() == global,
                        Some((bug_path, bug_file)) => match spec_read_text_file(bug_path@, file_view(bug_file), Some(MAX_STIL_FILE_SIZE)) {
                            Err(e) => r is Err && r->Err_0@ == e && final(self).info() == info && final(self).global() == global,
                            Ok(bug_lines) => match spec_read_stil(info, global, bug_lines) {
                                Ok((info2, global2)) => r is Ok && final(self).info() == info2 && final(self).global() == global2,
                                Err(e) => r is Err && r->Err_0@ == e && final(self).info() == info && final(self).global() == global,
                            },
                        },
                    },
                },
            },
    {
        let (path, file) = match stil_file {
            Some(found) => found,
            None => {
                let mut message = String::from_str("STIL file not found in: ");
                message.append(hvsc_path);
                return Err(message);
            },
        };
        text_map_clear(&mut self.stil_info);
        text_map_clear(&mut self.global_comments);
        let lines = read_text_file_as_lines(path.as_str(), file, Some(MAX_STIL_FILE_SIZE))?;
        self.process_lines(&lines)?;
        if let Some((bug_path, bug_file)) = bug_list_file {
            let bug_lines = read_text_file_as_lines(bug_path.as_str(), bug_file, Some(MAX_STIL_FILE_SIZE))?;
            self.process_lines(&bug_lines)?;
        }
        Ok(())
    }

    /// Loads STIL from the bytes of a STIL file.
    pub fn load_from_buffer(&mut self, buffer: &[u8]) -> (r: Result<(), String>)
        ensures
            match spec_read_stil(Map::empty(), Map::empty(), text_lines(windows_1252_text(buffer@))) {
                Ok((info, global)) => r is Ok && final(self).info() == info && final(self).global() == global,
                Err(e) => r is Err && r->Err_0@ == e && final(self).info() == Map::<Seq<char>, Seq<char>>::empty()
                    && final(self).global() == Map::<Seq<char>, Seq<char>>::empty(),
            },
    {
        text_map_clear(&mut self.stil_info);
        text_map_clear(&mut self.global_comments);
        let lines = read_buffer_as_lines(buffer);
        self.process_lines(&lines)
    }

    fn process_lines(&mut self, lines: &Vec<String>) -> (r: Result<(), String>)
        ensures
            final(self).loaded(old(self), r, spec_read_stil(old(self).info(), old(self).global(), string_views(lines@))),
    {
        let ghost all = string_views(lines@);
        let (start, name, is_dir) = match Self::validate_file_format(lines) {
            Ok(h) => h,
            Err(e) => return Err(e),
        };
        proof {
            lemma_stil_header_bound(all, 0);
        }
        let ghost body = all.skip(start as int);
        let ghost initial: StilState = (self.info(), self.global(), seq![], name@, is_dir);
        let mut stil_entry: Vec<String> = Vec::new();
        let mut stil_filename = name;
        let mut global = is_dir;
        let mut i: usize = start;
        while i < lines.len()
            invariant
                start <= i <= lines.len(),
                all == string_views(lines@),
                body == all.skip(start as int),
                (self.info(), self.global(), string_views(stil_entry@), stil_filename@, global) == stil_prefix(
                    initial,
                    body,
                    i - start,
                ),
            decreases lines.len() - i,
        {
            proof {
                assert(body[i - start] == lines@[i as int]@);
            }
            self.process_line(lines[i].as_str(), &mut stil_entry, &mut stil_filename, &mut global);
            i = i + 1;
        }
        self.add_stil_entry(&stil_filename, &stil_entry, global);
        proof {
            assert(body.len() == lines.len() - start);
        }
        Ok(())
    }

    fn process_line(&mut self, line: &str, stil_entry: &mut Vec<String>, stil_filename: &mut String, global: &mut bool)
        ensures
            (final(self).info(), final(self).global(), string_views(final(stil_entry)@), final(stil_filename)@, *final(global))
                == stil_step(
                (old(self).info(), old(self).global(), string_views(old(stil_entry)@), old(stil_filename)@, *old(global)),
                line@,
            ),
    {
        let stil_text = str_trim_end(line);
        let first = if stil_text.unicode_len() > 0 {
            stil_text.get_char(0)
        } else {
            '#'
        };
        if first == '#' {
        } else if first == '/' {
            self.add_stil_entry(stil_filename, stil_entry, *global);
            stil_entry.clear();
            *global = str_ends_with_char(stil_text, '/');
            *stil_filename = str_to_ascii_lowercase(stil_text);
            proof {
                assert(string_views(stil_entry@) =~= Seq::<Seq<char>>::empty());
            }
        } else {
            let ghost before = string_views(stil_entry@);
            stil_entry.push(String::from_str(line));
            proof {
                assert(string_views(stil_entry@) =~= before.push(line@));
            }
        }
    }

    fn add_stil_entry(&mut self, stil_filename: &String, stil_entry: &Vec<String>, global: bool)
        ensures
            (final(self).info(), final(self).global()) == add_stil(
                (old(self).info(), old(self).global(), string_views(stil_entry@), stil_filename@, global),
            ),
    {
        if stil_entry.len() > 0 {
            let text = join_lines(stil_entry);
            if global {
                Self::upsert_text(&mut self.global_comments, stil_filename, text);
            } else {
                Self::upsert_text(&mut self.stil_info, stil_filename, text);
            }
        }
    }

    fn upsert_text(map: &mut AHashMap<String, String>, key: &String, text: String)
        ensures
            text_map(*final(map)) == upsert(text_map(*old(map)), key@, text@),
    {
        match text_map_get(map, key.as_str()) {
            Some(existing) => {
                let mut joined = existing;
                crate::utils::text::push_char(&mut joined, '\n');
                joined.append(text.as_str());
                let k = key.clone();
                proof {
                    assert(k@ == key@);
                    assert(joined@ == text_map(*old(map))[key@] + seq!['\n'] + text@);
                }
                text_map_insert(map, k, joined);
            },
            None => {
                let k = key.clone();
                proof {
                    assert(k@ == key@);
                }
                text_map_insert(map, k, text);
            },
        }
    }

    /// Finds the first name in the file and gives the index of the line
    /// after it, the name in lower case and whether it names a directory.
    fn validate_file_format(lines: &Vec<String>) -> (r: Result<(usize, String, bool), String>)
        ensures
            match r {
                Ok((k, name, is_dir)) => stil_header(string_views(lines@), 0) == Some((k as nat, name@, is_dir)),
                Err(e) => stil_header(string_views(lines@), 0) is None && e@ == "STIL file format error"@,
            },
    {
        let ghost all = string_views(lines@);
        let mut index: usize = 0;
        while index < lines.len()
            invariant
                index <= lines.len(),
                all == string_views(lines@),
                stil_header(all, 0) == stil_header(all, index as nat),
            decreases lines.len() - index,
        {
            proof {
                assert(all[index as int] == lines@[index as int]@);
            }
            if index >= MAX_LINES_TO_VALIDATE {
                return Err(String::from_str("STIL file format error"));
            }
            let trimmed_line = str_trim(lines[index].as_str());
            let first = if trimmed_line.unicode_len() > 0 {
                trimmed_line.get_char(0)
            } else {
                '#'
            };
            if first == '#' {
                index = index + 1;
            } else if first == '/' {
                let is_dir = str_ends_with_char(trimmed_line, '/');
                let name = str_to_ascii_lowercase(trimmed_line);
                return Ok((index + 1, name, is_dir));
            } else {
                return Err(String::from_str("STIL file format error"));
            }
        }
        Err(String::from_str("STIL file format error"))
    }

    /// The comments on the directories above `sid_file_name` (a lower case
    /// HVSC path), nearest first, joined by newlines; `None` when there are
    /// none.
    fn get_global_entries(&self, sid_file_name: &str) -> (r: Option<String>)
        ensures
            r matches Some(t) ==> joins_global_comments(self.global(), t@),
            exists|chain: Seq<Seq<char>>|
                #[trigger] parent_chain(sid_file_name@, chain) && match r {
                    Some(t) => chain_comments(self.global(), chain).len() > 0 && t@ == join(
                        chain_comments(self.global(), chain),
                        '\n',
                    ),
                    None => chain_comments(self.global(), chain).len() == 0,
                },
    {
        proof {
            reveal_strlit("/");
        }
        let mut global_entries: Vec<String> = Vec::new();
        let mut path = String::from_str(sid_file_name);
        let ghost mut chain: Seq<Seq<char>> = Seq::empty();
        loop
            invariant
                forall|j: int| 0 <= j < global_entries@.len() ==> is_global_comment(self.global(), (#[trigger] global_entries@[j])@),
                forall|k: int|
                    0 <= k < chain.len() ==> parent_step(chain_prev(sid_file_name@, chain, k), Some(#[trigger] chain[k])),
                path@ == chain_prev(sid_file_name@, chain, chain.len() as int),
                string_views(global_entries@) == chain_comments(self.global(), chain),
            ensures
                forall|j: int| 0 <= j < global_entries@.len() ==> is_global_comment(self.global(), (#[trigger] global_entries@[j])@),
                parent_chain(sid_file_name@, chain),
                string_views(global_entries@) == chain_comments(self.global(), chain),
            decreases path@.len(),
        {
            let step = path_parent(path.as_str());
            proof {
                assert(parent_step(path@, opt_view(step)));
            }
            let parent = match step {
                Some(p) => p,
                None => break,
            };
            let mut key = parent.clone();
            key.append("/");
            let ghost before = global_entries@;
            if let Some(comment) = text_map_get(&self.global_comments, key.as_str()) {
                proof {
                    assert(self.global().contains_key(key@) && self.global()[key@] == comment@);
                    assert(is_global_comment(self.global(), comment@));
                }
                global_entries.push(comment);
                proof {
                    assert(string_views(global_entries@) =~= string_views(before).push(comment@));
                }
            }
            proof {
                let old_chain = chain;
                chain = chain.push(parent@);
                assert(chain.drop_last() =~= old_chain);
                assert forall|k: int|
                    0 <= k < chain.len() implies parent_step(chain_prev(sid_file_name@, chain, k), Some(#[trigger] chain[k])) by {
                    if k < old_chain.len() {
                        assert(chain[k] == old_chain[k]);
                        assert(chain_prev(sid_file_name@, chain, k) == chain_prev(sid_file_name@, old_chain, k));
                    }
                }
            }
            path = parent;
        }
        if global_entries.len() > 0 {
            let text = join_lines(&global_entries);
            proof {
                let vals = string_views(global_entries@);
                assert forall|j: int| 0 <= j < vals.len() implies is_global_comment(self.global(), #[trigger] vals[j]) by {
                    assert(vals[j] == global_entries@[j]@);
                }
                assert(join(vals, '\n') == text@);
                assert(joins_global_comments(self.global(), text@));
            }
            Some(text)
        } else {
            None
        }
    }

    /// The STIL comments on the tune at HVSC path `sid_file_name` (in any
    /// case): the comments on the directories above it, then its own.
    pub fn get_entry(&self, sid_file_name: &str) -> (r: Option<String>)
        ensures
            self.info().contains_key(ascii_lowercase(sid_file_name@)) ==> (r matches Some(t) && (t@
                == self.info()[ascii_lowercase(sid_file_name@)] || exists|g: Seq<char>| #[trigger] (g + seq!['\n']
                + self.info()[ascii_lowercase(sid_file_name@)]) == t@)),
            !self.info().contains_key(ascii_lowercase(sid_file_name@)) ==> (r matches Some(t) ==> joins_global_comments(
                self.global(),
                t@,
            )),
            exists|chain: Seq<Seq<char>>|
                #[trigger] parent_chain(ascii_lowercase(sid_file_name@), chain) && opt_view(r) == stil_entry_text(
                    chain_comments(self.global(), chain),
                    if self.info().contains_key(ascii_lowercase(sid_file_name@)) {
                        Some(self.info()[ascii_lowercase(sid_file_name@)])
                    } else {
                        None
                    },
                ),
    {
        let name = str_to_ascii_lowercase(sid_file_name);
        let global_entries = self.get_global_entries(name.as_str());
        match text_map_get(&self.stil_info, name.as_str()) {
            Some(stil_entry) => match global_entries {
                Some(global_lines) => {
                    let mut text = global_lines;
                    let ghost g = text@;
                    crate::utils::text::push_char(&mut text, '\n');
                    text.append(stil_entry.as_str());
                    proof {
                        assert(g + seq!['\n'] + stil_entry@ == text@);
                    }
                    Some(text)
                },
                None => Some(stil_entry),
            },
            None => global_entries,
        }
    }
}

/// Every text `before` holds is still held by `after`, at its start.
pub open spec fn keeps_text(before: Map<Seq<char>, Seq<char>>, after: Map<Seq<char>, Seq<char>>) -> bool {
    forall|k: Seq<char>|
        #[trigger] before.contains_key(k) ==> after.contains_key(k) && before[k].is_prefix_of(after[k])
}

proof fn lemma_prefix_trans(a: Seq<char>, b: Seq<char>, c: Seq<char>)
    requires
        a.is_prefix_of(b),
        b.is_prefix_of(c),
    ensures
        a.is_prefix_of(c),
{
    assert(a =~= c.subrange(0, a.len() as int)) by {
        assert forall|i: int| 0 <= i < a.len() implies a[i] == c.subrange(0, a.len() as int)[i] by {
            assert(a[i] == b.subrange(0, a.len() as int)[i]);
            assert(b[i] == c.subrange(0, b.len() as int)[i]);
        }
    }
}

proof fn lemma_keeps_trans(a: Map<Seq<char>, Seq<char>>, b: Map<Seq<char>, Seq<char>>, c: Map<Seq<char>, Seq<char>>)
    requires
        keeps_text(a, b),
        keeps_text(b, c),
    ensures
        keeps_text(a, c),
{
    assert forall|k: Seq<char>| #[trigger] a.contains_key(k) implies c.contains_key(k) && a[k].is_prefix_of(c[k]) by {
        assert(b.contains_key(k));
        lemma_prefix_trans(a[k], b[k], c[k]);
    }
}

proof fn lemma_keeps_refl(a: Map<Seq<char>, Seq<char>>)
    ensures
        keeps_text(a, a),
{
    assert forall|k: Seq<char>| #[trigger] a.contains_key(k) implies a.contains_key(k) && a[k].is_prefix_of(a[k]) by {
        assert(a[k] =~= a[k].subrange(0, a[k].len() as int));
    }
}

/// Adding text for a name adds it after what the name already has, on a
/// line of its own, and leaves every other name alone: a name that had
/// text keeps it, followed by a newline and the new text; a new name gets
/// the text alone.
pub proof fn lemma_upsert_appends(map: Map<Seq<char>, Seq<char>>, key: Seq<char>, text: Seq<char>)
    ensures
        upsert(map, key, text).contains_key(key),
        map.contains_key(key) ==> upsert(map, key, text)[key].len() == map[key].len() + 1 + text.len()
            && upsert(map, key, text)[key].take(map[key].len() as int) == map[key]
            && upsert(map, key, text)[key][map[key].len() as int] == '\n'
            && upsert(map, key, text)[key].skip(map[key].len() + 1int) == text,
        !map.contains_key(key) ==> upsert(map, key, text)[key] == text,
        forall|k: Seq<char>| k != key ==> (#[trigger] upsert(map, key, text).contains_key(k) <==> map.contains_key(k)),
        forall|k: Seq<char>| k != key && map.contains_key(k) ==> #[trigger] upsert(map, key, text)[k] == map[k],
        keeps_text(map, upsert(map, key, text)),
{
    if map.contains_key(key) {
        let joined = map[key] + seq!['\n'] + text;
        assert(joined.take(map[key].len() as int) =~= map[key]);
        assert(joined.skip(map[key].len() + 1int) =~= text);
        assert(map[key] =~= joined.subrange(0, map[key].len() as int));
    }
    assert forall|k: Seq<char>| #[trigger] map.contains_key(k) implies upsert(map, key, text).contains_key(k)
        && map[k].is_prefix_of(upsert(map, key, text)[k]) by {
        if k == key {
            let joined = map[key] + seq!['\n'] + text;
            assert(map[key] =~= joined.subrange(0, map[key].len() as int));
        } else {
            assert(map[k] =~= map[k].subrange(0, map[k].len() as int));
        }
    }
}

proof fn lemma_add_stil_keeps(st: StilState)
    ensures
        keeps_text(st.0, add_stil(st).0),
        keeps_text(st.1, add_stil(st).1),
{
    lemma_keeps_refl(st.0);
    lemma_keeps_refl(st.1);
    if st.2.len() > 0 {
        lemma_upsert_appends(st.0, st.3, join(st.2, '\n'));
        lemma_upsert_appends(st.1, st.3, join(st.2, '\n'));
    }
}

proof fn lemma_stil_prefix_keeps(start: StilState, lines: Seq<Seq<char>>, n: int)
    ensures
        keeps_text(start.0, stil_prefix(start, lines, n).0),
        keeps_text(start.1, stil_prefix(start, lines, n).1),
    decreases n,
{
    if n <= 0 {
        lemma_keeps_refl(start.0);
        lemma_keeps_refl(start.1);
    } else {
        lemma_stil_prefix_keeps(start, lines, n - 1);
        let st = stil_prefix(start, lines, n - 1);
        lemma_add_stil_keeps(st);
        lemma_keeps_refl(st.0);
        lemma_keeps_refl(st.1);
        let t = trim_end(lines[n - 1]);
        if first_or_hash(t) == '/' {
            lemma_keeps_trans(start.0, st.0, add_stil(st).0);
            lemma_keeps_trans(start.1, st.1, add_stil(st).1);
        }
    }
}

/// Reading more STIL lines never loses text: after reading `lines` on top
/// of the comments `info` and `global` (as the bug list is read on top of
/// the STIL file), every tune and directory that had text still has it, at
/// the start of its text; an entry for a name already there adds to it.
pub proof fn lemma_read_stil_keeps_text(info: Map<Seq<char>, Seq<char>>, global: Map<Seq<char>, Seq<char>>, lines: Seq<Seq<char>>)
    requires
        spec_read_stil(info, global, lines) is Ok,
    ensures
        keeps_text(info, spec_read_stil(info, global, lines)->Ok_0.0),
        keeps_text(global, spec_read_stil(info, global, lines)->Ok_0.1),
{
    let (k, name, is_dir) = stil_header(lines, 0)->0;
    let body = lines.skip(k as int);
    let start: StilState = (info, global, seq![], name, is_dir);
    lemma_stil_prefix_keeps(start, body, body.len() as int);
    let st = stil_prefix(start, body, body.len() as int);
    lemma_add_stil_keeps(st);
    lemma_keeps_trans(info, st.0, add_stil(st).0);
    lemma_keeps_trans(global, st.1, add_stil(st).1);
}

} // verus!
