//! Text files as lines: Windows-1252 bytes decoded, then split where
//! `BufRead::lines` splits.
use vstd::prelude::*;
use std::io::Read;
use encoding_rs::WINDOWS_1252;
use encoding_rs_io::DecodeReaderBytesBuilder;
use crate::utils::text::{find_char, lemma_find_char, push_char, str_find_char};

verus! {

/// The char that Windows-1252 gives byte `b`: itself below 0x80 and from
/// 0xA0 on, a table for 0x80 to 0x9F (five of them stand for themselves).
pub open spec fn windows_1252_char(b: u8) -> char {
    match b {
        0x80 => '\u{20ac}',
        0x81 => '\u{0081}',
        0x82 => '\u{201a}',
        0x83 => '\u{0192}',
        0x84 => '\u{201e}',
        0x85 => '\u{2026}',
        0x86 => '\u{2020}',
        0x87 => '\u{2021}',
        0x88 => '\u{02c6}',
        0x89 => '\u{2030}',
        0x8a => '\u{0160}',
        0x8b => '\u{2039}',
        0x8c => '\u{0152}',
        0x8d => '\u{008d}',
        0x8e => '\u{017d}',
        0x8f => '\u{008f}',
        0x90 => '\u{0090}',
        0x91 => '\u{2018}',
        0x92 => '\u{2019}',
        0x93 => '\u{201c}',
        0x94 => '\u{201d}',
        0x95 => '\u{2022}',
        0x96 => '\u{2013}',
        0x97 => '\u{2014}',
        0x98 => '\u{02dc}',
        0x99 => '\u{2122}',
        0x9a => '\u{0161}',
        0x9b => '\u{203a}',
        0x9c => '\u{0153}',
        0x9d => '\u{009d}',
        0x9e => '\u{017e}',
        0x9f => '\u{0178}',
        _ => b as char,
    }
}

/// The text that `encoding_rs_io` reads from `bytes` when it decodes them
/// as Windows-1252: one char per byte, no byte order mark sniffed.
pub open spec fn windows_1252_text(bytes: Seq<u8>) -> Seq<char> {
    bytes.map_values(|b: u8| windows_1252_char(b))
}

/// Decodes `buffer` with a `DecodeReaderBytes` set to Windows-1252 and reads
/// all of it. With the encoding given explicitly the reader sniffs no byte
/// order mark, and Windows-1252 removes none.
/// Claimed: the text is the Windows-1252 decoding of the bytes, one char per
/// byte (the table of `encoding_rs`). Reading an in-memory
/// buffer through the transcoder meets no I/O error, and its output is valid
/// UTF-8, so `read_to_string` reads all of it.
#[verifier::external_body]
fn decode_windows_1252(buffer: &[u8]) -> (r: String)
    ensures
        r@ == windows_1252_text(buffer@),
{
    let mut text = String::new();
    let _ = DecodeReaderBytesBuilder::new().encoding(Some(WINDOWS_1252)).build(buffer).read_to_string(
        &mut text,
    );
    text
}

/// A line that a '\n' ended, without the '\r' before it.
pub open spec fn strip_cr(line: Seq<char>) -> Seq<char> {
    if line.len() > 0 && line.last() == '\r' {
        line.drop_last()
    } else {
        line
    }
}

/// The lines of `text` as `BufRead::lines` gives them: split after each
/// '\n', the '\n' and a '\r' right before it removed; a last line without
/// '\n' is kept as it is; no lines in empty text.
pub open spec fn text_lines(text: Seq<char>) -> Seq<Seq<char>>
    decreases text.len(),
{
    if text.len() == 0 {
        seq![]
    } else {
        let k = find_char(text, '\n');
        if k < text.len() {
            seq![strip_cr(text.take(k as int))] + text_lines(text.skip(k as int + 1))
        } else {
            seq![text]
        }
    }
}

pub open spec fn string_views(v: Seq<String>) -> Seq<Seq<char>> {
    v.map_values(|s: String| s@)
}

pub fn to_owned_string(s: &str) -> (r: String)
    ensures
        r@ == s@,
{
    String::from_str(s)
}

/// The lines of `text`.
pub fn split_lines(text: &str) -> (r: Vec<String>)
    ensures
        string_views(r@) == text_lines(text@),
{
    let mut r: Vec<String> = Vec::new();
    let mut rest: &str = text;
    proof {
        assert(string_views(r@) + text_lines(rest@) =~= text_lines(text@));
    }
    loop
        invariant
            string_views(r@) + text_lines(rest@) == text_lines(text@),
        decreases rest@.len(),
    {
        let n = rest.unicode_len();
        if n == 0 {
            proof {
                assert(string_views(r@) =~= text_lines(text@));
            }
            return r;
        }
        let k = str_find_char(rest, '\n');
        proof {
            lemma_find_char(rest@, '\n');
        }
        let ghost before = string_views(r@);
        if k < n {
            let mut end = k;
            if k > 0 && rest.get_char(k - 1) == '\r' {
                end = k - 1;
            }
            let line = rest.substring_char(0, end);
            proof {
                assert(line@ =~= strip_cr(rest@.take(k as int)));
            }
            r.push(to_owned_string(line));
            let next = rest.substring_char(k + 1, n);
            proof {
                assert(string_views(r@) =~= before.push(line@));
                assert(next@ =~= rest@.skip(k as int + 1));
                assert(string_views(r@) + text_lines(next@) =~= before + text_lines(rest@));
            }
            rest = next;
        } else {
            r.push(to_owned_string(rest));
            proof {
                assert(string_views(r@) =~= before + text_lines(rest@));
            }
            return r;
        }
    }
}

/// The lines of `buffer` read as Windows-1252 text.
pub fn read_buffer_as_lines(buffer: &[u8]) -> (r: Vec<String>)
    ensures
        string_views(r@) == text_lines(windows_1252_text(buffer@)),
{
    let text = decode_windows_1252(buffer);
    split_lines(text.as_str())
}

/// The message of a file that cannot be read.
pub open spec fn read_error(path: Seq<char>, error: Seq<char>) -> Seq<char> {
    "Error reading file: "@ + path + " -> "@ + error
}

/// The lines of a text file, or why it could not be read.
pub open spec fn spec_read_text_file(
    path: Seq<char>,
    file: Result<(u64, Seq<u8>), Seq<char>>,
    max_file_size: Option<u64>,
) -> Result<Seq<Seq<char>>, Seq<char>> {
    match file {
        Err(e) => Err(read_error(path, e)),
        Ok((size, bytes)) => if max_file_size is Some && size > max_file_size->0 {
            Err(read_error(path, "File too large"@))
        } else {
            Ok(text_lines(windows_1252_text(bytes)))
        },
    }
}

pub open spec fn file_view(file: Result<(u64, Vec<u8>), String>) -> Result<(u64, Seq<u8>), Seq<char>> {
    match file {
        Ok((size, bytes)) => Ok((size, bytes@)),
        Err(e) => Err(e@),
    }
}

/// The lines of the file shown as `config_path`. `file` is what opening it
/// gave: its size and its bytes, or the error text. A file larger than
/// `max_file_size` is refused.
pub fn read_text_file_as_lines(
    config_path: &str,
    file: Result<(u64, Vec<u8>), String>,
    max_file_size: Option<u64>,
) -> (r: Result<Vec<String>, String>)
    ensures
        match r {
            Ok(lines) => spec_read_text_file(config_path@, file_view(file), max_file_size) == Ok::<
                Seq<Seq<char>>,
                Seq<char>,
            >(string_views(lines@)),
            Err(e) => spec_read_text_file(config_path@, file_view(file), max_file_size) == Err::<
                Seq<Seq<char>>,
                Seq<char>,
            >(e@),
        },
{
    match file {
        Err(error) => Err(reading_error(config_path, error.as_str())),
        Ok((size, bytes)) => {
            if let Some(max) = max_file_size {
                if size > max {
                    return Err(reading_error(config_path, "File too large"));
                }
            }
            Ok(read_buffer_as_lines(bytes.as_slice()))
        },
    }
}

fn reading_error(path: &str, error: &str) -> (r: String)
    ensures
        r@ == read_error(path@, error@),
{
    let mut message = String::from_str("Error reading file: ");
    message.append(path);
    message.append(" -> ");
    message.append(error);
    message
}

} // verus!
