use acid64c::player::sldb::Sldb;
use acid64c::player::stil::Stil;
use acid64c::utils::file::{read_buffer_as_lines, read_text_file_as_lines, split_lines};

const SLDB: &str = "\r\n[Database]\r\n; /MUSICIANS/H/Hubbard_Rob/Commando.sid\r\nabc123=3:30 0:05.500(G) x\r\n; /DEMOS/Other.sid\r\ndef456=1:00\r\n";

#[test]
fn lines_of_text() {
    assert_eq!(split_lines("a\r\nb\n\nc\r"), vec!["a", "b", "", "c\r"]);
    assert_eq!(split_lines(""), Vec::<String>::new());
    assert_eq!(split_lines("x\n"), vec!["x"]);
}

#[test]
fn windows_1252_decoding() {
    assert_eq!(read_buffer_as_lines(&[b'a', 0xe9, b'\n', 0x80]), vec!["aé", "€"]);
}

#[test]
fn text_files() {
    let r = read_text_file_as_lines("songs.txt", Ok((3, b"a\nb".to_vec())), Some(10));
    assert_eq!(r, Ok(vec!["a".to_string(), "b".to_string()]));
    let r = read_text_file_as_lines("songs.txt", Ok((30, b"a".to_vec())), Some(10));
    assert_eq!(r, Err("Error reading file: songs.txt -> File too large".to_string()));
    let r = read_text_file_as_lines("songs.txt", Err("not found".to_string()), None);
    assert_eq!(r, Err("Error reading file: songs.txt -> not found".to_string()));
}

#[test]
fn song_lengths_database() {
    let mut sldb = Sldb::new();
    assert_eq!(sldb.load_from_buffer(SLDB.as_bytes()), Ok(()));
    assert_eq!(sldb.get_song_length("abc123", 0), Some(210_000));
    assert_eq!(sldb.get_song_length("abc123", 1), Some(5_500));
    assert_eq!(sldb.get_song_length("abc123", 2), Some(300_000));
    assert_eq!(sldb.get_song_length("abc123", 3), None);
    assert_eq!(sldb.get_song_length("abc123", -1), None);
    assert_eq!(sldb.get_hvsc_filename("abc123"), Some("/MUSICIANS/H/Hubbard_Rob/Commando.sid".to_string()));
    assert_eq!(sldb.get_song_length("def456", 0), Some(60_000));
    assert_eq!(sldb.get_hvsc_filename("zzz"), None);
}

#[test]
fn song_lengths_format_errors() {
    let mut sldb = Sldb::new();
    assert_eq!(sldb.load_from_buffer(b"abc=1:00\n"), Err("Songlengths file format error".to_string()));
    let mut blank = "\n".repeat(21);
    blank.push_str("[Database]\n");
    assert_eq!(sldb.load_from_buffer(blank.as_bytes()), Err("Songlengths file format error".to_string()));
    assert_eq!(sldb.load_from_buffer(b"[Database]\n;\n"), Err("Songlengths file format error".to_string()));
    assert_eq!(sldb.load("/hvsc", None, None), Err("Songlengths file not found in: /hvsc".to_string()));
    assert_eq!(sldb.load("/hvsc", Some(("/hvsc/DOCUMENTS/Songlengths.md5".to_string(), Ok((SLDB.len() as u64, SLDB.as_bytes().to_vec())))), None), Ok(()));
    assert_eq!(sldb.get_song_length("def456", 0), Some(60_000));
}

#[test]
fn song_lengths_newer_file_first() {
    let older = "[Database]
; /OLD.sid
fff=0:01
";
    let older_file = Some(("/hvsc/DOCUMENTS/Songlengths.txt".to_string(), Ok((older.len() as u64, older.as_bytes().to_vec()))));
    let newer_file = Some(("/hvsc/DOCUMENTS/Songlengths.md5".to_string(), Ok((SLDB.len() as u64, SLDB.as_bytes().to_vec()))));
    let mut sldb = Sldb::new();
    assert_eq!(sldb.load("/hvsc", newer_file, older_file.clone()), Ok(()));
    assert_eq!(sldb.get_hvsc_filename("fff"), None);
    assert_eq!(sldb.get_song_length("def456", 0), Some(60_000));
    assert_eq!(sldb.load("/hvsc", None, older_file), Ok(()));
    assert_eq!(sldb.get_hvsc_filename("fff"), Some("/OLD.sid".to_string()));
    assert_eq!(sldb.get_hvsc_filename("def456"), None);
    let too_large = Some(("/hvsc/DOCUMENTS/Songlengths.md5".to_string(), Ok((1024 * 1024 * 1024 + 1, Vec::new()))));
    assert_eq!(
        sldb.load("/hvsc", too_large, None),
        Err("Error reading file: /hvsc/DOCUMENTS/Songlengths.md5 -> File too large".to_string())
    );
    assert_eq!(sldb.get_hvsc_filename("fff"), Some("/OLD.sid".to_string()));
}

const STIL: &str = "### comment\n/MUSICIANS/H/\nCOMMENT: Rob's folder\n/MUSICIANS/H/Hubbard_Rob/Commando.sid\n  TITLE: Commando\n\n/DEMOS/Other.sid\nCOMMENT: other\n";

#[test]
fn stil_entries() {
    let mut stil = Stil::new();
    assert_eq!(stil.load_from_buffer(STIL.as_bytes()), Ok(()));
    assert_eq!(stil.get_entry("/DEMOS/OTHER.SID"), Some("COMMENT: other".to_string()));
    assert_eq!(stil.get_entry("/musicians/h/hubbard_rob/commando.sid"), Some("COMMENT: Rob's folder\n  TITLE: Commando".to_string()));
    assert_eq!(stil.get_entry("/MUSICIANS/H/Other.sid"), Some("COMMENT: Rob's folder".to_string()));
    assert_eq!(stil.get_entry("/NONE.sid"), None);
    assert_eq!(stil.load_from_buffer(b"TITLE: x\n"), Err("STIL file format error".to_string()));
    assert_eq!(stil.load("/hvsc", None, None), Err("STIL file not found in: /hvsc".to_string()));
}
