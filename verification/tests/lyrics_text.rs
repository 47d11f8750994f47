use smyx::lyrics::{lrc_stamp_readable, lrc_text_readable};
use smyx::subsonic::BytesReply;
use smyx::tasks::{choose_lyrics, fetch_lyrics_blocking, parse_lrc, parse_lrc_stamp};

fn document(json: &str) -> BytesReply {
    BytesReply::Response { status: 200, body: Ok(json.as_bytes().to_vec()) }
}

#[test]
fn test_parse_lrc_stamp() {
    assert_eq!(parse_lrc_stamp("01:23.45"), Some(83450));
    assert_eq!(parse_lrc_stamp("00:10"), Some(10000));
    assert_eq!(parse_lrc_stamp("invalid"), None);
}

#[test]
fn test_parse_lrc() {
    let lrc = "[00:10.00]First line\n[00:20.00]Second line";
    let parsed = parse_lrc(lrc);
    assert_eq!(parsed.len(), 2);
    assert_eq!(parsed[0], (10000, "First line".to_string()));
    assert_eq!(parsed[1], (20000, "Second line".to_string()));
}

#[test]
fn fractions_are_thousandths() {
    assert_eq!(parse_lrc_stamp("0:0.5"), Some(500));
    assert_eq!(parse_lrc_stamp("0:0.05"), Some(50));
    assert_eq!(parse_lrc_stamp("0:0.1239"), Some(123));
    assert_eq!(parse_lrc_stamp("0:1."), Some(1000));
    assert_eq!(parse_lrc_stamp("0:1.xyz"), Some(1000));
    assert_eq!(parse_lrc_stamp("+1:+2.3"), Some(62300));
    assert_eq!(parse_lrc_stamp("1:2:3"), None);
    assert_eq!(parse_lrc_stamp("1:"), None);
    assert_eq!(parse_lrc_stamp(":1"), None);
}

#[test]
fn times_that_are_too_large_are_told_apart() {
    assert!(lrc_stamp_readable("71582:47.295"));
    assert!(!lrc_stamp_readable("71582:47.296"));
    assert!(!lrc_stamp_readable("4294967295:00"));
    assert!(lrc_stamp_readable("not a time"));
    assert!(lrc_text_readable("[00:01.00]a\n[ar:someone]\n"));
    assert!(!lrc_text_readable("[00:01.00]a\n[99999:00.00]b"));
}

#[test]
fn one_line_can_have_several_times() {
    let parsed = parse_lrc("[00:30.00][00:10.00] chorus \n[00:20.00]verse\n[ti:Title]\nno time\n");
    assert_eq!(
        parsed,
        vec![
            (10000, "chorus".to_string()),
            (20000, "verse".to_string()),
            (30000, "chorus".to_string()),
        ]
    );
}

#[test]
fn lines_of_one_time_stay_in_their_order() {
    let parsed = parse_lrc("[00:05.00]b\n[00:05.00]a\n[00:01.00]");
    assert_eq!(
        parsed,
        vec![(1000, String::new()), (5000, "b".to_string()), (5000, "a".to_string())]
    );
}

#[test]
fn a_tag_behind_a_time_is_dropped_with_it() {
    assert_eq!(parse_lrc("[00:01.00] [x] text"), vec![(1000, "text".to_string())]);
    assert_eq!(parse_lrc("[x][00:01.00] text"), vec![]);
    assert_eq!(parse_lrc("[00:01.00 text"), vec![]);
}

#[test]
fn timed_lyrics_come_before_plain_ones() {
    let both = r#"{"syncedLyrics":"[00:01.50]one","plainLyrics":"plain"}"#;
    assert_eq!(
        fetch_lyrics_blocking(document(both)).unwrap(),
        (vec![(1500, "one".to_string())], true)
    );
    let plain = r#"{"syncedLyrics":"","plainLyrics":"first\r\nsecond\n"}"#;
    assert_eq!(
        fetch_lyrics_blocking(document(plain)).unwrap(),
        (vec![(0, "first".to_string()), (0, "second".to_string())], false)
    );
    let null = r#"{"syncedLyrics":null,"plainLyrics":null}"#;
    assert_eq!(fetch_lyrics_blocking(document(null)).unwrap(), (vec![], false));
}

#[test]
fn escapes_in_lyrics_are_read() {
    let json = r#"{"plainLyrics":"ü \"quoted\"\n🎵"}"#;
    assert_eq!(
        fetch_lyrics_blocking(document(json)).unwrap().0,
        vec![(0, "ü \"quoted\"".to_string()), (0, "🎵".to_string())]
    );
}

#[test]
fn what_is_no_document_has_no_lyrics() {
    for json in ["", "{", "[]", "\"syncedLyrics\"", "{\"plainLyrics\":5}", "nonsense"] {
        assert_eq!(fetch_lyrics_blocking(document(json)).unwrap(), (vec![], false), "{json}");
    }
    assert_eq!(
        fetch_lyrics_blocking(BytesReply::Failed("down".to_string())).unwrap(),
        (vec![], false)
    );
    let good = br#"{"plainLyrics":"x"}"#.to_vec();
    let missing = BytesReply::Response { status: 404, body: Ok(good) };
    assert_eq!(fetch_lyrics_blocking(missing).unwrap(), (vec![], false));
    let cut = BytesReply::Response { status: 200, body: Err("cut".to_string()) };
    assert_eq!(fetch_lyrics_blocking(cut).unwrap(), (vec![], false));
}

#[test]
fn lyrics_with_times_too_large_are_refused() {
    let json = r#"{"syncedLyrics":"[99999:00.00]x","plainLyrics":"plain"}"#;
    assert!(fetch_lyrics_blocking(document(json)).is_none());
}

#[test]
fn lyrics_are_chosen_from_two_texts() {
    let some = |s: &str| Some(s.to_string());
    assert_eq!(choose_lyrics(some("[0:1]a"), some("b")), (vec![(1000, "a".to_string())], true));
    assert_eq!(choose_lyrics(some("no times"), some("b")), (vec![], true));
    assert_eq!(choose_lyrics(None, some("b")), (vec![(0, "b".to_string())], false));
    assert_eq!(choose_lyrics(some(""), some("")), (vec![], false));
}

#[test]
fn joined_texts_give_the_lines_of_both() {
    let a = "[00:20.00]two\r\n[00:10.00]one\r";
    let b = "[00:10.00]uno\n\n[00:30.00]tres";
    let mut both = parse_lrc(a);
    both.extend(parse_lrc(b));
    both.sort_by_key(|(t, _)| *t);
    assert_eq!(parse_lrc(&format!("{a}\n{b}")), both);
    let words: Vec<&str> = both.iter().map(|(_, w)| w.as_str()).collect();
    assert_eq!(words, vec!["one", "uno", "two", "tres"]);
    assert_eq!(parse_lrc(&format!("\n{b}")), parse_lrc(b));
}
