use keypress::events::Key;
use keypress::session::{Intent, Pronunc, Session, Status, CHAPTER_SIZE};
use keypress::vocab::{Level, VocabError, VocabStore, WordEntry};

fn entry(name: &str, trans: &str) -> WordEntry {
    WordEntry { name: name.to_string(), trans: vec![trans.to_string()] }
}

fn programmer_store(names: &[&str]) -> VocabStore {
    let words: Vec<WordEntry> = names.iter().map(|n| entry(n, "meaning")).collect();
    let levels = vec![Level { key: "Programmer".to_string(), words }];
    VocabStore::new(levels).expect("valid store")
}

fn session_with(names: &[&str]) -> Session {
    Session::new(programmer_store(names))
}

#[test]
fn fresh_session_defaults() {
    let s = session_with(&["array", "binary"]);
    assert_eq!(s.status, Status::Stopped);
    assert_eq!(s.pronunciation, Pronunc::AmE);
    assert_eq!(s.level_key(), "Programmer");
    assert_eq!(s.word_index, 0);
    assert_eq!(s.chapter, 1);
    assert_eq!(s.input_buffer, "");
}

#[test]
fn character_while_stopped_is_ignored() {
    let mut s = session_with(&["array", "binary"]);
    let ints = s.update(Key::SetText("a".to_string())).unwrap();
    assert!(ints.is_empty());
    assert_eq!(s.status, Status::Stopped);
    assert_eq!(s.word_index, 0);
    assert_eq!(s.input_buffer, "");
}

#[test]
fn submit_starts_and_pronounces() {
    let mut s = session_with(&["array", "binary"]);
    let ints = s.update(Key::Submit).unwrap();
    assert_eq!(s.status, Status::Running);
    assert_eq!(
        ints,
        vec![Intent::PlayPronunciation("array".to_string(), Pronunc::AmE)]
    );
}

#[test]
fn submit_while_running_stops_silently() {
    let mut s = session_with(&["array"]);
    s.update(Key::Submit).unwrap();
    let ints = s.update(Key::Submit).unwrap();
    assert_eq!(s.status, Status::Stopped);
    assert!(ints.is_empty());
}

#[test]
fn correct_character_grows_buffer_and_clicks() {
    let mut s = session_with(&["array", "binary"]);
    s.update(Key::Submit).unwrap();
    let ints = s.update(Key::SetText("a".to_string())).unwrap();
    assert_eq!(s.input_buffer, "a");
    assert_eq!(ints, vec![Intent::PlayClick]);
    assert_eq!(s.word_index, 0);
}

#[test]
fn single_char_word_completes_at_once() {
    let mut s = session_with(&["a", "binary"]);
    s.update(Key::Submit).unwrap();
    let ints = s.update(Key::SetText("a".to_string())).unwrap();
    assert_eq!(s.word_index, 1);
    assert_eq!(s.input_buffer, "");
    assert_eq!(
        ints,
        vec![
            Intent::PlayClick,
            Intent::PlayCorrect,
            Intent::PlayPronunciation("binary".to_string(), Pronunc::AmE),
        ]
    );
}

#[test]
fn completing_last_word_wraps_to_first() {
    let mut s = session_with(&["ab", "c"]);
    s.update(Key::Submit).unwrap();
    s.update(Key::WordNextPre("next".to_string())).unwrap();
    assert_eq!(s.word_index, 1);
    let ints = s.update(Key::SetText("c".to_string())).unwrap();
    assert_eq!(s.word_index, 0);
    assert_eq!(s.chapter, 1);
    assert_eq!(
        ints,
        vec![
            Intent::PlayClick,
            Intent::PlayCorrect,
            Intent::PlayPronunciation("ab".to_string(), Pronunc::AmE),
        ]
    );
}

#[test]
fn mismatch_resets_buffer_and_plays_wrong() {
    let mut s = session_with(&["abc", "def"]);
    s.update(Key::Submit).unwrap();
    s.update(Key::SetText("a".to_string())).unwrap();
    s.update(Key::SetText("b".to_string())).unwrap();
    assert_eq!(s.input_buffer, "ab");
    let ints = s.update(Key::SetText("x".to_string())).unwrap();
    assert_eq!(s.input_buffer, "");
    assert_eq!(ints, vec![Intent::PlayClick, Intent::PlayWrong]);
    assert_eq!(s.word_index, 0);
}

#[test]
fn multi_char_token_is_ignored() {
    let mut s = session_with(&["abc"]);
    s.update(Key::Submit).unwrap();
    let ints = s.update(Key::SetText("Shift".to_string())).unwrap();
    assert!(ints.is_empty());
    assert_eq!(s.input_buffer, "");
}

#[test]
fn empty_token_is_ignored() {
    let mut s = session_with(&["abc"]);
    s.update(Key::Submit).unwrap();
    let ints = s.update(Key::SetText(String::new())).unwrap();
    assert!(ints.is_empty());
}

#[test]
fn next_on_last_word_wraps_and_pronounces() {
    let names: Vec<String> = (0..25).map(|i| format!("word{i}")).collect();
    let name_refs: Vec<&str> = names.iter().map(|s| s.as_str()).collect();
    let mut s = session_with(&name_refs);
    s.update(Key::Submit).unwrap();
    s.update(Key::SelectChapter(2)).unwrap();
    assert_eq!(s.word_index, 20);
    for _ in 0..4 {
        s.update(Key::WordNextPre("next".to_string())).unwrap();
    }
    assert_eq!(s.word_index, 24);
    assert_eq!(s.chapter, 2);
    let ints = s.update(Key::WordNextPre("next".to_string())).unwrap();
    assert_eq!(s.word_index, 0);
    assert_eq!(s.chapter, 1);
    assert_eq!(
        ints,
        vec![Intent::PlayPronunciation("word0".to_string(), Pronunc::AmE)]
    );
}

#[test]
fn prev_on_first_word_wraps_to_last() {
    let mut s = session_with(&["ab", "cd", "ef"]);
    s.update(Key::Submit).unwrap();
    let ints = s.update(Key::WordNextPre("prev".to_string())).unwrap();
    assert_eq!(s.word_index, 2);
    assert_eq!(
        ints,
        vec![Intent::PlayPronunciation("ef".to_string(), Pronunc::AmE)]
    );
}

#[test]
fn navigation_while_stopped_is_ignored() {
    let mut s = session_with(&["ab", "cd"]);
    let ints = s.update(Key::WordNextPre("next".to_string())).unwrap();
    assert!(ints.is_empty());
    assert_eq!(s.word_index, 0);
}

#[test]
fn navigation_clears_buffer() {
    let mut s = session_with(&["ab", "cd"]);
    s.update(Key::Submit).unwrap();
    s.update(Key::SetText("a".to_string())).unwrap();
    assert_eq!(s.input_buffer, "a");
    s.update(Key::WordNextPre("next".to_string())).unwrap();
    assert_eq!(s.input_buffer, "");
    assert_eq!(s.word_index, 1);
}

#[test]
fn select_pronunciation_is_idempotent_and_pronounces_twice() {
    let mut s = session_with(&["ab"]);
    let i1 = s.update(Key::SelectProunc(1)).unwrap();
    assert_eq!(s.pronunciation, Pronunc::BrE);
    let i2 = s.update(Key::SelectProunc(1)).unwrap();
    assert_eq!(s.pronunciation, Pronunc::BrE);
    let expected = vec![Intent::PlayPronunciation("ab".to_string(), Pronunc::BrE)];
    assert_eq!(i1, expected);
    assert_eq!(i2, expected);
}

#[test]
fn select_pronunciation_keeps_rest_of_state() {
    let mut s = session_with(&["ab", "cd"]);
    s.update(Key::Submit).unwrap();
    s.update(Key::SetText("a".to_string())).unwrap();
    s.update(Key::SelectProunc(0)).unwrap();
    assert_eq!(s.input_buffer, "a");
    assert_eq!(s.word_index, 0);
    assert_eq!(s.status, Status::Running);
    assert_eq!(s.pronunciation, Pronunc::AmE);
}

#[test]
fn select_level_round_trip_resets_both_times() {
    let words_a: Vec<WordEntry> = vec![entry("alpha", "a"), entry("beta", "b")];
    let words_b: Vec<WordEntry> = vec![entry("gamma", "g")];
    let store = VocabStore::new(vec![
        Level { key: "A".to_string(), words: words_a },
        Level { key: "B".to_string(), words: words_b },
    ])
    .expect("valid store");
    let mut s = Session::new(store);
    s.update(Key::SelectLevel("A".to_string())).unwrap();
    assert_eq!(s.word_index, 0);
    assert_eq!(s.input_buffer, "");
    s.update(Key::Submit).unwrap();
    s.update(Key::WordNextPre("next".to_string())).unwrap();
    assert_eq!(s.word_index, 1);
    s.update(Key::SelectLevel("A".to_string())).unwrap();
    assert_eq!(s.word_index, 0);
    assert_eq!(s.input_buffer, "");
    assert_eq!(s.level_key(), "A");
    assert_eq!(s.chapter, 1);
}

#[test]
fn select_level_switches_words_and_stays_silent() {
    let store = VocabStore::new(vec![
        Level { key: "A".to_string(), words: vec![entry("alpha", "a")] },
        Level { key: "B".to_string(), words: vec![entry("gamma", "g")] },
    ])
    .expect("valid store");
    let mut s = Session::new(store);
    s.update(Key::Submit).unwrap();
    let ints = s.update(Key::SelectLevel("B".to_string())).unwrap();
    assert!(ints.is_empty());
    assert_eq!(s.level_key(), "B");
    assert_eq!(s.current_word().name, "gamma");
    assert_eq!(s.status, Status::Running);
}

#[test]
fn unknown_level_is_rejected_and_state_kept() {
    let mut s = session_with(&["ab", "cd"]);
    s.update(Key::Submit).unwrap();
    s.update(Key::SetText("a".to_string())).unwrap();
    let before_buffer = s.input_buffer.clone();
    let r = s.update(Key::SelectLevel("NotARealLevel".to_string()));
    assert_eq!(r, Err(VocabError::UnknownLevel));
    assert_eq!(s.level_key(), "Programmer");
    assert_eq!(s.word_index, 0);
    assert_eq!(s.input_buffer, before_buffer);
    assert_eq!(s.status, Status::Running);
}

#[test]
fn select_chapter_jumps_to_chapter_start() {
    let names: Vec<String> = (0..45).map(|i| format!("w{i}")).collect();
    let name_refs: Vec<&str> = names.iter().map(|s| s.as_str()).collect();
    let mut s = session_with(&name_refs);
    let ints = s.update(Key::SelectChapter(2)).unwrap();
    assert!(ints.is_empty());
    assert_eq!(s.word_index, 20);
    assert_eq!(s.chapter, 2);
    assert_eq!(s.current_word().name, "w20");
}

#[test]
fn select_chapter_clamps_out_of_range() {
    let names: Vec<String> = (0..45).map(|i| format!("w{i}")).collect();
    let name_refs: Vec<&str> = names.iter().map(|s| s.as_str()).collect();
    let mut s = session_with(&name_refs);
    // 45 words make 3 chapters; a request beyond that lands on the last one
    assert_eq!(s.chapter_count(), 3);
    s.update(Key::SelectChapter(99)).unwrap();
    assert_eq!(s.word_index, 40);
    assert_eq!(s.chapter, 3);
    // and a request below 1 lands on the first
    s.update(Key::SelectChapter(0)).unwrap();
    assert_eq!(s.word_index, 0);
    assert_eq!(s.chapter, 1);
}

#[test]
fn select_chapter_clears_buffer() {
    let names: Vec<String> = (0..25).map(|i| format!("ab{i}")).collect();
    let name_refs: Vec<&str> = names.iter().map(|s| s.as_str()).collect();
    let mut s = session_with(&name_refs);
    s.update(Key::Submit).unwrap();
    s.update(Key::SetText("a".to_string())).unwrap();
    assert_eq!(s.input_buffer, "a");
    s.update(Key::SelectChapter(2)).unwrap();
    assert_eq!(s.input_buffer, "");
}

#[test]
fn chapter_tracks_word_index_across_events() {
    let names: Vec<String> = (0..45).map(|i| format!("w{i}")).collect();
    let name_refs: Vec<&str> = names.iter().map(|s| s.as_str()).collect();
    let mut s = session_with(&name_refs);
    s.update(Key::Submit).unwrap();
    for _ in 0..21 {
        s.update(Key::WordNextPre("next".to_string())).unwrap();
        assert_eq!(s.chapter, s.word_index / CHAPTER_SIZE + 1);
    }
    assert_eq!(s.word_index, 21);
    assert_eq!(s.chapter, 2);
}

#[test]
fn buffer_is_always_prefix_of_current_word() {
    let mut s = session_with(&["abc", "abd"]);
    s.update(Key::Submit).unwrap();
    for tok in ["a", "b", "x", "a", "b", "c", "a"] {
        s.update(Key::SetText(tok.to_string())).unwrap();
        let name = s.current_word().name;
        assert!(name.starts_with(&s.input_buffer));
    }
}

#[test]
fn word_split_shows_typed_and_remaining() {
    let mut s = session_with(&["abcd"]);
    s.update(Key::Submit).unwrap();
    s.update(Key::SetText("a".to_string())).unwrap();
    s.update(Key::SetText("b".to_string())).unwrap();
    let (typed, rest) = s.word_split();
    assert_eq!(typed, "ab");
    assert_eq!(rest, "cd");
}

#[test]
fn buffer_survives_pause_and_resume() {
    let mut s = session_with(&["abc"]);
    s.update(Key::Submit).unwrap();
    s.update(Key::SetText("a".to_string())).unwrap();
    s.update(Key::Submit).unwrap();
    assert_eq!(s.status, Status::Stopped);
    assert_eq!(s.input_buffer, "a");
    s.update(Key::Submit).unwrap();
    assert_eq!(s.input_buffer, "a");
}

#[test]
fn current_word_and_counts() {
    let s = session_with(&["alpha", "beta", "gamma"]);
    let w = s.current_word();
    assert_eq!(w.name, "alpha");
    assert_eq!(w.trans, vec!["meaning".to_string()]);
    assert_eq!(s.word_count(), 3);
    assert_eq!(s.chapter_count(), 1);
}
