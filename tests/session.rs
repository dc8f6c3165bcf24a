use blazing_board::content::Content;
use blazing_board::metrics::{Metrics, Ratio};
use blazing_board::session::{Status, TypingSession, WordMark, SESSION_SECONDS};

fn content(body: &str) -> Content {
    Content { title: None, body: body.to_string(), sources: Vec::new(), fetched_at: 0 }
}

fn ratio_value(r: Ratio) -> f64 {
    r.num as f64 / r.den as f64
}

#[test]
fn three_correct_words_finish_the_session() {
    let mut s = TypingSession::new(&content("alpha beta gamma"));
    assert_eq!(s.chunk_count(), 1);
    assert_eq!(s.status(), Status::NotStarted);
    s.on_input("alpha ", 100);
    assert_eq!(s.status(), Status::InProgress);
    s.on_input("beta ", 101);
    s.on_input("gamma ", 102);
    assert_eq!(s.correct_total(), 3);
    assert_eq!(s.wrong_total(), 0);
    assert_eq!(s.status(), Status::Finished);
    assert_eq!(s.chunk_index(), 1);
    assert!(!s.timer_active());
    let m = s.metrics().unwrap();
    assert_eq!(ratio_value(m.accuracy()), 1.0);
    assert_eq!(m.accuracy_percent(), 100);
    assert_eq!(m.elapsed_seconds, 2);
}

#[test]
fn typo_counts_one_wrong_word() {
    let mut s = TypingSession::new(&content("alpha beta gamma"));
    s.on_input("alpha ", 100);
    s.on_input("gmma ", 101);
    s.on_input("gamma ", 102);
    assert_eq!(s.correct_total(), 2);
    assert_eq!(s.wrong_total(), 1);
    let m = s.metrics().unwrap();
    assert!((ratio_value(m.accuracy()) - 0.667).abs() < 0.001);
    assert_eq!(m.accuracy(), Ratio { num: 2, den: 3 });
    assert_eq!(m.accuracy_percent(), 67);
}

#[test]
fn sixty_ticks_end_the_session() {
    let mut s = TypingSession::new(&content("alpha beta gamma delta"));
    assert_eq!(s.timer_remaining(), SESSION_SECONDS);
    s.on_input("a", 1_000);
    assert!(s.timer_active());
    for i in 1..=59 {
        s.tick(1_000 + i);
        assert_eq!(s.timer_remaining(), 60 - i as u64);
        assert_eq!(s.status(), Status::InProgress);
    }
    s.tick(1_060);
    assert_eq!(s.timer_remaining(), 0);
    assert_eq!(s.status(), Status::Finished);
    assert!(!s.timer_active());
    s.tick(1_061);
    assert_eq!(s.timer_remaining(), 0);
    let m = s.metrics().unwrap();
    assert_eq!(m.elapsed_seconds, 60);
    assert_eq!(m.correct, 0);
}

#[test]
fn ticks_before_first_input_do_nothing() {
    let mut s = TypingSession::new(&content("alpha"));
    for i in 0..100 {
        s.tick(i);
    }
    assert_eq!(s.timer_remaining(), SESSION_SECONDS);
    assert_eq!(s.status(), Status::NotStarted);
    assert!(s.metrics().is_none());
}

#[test]
fn input_after_finish_is_ignored() {
    let mut s = TypingSession::new(&content("alpha"));
    s.on_input("alpha ", 5);
    assert_eq!(s.status(), Status::Finished);
    s.on_input("more ", 6);
    s.on_input("typing", 7);
    assert_eq!(s.correct_total(), 1);
    assert_eq!(s.wrong_total(), 0);
    assert_eq!(s.input(), "");
    assert_eq!(s.metrics().unwrap().elapsed_seconds, 0);
}

#[test]
fn partial_input_only_updates_the_buffer() {
    let mut s = TypingSession::new(&content("alpha beta"));
    s.on_input("alp", 10);
    assert_eq!(s.input(), "alp");
    assert_eq!(s.word_index(), 0);
    assert_eq!(s.correct_total() + s.wrong_total(), 0);
    assert_eq!(s.word_mark(0), WordMark::Current);
    s.on_input("alpha", 11);
    assert_eq!(s.input(), "alpha");
    s.on_input("alpha ", 12);
    assert_eq!(s.input(), "");
    assert_eq!(s.word_index(), 1);
    assert_eq!(s.word_mark(0), WordMark::Correct);
    assert_eq!(s.word_mark(1), WordMark::Current);
}

#[test]
fn empty_word_is_committed_and_scored_wrong() {
    let mut s = TypingSession::new(&content("alpha beta"));
    s.on_input(" ", 1);
    assert_eq!(s.wrong_total(), 1);
    assert_eq!(s.word_index(), 1);
    assert_eq!(s.committed_words(), &vec![String::new()]);
    assert_eq!(s.word_mark(0), WordMark::Wrong);
}

#[test]
fn comparison_is_case_sensitive_and_trims() {
    let mut s = TypingSession::new(&content("Alpha beta"));
    s.on_input("alpha ", 1);
    s.on_input("  beta ", 2);
    assert_eq!(s.wrong_total(), 1);
    assert_eq!(s.correct_total(), 1);
}

#[test]
fn chunk_advance_resets_words_and_shows_next() {
    let body: Vec<String> = (0..17).map(|i| format!("w{}", i)).collect();
    let mut s = TypingSession::new(&content(&body.join(" ")));
    assert_eq!(s.chunk_count(), 2);
    assert_eq!(s.current_chunk().unwrap().len(), 15);
    assert_eq!(s.next_chunk().unwrap(), &vec!["w15".to_string(), "w16".to_string()]);
    for (i, w) in body.iter().take(15).enumerate() {
        assert_eq!(s.word_mark(i), WordMark::Current);
        assert_eq!(s.word_mark(i + 1), WordMark::Pending);
        s.on_input(&format!("{} ", w), 100 + i as i64);
    }
    assert_eq!(s.chunk_index(), 1);
    assert_eq!(s.word_index(), 0);
    assert!(s.committed_words().is_empty());
    assert_eq!(s.current_chunk().unwrap(), &vec!["w15".to_string(), "w16".to_string()]);
    assert!(s.next_chunk().is_none());
    assert_eq!(s.correct_total(), 15);
    s.on_input("w15 ", 200);
    s.on_input("nope ", 260);
    assert_eq!(s.status(), Status::Finished);
    assert!(s.current_chunk().is_none());
    let m = s.metrics().unwrap();
    assert_eq!(m, Metrics { correct: 16, wrong: 1, elapsed_seconds: 160 });
    assert_eq!(m.words_per_minute(), Ratio { num: 960, den: 160 });
    assert_eq!(m.words_per_minute_rounded(), 6);
}

#[test]
fn rerendering_does_not_rescore() {
    let mut s = TypingSession::new(&content("alpha beta gamma"));
    s.on_input("alpha ", 1);
    for _ in 0..5 {
        let _ = s.current_chunk();
        let _ = s.word_mark(0);
        let _ = s.status();
    }
    assert_eq!(s.correct_total(), 1);
    assert_eq!(s.wrong_total(), 0);
}

#[test]
fn empty_body_is_finished_from_the_start() {
    let mut s = TypingSession::new(&content("  \n "));
    assert_eq!(s.chunk_count(), 0);
    assert_eq!(s.status(), Status::Finished);
    s.on_input("x ", 3);
    assert_eq!(s.started_at(), None);
    let m = s.metrics().unwrap();
    assert_eq!(m.accuracy(), Ratio { num: 0, den: 1 });
    assert_eq!(m.words_per_minute(), Ratio { num: 0, den: 1 });
    assert_eq!(m.accuracy_percent(), 0);
    assert_eq!(m.words_per_minute_rounded(), 0);
}

#[test]
fn first_input_starts_the_clock() {
    let mut s = TypingSession::new(&content("alpha beta"));
    assert!(!s.timer_active());
    s.on_input("a", 77);
    assert_eq!(s.started_at(), Some(77));
    s.on_input("al", 80);
    assert_eq!(s.started_at(), Some(77));
    s.tick(78);
    assert_eq!(s.timer_remaining(), 59);
}
