//! The typing-session engine: a state machine fed with the full value of the
//! input field on every edit and with one tick per second, producing the
//! chunks to show, word judgments, the countdown and final metrics.

use vstd::prelude::*;

use crate::content::Content;
use crate::metrics::Metrics;
use crate::text::{
    chunk_words, chunks_of, lemma_chunk_at, lemma_chunk_count, lemma_chunking, split_words, trim,
    trimmed, words_of, CHUNK_SIZE,
};

verus! {

/// Length of the countdown, in seconds.
pub const SESSION_SECONDS: u64 = 60;

/// Phase of a session.
#[derive(Clone, Copy, Debug, PartialEq, Eq, Structural)]
pub enum Status {
    NotStarted,
    InProgress,
    Finished,
}

/// How a word of the current chunk is shown.
#[derive(Clone, Copy, Debug, PartialEq, Eq, Structural)]
pub enum WordMark {
    /// Typed, and equal to the reference word.
    Correct,
    /// Typed, and different from the reference word.
    Wrong,
    /// The word to type now.
    Current,
    /// Not reached yet.
    Pending,
}

/// One typing session.
pub struct TypingSession {
    words: Vec<String>,
    chunks: Vec<Vec<String>>,
    chunk_index: usize,
    word_index: usize,
    committed: Vec<String>,
    input: String,
    correct_total: usize,
    wrong_total: usize,
    started_at: Option<i64>,
    finished_at: Option<i64>,
    timer_remaining: u64,
    timer_active: bool,
}

/// Mathematical model of a [`TypingSession`].
pub struct SessionView {
    /// The reference words, in order.
    pub words: Seq<Seq<char>>,
    pub chunks: Seq<Seq<Seq<char>>>,
    pub chunk_index: int,
    /// Position of the word to type within the current chunk.
    pub word_index: int,
    /// Words typed in the current chunk.
    pub committed: Seq<Seq<char>>,
    /// The live, uncommitted value of the input field.
    pub input: Seq<char>,
    pub correct_total: int,
    pub wrong_total: int,
    pub started_at: Option<int>,
    pub finished_at: Option<int>,
    pub timer_remaining: int,
    pub timer_active: bool,
}

/// View of an optional timestamp.
pub open spec fn time_view(t: Option<i64>) -> Option<int> {
    match t {
        Some(x) => Some(x as int),
        None => None,
    }
}

/// Whether an input value commits a word: it ends with a space.
pub open spec fn commits(value: Seq<char>) -> bool {
    value.len() > 0 && value.last() == ' '
}

impl SessionView {
    /// The session right after start on a text with body `body`.
    pub open spec fn initial(body: Seq<char>) -> SessionView {
        SessionView {
            words: words_of(body),
            chunks: chunks_of(words_of(body)),
            chunk_index: 0,
            word_index: 0,
            committed: Seq::empty(),
            input: Seq::empty(),
            correct_total: 0,
            wrong_total: 0,
            started_at: None,
            finished_at: None,
            timer_remaining: SESSION_SECONDS as int,
            timer_active: false,
        }
    }

    /// All chunks are done, or the countdown has run out.
    pub open spec fn is_finished(self) -> bool {
        self.chunk_index >= self.chunks.len() || self.timer_remaining == 0
    }

    pub open spec fn status(self) -> Status {
        if self.is_finished() {
            Status::Finished
        } else if self.started_at is Some {
            Status::InProgress
        } else {
            Status::NotStarted
        }
    }

    /// Number of reference words judged so far.
    pub open spec fn judged(self) -> int {
        if self.chunk_index < self.chunks.len() {
            self.chunk_index * CHUNK_SIZE + self.word_index
        } else {
            self.words.len() as int
        }
    }

    /// The reference word to type now.
    pub open spec fn current_word(self) -> Seq<char> {
        self.chunks[self.chunk_index][self.word_index]
    }

    /// Well-formedness.
    pub open spec fn inv(self) -> bool {
        &&& self.chunks == chunks_of(self.words)
        &&& self.words.len() <= usize::MAX
        &&& 0 <= self.chunk_index <= self.chunks.len()
        &&& self.chunk_index < self.chunks.len() ==> 0 <= self.word_index
            < self.chunks[self.chunk_index].len()
        &&& self.chunk_index == self.chunks.len() ==> self.word_index == 0
        &&& self.committed.len() == self.word_index
        &&& self.correct_total >= 0
        &&& self.wrong_total >= 0
        &&& self.correct_total + self.wrong_total == self.judged()
        &&& 0 <= self.timer_remaining <= SESSION_SECONDS
        &&& self.timer_active ==> self.started_at is Some && !self.is_finished()
        &&& (self.finished_at is Some <==> self.is_finished() && self.started_at is Some)
    }

    /// Judges `word` against the current reference word, then moves to the
    /// next word; past the end of a chunk, moves to the next chunk and clears
    /// the words typed in the chunk. Finishing the last chunk ends the session
    /// at `now`.
    pub open spec fn committed_word(self, word: Seq<char>, now: int) -> SessionView {
        let hit = word == self.current_word();
        let correct_total = if hit {
            self.correct_total + 1
        } else {
            self.correct_total
        };
        let wrong_total = if hit {
            self.wrong_total
        } else {
            self.wrong_total + 1
        };
        if self.word_index + 1 >= self.chunks[self.chunk_index].len() {
            let done = self.chunk_index + 1 >= self.chunks.len();
            SessionView {
                chunk_index: self.chunk_index + 1,
                word_index: 0,
                committed: Seq::empty(),
                input: Seq::empty(),
                correct_total,
                wrong_total,
                timer_active: !done,
                finished_at: if done {
                    Some(now)
                } else {
                    self.finished_at
                },
                ..self
            }
        } else {
            SessionView {
                word_index: self.word_index + 1,
                committed: self.committed.push(word),
                input: Seq::empty(),
                correct_total,
                wrong_total,
                ..self
            }
        }
    }

    /// The session after the input field takes the value `value` at `now`.
    /// A finished session ignores input. Otherwise the countdown runs from the
    /// first input on; a value ending with a space commits its trimmed text as
    /// the typed word, and any other value only replaces the live input.
    pub open spec fn after_input(self, value: Seq<char>, now: int) -> SessionView {
        if self.is_finished() {
            self
        } else {
            let s = SessionView {
                timer_active: true,
                started_at: if self.started_at is Some {
                    self.started_at
                } else {
                    Some(now)
                },
                ..self
            };
            if commits(value) {
                s.committed_word(trimmed(value), now)
            } else {
                SessionView { input: value, ..s }
            }
        }
    }

    /// The session after a clock tick at `now`: a running countdown loses one
    /// second, and reaching zero ends the session at `now`.
    pub open spec fn after_tick(self, now: int) -> SessionView {
        if self.timer_active && self.timer_remaining > 0 {
            if self.timer_remaining == 1 {
                SessionView {
                    timer_remaining: 0,
                    timer_active: false,
                    finished_at: Some(now),
                    ..self
                }
            } else {
                SessionView { timer_remaining: self.timer_remaining - 1, ..self }
            }
        } else {
            self
        }
    }

    /// How word `i` of the current chunk is shown.
    pub open spec fn mark(self, i: int) -> WordMark {
        if i < self.word_index {
            if self.committed[i] == self.chunks[self.chunk_index][i] {
                WordMark::Correct
            } else {
                WordMark::Wrong
            }
        } else if i == self.word_index {
            WordMark::Current
        } else {
            WordMark::Pending
        }
    }

    /// Seconds from the first input to the end of the session; zero if the
    /// session never started or the clock went backwards.
    pub open spec fn elapsed_seconds(self) -> int {
        match (self.started_at, self.finished_at) {
            (Some(s), Some(f)) => if f > s {
                f - s
            } else {
                0
            },
            _ => 0,
        }
    }
}

/// The judged count of a well-formed session never exceeds the number of
/// reference words, and stays below it while chunks remain.
proof fn lemma_judged_bound(s: SessionView)
    requires
        s.inv(),
    ensures
        s.judged() <= s.words.len(),
        s.chunk_index < s.chunks.len() ==> s.judged() < s.words.len(),
{
    if s.chunk_index < s.chunks.len() {
        lemma_chunk_at(s.words, s.chunk_index);
    }
}

/// Input keeps a session well-formed, and judges at most one word: exactly
/// one when the session is running and the value commits, none otherwise.
/// Each judged word is counted once, as correct or as wrong.
pub proof fn lemma_input_judges_once(s: SessionView, value: Seq<char>, now: int)
    requires
        s.inv(),
    ensures
        s.after_input(value, now).inv(),
        s.after_input(value, now).judged() == s.judged() + if !s.is_finished() && commits(value) {
            1int
        } else {
            0int
        },
        s.after_input(value, now).correct_total >= s.correct_total,
        s.after_input(value, now).wrong_total >= s.wrong_total,
{
    let t = s.after_input(value, now);
    if !s.is_finished() && commits(value) {
        let ci = s.chunk_index;
        lemma_chunk_at(s.words, ci);
        lemma_chunking(s.words);
        lemma_chunk_count(s.words);
        if s.word_index + 1 >= s.chunks[ci].len() && ci + 1 < s.chunks.len() {
            assert(s.chunks[ci].len() == CHUNK_SIZE);
            lemma_chunk_at(s.words, ci + 1);
        }
    }
}

/// A tick keeps a session well-formed and judges no word.
pub proof fn lemma_tick_judges_none(s: SessionView, now: int)
    requires
        s.inv(),
    ensures
        s.after_tick(now).inv(),
        s.after_tick(now).correct_total == s.correct_total,
        s.after_tick(now).wrong_total == s.wrong_total,
{
}

impl View for TypingSession {
    type V = SessionView;

    closed spec fn view(&self) -> SessionView {
        SessionView {
            words: self.words.deep_view(),
            chunks: self.chunks.deep_view(),
            chunk_index: self.chunk_index as int,
            word_index: self.word_index as int,
            committed: self.committed.deep_view(),
            input: self.input@,
            correct_total: self.correct_total as int,
            wrong_total: self.wrong_total as int,
            started_at: time_view(self.started_at),
            finished_at: time_view(self.finished_at),
            timer_remaining: self.timer_remaining as int,
            timer_active: self.timer_active,
        }
    }
}

/// Whether `value` ends with a space.
fn ends_with_space(value: &str) -> (r: bool)
    ensures
        r == commits(value@),
{
    let n = value.unicode_len();
    n > 0 && value.get_char(n - 1) == ' '
}

impl TypingSession {
    pub open spec fn wf(&self) -> bool {
        self@.inv()
    }

    /// Starts a session on `content`: its body is split on whitespace and
    /// the words are grouped into chunks.
    pub fn new(content: &Content) -> (r: TypingSession)
        ensures
            r.wf(),
            r@ == SessionView::initial(content.body@),
    {
        let words = split_words(content.body.as_str());
        let chunks = chunk_words(&words);
        let n = words.len();
        assert(n == words.deep_view().len());
        let r = TypingSession {
            words,
            chunks,
            chunk_index: 0,
            word_index: 0,
            committed: Vec::new(),
            input: String::new(),
            correct_total: 0,
            wrong_total: 0,
            started_at: None,
            finished_at: None,
            timer_remaining: SESSION_SECONDS,
            timer_active: false,
        };
        assert(r@.committed =~= Seq::<Seq<char>>::empty());
        proof {
            lemma_chunk_count(r@.words);
            lemma_chunking(r@.words);
            if r@.chunks.len() > 1 {
                assert(r@.chunks[0].len() == CHUNK_SIZE);
            }
        }
        r
    }

    /// Handles a new value of the input field at `now` (see
    /// [`SessionView::after_input`]).
    pub fn on_input(&mut self, value: &str, now: i64)
        requires
            old(self).wf(),
        ensures
            final(self).wf(),
            final(self)@ == old(self)@.after_input(value@, now as int),
    {
        proof {
            lemma_input_judges_once(self@, value@, now as int);
            lemma_judged_bound(self@);
        }
        if self.chunk_index >= self.chunks.len() || self.timer_remaining == 0 {
            return;
        }
        self.timer_active = true;
        if self.started_at.is_none() {
            self.started_at = Some(now);
        }
        if !ends_with_space(value) {
            self.input = String::from_str(value);
            return;
        }
        let word = trim(value);
        let ci = self.chunk_index;
        let hit = word == self.chunks[ci][self.word_index];
        assert(hit == (word@ == old(self)@.current_word()));
        if hit {
            self.correct_total = self.correct_total + 1;
        } else {
            self.wrong_total = self.wrong_total + 1;
        }
        self.input = String::new();
        if self.word_index + 1 >= self.chunks[ci].len() {
            self.chunk_index = ci + 1;
            self.word_index = 0;
            self.committed = Vec::new();
            if self.chunk_index >= self.chunks.len() {
                self.timer_active = false;
                self.finished_at = Some(now);
            }
            assert(self@.committed =~= Seq::<Seq<char>>::empty());
        } else {
            self.word_index = self.word_index + 1;
            let ghost before = self.committed.deep_view();
            self.committed.push(word);
            assert(self.committed.deep_view() =~= before.push(word@));
        }
        assert(self@.input =~= Seq::<char>::empty());
    }

    /// Handles one clock tick at `now` (see [`SessionView::after_tick`]).
    pub fn tick(&mut self, now: i64)
        requires
            old(self).wf(),
        ensures
            final(self).wf(),
            final(self)@ == old(self)@.after_tick(now as int),
    {
        proof {
            lemma_tick_judges_none(self@, now as int);
        }
        if self.timer_active && self.timer_remaining > 0 {
            if self.timer_remaining == 1 {
                self.timer_remaining = 0;
                self.timer_active = false;
                self.finished_at = Some(now);
            } else {
                self.timer_remaining = self.timer_remaining - 1;
            }
        }
    }

    pub fn is_finished(&self) -> (r: bool)
        ensures
            r == self@.is_finished(),
    {
        self.chunk_index >= self.chunks.len() || self.timer_remaining == 0
    }

    pub fn status(&self) -> (r: Status)
        ensures
            r == self@.status(),
    {
        if self.is_finished() {
            Status::Finished
        } else if self.started_at.is_some() {
            Status::InProgress
        } else {
            Status::NotStarted
        }
    }

    /// Number of chunks of the text.
    pub fn chunk_count(&self) -> (r: usize)
        ensures
            r == self@.chunks.len(),
    {
        self.chunks.len()
    }

    /// The chunk being typed, if any remains.
    pub fn current_chunk(&self) -> (r: Option<&Vec<String>>)
        ensures
            r is Some <==> self@.chunk_index < self@.chunks.len(),
            r is Some ==> r->0.deep_view() == self@.chunks[self@.chunk_index],
    {
        if self.chunk_index < self.chunks.len() {
            Some(&self.chunks[self.chunk_index])
        } else {
            None
        }
    }

    /// The chunk after the current one, shown ahead, if there is one.
    pub fn next_chunk(&self) -> (r: Option<&Vec<String>>)
        requires
            self.wf(),
        ensures
            r is Some <==> self@.chunk_index + 1 < self@.chunks.len(),
            r is Some ==> r->0.deep_view() == self@.chunks[self@.chunk_index + 1],
    {
        if self.chunk_index < self.chunks.len() && self.chunk_index + 1 < self.chunks.len() {
            Some(&self.chunks[self.chunk_index + 1])
        } else {
            None
        }
    }

    /// How word `i` of the current chunk is shown.
    pub fn word_mark(&self, i: usize) -> (r: WordMark)
        requires
            self.wf(),
        ensures
            r == self@.mark(i as int),
    {
        if i < self.word_index {
            if self.committed[i] == self.chunks[self.chunk_index][i] {
                WordMark::Correct
            } else {
                WordMark::Wrong
            }
        } else if i == self.word_index {
            WordMark::Current
        } else {
            WordMark::Pending
        }
    }

    /// Index of the current chunk.
    pub fn chunk_index(&self) -> (r: usize)
        ensures
            r == self@.chunk_index,
    {
        self.chunk_index
    }

    /// Position of the word to type within the current chunk.
    pub fn word_index(&self) -> (r: usize)
        ensures
            r == self@.word_index,
    {
        self.word_index
    }

    /// The live, uncommitted value of the input field.
    pub fn input(&self) -> (r: &String)
        ensures
            r@ == self@.input,
    {
        &self.input
    }

    /// Words typed in the current chunk.
    pub fn committed_words(&self) -> (r: &Vec<String>)
        ensures
            r.deep_view() == self@.committed,
    {
        &self.committed
    }

    pub fn correct_total(&self) -> (r: usize)
        ensures
            r == self@.correct_total,
    {
        self.correct_total
    }

    pub fn wrong_total(&self) -> (r: usize)
        ensures
            r == self@.wrong_total,
    {
        self.wrong_total
    }

    /// Seconds left on the countdown.
    pub fn timer_remaining(&self) -> (r: u64)
        ensures
            r == self@.timer_remaining,
    {
        self.timer_remaining
    }

    /// Whether the countdown is running.
    pub fn timer_active(&self) -> (r: bool)
        ensures
            r == self@.timer_active,
    {
        self.timer_active
    }

    /// The final counts, once the session is finished; `None` before.
    pub fn metrics(&self) -> (r: Option<Metrics>)
        requires
            self.wf(),
        ensures
            r is Some <==> self@.is_finished(),
            r is Some ==> r->0.correct == self@.correct_total && r->0.wrong == self@.wrong_total
                && r->0.elapsed_seconds == self@.elapsed_seconds(),
    {
        if !self.is_finished() {
            return None;
        }
        let elapsed_seconds: u64 = match (self.started_at, self.finished_at) {
            (Some(s), Some(f)) => if f > s {
                ((f as i128) - (s as i128)) as u64
            } else {
                0
            },
            _ => 0,
        };
        Some(
            Metrics {
                correct: self.correct_total,
                wrong: self.wrong_total,
                elapsed_seconds,
            },
        )
    }

    /// Epoch seconds of the first input, if any.
    pub fn started_at(&self) -> (r: Option<i64>)
        ensures
            time_view(r) == self@.started_at,
    {
        self.started_at
    }
}

} // verus!
