//! Final metrics of a typing session: accuracy and words per minute, as exact
//! fractions whose denominators are never zero.

use vstd::prelude::*;

verus! {

/// The fraction `num / den`.
#[derive(Clone, Copy, Debug, PartialEq, Eq, Structural)]
pub struct Ratio {
    pub num: u128,
    pub den: u128,
}

/// `num / den` rounded to the nearest integer, halves rounded up.
pub open spec fn rounded(num: int, den: int) -> int
    recommends
        den > 0,
{
    (2 * num + den) / (2 * den)
}

/// Counts taken when a session ends.
#[derive(Clone, Copy, Debug, PartialEq, Eq, Structural)]
pub struct Metrics {
    /// Words typed equal to their reference word.
    pub correct: usize,
    /// Words typed different from their reference word.
    pub wrong: usize,
    /// Seconds from the first input to the end of the session.
    pub elapsed_seconds: u64,
}

impl Metrics {
    /// Number of words judged.
    pub open spec fn judged(self) -> int {
        self.correct + self.wrong
    }

    /// Share of judged words that were correct; zero when none was judged.
    pub fn accuracy(&self) -> (r: Ratio)
        ensures
            r == self.accuracy_spec(),
            r.den > 0,
            r.num <= r.den,
            self.judged() == 0 ==> r.num == 0 && r.den == 1,
            self.judged() > 0 ==> r.num == self.correct && r.den == self.judged(),
    {
        let judged = self.correct as u128 + self.wrong as u128;
        if judged == 0 {
            Ratio { num: 0, den: 1 }
        } else {
            Ratio { num: self.correct as u128, den: judged }
        }
    }

    /// Correct words per elapsed minute, `correct / (elapsed_seconds / 60)`;
    /// zero when no time elapsed.
    pub fn words_per_minute(&self) -> (r: Ratio)
        ensures
            r == self.wpm_spec(),
            r.den > 0,
            self.elapsed_seconds == 0 ==> r.num == 0 && r.den == 1,
            self.elapsed_seconds > 0 ==> r.num == 60 * self.correct && r.den
                == self.elapsed_seconds,
    {
        if self.elapsed_seconds == 0 {
            Ratio { num: 0, den: 1 }
        } else {
            Ratio { num: 60 * (self.correct as u128), den: self.elapsed_seconds as u128 }
        }
    }

    /// Accuracy in percent, rounded to the nearest integer.
    pub fn accuracy_percent(&self) -> (r: u128)
        ensures
            r <= 100,
            r == rounded(100 * (self.accuracy_spec().num as int), self.accuracy_spec().den as int),
    {
        let a = self.accuracy();
        let r = (200 * a.num + a.den) / (2 * a.den);
        assert(r <= 100) by (nonlinear_arith)
            requires
                r == (200 * a.num + a.den) / (2 * a.den),
                a.num <= a.den,
                a.den > 0,
        {
            assert(200 * a.num + a.den < 2 * a.den * 101);
        }
        r
    }

    /// Words per minute, rounded to the nearest integer.
    pub fn words_per_minute_rounded(&self) -> (r: u128)
        ensures
            r == rounded(self.wpm_spec().num as int, self.wpm_spec().den as int),
    {
        let w = self.words_per_minute();
        (2 * w.num + w.den) / (2 * w.den)
    }

    /// The value [`Metrics::accuracy`] returns.
    pub open spec fn accuracy_spec(self) -> Ratio {
        if self.judged() == 0 {
            Ratio { num: 0, den: 1 }
        } else {
            Ratio { num: self.correct as u128, den: self.judged() as u128 }
        }
    }

    /// The value [`Metrics::words_per_minute`] returns.
    pub open spec fn wpm_spec(self) -> Ratio {
        if self.elapsed_seconds == 0 {
            Ratio { num: 0, den: 1 }
        } else {
            Ratio { num: (60 * self.correct) as u128, den: self.elapsed_seconds as u128 }
        }
    }
}

} // verus!
