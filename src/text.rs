//! Text handling: whitespace, normalization of fetched text, splitting into
//! words and grouping words into chunks.

use vstd::prelude::*;

verus! {

/// Whether `c` carries the Unicode `White_Space` property.
pub open spec fn is_white(c: char) -> bool {
    ('\u{9}' <= c && c <= '\u{d}') || c == ' ' || c == '\u{85}' || c == '\u{a0}' || c
        == '\u{1680}' || ('\u{2000}' <= c && c <= '\u{200a}') || c == '\u{2028}' || c
        == '\u{2029}' || c == '\u{202f}' || c == '\u{205f}' || c == '\u{3000}'
}

/// Executable form of [`is_white`].
pub fn is_white_char(c: char) -> (r: bool)
    ensures
        r == is_white(c),
{
    ('\u{9}' <= c && c <= '\u{d}') || c == ' ' || c == '\u{85}' || c == '\u{a0}' || c
        == '\u{1680}' || ('\u{2000}' <= c && c <= '\u{200a}') || c == '\u{2028}' || c
        == '\u{2029}' || c == '\u{202f}' || c == '\u{205f}' || c == '\u{3000}'
}

/// Punctuation removed from fetched text: comma, period, colon, semicolon.
pub open spec fn is_stripped(c: char) -> bool {
    c == ',' || c == '.' || c == ':' || c == ';'
}

/// A fetched body made ready for typing: each newline becomes a space and
/// each stripped punctuation mark is dropped; every other character is kept
/// in place.
pub open spec fn normalized(s: Seq<char>) -> Seq<char>
    decreases s.len(),
{
    if s.len() == 0 {
        Seq::empty()
    } else {
        let prev = normalized(s.drop_last());
        let c = s.last();
        if c == '\n' {
            prev.push(' ')
        } else if is_stripped(c) {
            prev
        } else {
            prev.push(c)
        }
    }
}

/// Replaces newlines by spaces and removes commas, periods, colons and
/// semicolons.
pub fn normalize_body(s: &str) -> (r: String)
    ensures
        r@ == normalized(s@),
{
    let n = s.unicode_len();
    let mut out = String::new();
    let mut i: usize = 0;
    while i < n
        invariant
            n == s@.len(),
            i <= n,
            out@ == normalized(s@.subrange(0, i as int)),
        decreases n - i,
    {
        let c = s.get_char(i);
        proof {
            assert(s@.subrange(0, i + 1).drop_last() =~= s@.subrange(0, i as int));
        }
        if c == '\n' {
            proof {
                reveal_strlit(" ");
            }
            out.append(" ");
        } else if c == ',' || c == '.' || c == ':' || c == ';' {
        } else {
            let piece = s.substring_char(i, i + 1);
            assert(piece@ =~= seq![c]);
            out.append(piece);
        }
        i = i + 1;
    }
    assert(s@.subrange(0, n as int) =~= s@);
    out
}

/// The words of `s`: its maximal runs of non-whitespace characters, in
/// order. Runs of whitespace separate words and never yield an empty word.
pub open spec fn words_of(s: Seq<char>) -> Seq<Seq<char>>
    decreases s.len(),
{
    if s.len() == 0 {
        Seq::empty()
    } else {
        let prev = words_of(s.drop_last());
        let c = s.last();
        if is_white(c) {
            prev
        } else if s.len() > 1 && !is_white(s[s.len() - 2]) {
            prev.drop_last().push(prev.last().push(c))
        } else {
            prev.push(seq![c])
        }
    }
}

/// Splits `s` on runs of whitespace, discarding empty tokens.
pub fn split_words(s: &str) -> (r: Vec<String>)
    ensures
        r.deep_view() == words_of(s@),
{
    let n = s.unicode_len();
    let mut words: Vec<String> = Vec::new();
    let mut start: usize = 0;
    let mut in_word = false;
    let mut i: usize = 0;
    while i < n
        invariant
            n == s@.len(),
            start <= i <= n,
            in_word ==> start < i,
            in_word ==> !is_white(s@[i - 1]),
            in_word ==> words_of(s@.subrange(0, i as int)) == words.deep_view().push(
                s@.subrange(start as int, i as int),
            ),
            !in_word ==> words_of(s@.subrange(0, i as int)) == words.deep_view(),
            !in_word && i > 0 ==> is_white(s@[i - 1]),
        decreases n - i,
    {
        let c = s.get_char(i);
        let ghost prefix = s@.subrange(0, i + 1);
        proof {
            assert(prefix.drop_last() =~= s@.subrange(0, i as int));
        }
        if is_white_char(c) {
            if in_word {
                let w = String::from_str(s.substring_char(start, i));
                let ghost before = words.deep_view();
                words.push(w);
                assert(words.deep_view() =~= before.push(s@.subrange(start as int, i as int)));
                in_word = false;
            }
        } else if in_word {
            assert(s@.subrange(start as int, i + 1) =~= s@.subrange(start as int, i as int).push(c));
        } else {
            start = i;
            assert(s@.subrange(start as int, i + 1) =~= seq![c]);
            in_word = true;
        }
        i = i + 1;
    }
    assert(s@.subrange(0, n as int) =~= s@);
    if in_word {
        let w = String::from_str(s.substring_char(start, n));
        let ghost before = words.deep_view();
        words.push(w);
        assert(words.deep_view() =~= before.push(s@.subrange(start as int, n as int)));
    }
    words
}

/// `s` without its leading whitespace.
pub open spec fn trim_start(s: Seq<char>) -> Seq<char>
    decreases s.len(),
{
    if s.len() > 0 && is_white(s[0]) {
        trim_start(s.drop_first())
    } else {
        s
    }
}

/// `s` without its trailing whitespace.
pub open spec fn trim_end(s: Seq<char>) -> Seq<char>
    decreases s.len(),
{
    if s.len() > 0 && is_white(s.last()) {
        trim_end(s.drop_last())
    } else {
        s
    }
}

/// `s` without leading and trailing whitespace.
pub open spec fn trimmed(s: Seq<char>) -> Seq<char> {
    trim_end(trim_start(s))
}

/// Removes leading and trailing whitespace.
pub fn trim(s: &str) -> (r: String)
    ensures
        r@ == trimmed(s@),
{
    let n = s.unicode_len();
    let mut lo: usize = 0;
    assert(s@.subrange(0, n as int) =~= s@);
    while lo < n && is_white_char(s.get_char(lo))
        invariant
            n == s@.len(),
            lo <= n,
            trim_start(s@) == trim_start(s@.subrange(lo as int, n as int)),
        decreases n - lo,
    {
        assert(s@.subrange(lo as int, n as int).drop_first() =~= s@.subrange(lo + 1, n as int));
        lo = lo + 1;
    }
    let ghost t = s@.subrange(lo as int, n as int);
    assert(trim_start(s@) == t);
    let mut hi: usize = n;
    while hi > lo && is_white_char(s.get_char(hi - 1))
        invariant
            n == s@.len(),
            lo <= hi <= n,
            t == s@.subrange(lo as int, n as int),
            trim_end(t) == trim_end(s@.subrange(lo as int, hi as int)),
        decreases hi - lo,
    {
        assert(s@.subrange(lo as int, hi as int).drop_last() =~= s@.subrange(lo as int, hi - 1));
        hi = hi - 1;
    }
    String::from_str(s.substring_char(lo, hi))
}

/// Every word of `words_of(s)` is non-empty and holds no whitespace.
pub proof fn lemma_words_are_tokens(s: Seq<char>)
    ensures
        forall|k: int|
            0 <= k < words_of(s).len() ==> #[trigger] words_of(s)[k].len() > 0 && forall|j: int|
                0 <= j < words_of(s)[k].len() ==> !is_white(#[trigger] words_of(s)[k][j]),
    decreases s.len(),
{
    if s.len() > 0 {
        lemma_words_are_tokens(s.drop_last());
        let prev = words_of(s.drop_last());
        let c = s.last();
        if !is_white(c) && s.len() > 1 && !is_white(s[s.len() - 2]) {
            lemma_last_word_ends_at_end(s.drop_last());
            let w = words_of(s);
            assert forall|k: int| 0 <= k < w.len() implies #[trigger] w[k].len() > 0 && forall|j: int|
                0 <= j < w[k].len() ==> !is_white(#[trigger] w[k][j]) by {
                if k < w.len() - 1 {
                    assert(w[k] == prev[k]);
                } else {
                    assert(w[k] == prev.last().push(c));
                    assert forall|j: int| 0 <= j < w[k].len() implies !is_white(#[trigger] w[k][j]) by {
                        if j < w[k].len() - 1 {
                            assert(w[k][j] == prev[prev.len() - 1][j]);
                        }
                    }
                }
            }
        }
    }
}

/// When `s` ends in a non-whitespace character, it has at least one word.
proof fn lemma_last_word_ends_at_end(s: Seq<char>)
    requires
        s.len() > 0,
        !is_white(s.last()),
    ensures
        words_of(s).len() > 0,
    decreases s.len(),
{
    if s.len() > 1 && !is_white(s[s.len() - 2]) {
        assert(s.drop_last().last() == s[s.len() - 2]);
        lemma_last_word_ends_at_end(s.drop_last());
    }
}

/// Number of words presented together.
pub const CHUNK_SIZE: usize = 15;

/// `w` cut into consecutive chunks of `CHUNK_SIZE` words; only the last chunk
/// may be shorter, and none is empty.
pub open spec fn chunks_of(w: Seq<Seq<char>>) -> Seq<Seq<Seq<char>>>
    decreases w.len(),
{
    if w.len() == 0 {
        Seq::empty()
    } else if w.len() <= CHUNK_SIZE {
        seq![w]
    } else {
        seq![w.take(CHUNK_SIZE as int)] + chunks_of(w.skip(CHUNK_SIZE as int))
    }
}

/// The number of chunks of `w` is `w.len()` divided by `CHUNK_SIZE`, rounded up.
pub proof fn lemma_chunk_count(w: Seq<Seq<char>>)
    ensures
        chunks_of(w).len() == (w.len() + CHUNK_SIZE - 1) / (CHUNK_SIZE as int),
    decreases w.len(),
{
    if w.len() > CHUNK_SIZE {
        lemma_chunk_count(w.skip(CHUNK_SIZE as int));
    }
}

/// Chunk `k` of `w` holds the words from `k * CHUNK_SIZE` up to the next
/// multiple of `CHUNK_SIZE` or the end of `w`.
pub proof fn lemma_chunk_at(w: Seq<Seq<char>>, k: int)
    requires
        0 <= k < chunks_of(w).len(),
    ensures
        k * CHUNK_SIZE < w.len(),
        chunks_of(w)[k] == w.subrange(
            k * CHUNK_SIZE,
            if (k + 1) * CHUNK_SIZE <= w.len() {
                (k + 1) * CHUNK_SIZE
            } else {
                w.len() as int
            },
        ),
    decreases w.len(),
{
    if w.len() <= CHUNK_SIZE {
        assert(w.subrange(0, w.len() as int) =~= w);
    } else if k == 0 {
        assert(w.take(CHUNK_SIZE as int) =~= w.subrange(0, CHUNK_SIZE as int));
    } else {
        let rest = w.skip(CHUNK_SIZE as int);
        assert(chunks_of(w)[k] == chunks_of(rest)[k - 1]);
        lemma_chunk_at(rest, k - 1);
        let lo = (k - 1) * CHUNK_SIZE;
        let hi = if k * CHUNK_SIZE <= rest.len() {
            k * CHUNK_SIZE
        } else {
            rest.len() as int
        };
        assert(rest.subrange(lo, hi) =~= w.subrange(lo + CHUNK_SIZE, hi + CHUNK_SIZE));
    }
}

/// Chunking keeps every word in order, and every chunk but the last holds
/// exactly `CHUNK_SIZE` words; the last holds between one and `CHUNK_SIZE`.
pub proof fn lemma_chunking(w: Seq<Seq<char>>)
    ensures
        chunks_of(w).flatten() == w,
        forall|k: int|
            0 <= k < chunks_of(w).len() - 1 ==> #[trigger] chunks_of(w)[k].len() == CHUNK_SIZE,
        chunks_of(w).len() > 0 ==> 1 <= chunks_of(w).last().len() <= CHUNK_SIZE,
    decreases w.len(),
{
    let c = chunks_of(w);
    if w.len() == 0 {
    } else if w.len() <= CHUNK_SIZE {
        assert(c.drop_first() =~= Seq::empty());
        assert(c.flatten() =~= w + Seq::<Seq<Seq<char>>>::empty().flatten());
    } else {
        let rest = w.skip(CHUNK_SIZE as int);
        lemma_chunking(rest);
        assert(c.drop_first() =~= chunks_of(rest));
        assert(w =~= w.take(CHUNK_SIZE as int) + rest);
        assert forall|k: int| 0 <= k < c.len() - 1 implies #[trigger] c[k].len() == CHUNK_SIZE by {
            if k > 0 {
                assert(c[k] == chunks_of(rest)[k - 1]);
            }
        }
        assert(c.last() == chunks_of(rest).last());
    }
}

/// Copies the words of `words` from `lo` up to `hi`.
fn copy_words(words: &Vec<String>, lo: usize, hi: usize) -> (r: Vec<String>)
    requires
        lo <= hi <= words.len(),
    ensures
        r.deep_view() == words.deep_view().subrange(lo as int, hi as int),
{
    let mut r: Vec<String> = Vec::new();
    let mut j: usize = lo;
    while j < hi
        invariant
            lo <= j <= hi <= words.len(),
            r.deep_view() == words.deep_view().subrange(lo as int, j as int),
        decreases hi - j,
    {
        let word = words[j].clone();
        assert(word@ == words.deep_view()[j as int]);
        let ghost before = r.deep_view();
        r.push(word);
        assert(r.deep_view() =~= before.push(word@));
        assert(r.deep_view() =~= words.deep_view().subrange(lo as int, j + 1));
        j = j + 1;
    }
    r
}

/// Groups `words` into consecutive chunks of `CHUNK_SIZE` words, the last one
/// possibly shorter.
pub fn chunk_words(words: &Vec<String>) -> (r: Vec<Vec<String>>)
    ensures
        r.deep_view() == chunks_of(words.deep_view()),
{
    let ghost w = words.deep_view();
    let n = words.len();
    let count: usize = n / CHUNK_SIZE + if n % CHUNK_SIZE == 0 {
        0
    } else {
        1
    };
    proof {
        lemma_chunk_count(w);
    }
    let mut r: Vec<Vec<String>> = Vec::new();
    let mut k: usize = 0;
    while k < count
        invariant
            n == words.len() == w.len(),
            w == words.deep_view(),
            count == chunks_of(w).len(),
            k <= count,
            r.deep_view() == chunks_of(w).take(k as int),
        decreases count - k,
    {
        proof {
            lemma_chunk_at(w, k as int);
        }
        let start = k * CHUNK_SIZE;
        let end = if n - start > CHUNK_SIZE {
            start + CHUNK_SIZE
        } else {
            n
        };
        let chunk = copy_words(words, start, end);
        assert(chunk.deep_view() == chunks_of(w)[k as int]);
        let ghost before = r.deep_view();
        r.push(chunk);
        assert(r.deep_view() =~= before.push(chunk.deep_view()));
        assert(r.deep_view() =~= chunks_of(w).take(k + 1));
        k = k + 1;
    }
    assert(chunks_of(w).take(count as int) =~= chunks_of(w));
    r
}

} // verus!
