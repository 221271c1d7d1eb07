//! A phonemizer for tests: it knows a fixed set of voices and splits text
//! into sentences without phonemizing it.

use vstd::prelude::*;
use crate::errors::PhonemizationError;
use crate::ports::{Phonemizer, Sentence};
use crate::text::{
    chars_of, is_white_space, join2, lemma_trim_idempotent, lemma_trim_keeps_non_white, owned, str_eq,
    string_from_chars, trim, trim_chars,
};

verus! {

/// The voices the stub phonemizer knows.
pub open spec fn known_voice_names() -> Seq<Seq<char>> {
    seq!["en-US"@, "en-GB"@, "fr-FR"@]
}

/// Whether `c` ends a sentence.
pub open spec fn is_terminator(c: char) -> bool {
    c == '.' || c == '?' || c == '!'
}

/// `s` cut after every terminator: the finished pieces (each ending in
/// its terminator) and what follows the last terminator.
pub open spec fn pieces(s: Seq<char>) -> (Seq<Seq<char>>, Seq<char>)
    decreases s.len(),
{
    if s.len() == 0 {
        (Seq::empty(), Seq::empty())
    } else {
        let (done, cur) = pieces(s.drop_last());
        let next = cur.push(s.last());
        if is_terminator(s.last()) {
            (done.push(next), Seq::empty())
        } else {
            (done, next)
        }
    }
}

/// The pieces trimmed of white space, empty ones dropped.
pub open spec fn kept(ps: Seq<Seq<char>>) -> Seq<Seq<char>>
    decreases ps.len(),
{
    if ps.len() == 0 {
        Seq::empty()
    } else {
        let before = kept(ps.drop_last());
        let t = trim(ps.last());
        if t.len() == 0 {
            before
        } else {
            before.push(t)
        }
    }
}

/// The sentences of `s`: the text cut after each `.`, `?` and `!`, each
/// piece (and the rest after the last terminator) trimmed, empty ones
/// dropped.
pub open spec fn sentences_of(s: Seq<char>) -> Seq<Seq<char>> {
    kept(pieces(s).0.push(pieces(s).1))
}

/// The texts of a list of sentences.
pub open spec fn texts(v: Seq<Sentence>) -> Seq<Seq<char>> {
    v.map_values(|x: Sentence| x.0@)
}

proof fn lemma_texts_push(v: Seq<Sentence>, x: Sentence)
    ensures
        texts(v.push(x)) == texts(v).push(x.0@),
{
    assert(texts(v.push(x)) =~= texts(v).push(x.0@));
}

/// Appends the trimmed `piece` to `out` unless it is empty.
fn keep(out: &mut Vec<Sentence>, piece: &Vec<char>)
    ensures
        texts(final(out)@) == (if trim(piece@).len() == 0 {
            texts(old(out)@)
        } else {
            texts(old(out)@).push(trim(piece@))
        }),
{
    let t = trim_chars(piece.as_slice());
    if t.len() > 0 {
        let s = Sentence(string_from_chars(t.as_slice()));
        proof {
            lemma_texts_push(out@, s);
        }
        out.push(s);
    }
}

/// Splits text into sentences after each `.`, `?` and `!`, trimming each
/// and dropping empty ones.
pub fn split_into_sentences(text: &str) -> (r: Vec<Sentence>)
    ensures
        texts(r@) == sentences_of(text@),
{
    let chars = chars_of(text);
    let mut sentences: Vec<Sentence> = Vec::new();
    let mut current: Vec<char> = Vec::new();
    let n = chars.len();
    proof {
        assert(chars@.take(0) =~= Seq::<char>::empty());
        assert(texts(sentences@) =~= Seq::<Seq<char>>::empty());
    }
    for k in 0..n
        invariant
            n == chars@.len(),
            texts(sentences@) == kept(pieces(chars@.take(k as int)).0),
            current@ == pieces(chars@.take(k as int)).1,
    {
        let ch = chars[k];
        proof {
            let t = chars@.take(k + 1);
            assert(t.drop_last() =~= chars@.take(k as int));
            assert(t.last() == ch);
        }
        current.push(ch);
        if ch == '.' || ch == '?' || ch == '!' {
            proof {
                let t = chars@.take(k + 1);
                let done = pieces(chars@.take(k as int)).0;
                assert(pieces(t).0 == done.push(current@));
                assert(pieces(t).0.drop_last() =~= done);
            }
            keep(&mut sentences, &current);
            current = Vec::new();
            assert(current@ =~= Seq::<char>::empty());
        }
    }
    proof {
        assert(chars@.take(n as int) =~= chars@);
        let p = pieces(chars@);
        assert(p.0.push(p.1).drop_last() =~= p.0);
    }
    keep(&mut sentences, &current);
    sentences
}

/// A phonemizer that knows `en-US`, `en-GB` and `fr-FR` and returns the
/// sentences of its input unchanged.
pub struct StubPhonemizer {
    known_voices: Vec<String>,
}

impl StubPhonemizer {
    /// The names of the voices this phonemizer knows.
    pub closed spec fn known(&self) -> Seq<Seq<char>> {
        self.known_voices@.map_values(|s: String| s@)
    }

    /// A stub phonemizer for the fixed voice list.
    pub fn new() -> (r: Self)
        ensures
            r.known() == known_voice_names(),
    {
        let mut known_voices: Vec<String> = Vec::new();
        known_voices.push(owned("en-US"));
        known_voices.push(owned("en-GB"));
        known_voices.push(owned("fr-FR"));
        let r = StubPhonemizer { known_voices };
        assert(r.known() =~= known_voice_names());
        r
    }

    /// Whether `voice` is one of the known voices.
    pub fn knows(&self, voice: &str) -> (r: bool)
        ensures
            r == self.known().contains(voice@),
    {
        let n = self.known_voices.len();
        for k in 0..n
            invariant
                n == self.known_voices@.len(),
                forall|j: int| 0 <= j < k ==> self.known_voices@[j]@ != voice@,
        {
            if str_eq(self.known_voices[k].as_str(), voice) {
                assert(self.known()[k as int] == voice@);
                return true;
            }
        }
        assert(!self.known().contains(voice@)) by {
            if self.known().contains(voice@) {
                let j = choose|j: int| 0 <= j < self.known().len() && self.known()[j] == voice@;
                assert(self.known_voices@[j]@ == voice@);
            }
        }
        false
    }
}

impl Default for StubPhonemizer {
    fn default() -> (r: Self)
        ensures
            r.known() == known_voice_names(),
    {
        Self::new()
    }
}

impl Phonemizer for StubPhonemizer {
    /// A known voice gives the sentences of the text; an unknown one a
    /// backend failure naming it.
    open spec fn phonemized(&self, text: Seq<char>, voice: Seq<char>, r: Result<Vec<Sentence>, PhonemizationError>) -> bool {
        if self.known().contains(voice) {
            r matches Ok(v) && texts(v@) == sentences_of(text)
        } else {
            r matches Err(PhonemizationError::BackendFailure(msg)) && msg@ == "unknown voice: "@ + voice
        }
    }

    /// Splits `text` into sentences for a known voice; an unknown voice
    /// is a backend failure naming it.
    fn phonemize(&self, text: &str, voice: &str) -> (r: Result<Vec<Sentence>, PhonemizationError>)
        ensures
            self.known().contains(voice@) ==> (r matches Ok(v) && texts(v@) == sentences_of(text@)),
            !self.known().contains(voice@) ==> (r matches Err(PhonemizationError::BackendFailure(msg)) && msg@ == "unknown voice: "@ + voice@),
    {
        if !self.knows(voice) {
            return Err(PhonemizationError::BackendFailure(join2("unknown voice: ", voice)));
        }
        Ok(split_into_sentences(text))
    }
}

proof fn lemma_kept_trimmed(ps: Seq<Seq<char>>)
    ensures
        forall|i: int|
            0 <= i < kept(ps).len() ==> (#[trigger] kept(ps)[i]).len() > 0 && trim(kept(ps)[i]) == kept(ps)[i],
    decreases ps.len(),
{
    if ps.len() > 0 {
        lemma_kept_trimmed(ps.drop_last());
        lemma_trim_idempotent(ps.last());
        let before = kept(ps.drop_last());
        assert forall|i: int| 0 <= i < kept(ps).len() implies (#[trigger] kept(ps)[i]).len() > 0 && trim(
            kept(ps)[i],
        ) == kept(ps)[i] by {
            if i < before.len() {
                assert(kept(ps)[i] == before[i]);
            }
        }
    }
}

proof fn lemma_pieces_without_terminator(s: Seq<char>)
    requires
        forall|i: int| 0 <= i < s.len() ==> !is_terminator(#[trigger] s[i]),
    ensures
        pieces(s).0.len() == 0,
        pieces(s).1 == s,
    decreases s.len(),
{
    if s.len() > 0 {
        assert forall|i: int| 0 <= i < s.drop_last().len() implies !is_terminator(#[trigger] s.drop_last()[i]) by {
            assert(s.drop_last()[i] == s[i]);
        }
        lemma_pieces_without_terminator(s.drop_last());
        assert(!is_terminator(s[s.len() - 1]));
        assert(s.drop_last().push(s.last()) =~= s);
    }
}

/// Every sentence the stub returns is non-empty and already trimmed, and
/// text without a terminator is at most one sentence: the whole text,
/// trimmed.
pub proof fn lemma_sentences_trimmed(text: Seq<char>)
    ensures
        forall|i: int|
            0 <= i < sentences_of(text).len() ==> (#[trigger] sentences_of(text)[i]).len() > 0 && trim(
                sentences_of(text)[i],
            ) == sentences_of(text)[i],
        (forall|i: int| 0 <= i < text.len() ==> !is_terminator(#[trigger] text[i])) ==> sentences_of(text)
            == (if trim(text).len() == 0 {
            Seq::<Seq<char>>::empty()
        } else {
            seq![trim(text)]
        }),
{
    lemma_kept_trimmed(pieces(text).0.push(pieces(text).1));
    if forall|i: int| 0 <= i < text.len() ==> !is_terminator(#[trigger] text[i]) {
        lemma_pieces_without_terminator(text);
        let ps = pieces(text).0.push(pieces(text).1);
        assert(ps.drop_last() =~= Seq::<Seq<char>>::empty());
        assert(kept(ps.drop_last()) == Seq::<Seq<char>>::empty());
        assert(ps.last() == text);
        if trim(text).len() > 0 {
            assert(kept(ps) =~= seq![trim(text)]);
        } else {
            assert(kept(ps) =~= Seq::<Seq<char>>::empty());
        }
    }
}

/// Whether some character of `s` is not white space.
pub open spec fn has_non_white(s: Seq<char>) -> bool {
    exists|i: int| 0 <= i < s.len() && !is_white_space(#[trigger] s[i])
}

proof fn lemma_kept_grows(ps: Seq<Seq<char>>, x: Seq<char>)
    ensures
        kept(ps.push(x)).len() >= kept(ps).len(),
        has_non_white(x) ==> kept(ps.push(x)).len() > 0,
{
    assert(ps.push(x).drop_last() =~= ps);
    if has_non_white(x) {
        let i = choose|i: int| 0 <= i < x.len() && !is_white_space(#[trigger] x[i]);
        lemma_trim_keeps_non_white(x, i);
    }
}

proof fn lemma_push_keeps_non_white(s: Seq<char>, c: char)
    requires
        has_non_white(s) || !is_white_space(c),
    ensures
        has_non_white(s.push(c)),
{
    if has_non_white(s) {
        let i = choose|i: int| 0 <= i < s.len() && !is_white_space(#[trigger] s[i]);
        assert(s.push(c)[i] == s[i]);
    } else {
        assert(s.push(c)[s.len() as int] == c);
    }
}

proof fn lemma_pieces_keep_non_white(s: Seq<char>)
    requires
        has_non_white(s),
    ensures
        kept(pieces(s).0).len() > 0 || has_non_white(pieces(s).1),
    decreases s.len(),
{
    let prev = s.drop_last();
    let c = s.last();
    let (done, cur) = pieces(prev);
    let earlier = has_non_white(prev);
    if earlier {
        lemma_pieces_keep_non_white(prev);
    } else {
        let i = choose|i: int| 0 <= i < s.len() && !is_white_space(#[trigger] s[i]);
        if i < s.len() - 1 {
            assert(prev[i] == s[i]);
        }
        assert(!is_white_space(c));
    }
    if kept(done).len() == 0 {
        lemma_push_keeps_non_white(cur, c);
    }
    if is_terminator(c) {
        lemma_kept_grows(done, cur.push(c));
    }
}

/// Text with a character that is not white space gives at least one
/// sentence.
pub proof fn lemma_text_gives_a_sentence(text: Seq<char>)
    requires
        has_non_white(text),
    ensures
        sentences_of(text).len() > 0,
{
    lemma_pieces_keep_non_white(text);
    lemma_kept_grows(pieces(text).0, pieces(text).1);
}

} // verus!
