//! Phoneme encoding: turning a phoneme string into the id sequence a
//! voice model reads, with warnings for what could not be encoded.

use unicode_normalization::UnicodeNormalization;
use vstd::prelude::*;
use crate::phoneme_map::PhonemeIdMap;

verus! {

/// Begin-of-sequence sentinel.
pub const BOS: char = '^';

/// End-of-sequence sentinel.
pub const EOS: char = '$';

/// Padding sentinel, written after every encoded phoneme.
pub const PAD: char = '_';

/// The ids a model is fed.
#[derive(Debug, Clone, PartialEq, Eq)]
pub struct PhonemeIdSequence(pub Vec<i64>);

/// The three sentinel phonemes.
#[derive(Debug, Clone, Copy, PartialEq, Eq, Structural)]
pub enum Sentinel {
    Bos,
    Pad,
    Eos,
}

/// A non-fatal problem met while encoding.
#[derive(Debug, Clone, Copy, PartialEq, Eq, Structural)]
pub enum PhonemizationWarning {
    UnmappedPhoneme { phoneme: char },
    MissingSentinel { sentinel: Sentinel },
}

/// The ids of a phoneme string and the warnings met on the way.
#[derive(Debug, Clone, PartialEq, Eq)]
pub struct PhonemeEncoding {
    pub ids: PhonemeIdSequence,
    pub warnings: Vec<PhonemizationWarning>,
}

/// The ids a sentinel encodes to: its entry, or the single id `0` when
/// the map has none.
pub open spec fn sentinel_ids(m: Map<char, Seq<i64>>, c: char) -> Seq<i64> {
    if m.contains_key(c) {
        m[c]
    } else {
        seq![0i64]
    }
}

/// The ids of the phonemes of `chars`: each mapped phoneme's ids followed
/// by `pad`; an unmapped phoneme contributes nothing.
pub open spec fn body_ids(m: Map<char, Seq<i64>>, pad: Seq<i64>, chars: Seq<char>) -> Seq<i64>
    decreases chars.len(),
{
    if chars.len() == 0 {
        Seq::empty()
    } else {
        let before = body_ids(m, pad, chars.drop_last());
        let c = chars.last();
        if m.contains_key(c) {
            before + m[c] + pad
        } else {
            before
        }
    }
}

/// The id sequence of `chars`: the BOS ids, the body, the EOS ids.
pub open spec fn encoded_ids(m: Map<char, Seq<i64>>, chars: Seq<char>) -> Seq<i64> {
    sentinel_ids(m, BOS) + body_ids(m, sentinel_ids(m, PAD), chars) + sentinel_ids(m, EOS)
}

/// A warning for a sentinel the map lacks.
pub open spec fn sentinel_warning(m: Map<char, Seq<i64>>, c: char, s: Sentinel) -> Seq<
    PhonemizationWarning,
> {
    if m.contains_key(c) {
        Seq::empty()
    } else {
        seq![PhonemizationWarning::MissingSentinel { sentinel: s }]
    }
}

/// One warning per phoneme of `chars` that the map lacks, in order.
pub open spec fn unmapped_warnings(m: Map<char, Seq<i64>>, chars: Seq<char>) -> Seq<
    PhonemizationWarning,
>
    decreases chars.len(),
{
    if chars.len() == 0 {
        Seq::empty()
    } else {
        let before = unmapped_warnings(m, chars.drop_last());
        let c = chars.last();
        if m.contains_key(c) {
            before
        } else {
            before.push(PhonemizationWarning::UnmappedPhoneme { phoneme: c })
        }
    }
}

/// The warnings for the sentinels the map lacks: BOS, PAD, EOS, in that
/// order.
pub open spec fn sentinel_warnings(m: Map<char, Seq<i64>>) -> Seq<PhonemizationWarning> {
    sentinel_warning(m, BOS, Sentinel::Bos) + sentinel_warning(m, PAD, Sentinel::Pad)
        + sentinel_warning(m, EOS, Sentinel::Eos)
}

/// All warnings of encoding `chars`: the missing sentinels, then the
/// unmapped phonemes.
pub open spec fn encoding_warnings(m: Map<char, Seq<i64>>, chars: Seq<char>) -> Seq<
    PhonemizationWarning,
> {
    sentinel_warnings(m) + unmapped_warnings(m, chars)
}

/// Every character is a valid `char`, including one read out of a
/// sequence of characters: this gives `c` back as a value of its type.
pub proof fn char_value(c: char) -> (r: char)
    ensures
        r == c,
{
    c
}

/// The canonical (NFD) decomposition of a string, as the
/// `unicode-normalization` crate computes it.
pub uninterp spec fn nfd(s: Seq<char>) -> Seq<char>;

/// Calls `UnicodeNormalization::nfd` from the `unicode-normalization`
/// crate and collects the characters it yields. Claimed: the result is
/// the value of `nfd` at the characters of `s`, a function of `s` alone.
#[verifier::external_body]
fn nfd_chars(s: &str) -> (r: Vec<char>)
    ensures
        r@ == nfd(s@),
{
    s.nfd().collect()
}

proof fn lemma_step(m: Map<char, Seq<i64>>, pad: Seq<i64>, s: Seq<char>, k: int)
    requires
        0 <= k < s.len(),
    ensures
        m.contains_key(s[k]) ==> body_ids(m, pad, s.take(k + 1)) == body_ids(m, pad, s.take(k))
            + m[s[k]] + pad,
        !m.contains_key(s[k]) ==> body_ids(m, pad, s.take(k + 1)) == body_ids(m, pad, s.take(k)),
        m.contains_key(s[k]) ==> unmapped_warnings(m, s.take(k + 1)) == unmapped_warnings(
            m,
            s.take(k),
        ),
        !m.contains_key(s[k]) ==> unmapped_warnings(m, s.take(k + 1)) == unmapped_warnings(
            m,
            s.take(k),
        ).push(PhonemizationWarning::UnmappedPhoneme { phoneme: s[k] }),
{
    let t = s.take(k + 1);
    assert(t.drop_last() =~= s.take(k));
    assert(t.last() == s[k]);
    let _c = char_value(s[k]);
}

fn append_ids(dst: &mut Vec<i64>, src: &Vec<i64>)
    ensures
        final(dst)@ == old(dst)@ + src@,
{
    let ghost start = dst@;
    for k in 0..src.len()
        invariant
            dst@ == start + src@.take(k as int),
    {
        dst.push(src[k]);
        assert(src@.take(k + 1) =~= src@.take(k as int).push(src@[k as int]));
    }
    assert(src@.take(src@.len() as int) =~= src@);
}

fn sentinel(map: &PhonemeIdMap, c: char, s: Sentinel, warnings: &mut Vec<PhonemizationWarning>) -> (r: Vec<i64>)
    ensures
        r@ == sentinel_ids(map@, c),
        final(warnings)@ == old(warnings)@ + sentinel_warning(map@, c, s),
{
    match map.get(&c) {
        Some(ids) => {
            assert(old(warnings)@ + sentinel_warning(map@, c, s) =~= old(warnings)@);
            crate::phoneme_map::copy_ids(ids)
        },
        None => {
            warnings.push(PhonemizationWarning::MissingSentinel { sentinel: s });
            assert(old(warnings)@ + sentinel_warning(map@, c, s) =~= warnings@);
            let mut v: Vec<i64> = Vec::new();
            v.push(0);
            assert(v@ =~= seq![0i64]);
            v
        },
    }
}

/// Encodes already-normalized phoneme characters: the BOS ids, then for
/// each mapped character its ids and the PAD ids, then the EOS ids. A
/// missing sentinel encodes as `0`; every missing sentinel and unmapped
/// character gives a warning.
pub fn encode_phoneme_chars(map: &PhonemeIdMap, chars: &[char]) -> (e: PhonemeEncoding)
    ensures
        e.ids.0@ == encoded_ids(map@, chars@),
        e.warnings@ == encoding_warnings(map@, chars@),
{
    let mut warnings: Vec<PhonemizationWarning> = Vec::new();
    let bos_ids = sentinel(map, BOS, Sentinel::Bos, &mut warnings);
    let pad_ids = sentinel(map, PAD, Sentinel::Pad, &mut warnings);
    let eos_ids = sentinel(map, EOS, Sentinel::Eos, &mut warnings);
    let ghost m = map@;
    let ghost pad = pad_ids@;
    let ghost sentinel_part = warnings@;
    let mut ids: Vec<i64> = Vec::new();
    append_ids(&mut ids, &bos_ids);
    let n = chars.len();
    proof {
        assert(chars@.take(0) =~= Seq::<char>::empty());
        assert(warnings@ =~= sentinel_part + unmapped_warnings(m, chars@.take(0)));
    }
    for k in 0..n
        invariant
            n == chars@.len(),
            m == map@,
            pad == pad_ids@,
            pad == sentinel_ids(m, PAD),
            sentinel_part == sentinel_warnings(m),
            ids@ == sentinel_ids(m, BOS) + body_ids(m, pad, chars@.take(k as int)),
            warnings@ == sentinel_part + unmapped_warnings(m, chars@.take(k as int)),
    {
        let ch = chars[k];
        proof {
            let _c = char_value(ch);
            lemma_step(m, pad, chars@, k as int);
        }
        match map.get(&ch) {
            Some(phoneme_ids) => {
                append_ids(&mut ids, phoneme_ids);
                append_ids(&mut ids, &pad_ids);
                assert(ids@ =~= sentinel_ids(m, BOS) + body_ids(m, pad, chars@.take(k + 1)));
            },
            None => {
                let ghost before = warnings@;
                warnings.push(PhonemizationWarning::UnmappedPhoneme { phoneme: ch });
                assert(warnings@ =~= sentinel_part + unmapped_warnings(m, chars@.take(k + 1)));
            },
        }
    }
    proof {
        assert(chars@.take(n as int) =~= chars@);
    }
    append_ids(&mut ids, &eos_ids);
    PhonemeEncoding { ids: PhonemeIdSequence(ids), warnings }
}

/// Encodes a phoneme string for a voice: it is first put into canonical
/// decomposition (NFD), then encoded as `encode_phoneme_chars` does.
pub fn encode_phonemes(map: &PhonemeIdMap, phonemes: &str) -> (e: PhonemeEncoding)
    ensures
        e.ids.0@ == encoded_ids(map@, nfd(phonemes@)),
        e.warnings@ == encoding_warnings(map@, nfd(phonemes@)),
{
    let chars = nfd_chars(phonemes);
    encode_phoneme_chars(map, chars.as_slice())
}

/// Every encoding is framed by the sentinels: it begins with the BOS ids
/// and ends with the EOS ids, whatever the phonemes.
pub proof fn lemma_encoding_framed(m: Map<char, Seq<i64>>, chars: Seq<char>)
    ensures
        encoded_ids(m, chars).take(sentinel_ids(m, BOS).len() as int) == sentinel_ids(m, BOS),
        encoded_ids(m, chars).skip(encoded_ids(m, chars).len() - sentinel_ids(m, EOS).len())
            == sentinel_ids(m, EOS),
{
    let b = sentinel_ids(m, BOS);
    let body = body_ids(m, sentinel_ids(m, PAD), chars);
    let e = sentinel_ids(m, EOS);
    assert((b + body + e).take(b.len() as int) =~= b);
    assert((b + body + e).skip((b + body + e).len() - e.len()) =~= e);
}

/// Encoding is compositional: the body of `a` followed by `b` is the body
/// of `a` followed by the body of `b`, and so are its unmapped-phoneme
/// warnings.
pub proof fn lemma_encoding_concat(m: Map<char, Seq<i64>>, pad: Seq<i64>, a: Seq<char>, b: Seq<char>)
    ensures
        body_ids(m, pad, a + b) == body_ids(m, pad, a) + body_ids(m, pad, b),
        unmapped_warnings(m, a + b) == unmapped_warnings(m, a) + unmapped_warnings(m, b),
    decreases b.len(),
{
    if b.len() == 0 {
        assert(a + b =~= a);
        assert(body_ids(m, pad, a) + body_ids(m, pad, b) =~= body_ids(m, pad, a));
        assert(unmapped_warnings(m, a) + unmapped_warnings(m, b) =~= unmapped_warnings(m, a));
    } else {
        lemma_encoding_concat(m, pad, a, b.drop_last());
        assert((a + b).drop_last() =~= a + b.drop_last());
        assert((a + b).last() == b.last());
        let c = b.last();
        let _c = char_value(c);
        if m.contains_key(c) {
            assert(body_ids(m, pad, a) + body_ids(m, pad, b) =~= body_ids(m, pad, a) + body_ids(
                m,
                pad,
                b.drop_last(),
            ) + m[c] + pad);
        } else {
            assert(unmapped_warnings(m, a) + unmapped_warnings(m, b) =~= (unmapped_warnings(m, a)
                + unmapped_warnings(m, b.drop_last())).push(
                PhonemizationWarning::UnmappedPhoneme { phoneme: c },
            ));
        }
    }
}

/// Encoding, phoneme by phoneme: nothing encodes as the BOS ids followed
/// by the EOS ids; one more phoneme that the map has (the word-separating
/// space as much as any other) puts its ids and the PAD ids just before
/// the EOS ids; one it lacks changes nothing. A sentinel the map lacks
/// counts as the single id `0`. In particular a single mapped phoneme
/// encodes as BOS, its ids, PAD, EOS.
pub proof fn lemma_encoding_by_phoneme(m: Map<char, Seq<i64>>, a: Seq<char>, c: char)
    ensures
        encoded_ids(m, Seq::empty()) == (if m.contains_key('^') { m['^'] } else { seq![0i64] }) + (
        if m.contains_key('$') { m['$'] } else { seq![0i64] }),
        m.contains_key(c) ==> encoded_ids(m, a.push(c)) == encoded_ids(m, a).take(
            encoded_ids(m, a).len() - (if m.contains_key('$') { m['$'] } else { seq![0i64] }).len(),
        ) + m[c] + (if m.contains_key('_') { m['_'] } else { seq![0i64] }) + (if m.contains_key('$') {
            m['$']
        } else {
            seq![0i64]
        }),
        !m.contains_key(c) ==> encoded_ids(m, a.push(c)) == encoded_ids(m, a),
        m.contains_key(c) ==> encoded_ids(m, seq![c]) == (if m.contains_key('^') { m['^'] } else {
            seq![0i64]
        }) + m[c] + (if m.contains_key('_') { m['_'] } else { seq![0i64] }) + (if m.contains_key('$') {
            m['$']
        } else {
            seq![0i64]
        }),
{
    let b = sentinel_ids(m, BOS);
    let pad = sentinel_ids(m, PAD);
    let e = sentinel_ids(m, EOS);
    let body = body_ids(m, pad, a);
    assert(body_ids(m, pad, Seq::<char>::empty()) =~= Seq::<i64>::empty());
    assert(b + Seq::<i64>::empty() + e =~= b + e);
    assert(a.push(c).drop_last() =~= a);
    assert(a.push(c).last() == c);
    assert((b + body + e).take((b + body + e).len() - e.len()) =~= b + body);
    if m.contains_key(c) {
        assert(b + (body + m[c] + pad) + e =~= b + body + m[c] + pad + e);
    }
    let one: Seq<char> = seq![c];
    assert(one =~= Seq::<char>::empty().push(c));
    assert(body_ids(m, pad, one.drop_last()) =~= Seq::<i64>::empty());
    if m.contains_key(c) {
        assert(b + (Seq::<i64>::empty() + m[c] + pad) + e =~= b + m[c] + pad + e);
    }
}

proof fn lemma_unmapped_empty(m: Map<char, Seq<i64>>, chars: Seq<char>)
    ensures
        unmapped_warnings(m, chars).len() == 0 <==> forall|i: int|
            0 <= i < chars.len() ==> m.contains_key(#[trigger] chars[i]),
    decreases chars.len(),
{
    if chars.len() > 0 {
        lemma_unmapped_empty(m, chars.drop_last());
        let _c = char_value(chars.last());
        if unmapped_warnings(m, chars).len() == 0 {
            assert(m.contains_key(chars.last()));
            assert forall|i: int| 0 <= i < chars.len() implies m.contains_key(#[trigger] chars[i]) by {
                if i < chars.len() - 1 {
                    assert(chars.drop_last()[i] == chars[i]);
                }
            }
        } else if forall|i: int| 0 <= i < chars.len() ==> m.contains_key(#[trigger] chars[i]) {
            assert forall|i: int| 0 <= i < chars.drop_last().len() implies m.contains_key(
                #[trigger] chars.drop_last()[i],
            ) by {
                assert(chars.drop_last()[i] == chars[i]);
            }
            assert(m.contains_key(chars[chars.len() - 1]));
        }
    }
}

/// An encoding is free of warnings exactly when the map has all three
/// sentinels and every phoneme.
pub proof fn lemma_clean_encoding(m: Map<char, Seq<i64>>, chars: Seq<char>)
    ensures
        encoding_warnings(m, chars).len() == 0 <==> (m.contains_key(BOS) && m.contains_key(PAD)
            && m.contains_key(EOS) && forall|i: int| 0 <= i < chars.len() ==> m.contains_key(#[trigger] chars[i])),
{
    lemma_unmapped_empty(m, chars);
}

} // verus!
