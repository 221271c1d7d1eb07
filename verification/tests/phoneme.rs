use piper_rs::phoneme::{
    encode_phoneme_chars, encode_phonemes, PhonemeIdSequence, PhonemizationWarning, Sentinel, BOS,
    EOS, PAD,
};
use piper_rs::phoneme_map::PhonemeIdMap;

fn map(entries: Vec<(char, Vec<i64>)>) -> PhonemeIdMap {
    PhonemeIdMap::from_pairs(entries)
}

#[test]
fn phoneme_extends_every_id_in_a_multi_id_phoneme_mapping() {
    let m = map(vec![(BOS, vec![1]), (PAD, vec![0]), (EOS, vec![2]), ('a', vec![10, 11])]);

    let encoding = encode_phonemes(&m, "a");

    assert_eq!(encoding.ids, PhonemeIdSequence(vec![1, 10, 11, 0, 2]));
    assert_eq!(encoding.warnings, vec![]);
}

#[test]
fn phoneme_inserts_pad_after_each_phoneme_but_not_after_bos() {
    let m = map(vec![
        (BOS, vec![1]),
        (PAD, vec![0]),
        (EOS, vec![2]),
        ('a', vec![10]),
        ('b', vec![20]),
    ]);

    let encoding = encode_phonemes(&m, "ab");

    assert_eq!(encoding.ids, PhonemeIdSequence(vec![1, 10, 0, 20, 0, 2]));
    assert_eq!(encoding.warnings, vec![]);
}

#[test]
fn drops_unmapped_phonemes_and_warns() {
    let m = map(vec![(BOS, vec![1]), (PAD, vec![0]), (EOS, vec![2]), ('a', vec![10])]);

    let encoding = encode_phonemes(&m, "ab");

    assert_eq!(encoding.ids, PhonemeIdSequence(vec![1, 10, 0, 2]));
    assert_eq!(
        encoding.warnings,
        vec![PhonemizationWarning::UnmappedPhoneme { phoneme: 'b' }]
    );
}

#[test]
fn defaults_missing_sentinels_to_zero_and_warns() {
    let m = map(vec![('a', vec![5])]);

    let encoding = encode_phonemes(&m, "a");

    assert_eq!(encoding.ids, PhonemeIdSequence(vec![0, 5, 0, 0]));
    assert_eq!(
        encoding.warnings,
        vec![
            PhonemizationWarning::MissingSentinel { sentinel: Sentinel::Bos },
            PhonemizationWarning::MissingSentinel { sentinel: Sentinel::Pad },
            PhonemizationWarning::MissingSentinel { sentinel: Sentinel::Eos },
        ]
    );
}

#[test]
fn phoneme_normalizes_composed_phonemes_to_nfd_before_lookup() {
    let m = map(vec![
        (BOS, vec![1]),
        (PAD, vec![0]),
        (EOS, vec![2]),
        ('c', vec![10]),
        ('\u{0327}', vec![11]),
    ]);

    let encoding = encode_phonemes(&m, "\u{00E7}");

    assert_eq!(encoding.ids, PhonemeIdSequence(vec![1, 10, 0, 11, 0, 2]));
    assert_eq!(encoding.warnings, vec![]);
}

#[test]
fn encoding_of_no_phonemes_is_just_the_sentinels() {
    let m = map(vec![(BOS, vec![1, 7]), (PAD, vec![0]), (EOS, vec![2])]);

    let encoding = encode_phonemes(&m, "");

    assert_eq!(encoding.ids, PhonemeIdSequence(vec![1, 7, 2]));
    assert_eq!(encoding.warnings, vec![]);
}

#[test]
fn encoding_is_framed_by_bos_and_eos_ids() {
    let m = map(vec![(BOS, vec![1]), (PAD, vec![0]), (EOS, vec![2, 3]), ('x', vec![9])]);

    let ids = encode_phonemes(&m, "xqx").ids.0;

    assert_eq!(ids.first(), Some(&1));
    assert_eq!(&ids[ids.len() - 2..], &[2, 3]);
    assert_eq!(ids, vec![1, 9, 0, 9, 0, 2, 3]);
}

#[test]
fn encoding_of_concatenated_phonemes_concatenates_bodies() {
    let m = map(vec![(BOS, vec![1]), (PAD, vec![0]), (EOS, vec![2]), ('a', vec![4]), ('b', vec![5])]);

    let ab = encode_phonemes(&m, "ab").ids.0;
    let a = encode_phonemes(&m, "a").ids.0;
    let b = encode_phonemes(&m, "b").ids.0;

    let mut joined = a[..a.len() - 1].to_vec();
    joined.extend_from_slice(&b[1..]);
    assert_eq!(ab, joined);
}

#[test]
fn a_clean_encoding_has_no_warnings() {
    let m = map(vec![(BOS, vec![1]), (PAD, vec![0]), (EOS, vec![2]), ('a', vec![4])]);

    assert!(encode_phonemes(&m, "aaa").warnings.is_empty());
    assert_eq!(encode_phonemes(&m, "aza").warnings.len(), 1);
}

#[test]
fn unmapped_phonemes_are_warned_in_order() {
    let m = map(vec![(BOS, vec![1]), (PAD, vec![0]), (EOS, vec![2])]);

    let encoding = encode_phoneme_chars(&m, &['x', 'y', 'x']);

    assert_eq!(encoding.ids, PhonemeIdSequence(vec![1, 2]));
    assert_eq!(
        encoding.warnings,
        vec![
            PhonemizationWarning::UnmappedPhoneme { phoneme: 'x' },
            PhonemizationWarning::UnmappedPhoneme { phoneme: 'y' },
            PhonemizationWarning::UnmappedPhoneme { phoneme: 'x' },
        ]
    );
}

#[test]
fn encode_phoneme_chars_does_not_normalize() {
    let m = map(vec![(BOS, vec![1]), (PAD, vec![0]), (EOS, vec![2]), ('c', vec![10])]);

    let encoding = encode_phoneme_chars(&m, &['\u{00E7}']);

    assert_eq!(encoding.ids, PhonemeIdSequence(vec![1, 2]));
    assert_eq!(
        encoding.warnings,
        vec![PhonemizationWarning::UnmappedPhoneme { phoneme: '\u{00E7}' }]
    );
}

#[test]
fn later_entries_for_the_same_phoneme_replace_earlier_ones() {
    let m = map(vec![('a', vec![1]), ('a', vec![2, 3])]);

    assert_eq!(m.get(&'a'), Some(&vec![2, 3]));
    assert!(m.contains_key(&'a'));
    assert!(!m.contains_key(&'b'));
    assert_eq!(m.get(&'b'), None);
}

#[test]
fn phoneme_map_insert_overwrites() {
    let mut m = PhonemeIdMap::new();
    m.insert('a', vec![1]);
    m.insert('b', vec![2]);
    m.insert('a', vec![3]);

    assert_eq!(m.get(&'a'), Some(&vec![3]));
    assert_eq!(m.get(&'b'), Some(&vec![2]));
}

#[test]
fn entries_list_every_mapping_once() {
    let m = map(vec![('b', vec![2]), ('a', vec![1, 1]), ('b', vec![3])]);
    let mut entries = m.entries();
    entries.sort();
    assert_eq!(entries, vec![('a', vec![1, 1]), ('b', vec![3])]);
    assert_eq!(m.clone(), m);
}
