use genome_selfsim::levenshtein::levenshtein_distance;

#[test]
fn test_levenshtein_empty() {
    assert_eq!(levenshtein_distance(b"", b""), 0);
    assert_eq!(levenshtein_distance(b"abc", b""), 3);
    assert_eq!(levenshtein_distance(b"", b"abc"), 3);
}

#[test]
fn test_levenshtein_basic() {
    assert_eq!(levenshtein_distance(b"kitten", b"sitting"), 3);
    assert_eq!(levenshtein_distance(b"ACGT", b"AGGT"), 1);
}

#[test]
fn test_levenshtein_identical() {
    assert_eq!(levenshtein_distance(b"abc", b"abc"), 0);
}

#[test]
fn test_levenshtein_order_invariant() {
    assert_eq!(
        levenshtein_distance(b"longstring", b"short"),
        levenshtein_distance(b"short", b"longstring")
    );
}

#[test]
fn test_levenshtein_symmetry_more() {
    let pairs: Vec<(&[u8], &[u8])> = vec![
        (b"ACGTACGT", b"TGCATGCA"),
        (b"AAAA", b"AAAT"),
        (b"", b"N"),
        (b"GATTACA", b"GATTACA"),
    ];
    for (a, b) in pairs {
        assert_eq!(levenshtein_distance(a, b), levenshtein_distance(b, a));
    }
}

#[test]
fn test_levenshtein_self_and_empty() {
    let words: Vec<&[u8]> = vec![b"A", b"ACGTN", b"TTTTTTTTTT"];
    for w in words {
        assert_eq!(levenshtein_distance(w, w), 0);
        assert_eq!(levenshtein_distance(w, b""), w.len() as u16);
        assert_eq!(levenshtein_distance(b"", w), w.len() as u16);
    }
}

#[test]
fn test_levenshtein_window_scenarios() {
    // identical four-byte windows, then windows differing in the last byte
    assert_eq!(levenshtein_distance(b"AAAA", b"AAAA"), 0);
    assert_eq!(levenshtein_distance(b"AAAA", b"AAAT"), 1);
}
