use genome_selfsim::batch::{sequence_batches, DistanceDataBatch};
use genome_selfsim::fasta::{load_chromosomes_from_bytes, parse_fasta_from_bytes};
use genome_selfsim::grid::{compute_chromosome_pairs, compute_row, window_params};
use genome_selfsim::ipc::{write_chromosomes_ipc, ProcessError};
use genome_selfsim::levenshtein::levenshtein_distance;
use genome_selfsim::report::process_chromosomes_to_reports;
use genome_selfsim::{process_fasta_to_ipc_bytes, process_fasta_to_reports};

use arrow::array::{StringArray, UInt16Array, UInt32Array, UInt8Array};
use arrow::ipc::reader::FileReader;
use std::io::Cursor;
use std::io::Write;

/// Reads every row of a finished single-sequence container (no name column).
fn read_rows_single(bytes: &[u8]) -> Vec<(u32, u32, u16, u8)> {
    let reader = FileReader::try_new(Cursor::new(bytes.to_vec()), None).unwrap();
    let schema = reader.schema();
    assert_eq!(schema.fields().len(), 4);
    assert_eq!(schema.field(0).name(), "idx1");
    assert_eq!(schema.field(1).name(), "idx2");
    assert_eq!(schema.field(2).name(), "distance");
    assert_eq!(schema.field(3).name(), "type");
    let mut rows = Vec::new();
    for batch in reader {
        let batch = batch.unwrap();
        let i1 = batch.column(0).as_any().downcast_ref::<UInt32Array>().unwrap();
        let i2 = batch.column(1).as_any().downcast_ref::<UInt32Array>().unwrap();
        let d = batch.column(2).as_any().downcast_ref::<UInt16Array>().unwrap();
        let t = batch.column(3).as_any().downcast_ref::<UInt8Array>().unwrap();
        for r in 0..batch.num_rows() {
            rows.push((i1.value(r), i2.value(r), d.value(r), t.value(r)));
        }
    }
    rows
}

/// Reads every row of a finished multi-sequence container back out.
fn read_rows(bytes: &[u8]) -> Vec<(String, u32, u32, u16, u8)> {
    let reader = FileReader::try_new(Cursor::new(bytes.to_vec()), None).unwrap();
    let schema = reader.schema();
    assert_eq!(schema.field(0).name(), "chromosome");
    assert_eq!(schema.field(1).name(), "idx1");
    assert_eq!(schema.field(2).name(), "idx2");
    assert_eq!(schema.field(3).name(), "distance");
    assert_eq!(schema.field(4).name(), "type");
    let mut rows = Vec::new();
    for batch in reader {
        let batch = batch.unwrap();
        let names = batch.column(0).as_any().downcast_ref::<StringArray>().unwrap();
        let i1 = batch.column(1).as_any().downcast_ref::<UInt32Array>().unwrap();
        let i2 = batch.column(2).as_any().downcast_ref::<UInt32Array>().unwrap();
        let d = batch.column(3).as_any().downcast_ref::<UInt16Array>().unwrap();
        let t = batch.column(4).as_any().downcast_ref::<UInt8Array>().unwrap();
        for r in 0..batch.num_rows() {
            rows.push((names.value(r).to_string(), i1.value(r), i2.value(r), d.value(r), t.value(r)));
        }
    }
    rows
}

#[test]
fn test_window_params_boundaries() {
    assert_eq!(window_params(1000), (10, 0));
    assert_eq!(window_params(100000), (10, 0));
    assert_eq!(window_params(100001), (100, 1));
    assert_eq!(window_params(1000000), (100, 1));
    assert_eq!(window_params(1000001), (1000, 2));
}

#[test]
fn test_single_pair_scenario() {
    // length 2500 -> 2 grid points -> exactly one pair (0, 1), delta 1000,
    // tier 0, window 10: bytes [0, 10) against bytes [1000, 1010)
    let mut seq = vec![b'A'; 2500];
    for p in 1000..1010 {
        seq[p] = b'T';
    }
    seq[1000] = b'A'; // one matching byte -> distance 9
    let recs = compute_chromosome_pairs(&seq);
    assert_eq!(recs.len(), 1);
    assert_eq!(recs[0].idx1, 0);
    assert_eq!(recs[0].idx2, 1);
    assert_eq!(recs[0].resolution, 0);
    assert_eq!(
        recs[0].distance,
        levenshtein_distance(&seq[0..10], &seq[1000..1010])
    );
    assert_eq!(recs[0].distance, 9);
}

#[test]
fn test_pair_enumeration_row_major() {
    // length 5000 -> 5 grid points -> 10 pairs in row-major order
    let seq = vec![b'C'; 5000];
    let recs = compute_chromosome_pairs(&seq);
    let expected: Vec<(u32, u32)> = vec![
        (0, 1),
        (0, 2),
        (0, 3),
        (0, 4),
        (1, 2),
        (1, 3),
        (1, 4),
        (2, 3),
        (2, 4),
        (3, 4),
    ];
    let got: Vec<(u32, u32)> = recs.iter().map(|r| (r.idx1, r.idx2)).collect();
    assert_eq!(got, expected);
    for r in recs.iter() {
        // identical windows everywhere
        assert_eq!(r.distance, 0);
        assert_eq!(r.resolution, 0);
    }
}

#[test]
fn test_compute_row_matches_whole() {
    let mut seq = vec![b'A'; 4000];
    for p in 0..4000 {
        if p % 7 == 0 {
            seq[p] = b'G';
        }
    }
    let whole = compute_chromosome_pairs(&seq);
    let mut by_rows = Vec::new();
    for i in 0..4 {
        by_rows.extend(compute_row(&seq, i));
    }
    assert_eq!(whole, by_rows);
}

#[test]
fn test_short_sequence_yields_nothing() {
    // fewer than two grid points -> zero pairs
    let seq = vec![b'A'; 999];
    let recs = compute_chromosome_pairs(&seq);
    assert_eq!(recs.len(), 0);
}

#[test]
fn test_batch_accumulator() {
    let mut b = DistanceDataBatch::new(2);
    assert!(b.is_empty());
    assert!(!b.is_full());
    let seq = vec![b'A'; 3000];
    let recs = compute_chromosome_pairs(&seq);
    assert_eq!(recs.len(), 3);
    b.add(recs[0]);
    assert!(!b.is_full());
    b.add(recs[1]);
    assert!(b.is_full());
    assert_eq!(b.len(), 2);
    assert_eq!(b.get(0), recs[0]);
    assert_eq!(b.get(1), recs[1]);
    let full = b.detach();
    assert_eq!(full.len(), 2);
    assert!(b.is_empty());
}

#[test]
fn test_sequence_batches_chunking() {
    // 4 grid points -> 6 records; capacity 4 -> batches of 4 and 2
    let seq = vec![b'T'; 4000];
    let batches = sequence_batches(&seq, 4);
    assert_eq!(batches.len(), 2);
    assert_eq!(batches[0].len(), 4);
    assert_eq!(batches[1].len(), 2);
    // capacity 6 -> one exactly-full batch, no empty trailing batch
    let batches6 = sequence_batches(&seq, 6);
    assert_eq!(batches6.len(), 1);
    assert_eq!(batches6[0].len(), 6);
    // row order is preserved across the chunking
    let recs = compute_chromosome_pairs(&seq);
    let mut flat = Vec::new();
    for b in batches.iter() {
        for k in 0..b.len() {
            flat.push(b.get(k));
        }
    }
    assert_eq!(flat, recs);
}

#[test]
fn test_parse_fasta_basic() {
    let text = b">chr1 extra words\nACGT\nacgtn\n>chr2\nNNNN\n";
    let chroms = parse_fasta_from_bytes(text);
    assert_eq!(chroms.len(), 2);
    assert_eq!(chroms[0].0, "chr1");
    assert_eq!(chroms[0].1, b"ACGTACGTN".to_vec());
    assert_eq!(chroms[1].0, "chr2");
    assert_eq!(chroms[1].1, b"NNNN".to_vec());
}

#[test]
fn test_parse_fasta_filters_and_folds() {
    // digits, gaps and unknown letters are stripped; case is folded
    let text = b">s\nac-gt 12xyz\nTTxNN\n";
    let chroms = parse_fasta_from_bytes(text);
    assert_eq!(chroms.len(), 1);
    assert_eq!(chroms[0].1, b"ACGTTTNN".to_vec());
}

#[test]
fn test_parse_fasta_crlf_and_unnamed() {
    let text = b">\r\nACGT\r\n> \t\r\nTTTT\r\n";
    let chroms = parse_fasta_from_bytes(text);
    assert_eq!(chroms.len(), 2);
    assert_eq!(chroms[0].0, "UnnamedSequence1");
    assert_eq!(chroms[0].1, b"ACGT".to_vec());
    assert_eq!(chroms[1].0, "UnnamedSequence2");
    assert_eq!(chroms[1].1, b"TTTT".to_vec());
}

#[test]
fn test_parse_fasta_edge_cases() {
    // bytes before any header are ignored; a header with no bases is dropped;
    // a final record without a newline is kept
    let text = b"ACGT\n>empty\n\n>last\nGG";
    let chroms = parse_fasta_from_bytes(text);
    assert_eq!(chroms.len(), 1);
    assert_eq!(chroms[0].0, "last");
    assert_eq!(chroms[0].1, b"GG".to_vec());
}

#[test]
fn test_gzip_roundtrip_load() {
    let mut text = b">chrZ\n".to_vec();
    text.extend(vec![b'A'; 64]);
    text.push(b'\n');
    let gz = {
        let mut enc =
            flate2::write::GzEncoder::new(Vec::new(), flate2::Compression::default());
        enc.write_all(&text).unwrap();
        enc.finish().unwrap()
    };
    let plain = load_chromosomes_from_bytes(&text, false).unwrap();
    let unzipped = load_chromosomes_from_bytes(&gz, true).unwrap();
    assert_eq!(plain.len(), 1);
    assert_eq!(plain[0].0, unzipped[0].0);
    assert_eq!(plain[0].1, unzipped[0].1);
}

#[test]
fn test_gzip_malformed_fails() {
    let r = load_chromosomes_from_bytes(b"not a gzip stream", true);
    assert!(matches!(r, Err(ProcessError::Decompress(_))));
}

#[test]
fn test_ipc_roundtrip() {
    // serializing then deserializing yields row-for-row identical tuples
    let mut seq1 = vec![b'A'; 3000];
    for p in 0..3000 {
        if p % 11 == 0 {
            seq1[p] = b'C';
        }
    }
    let seq2 = vec![b'G'; 2000];
    let chroms = vec![
        ("alpha".to_string(), seq1.clone()),
        ("beta".to_string(), seq2.clone()),
    ];
    let bytes = write_chromosomes_ipc(&chroms).unwrap();
    let rows = read_rows(&bytes);
    let mut expected = Vec::new();
    for (name, sq) in &chroms {
        for r in compute_chromosome_pairs(sq) {
            expected.push((name.clone(), r.idx1, r.idx2, r.distance, r.resolution));
        }
    }
    assert_eq!(rows, expected);
}

#[test]
fn test_ipc_batch_boundaries() {
    // 5000 bp -> 10 records; the embedded capacity (4096) is not reached, so
    // one batch per sequence
    let chroms = vec![("one".to_string(), vec![b'T'; 5000])];
    let bytes = write_chromosomes_ipc(&chroms).unwrap();
    let reader = FileReader::try_new(Cursor::new(bytes), None).unwrap();
    let batches: Vec<_> = reader.map(|b| b.unwrap()).collect();
    assert_eq!(batches.len(), 1);
    assert_eq!(batches[0].num_rows(), 10);
}

#[test]
fn test_single_sequence_omits_name_column() {
    // a run over exactly one sequence writes the four-column container
    let seq = vec![b'G'; 5000];
    let chroms = vec![("solo".to_string(), seq.clone())];
    let bytes = write_chromosomes_ipc(&chroms).unwrap();
    let rows = read_rows_single(&bytes);
    let expected: Vec<(u32, u32, u16, u8)> = compute_chromosome_pairs(&seq)
        .iter()
        .map(|r| (r.idx1, r.idx2, r.distance, r.resolution))
        .collect();
    assert_eq!(rows, expected);
}

#[test]
fn test_ipc_empty_dataset() {
    // a sequence shorter than one grid spacing: the run completes with an
    // empty output dataset (single sequence, so no name column)
    let chroms = vec![("tiny".to_string(), vec![b'A'; 999])];
    let bytes = write_chromosomes_ipc(&chroms).unwrap();
    let rows = read_rows_single(&bytes);
    assert_eq!(rows.len(), 0);
}

#[test]
fn test_name_too_long() {
    // in a multi-sequence run the name column's 32-bit offsets bound the
    // name length; an over-long name is refused, never truncated
    let long_name: String = "x".repeat(200000);
    let chroms = vec![
        (long_name, vec![b'A'; 2500]),
        ("ok".to_string(), vec![b'A'; 2500]),
    ];
    let r = write_chromosomes_ipc(&chroms);
    assert!(matches!(r, Err(ProcessError::NameTooLong)));
    // the same name is fine in a single-sequence run: no name column exists
    let solo = vec![("y".repeat(200000), vec![b'A'; 2500])];
    assert!(write_chromosomes_ipc(&solo).is_ok());
}

#[test]
fn test_ipc_skips_short_first_sequence() {
    // first sequence too short (999 bp, skipped), second long enough: the
    // output holds records only for the second sequence's name
    let chroms = vec![
        ("short".to_string(), vec![b'A'; 999]),
        ("long".to_string(), vec![b'A'; 5000]),
    ];
    let bytes = write_chromosomes_ipc(&chroms).unwrap();
    let rows = read_rows(&bytes);
    assert_eq!(rows.len(), 10);
    for (name, _, _, d, t) in &rows {
        assert_eq!(name, "long");
        assert_eq!(*d, 0);
        assert_eq!(*t, 0);
    }
}

#[test]
fn test_ipc_no_chromosomes() {
    let chroms: Vec<(String, Vec<u8>)> = Vec::new();
    let r = write_chromosomes_ipc(&chroms);
    assert!(matches!(r, Err(ProcessError::NoChromosomes)));
}

#[test]
fn test_process_fasta_to_ipc_bytes_end_to_end() {
    let mut text = b">first\n".to_vec();
    text.extend(vec![b'A'; 999]);
    text.push(b'\n');
    text.extend(b">second\n".to_vec());
    text.extend(vec![b'G'; 5000]);
    text.push(b'\n');
    let bytes = process_fasta_to_ipc_bytes(&text, false).unwrap();
    let rows = read_rows(&bytes);
    assert_eq!(rows.len(), 10);
    assert!(rows.iter().all(|(name, _, _, _, _)| name == "second"));
}

#[test]
fn test_process_fasta_to_ipc_bytes_empty_input() {
    let r = process_fasta_to_ipc_bytes(b"", false);
    assert!(matches!(r, Err(ProcessError::NoChromosomes)));
}

#[test]
fn test_reports() {
    let chroms = vec![
        ("short".to_string(), vec![b'C'; 999]),
        ("big".to_string(), vec![b'C'; 5000]),
    ];
    let reports = process_chromosomes_to_reports(&chroms).unwrap();
    assert_eq!(reports.len(), 1);
    assert_eq!(reports[0].name, "big");
    assert_eq!(reports[0].max_idx, 4);
    assert_eq!(reports[0].points.len(), 10);
    assert_eq!(reports[0].points[0].x, 0);
    assert_eq!(reports[0].points[0].y, 1);
    assert_eq!(reports[0].points[0].d, 0);
    let last = reports[0].points[9];
    assert_eq!((last.x, last.y), (3, 4));
}

#[test]
fn test_process_fasta_to_reports_end_to_end() {
    let mut text = b">c1\n".to_vec();
    text.extend(vec![b'A'; 2500]);
    let reports = process_fasta_to_reports(&text, false).unwrap();
    assert_eq!(reports.len(), 1);
    assert_eq!(reports[0].name, "c1");
    assert_eq!(reports[0].max_idx, 1);
    assert_eq!(reports[0].points.len(), 1);
    let r = process_fasta_to_reports(b"\n\n", false);
    assert!(matches!(r, Err(ProcessError::NoChromosomes)));
}
