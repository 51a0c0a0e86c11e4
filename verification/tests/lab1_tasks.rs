use mttp::lab1::errors::{SystemError, TaskError};
use mttp::lab1::task::lifecycle::Manageable;
use mttp::lab1::tasks::child_outputs::{parse_outputs, total_of_outputs};
use mttp::lab1::tasks::factorization::{div_ceil, Factorization};
use mttp::lab1::tasks::io::WordCount;
use mttp::lab1::tasks::monte_carlo::MonteCarlo;
use mttp::lab1::tasks::primes::Primes;
use mttp::lab1::tasks::transpose::Transpose;

fn strings(items: &[&str]) -> Vec<String> {
    items.iter().map(|s| s.to_string()).collect()
}

#[test]
fn is_prime_small_numbers() {
    assert!(!Primes::is_prime(0));
    assert!(!Primes::is_prime(1));
    assert!(Primes::is_prime(2));
    assert!(Primes::is_prime(3));
    assert!(!Primes::is_prime(4));
    assert!(Primes::is_prime(97));
    assert!(!Primes::is_prime(91));
    assert!(!Primes::is_prime(25));
    assert!(Primes::is_prime(4_294_967_291));
}

#[test]
fn primes_up_to_one_hundred() {
    let primes = Primes::with_range(1..=100);
    assert_eq!(primes.count_primes(), 25);
}

#[test]
fn primes_of_empty_range() {
    let primes = Primes::with_range(10..=9);
    assert_eq!(primes.count_primes(), 0);
}

#[test]
fn lanes_together_count_every_prime_once() {
    let primes = Primes::with_range(1..=1000);
    let total = primes.count_primes();
    assert_eq!(total, 168);
    for step in 1..=8u64 {
        let lanes: u64 = (0..step).map(|offset| primes.count_lane(offset, step)).sum();
        assert_eq!(lanes, total, "step {}", step);
    }
}

#[test]
fn lane_of_odd_numbers() {
    let primes = Primes::with_range(1..=20);
    // 1, 3, 5, ..., 19: the primes 3, 5, 7, 11, 13, 17, 19.
    assert_eq!(primes.count_lane(0, 2), 7);
    // 2, 4, ..., 20: the prime 2.
    assert_eq!(primes.count_lane(1, 2), 1);
}

#[test]
fn check_range_finds_least_divisor() {
    assert_eq!(Factorization::check_range(91, 2, 10), Some(7));
    assert_eq!(Factorization::check_range(15, 2, 4), Some(3));
    assert_eq!(Factorization::check_range(16, 2, 4), Some(2));
    assert_eq!(Factorization::check_range(97, 2, 9), None);
    assert_eq!(Factorization::check_range(91, 8, 20), Some(13));
    assert_eq!(Factorization::check_range(91, 8, 12), None);
}

#[test]
fn check_range_skips_even_starts() {
    // From an even start above two, only odd candidates are tried.
    assert_eq!(Factorization::check_range(36, 4, 10), Some(9));
}

#[test]
fn check_range_below_two_reports_two() {
    // Below two, the first test is against the start itself, which divides every number.
    assert_eq!(Factorization::check_range(9, 1, 5), Some(2));
}

#[test]
fn chunks_of_the_divisors() {
    assert_eq!(Factorization::chunk(100, 4, 0), (2, 26));
    assert_eq!(Factorization::chunk(100, 4, 1), (25, 49));
    assert_eq!(Factorization::chunk(100, 4, 3), (75, 99));
    assert_eq!(Factorization::chunk(10, 3, 2), (8, 10));
}

#[test]
fn div_ceil_rounds_up() {
    assert_eq!(div_ceil(10, 3), 4);
    assert_eq!(div_ceil(9, 3), 3);
    assert_eq!(div_ceil(0, 3), 0);
    assert_eq!(div_ceil(u64::MAX, 2), u64::MAX / 2 + 1);
}

#[test]
fn parallel_search_agrees_with_sequential() {
    let task = Factorization::new(1_000_003 * 999_983);
    let limit = 1_000_100u64;
    let sequential = Factorization::check_range(task.target_number(), 2, limit);
    for parts in 1..=5u64 {
        let found: Vec<u64> = (0..parts)
            .map(|i| task.search_chunk(limit, parts, i).unwrap_or(0))
            .collect();
        assert_eq!(Factorization::smallest_found(&found), sequential, "parts {}", parts);
    }
    assert_eq!(sequential, Some(999_983));
}

#[test]
fn smallest_found_ignores_zeros() {
    assert_eq!(Factorization::smallest_found(&vec![0, 7, 3, 0]), Some(3));
    assert_eq!(Factorization::smallest_found(&vec![0, 0]), None);
    assert_eq!(Factorization::smallest_found(&vec![]), None);
}

#[test]
fn default_factorization_target() {
    assert_eq!(Factorization::default().target_number(), 18_446_743_979_220_271_189);
    assert_eq!(4_294_967_291u128 * 4_294_967_279u128, 18_446_743_979_220_271_189u128);
}

#[test]
fn factorization_aggregates_child_outputs() {
    let results = strings(&["0\n", "7\n", " 3 ", "+11"]);
    assert_eq!(Factorization::aggregate_process_results(&results).unwrap(), Some(3));
    let none = strings(&["0", "0\n"]);
    assert_eq!(Factorization::aggregate_process_results(&none).unwrap(), None);
}

#[test]
fn factorization_reports_unreadable_output() {
    let results = strings(&["5", "x5", "-1"]);
    match Factorization::aggregate_process_results(&results) {
        Err(SystemError::FailedParsingChildOutput(s)) => assert_eq!(s, "x5"),
        other => panic!("unexpected {:?}", other),
    }
}

#[test]
fn child_counts_add_up() {
    let results = strings(&["10\n", "20\n", "\t5 \n"]);
    assert_eq!(total_of_outputs(&results).unwrap(), 35);
    assert_eq!(total_of_outputs(&[]).unwrap(), 0);
}

#[test]
fn child_counts_stop_at_the_first_bad_output() {
    for (outputs, bad) in [
        (vec!["1", "", "2"], ""),
        (vec!["1", "+", "2"], "+"),
        (vec!["-3"], "-3"),
        (vec!["1 2"], "1 2"),
        (vec!["18446744073709551616"], "18446744073709551616"),
    ] {
        match total_of_outputs(&strings(&outputs)) {
            Err(SystemError::FailedParsingChildOutput(s)) => assert_eq!(s, bad),
            other => panic!("unexpected {:?}", other),
        }
    }
}

#[test]
fn printed_counts_read_back() {
    let counts = [0usize, 7, 42, 1_000_000, usize::MAX];
    let printed: Vec<String> = counts.iter().map(|c| format!("{}\n", c)).collect();
    let values = parse_outputs(&printed, u64::MAX).unwrap();
    let expected: Vec<u64> = counts.iter().map(|&c| c as u64).collect();
    assert_eq!(values, expected);
}

#[test]
fn parse_outputs_respects_the_bound() {
    let results = strings(&["255", "256"]);
    match parse_outputs(&results, 255) {
        Err(SystemError::FailedParsingChildOutput(s)) => assert_eq!(s, "256"),
        other => panic!("unexpected {:?}", other),
    }
    assert_eq!(parse_outputs(&strings(&["255", "0"]), 255).unwrap(), vec![255, 0]);
}

#[test]
fn transpose_of_three_by_three() {
    let mut task = Transpose::with_size(3);
    assert!(task.matrix_ref().is_empty());
    task.setup().unwrap();
    assert_eq!(task.matrix_ref(), &[0, 1, 2, 3, 4, 5, 6, 7, 8]);
    let out = task.transposed().unwrap();
    assert_eq!(out, vec![0, 3, 6, 1, 4, 7, 2, 5, 8]);
    assert_eq!(task.is_transposed(&out), Ok(true));
    assert_eq!(task.is_transposed(&[0, 1, 2, 3, 4, 5, 6, 7, 8]), Ok(false));
    task.teardown().unwrap();
    assert!(task.matrix_ref().is_empty());
}

#[test]
fn transpose_passes_its_check_for_larger_sizes() {
    for n in 3..12usize {
        let mut task = Transpose::with_size(n);
        task.setup().unwrap();
        let out = task.transposed().unwrap();
        assert_eq!(task.is_transposed(&out), Ok(true), "size {}", n);
    }
}

#[test]
fn generated_matrix_wraps_at_five_hundred() {
    let m = Transpose::generated_matrix(1002);
    assert_eq!(m[499], 499);
    assert_eq!(m[500], 0);
    assert_eq!(m[1001], 1);
}

#[test]
fn transpose_without_input_reads_outside() {
    let task = Transpose::with_size(3);
    assert_eq!(task.transposed(), Err(TaskError::IndexingOutOfBounds(0)));
}

#[test]
fn transpose_rows_of_a_chunk() {
    let input: Vec<u64> = (0..16).collect();
    let rows = Transpose::transpose_rows(4, &input, 1, 3).unwrap();
    assert_eq!(rows, vec![1, 5, 9, 13, 2, 6, 10, 14]);
    assert_eq!(
        Transpose::transpose_rows(4, &input[..10], 2, 4),
        Err(TaskError::IndexingOutOfBounds(10))
    );
}

#[test]
fn is_transposed_errors_on_short_matrices() {
    let mut task = Transpose::with_size(4);
    task.setup().unwrap();
    assert_eq!(task.is_transposed(&[0, 1, 2]), Err(TaskError::IndexingOutOfBounds(3)));
    assert_eq!(task.is_transposed(&[0; 6]), Err(TaskError::IndexingOutOfBounds(6)));
    let empty = Transpose::with_size(4);
    assert_eq!(empty.is_transposed(&[0; 16]), Err(TaskError::IndexingOutOfBounds(12)));
}

#[test]
fn process_chunk_control_values() {
    let mut task = Transpose::with_size(10);
    // Without setup, a process generates the matrix itself.
    assert_eq!(task.process_chunk_control(0, 3), Ok(0));
    assert_eq!(task.process_chunk_control(1, 3), Ok(4));
    assert_eq!(task.process_chunk_control(2, 3), Ok(8));
    assert_eq!(task.process_chunk_control(5, 3), Ok(0));
    task.setup().unwrap();
    assert_eq!(task.process_chunk_control(1, 2), Ok(5));
}

#[test]
fn transpose_aggregates_the_last_control_value() {
    assert_eq!(Transpose::aggregate_process_results(&strings(&["4\n", "8\n"])).unwrap(), 8);
    assert_eq!(Transpose::aggregate_process_results(&[]).unwrap(), 0);
    match Transpose::aggregate_process_results(&strings(&["4", "4294967296"])) {
        Err(SystemError::FailedParsingChildOutput(s)) => assert_eq!(s, "4294967296"),
        other => panic!("unexpected {:?}", other),
    }
}

#[test]
fn word_count_counts_runs_of_non_space() {
    assert_eq!(WordCount::count_words(""), 0);
    assert_eq!(WordCount::count_words("   "), 0);
    assert_eq!(WordCount::count_words("one"), 1);
    assert_eq!(WordCount::count_words("  one two\tthree\n four  "), 4);
    assert_eq!(WordCount::count_words("a\u{2003}b\u{a0}c"), 3);
    let text = "the quick  brown\n\nfox ";
    assert_eq!(WordCount::count_words(text), text.split_whitespace().count());
}

#[test]
fn generated_files_hold_their_words() {
    for words in [0usize, 1, 2, 17] {
        let task = WordCount::with_directory(String::from("/tmp/words"), 3, words);
        let text = task.file_text();
        assert_eq!(text, "benchmark ".repeat(words));
        assert_eq!(WordCount::count_words(&text), words);
    }
}

#[test]
fn word_count_settings() {
    let task = WordCount::with_directory(String::from("/tmp/words"), 250, 40);
    assert_eq!(task.base_directory(), "/tmp/words");
    assert_eq!(task.files_amount(), 250);
    assert_eq!(task.words_per_file(), 40);
}

#[test]
fn word_count_file_names() {
    assert_eq!(WordCount::folder_name(0), "folder_0");
    assert_eq!(WordCount::folder_name(99), "folder_0");
    assert_eq!(WordCount::folder_name(100), "folder_1");
    assert_eq!(WordCount::folder_name(1234), "folder_12");
    assert_eq!(WordCount::file_name(7), "file_7.txt");
    assert_eq!(WordCount::file_name(1234), "file_1234.txt");
}

#[test]
fn word_count_process_chunks() {
    assert_eq!(WordCount::process_chunk(10, 0, 3), Some((0, 4)));
    assert_eq!(WordCount::process_chunk(10, 1, 3), Some((4, 8)));
    assert_eq!(WordCount::process_chunk(10, 2, 3), Some((8, 10)));
    assert_eq!(WordCount::process_chunk(10, 3, 3), None);
    assert_eq!(WordCount::process_chunk(0, 0, 3), None);
    assert_eq!(WordCount::process_chunk(2, 1, 4), Some((1, 2)));
    assert_eq!(WordCount::process_chunk(2, 2, 4), None);
}

#[test]
fn word_count_chunk_slices() {
    let files = strings(&["a", "b", "c"]);
    assert_eq!(WordCount::chunk_of(&files, 1, 3).unwrap(), &files[1..3]);
    assert_eq!(WordCount::chunk_of(&files, 1, 4), Err(TaskError::ChunkOutOfBounds(1, 4)));
    assert_eq!(WordCount::chunk_of(&files, 2, 1), Err(TaskError::ChunkOutOfBounds(2, 1)));
}

#[test]
fn monte_carlo_shares() {
    let task = MonteCarlo::with_iterations(100_000_000);
    assert_eq!(task.iterations(), 100_000_000);
    assert_eq!(task.iterations_per_unit(8), 12_500_000);
    assert_eq!(task.iterations_per_unit(3), 33_333_333);
    assert_eq!(task.real_iterations(3), 99_999_999);
    assert_eq!(task.real_iterations(8), 100_000_000);
    let small = MonteCarlo::with_iterations(5);
    assert_eq!(small.iterations_per_unit(8), 0);
    assert_eq!(small.real_iterations(8), 0);
}

#[test]
fn thread_rows_cover_the_matrix_in_chunks() {
    assert_eq!(Transpose::thread_row_ranges(10, 3), vec![(0, 4), (4, 8), (8, 10)]);
    assert_eq!(Transpose::thread_row_ranges(4, 8), vec![(0, 1), (1, 2), (2, 3), (3, 4)]);
    assert_eq!(Transpose::thread_row_ranges(5, 1), vec![(0, 5)]);
}

#[test]
fn chunks_of_rows_join_into_the_transpose() {
    let mut task = Transpose::with_size(7);
    task.setup().unwrap();
    let whole = task.transposed().unwrap();
    let chunks: Vec<Vec<u64>> = Transpose::thread_row_ranges(7, 3)
        .iter()
        .map(|&(s, e)| Transpose::transpose_rows(7, task.matrix_ref(), s, e).unwrap())
        .collect();
    let joined = Transpose::join_chunks(&chunks);
    assert_eq!(joined, whole);
    assert_eq!(task.is_transposed(&joined), Ok(true));
}

#[test]
fn child_process_reports_the_first_entry_of_its_rows() {
    let task = Transpose::with_size(4);
    assert_eq!(task.process_chunk_control(1, 2), Ok(2));
    assert_eq!(task.process_chunk_control(2, 2), Ok(0));
}

#[test]
fn a_used_up_range_has_no_primes_left() {
    let mut range = 2..=100u64;
    for _ in range.by_ref() {}
    assert!(range.is_empty());
    assert_eq!(Primes::with_range(range).count_primes(), 0);
    assert_eq!(Primes::with_range(2..=100).count_primes(), 25);
}
