use captcha_solver::solvers::cnn::CnnSolver;

/// Scores in thousandths.
fn scores(values: &[f32]) -> Vec<i32> {
    values.iter().map(|v| (v * 1000.0).round() as i32).collect()
}

fn abc_solver() -> CnnSolver {
    let mut solver = CnnSolver::with_charset("/tmp", "ABC".chars().collect(), 200, 50).unwrap();
    solver.initialize();
    solver
}

/// One row per class picked, the picked class with the only high score.
fn one_hot(picks: &[usize], classes: usize) -> Vec<i32> {
    let mut output = Vec::new();
    for pick in picks {
        for class in 0..classes {
            output.push(if class == *pick { 1000 } else { 0 });
        }
    }
    output
}

#[test]
fn test_charset() {
    assert_eq!(CnnSolver::DEFAULT_CHARSET.len(), 36);
}

#[test]
fn test_ctc_decode() {
    let solver = abc_solver();

    // Test CTC decoding logic
    // A=0, B=1, C=2, blank=3
    let output = scores(&[
        1.0, 0.0, 0.0, 0.0, // A
        0.0, 0.0, 0.0, 1.0, // blank
        0.0, 1.0, 0.0, 0.0, // B
        0.0, 1.0, 0.0, 0.0, // B (repeat, should be ignored)
        0.0, 0.0, 1.0, 0.0, // C
    ]);

    let result = solver.decode_ctc_output(&output, 5);
    assert_eq!(result, "ABC");
}

#[test]
fn decode_collapses_repeats() {
    let solver = abc_solver();
    assert_eq!(solver.decode_ctc_output(&one_hot(&[0, 3, 1, 1, 2], 4), 5), "ABC");
    assert_eq!(solver.decode_ctc_output(&one_hot(&[0, 0, 0], 4), 3), "A");
    assert_eq!(solver.decode_ctc_output(&one_hot(&[3, 3], 4), 2), "");
}

#[test]
fn decode_keeps_a_symbol_repeated_after_a_blank() {
    let solver = abc_solver();
    assert_eq!(solver.decode_ctc_output(&one_hot(&[0, 3, 0], 4), 3), "AA");
    assert_eq!(solver.decode_ctc_output(&one_hot(&[2, 1, 2, 1], 4), 4), "CBCB");
}

#[test]
fn decode_breaks_ties_by_the_lowest_index() {
    let solver = abc_solver();
    // All equal: the first class wins.
    assert_eq!(solver.decode_ctc_output(&[5, 5, 5, 5], 1), "A");
    // B and the blank tie: B wins.
    assert_eq!(solver.decode_ctc_output(&[0, 7, 1, 7], 1), "B");
    // Negative scores.
    assert_eq!(solver.decode_ctc_output(&[-9, -3, -3, -4], 1), "B");
}

#[test]
fn decode_stops_at_the_last_full_timestep() {
    let solver = abc_solver();
    let mut output = one_hot(&[0, 1], 4);
    output.extend_from_slice(&[0, 0, 1000]);
    // Two full rows and three scores of a third; five timesteps declared.
    assert_eq!(solver.decode_ctc_output(&output, 5), "AB");
    // More rows than declared.
    assert_eq!(solver.decode_ctc_output(&one_hot(&[0, 1, 2], 4), 2), "AB");
    assert_eq!(solver.decode_ctc_output(&one_hot(&[0, 1, 2], 4), 0), "");
    assert_eq!(solver.decode_ctc_output(&[], 3), "");
    assert_eq!(solver.decode_ctc_output(&[1, 2, 3], 1), "");
}

#[test]
fn decode_is_no_longer_than_the_timesteps() {
    let solver = abc_solver();
    for steps in 0..6 {
        let output = one_hot(&[0, 1, 0, 1, 0, 1], 4);
        assert!(solver.decode_ctc_output(&output, steps).chars().count() <= steps);
    }
}

#[test]
fn decode_with_the_default_symbols() {
    let solver = CnnSolver::new("/tmp").unwrap();
    assert!(solver.is_ready());
    assert_eq!(solver.name(), "cnn");
    let output = one_hot(&[0, 25, 26, 35, 36], 37);
    assert_eq!(solver.decode_ctc_output(&output, 5), "AZ09");
}

#[test]
fn symbols_must_be_distinct() {
    assert!(CnnSolver::with_charset("/tmp", "ABA".chars().collect(), 200, 50).is_err());
    assert!(CnnSolver::with_charset("/tmp", Vec::new(), 200, 50).is_ok());
    let solver = CnnSolver::with_charset("/tmp", "AB".chars().collect(), 200, 50).unwrap();
    assert!(!solver.is_ready());
}
