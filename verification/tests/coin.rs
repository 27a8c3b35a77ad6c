use synacor_vm::coin::{arrangement, equation_in_bounds, name_of, solution_line, TARGET};

const COINS: [usize; 5] = [2, 3, 5, 7, 9];

#[test]
fn arrangement_numbers_decode_to_five_places() {
    assert_eq!(arrangement(0), vec![0, 1, 2, 3, 4]);
    assert_eq!(arrangement(1), vec![1, 0, 1, 2, 3]);
    assert_eq!(arrangement(5), vec![0, 2, 1, 2, 3]);
    assert_eq!(arrangement(23), vec![3, 0, 2, 1, 2]);
    assert_eq!(arrangement(84), vec![4, 0, 2, 3, 1]);
    assert_eq!(arrangement(119), vec![4, 3, 2, 1, 0]);
    assert_eq!(arrangement(120), vec![0, 1, 2, 3, 4]);
    assert_eq!(arrangement(1000), vec![0, 1, 4, 2, 3]);
    assert_eq!(arrangement(12345), vec![0, 2, 4, 3, 1]);
}

#[test]
fn every_place_holds_one_of_the_five_coins() {
    for n in 0..5000usize {
        let pos = arrangement(n);
        assert_eq!(pos.len(), 5);
        assert!(pos.iter().all(|&p| p < 5));
        assert_eq!(pos[0], n % 5);
    }
    assert!(arrangement(usize::MAX).iter().all(|&p| p < 5));
}

#[test]
fn coins_have_their_names() {
    assert_eq!(name_of(0), "red ");
    assert_eq!(name_of(1), "corroded ");
    assert_eq!(name_of(2), "shiny ");
    assert_eq!(name_of(3), "concave ");
    assert_eq!(name_of(4), "blue ");
    assert_eq!(name_of(5), "");
}

#[test]
fn one_arrangement_solves_the_puzzle() {
    assert_eq!(TARGET, 399);
    let mut lines: Vec<(usize, String)> = Vec::new();
    for n in 0..120usize {
        assert!(equation_in_bounds(&COINS, n));
        if let Some(line) = solution_line(&COINS, n) {
            lines.push((n, line));
        }
    }
    assert_eq!(lines, vec![(84, "blue red shiny concave corroded ".to_string())]);
    // 9 + 2 * 5^2 + 7^3 - 3
    assert_eq!(9 + 2 * 25 + 343 - 3, 399);
}

#[test]
fn line_is_given_exactly_when_the_equation_holds() {
    // arrangement 0 puts the values in their own order: 1 + 2 * 3^2 + 4^3 - 0 == 83
    assert_eq!(solution_line(&[1, 2, 3, 4, 0], 0), None);
    // 335 + 0 * 3^2 + 4^3 - 0 == 399
    assert_eq!(
        solution_line(&[335, 0, 3, 4, 0], 0),
        Some("red corroded shiny concave blue ".to_string())
    );
    // 400 + 2 * 0^2 + 0^3 - 1 == 399, and one less with 2 taken off
    assert_eq!(
        solution_line(&[400, 2, 0, 0, 1], 0),
        Some("red corroded shiny concave blue ".to_string())
    );
    assert_eq!(solution_line(&[400, 2, 0, 0, 2], 0), None);
    // a place may repeat a coin: arrangement 1 is 1 0 1 2 3
    assert_eq!(arrangement(1), vec![1, 0, 1, 2, 3]);
    // 20 + 1 * 20^2 + 7^3 - 17 == 746
    assert_eq!(solution_line(&[1, 20, 7, 17, 0], 1), None);
    // 20 + 1 * 20^2 + 0^3 - 21 == 399
    assert_eq!(
        solution_line(&[1, 20, 0, 21, 5], 1),
        Some("corroded red corroded shiny concave ".to_string())
    );
}

#[test]
fn bounds_are_checked_before_the_equation() {
    assert!(!equation_in_bounds(&[], 0));
    assert!(!equation_in_bounds(&[2, 3, 5, 7], 84));
    assert!(equation_in_bounds(&[2, 3, 5, 7, 9, 11], 84));
    // the difference would be negative
    assert!(!equation_in_bounds(&[0, 0, 0, 0, 9], 0));
    assert!(equation_in_bounds(&[9, 0, 0, 0, 9], 0));
    // a square, a product, a cube or a sum would overflow
    assert!(!equation_in_bounds(&[0, 0, usize::MAX, 0, 0], 0));
    assert!(!equation_in_bounds(&[0, usize::MAX, 2, 0, 0], 0));
    assert!(!equation_in_bounds(&[0, 0, 0, usize::MAX, 0], 0));
    assert!(!equation_in_bounds(&[usize::MAX, 1, 1, 0, 0], 0));
    assert!(!equation_in_bounds(&[usize::MAX, 0, 0, 1, 0], 0));
    assert!(equation_in_bounds(&[usize::MAX, 0, 0, 0, 0], 0));
    assert!(equation_in_bounds(&[usize::MAX - 2, 1, 1, 1, usize::MAX], 0));
}
