use wasm_bindgen_cli_support::transforms::multi_value::round_up_to_alignment;

#[test]
fn round_up_to_alignment_works() {
    for &(n, align, expected) in &[
        (0, 1, 0),
        (1, 1, 1),
        (2, 1, 2),
        (0, 2, 0),
        (1, 2, 2),
        (2, 2, 2),
        (3, 2, 4),
        (0, 4, 0),
        (1, 4, 4),
        (2, 4, 4),
        (3, 4, 4),
        (4, 4, 4),
        (5, 4, 8),
    ] {
        let actual = round_up_to_alignment(n, align);
        println!(
            "round_up_to_alignment(n = {n}, align = {align}) = {actual} (expected {expected})"
        );
        assert_eq!(actual, expected);
    }
}

#[test]
fn round_up_to_larger_alignments() {
    assert_eq!(round_up_to_alignment(17, 16), 32);
    assert_eq!(round_up_to_alignment(32, 16), 32);
    assert_eq!(round_up_to_alignment(1, 1 << 31), 1 << 31);
}
