//! The bounds panel calls a model flat when its shortest side vanishes
//! against its longest.

fn shape_of(size: [f32; 3]) -> &'static str {
    let longest = size.iter().copied().fold(0.0_f32, f32::max);
    let shortest = size.iter().copied().fold(f32::MAX, f32::min);
    if shortest <= 0.0 || longest / shortest > 100.0 {
        "flat"
    } else {
        "solid"
    }
}

#[test]
fn a_normal_model_is_not_called_flat() {
    assert_eq!(shape_of([2.086, 1.884, 1.424]), "solid");
    assert_eq!(shape_of([10.0, 1.0, 5.0]), "solid");
}

/// The case the bars exist for: a model whose thickness vanished, which
/// three decimal triples state without making obvious.
#[test]
fn a_model_with_no_thickness_is_called_flat() {
    assert_eq!(shape_of([2.086, 1.884, 0.0]), "flat");
    assert_eq!(shape_of([2.086, 1.884, 0.004]), "flat");
}
