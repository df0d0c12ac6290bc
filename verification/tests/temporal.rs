use fyrox_gfx::temporal::{halton, jitter_sample, keeps_history, Fraction};

/// The renderer's shift for frame `frame`, in pixels, as the engine side works it out.
fn jitter(frame: u64) -> (f32, f32) {
    let (x, y) = jitter_sample(frame);
    (
        x.numerator as f32 / x.denominator as f32 - 0.5,
        y.numerator as f32 / y.denominator as f32 - 0.5,
    )
}

#[test]
fn jitter_stays_within_the_pixel_and_covers_it() {
    let offsets: Vec<(f32, f32)> = (0..8).map(jitter).collect();
    for o in &offsets {
        assert!(o.0.abs() <= 0.5 && o.1.abs() <= 0.5);
    }
    // Every quarter of the pixel gets samples.
    for (sx, sy) in [(-1.0, -1.0), (1.0, -1.0), (-1.0, 1.0), (1.0, 1.0)] {
        assert!(offsets.iter().any(|o| o.0 * sx > 0.0 && o.1 * sy > 0.0));
    }
    assert_eq!(jitter(3), jitter(11), "the pattern repeats every 8 frames");
}

fn fraction(numerator: u64, denominator: u64) -> Fraction {
    Fraction {
        numerator,
        denominator,
    }
}

#[test]
fn halton_mirrors_the_digits() {
    assert_eq!(halton(0, 2), fraction(0, 1));
    assert_eq!(halton(1, 2), fraction(1, 2));
    assert_eq!(halton(6, 2), fraction(3, 8));
    assert_eq!(halton(8, 2), fraction(1, 16));
    assert_eq!(halton(5, 3), fraction(7, 9));
    assert_eq!(halton(8, 3), fraction(8, 9));
    assert_eq!(halton(11, 10), fraction(11, 100));
}

#[test]
fn the_shifts_of_the_first_frames() {
    let expected = [
        ((1, 2), (1, 3)),
        ((1, 4), (2, 3)),
        ((3, 4), (1, 9)),
        ((1, 8), (4, 9)),
        ((5, 8), (7, 9)),
        ((3, 8), (2, 9)),
        ((7, 8), (5, 9)),
        ((1, 16), (8, 9)),
    ];
    for (frame, ((xn, xd), (yn, yd))) in expected.into_iter().enumerate() {
        assert_eq!(
            jitter_sample(frame as u64),
            (fraction(xn, xd), fraction(yn, yd))
        );
        assert_eq!(jitter_sample(frame as u64 + 8), jitter_sample(frame as u64));
    }
    assert_eq!(jitter_sample(u64::MAX), jitter_sample(7));
}

#[test]
fn the_history_starts_over_when_the_view_jumps() {
    assert!(keeps_history(Some((1, 2)), (1, 2), true, false));
    assert!(!keeps_history(None, (1, 2), true, false));
    assert!(!keeps_history(Some((1, 3)), (1, 2), true, false));
    assert!(!keeps_history(Some((0, 2)), (1, 2), true, false));
    assert!(!keeps_history(Some((1, 2)), (1, 2), false, false));
    assert!(!keeps_history(Some((1, 2)), (1, 2), true, true));
}
