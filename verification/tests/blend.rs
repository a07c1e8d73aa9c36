use support::blend::{
    alpha_blend_colors, combine_over, combine_product, largest_channel, multiply_blend_colors,
    Rgba,
};

fn rgba(red: u8, green: u8, blue: u8, alpha: u8) -> Rgba {
    Rgba { red, green, blue, alpha }
}

#[test]
fn multiply_by_white_changes_nothing() {
    let white = rgba(255, 255, 255, 255);
    for alpha in [0u8, 1, 17, 128, 200, 255] {
        for colour in [0u8, 1, 16, 127, 199, 255] {
            let c = colour.min(alpha);
            let background = rgba(c, c / 2, c / 3, alpha);
            assert_eq!(multiply_blend_colors(background, white), background);
        }
    }
}

#[test]
fn multiply_matches_rounded_product() {
    for f in 0..=255u32 {
        for b in 0..=255u32 {
            let expected = ((f as f64 / 255.0) * (b as f64 / 255.0) * 255.0).round() as u8;
            assert_eq!(combine_product(f as u8, b as u8), expected);
        }
    }
}

#[test]
fn over_matches_rounded_mix() {
    for f in [0u32, 1, 50, 100, 128, 200, 255] {
        for b in 0..=255u32 {
            for a in 0..=255u32 {
                let mix = f as f64 + b as f64 * (255.0 - a as f64) / 255.0;
                let expected = mix.round().min(255.0) as u8;
                assert_eq!(combine_over(f as u8, b as u8, a as u8), expected);
            }
        }
    }
}

#[test]
fn channel_formulas_on_chosen_values() {
    assert_eq!(combine_over(100, 200, 128), 200);
    assert_eq!(combine_over(200, 200, 0), 255);
    assert_eq!(combine_over(10, 99, 255), 10);
    assert_eq!(combine_product(128, 128), 64);
    assert_eq!(combine_product(255, 37), 37);
    assert_eq!(combine_product(0, 255), 0);
    assert_eq!(largest_channel(1, 9, 3, 4), 9);
    assert_eq!(largest_channel(1, 2, 3, 4), 4);
}

#[test]
fn alpha_blend_lays_foreground_over_background() {
    let background = rgba(200, 100, 0, 255);
    let foreground = rgba(64, 64, 64, 128);
    assert_eq!(alpha_blend_colors(background, foreground), rgba(164, 114, 64, 255));
    let opaque = rgba(1, 2, 3, 255);
    assert_eq!(alpha_blend_colors(background, opaque), opaque);
    let nothing = rgba(0, 0, 0, 0);
    assert_eq!(alpha_blend_colors(background, nothing), background);
}

#[test]
fn blended_alpha_is_raised_to_the_largest_channel() {
    let background = rgba(255, 0, 0, 0);
    let foreground = rgba(0, 0, 0, 0);
    assert_eq!(alpha_blend_colors(background, foreground), rgba(255, 0, 0, 255));
    assert_eq!(
        multiply_blend_colors(rgba(255, 255, 255, 255), rgba(200, 0, 0, 100)),
        rgba(200, 0, 0, 200)
    );
}

#[test]
fn multiply_darkens() {
    assert_eq!(
        multiply_blend_colors(rgba(128, 64, 255, 255), rgba(128, 128, 128, 255)),
        rgba(64, 32, 128, 255)
    );
}
