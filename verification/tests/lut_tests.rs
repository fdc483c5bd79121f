use lut1d::color::Color;
use lut1d::lut::{generate_lut, render_lut, LUT_SIZE};

/// Evaluate a transfer function at the 256 uniform domain samples `i / 255`
/// and render each result as its decimal token, as a caller of the library
/// does before building a table.
fn sample_tokens(func: impl Fn(f64) -> f64) -> Vec<String> {
    let mut tokens: Vec<String> = Vec::new();
    for i in 0..LUT_SIZE {
        let base: f64 = (i as f64) / ((LUT_SIZE - 1) as f64);
        tokens.push(format!("{}", func(base)));
    }
    tokens
}

#[test]
fn default_color_is_zero() {
    let c = Color::default();
    assert_eq!(c.red, "0");
    assert_eq!(c.green, "0");
    assert_eq!(c.blue, "0");
}

#[test]
fn generate_lut_has_uniform_entries() {
    let samples = sample_tokens(|x| x);
    let lut = generate_lut(&samples);
    assert_eq!(lut.len(), 256);
    for i in 0..256 {
        assert_eq!(lut[i].red, samples[i]);
        assert_eq!(lut[i].green, samples[i]);
        assert_eq!(lut[i].blue, samples[i]);
    }
    assert_eq!(lut[0].red, "0");
    assert_eq!(lut[255].red, "1");
}

#[test]
fn sampling_is_uniform_division() {
    let samples = sample_tokens(|x| x);
    assert_eq!(samples[0], format!("{}", 0.0_f64));
    assert_eq!(samples[128], format!("{}", 128.0_f64 / 255.0_f64));
    assert_eq!(samples[255], format!("{}", 1.0_f64));
}

#[test]
fn rendered_file_shape() {
    let mut samples: Vec<String> = Vec::new();
    for i in 0..256 {
        samples.push(format!("{}", i));
    }
    let lut = generate_lut(&samples);
    let text = render_lut("test title", &lut);

    assert!(text.starts_with("TITLE test title\nLUT_1D_SIZE 256\n"));
    assert!(text.ends_with("\n"));
    assert_eq!(text.chars().filter(|c| *c == '\n').count(), 258);

    let lines: Vec<&str> = text.lines().collect();
    assert_eq!(lines.len(), 258);
    assert_eq!(lines[0], "TITLE test title");
    assert_eq!(lines[1], "LUT_1D_SIZE 256");
    for i in 0..256 {
        let expected = format!("{} {} {}", i, i, i);
        assert_eq!(lines[i + 2], expected);
        let fields: Vec<&str> = lines[i + 2].split(' ').collect();
        assert_eq!(fields.len(), 3);
        assert_eq!(fields[0], lut[i].red);
        assert_eq!(fields[1], lut[i].green);
        assert_eq!(fields[2], lut[i].blue);
    }
}

#[test]
fn limited_to_full_table_scenario() {
    let num16: f64 = 16.0 / 255.0;
    let num235: f64 = 235.0 / 255.0;
    let cvt_full_8bit = |x: f64| -> f64 {
        if x <= num16 {
            0.0
        } else if x >= num235 {
            1.0
        } else {
            (255.0 / 219.0) * (x - num16)
        }
    };
    let samples = sample_tokens(cvt_full_8bit);
    let lut = generate_lut(&samples);
    let text = render_lut("RGB limited range to full range (8-bit)", &lut);
    let lines: Vec<&str> = text.lines().collect();
    assert_eq!(lines[2], "0 0 0");
    assert_eq!(lines[257], "1 1 1");
    let mid: f64 = (128.0_f64 / 255.0 - 16.0 / 255.0) * (255.0 / 219.0);
    let mid_token = format!("{}", mid);
    assert_eq!(lines[130], format!("{} {} {}", mid_token, mid_token, mid_token));
}

#[test]
fn full_to_limited_table_scenario() {
    let cvt_limited_8bit = |x: f64| -> f64 { (219.0 / 255.0) * x + 16.0 / 255.0 };
    let samples = sample_tokens(cvt_limited_8bit);
    let lut = generate_lut(&samples);
    assert_eq!(lut[0].red, format!("{}", 16.0_f64 / 255.0_f64));
    assert_eq!(lut[255].red, format!("{}", 219.0_f64 / 255.0_f64 + 16.0_f64 / 255.0_f64));
    for i in 0..256 {
        assert_eq!(lut[i].red, lut[i].green);
        assert_eq!(lut[i].green, lut[i].blue);
    }
}

#[test]
fn srgb_to_bt709_table_scenario() {
    let remove_srgb = |x: f64| -> f64 {
        if x < 0.04045_f64 {
            x / 12.92
        } else {
            ((x + 0.055) / 1.055).powf(2.4)
        }
    };
    let add_bt709 = |x: f64| -> f64 {
        if x < 0.018_f64 {
            4.5 * x
        } else {
            1.099 * x.powf(0.45) - 0.099
        }
    };
    let samples = sample_tokens(|x| add_bt709(remove_srgb(x)));
    let lut = generate_lut(&samples);
    let text = render_lut("sRGB to BT.709 gamma correction (8-bit)", &lut);
    let lines: Vec<&str> = text.lines().collect();
    assert_eq!(lines[0], "TITLE sRGB to BT.709 gamma correction (8-bit)");
    assert_eq!(lines[2], "0 0 0");
    // remove_srgb(1) == 1 and add_bt709(1) == 1.099 - 0.099 == 1 exactly in
    // double precision, so the last entry is the unit token.
    assert_eq!(lines[257], "1 1 1");
}

#[test]
fn round_trip_of_range_remap_is_close() {
    let num16: f64 = 16.0 / 255.0;
    let num235: f64 = 235.0 / 255.0;
    let cvt_full_8bit = |x: f64| -> f64 {
        if x <= num16 {
            0.0
        } else if x >= num235 {
            1.0
        } else {
            (255.0 / 219.0) * (x - num16)
        }
    };
    let cvt_limited_8bit = |x: f64| -> f64 { (219.0 / 255.0) * x + 16.0 / 255.0 };
    for i in 0..256 {
        let x: f64 = (i as f64) / 255.0;
        let back = cvt_full_8bit(cvt_limited_8bit(x));
        assert!((back - x).abs() < 1e-12);
    }
}
