use ascii_game_project_j1::{
    classify, color_render, edge_render, frame_height, frame_text, key_stops,
    max_magnitude_func, orientation, pick_glyph, plain_render, quantize_level, quantize_linear,
    quantizer, render_image, run, AsciiPattern, Gamma, GrayImage, PixelClass, RenderConfig, RgbImage,
};

fn text(v: &[char]) -> String {
    v.iter().collect()
}

fn gray(width: u32, height: u32, pixels: Vec<u8>) -> GrayImage {
    GrayImage { width, height, pixels }
}

fn rgb(width: u32, height: u32, pixels: Vec<u8>) -> RgbImage {
    RgbImage { width, height, pixels }
}

fn float_index(p: u8, gamma: f64, n: usize) -> usize {
    let lum = (p as f64 / 255.0).powf(gamma);
    (lum.clamp(0.0, 1.0) * (n - 1) as f64).round() as usize
}

#[test]
fn pattern_ramps() {
    assert_eq!(AsciiPattern::Acerola.pattern().len(), 10);
    assert_eq!(AsciiPattern::Me.pattern().len(), 10);
    assert_eq!(AsciiPattern::Custom.pattern().len(), 11);
    assert_eq!(AsciiPattern::Acerola.pattern()[0], ' ');
    assert_eq!(AsciiPattern::Custom.pattern()[10], '\u{2588}');
}

#[test]
fn index_stays_in_ramp() {
    for n in [2usize, 10, 11] {
        for p in 0..=255u8 {
            for g in [Gamma::Linear, Gamma::Standard, Gamma::Square] {
                assert!(quantize_level(p, g, n) < n);
            }
        }
    }
}

#[test]
fn index_ends() {
    for g in [Gamma::Linear, Gamma::Standard, Gamma::Square] {
        assert_eq!(quantize_level(0, g, 10), 0);
        assert_eq!(quantize_level(255, g, 10), 9);
    }
}

#[test]
fn index_monotone() {
    for g in [Gamma::Linear, Gamma::Standard, Gamma::Square] {
        for p in 0..255u8 {
            assert!(quantize_level(p, g, 11) <= quantize_level(p + 1, g, 11));
        }
    }
}

#[test]
fn index_matches_gamma_formula() {
    for n in [10usize, 11] {
        for p in 0..=255u8 {
            assert_eq!(quantize_level(p, Gamma::Standard, n), float_index(p, 1.7, n));
            assert_eq!(quantize_level(p, Gamma::Square, n), float_index(p, 2.0, n));
            assert_eq!(quantize_level(p, Gamma::Linear, n), float_index(p, 1.0, n));
        }
    }
}

#[test]
fn index_exact_values() {
    assert_eq!(quantize_level(128, Gamma::Standard, 10), 3);
    assert_eq!(quantize_level(128, Gamma::Square, 10), 2);
    assert_eq!(quantize_level(128, Gamma::Linear, 10), 5);
}

#[test]
fn linear_index_clamps() {
    assert_eq!(quantize_linear(2550000, 2550000, 10), 9);
    assert_eq!(quantize_linear(9000000, 2550000, 10), 9);
    assert_eq!(quantize_linear(0, 2550000, 10), 0);
    assert_eq!(quantize_linear(1, 2, 10), 5);
}

#[test]
fn inversion_reads_reversed_ramp() {
    let ramp = AsciiPattern::Me.pattern();
    let mut reversed = ramp.clone();
    reversed.reverse();
    for p in 0..=255u8 {
        assert_eq!(
            quantizer(p, Gamma::Standard, &ramp, true),
            quantizer(p, Gamma::Standard, &reversed, false)
        );
    }
    assert_eq!(pick_glyph(&ramp, 0, true), '\u{2588}');
}

#[test]
fn zero_threshold_fires() {
    for gx in -5i16..=5 {
        for gy in -5i16..=5 {
            if gx != 0 || gy != 0 {
                assert!(matches!(classify(gx, gy, 0, 7), PixelClass::Edge(_)));
            }
        }
    }
}

#[test]
fn angle_boundaries() {
    assert_eq!(classify(1, 0, 0, 3), PixelClass::Edge('|'));
    assert_eq!(classify(0, 0, 0, 3), PixelClass::Luminance(3));
    assert_eq!(classify(0, 0, 1000, 3), PixelClass::Luminance(3));
    assert_eq!(orientation(0, 1), '-');
    assert_eq!(orientation(1, 1), '/');
    assert_eq!(orientation(-1, 1), '\\');
    assert_eq!(orientation(-1, 0), '|');
}

#[test]
fn threshold_is_three_tenths_of_max() {
    assert_eq!(classify(3, 0, 100, 7), PixelClass::Luminance(7));
    assert_eq!(classify(4, 0, 100, 7), PixelClass::Edge('|'));
}

#[test]
fn orientation_matches_angle_buckets() {
    let glyphs = ['|', '/', '-', '\\', '|', '/', '-', '\\'];
    for gx in -30i16..=30 {
        for gy in -30i16..=30 {
            // points on an arc boundary are checked exactly below
            if gx == 0 || gy == 0 || gx == gy || gx == -gy {
                continue;
            }
            let a = ((gy as f64).atan2(gx as f64) / std::f64::consts::PI) * 0.5 + 0.5;
            let bucket = (a * 8.0).floor() as usize;
            let expected = if bucket >= 8 { '|' } else { glyphs[bucket] };
            assert_eq!(orientation(gx, gy), expected, "gx={} gy={}", gx, gy);
        }
    }
}

#[test]
fn orientation_on_arc_boundaries() {
    for k in 1i16..=30 {
        assert_eq!(orientation(k, 0), '|');
        assert_eq!(orientation(-k, 0), '|');
        assert_eq!(orientation(k, k), '/');
        assert_eq!(orientation(-k, -k), '/');
        assert_eq!(orientation(0, k), '-');
        assert_eq!(orientation(0, -k), '-');
        assert_eq!(orientation(-k, k), '\\');
        assert_eq!(orientation(k, -k), '\\');
    }
    assert_eq!(classify(10, 6, 0, 0), PixelClass::Edge('|'));
}

#[test]
fn max_magnitude_is_squared_maximum() {
    assert_eq!(max_magnitude_func(&vec![3, 0], &vec![4, 1], 1, 2), 25);
    assert_eq!(max_magnitude_func(&vec![], &vec![], 0, 0), 0);
}

#[test]
fn render_twice_is_identical() {
    let img = rgb(8, 8, (0..192u32).map(|i| (i * 7 % 256) as u8).collect());
    let mut cfg = RenderConfig::new(AsciiPattern::Acerola);
    cfg.edge_detect = true;
    assert_eq!(run(&img, cfg), run(&img, cfg));
    cfg.edge_detect = false;
    cfg.color = true;
    assert_eq!(run(&img, cfg), run(&img, cfg));
}

#[test]
fn white_plain_scenario() {
    let ramp = AsciiPattern::Acerola.pattern();
    let out = plain_render(&gray(2, 2, vec![255; 4]), &ramp, false);
    let full = ramp[9];
    assert_eq!(text(&out), format!("{f}{f}\n{f}{f}\n", f = full));
}

#[test]
fn white_color_scenario() {
    let ramp = AsciiPattern::Acerola.pattern();
    let out = color_render(&rgb(2, 2, vec![255; 12]), &ramp, false);
    let span = format!("<span style=\"color: rgb(255, 255, 255)\">{}</span>", ramp[9]);
    assert_eq!(text(&out), format!("{s}{s}<br>{s}{s}<br>", s = span));
}

#[test]
fn color_digits() {
    let ramp = AsciiPattern::Me.pattern();
    let out = color_render(&rgb(1, 1, vec![7, 80, 200]), &ramp, false);
    assert_eq!(text(&out), "<span style=\"color: rgb(7, 80, 200)\">+</span><br>");
}

#[test]
fn vertical_boundary_scenario() {
    let ramp = AsciiPattern::Acerola.pattern();
    let mut px = Vec::new();
    for _ in 0..4 {
        px.extend_from_slice(&[0, 0, 0, 255, 255, 255]);
    }
    let out = edge_render(&gray(6, 4, px), &ramp, false, false);
    let row = format!("  ||{f}{f}\n", f = ramp[9]);
    assert_eq!(text(&out), row.repeat(4));
}

#[test]
fn run_converts_to_luma() {
    let img = rgb(2, 1, vec![255, 0, 0, 255, 0, 0]);
    let mut cfg = RenderConfig::new(AsciiPattern::Acerola);
    cfg.downscale = 1;
    let luma = ((2126u32 * 255) / 10000) as u8;
    let g = AsciiPattern::Acerola.pattern()[float_index(luma, 1.7, 10)];
    assert_eq!(run(&img, cfg), format!("{g}{g}\n", g = g));
}

#[test]
fn run_downscales() {
    let img = rgb(8, 4, vec![255; 96]);
    let cfg = RenderConfig::new(AsciiPattern::Me);
    let out = run(&img, cfg);
    let rows: Vec<&str> = out.split('\n').collect();
    assert_eq!(rows.len(), 2);
    assert_eq!(rows[0].chars().count(), 2);
}

#[test]
fn run_priority_edge_over_color() {
    let img = rgb(4, 4, vec![255; 48]);
    let mut cfg = RenderConfig::new(AsciiPattern::Me);
    cfg.downscale = 1;
    cfg.color = true;
    cfg.edge_detect = true;
    assert!(!run(&img, cfg).contains("<span"));
    cfg.edge_detect = false;
    assert!(run(&img, cfg).contains("<span"));
}

#[test]
fn live_frame_helpers() {
    assert_eq!(frame_height(640, 480), 112);
    assert!(!key_stops(-1));
    assert!(!key_stops(255));
    assert!(key_stops(113));
    let out = frame_text(&gray(2, 1, vec![0, 255]), AsciiPattern::Acerola, false);
    assert_eq!(out, " \u{2588}\n");
    let mid = frame_text(&gray(1, 1, vec![128]), AsciiPattern::Acerola, false);
    assert_eq!(mid, "c\n");
}

#[test]
fn run_on_image_smaller_than_downscale() {
    let img = rgb(3, 1, vec![128; 9]);
    let cfg = RenderConfig::new(AsciiPattern::Acerola);
    let out = run(&img, cfg);
    assert_eq!(out.chars().count(), 2);
    assert!(out.ends_with('\n'));
}

#[test]
fn run_keeps_aspect_ratio() {
    let cfg = RenderConfig::new(AsciiPattern::Me);
    let out = run(&rgb(10, 7, vec![200; 210]), cfg);
    assert_eq!(out.chars().count(), 2);
    let out = run(&rgb(100, 75, vec![200; 22500]), cfg);
    let rows: Vec<&str> = out.split('\n').filter(|r| !r.is_empty()).collect();
    assert_eq!(rows.len(), 18);
    assert!(rows.iter().all(|r| r.chars().count() == 24));
}

#[test]
fn render_image_matches_plain_render() {
    let img = rgb(2, 1, vec![255, 255, 255, 0, 0, 0]);
    let mut cfg = RenderConfig::new(AsciiPattern::Acerola);
    let ramp = AsciiPattern::Acerola.pattern();
    assert_eq!(render_image(&img, cfg), format!("{} \n", ramp[9]));
    cfg.color = true;
    assert_eq!(
        render_image(&img, cfg),
        format!(
            "<span style=\"color: rgb(255, 255, 255)\">{}</span><span style=\"color: rgb(0, 0, 0)\"> </span><br>",
            ramp[9]
        )
    );
}
