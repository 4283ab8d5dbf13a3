use flg::color::{color_for_name, hash_name, hsl_to_rgb};

fn float_rgb(h: f64, s: f64, l: f64) -> (u8, u8, u8) {
    let c = (1.0 - (2.0 * l - 1.0).abs()) * s;
    let x = c * (1.0 - ((h / 60.0) % 2.0 - 1.0).abs());
    let m = l - c / 2.0;
    let (r, g, b) = match (h as u32) / 60 {
        0 => (c, x, 0.0),
        1 => (x, c, 0.0),
        2 => (0.0, c, x),
        3 => (0.0, x, c),
        4 => (x, 0.0, c),
        _ => (c, 0.0, x),
    };
    (
        ((r + m) * 255.0) as u8,
        ((g + m) * 255.0) as u8,
        ((b + m) * 255.0) as u8,
    )
}

#[test]
fn the_root_is_indigo() {
    assert_eq!(color_for_name(""), (99, 102, 241));
}

#[test]
fn names_pick_their_colours() {
    assert_eq!(color_for_name("function_a"), (159, 16, 202));
    assert_eq!(color_for_name("main"), (25, 181, 184));
    assert_eq!(color_for_name("foo"), (13, 31, 184));
    assert_eq!(color_for_name("bar"), (120, 29, 169));
    assert_eq!(color_for_name("a"), (111, 33, 159));
}

#[test]
fn the_hash_multiplies_by_31_and_adds_each_byte() {
    assert_eq!(hash_name(b""), 0);
    assert_eq!(hash_name(b"a"), 97);
    assert_eq!(hash_name(b"ab"), 97 * 31 + 98);
    assert_eq!(hash_name(b"main"), 3343801);
    assert_eq!(hash_name(b"function_a"), 4232178106);
    assert_eq!(hash_name("é".as_bytes()), 0xc3 * 31 + 0xa9);
}

#[test]
fn primary_and_secondary_colours() {
    assert_eq!(hsl_to_rgb(0, 100, 50), (255, 0, 0));
    assert_eq!(hsl_to_rgb(60, 100, 50), (255, 255, 0));
    assert_eq!(hsl_to_rgb(120, 100, 50), (0, 255, 0));
    assert_eq!(hsl_to_rgb(180, 100, 50), (0, 255, 255));
    assert_eq!(hsl_to_rgb(240, 100, 50), (0, 0, 255));
    assert_eq!(hsl_to_rgb(300, 100, 50), (255, 0, 255));
    assert_eq!(hsl_to_rgb(0, 0, 0), (0, 0, 0));
    assert_eq!(hsl_to_rgb(0, 0, 100), (255, 255, 255));
    assert_eq!(hsl_to_rgb(200, 75, 40), (25, 127, 178));
    assert_eq!(hsl_to_rgb(359, 100, 50), (255, 0, 4));
}

#[test]
fn channels_differ_from_floating_point_by_at_most_one() {
    let mut differing = 0;
    for hue in 180..300u32 {
        for k in 0..25u32 {
            for j in 0..12u32 {
                let exact = hsl_to_rgb(hue, 65 + k, 38 + j);
                let float = float_rgb(
                    hue as f64,
                    0.65 + (k as f64 / 100.0),
                    0.38 + (j as f64 / 100.0),
                );
                let near = |a: u8, b: u8| a == b || a == b + 1;
                assert!(near(exact.0, float.0) && near(exact.1, float.1) && near(exact.2, float.2));
                if exact != float {
                    differing += 1;
                }
            }
        }
    }
    assert!(differing <= 6);
}
