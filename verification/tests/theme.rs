use pika::config::theme::{Color, Theme};

#[test]
fn test_color_new() {
    let c = Color::new(10, 20, 30);
    assert_eq!(c.r, 10);
    assert_eq!(c.g, 20);
    assert_eq!(c.b, 30);
}


#[test]
fn test_color_equality() {
    let a = Color::new(1, 2, 3);
    let b = Color::new(1, 2, 3);
    let c = Color::new(4, 5, 6);
    assert_eq!(a, b);
    assert_ne!(a, c);
}

#[test]
fn test_color_clone() {
    let a = Color::new(100, 200, 50);
    let b = a;
    assert_eq!(a, b);
}

#[test]
fn test_color_debug() {
    let c = Color::new(0, 0, 0);
    let dbg = format!("{:?}", c);
    assert!(dbg.contains("Color"));
}

#[test]
fn test_theme_default_creates_valid_theme() {
    let theme = Theme::default();
    // Spot-check a handful of known values
    assert_eq!(theme.bg, Color::new(0x2b, 0x30, 0x3b));
    assert_eq!(theme.fg, Color::new(0xc0, 0xc5, 0xce));
    assert_eq!(theme.status_bar_bg, Color::new(0x00, 0x7a, 0xcc));
    assert_eq!(theme.error_fg, Color::new(0xbf, 0x61, 0x6a));
}

#[test]
fn test_theme_clone() {
    let t1 = Theme::default();
    let t2 = t1.clone();
    assert_eq!(t1, t2);
}
