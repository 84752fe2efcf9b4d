use pallet::color::RGBColor;
use pallet::present::format_pallet;

const BLOCK: &str = "\u{2588}\u{2588}\u{2588}\u{2588}";

const BASIC: [&str; 16] = [
    "30", "31", "32", "33", "34", "35", "36", "37", "90", "91", "92", "93", "94", "95", "96", "97",
];

fn is_display_of(display: &str, red: u8, green: u8, blue: u8) -> bool {
    display == BLOCK
        || display == format!("\u{1b}[38;2;{};{};{}m{}\u{1b}[0m", red, green, blue, BLOCK)
        || BASIC
            .iter()
            .any(|code| display == format!("\u{1b}[{}m{}\u{1b}[0m", code, BLOCK))
}

#[test]
fn display_takes_one_of_its_three_forms() {
    for (red, green, blue) in [(0u8, 0u8, 0u8), (255, 255, 255), (7, 77, 177), (200, 100, 0)] {
        let display = RGBColor::new(red, green, blue).get_color_display();
        assert!(is_display_of(&display, red, green, blue));
        assert!(!display.contains('\n'));
        assert!(display.contains(BLOCK));
    }
}

#[test]
fn swatch_report_shows_every_color_twice_and_lists_its_code() {
    let colors = [
        RGBColor::new(1, 2, 3),
        RGBColor::new(40, 50, 60),
        RGBColor::new(255, 0, 128),
    ];
    let text = format_pallet(&colors);
    assert_eq!(text.matches(BLOCK).count(), 6);
    assert!(text.contains(" #010203\n"));
    assert!(text.contains(" #28323C\n"));
    assert!(text.ends_with(" #FF0080\n"));
    assert_eq!(text.matches("\n\n\n").count(), 1);
}
