use draw::render::Renderer;
use draw::{Canvas, Drawing, Shape, Style, SvgRenderer, RGB};
use pallet::color::RGBColor;
use pallet::grid::{
    draw_pallet, try_draw_pallet, Rect, MAX_PALLET_LEN, SQUARES_PER_ROW, SQUARE_WIDTH,
};

fn shades(count: usize) -> Vec<RGBColor> {
    let mut colors: Vec<RGBColor> = Vec::new();
    for i in 0..count {
        colors.push(RGBColor::new((i % 256) as u8, (i / 256) as u8, 200));
    }
    colors
}

fn render_svg(pallet: &[RGBColor]) -> String {
    let layout = draw_pallet(pallet);
    let mut canvas = Canvas::new(layout.width, layout.height);
    for rect in layout.rects.iter() {
        let drawing = Drawing::new()
            .with_shape(Shape::Rectangle { width: rect.width, height: rect.height })
            .with_xy(rect.x as f32, rect.y as f32)
            .with_style(Style::filled(RGB::new(rect.fill.red, rect.fill.green, rect.fill.blue)));
        canvas.display_list.add(drawing);
    }
    String::from_utf8(SvgRenderer::new().render(&canvas)).unwrap()
}

#[test]
fn grid_constants() {
    assert_eq!(SQUARE_WIDTH, 100);
    assert_eq!(SQUARES_PER_ROW, 8);
    assert_eq!(MAX_PALLET_LEN as u64, 8 * (u32::MAX as u64 / 100));
}

#[test]
fn three_colors_fill_part_of_one_row() {
    let colors = [RGBColor::new(255, 0, 0), RGBColor::new(0, 255, 0), RGBColor::new(0, 0, 255)];
    let canvas = draw_pallet(&colors);
    assert_eq!(canvas.width, 800);
    assert_eq!(canvas.height, 100);
    assert_eq!(canvas.rects.len(), 3);
    let expected_x: [u32; 3] = [0, 100, 200];
    for i in 0..3usize {
        let rect: Rect = canvas.rects[i];
        assert_eq!(rect.x, expected_x[i]);
        assert_eq!(rect.y, 0);
        assert_eq!(rect.width, 100);
        assert_eq!(rect.height, 100);
        assert!(rect.fill == colors[i]);
    }
}

#[test]
fn svg_of_three_colors_has_three_rects_in_a_row() {
    let colors = [RGBColor::new(255, 0, 0), RGBColor::new(0, 255, 0), RGBColor::new(0, 0, 255)];
    let svg = render_svg(&colors);
    assert!(svg.contains("viewBox=\"0 0 800 100\""));
    assert_eq!(svg.matches("<rect").count(), 3);
    assert!(svg.contains(
        "<rect fill=\"rgb(255,0,0)\" height=\"100\" width=\"100\" x=\"0\" y=\"0\"/>"
    ));
    assert!(svg.contains(
        "<rect fill=\"rgb(0,255,0)\" height=\"100\" width=\"100\" x=\"100\" y=\"0\"/>"
    ));
    assert!(svg.contains(
        "<rect fill=\"rgb(0,0,255)\" height=\"100\" width=\"100\" x=\"200\" y=\"0\"/>"
    ));
    assert!(!svg.contains("stroke"));
}

#[test]
fn svg_of_nine_colors_wraps_to_a_second_row() {
    let svg = render_svg(&shades(9));
    assert!(svg.contains("viewBox=\"0 0 800 200\""));
    assert_eq!(svg.matches("<rect").count(), 9);
    assert!(svg.contains("x=\"700\" y=\"0\""));
    assert!(svg.contains("fill=\"rgb(8,0,200)\" height=\"100\" width=\"100\" x=\"0\" y=\"100\""));
}

#[test]
fn empty_pallet_gives_an_empty_canvas() {
    let canvas = draw_pallet(&[]);
    assert_eq!(canvas.width, 800);
    assert_eq!(canvas.height, 0);
    assert!(canvas.rects.is_empty());
}

#[test]
fn height_is_the_row_count_rounded_up() {
    let cases: [(usize, u32); 10] = [
        (0, 0),
        (1, 100),
        (7, 100),
        (8, 100),
        (9, 200),
        (16, 200),
        (17, 300),
        (24, 300),
        (25, 400),
        (1000, 12500),
    ];
    for (count, height) in cases {
        let canvas = draw_pallet(&shades(count));
        assert_eq!(canvas.width, 800);
        assert_eq!(canvas.height, height);
        assert_eq!(canvas.rects.len(), count);
    }
}

#[test]
fn each_square_stands_at_the_place_of_its_index() {
    let colors = shades(21);
    let canvas = draw_pallet(&colors);
    for (i, rect) in canvas.rects.iter().enumerate() {
        assert_eq!(rect.x, (i % 8) as u32 * 100);
        assert_eq!(rect.y, (i / 8) as u32 * 100);
        assert_eq!(rect.width, 100);
        assert_eq!(rect.height, 100);
        assert!(rect.fill == colors[i]);
    }
    assert_eq!(canvas.rects[8].x, 0);
    assert_eq!(canvas.rects[8].y, 100);
    assert_eq!(canvas.rects[20].x, 400);
    assert_eq!(canvas.rects[20].y, 200);
}

#[test]
fn squares_fit_the_canvas_and_do_not_overlap() {
    let canvas = draw_pallet(&shades(29));
    for a in canvas.rects.iter() {
        assert!(a.x + a.width <= canvas.width);
        assert!(a.y + a.height <= canvas.height);
    }
    for (i, a) in canvas.rects.iter().enumerate() {
        for (j, b) in canvas.rects.iter().enumerate() {
            if i != j {
                let apart = a.x + a.width <= b.x
                    || b.x + b.width <= a.x
                    || a.y + a.height <= b.y
                    || b.y + b.height <= a.y;
                assert!(apart);
            }
        }
    }
}

#[test]
fn last_row_is_never_empty() {
    for count in 1..40usize {
        let canvas = draw_pallet(&shades(count));
        let last: &Rect = canvas.rects.last().unwrap();
        assert_eq!(last.y + last.height, canvas.height);
    }
}

#[test]
fn checked_drawing_is_the_drawing_where_it_fits() {
    let colors = shades(11);
    let drawn = draw_pallet(&colors);
    let checked = try_draw_pallet(&colors);
    assert!(checked.is_some());
    let checked = checked.unwrap();
    assert_eq!(checked.width, drawn.width);
    assert_eq!(checked.height, drawn.height);
    assert_eq!(checked.height, 200);
    assert!(checked.rects == drawn.rects);
    assert!(try_draw_pallet(&[]).is_some());
}
