use rusty_renderer::raster::{draw_line, Point2D};
use rusty_renderer::tga::{Gray8, Rgb888, TgaImage};

fn lit_pixels(image: &TgaImage<Gray8>, width: usize) -> Vec<(usize, usize)> {
    let mut lit = Vec::new();
    for (i, v) in image.data().iter().enumerate() {
        if *v != 0 {
            lit.push((i % width, i / width));
        }
    }
    lit
}

fn draw(a: (i32, i32), b: (i32, i32), size: u16) -> Vec<(usize, usize)> {
    let mut image: TgaImage<Gray8> = TgaImage::new(size, size).unwrap();
    draw_line(
        Point2D { x: a.0, y: a.1 },
        Point2D { x: b.0, y: b.1 },
        &mut image,
        &Gray8 { gray: 200 },
    );
    lit_pixels(&image, size as usize)
}

fn sorted_by_row(mut v: Vec<(usize, usize)>) -> Vec<(usize, usize)> {
    v.sort_by_key(|p| (p.1, p.0));
    v
}

#[test]
fn horizontal_line() {
    assert_eq!(draw((0, 0), (4, 0), 8), vec![(0, 0), (1, 0), (2, 0), (3, 0), (4, 0)]);
}

#[test]
fn steep_line() {
    let lit = sorted_by_row(draw((0, 0), (3, 5), 8));
    assert_eq!(lit, vec![(0, 0), (1, 1), (1, 2), (2, 3), (2, 4), (3, 5)]);
    for (row, p) in lit.iter().enumerate() {
        assert_eq!(p.1, row);
    }
    for w in lit.windows(2) {
        assert!(w[0].0 <= w[1].0);
    }
}

#[test]
fn degenerate_line() {
    assert_eq!(draw((2, 2), (2, 2), 8), vec![(2, 2)]);
}

#[test]
fn endpoints_in_either_order() {
    assert_eq!(draw((4, 0), (0, 0), 8), draw((0, 0), (4, 0), 8));
    assert_eq!(draw((3, 5), (0, 0), 8), draw((0, 0), (3, 5), 8));
}

#[test]
fn vertical_line() {
    assert_eq!(draw((5, 1), (5, 4), 8), vec![(5, 1), (5, 2), (5, 3), (5, 4)]);
}

#[test]
fn descending_shallow_line() {
    let lit = draw((0, 3), (6, 0), 8);
    let mut by_column = lit.clone();
    by_column.sort();
    assert_eq!(by_column, vec![(0, 3), (1, 3), (2, 2), (3, 2), (4, 1), (5, 1), (6, 0)]);
}

#[test]
fn steep_line_going_up_left() {
    let lit = sorted_by_row(draw((1, 7), (0, 0), 8));
    assert_eq!(lit.len(), 8);
    assert_eq!(lit[0], (0, 0));
    assert_eq!(lit[7], (1, 7));
}

#[test]
fn diagonal_on_rgb_buffer() {
    let mut image: TgaImage<Rgb888> = TgaImage::new(4, 4).unwrap();
    let c = Rgb888 { r: 1, g: 2, b: 3 };
    draw_line(Point2D { x: 0, y: 0 }, Point2D { x: 3, y: 3 }, &mut image, &c);
    let data = image.data();
    for i in 0..4usize {
        let off = (i * 4 + i) * 3;
        assert_eq!(&data[off..off + 3], &[1, 2, 3]);
    }
    assert_eq!(data.iter().filter(|v| **v != 0).count(), 12);
}
