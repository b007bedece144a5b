use crab_tracer::image::{receive, ReceiveError, RenderImage};
use crab_tracer::render::RenderResult;
use crab_tracer::pixel::Rgb8;

fn px(v: u8) -> Rgb8 {
    Rgb8 { r: v, g: v, b: v }
}

#[test]
fn new_image_is_black_and_empty() {
    let img = RenderImage::new(4, 3);
    assert_eq!(img.width(), 4);
    assert_eq!(img.height(), 3);
    assert_eq!(img.lines_received(), 0);
    assert_eq!(img.pixels().len(), 12);
    assert!(img.pixels().iter().all(|p| *p == px(0)));
    assert!(!img.complete());
}

#[test]
fn line_zero_is_the_bottom_row() {
    let mut img = RenderImage::new(2, 3);
    img.store_pixel_line(0, vec![px(1), px(2)]);
    assert_eq!(img.pixels()[4..6], [px(1), px(2)]);
    assert!(img.pixels()[0..4].iter().all(|p| *p == px(0)));
    img.store_pixel_line(2, vec![px(7), px(8)]);
    assert_eq!(img.pixels()[0..2], [px(7), px(8)]);
    assert_eq!(img.lines_received(), 2);
    assert!(!img.complete());
    img.store_pixel_line(1, vec![px(4), px(5)]);
    assert!(img.complete());
    assert_eq!(
        *img.pixels(),
        vec![px(7), px(8), px(4), px(5), px(1), px(2)]
    );
}

fn reset(w: usize, h: usize) -> RenderResult {
    RenderResult::Reset {
        generation: 1,
        image_width: w,
        image_height: h,
    }
}

fn line(line_num: usize, pixels: Vec<Rgb8>) -> RenderResult {
    RenderResult::ImageLine {
        generation: 1,
        line_num,
        line_pixels: pixels,
    }
}

#[test]
fn receive_reset_starts_a_black_image() {
    let mut image = None;
    assert_eq!(receive(&mut image, reset(3, 2)), Ok(()));
    let img = image.as_ref().unwrap();
    assert_eq!((img.width(), img.height(), img.lines_received()), (3, 2, 0));
    assert!(img.pixels().iter().all(|p| *p == px(0)));
}

#[test]
fn receive_rejects_bad_sizes() {
    let mut image = None;
    assert_eq!(receive(&mut image, reset(0, 2)), Err(ReceiveError::EmptyImage));
    assert_eq!(receive(&mut image, reset(2, 0)), Err(ReceiveError::EmptyImage));
    assert_eq!(
        receive(&mut image, reset(usize::MAX, 2)),
        Err(ReceiveError::TooLarge)
    );
    assert!(image.is_none());
}

#[test]
fn receive_rejects_bad_lines_and_keeps_the_image() {
    let mut image = None;
    assert_eq!(receive(&mut image, line(0, vec![px(1)])), Err(ReceiveError::NoImage));
    receive(&mut image, reset(2, 1)).unwrap();
    assert_eq!(receive(&mut image, line(0, vec![px(1)])), Err(ReceiveError::WrongWidth));
    assert_eq!(
        receive(&mut image, line(1, vec![px(1), px(2)])),
        Err(ReceiveError::NoSuchRow)
    );
    assert_eq!(image.as_ref().unwrap().lines_received(), 0);
    assert_eq!(receive(&mut image, line(0, vec![px(1), px(2)])), Ok(()));
    assert!(image.as_ref().unwrap().complete());
    assert_eq!(
        receive(&mut image, line(0, vec![px(3), px(4)])),
        Err(ReceiveError::AlreadyComplete)
    );
    assert_eq!(*image.as_ref().unwrap().pixels(), vec![px(1), px(2)]);
}

#[test]
fn receive_reset_discards_the_previous_image() {
    let mut image = None;
    receive(&mut image, reset(1, 1)).unwrap();
    receive(&mut image, line(0, vec![px(9)])).unwrap();
    receive(&mut image, reset(1, 2)).unwrap();
    let img = image.as_ref().unwrap();
    assert_eq!(img.lines_received(), 0);
    assert_eq!(*img.pixels(), vec![px(0), px(0)]);
}

#[test]
fn receive_assembles_a_full_image_from_rows_in_any_order() {
    let mut image = None;
    assert_eq!(receive(&mut image, reset(2, 3)), Ok(()));
    for &row in &[1usize, 2, 0] {
        let v = 10 * row as u8;
        assert_eq!(receive(&mut image, line(row, vec![px(v), px(v + 1)])), Ok(()));
    }
    let img = image.unwrap();
    assert!(img.complete());
    assert_eq!(
        *img.pixels(),
        vec![px(20), px(21), px(10), px(11), px(0), px(1)]
    );
}
