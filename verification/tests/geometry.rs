use gui::{
    CommonEvent, Direction, Distance, Partition, PartitionError, Partitionable, Pixel, PixelIdx,
    PixelIndexSlice, Size,
};
use gui::keys::Key;

fn rect(x: usize, y: usize, w: usize, h: usize) -> PixelIndexSlice {
    PixelIndexSlice {
        offset: PixelIdx { x, y },
        size: Size { width: w, height: h },
    }
}

#[test]
fn pixel_from_u32_unpacks_bytes() {
    let p = Pixel::from(0x4433_2211u32);
    assert_eq!(p.a, 0x11);
    assert_eq!(p.r, 0x22);
    assert_eq!(p.g, 0x33);
    assert_eq!(p.b, 0x44);
}

#[test]
fn u32_from_pixel_packs_bytes() {
    let v = u32::from(Pixel { a: 0x11, r: 0x22, g: 0x33, b: 0x44 });
    assert_eq!(v, 0x4433_2211u32);
}

#[test]
fn pixel_u32_round_trip() {
    for v in [0u32, 1, 0xFF00_FF00, 0xDEAD_BEEF, u32::MAX] {
        assert_eq!(u32::from(Pixel::from(v)), v);
    }
}

#[test]
fn pixel_default_is_zero() {
    let p = Pixel::default();
    assert_eq!(p, Pixel { a: 0, r: 0, g: 0, b: 0 });
}

#[test]
fn pixel_idx_new_and_translate() {
    let a = PixelIdx::new(3, 4);
    assert_eq!(a, PixelIdx { x: 3, y: 4 });
    let b = a.translate(PixelIdx::new(10, 20));
    assert_eq!(b, PixelIdx { x: 13, y: 24 });
}

#[test]
fn size_getters_and_aliases() {
    let s = Size { width: 7, height: 9 };
    assert_eq!(s.width(), 7);
    assert_eq!(s.height(), 9);
    assert_eq!(s.cols(), 7);
    assert_eq!(s.rows(), 9);
}

#[test]
fn size_setters_and_aliases() {
    let mut s = Size { width: 0, height: 0 };
    s.set_width(5);
    s.set_height(6);
    assert_eq!(s, Size { width: 5, height: 6 });
    s.set_cols(15);
    s.set_rows(16);
    assert_eq!(s, Size { width: 15, height: 16 });
}

#[test]
fn contains_checks_half_open_bounds() {
    let r = rect(10, 20, 5, 3);
    assert!(r.contains(PixelIdx::new(10, 20)));
    assert!(r.contains(PixelIdx::new(14, 22)));
    assert!(!r.contains(PixelIdx::new(9, 20)));
    assert!(!r.contains(PixelIdx::new(10, 19)));
    assert!(!r.contains(PixelIdx::new(15, 20)));
    assert!(!r.contains(PixelIdx::new(10, 23)));
}

#[test]
fn contains_of_zero_size_is_empty() {
    let r = rect(0, 0, 0, 0);
    assert!(!r.contains(PixelIdx::new(0, 0)));
}

#[test]
fn partition_horizontal_at_300_of_800x600() {
    let r = rect(0, 0, 800, 600);
    let p: Partition<PixelIndexSlice> =
        r.partition(Direction::Horizontal, Distance::Pixels(300)).unwrap();
    assert_eq!(p.children.0, rect(0, 0, 300, 600));
    assert_eq!(p.children.1, rect(300, 0, 500, 600));
    assert_eq!(p.direction, Direction::Horizontal);
    assert_eq!(p.distance, Distance::Pixels(300));
}

#[test]
fn partition_vertical_at_100_of_800x600() {
    let r = rect(0, 0, 800, 600);
    let p = r.partition(Direction::Vertical, Distance::Pixels(100)).unwrap();
    assert_eq!(p.children.0, rect(0, 0, 800, 100));
    assert_eq!(p.children.1, rect(0, 100, 800, 500));
}

#[test]
fn partition_keeps_parent_offset() {
    let r = rect(40, 50, 10, 8);
    let p = r.partition(Direction::Horizontal, Distance::Pixels(4)).unwrap();
    assert_eq!(p.children.0, rect(40, 50, 4, 8));
    assert_eq!(p.children.1, rect(44, 50, 6, 8));
}

#[test]
fn partition_at_zero_gives_degenerate_near_child() {
    let r = rect(0, 0, 10, 10);
    let p = r.partition(Direction::Horizontal, Distance::Pixels(0)).unwrap();
    assert_eq!(p.children.0, rect(0, 0, 0, 10));
    assert_eq!(p.children.1, rect(0, 0, 10, 10));
}

#[test]
fn partition_at_full_extent_gives_degenerate_far_child() {
    let r = rect(0, 0, 10, 10);
    let p = r.partition(Direction::Vertical, Distance::Pixels(10)).unwrap();
    assert_eq!(p.children.0, rect(0, 0, 10, 10));
    assert_eq!(p.children.1, rect(0, 10, 10, 0));
}

#[test]
fn partition_rejects_out_of_range_pixels() {
    let r = rect(0, 0, 800, 600);
    let e = r.partition(Direction::Horizontal, Distance::Pixels(801));
    assert_eq!(e.unwrap_err(), PartitionError::OutOfRange);
}

#[test]
fn partition_accepts_extent_rejects_one_past() {
    let r = rect(0, 0, 800, 600);
    assert!(r.partition(Direction::Vertical, Distance::Pixels(600)).is_ok());
    assert_eq!(
        r.partition(Direction::Vertical, Distance::Pixels(601)).unwrap_err(),
        PartitionError::OutOfRange
    );
}

#[test]
fn partition_relative_half_matches_pixels() {
    let r = rect(0, 0, 800, 600);
    let a = r.partition(Direction::Horizontal, Distance::Relative(1, 2)).unwrap();
    let b = r.partition(Direction::Horizontal, Distance::Pixels(400)).unwrap();
    assert_eq!(a.children.0, b.children.0);
    assert_eq!(a.children.1, b.children.1);
}

#[test]
fn partition_relative_rounds_down() {
    let r = rect(0, 0, 5, 5);
    let p = r.partition(Direction::Horizontal, Distance::Relative(1, 2)).unwrap();
    assert_eq!(p.children.0, rect(0, 0, 2, 5));
    assert_eq!(p.children.1, rect(2, 0, 3, 5));
}

#[test]
fn partition_relative_zero_and_one() {
    let r = rect(0, 0, 10, 10);
    let z = r.partition(Direction::Vertical, Distance::Relative(0, 7)).unwrap();
    assert_eq!(z.children.0, rect(0, 0, 10, 0));
    let o = r.partition(Direction::Vertical, Distance::Relative(7, 7)).unwrap();
    assert_eq!(o.children.1, rect(0, 10, 10, 0));
}

#[test]
fn partition_relative_three_quarters_of_600() {
    let r = rect(0, 0, 800, 600);
    let p = r.partition(Direction::Vertical, Distance::Relative(3, 4)).unwrap();
    assert_eq!(p.children.0, rect(0, 0, 800, 450));
    assert_eq!(p.children.1, rect(0, 450, 800, 150));
}

#[test]
fn partition_rejects_bad_ratio() {
    let r = rect(0, 0, 800, 600);
    assert_eq!(
        r.partition(Direction::Horizontal, Distance::Relative(3, 2)).unwrap_err(),
        PartitionError::BadRatio
    );
    assert_eq!(
        r.partition(Direction::Horizontal, Distance::Relative(1, 0)).unwrap_err(),
        PartitionError::BadRatio
    );
}

#[test]
fn key_events_carry_their_code() {
    let e = CommonEvent::KeyDown(Key::new(0x41));
    match e {
        CommonEvent::KeyDown(k) => assert_eq!(k.code, 0x41),
        _ => panic!("wrong variant"),
    }
}
