use gui::guicell::SolidCell;
use gui::window::{
    translate_message, DefaultHandler, VetoCloseHandler, Window, MSG_CLOSE, MSG_DESTROY,
    MSG_PAINT, MSG_SIZE,
};
use gui::{CommonEvent, Pixel, PixelIdx, Size};

fn sz(w: usize, h: usize) -> Size {
    Size { width: w, height: h }
}

fn red() -> Pixel {
    Pixel { a: 0, r: 255, g: 0, b: 0 }
}

fn red_window(w: usize, h: usize) -> Window<SolidCell, DefaultHandler> {
    Window::new("window", sz(w, h), SolidCell::new(red()), DefaultHandler).unwrap()
}

#[test]
fn window_new_fails_only_on_unaddressable_area() {
    let r = Window::new("window", sz(usize::MAX, 2), SolidCell::new(red()), DefaultHandler);
    assert!(r.is_err());
}

#[test]
fn new_window_is_open_at_requested_size() {
    let win = red_window(800, 600);
    assert!(!win.is_closed());
    assert_eq!(win.handle().unwrap().size(), sz(800, 600));
    assert_eq!(win.surface().size(), sz(800, 600));
    assert_eq!(win.surface().root().len(), 800 * 600);
    assert!(win.surface().root().iter().all(|p| *p == Pixel::default()));
}

#[test]
fn draw_fills_every_pixel_with_the_solid_color() {
    let mut win = red_window(800, 600);
    win.draw();
    let slice = win.surface().slice();
    let buf = win.surface().root();
    for y in 0..600 {
        for x in 0..800 {
            assert_eq!(slice.get_pixel(buf, PixelIdx::new(x, y)), red());
        }
    }
}

#[test]
fn draw_commits_a_frame_for_presentation() {
    let mut win = red_window(4, 4);
    assert!(!win.take_pending_frame());
    win.draw();
    assert!(win.take_pending_frame());
    assert!(!win.take_pending_frame());
}

#[test]
fn close_is_idempotent() {
    let mut win = red_window(4, 4);
    win.close();
    assert!(win.is_closed());
    assert!(win.handle().is_none());
    win.close();
    assert!(win.is_closed());
    assert!(win.handle().is_none());
}

#[test]
fn handle_events_after_close_is_a_no_op() {
    let mut win = red_window(4, 4);
    win.close();
    let before = win.surface().root().clone();
    win.handle_events(&vec![
        CommonEvent::Draw,
        CommonEvent::Resize,
        CommonEvent::MouseMove,
        CommonEvent::Close,
    ]);
    assert!(win.is_closed());
    assert_eq!(*win.surface().root(), before);
    assert_eq!(win.surface().size(), sz(4, 4));
    assert!(!win.take_pending_frame());
}

#[test]
fn close_event_closes_under_the_default_handler() {
    let mut win = red_window(4, 4);
    win.handle_events(&vec![CommonEvent::Close]);
    assert!(win.is_closed());
}

#[test]
fn vetoed_close_leaves_the_window_open() {
    let mut win =
        Window::new("window", sz(4, 4), SolidCell::new(red()), VetoCloseHandler).unwrap();
    win.handle_events(&vec![CommonEvent::Close]);
    assert!(!win.is_closed());
    assert_eq!(win.handle().unwrap().size(), sz(4, 4));
    // other defaults still run under the veto handler
    win.handle_events(&vec![CommonEvent::Draw]);
    assert!(win.take_pending_frame());
    win.close();
    assert!(win.is_closed());
}

#[test]
fn draw_event_paints_under_the_default_handler() {
    let mut win = red_window(3, 2);
    win.handle_events(&vec![CommonEvent::Draw]);
    let slice = win.surface().slice();
    let buf = win.surface().root();
    for y in 0..2 {
        for x in 0..3 {
            assert_eq!(slice.get_pixel(buf, PixelIdx::new(x, y)), red());
        }
    }
}

#[test]
fn resize_event_reconciles_the_surface_before_anything_else() {
    let mut win = red_window(800, 600);
    win.report_client_size(sz(1024, 768));
    win.handle_events(&vec![CommonEvent::Resize]);
    assert_eq!(win.surface().size(), sz(1024, 768));
    assert_eq!(win.surface().root().len(), 1024 * 768);
    assert!(win.surface().root().iter().all(|p| *p == Pixel::default()));
}

#[test]
fn resize_event_at_unchanged_size_keeps_the_frame() {
    let mut win = red_window(8, 8);
    win.draw();
    win.handle_events(&vec![CommonEvent::Resize]);
    let slice = win.surface().slice();
    let buf = win.surface().root();
    assert_eq!(win.surface().size(), sz(8, 8));
    assert_eq!(slice.get_pixel(buf, PixelIdx::new(7, 7)), red());
}

#[test]
fn resize_then_draw_paints_the_new_area() {
    let mut win = red_window(2, 2);
    win.report_client_size(sz(6, 5));
    win.handle_events(&vec![CommonEvent::Resize, CommonEvent::Draw]);
    let slice = win.surface().slice();
    let buf = win.surface().root();
    assert_eq!(win.surface().size(), sz(6, 5));
    for y in 0..5 {
        for x in 0..6 {
            assert_eq!(slice.get_pixel(buf, PixelIdx::new(x, y)), red());
        }
    }
}

#[test]
fn report_client_size_after_close_is_ignored() {
    let mut win = red_window(4, 4);
    win.close();
    win.report_client_size(sz(9, 9));
    assert!(win.handle().is_none());
}

#[test]
fn events_without_default_actions_change_nothing() {
    let mut win = red_window(4, 4);
    win.handle_events(&vec![
        CommonEvent::MouseMove,
        CommonEvent::Maximize,
        CommonEvent::Minimize,
        CommonEvent::QueryByCursor,
        CommonEvent::SetCursor,
        CommonEvent::Shutdown,
    ]);
    assert!(!win.is_closed());
    assert_eq!(win.surface().size(), sz(4, 4));
    assert!(!win.take_pending_frame());
}

#[test]
fn translate_message_maps_known_codes() {
    assert_eq!(translate_message(MSG_DESTROY), Some(CommonEvent::Shutdown));
    assert_eq!(translate_message(MSG_CLOSE), Some(CommonEvent::Close));
    assert_eq!(translate_message(MSG_PAINT), Some(CommonEvent::Draw));
    assert_eq!(translate_message(MSG_SIZE), Some(CommonEvent::Resize));
    assert_eq!(translate_message(0x0002), Some(CommonEvent::Shutdown));
    assert_eq!(translate_message(0x0010), Some(CommonEvent::Close));
    assert_eq!(translate_message(0x000F), Some(CommonEvent::Draw));
    assert_eq!(translate_message(0x0005), Some(CommonEvent::Resize));
}

#[test]
fn translate_message_passes_unknown_codes_through() {
    assert_eq!(translate_message(0x0100), None);
    assert_eq!(translate_message(0), None);
    assert_eq!(translate_message(u32::MAX), None);
}
