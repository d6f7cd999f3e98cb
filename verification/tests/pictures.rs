use ocr_translate::capture::{acquire, screenshot_path, wait_for_frame, CapturePlan, FrameLook};
use ocr_translate::config::{CaptureBackend, CaptureConfig, OcrConfig};
use ocr_translate::drag::{button, Button, Drag};
use ocr_translate::frame::{
    clipboard_frame, crop_frame, look_at_clipboard, received, square_frame, tray_icon,
    ClipboardImage, ClipboardLook, Frame, PixelFormat, RawFrame,
};
use ocr_translate::monitors::{
    crop_to_active_monitor, largest_window, monitor_at, primary_index, primary_monitor,
    region_within, selected_region, MonitorRect,
};
use ocr_translate::ocr::{
    imageproc_contrast, ocr_request, prepare_colors, prepare_picture, recognized_text,
};

fn numbered(width: u32, height: u32) -> Frame {
    Frame {
        width,
        height,
        pixels: (0..4 * width * height).map(|i| (i % 251) as u8).collect(),
    }
}

fn png_pixels(png: &[u8]) -> (u32, u32, Vec<u8>) {
    let p = image::load_from_memory(png).unwrap().to_rgb8();
    (p.width(), p.height(), p.into_raw())
}

#[test]
fn raw_frames_of_each_layout() {
    let raw = |format| RawFrame {
        format,
        width: 1,
        height: 1,
        stride: 0,
        bytes: vec![1, 2, 3, 4],
    };
    assert_eq!(raw(PixelFormat::Bgrx).to_rgba().unwrap().pixels, vec![3, 2, 1, 255]);
    assert_eq!(raw(PixelFormat::Bgra).to_rgba().unwrap().pixels, vec![3, 2, 1, 4]);
    assert_eq!(raw(PixelFormat::Rgbx).to_rgba().unwrap().pixels, vec![1, 2, 3, 255]);
    assert_eq!(raw(PixelFormat::Rgba).to_rgba().unwrap().pixels, vec![1, 2, 3, 4]);
    assert!(raw(PixelFormat::Other).to_rgba().is_none());
}

#[test]
fn rows_that_did_not_come_are_black() {
    let raw = RawFrame {
        format: PixelFormat::Rgba,
        width: 1,
        height: 3,
        stride: 6,
        bytes: vec![1, 2, 3, 4, 0, 0, 5, 6, 7, 8],
    };
    let f = raw.to_rgba().unwrap();
    assert_eq!(f.pixels, vec![1, 2, 3, 4, 5, 6, 7, 8, 0, 0, 0, 0]);
}

#[test]
fn unknown_layout_without_a_row_is_black() {
    let raw = RawFrame {
        format: PixelFormat::Other,
        width: 1,
        height: 1,
        stride: 0,
        bytes: vec![1],
    };
    assert_eq!(raw.to_rgba().unwrap().pixels, vec![0, 0, 0, 0]);
}

#[test]
fn stream_buffers() {
    let f = received(PixelFormat::Rgba, 1, 1, 4, -8, vec![1, 2, 3, 4, 5]).unwrap();
    assert_eq!(f.stride, 0);
    assert_eq!(f.bytes, vec![1, 2, 3, 4]);
    let f = received(PixelFormat::Bgrx, 2, 1, 100, 8, vec![9]).unwrap();
    assert_eq!(f.stride, 8);
    assert_eq!(f.bytes, vec![9]);
    assert!(received(PixelFormat::Rgba, 1, 1, 0, 4, vec![1]).is_none());
    assert!(received(PixelFormat::Rgba, 1, 1, 4, 4, vec![]).is_none());
    assert!(received(PixelFormat::Rgba, 0, 1, 4, 4, vec![1]).is_none());
    assert!(received(PixelFormat::Rgba, 1, 0, 4, 4, vec![1]).is_none());
}

#[test]
fn crop_takes_the_region() {
    let f = numbered(3, 2);
    let c = crop_frame(&f, 1, 1, 2, 1);
    assert_eq!((c.width, c.height), (2, 1));
    assert_eq!(c.pixels, f.pixels[16..24].to_vec());
}

#[test]
fn whole_region_is_the_picture() {
    let f = numbered(3, 4);
    let c = crop_frame(&f, 0, 0, 3, 4);
    assert_eq!(c.pixels, f.pixels);
}

#[test]
fn crop_is_cut_at_the_edge() {
    let f = numbered(3, 2);
    let c = crop_frame(&f, 9, 1, 9, 9);
    assert_eq!((c.width, c.height), (1, 1));
    assert_eq!(c.pixels, f.pixels[20..24].to_vec());
    let empty = Frame { width: 0, height: 0, pixels: vec![] };
    let c = crop_frame(&empty, 1, 1, 1, 1);
    assert_eq!((c.width, c.height, c.pixels.len()), (0, 0, 0));
}

#[test]
fn clipboard_pictures() {
    let image = |bytes: Vec<u8>| ClipboardImage { width: 1, height: 1, bytes };
    let f = clipboard_frame(image(vec![1, 2, 3, 4, 5])).unwrap();
    assert_eq!(f.pixels, vec![1, 2, 3, 4]);
    assert!(clipboard_frame(image(vec![1, 2, 3])).is_none());
}

#[test]
fn old_clipboard_picture_does_not_count() {
    let image = |b: u8| ClipboardImage { width: 1, height: 1, bytes: vec![b; 4] };
    assert!(matches!(
        look_at_clipboard(&Some(image(1)), Some(image(2)), false),
        ClipboardLook::Captured(_)
    ));
    assert!(matches!(
        look_at_clipboard(&None, Some(image(2)), true),
        ClipboardLook::Captured(_)
    ));
    assert!(matches!(
        look_at_clipboard(&Some(image(1)), Some(image(1)), false),
        ClipboardLook::Wait
    ));
    assert!(matches!(
        look_at_clipboard(&Some(image(1)), Some(image(1)), true),
        ClipboardLook::Cancelled
    ));
    assert!(matches!(look_at_clipboard(&None, None, true), ClipboardLook::Cancelled));
    let short = ClipboardImage { width: 2, height: 1, bytes: vec![0; 4] };
    assert!(matches!(
        look_at_clipboard(&None, Some(short), false),
        ClipboardLook::WrongSize
    ));
}

#[test]
fn contrast_matches_floating_point_everywhere() {
    for low in 0u32..=255 {
        for high in low + 1..=255 {
            let range = (high - low) as f32;
            let levels: Vec<u8> = (low..=high).map(|v| v as u8).collect();
            let stretched = imageproc_contrast(&levels);
            for (v, s) in levels.iter().zip(&stretched) {
                let want = ((*v as u32 - low) as f32 / range * 255.0).round() as u8;
                assert_eq!(*s, want, "{v} of {low}..{high}");
            }
        }
    }
}

#[test]
fn contrast_reaches_both_ends_and_keeps_order() {
    assert_eq!(imageproc_contrast(&vec![100, 150, 200]), vec![0, 128, 255]);
    assert_eq!(imageproc_contrast(&vec![7, 7]), vec![7, 7]);
    assert!(imageproc_contrast(&vec![]).is_empty());
}

#[test]
fn prepared_picture_is_gray_and_stretched() {
    let f = Frame {
        width: 3,
        height: 1,
        pixels: vec![10, 20, 30, 255, 200, 100, 50, 0, 0, 0, 0, 9],
    };
    let luma = |r: u32, g: u32, b: u32| ((2126 * r + 7152 * g + 722 * b) / 10000) as u8;
    let levels = vec![luma(10, 20, 30), luma(200, 100, 50), 0];
    let want: Vec<u8> =
        imageproc_contrast(&levels).iter().flat_map(|v| vec![*v, *v, *v]).collect();
    let png = prepare_picture(&f, true).unwrap();
    assert_eq!(png_pixels(&png), (3, 1, want));
}

#[test]
fn unprepared_picture_keeps_its_colors() {
    let f = Frame { width: 1, height: 2, pixels: vec![1, 2, 3, 4, 5, 6, 7, 8] };
    assert_eq!(prepare_colors(&f, false), vec![1, 2, 3, 5, 6, 7]);
    let png = prepare_picture(&f, false).unwrap();
    assert_eq!(png_pixels(&png), (1, 2, vec![1, 2, 3, 5, 6, 7]));
}

#[test]
fn every_gray_level_stays_what_it_is() {
    let f = Frame {
        width: 256,
        height: 1,
        pixels: (0..=255u8).flat_map(|v| vec![v, v, v, 255]).collect(),
    };
    let levels: Vec<u8> = (0..=255).collect();
    let want: Vec<u8> =
        imageproc_contrast(&levels).iter().flat_map(|v| vec![*v, *v, *v]).collect();
    assert_eq!(prepare_colors(&f, true), want);
    assert_eq!(want[3 * 255], 255);
    assert_eq!(png_pixels(&prepare_picture(&f, true).unwrap()), (256, 1, want));
}

#[test]
fn tesseract_is_asked_as_configured() {
    let f = numbered(2, 2);
    let mut cfg = OcrConfig::default();
    cfg.languages = "eng".to_string();
    cfg.psm = Some(-6);
    let q = ocr_request(&f, &cfg, &Some("/bundled".to_string())).unwrap();
    assert_eq!(q.languages, "eng");
    assert_eq!(q.page_segmentation.as_deref(), Some("-6"));
    assert_eq!(q.tessdata_dir.as_deref(), Some("/bundled"));
    cfg.tessdata_dir = Some("/own".to_string());
    cfg.psm = None;
    let q = ocr_request(&f, &cfg, &Some("/bundled".to_string())).unwrap();
    assert_eq!(q.tessdata_dir.as_deref(), Some("/own"));
    assert_eq!(q.page_segmentation, None);
    assert_eq!(png_pixels(&q.png).0, 2);
    assert!(ocr_request(&numbered(0, 0), &cfg, &None).is_err());
    assert_eq!(recognized_text(" a\n"), "a");
}

#[test]
fn icons_have_the_size_asked_for() {
    let mut file = std::io::Cursor::new(Vec::new());
    image::RgbImage::from_raw(2, 1, vec![255, 0, 0, 255, 0, 0])
        .unwrap()
        .write_to(&mut file, image::ImageFormat::Png)
        .unwrap();
    let icon = tray_icon(&file.into_inner(), 4).unwrap();
    assert_eq!((icon.width, icon.height, icon.pixels.len()), (4, 4, 64));
    assert_eq!(icon.pixels[0..4].to_vec(), vec![255, 0, 0, 255]);
    assert!(tray_icon(&vec![1, 2, 3], 4).is_err());
    let square = square_frame(vec![1, 2, 3, 4], 1);
    assert_eq!((square.width, square.height, square.pixels), (1, 1, vec![1, 2, 3, 4]));
}

fn monitor(x: i16, width: u16, primary: bool) -> MonitorRect {
    MonitorRect::from_randr(x, 0, width, 10, primary)
}

#[test]
fn monitor_under_a_point() {
    let all = vec![monitor(0, 20, false), monitor(20, 30, true)];
    assert_eq!(monitor_at(&all, 19, 9).unwrap().x, 0);
    assert_eq!(monitor_at(&all, 20, 0).unwrap().x, 20);
    assert!(monitor_at(&all, 50, 0).is_none());
    assert!(monitor_at(&all, 0, 10).is_none());
    assert_eq!(primary_monitor(&all).unwrap().x, 20);
    assert_eq!(primary_monitor(&vec![monitor(5, 1, false)]).unwrap().x, 5);
    assert!(primary_monitor(&vec![]).is_none());
    assert_eq!(primary_index(&vec![false, true]), Some(1));
    assert_eq!(primary_index(&vec![false, false]), Some(0));
    assert_eq!(primary_index(&vec![]), None);
}

#[test]
fn screenshot_is_cut_to_the_active_monitor() {
    let all = vec![monitor(0, 20, true), monitor(20, 30, false)];
    assert_eq!(crop_to_active_monitor(50, 10, Some((25, 3)), &all), Some((20, 0, 30, 10)));
    assert_eq!(crop_to_active_monitor(50, 10, Some((99, 3)), &all), Some((0, 0, 20, 10)));
    assert_eq!(crop_to_active_monitor(40, 10, Some((25, 3)), &all), None);
    assert_eq!(crop_to_active_monitor(50, 10, None, &all), None);
    assert_eq!(crop_to_active_monitor(50, 10, Some((1, 1)), &vec![]), None);
    let left = vec![monitor(-5, 20, true)];
    assert_eq!(crop_to_active_monitor(50, 10, Some((1, 1)), &left), None);
}

#[test]
fn windows_stay_below_the_screen() {
    let m = |width, height| MonitorRect { x: 0, y: 0, width, height, primary: true };
    assert_eq!(largest_window(m(3440, 1440)), (3416, 1416));
    assert_eq!(largest_window(m(210, 160)), (186, 136));
    assert_eq!(largest_window(m(200, 150)), (176, 126));
    assert_eq!(largest_window(m(25, 24)), (1, 0));
    assert_eq!(largest_window(m(0, 1)), (0, 0));
}

#[test]
fn regions_between_corners() {
    assert_eq!(selected_region(Some(((1, 2), (4, 8)))), Some((1, 2, 3, 6)));
    assert_eq!(selected_region(Some(((4, 2), (4, 8)))), None);
    assert_eq!(selected_region(None), None);
}

#[test]
fn picked_regions_lie_within_the_picture() {
    assert_eq!(region_within(10, 8, (1, 2), (4, 8)), Some((1, 2, 3, 6)));
    assert_eq!(region_within(10, 8, (-5, -1), (4, 99)), Some((0, 0, 4, 8)));
    assert_eq!(region_within(10, 8, (i64::MIN, i64::MIN), (i64::MAX, i64::MAX)), Some((0, 0, 10, 8)));
    assert_eq!(region_within(10, 8, (10, 0), (12, 8)), None);
    assert_eq!(region_within(10, 8, (-3, 0), (0, 8)), None);
    assert_eq!(region_within(10, 8, (4, 4), (2, 6)), None);
    assert_eq!(region_within(0, 8, (0, 0), (5, 5)), None);
    for at in -3..14 {
        for to in -3..14 {
            if let Some((x, y, w, h)) = region_within(10, 8, (at, at), (to, to)) {
                assert!(x + w <= 10 && y + h <= 8 && w > 0 && h > 0);
            }
        }
    }
}

#[test]
fn capture_backends() {
    let mut cfg = CaptureConfig::default();
    assert!(matches!(acquire(&cfg), CapturePlan::GrabAndSelect));
    cfg.backend = CaptureBackend::External;
    match acquire(&cfg) {
        CapturePlan::Run { command, timeout_secs } => {
            assert_eq!(command, "spectacle -r -b -c");
            assert_eq!(timeout_secs, 10);
        }
        other => panic!("{other:?}"),
    }
}

#[test]
fn portal_addresses() {
    assert_eq!(screenshot_path("file:///tmp/s.png").unwrap(), "/tmp/s.png");
    let e = screenshot_path("http://x").unwrap_err();
    assert_eq!(e.one_line(), "portal returned a non-local URI: http://x");
}

#[test]
fn first_frame_is_waited_for() {
    assert!(matches!(wait_for_frame(Some(numbered(1, 1)), true), FrameLook::Got(_)));
    assert!(matches!(wait_for_frame(None, false), FrameLook::Wait));
    match wait_for_frame(None, true) {
        FrameLook::TimedOut(e) => assert_eq!(
            e.message,
            "timed out waiting for the first frame from the screen capture session"
        ),
        other => panic!("{other:?}"),
    }
}

#[test]
fn drag_reaches_from_press_to_last_point() {
    assert_eq!(button(true, true, true), Button::Pressed);
    assert_eq!(button(false, true, true), Button::Held);
    assert_eq!(button(false, false, true), Button::Released);
    assert_eq!(button(false, false, false), Button::Idle);
    let mut d: Drag<(i32, i32)> = Drag::new();
    assert_eq!(d.look(Button::Released, Some((9, 9))), None);
    assert_eq!(d.look(Button::Pressed, Some((1, 2))), None);
    assert_eq!(d.look(Button::Held, Some((3, 4))), None);
    assert_eq!(d.look(Button::Held, None), None);
    assert_eq!(d.look(Button::Idle, Some((8, 8))), None);
    assert_eq!(d.look(Button::Released, Some((7, 7))), Some(((1, 2), (3, 4))));
    assert_eq!(d.look(Button::Released, None), None);
    assert_eq!((d.start, d.current), (None, None));
}
