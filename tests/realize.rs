use xcb_dl_util::error::{ExtensionInfo, XcbErrorParser, XcbErrorType, XcbGenericError};
use xcb_dl_util::realize::{build_result, plan_cursor_build, render_config, BuildStep, RenderConfig};
use xcb_dl_util::xcursor::{XcbCursorError, XcbCursorImage};

fn image(width: u16, height: u16) -> XcbCursorImage {
    XcbCursorImage { width, height, xhot: 0, yhot: 0, delay: 40, pixels: vec![0; width as usize * height as usize] }
}

const ANIMATED: Option<RenderConfig> = Some(RenderConfig { format: 33, animated: true });

#[test]
fn frames_of_one_size_share_the_scratch_pixmap() {
    let plan = plan_cursor_build(&[image(2, 2), image(2, 2), image(2, 2)], ANIMATED).unwrap();
    assert_eq!(
        plan,
        vec![
            BuildStep::CreateScratch { width: 2, height: 2 },
            BuildStep::Frame(0),
            BuildStep::Frame(1),
            BuildStep::Frame(2),
            BuildStep::FreeScratch,
            BuildStep::Animate(3),
        ]
    );
}

#[test]
fn size_change_recreates_the_scratch_pixmap() {
    let plan = plan_cursor_build(&[image(2, 2), image(3, 2)], ANIMATED).unwrap();
    assert_eq!(
        plan,
        vec![
            BuildStep::CreateScratch { width: 2, height: 2 },
            BuildStep::Frame(0),
            BuildStep::FreeScratch,
            BuildStep::CreateScratch { width: 3, height: 2 },
            BuildStep::Frame(1),
            BuildStep::FreeScratch,
            BuildStep::Animate(2),
        ]
    );
}

#[test]
fn without_animation_only_the_first_frame_is_used() {
    let config = Some(RenderConfig { format: 33, animated: false });
    let plan = plan_cursor_build(&[image(4, 4), image(5, 5)], config).unwrap();
    assert_eq!(plan, vec![BuildStep::CreateScratch { width: 4, height: 4 }, BuildStep::Frame(0), BuildStep::FreeScratch]);
}

#[test]
fn empty_or_unsupported_builds_fail() {
    assert!(matches!(plan_cursor_build(&[], ANIMATED), Err(XcbCursorError::EmptyXcursorFile)));
    assert!(matches!(plan_cursor_build(&[image(1, 1)], None), Err(XcbCursorError::ImageCursorNotSupported)));
}

#[test]
fn render_versions() {
    assert_eq!(render_config(0, 11, Some(7)), Some(RenderConfig { format: 7, animated: true }));
    assert_eq!(render_config(0, 7, Some(7)), Some(RenderConfig { format: 7, animated: false }));
    assert_eq!(render_config(0, 4, Some(7)), None);
    assert_eq!(render_config(0, 11, None), None);
}

fn raw(code: u8) -> XcbGenericError {
    XcbGenericError {
        response_type: 0,
        error_code: code,
        sequence: 0,
        resource_id: 0,
        minor_code: 0,
        major_code: 0,
        pad0: 0,
        pad: [0; 5],
        full_sequence: 0,
    }
}

#[test]
fn first_failed_request_is_reported() {
    let parser = XcbErrorParser::new(&[ExtensionInfo { name: b"RENDER".to_vec(), first_error: 142 }]).unwrap();
    assert!(build_result(&parser, &[None, None]).is_ok());
    let r = build_result(&parser, &[None, Some(raw(143)), Some(raw(4))]);
    assert!(matches!(r, Err(e) if e.error_code == 143 && matches!(e.ty, XcbErrorType::Render(_))));
}

use xcb_dl_util::render::{find_format, find_standard_format, DirectFormat, PictFormatInfo, XcbPictFormat, FEATURE_DEPTH, FEATURE_ID};

fn format(id: u32, depth: u8, alpha_mask: u16) -> PictFormatInfo {
    PictFormatInfo {
        id,
        type_: 1,
        depth,
        direct: DirectFormat {
            red_shift: 16,
            red_mask: 0xff,
            green_shift: 8,
            green_mask: 0xff,
            blue_shift: 0,
            blue_mask: 0xff,
            alpha_shift: 24,
            alpha_mask,
        },
        colormap: 0,
    }
}

#[test]
fn argb32_is_found_among_server_formats() {
    let formats = [format(30, 24, 0), format(31, 32, 0xff), format(32, 32, 0xff)];
    assert_eq!(find_standard_format(&formats, XcbPictFormat::Argb32).map(|f| f.id), Some(31));
    assert_eq!(find_standard_format(&formats, XcbPictFormat::A8), None);
    assert_eq!(find_format(&formats, &format(32, 0, 0), FEATURE_ID).map(|f| f.id), Some(32));
    assert_eq!(find_format(&formats, &format(0, 24, 0), FEATURE_DEPTH).map(|f| f.id), Some(30));
}

#[test]
fn standard_format_descriptions() {
    let (a1, _) = XcbPictFormat::A1.info();
    assert_eq!((a1.depth, a1.direct.alpha_mask), (1, 0x01));
    let (rgb, features) = XcbPictFormat::Rgb24.info();
    assert_eq!((rgb.depth, rgb.direct.red_shift, rgb.direct.alpha_mask), (24, 16, 0));
    assert_eq!(features & FEATURE_ID, 0);
}
