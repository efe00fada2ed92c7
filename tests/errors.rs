use xcb_dl_util::error::{
    CoreErrorType, ExtensionInfo, GlxErrorType, RenderError, SyncErrorType, XcbConnectionError,
    XcbErrorParser, XcbErrorType, XcbGenericError, XkbErrorType,
};

fn raw(code: u8, value: u32) -> XcbGenericError {
    XcbGenericError {
        response_type: 0,
        error_code: code,
        sequence: 7,
        resource_id: value,
        minor_code: 3,
        major_code: 140,
        pad0: 0,
        pad: [0; 5],
        full_sequence: 70007,
    }
}

fn ext(name: &str, first_error: u8) -> ExtensionInfo {
    ExtensionInfo { name: name.as_bytes().to_vec(), first_error }
}

fn parser() -> XcbErrorParser {
    XcbErrorParser::new(&[ext("RENDER", 142), ext("SYNC", 134), ext("XKEYBOARD", 137), ext("GLX", 158), ext("UNKNOWN-EXT", 200)])
        .unwrap()
}

#[test]
fn core_error_decodes_value_and_opcodes() {
    let e = parser().parse(&raw(3, 0x400001));
    assert_eq!(e.error_code, 3);
    assert_eq!(e.sequence, 70007);
    assert_eq!((e.major, e.minor), (140, 3));
    match e.ty {
        XcbErrorType::Core(c) => {
            assert_eq!((c.major_opcode, c.minor_opcode), (140, 3));
            assert!(matches!(c.ty, CoreErrorType::Window(v) if v.bad_value == 0x400001));
        }
        other => panic!("unexpected {:?}", other),
    }
}

#[test]
fn last_core_code_is_implementation() {
    let e = parser().parse(&raw(17, 5));
    assert!(matches!(e.ty, XcbErrorType::Core(c) if matches!(c.ty, CoreErrorType::Implementation(r) if r.bad_value == 5)));
}

#[test]
fn extension_codes_decode_relative_to_their_base() {
    let p = parser();
    assert!(matches!(p.parse(&raw(143, 0)).ty, XcbErrorType::Render(RenderError::Picture)));
    assert!(matches!(p.parse(&raw(146, 0)).ty, XcbErrorType::Render(RenderError::Glyph)));
    assert!(matches!(p.parse(&raw(135, 9)).ty, XcbErrorType::Sync(s) if matches!(s.ty, SyncErrorType::Alarm(a) if a.bad_alarm == 9)));
    assert!(matches!(p.parse(&raw(137, 255)).ty, XcbErrorType::Xkb(x) if matches!(x.ty, XkbErrorType::Keyboard(k) if k.bits == 255)));
    assert!(matches!(p.parse(&raw(171, 4)).ty, XcbErrorType::Glx(g) if matches!(g.ty, GlxErrorType::GLXBadProfileARB(v) if v.bad_value == 4)));
}

#[test]
fn unclaimed_codes_are_unknown() {
    let p = parser();
    for code in [0u8, 18, 147, 172, 200, 255] {
        match p.parse(&raw(code, 1)).ty {
            XcbErrorType::Unknown(r) => assert_eq!(r.error_code, code),
            other => panic!("code {} gave {:?}", code, other),
        }
    }
}

#[test]
fn every_code_classifies_without_failure() {
    let p = parser();
    for code in 0..=255u8 {
        let e = p.parse(&raw(code, 0));
        assert_eq!(e.error_code, code);
    }
}

#[test]
fn table_is_sorted_and_disjoint() {
    let p = parser();
    let t = p.table();
    assert_eq!(t.iter().map(|r| r.min).collect::<Vec<_>>(), vec![1, 134, 137, 142, 158]);
    for w in t.windows(2) {
        assert!(w[0].max_plus_1 <= w[1].min as u16);
    }
    assert_eq!(t[0].max_plus_1, 18);
}

#[test]
fn overlapping_ranges_are_refused() {
    assert!(XcbErrorParser::new(&[ext("RENDER", 10)]).is_none());
    assert!(XcbErrorParser::new(&[ext("RENDER", 150), ext("GLX", 152)]).is_none());
    assert!(XcbErrorParser::new(&[ext("RENDER", 150), ext("GLX", 155)]).is_some());
}

#[test]
fn core_only_table_without_extensions() {
    let p = XcbErrorParser::new(&[]).unwrap();
    assert!(matches!(p.parse(&raw(1, 0)).ty, XcbErrorType::Core(c) if matches!(c.ty, CoreErrorType::Request(_))));
    assert!(matches!(p.parse(&raw(143, 0)).ty, XcbErrorType::Unknown(_)));
}

#[test]
fn error_object_takes_precedence_over_reply() {
    let p = parser();
    let r = p.check(Some(5u32), Some(raw(2, 77)), 0);
    assert!(matches!(r, Err(e) if matches!(e.ty, XcbErrorType::Core(c) if matches!(c.ty, CoreErrorType::Value(v) if v.bad_value == 77))));
}

#[test]
fn missing_reply_on_healthy_connection() {
    let r = parser().check(None::<u32>, None, 0);
    assert!(matches!(r, Err(e) if matches!(e.ty, XcbErrorType::MissingReply)));
}

#[test]
fn missing_reply_on_failed_connection() {
    let r = parser().check_val(None::<u32>, 1);
    assert!(matches!(r, Err(e) if matches!(e.ty, XcbErrorType::Connection(XcbConnectionError::Io))));
}

#[test]
fn reply_is_handed_back() {
    assert_eq!(parser().check(Some(9u32), None, 0).unwrap(), 9);
    assert!(parser().check_err(None).is_ok());
    assert!(parser().check_connection(0).is_ok());
}

#[test]
fn connection_status_codes() {
    assert_eq!(XcbConnectionError::from(2), XcbConnectionError::UnsupportedExtension);
    assert_eq!(XcbConnectionError::from(5), XcbConnectionError::DisplayString);
    assert_eq!(XcbConnectionError::from(7), XcbConnectionError::FileDescriptors);
    assert_eq!(XcbConnectionError::from(42), XcbConnectionError::Unknown(42));
}
