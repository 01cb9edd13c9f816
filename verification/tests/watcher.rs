use grabit::selection::{Grab, Raw};
use grabit::watcher::{transferred, Backend, BindError, Bound, Global, Report, Watcher, HTML_MIME};

#[test]
fn the_better_protocol_is_used() {
    let mut bound = Bound::new();
    assert_eq!(bound.backend(), Err(BindError::NoSeat));
    assert_eq!(bound.advertised("wl_seat", 9), Some((Global::Seat, 7)));
    assert_eq!(bound.advertised("wl_seat", 9), None);
    assert_eq!(bound.backend(), Err(BindError::NoProtocol));
    assert_eq!(bound.advertised("zwlr_data_control_manager_v1", 1), None);
    assert_eq!(bound.backend(), Err(BindError::NoProtocol));
    assert_eq!(bound.advertised("zwlr_data_control_manager_v1", 3), Some((Global::Wlr, 2)));
    assert_eq!(bound.backend(), Ok(Backend::Wlr));
    assert_eq!(bound.advertised("ext_data_control_manager_v1", 1), Some((Global::Ext, 1)));
    assert_eq!(bound.backend(), Ok(Backend::Ext));
    assert_eq!(bound.advertised("wl_output", 1), None);
}

#[test]
fn missing_pieces_are_named() {
    assert_eq!(BindError::NoSeat.message(), "compositor advertised no wl_seat");
    assert_eq!(
        BindError::NoProtocol.message(),
        "this compositor exposes neither ext-data-control-v1 nor wlr-data-control-v1 v2, so the primary selection cannot be watched"
    );
}

#[test]
fn the_first_report_is_swallowed() {
    let mut watcher = Watcher::new();
    watcher.offered(1);
    watcher.advertised(1, "text/plain".to_owned());
    assert_eq!(watcher.reported(Some(1)), Report::Swallow(Some(1)));
    assert_eq!(watcher.pick_mime(1), None);
    assert_eq!(watcher.generation(), 0);
    assert_eq!(watcher.reported(None), Report::Clear);
    assert_eq!(watcher.generation(), 1);
}

#[test]
fn the_best_text_is_asked_for() {
    let mut watcher = Watcher::new();
    watcher.reported(None);
    watcher.offered(2);
    for mime in ["TEXT", "text/plain", HTML_MIME, "UTF8_STRING", "image/png"] {
        watcher.advertised(2, mime.to_owned());
    }
    assert_eq!(watcher.pick_mime(2), Some("UTF8_STRING"));
    assert!(watcher.offers_html(2));
    assert_eq!(
        watcher.reported(Some(2)),
        Report::Receive { id: 2, mime: "UTF8_STRING", html: true }
    );
    assert_eq!(watcher.requested(), 1);
    assert_eq!(watcher.generation(), 1);
    watcher.offered(3);
    watcher.advertised(3, "image/png".to_owned());
    assert_eq!(watcher.pick_mime(3), None);
    assert!(!watcher.offers_html(3));
    assert_eq!(watcher.reported(Some(3)), Report::Clear);
    assert_eq!(watcher.generation(), 2);
}

#[test]
fn the_clipboard_is_none_of_its_business() {
    let mut watcher = Watcher::new();
    watcher.offered(4);
    watcher.advertised(4, "text/plain".to_owned());
    assert_eq!(watcher.ignored(Some(4)), Some(4));
    assert_eq!(watcher.pick_mime(4), None);
    assert_eq!(watcher.ignored(None), None);
}

#[test]
fn what_was_transferred_must_be_text() {
    assert_eq!(
        transferred(3, "hé".as_bytes().to_vec(), None),
        Some(Raw::Selection { generation: 3, grab: Grab::text("hé") })
    );
    assert_eq!(
        transferred(3, b"b".to_vec(), Some(b"<b>b</b>".to_vec())),
        Some(Raw::Selection {
            generation: 3,
            grab: Grab { text: "b".to_owned(), html: Some("<b>b</b>".to_owned()) },
        })
    );
    assert_eq!(
        transferred(3, b"b".to_vec(), Some(Vec::new())),
        Some(Raw::Selection { generation: 3, grab: Grab::text("b") })
    );
    assert_eq!(
        transferred(3, b"b".to_vec(), Some(vec![0xc3])),
        Some(Raw::Selection { generation: 3, grab: Grab::text("b") })
    );
    assert_eq!(transferred(3, vec![0xff], None), None);
}
