use blacklist_core::status::Status;

#[test]
fn status_from_known_codes() {
    assert_eq!(Status::from(0), Status::Normal);
    assert_eq!(Status::from(1), Status::Black);
    assert_eq!(Status::from(2), Status::White);
}

#[test]
fn status_from_unknown_code_is_normal() {
    assert_eq!(Status::from(3), Status::Normal);
    assert_eq!(Status::from(-1), Status::Normal);
    assert_eq!(Status::from(127), Status::Normal);
}

#[test]
fn status_into_codes() {
    assert_eq!(Status::into(&Status::Normal), 0);
    assert_eq!(Status::into(&Status::Black), 1);
    assert_eq!(Status::into(&Status::White), 2);
}

#[test]
fn status_code_round_trip() {
    for s in [Status::Normal, Status::Black, Status::White] {
        assert_eq!(Status::from(Status::into(&s)), s);
    }
}

#[test]
fn status_display_labels() {
    assert_eq!(Status::Normal.display(), "normal");
    assert_eq!(Status::Black.display(), "black");
    assert_eq!(Status::White.display(), "white");
}
