use apexshot::selection::{
    area_selection_outcome, selection_delivery, OverlayIntent, OverlaySelection, SelectionArea,
    SelectionDelivery, SelectionError,
};

#[test]
fn test_selection_normalize() {
    // Normal case (no normalization needed)
    let area = SelectionArea { x: 100, y: 100, width: 200, height: 150 };
    let normalized = area.normalize();
    assert_eq!(normalized.x, 100);
    assert_eq!(normalized.y, 100);
    assert_eq!(normalized.width, 200);
    assert_eq!(normalized.height, 150);

    // Negative width (dragged left)
    let area = SelectionArea { x: 300, y: 100, width: -200, height: 150 };
    let normalized = area.normalize();
    assert_eq!(normalized.x, 100);
    assert_eq!(normalized.y, 100);
    assert_eq!(normalized.width, 200);
    assert_eq!(normalized.height, 150);

    // Negative height (dragged up)
    let area = SelectionArea { x: 100, y: 250, width: 200, height: -150 };
    let normalized = area.normalize();
    assert_eq!(normalized.x, 100);
    assert_eq!(normalized.y, 100);
    assert_eq!(normalized.width, 200);
    assert_eq!(normalized.height, 150);

    // Both negative (dragged up-left)
    let area = SelectionArea { x: 300, y: 250, width: -200, height: -150 };
    let normalized = area.normalize();
    assert_eq!(normalized.x, 100);
    assert_eq!(normalized.y, 100);
    assert_eq!(normalized.width, 200);
    assert_eq!(normalized.height, 150);
}

#[test]
fn test_selection_is_valid() {
    let area = SelectionArea { x: 100, y: 100, width: 200, height: 150 };
    assert!(area.is_valid());
    let area = SelectionArea { x: 100, y: 100, width: 0, height: 150 };
    assert!(!area.is_valid());
    let area = SelectionArea { x: 100, y: 100, width: 200, height: 0 };
    assert!(!area.is_valid());
    let area = SelectionArea { x: 100, y: 100, width: -200, height: 150 };
    assert!(!area.is_valid());
}

#[test]
fn normalizing_twice_changes_nothing() {
    let area = SelectionArea { x: 10, y: 20, width: -5, height: -7 };
    let once = area.normalize();
    assert_eq!(once.normalize(), once);
    assert!(once.is_valid());
}

#[test]
fn delivery_follows_intent_and_validity() {
    let valid = SelectionArea { x: 1, y: 2, width: 3, height: 4 };
    let empty = SelectionArea { x: 1, y: 2, width: 0, height: 4 };
    assert_eq!(selection_delivery(OverlayIntent::Record, valid), SelectionDelivery::Recording);
    assert_eq!(selection_delivery(OverlayIntent::Record, empty), SelectionDelivery::Area(None));
    assert_eq!(selection_delivery(OverlayIntent::Ocr, valid), SelectionDelivery::Area(Some(valid)));
    assert_eq!(selection_delivery(OverlayIntent::Area, valid), SelectionDelivery::Area(Some(valid)));
    assert_eq!(selection_delivery(OverlayIntent::Area, empty), SelectionDelivery::Area(None));
}

#[test]
fn selection_outcome_maps_requests_to_errors() {
    type Out = Result<OverlaySelection<u8>, SelectionError>;
    let a = SelectionArea { x: 1, y: 2, width: 3, height: 4 };
    let area = |v: Option<SelectionArea>| -> Option<Out> { Some(Ok(OverlaySelection::Area(v))) };
    assert!(matches!(
        area_selection_outcome(true, OverlayIntent::Area, area(Some(a))),
        Err(SelectionError::WindowCaptureRequested)
    ));
    assert!(matches!(
        area_selection_outcome(false, OverlayIntent::Ocr, area(Some(a))),
        Err(SelectionError::OcrRequested(b)) if b == a
    ));
    assert!(matches!(area_selection_outcome(false, OverlayIntent::Ocr, area(None)), Ok(OverlaySelection::Area(None))));
    assert!(matches!(
        area_selection_outcome(false, OverlayIntent::Area, area(Some(a))),
        Ok(OverlaySelection::Area(Some(b))) if b == a
    ));
    match area_selection_outcome::<u8>(false, OverlayIntent::Area, None) {
        Err(SelectionError::InitError(m)) => assert_eq!(m, "No result received"),
        _ => panic!("expected an init error"),
    }
    // Recordings and errors from the window pass through.
    assert!(matches!(
        area_selection_outcome(false, OverlayIntent::Record, Some(Ok(OverlaySelection::Recording(7u8)))),
        Ok(OverlaySelection::Recording(7))
    ));
    assert!(matches!(
        area_selection_outcome::<u8>(false, OverlayIntent::Area, Some(Err(SelectionError::Cancelled))),
        Err(SelectionError::Cancelled)
    ));
}
