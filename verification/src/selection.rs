//! The selected screen area and how a finished selection is delivered.

use vstd::prelude::*;

verus! {

#[derive(Debug, Clone, Copy, PartialEq, Eq)]
pub struct SelectionArea {
    pub x: i32,
    pub y: i32,
    pub width: i32,
    pub height: i32,
}

/// What the user meant to do with the selected area when confirming it.
#[derive(Debug, Clone, Copy, PartialEq, Eq)]
pub enum OverlayIntent {
    Area,
    Record,
    Ocr,
}

#[derive(Debug)]
pub enum SelectionError {
    InitError(String),
    Blocked(String),
    Cancelled,
    WindowCaptureRequested,
    OcrRequested(SelectionArea),
}

/// The same rectangle with non-negative extent: a negative width (a drag to
/// the left) moves `x` to the left edge, likewise for height.
pub open spec fn normalize_spec(a: SelectionArea) -> SelectionArea {
    SelectionArea {
        x: if a.width < 0 { (a.x + a.width) as i32 } else { a.x },
        y: if a.height < 0 { (a.y + a.height) as i32 } else { a.y },
        width: if a.width < 0 { (-a.width) as i32 } else { a.width },
        height: if a.height < 0 { (-a.height) as i32 } else { a.height },
    }
}

/// Normalizing does not overflow: a negative extent is not `i32::MIN` and
/// moving the origin by it stays in range.
pub open spec fn can_normalize(a: SelectionArea) -> bool {
    &&& a.width < 0 ==> a.width > i32::MIN && a.x + a.width >= i32::MIN
    &&& a.height < 0 ==> a.height > i32::MIN && a.y + a.height >= i32::MIN
}

impl SelectionArea {
    /// Normalize the selection (handle negative width/height from dragging).
    pub fn normalize(self) -> (n: Self)
        requires
            can_normalize(self),
        ensures
            n == normalize_spec(self),
    {
        let mut area = self;
        if area.width < 0 {
            area.x = area.x + area.width;
            area.width = -area.width;
        }
        if area.height < 0 {
            area.y = area.y + area.height;
            area.height = -area.height;
        }
        area
    }

    /// Check if the selection is valid (has positive area).
    pub fn is_valid(&self) -> (b: bool)
        ensures
            b == (self.width > 0 && self.height > 0),
    {
        self.width > 0 && self.height > 0
    }
}

/// A normalized area covers the same span of columns and rows as the
/// original drag, has non-negative extent, is left unchanged by normalizing
/// again, and is valid exactly when the drag moved along both axes.
pub proof fn lemma_normalize(a: SelectionArea)
    requires
        can_normalize(a),
    ensures
        normalize_spec(a).width >= 0,
        normalize_spec(a).height >= 0,
        normalize_spec(a).x == if a.width < 0 { a.x + a.width } else { a.x as int },
        normalize_spec(a).x + normalize_spec(a).width == if a.width < 0 { a.x as int } else { a.x + a.width },
        normalize_spec(a).y == if a.height < 0 { a.y + a.height } else { a.y as int },
        normalize_spec(a).y + normalize_spec(a).height == if a.height < 0 { a.y as int } else { a.y + a.height },
        can_normalize(normalize_spec(a)),
        normalize_spec(normalize_spec(a)) == normalize_spec(a),
        (normalize_spec(a).width > 0 && normalize_spec(a).height > 0) <==> (a.width != 0 && a.height != 0),
{
}

/// How a confirmed selection is handed back.
#[derive(Debug, Clone, Copy, PartialEq, Eq)]
pub enum SelectionDelivery {
    /// Start a recording of the selection.
    Recording,
    /// Return the area (`None` when the selection is empty).
    Area(Option<SelectionArea>),
}

/// Map the intent and the selection to what is delivered: an empty
/// selection always yields `Area(None)`; otherwise recording intent starts
/// a recording and area or OCR intent returns the area.
pub fn selection_delivery(intent: OverlayIntent, area: SelectionArea) -> (d: SelectionDelivery)
    ensures
        d == (if !(area.width > 0 && area.height > 0) {
            SelectionDelivery::Area(None)
        } else if intent == OverlayIntent::Record {
            SelectionDelivery::Recording
        } else {
            SelectionDelivery::Area(Some(area))
        }),
{
    if !area.is_valid() {
        return SelectionDelivery::Area(None);
    }
    match intent {
        OverlayIntent::Record => SelectionDelivery::Recording,
        _ => SelectionDelivery::Area(Some(area)),
    }
}

/// What the selection overlay hands back: an area (`None` when the selection
/// was empty or cancelled) or a recording request of type `R`.
#[derive(Debug, Clone)]
pub enum OverlaySelection<R> {
    Area(Option<SelectionArea>),
    Recording(R),
}

/// The outcome of an area selection run once the overlay has closed: a
/// window capture requested from the toolbar wins; a run that delivered
/// nothing is an initialization error; an area chosen with OCR intent
/// becomes an OCR request; anything else the window sent (an area, a
/// recording request or an error) is passed on unchanged.
pub fn area_selection_outcome<R>(
    window_capture_requested: bool,
    intent: OverlayIntent,
    received: Option<Result<OverlaySelection<R>, SelectionError>>,
) -> (out: Result<OverlaySelection<R>, SelectionError>)
    ensures
        window_capture_requested ==> out matches Err(SelectionError::WindowCaptureRequested),
        !window_capture_requested ==> match received {
            None => out matches Err(SelectionError::InitError(m)) && m@ == "No result received"@,
            Some(Ok(OverlaySelection::Area(Some(a)))) => if intent == OverlayIntent::Ocr {
                out matches Err(SelectionError::OcrRequested(b)) && b == a
            } else {
                out == received->0
            },
            Some(r) => out == r,
        },
{
    if window_capture_requested {
        return Err(SelectionError::WindowCaptureRequested);
    }
    match received {
        Some(Ok(OverlaySelection::Area(Some(a)))) => {
            if let OverlayIntent::Ocr = intent {
                Err(SelectionError::OcrRequested(a))
            } else {
                Ok(OverlaySelection::Area(Some(a)))
            }
        },
        Some(r) => r,
        None => Err(SelectionError::InitError(String::from_str("No result received"))),
    }
}

} // verus!
