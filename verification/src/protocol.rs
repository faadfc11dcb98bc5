//! Values exchanged with the display layer.
use vstd::prelude::*;

verus! {

/// The appearance of one style in one kind of window.
#[derive(Clone, Copy, Debug, PartialEq, Eq)]
pub struct StyleEntry {
    pub fg: u32,
    pub bg: u32,
    pub weight: i32,
    pub oblique: u32,
    pub proportional: u32,
    pub reverse: u32,
}

/// The styles of one kind of window, indexed by style number.
pub type StyleTable = Vec<StyleEntry>;

/// A theme sent by the display layer.
pub struct Theme {
    pub stylehints_enabled: bool,
    pub buffer: StyleTable,
    pub grid: StyleTable,
}

/// A point of a hyperlink's outline on a map.
#[derive(Clone, Copy, Debug, PartialEq, Eq)]
pub struct MapPoint {
    pub x: i32,
    pub y: i32,
}

/// The part of a map that the display keeps in view.
#[derive(Clone, Copy, Debug, PartialEq, Eq)]
pub struct MapFocus {
    pub left: i32,
    pub top: i32,
    pub width: u32,
    pub height: u32,
}

/// A clickable region of a map.
#[derive(Clone, Debug)]
pub struct MapHyperlink {
    pub id: u32,
    pub label: Option<String>,
    pub points: Vec<MapPoint>,
}

/// An image, SVG fragment or filled rectangle drawn over a map.
#[derive(Clone, Debug)]
pub struct MapOverlay {
    pub id: u32,
    pub image: Option<u32>,
    pub svg: Option<String>,
    pub color: Option<String>,
    pub left: i32,
    pub top: i32,
    pub width: u32,
    pub height: u32,
    pub zindex: u32,
    pub link_id: Option<u32>,
    pub link_label: Option<String>,
}

/// A change of place, size or depth of an overlay.
#[derive(Clone, Copy, Debug, PartialEq, Eq)]
pub struct MapOverlayMove {
    pub id: u32,
    pub left: i32,
    pub top: i32,
    pub width: u32,
    pub height: u32,
    pub zindex: u32,
}

/// A new map document.
#[derive(Clone, Debug)]
pub struct MapPresent {
    pub format: &'static str,
    pub data: Option<String>,
    pub image: Option<u32>,
    pub bgcolor: Option<String>,
    pub focus: Option<MapFocus>,
    pub hyperlinks: Option<Vec<MapHyperlink>>,
}

/// The changes to a map that wait to be sent to the display.
#[derive(Clone, Debug)]
pub struct MapUpdate {
    pub clear: bool,
    pub present: Option<MapPresent>,
    pub focus: Option<Option<MapFocus>>,
    pub hyperlinks: Option<Vec<MapHyperlink>>,
    pub overlay_clear_all: bool,
    pub overlays: Vec<MapOverlay>,
    pub overlay_moves: Vec<MapOverlayMove>,
    pub overlay_clears: Vec<u32>,
}

/// The text of an optional string.
pub open spec fn opt_chars(o: Option<String>) -> Option<Seq<char>> {
    match o {
        Some(s) => Some(s@),
        None => None,
    }
}

/// A hyperlink as plain values.
#[verifier::ext_equal]
pub struct HyperlinkView {
    pub id: u32,
    pub label: Option<Seq<char>>,
    pub points: Seq<MapPoint>,
}

impl View for MapHyperlink {
    type V = HyperlinkView;

    open spec fn view(&self) -> HyperlinkView {
        HyperlinkView { id: self.id, label: opt_chars(self.label), points: self.points@ }
    }
}

/// A list of hyperlinks as plain values.
pub open spec fn links_view(links: Seq<MapHyperlink>) -> Seq<HyperlinkView> {
    links.map_values(|h: MapHyperlink| h@)
}

/// An optional list of hyperlinks as plain values.
pub open spec fn opt_links_view(links: Option<Vec<MapHyperlink>>) -> Option<Seq<HyperlinkView>> {
    match links {
        Some(v) => Some(links_view(v@)),
        None => None,
    }
}

/// An overlay as plain values.
#[verifier::ext_equal]
pub struct OverlayView {
    pub id: u32,
    pub image: Option<u32>,
    pub svg: Option<Seq<char>>,
    pub color: Option<Seq<char>>,
    pub left: i32,
    pub top: i32,
    pub width: u32,
    pub height: u32,
    pub zindex: u32,
    pub link_id: Option<u32>,
    pub link_label: Option<Seq<char>>,
}

impl View for MapOverlay {
    type V = OverlayView;

    open spec fn view(&self) -> OverlayView {
        OverlayView {
            id: self.id,
            image: self.image,
            svg: opt_chars(self.svg),
            color: opt_chars(self.color),
            left: self.left,
            top: self.top,
            width: self.width,
            height: self.height,
            zindex: self.zindex,
            link_id: self.link_id,
            link_label: opt_chars(self.link_label),
        }
    }
}

/// A list of overlays as plain values.
pub open spec fn overlays_view(overlays: Seq<MapOverlay>) -> Seq<OverlayView> {
    overlays.map_values(|o: MapOverlay| o@)
}

/// A new map document as plain values.
#[verifier::ext_equal]
pub struct PresentView {
    pub format: Seq<char>,
    pub data: Option<Seq<char>>,
    pub image: Option<u32>,
    pub bgcolor: Option<Seq<char>>,
    pub focus: Option<MapFocus>,
    pub hyperlinks: Option<Seq<HyperlinkView>>,
}

impl View for MapPresent {
    type V = PresentView;

    open spec fn view(&self) -> PresentView {
        PresentView {
            format: self.format@,
            data: opt_chars(self.data),
            image: self.image,
            bgcolor: opt_chars(self.bgcolor),
            focus: self.focus,
            hyperlinks: opt_links_view(self.hyperlinks),
        }
    }
}

/// Pending map changes as plain values.
#[verifier::ext_equal]
pub struct UpdateView {
    pub clear: bool,
    pub present: Option<PresentView>,
    pub focus: Option<Option<MapFocus>>,
    pub hyperlinks: Option<Seq<HyperlinkView>>,
    pub overlay_clear_all: bool,
    pub overlays: Seq<OverlayView>,
    pub overlay_moves: Seq<MapOverlayMove>,
    pub overlay_clears: Seq<u32>,
}

impl View for MapUpdate {
    type V = UpdateView;

    open spec fn view(&self) -> UpdateView {
        UpdateView {
            clear: self.clear,
            present: match self.present {
                Some(p) => Some(p@),
                None => None,
            },
            focus: self.focus,
            hyperlinks: opt_links_view(self.hyperlinks),
            overlay_clear_all: self.overlay_clear_all,
            overlays: overlays_view(self.overlays@),
            overlay_moves: self.overlay_moves@,
            overlay_clears: self.overlay_clears@,
        }
    }
}

/// An update that changes nothing.
pub open spec fn empty_update() -> UpdateView {
    UpdateView {
        clear: false,
        present: None,
        focus: None,
        hyperlinks: None,
        overlay_clear_all: false,
        overlays: seq![],
        overlay_moves: seq![],
        overlay_clears: seq![],
    }
}

impl Default for MapUpdate {
    fn default() -> (r: Self)
        ensures
            r@ == empty_update(),
    {
        let r = MapUpdate {
            clear: false,
            present: None,
            focus: None,
            hyperlinks: None,
            overlay_clear_all: false,
            overlays: Vec::new(),
            overlay_moves: Vec::new(),
            overlay_clears: Vec::new(),
        };
        assert(r@ =~= empty_update());
        r
    }
}

/// A copy of an optional string.
pub fn copy_opt_string(o: &Option<String>) -> (r: Option<String>)
    ensures
        opt_chars(r) == opt_chars(*o),
{
    match o {
        Some(s) => Some(s.clone()),
        None => None,
    }
}

/// A copy of a list of points.
pub fn copy_points(v: &Vec<MapPoint>) -> (r: Vec<MapPoint>)
    ensures
        r@ == v@,
{
    let mut r: Vec<MapPoint> = Vec::new();
    let mut i: usize = 0;
    while i < v.len()
        invariant
            i <= v.len(),
            r@ == v@.take(i as int),
        decreases v.len() - i,
    {
        r.push(v[i]);
        i = i + 1;
        assert(r@ =~= v@.take(i as int));
    }
    assert(v@.take(i as int) =~= v@);
    r
}

/// A copy of a hyperlink.
pub fn copy_hyperlink(h: &MapHyperlink) -> (r: MapHyperlink)
    ensures
        r@ == h@,
{
    MapHyperlink { id: h.id, label: copy_opt_string(&h.label), points: copy_points(&h.points) }
}

/// A copy of a list of hyperlinks.
pub fn copy_hyperlinks(v: &Vec<MapHyperlink>) -> (r: Vec<MapHyperlink>)
    ensures
        links_view(r@) == links_view(v@),
{
    let mut r: Vec<MapHyperlink> = Vec::new();
    let mut i: usize = 0;
    while i < v.len()
        invariant
            i <= v.len(),
            r@.len() == i,
            forall|k: int| 0 <= k < i ==> #[trigger] r@[k]@ == v@[k]@,
        decreases v.len() - i,
    {
        let h = copy_hyperlink(&v[i]);
        r.push(h);
        i = i + 1;
    }
    assert(links_view(r@) =~= links_view(v@));
    r
}

/// A copy of an overlay.
pub fn copy_overlay(o: &MapOverlay) -> (r: MapOverlay)
    ensures
        r@ == o@,
{
    MapOverlay {
        id: o.id,
        image: o.image,
        svg: copy_opt_string(&o.svg),
        color: copy_opt_string(&o.color),
        left: o.left,
        top: o.top,
        width: o.width,
        height: o.height,
        zindex: o.zindex,
        link_id: o.link_id,
        link_label: copy_opt_string(&o.link_label),
    }
}

} // verus!
