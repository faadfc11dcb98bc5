//! The Glk mapping extension: a map document shown by the display, overlays
//! drawn on it, and the queue of changes waiting to be sent.
use std::collections::HashMap;

use vstd::prelude::*;

use vstd::utf8::{decode_utf8, valid_utf8};

use crate::constants::mapcolor_Default;
use crate::css::{colour_code_to_css, css_colour};
use crate::glkapi::{image_known, GlkApi};
use crate::text::{bytes_contain, contains_bytes, str_from_utf8};
use crate::protocol::{
    copy_hyperlinks, copy_opt_string, empty_update, links_view, opt_chars, HyperlinkView,
    MapFocus, MapHyperlink, MapOverlay, MapOverlayMove, MapPoint, MapPresent, MapUpdate,
    OverlayView, PresentView, UpdateView,
};

verus! {

broadcast use vstd::std_specs::hash::group_hash_axioms;

pub const MAP_MAX_OVERLAYS: u32 = 256;

pub const MAP_MAX_HYPERLINKS: u32 = 64;

pub const MAP_MAX_POINTS_PER_LINK: u32 = 32;

/// What a map document shows.
#[derive(Clone, Copy, Debug, PartialEq, Eq)]
pub enum MapFormat {
    Blank,
    Svg,
    Image,
}

impl Default for MapFormat {
    fn default() -> (r: Self)
        ensures
            r == MapFormat::Blank,
    {
        MapFormat::Blank
    }
}

/// The map document currently shown.
#[derive(Clone)]
pub struct MapDocument {
    pub format: MapFormat,
    pub data: Option<String>,
    pub image: Option<u32>,
    pub bgcolor: Option<String>,
    pub focus: Option<MapFocus>,
    pub hyperlinks: Vec<MapHyperlink>,
}

/// A map document as plain values.
#[verifier::ext_equal]
pub struct DocumentView {
    pub format: MapFormat,
    pub data: Option<Seq<char>>,
    pub image: Option<u32>,
    pub bgcolor: Option<Seq<char>>,
    pub focus: Option<MapFocus>,
    pub hyperlinks: Seq<HyperlinkView>,
}

impl View for MapDocument {
    type V = DocumentView;

    open spec fn view(&self) -> DocumentView {
        DocumentView {
            format: self.format,
            data: opt_chars(self.data),
            image: self.image,
            bgcolor: opt_chars(self.bgcolor),
            focus: self.focus,
            hyperlinks: links_view(self.hyperlinks@),
        }
    }
}

/// An empty document.
pub open spec fn empty_document() -> DocumentView {
    DocumentView {
        format: MapFormat::Blank,
        data: None,
        image: None,
        bgcolor: None,
        focus: None,
        hyperlinks: seq![],
    }
}

impl Default for MapDocument {
    fn default() -> (r: Self)
        ensures
            r@ == empty_document(),
    {
        let r = MapDocument {
            format: MapFormat::Blank,
            data: None,
            image: None,
            bgcolor: None,
            focus: None,
            hyperlinks: Vec::new(),
        };
        assert(r@ =~= empty_document());
        r
    }
}

/// The state of the map of a Glk session.
#[derive(Clone)]
pub struct MapState {
    pub doc: Option<MapDocument>,
    pub overlays: HashMap<u32, MapOverlay>,
    pub next_overlay_id: u32,
    pub pending: Option<MapUpdate>,
    pub changed: bool,
    pub event_pending: bool,
}

/// The state of a map as plain values.
#[verifier::ext_equal]
pub struct MapStateView {
    pub doc: Option<DocumentView>,
    pub overlays: Map<u32, OverlayView>,
    pub next_overlay_id: u32,
    pub pending: Option<UpdateView>,
    pub changed: bool,
    pub event_pending: bool,
}

/// The overlays of a map, keyed by id, as plain values.
pub open spec fn overlay_map_view(m: Map<u32, MapOverlay>) -> Map<u32, OverlayView> {
    m.map_values(|o: MapOverlay| o@)
}

impl View for MapState {
    type V = MapStateView;

    open spec fn view(&self) -> MapStateView {
        MapStateView {
            doc: match self.doc {
                Some(d) => Some(d@),
                None => None,
            },
            overlays: overlay_map_view(self.overlays@),
            next_overlay_id: self.next_overlay_id,
            pending: match self.pending {
                Some(p) => Some(p@),
                None => None,
            },
            changed: self.changed,
            event_pending: self.event_pending,
        }
    }
}

/// A fresh map state: no document, no overlays, ids counted from 1.
pub open spec fn initial_map_state() -> MapStateView {
    MapStateView {
        doc: None,
        overlays: Map::empty(),
        next_overlay_id: 1,
        pending: None,
        changed: false,
        event_pending: false,
    }
}

impl Default for MapState {
    fn default() -> (r: Self)
        ensures
            r@ == initial_map_state(),
    {
        let r = Self {
            next_overlay_id: 1,
            doc: None,
            overlays: HashMap::new(),
            pending: None,
            changed: false,
            event_pending: false,
        };
        assert(r@.overlays =~= Map::<u32, OverlayView>::empty());
        assert(r@ =~= initial_map_state());
        r
    }
}

/// A hyperlink as the story passes it in.
pub struct MapHyperlinkArg {
    pub id: u32,
    pub label: Option<String>,
    pub points: Vec<MapPoint>,
}

impl View for MapHyperlinkArg {
    type V = HyperlinkView;

    open spec fn view(&self) -> HyperlinkView {
        HyperlinkView { id: self.id, label: opt_chars(self.label), points: self.points@ }
    }
}

/// A list of hyperlink arguments as plain values.
pub open spec fn args_view(args: Seq<MapHyperlinkArg>) -> Seq<HyperlinkView> {
    args.map_values(|a: MapHyperlinkArg| a@)
}

/// `src` merged into `dest`: a clear drops everything else; a new document
/// or a clear of all overlays drops the overlay changes staged before it;
/// a new focus or set of hyperlinks replaces the staged one; overlay changes
/// are appended.
pub open spec fn spec_merge(dest: UpdateView, src: UpdateView) -> UpdateView {
    if src.clear {
        UpdateView { clear: true, ..empty_update() }
    } else {
        let d1 = if src.present is Some {
            UpdateView {
                present: src.present,
                overlays: seq![],
                overlay_moves: seq![],
                overlay_clears: seq![],
                overlay_clear_all: true,
                ..dest
            }
        } else {
            dest
        };
        let d2 = if src.focus is Some {
            UpdateView { focus: src.focus, ..d1 }
        } else {
            d1
        };
        let d3 = if src.hyperlinks is Some {
            UpdateView { hyperlinks: src.hyperlinks, ..d2 }
        } else {
            d2
        };
        let d4 = if src.overlay_clear_all {
            UpdateView {
                overlay_clear_all: true,
                overlays: seq![],
                overlay_moves: seq![],
                overlay_clears: seq![],
                ..d3
            }
        } else {
            d3
        };
        UpdateView {
            overlays: d4.overlays + src.overlays,
            overlay_moves: d4.overlay_moves + src.overlay_moves,
            overlay_clears: d4.overlay_clears + src.overlay_clears,
            ..d4
        }
    }
}

/// The state after `update` is queued.
pub open spec fn spec_queue(s: MapStateView, update: UpdateView) -> MapStateView {
    MapStateView {
        pending: Some(
            match s.pending {
                Some(prev) => spec_merge(prev, update),
                None => update,
            },
        ),
        changed: true,
        ..s
    }
}

/// The id after `n`, wrapping to 0 after the largest.
pub open spec fn wrap_inc(n: u32) -> u32 {
    if n == u32::MAX {
        0
    } else {
        (n + 1) as u32
    }
}

/// Tries at most `tries` candidate ids from `next` on; gives the first that
/// is neither 0 nor taken (or 0 when none is), and the counter after it.
pub open spec fn alloc_search(taken: Set<u32>, next: u32, tries: nat) -> (u32, u32)
    decreases tries,
{
    if tries == 0 {
        (0, next)
    } else if next != 0 && !taken.contains(next) {
        (next, wrap_inc(next))
    } else {
        alloc_search(taken, wrap_inc(next), (tries - 1) as nat)
    }
}

/// The state and the id after an overlay id is allocated.
pub open spec fn spec_alloc(s: MapStateView) -> (MapStateView, u32) {
    let (id, next) = alloc_search(s.overlays.dom(), s.next_overlay_id, MAP_MAX_OVERLAYS as nat);
    (MapStateView { next_overlay_id: next, ..s }, id)
}

/// Whether a hyperlink is kept: its id is not 0 and it has from 3 to 32
/// points.
pub open spec fn link_accepted(h: HyperlinkView) -> bool {
    h.id != 0 && 3 <= h.points.len() <= MAP_MAX_POINTS_PER_LINK
}

/// The hyperlinks kept from the first 64 given.
pub open spec fn spec_filter_links(args: Seq<HyperlinkView>) -> Seq<HyperlinkView> {
    let n = if args.len() < MAP_MAX_HYPERLINKS {
        args.len() as int
    } else {
        MAP_MAX_HYPERLINKS as int
    };
    args.take(n).filter(|h: HyperlinkView| link_accepted(h))
}

/// The focus given by its arguments: none when the width or the height is 0.
pub open spec fn spec_focus(left: i32, top: i32, width: u32, height: u32) -> Option<MapFocus> {
    if width == 0 || height == 0 {
        None
    } else {
        Some(MapFocus { left, top, width, height })
    }
}

/// The CSS background colour of a map: none for the default colour.
pub open spec fn spec_bgcolor_css(bgcolor: u32) -> Option<Seq<char>> {
    if bgcolor == mapcolor_Default {
        None
    } else {
        Some(css_colour(bgcolor))
    }
}

impl MapState {
    fn queue(&mut self, update: MapUpdate)
        ensures
            final(self)@ == spec_queue(old(self)@, update@),
    {
        let merged = match self.pending.take() {
            Some(mut prev) => {
                merge_map_update(&mut prev, update);
                prev
            },
            None => update,
        };
        self.pending = Some(merged);
        self.changed = true;
    }

    fn clear_overlays_local(&mut self)
        ensures
            final(self)@ == (MapStateView { overlays: Map::empty(), ..old(self)@ }),
    {
        self.overlays.clear();
        assert(self@.overlays =~= Map::<u32, OverlayView>::empty());
        assert(self@ =~= (MapStateView { overlays: Map::empty(), ..old(self)@ }));
    }

    fn alloc_overlay_id(&mut self) -> (r: u32)
        ensures
            (final(self)@, r) == spec_alloc(old(self)@),
    {
        let ghost taken = self@.overlays.dom();
        let mut i: u32 = 0;
        while i < MAP_MAX_OVERLAYS
            invariant
                i <= MAP_MAX_OVERLAYS,
                taken == self@.overlays.dom(),
                self@ == (MapStateView { next_overlay_id: self.next_overlay_id, ..old(self)@ }),
                alloc_search(taken, self.next_overlay_id, (MAP_MAX_OVERLAYS - i) as nat)
                    == alloc_search(taken, old(self).next_overlay_id, MAP_MAX_OVERLAYS as nat),
            decreases MAP_MAX_OVERLAYS - i,
        {
            let id = self.next_overlay_id;
            self.next_overlay_id = self.next_overlay_id.wrapping_add(1);
            assert(self.next_overlay_id == wrap_inc(id));
            i = i + 1;
            if id == 0 {
                continue;
            }
            if !self.overlays.contains_key(&id) {
                return id;
            }
        }
        0
    }

    pub fn filter_hyperlinks(hyperlinks: &[MapHyperlinkArg]) -> (r: Vec<MapHyperlink>)
        ensures
            links_view(r@) == spec_filter_links(args_view(hyperlinks@)),
    {
        let n: usize = if hyperlinks.len() < MAP_MAX_HYPERLINKS as usize {
            hyperlinks.len()
        } else {
            MAP_MAX_HYPERLINKS as usize
        };
        let ghost args = args_view(hyperlinks@);
        let ghost pred = |h: HyperlinkView| link_accepted(h);
        let mut out: Vec<MapHyperlink> = Vec::new();
        let mut i: usize = 0;
        while i < n
            invariant
                n <= hyperlinks@.len(),
                n == hyperlinks@.len() || n == MAP_MAX_HYPERLINKS,
                i <= n,
                args == args_view(hyperlinks@),
                pred == (|h: HyperlinkView| link_accepted(h)),
                links_view(out@) == args.take(i as int).filter(pred),
            decreases n - i,
        {
            let h = &hyperlinks[i];
            proof {
                reveal_with_fuel(Seq::<_>::filter, 1);
                assert(args.take(i + 1).drop_last() =~= args.take(i as int));
                assert(args.take(i + 1).last() == h@);
            }
            if h.id != 0 && h.points.len() >= 3 && h.points.len() <= MAP_MAX_POINTS_PER_LINK as usize {
                let link = MapHyperlink {
                    id: h.id,
                    label: crate::protocol::copy_opt_string(&h.label),
                    points: crate::protocol::copy_points(&h.points),
                };
                let ghost before = out@;
                out.push(link);
                assert(links_view(out@) =~= links_view(before).push(link@));
            }
            i = i + 1;
        }
        out
    }

    fn focus_from_args(focusleft: i32, focustop: i32, focuswidth: u32, focusheight: u32) -> (r: Option<MapFocus>)
        ensures
            r == spec_focus(focusleft, focustop, focuswidth, focusheight),
    {
        if focuswidth == 0 || focusheight == 0 {
            return None;
        }
        Some(MapFocus { left: focusleft, top: focustop, width: focuswidth, height: focusheight })
    }
}

fn merge_map_update(dest: &mut MapUpdate, src: MapUpdate)
    ensures
        final(dest)@ == spec_merge(old(dest)@, src@),
{
    let ghost src_v = src@;
    let MapUpdate {
        clear,
        present,
        focus,
        hyperlinks,
        overlay_clear_all,
        mut overlays,
        mut overlay_moves,
        mut overlay_clears,
    } = src;
    if clear {
        let mut fresh = MapUpdate::default();
        fresh.clear = true;
        *dest = fresh;
        assert(dest@ =~= spec_merge(old(dest)@, src_v));
        return ;
    }
    if present.is_some() {
        dest.present = present;
        dest.overlays.clear();
        dest.overlay_moves.clear();
        dest.overlay_clears.clear();
        dest.overlay_clear_all = true;
    }
    if focus.is_some() {
        dest.focus = focus;
    }
    if hyperlinks.is_some() {
        dest.hyperlinks = hyperlinks;
    }
    if overlay_clear_all {
        dest.overlay_clear_all = true;
        dest.overlays.clear();
        dest.overlay_moves.clear();
        dest.overlay_clears.clear();
    }
    let ghost before = dest@;
    dest.overlays.append(&mut overlays);
    dest.overlay_moves.append(&mut overlay_moves);
    dest.overlay_clears.append(&mut overlay_clears);
    assert(dest@.overlays =~= before.overlays + src_v.overlays);
    assert(dest@ =~= spec_merge(old(dest)@, src_v));
}

fn map_bgcolor_css(bgcolor: u32) -> (r: Option<String>)
    ensures
        opt_chars(r) == spec_bgcolor_css(bgcolor),
{
    if bgcolor == mapcolor_Default {
        None
    } else {
        Some(colour_code_to_css(bgcolor))
    }
}

/// The bytes of `<svg`.
pub open spec fn svg_tag_lower() -> Seq<u8> {
    seq![0x3Cu8, 0x73u8, 0x76u8, 0x67u8]
}

/// The bytes of `<SVG`.
pub open spec fn svg_tag_upper() -> Seq<u8> {
    seq![0x3Cu8, 0x53u8, 0x56u8, 0x47u8]
}

/// Whether `data` is UTF-8 text holding `<svg` or `<SVG`.
pub open spec fn is_svg_text(data: Seq<u8>) -> bool {
    valid_utf8(data) && (bytes_contain(data, svg_tag_lower()) || bytes_contain(data, svg_tag_upper()))
}

/// The state after a new document is shown: the overlays go, and the new
/// document is queued with a clear of all overlays.
pub open spec fn spec_show_document(s: MapStateView, doc: DocumentView, present: PresentView) -> MapStateView {
    spec_queue(
        MapStateView { overlays: Map::empty(), doc: Some(doc), ..s },
        UpdateView { overlay_clear_all: true, present: Some(present), ..empty_update() },
    )
}

/// The state and result of `glk_map_present_svg`.
pub open spec fn spec_present_svg(
    s: MapStateView,
    map_supported: bool,
    data: Seq<u8>,
    bgcolor: u32,
    focusleft: i32,
    focustop: i32,
    focuswidth: u32,
    focusheight: u32,
    hyperlinks: Seq<HyperlinkView>,
) -> (MapStateView, u32) {
    if !map_supported || !is_svg_text(data) {
        (s, 0)
    } else {
        let svg = decode_utf8(data);
        let focus = spec_focus(focusleft, focustop, focuswidth, focusheight);
        let links = spec_filter_links(hyperlinks);
        let bg = spec_bgcolor_css(bgcolor);
        (
            spec_show_document(
                s,
                DocumentView {
                    format: MapFormat::Svg,
                    data: Some(svg),
                    image: None,
                    bgcolor: bg,
                    focus,
                    hyperlinks: links,
                },
                PresentView {
                    format: "svg"@,
                    data: Some(svg),
                    image: None,
                    bgcolor: bg,
                    focus,
                    hyperlinks: Some(links),
                },
            ),
            1,
        )
    }
}

/// The state and result of `glk_map_present_image`; `known` tells whether
/// the image resource exists.
pub open spec fn spec_present_image(
    s: MapStateView,
    map_supported: bool,
    known: bool,
    image: u32,
    bgcolor: u32,
    focusleft: i32,
    focustop: i32,
    focuswidth: u32,
    focusheight: u32,
    hyperlinks: Seq<HyperlinkView>,
) -> (MapStateView, u32) {
    if !map_supported || image == 0 || !known {
        (s, 0)
    } else {
        let focus = spec_focus(focusleft, focustop, focuswidth, focusheight);
        let links = spec_filter_links(hyperlinks);
        let bg = spec_bgcolor_css(bgcolor);
        (
            spec_show_document(
                s,
                DocumentView {
                    format: MapFormat::Image,
                    data: None,
                    image: Some(image),
                    bgcolor: bg,
                    focus,
                    hyperlinks: links,
                },
                PresentView {
                    format: "image"@,
                    data: None,
                    image: Some(image),
                    bgcolor: bg,
                    focus,
                    hyperlinks: Some(links),
                },
            ),
            1,
        )
    }
}

/// The state after `glk_map_set_hyperlinks`.
pub open spec fn spec_set_hyperlinks(s: MapStateView, hyperlinks: Seq<HyperlinkView>) -> MapStateView {
    let links = spec_filter_links(hyperlinks);
    let s1 = MapStateView {
        doc: match s.doc {
            Some(d) => Some(DocumentView { hyperlinks: links, ..d }),
            None => None,
        },
        ..s
    };
    spec_queue(s1, UpdateView { hyperlinks: Some(links), ..empty_update() })
}

/// The state and id after an overlay shaped like `proto` is added: it gets
/// a freshly allocated id, is stored under it and is queued. When no id can
/// be allocated nothing is added and the result is 0.
pub open spec fn spec_add_overlay(s: MapStateView, proto: OverlayView) -> (MapStateView, u32) {
    let (s1, id) = spec_alloc(s);
    if id == 0 {
        (s1, 0)
    } else {
        let ov = OverlayView { id, ..proto };
        (
            spec_queue(
                MapStateView { overlays: s1.overlays.insert(id, ov), ..s1 },
                UpdateView { overlays: seq![ov], ..empty_update() },
            ),
            id,
        )
    }
}

/// The link id of an overlay: none for 0.
pub open spec fn spec_link_id(link_id: u32) -> Option<u32> {
    if link_id == 0 {
        None
    } else {
        Some(link_id)
    }
}

/// The state and result of `glk_map_overlay`; `known` tells whether the
/// image resource exists.
pub open spec fn spec_overlay(
    s: MapStateView,
    known: bool,
    image: u32,
    left: i32,
    top: i32,
    width: u32,
    height: u32,
    zindex: u32,
    link_id: u32,
    link_label: Option<Seq<char>>,
) -> (MapStateView, u32) {
    if s.doc is None || image == 0 || !known {
        (s, 0)
    } else {
        spec_add_overlay(
            s,
            OverlayView {
                id: 0,
                image: Some(image),
                svg: None,
                color: None,
                left,
                top,
                width,
                height,
                zindex,
                link_id: spec_link_id(link_id),
                link_label,
            },
        )
    }
}

/// The state and result of `glk_map_overlay_svg`.
pub open spec fn spec_overlay_svg(
    s: MapStateView,
    data: Seq<u8>,
    left: i32,
    top: i32,
    width: u32,
    height: u32,
    zindex: u32,
    link_id: u32,
    link_label: Option<Seq<char>>,
) -> (MapStateView, u32) {
    if s.doc is None || !is_svg_text(data) || s.overlays.len() >= MAP_MAX_OVERLAYS {
        (s, 0)
    } else {
        spec_add_overlay(
            s,
            OverlayView {
                id: 0,
                image: None,
                svg: Some(decode_utf8(data)),
                color: None,
                left,
                top,
                width,
                height,
                zindex,
                link_id: spec_link_id(link_id),
                link_label,
            },
        )
    }
}

/// The state and result of `glk_map_fill_rect`.
pub open spec fn spec_fill_rect(
    s: MapStateView,
    color: u32,
    left: i32,
    top: i32,
    width: u32,
    height: u32,
    zindex: u32,
) -> (MapStateView, u32) {
    if s.doc is None || width == 0 || height == 0 {
        (s, 0)
    } else {
        spec_add_overlay(
            s,
            OverlayView {
                id: 0,
                image: None,
                svg: None,
                color: Some(css_colour(color)),
                left,
                top,
                width,
                height,
                zindex,
                link_id: None,
                link_label: None,
            },
        )
    }
}

/// The state and result of `glk_map_overlay_move`.
pub open spec fn spec_overlay_move(
    s: MapStateView,
    overlay: u32,
    left: i32,
    top: i32,
    width: u32,
    height: u32,
    zindex: u32,
) -> (MapStateView, u32) {
    if !s.overlays.contains_key(overlay) {
        (s, 0)
    } else {
        let ov = OverlayView { left, top, width, height, zindex, ..s.overlays[overlay] };
        (
            spec_queue(
                MapStateView { overlays: s.overlays.insert(overlay, ov), ..s },
                UpdateView {
                    overlay_moves: seq![MapOverlayMove { id: overlay, left, top, width, height, zindex }],
                    ..empty_update()
                },
            ),
            1,
        )
    }
}

/// The state and result of `glk_map_overlay_clear`.
pub open spec fn spec_overlay_clear(s: MapStateView, overlay: u32) -> (MapStateView, u32) {
    if overlay == 0 || !s.overlays.contains_key(overlay) {
        (s, 0)
    } else {
        (
            spec_queue(
                MapStateView { overlays: s.overlays.remove(overlay), ..s },
                UpdateView { overlay_clears: seq![overlay], ..empty_update() },
            ),
            1,
        )
    }
}

/// The state after `glk_map_overlay_clear_all`.
pub open spec fn spec_overlay_clear_all(s: MapStateView) -> MapStateView {
    spec_queue(
        MapStateView { overlays: Map::empty(), ..s },
        UpdateView { overlay_clear_all: true, ..empty_update() },
    )
}

/// The state after `glk_map_close`.
pub open spec fn spec_close(s: MapStateView) -> MapStateView {
    spec_queue(
        MapStateView { doc: None, overlays: Map::empty(), event_pending: false, ..s },
        UpdateView { clear: true, ..empty_update() },
    )
}

/// The state after the focus of the document is set to `focus` (a new
/// focus when `Some`, a cleared one when `None`).
pub open spec fn spec_change_focus(s: MapStateView, focus: Option<MapFocus>) -> MapStateView {
    let s1 = MapStateView {
        doc: match s.doc {
            Some(d) => Some(DocumentView { focus, ..d }),
            None => None,
        },
        ..s
    };
    spec_queue(s1, UpdateView { focus: Some(focus), ..empty_update() })
}

impl GlkApi {
    pub fn glk_map_present_svg(
        &mut self,
        data: &[u8],
        bgcolor: u32,
        focusleft: i32,
        focustop: i32,
        focuswidth: u32,
        focusheight: u32,
        hyperlinks: &[MapHyperlinkArg],
    ) -> (r: u32)
        ensures
            (final(self).map@, r) == spec_present_svg(
                old(self).map@,
                old(self).support.map,
                data@,
                bgcolor,
                focusleft,
                focustop,
                focuswidth,
                focusheight,
                args_view(hyperlinks@),
            ),
            final(self).support == old(self).support,
            final(self).images@ == old(self).images@,
    {
        if !self.support.map {
            return 0;
        }
        let svg = match str_from_utf8(data) {
            Some(s) => s,
            None => return 0,
        };
        proof {
            vstd::utf8::encode_utf8_decode_utf8(svg@);
        }
        let lower: [u8; 4] = [0x3C, 0x73, 0x76, 0x67];
        let upper: [u8; 4] = [0x3C, 0x53, 0x56, 0x47];
        assert(lower@ =~= svg_tag_lower());
        assert(upper@ =~= svg_tag_upper());
        if !contains_bytes(svg.as_bytes(), &lower) && !contains_bytes(svg.as_bytes(), &upper) {
            return 0;
        }
        let focus = MapState::focus_from_args(focusleft, focustop, focuswidth, focusheight);
        let links = MapState::filter_hyperlinks(hyperlinks);
        let bgcolor_css = map_bgcolor_css(bgcolor);
        self.map.clear_overlays_local();
        self.map.doc = Some(
            MapDocument {
                format: MapFormat::Svg,
                data: Some(svg.to_string()),
                image: None,
                bgcolor: copy_opt_string(&bgcolor_css),
                focus: focus,
                hyperlinks: copy_hyperlinks(&links),
            },
        );
        let mut update = MapUpdate::default();
        update.overlay_clear_all = true;
        update.present = Some(
            MapPresent {
                format: "svg",
                data: Some(svg.to_string()),
                image: None,
                bgcolor: bgcolor_css,
                focus: focus,
                hyperlinks: Some(links),
            },
        );
        self.map.queue(update);
        1
    }
    pub fn glk_map_present_image(
        &mut self,
        image: u32,
        bgcolor: u32,
        focusleft: i32,
        focustop: i32,
        focuswidth: u32,
        focusheight: u32,
        hyperlinks: &[MapHyperlinkArg],
    ) -> (r: u32)
        ensures
            (final(self).map@, r) == spec_present_image(
                old(self).map@,
                old(self).support.map,
                image_known(old(self).images@, image),
                image,
                bgcolor,
                focusleft,
                focustop,
                focuswidth,
                focusheight,
                args_view(hyperlinks@),
            ),
            final(self).support == old(self).support,
            final(self).images@ == old(self).images@,
    {
        if !self.support.map || image == 0 {
            return 0;
        }
        if self.glk_image_get_info(image).is_none() {
            return 0;
        }
        let focus = MapState::focus_from_args(focusleft, focustop, focuswidth, focusheight);
        let links = MapState::filter_hyperlinks(hyperlinks);
        let bgcolor_css = map_bgcolor_css(bgcolor);
        self.map.clear_overlays_local();
        self.map.doc = Some(
            MapDocument {
                format: MapFormat::Image,
                data: None,
                image: Some(image),
                bgcolor: copy_opt_string(&bgcolor_css),
                focus: focus,
                hyperlinks: copy_hyperlinks(&links),
            },
        );
        let mut update = MapUpdate::default();
        update.overlay_clear_all = true;
        update.present = Some(
            MapPresent {
                format: "image",
                data: None,
                image: Some(image),
                bgcolor: bgcolor_css,
                focus: focus,
                hyperlinks: Some(links),
            },
        );
        self.map.queue(update);
        1
    }

    pub fn glk_map_set_hyperlinks(&mut self, hyperlinks: &[MapHyperlinkArg])
        ensures
            final(self).map@ == spec_set_hyperlinks(old(self).map@, args_view(hyperlinks@)),
            final(self).support == old(self).support,
            final(self).images@ == old(self).images@,
    {
        let links = MapState::filter_hyperlinks(hyperlinks);
        match &mut self.map.doc {
            Some(doc) => {
                doc.hyperlinks = copy_hyperlinks(&links);
            },
            None => {},
        }
        let mut update = MapUpdate::default();
        update.hyperlinks = Some(links);
        self.map.queue(update);
    }

    pub fn glk_map_overlay(
        &mut self,
        image: u32,
        left: i32,
        top: i32,
        width: u32,
        height: u32,
        zindex: u32,
        link_id: u32,
        link_label: Option<String>,
    ) -> (r: u32)
        ensures
            (final(self).map@, r) == spec_overlay(
                old(self).map@,
                image_known(old(self).images@, image),
                image,
                left,
                top,
                width,
                height,
                zindex,
                link_id,
                opt_chars(link_label),
            ),
            final(self).support == old(self).support,
            final(self).images@ == old(self).images@,
    {
        if self.map.doc.is_none() || image == 0 || self.glk_image_get_info(image).is_none() {
            return 0;
        }
        let id = self.map.alloc_overlay_id();
        if id == 0 {
            return 0;
        }
        let ov = MapOverlay {
            id,
            image: Some(image),
            svg: None,
            color: None,
            left,
            top,
            width,
            height,
            zindex,
            link_id: if link_id == 0 {
                None
            } else {
                Some(link_id)
            },
            link_label,
        };
        self.map.add_overlay(ov);
        id
    }

    pub fn glk_map_overlay_svg(
        &mut self,
        data: &[u8],
        left: i32,
        top: i32,
        width: u32,
        height: u32,
        zindex: u32,
        link_id: u32,
        link_label: Option<String>,
    ) -> (r: u32)
        ensures
            (final(self).map@, r) == spec_overlay_svg(
                old(self).map@,
                data@,
                left,
                top,
                width,
                height,
                zindex,
                link_id,
                opt_chars(link_label),
            ),
            final(self).support == old(self).support,
            final(self).images@ == old(self).images@,
    {
        if self.map.doc.is_none() {
            return 0;
        }
        let svg = match str_from_utf8(data) {
            Some(s) => s,
            None => return 0,
        };
        proof {
            vstd::utf8::encode_utf8_decode_utf8(svg@);
        }
        let lower: [u8; 4] = [0x3C, 0x73, 0x76, 0x67];
        let upper: [u8; 4] = [0x3C, 0x53, 0x56, 0x47];
        assert(lower@ =~= svg_tag_lower());
        assert(upper@ =~= svg_tag_upper());
        if !contains_bytes(svg.as_bytes(), &lower) && !contains_bytes(svg.as_bytes(), &upper) {
            return 0;
        }
        assert(self.map@.overlays.dom() =~= self.map.overlays@.dom());
        if self.map.overlays.len() >= MAP_MAX_OVERLAYS as usize {
            return 0;
        }
        let id = self.map.alloc_overlay_id();
        if id == 0 {
            return 0;
        }
        let ov = MapOverlay {
            id,
            image: None,
            svg: Some(svg.to_string()),
            color: None,
            left,
            top,
            width,
            height,
            zindex,
            link_id: if link_id == 0 {
                None
            } else {
                Some(link_id)
            },
            link_label,
        };
        self.map.add_overlay(ov);
        id
    }

    pub fn glk_map_fill_rect(
        &mut self,
        color: u32,
        left: i32,
        top: i32,
        width: u32,
        height: u32,
        zindex: u32,
    ) -> (r: u32)
        ensures
            (final(self).map@, r) == spec_fill_rect(old(self).map@, color, left, top, width, height, zindex),
            final(self).support == old(self).support,
            final(self).images@ == old(self).images@,
    {
        if self.map.doc.is_none() || width == 0 || height == 0 {
            return 0;
        }
        let id = self.map.alloc_overlay_id();
        if id == 0 {
            return 0;
        }
        let ov = MapOverlay {
            id,
            image: None,
            svg: None,
            color: Some(colour_code_to_css(color)),
            left,
            top,
            width,
            height,
            zindex,
            link_id: None,
            link_label: None,
        };
        self.map.add_overlay(ov);
        id
    }

    pub fn glk_map_overlay_move(
        &mut self,
        overlay: u32,
        left: i32,
        top: i32,
        width: u32,
        height: u32,
        zindex: u32,
    ) -> (r: u32)
        ensures
            (final(self).map@, r) == spec_overlay_move(old(self).map@, overlay, left, top, width, height, zindex),
            final(self).support == old(self).support,
            final(self).images@ == old(self).images@,
    {
        let moved = match self.map.overlays.get(&overlay) {
            Some(ov) => {
                let mut m = crate::protocol::copy_overlay(ov);
                m.left = left;
                m.top = top;
                m.width = width;
                m.height = height;
                m.zindex = zindex;
                m
            },
            None => return 0,
        };
        let ghost before = self.map@;
        self.map.overlays.insert(overlay, moved);
        assert(self.map@.overlays =~= before.overlays.insert(overlay, moved@));
        let mut update = MapUpdate::default();
        update.overlay_moves = vec![MapOverlayMove { id: overlay, left, top, width, height, zindex }];
        assert(update@.overlay_moves =~= seq![MapOverlayMove { id: overlay, left, top, width, height, zindex }]);
        self.map.queue(update);
        assert(self.map@ =~= spec_overlay_move(old(self).map@, overlay, left, top, width, height, zindex).0);
        1
    }

    pub fn glk_map_overlay_clear(&mut self, overlay: u32) -> (r: u32)
        ensures
            (final(self).map@, r) == spec_overlay_clear(old(self).map@, overlay),
            final(self).support == old(self).support,
            final(self).images@ == old(self).images@,
    {
        let ghost before = self.map@;
        if overlay == 0 || self.map.overlays.remove(&overlay).is_none() {
            return 0;
        }
        assert(self.map@.overlays =~= before.overlays.remove(overlay));
        let mut update = MapUpdate::default();
        update.overlay_clears = vec![overlay];
        assert(update@.overlay_clears =~= seq![overlay]);
        self.map.queue(update);
        assert(self.map@ =~= spec_overlay_clear(before, overlay).0);
        1
    }

    pub fn glk_map_overlay_clear_all(&mut self) -> (r: u32)
        ensures
            final(self).map@ == spec_overlay_clear_all(old(self).map@),
            r == 1,
            final(self).support == old(self).support,
            final(self).images@ == old(self).images@,
    {
        self.map.clear_overlays_local();
        let mut update = MapUpdate::default();
        update.overlay_clear_all = true;
        self.map.queue(update);
        1
    }

    pub fn glk_map_close(&mut self)
        ensures
            final(self).map@ == spec_close(old(self).map@),
            final(self).support == old(self).support,
            final(self).images@ == old(self).images@,
    {
        self.map.doc = None;
        self.map.clear_overlays_local();
        self.map.event_pending = false;
        let mut update = MapUpdate::default();
        update.clear = true;
        self.map.queue(update);
    }

    pub fn glk_map_get_visibility(&self) -> (r: u32)
        ensures
            r == (if self.map.doc is Some {
                1u32
            } else {
                0u32
            }),
    {
        if self.map.doc.is_some() {
            1
        } else {
            0
        }
    }

    /// The map is shown as soon as it is presented, so a request to show it
    /// changes nothing.
    pub fn glk_map_show_at_user_request(&mut self)
        ensures
            final(self).map@ == old(self).map@,
            final(self).support == old(self).support,
            final(self).images@ == old(self).images@,
    {
    }

    pub fn glk_request_map_event(&mut self)
        ensures
            final(self).map@ == (MapStateView {
                event_pending: old(self).map@.event_pending || old(self).support.map,
                ..old(self).map@
            }),
            final(self).support == old(self).support,
            final(self).images@ == old(self).images@,
    {
        if self.support.map {
            self.map.event_pending = true;
        }
    }

    pub fn glk_cancel_map_event(&mut self)
        ensures
            final(self).map@ == (MapStateView { event_pending: false, ..old(self).map@ }),
            final(self).support == old(self).support,
            final(self).images@ == old(self).images@,
    {
        self.map.event_pending = false;
    }

    pub fn glk_map_set_focus(&mut self, focusleft: i32, focustop: i32, focuswidth: u32, focusheight: u32)
        ensures
            final(self).map@ == spec_change_focus(
                old(self).map@,
                Some(MapFocus { left: focusleft, top: focustop, width: focuswidth, height: focusheight }),
            ),
            final(self).support == old(self).support,
            final(self).images@ == old(self).images@,
    {
        let focus = MapFocus { left: focusleft, top: focustop, width: focuswidth, height: focusheight };
        match &mut self.map.doc {
            Some(doc) => {
                doc.focus = Some(focus);
            },
            None => {},
        }
        let mut update = MapUpdate::default();
        update.focus = Some(Some(focus));
        self.map.queue(update);
    }

    pub fn glk_map_clear_focus(&mut self)
        ensures
            final(self).map@ == spec_change_focus(old(self).map@, None),
            final(self).support == old(self).support,
            final(self).images@ == old(self).images@,
    {
        match &mut self.map.doc {
            Some(doc) => {
                doc.focus = None;
            },
            None => {},
        }
        let mut update = MapUpdate::default();
        update.focus = Some(None);
        self.map.queue(update);
    }
}

impl MapState {
    /// Stores an overlay under its id and queues it.
    fn add_overlay(&mut self, ov: MapOverlay)
        ensures
            final(self)@ == spec_queue(
                MapStateView { overlays: old(self)@.overlays.insert(ov.id, ov@), ..old(self)@ },
                UpdateView { overlays: seq![ov@], ..empty_update() },
            ),
    {
        let ghost before = self@;
        let ghost ov_v = ov@;
        let copy = crate::protocol::copy_overlay(&ov);
        self.overlays.insert(ov.id, copy);
        assert(self@.overlays =~= before.overlays.insert(ov.id, ov_v));
        let mut update = MapUpdate::default();
        update.overlays = vec![ov];
        assert(update@.overlays =~= seq![ov_v]);
        self.queue(update);
    }
}


/// How far `v` lies after `n` when counting upwards with wrap-around.
pub open spec fn id_offset(n: u32, v: u32) -> int {
    (v as int - n as int) % 0x1_0000_0000
}

/// Whether counting `t` ids upwards from `next` meets the id 0.
pub open spec fn window_meets_zero(next: u32, t: nat) -> bool {
    t > 0 && (next == 0 || next + t > 0x1_0000_0000)
}

/// An allocated id is never 0 and never the id of a live overlay.
pub proof fn lemma_alloc_fresh(taken: Set<u32>, next: u32, tries: nat)
    ensures
        alloc_search(taken, next, tries).0 != 0 ==> !taken.contains(alloc_search(taken, next, tries).0),
    decreases tries,
{
    if tries > 0 && !(next != 0 && !taken.contains(next)) {
        lemma_alloc_fresh(taken, wrap_inc(next), (tries - 1) as nat);
    }
}

/// Forgetting a taken id that the search would never reach changes nothing.
proof fn lemma_alloc_ignores_unreached(taken: Set<u32>, x: u32, next: u32, tries: nat)
    requires
        id_offset(next, x) >= tries,
    ensures
        alloc_search(taken.remove(x), next, tries) == alloc_search(taken, next, tries),
    decreases tries,
{
    if tries > 0 {
        assert(id_offset(next, next) == 0);
        assert(x != next);
        assert(id_offset(wrap_inc(next), x) == id_offset(next, x) - 1);
        lemma_alloc_ignores_unreached(taken, x, wrap_inc(next), (tries - 1) as nat);
    }
}

/// A search that finds nothing has met a taken id at every candidate but 0.
proof fn lemma_alloc_failure_counts(taken: Set<u32>, next: u32, tries: nat)
    requires
        taken.finite(),
        tries <= 0x1_0000_0000,
        alloc_search(taken, next, tries).0 == 0,
    ensures
        taken.len() + (if window_meets_zero(next, tries) {
            1int
        } else {
            0int
        }) >= tries,
    decreases tries,
{
    if tries > 0 {
        let n1 = wrap_inc(next);
        let t1 = (tries - 1) as nat;
        if next == 0 {
            lemma_alloc_failure_counts(taken, n1, t1);
        } else {
            assert(taken.contains(next));
            assert(id_offset(n1, next) == 0xFFFF_FFFF);
            lemma_alloc_ignores_unreached(taken, next, n1, t1);
            lemma_alloc_failure_counts(taken.remove(next), n1, t1);
        }
    }
}

/// While fewer than 255 overlays are live, allocating an overlay id always
/// succeeds.
pub proof fn lemma_alloc_succeeds_below_limit(taken: Set<u32>, next: u32)
    requires
        taken.finite(),
        taken.len() < MAP_MAX_OVERLAYS - 1,
    ensures
        alloc_search(taken, next, MAP_MAX_OVERLAYS as nat).0 != 0,
{
    if alloc_search(taken, next, MAP_MAX_OVERLAYS as nat).0 == 0 {
        lemma_alloc_failure_counts(taken, next, MAP_MAX_OVERLAYS as nat);
    }
}

/// Every live overlay is stored under its own id, and that id is not 0.
pub open spec fn overlays_well_keyed(s: MapStateView) -> bool {
    forall|k: u32| #[trigger] s.overlays.contains_key(k) ==> k != 0 && s.overlays[k].id == k
}

/// Adding an overlay keeps overlays stored under their own nonzero ids, and
/// a successful add stores the new overlay under the id returned.
pub proof fn lemma_add_overlay_well_keyed(s: MapStateView, proto: OverlayView)
    requires
        overlays_well_keyed(s),
    ensures
        overlays_well_keyed(spec_add_overlay(s, proto).0),
        spec_add_overlay(s, proto).1 != 0 ==> {
            let id = spec_add_overlay(s, proto).1;
            &&& !s.overlays.contains_key(id)
            &&& spec_add_overlay(s, proto).0.overlays == s.overlays.insert(
                id,
                OverlayView { id, ..proto },
            )
        },
{
    lemma_alloc_fresh(s.overlays.dom(), s.next_overlay_id, MAP_MAX_OVERLAYS as nat);
}

/// While fewer than 255 overlays are live, adding one always succeeds.
pub proof fn lemma_add_overlay_succeeds_below_limit(s: MapStateView, proto: OverlayView)
    requires
        s.overlays.dom().finite(),
        s.overlays.len() < MAP_MAX_OVERLAYS - 1,
    ensures
        spec_add_overlay(s, proto).1 != 0,
{
    lemma_alloc_succeeds_below_limit(s.overlays.dom(), s.next_overlay_id);
}

/// Moving an overlay keeps overlays stored under their own nonzero ids.
pub proof fn lemma_overlay_move_well_keyed(
    s: MapStateView,
    overlay: u32,
    left: i32,
    top: i32,
    width: u32,
    height: u32,
    zindex: u32,
)
    requires
        overlays_well_keyed(s),
    ensures
        overlays_well_keyed(spec_overlay_move(s, overlay, left, top, width, height, zindex).0),
{
}

/// Clearing an overlay keeps overlays stored under their own nonzero ids.
pub proof fn lemma_overlay_clear_well_keyed(s: MapStateView, overlay: u32)
    requires
        overlays_well_keyed(s),
    ensures
        overlays_well_keyed(spec_overlay_clear(s, overlay).0),
{
}

/// Clearing an overlay that was just added removes it again: the call
/// succeeds and the live overlays are those from before the add.
pub proof fn lemma_add_then_clear(s: MapStateView, proto: OverlayView)
    requires
        overlays_well_keyed(s),
        spec_add_overlay(s, proto).1 != 0,
    ensures
        ({
            let (s1, id) = spec_add_overlay(s, proto);
            let (s2, r) = spec_overlay_clear(s1, id);
            &&& r == 1
            &&& s2.overlays == s.overlays
        }),
{
    lemma_add_overlay_well_keyed(s, proto);
    let (s1, id) = spec_add_overlay(s, proto);
    assert(s1.overlays.remove(id) =~= s.overlays);
}

/// Every state-changing map call that does its work queues an update and
/// marks the map changed.
pub proof fn lemma_queue_marks_changed(s: MapStateView, update: UpdateView)
    ensures
        spec_queue(s, update).changed,
        spec_queue(s, update).pending is Some,
        spec_queue(s, update).doc == s.doc,
        spec_queue(s, update).overlays == s.overlays,
{
}

/// Closing the map hides it, drops its overlays and its event request, and
/// replaces whatever was queued with a bare clear.
pub proof fn lemma_close_discards_queue(s: MapStateView)
    ensures
        spec_close(s).doc is None,
        spec_close(s).overlays == Map::<u32, OverlayView>::empty(),
        !spec_close(s).event_pending,
        spec_close(s).pending == Some(UpdateView { clear: true, ..empty_update() }),
{
}

/// A new document discards the overlay changes queued before it and asks the
/// display to clear all overlays.
pub proof fn lemma_present_discards_staged_overlays(dest: UpdateView, src: UpdateView)
    requires
        !src.clear,
        src.present is Some,
    ensures
        spec_merge(dest, src).present == src.present,
        spec_merge(dest, src).overlay_clear_all,
        spec_merge(dest, src).overlays == src.overlays,
        spec_merge(dest, src).overlay_moves == src.overlay_moves,
        spec_merge(dest, src).overlay_clears == src.overlay_clears,
{
    assert(spec_merge(dest, src).overlays =~= src.overlays);
    assert(spec_merge(dest, src).overlay_moves =~= src.overlay_moves);
    assert(spec_merge(dest, src).overlay_clears =~= src.overlay_clears);
}

/// Queued overlay changes accumulate in order while nothing discards them.
pub proof fn lemma_merge_appends_overlays(dest: UpdateView, src: UpdateView)
    requires
        !src.clear,
        src.present is None,
        !src.overlay_clear_all,
    ensures
        spec_merge(dest, src).overlays == dest.overlays + src.overlays,
        spec_merge(dest, src).overlay_moves == dest.overlay_moves + src.overlay_moves,
        spec_merge(dest, src).overlay_clears == dest.overlay_clears + src.overlay_clears,
        spec_merge(dest, src).overlay_clear_all == dest.overlay_clear_all,
{
}

/// The hyperlinks kept are at most 64, each with a nonzero id and from 3 to
/// 32 points, in the order given.
pub proof fn lemma_filter_links_bounds(args: Seq<HyperlinkView>)
    ensures
        spec_filter_links(args).len() <= MAP_MAX_HYPERLINKS,
        forall|i: int|
            0 <= i < spec_filter_links(args).len() ==> link_accepted(
                #[trigger] spec_filter_links(args)[i],
            ),
{
    let n = if args.len() < MAP_MAX_HYPERLINKS {
        args.len() as int
    } else {
        MAP_MAX_HYPERLINKS as int
    };
    let pred = |h: HyperlinkView| link_accepted(h);
    args.take(n).lemma_filter_len(pred);
    assert forall|i: int| 0 <= i < spec_filter_links(args).len() implies link_accepted(
        #[trigger] spec_filter_links(args)[i],
    ) by {
        args.take(n).lemma_filter_pred(pred, i);
    }
}

/// The hyperlinks a map keeps from those given: among the first 64, each one
/// with a nonzero id and from 3 to 32 points, in the order given.
pub open spec fn kept_links(args: Seq<HyperlinkView>) -> Seq<HyperlinkView> {
    args.take(if args.len() < 64 { args.len() as int } else { 64 }).filter(
        |h: HyperlinkView| h.id != 0 && 3 <= h.points.len() && h.points.len() <= 32,
    )
}

/// The background a map is shown on: none for the default colour, and the
/// CSS form of every other colour, black included.
pub open spec fn background_of(bgcolor: u32) -> Option<Seq<char>> {
    if bgcolor == 0xFFFF_FFFFu32 {
        None
    } else {
        Some(css_colour(bgcolor))
    }
}

/// Filtering hyperlinks keeps exactly the acceptable ones of the first 64, in order.
pub proof fn lemma_filter_links_is_kept_links(args: Seq<HyperlinkView>)
    ensures
        spec_filter_links(args) == kept_links(args),
{
    let p1 = |h: HyperlinkView| link_accepted(h);
    let p2 = |h: HyperlinkView| h.id != 0 && 3 <= h.points.len() && h.points.len() <= 32;
    assert(p1 =~= p2);
}

/// A successful SVG present shows the decoded text as the document, with the
/// background of `bgcolor`, the focus given (none when its width or height
/// is 0) and the kept hyperlinks; the update queued for the display carries
/// the same text, background, focus and hyperlinks, and no overlay is left.
/// It succeeds exactly when maps are supported and the bytes are UTF-8 text
/// holding `<svg` or `<SVG`.
pub proof fn lemma_present_svg_outcome(
    s: MapStateView,
    map_supported: bool,
    data: Seq<u8>,
    bgcolor: u32,
    focusleft: i32,
    focustop: i32,
    focuswidth: u32,
    focusheight: u32,
    hyperlinks: Seq<HyperlinkView>,
)
    ensures
        ({
            let (s1, r) = spec_present_svg(
                s,
                map_supported,
                data,
                bgcolor,
                focusleft,
                focustop,
                focuswidth,
                focusheight,
                hyperlinks,
            );
            let focus = if focuswidth == 0 || focusheight == 0 {
                None
            } else {
                Some(MapFocus { left: focusleft, top: focustop, width: focuswidth, height: focusheight })
            };
            &&& (r == 1) == (map_supported && valid_utf8(data) && (bytes_contain(
                data,
                seq![0x3Cu8, 0x73u8, 0x76u8, 0x67u8],
            ) || bytes_contain(data, seq![0x3Cu8, 0x53u8, 0x56u8, 0x47u8])))
            &&& r != 1 ==> r == 0 && s1 == s
            &&& r == 1 ==> {
                &&& s1.doc == Some(
                    DocumentView {
                        format: MapFormat::Svg,
                        data: Some(decode_utf8(data)),
                        image: None,
                        bgcolor: background_of(bgcolor),
                        focus,
                        hyperlinks: kept_links(hyperlinks),
                    },
                )
                &&& s1.overlays.is_empty()
                &&& s1.pending matches Some(p) && p.present == Some(
                    PresentView {
                        format: "svg"@,
                        data: Some(decode_utf8(data)),
                        image: None,
                        bgcolor: background_of(bgcolor),
                        focus,
                        hyperlinks: Some(kept_links(hyperlinks)),
                    },
                ) && p.overlay_clear_all
            }
        }),
{
    lemma_filter_links_is_kept_links(hyperlinks);
    assert(svg_tag_lower() == seq![0x3Cu8, 0x73u8, 0x76u8, 0x67u8]);
    assert(svg_tag_upper() == seq![0x3Cu8, 0x53u8, 0x56u8, 0x47u8]);
}

/// A successful image present shows the image as the document, with the
/// background of `bgcolor`, the focus given and the kept hyperlinks; the
/// update queued for the display carries the same image, background, focus
/// and hyperlinks. It succeeds exactly when maps are supported and the image
/// is a known, nonzero resource.
pub proof fn lemma_present_image_outcome(
    s: MapStateView,
    map_supported: bool,
    known: bool,
    image: u32,
    bgcolor: u32,
    focusleft: i32,
    focustop: i32,
    focuswidth: u32,
    focusheight: u32,
    hyperlinks: Seq<HyperlinkView>,
)
    ensures
        ({
            let (s1, r) = spec_present_image(
                s,
                map_supported,
                known,
                image,
                bgcolor,
                focusleft,
                focustop,
                focuswidth,
                focusheight,
                hyperlinks,
            );
            let focus = if focuswidth == 0 || focusheight == 0 {
                None
            } else {
                Some(MapFocus { left: focusleft, top: focustop, width: focuswidth, height: focusheight })
            };
            &&& (r == 1) == (map_supported && image != 0 && known)
            &&& r != 1 ==> r == 0 && s1 == s
            &&& r == 1 ==> {
                &&& s1.doc == Some(
                    DocumentView {
                        format: MapFormat::Image,
                        data: None,
                        image: Some(image),
                        bgcolor: background_of(bgcolor),
                        focus,
                        hyperlinks: kept_links(hyperlinks),
                    },
                )
                &&& s1.overlays.is_empty()
                &&& s1.pending matches Some(p) && p.present == Some(
                    PresentView {
                        format: "image"@,
                        data: None,
                        image: Some(image),
                        bgcolor: background_of(bgcolor),
                        focus,
                        hyperlinks: Some(kept_links(hyperlinks)),
                    },
                ) && p.overlay_clear_all
            }
        }),
{
    lemma_filter_links_is_kept_links(hyperlinks);
}

/// The kept hyperlinks hold every acceptable one of the first 64 given, and
/// only those.
pub proof fn lemma_kept_links_members(args: Seq<HyperlinkView>)
    ensures
        forall|i: int|
            0 <= i < args.len() && i < 64 && args[i].id != 0 && 3 <= args[i].points.len() <= 32
                ==> kept_links(args).contains(#[trigger] args[i]),
        forall|k: int|
            0 <= k < kept_links(args).len() ==> {
                let h = #[trigger] kept_links(args)[k];
                &&& h.id != 0 && 3 <= h.points.len() <= 32
                &&& exists|i: int| 0 <= i < args.len() && i < 64 && args[i] == h
            },
{
    let n = if args.len() < 64 { args.len() as int } else { 64 };
    let p = |h: HyperlinkView| h.id != 0 && 3 <= h.points.len() && h.points.len() <= 32;
    assert forall|i: int|
        0 <= i < args.len() && i < 64 && args[i].id != 0 && 3 <= args[i].points.len() <= 32
            implies kept_links(args).contains(#[trigger] args[i]) by {
        assert(args.take(n)[i] == args[i]);
        args.take(n).lemma_filter_contains(p, i);
    }
    assert forall|k: int| 0 <= k < kept_links(args).len() implies {
        let h = #[trigger] kept_links(args)[k];
        &&& h.id != 0 && 3 <= h.points.len() <= 32
        &&& exists|i: int| 0 <= i < args.len() && i < 64 && args[i] == h
    } by {
        args.take(n).lemma_filter_pred(p, k);
        let h = kept_links(args)[k];
        assert(kept_links(args).contains(h));
        args.take(n).lemma_filter_contains_rev(p, h);
        assert(args.take(n).contains(h));
        let i = choose|i: int| 0 <= i < args.take(n).len() && args.take(n)[i] == h;
        assert(args[i] == h);
    }
}

/// The overlay a successful add stores under the new id, and queues for the
/// display as its latest overlay change.
proof fn lemma_add_overlay_stored_and_queued(s: MapStateView, proto: OverlayView)
    ensures
        ({
            let (s1, id) = spec_add_overlay(s, proto);
            id != 0 ==> {
                &&& s1.overlays.contains_key(id)
                &&& s1.overlays[id] == OverlayView { id, ..proto }
                &&& s1.pending matches Some(p) && p.overlays.len() > 0 && p.overlays.last()
                    == s1.overlays[id]
            }
        }),
{
}

/// After a successful image overlay, the overlay stored under the returned
/// id, which is also the latest overlay queued for the display, shows the
/// given image at exactly the given place, size and depth, with the link
/// given (none for link id 0).
pub proof fn lemma_overlay_outcome(
    s: MapStateView,
    known: bool,
    image: u32,
    left: i32,
    top: i32,
    width: u32,
    height: u32,
    zindex: u32,
    link_id: u32,
    link_label: Option<Seq<char>>,
)
    ensures
        ({
            let (s1, id) = spec_overlay(
                s,
                known,
                image,
                left,
                top,
                width,
                height,
                zindex,
                link_id,
                link_label,
            );
            &&& id != 0 ==> s.doc is Some && image != 0 && known
            &&& id != 0 ==> {
                let ov = s1.overlays[id];
                &&& s1.overlays.contains_key(id)
                &&& ov.id == id
                &&& ov.image == Some(image) && ov.svg is None && ov.color is None
                &&& ov.left == left && ov.top == top && ov.width == width && ov.height == height
                    && ov.zindex == zindex
                &&& ov.link_id == (if link_id == 0 {
                    None
                } else {
                    Some(link_id)
                })
                &&& ov.link_label == link_label
                &&& s1.pending matches Some(p) && p.overlays.len() > 0 && p.overlays.last() == ov
            }
        }),
{
    if s.doc is Some && image != 0 && known {
        lemma_add_overlay_stored_and_queued(
            s,
            OverlayView {
                id: 0,
                image: Some(image),
                svg: None,
                color: None,
                left,
                top,
                width,
                height,
                zindex,
                link_id: spec_link_id(link_id),
                link_label,
            },
        );
    }
}

/// After a successful SVG overlay, the overlay stored under the returned id,
/// which is also the latest overlay queued, holds the decoded text at
/// exactly the given place, size and depth.
pub proof fn lemma_overlay_svg_outcome(
    s: MapStateView,
    data: Seq<u8>,
    left: i32,
    top: i32,
    width: u32,
    height: u32,
    zindex: u32,
    link_id: u32,
    link_label: Option<Seq<char>>,
)
    ensures
        ({
            let (s1, id) = spec_overlay_svg(s, data, left, top, width, height, zindex, link_id, link_label);
            id != 0 ==> {
                let ov = s1.overlays[id];
                &&& s.doc is Some && valid_utf8(data) && s.overlays.len() < 256
                &&& s1.overlays.contains_key(id)
                &&& ov.id == id
                &&& ov.image is None && ov.svg == Some(decode_utf8(data)) && ov.color is None
                &&& ov.left == left && ov.top == top && ov.width == width && ov.height == height
                    && ov.zindex == zindex
                &&& ov.link_id == (if link_id == 0 {
                    None
                } else {
                    Some(link_id)
                })
                &&& ov.link_label == link_label
                &&& s1.pending matches Some(p) && p.overlays.len() > 0 && p.overlays.last() == ov
            }
        }),
{
    if !(s.doc is None || !is_svg_text(data) || s.overlays.len() >= MAP_MAX_OVERLAYS) {
        lemma_add_overlay_stored_and_queued(
            s,
            OverlayView {
                id: 0,
                image: None,
                svg: Some(decode_utf8(data)),
                color: None,
                left,
                top,
                width,
                height,
                zindex,
                link_id: spec_link_id(link_id),
                link_label,
            },
        );
    }
}

/// After a successful filled rectangle, the overlay stored under the
/// returned id, which is also the latest overlay queued, is the CSS colour
/// at exactly the given place, size and depth, with no link.
pub proof fn lemma_fill_rect_outcome(
    s: MapStateView,
    color: u32,
    left: i32,
    top: i32,
    width: u32,
    height: u32,
    zindex: u32,
)
    ensures
        ({
            let (s1, id) = spec_fill_rect(s, color, left, top, width, height, zindex);
            id != 0 ==> {
                let ov = s1.overlays[id];
                &&& s.doc is Some && width != 0 && height != 0
                &&& s1.overlays.contains_key(id)
                &&& ov.id == id
                &&& ov.image is None && ov.svg is None && ov.color == Some(css_colour(color))
                &&& ov.left == left && ov.top == top && ov.width == width && ov.height == height
                    && ov.zindex == zindex
                &&& ov.link_id is None && ov.link_label is None
                &&& s1.pending matches Some(p) && p.overlays.len() > 0 && p.overlays.last() == ov
            }
        }),
{
    if !(s.doc is None || width == 0 || height == 0) {
        lemma_add_overlay_stored_and_queued(
            s,
            OverlayView {
                id: 0,
                image: None,
                svg: None,
                color: Some(css_colour(color)),
                left,
                top,
                width,
                height,
                zindex,
                link_id: None,
                link_label: None,
            },
        );
    }
}

/// A successful move gives the overlay exactly the place, size and depth
/// passed in and keeps what it shows; the move queued last for the display
/// names that overlay and carries the same place, size and depth as the
/// stored overlay. It succeeds exactly when the overlay is live.
pub proof fn lemma_overlay_move_outcome(
    s: MapStateView,
    overlay: u32,
    left: i32,
    top: i32,
    width: u32,
    height: u32,
    zindex: u32,
)
    ensures
        ({
            let (s1, r) = spec_overlay_move(s, overlay, left, top, width, height, zindex);
            &&& (r == 1) == s.overlays.contains_key(overlay)
            &&& r != 1 ==> r == 0 && s1 == s
            &&& r == 1 ==> {
                let ov = s1.overlays[overlay];
                &&& s1.overlays.contains_key(overlay)
                &&& ov.left == left && ov.top == top && ov.width == width && ov.height == height
                    && ov.zindex == zindex
                &&& ov.id == s.overlays[overlay].id && ov.image == s.overlays[overlay].image
                    && ov.svg == s.overlays[overlay].svg && ov.color == s.overlays[overlay].color
                    && ov.link_id == s.overlays[overlay].link_id && ov.link_label
                    == s.overlays[overlay].link_label
                &&& s1.pending matches Some(p) && p.overlay_moves.len() > 0 && {
                    let m = p.overlay_moves.last();
                    &&& m.id == overlay
                    &&& m.left == left && m.top == top && m.width == width && m.height == height
                        && m.zindex == zindex
                    &&& m.left == ov.left && m.top == ov.top && m.width == ov.width && m.height
                        == ov.height && m.zindex == ov.zindex
                }
            }
        }),
{
}

/// Allocation takes the next id in turn when it is neither 0 nor in use,
/// and moves the counter one past it.
pub proof fn lemma_alloc_takes_next_free(s: MapStateView)
    requires
        s.next_overlay_id != 0,
        !s.overlays.contains_key(s.next_overlay_id),
    ensures
        spec_alloc(s).1 == s.next_overlay_id,
        spec_alloc(s).0.next_overlay_id == if s.next_overlay_id == 0xFFFF_FFFFu32 {
            0u32
        } else {
            (s.next_overlay_id + 1) as u32
        },
        spec_alloc(s).0.overlays == s.overlays,
        spec_alloc(s).0.doc == s.doc,
        spec_alloc(s).0.pending == s.pending,
{
}

/// Allocation skips 0 and ids in use: when the next id in turn cannot be
/// used, the result is what allocation from the id after it gives.
pub proof fn lemma_alloc_skips_unusable(taken: Set<u32>, next: u32, tries: nat)
    requires
        tries > 0,
        next == 0 || taken.contains(next),
    ensures
        alloc_search(taken, next, tries) == alloc_search(
            taken,
            if next == 0xFFFF_FFFFu32 {
                0u32
            } else {
                (next + 1) as u32
            },
            (tries - 1) as nat,
        ),
{
}

/// Setting the focus records it in the document, if there is one, and
/// queues it for the display; nothing else of the document changes.
pub proof fn lemma_set_focus_outcome(s: MapStateView, left: i32, top: i32, width: u32, height: u32)
    ensures
        ({
            let f = MapFocus { left, top, width, height };
            let s1 = spec_change_focus(s, Some(f));
            &&& s1.pending matches Some(p) && p.focus == Some(Some(f))
            &&& s.doc is None ==> s1.doc is None
            &&& s.doc matches Some(d) ==> s1.doc matches Some(d1) && d1.focus == Some(f)
                && d1.data == d.data && d1.image == d.image && d1.format == d.format
                && d1.bgcolor == d.bgcolor && d1.hyperlinks == d.hyperlinks
            &&& s1.overlays == s.overlays
        }),
{
}

/// Clearing the focus removes it from the document, if there is one, and
/// queues a cleared focus for the display.
pub proof fn lemma_clear_focus_outcome(s: MapStateView)
    ensures
        ({
            let s1 = spec_change_focus(s, None);
            &&& s1.pending matches Some(p) && p.focus == Some(None::<MapFocus>)
            &&& s.doc is None ==> s1.doc is None
            &&& s.doc matches Some(d) ==> s1.doc matches Some(d1) && d1.focus is None && d1.data
                == d.data && d1.hyperlinks == d.hyperlinks
            &&& s1.overlays == s.overlays
        }),
{
}

/// Setting hyperlinks keeps the acceptable ones of the first 64 given, in
/// order, in the document, if there is one, and in the update queued.
pub proof fn lemma_set_hyperlinks_outcome(s: MapStateView, hyperlinks: Seq<HyperlinkView>)
    ensures
        ({
            let s1 = spec_set_hyperlinks(s, hyperlinks);
            &&& s1.pending matches Some(p) && p.hyperlinks == Some(kept_links(hyperlinks))
            &&& s.doc is None ==> s1.doc is None
            &&& s.doc matches Some(d) ==> s1.doc matches Some(d1) && d1.hyperlinks == kept_links(
                hyperlinks,
            ) && d1.focus == d.focus && d1.data == d.data
            &&& s1.overlays == s.overlays
        }),
{
    lemma_filter_links_is_kept_links(hyperlinks);
}

/// Clearing a live overlay other than 0 removes exactly it and queues its id
/// as the latest clear; any other id is refused and changes nothing.
pub proof fn lemma_overlay_clear_outcome(s: MapStateView, overlay: u32)
    ensures
        ({
            let (s1, r) = spec_overlay_clear(s, overlay);
            &&& (r == 1) == (overlay != 0 && s.overlays.contains_key(overlay))
            &&& r != 1 ==> r == 0 && s1 == s
            &&& r == 1 ==> {
                &&& !s1.overlays.contains_key(overlay)
                &&& forall|k: u32|
                    k != overlay ==> (#[trigger] s1.overlays.contains_key(k) == s.overlays.contains_key(
                        k,
                    ) && (s.overlays.contains_key(k) ==> s1.overlays[k] == s.overlays[k]))
                &&& s1.pending matches Some(p) && p.overlay_clears.len() > 0
                    && p.overlay_clears.last() == overlay
            }
        }),
{
}

/// Clearing all overlays leaves none, and the update queued asks the display
/// to clear them all with no overlay change staged after it.
pub proof fn lemma_overlay_clear_all_outcome(s: MapStateView)
    ensures
        ({
            let s1 = spec_overlay_clear_all(s);
            &&& s1.overlays.is_empty()
            &&& s1.doc == s.doc
            &&& s1.pending matches Some(p) && p.overlay_clear_all && p.overlays.len() == 0
                && p.overlay_moves.len() == 0 && p.overlay_clears.len() == 0
        }),
{
    let s1 = spec_overlay_clear_all(s);
    assert(s1.overlays =~= Map::<u32, OverlayView>::empty());
}

} // verus!
