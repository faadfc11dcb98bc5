use remglk::constants::mapcolor_Default;
use remglk::css::colour_code_to_css;
use remglk::glkapi::{GlkApi, GlkSupport, ImageInfo};
use remglk::map::{MapFormat, MapHyperlinkArg, MapState};
use remglk::protocol::{MapFocus, MapPoint};

fn api(map: bool) -> GlkApi {
    GlkApi::new(
        GlkSupport { map },
        vec![ImageInfo { image: 7, width: 100, height: 50 }],
    )
}

fn points(n: usize) -> Vec<MapPoint> {
    (0..n).map(|i| MapPoint { x: i as i32, y: -(i as i32) }).collect()
}

fn link(id: u32, n: usize) -> MapHyperlinkArg {
    MapHyperlinkArg { id, label: Some(format!("link {}", id)), points: points(n) }
}

fn presented(map: bool) -> GlkApi {
    let mut g = api(map);
    assert_eq!(g.glk_map_present_svg(b"<svg width='1'/>", mapcolor_Default, 0, 0, 0, 0, &[]), 1);
    g
}

#[test]
fn present_svg_shows_document_and_queues_it() {
    let mut g = api(true);
    let links = vec![link(1, 3), link(0, 3), link(2, 2)];
    let r = g.glk_map_present_svg(b"<svg/>", 0x123456, 5, 6, 7, 8, &links);
    assert_eq!(r, 1);
    assert_eq!(g.glk_map_get_visibility(), 1);
    let doc = g.map.doc.as_ref().unwrap();
    assert!(doc.format == MapFormat::Svg);
    assert_eq!(doc.data.as_deref(), Some("<svg/>"));
    assert_eq!(doc.bgcolor.as_deref(), Some("#123456"));
    assert_eq!(doc.focus, Some(MapFocus { left: 5, top: 6, width: 7, height: 8 }));
    assert_eq!(doc.hyperlinks.len(), 1);
    assert_eq!(doc.hyperlinks[0].id, 1);
    assert!(g.map.changed);
    let pending = g.map.pending.as_ref().unwrap();
    assert!(pending.overlay_clear_all);
    let present = pending.present.as_ref().unwrap();
    assert_eq!(present.format, "svg");
    assert_eq!(present.data.as_deref(), Some("<svg/>"));
    assert_eq!(present.hyperlinks.as_ref().unwrap().len(), 1);
}

#[test]
fn present_svg_refusals() {
    let mut unsupported = api(false);
    assert_eq!(unsupported.glk_map_present_svg(b"<svg/>", 0, 0, 0, 0, 0, &[]), 0);
    assert!(unsupported.map.pending.is_none());
    let mut g = api(true);
    assert_eq!(g.glk_map_present_svg(&[0x3C, 0x73, 0x76, 0x67, 0xFF], 0, 0, 0, 0, 0, &[]), 0);
    assert_eq!(g.glk_map_present_svg(b"<html/>", 0, 0, 0, 0, 0, &[]), 0);
    assert_eq!(g.glk_map_get_visibility(), 0);
    assert!(!g.map.changed);
    assert_eq!(g.glk_map_present_svg(b"<SVG/>", 0, 0, 0, 0, 0, &[]), 1);
    assert_eq!(g.glk_map_present_svg("é<svg>".as_bytes(), 0, 0, 0, 0, 0, &[]), 1);
}

#[test]
fn default_background_and_empty_focus() {
    let g = presented(true);
    let doc = g.map.doc.as_ref().unwrap();
    assert!(doc.bgcolor.is_none());
    assert!(doc.focus.is_none());
}

#[test]
fn present_image_needs_a_known_image() {
    let mut g = api(true);
    assert_eq!(g.glk_map_present_image(0, 0, 0, 0, 1, 1, &[]), 0);
    assert_eq!(g.glk_map_present_image(8, 0, 0, 0, 1, 1, &[]), 0);
    assert_eq!(g.glk_map_present_image(7, 0xFF0000, 0, 0, 1, 1, &[]), 1);
    let doc = g.map.doc.as_ref().unwrap();
    assert!(doc.format == MapFormat::Image);
    assert_eq!(doc.image, Some(7));
    assert_eq!(doc.bgcolor.as_deref(), Some("#FF0000"));
    let present = g.map.pending.as_ref().unwrap().present.as_ref().unwrap();
    assert_eq!(present.format, "image");
    assert_eq!(present.image, Some(7));
    let mut unsupported = api(false);
    assert_eq!(unsupported.glk_map_present_image(7, 0, 0, 0, 1, 1, &[]), 0);
}

#[test]
fn filter_hyperlinks_keeps_valid_links_of_the_first_64() {
    let mut args: Vec<MapHyperlinkArg> = (1..=70).map(|i| link(i, 3)).collect();
    args[0] = link(0, 5);
    args[1] = link(2, 2);
    args[2] = link(3, 33);
    args[3] = link(4, 32);
    let kept = MapState::filter_hyperlinks(&args);
    assert_eq!(kept.len(), 61);
    assert_eq!(kept[0].id, 4);
    assert_eq!(kept[0].points.len(), 32);
    assert_eq!(kept[0].label.as_deref(), Some("link 4"));
    assert_eq!(kept.last().unwrap().id, 64);
    assert!(kept.iter().all(|h| h.id != 0 && h.points.len() >= 3 && h.points.len() <= 32));
}

#[test]
fn overlays_need_a_document() {
    let mut g = api(true);
    assert_eq!(g.glk_map_overlay(7, 0, 0, 1, 1, 0, 0, None), 0);
    assert_eq!(g.glk_map_overlay_svg(b"<svg/>", 0, 0, 1, 1, 0, 0, None), 0);
    assert_eq!(g.glk_map_fill_rect(0, 0, 0, 1, 1, 0), 0);
    assert!(g.map.overlays.is_empty());
}

#[test]
fn overlay_ids_count_up_and_clear_removes() {
    let mut g = presented(true);
    let a = g.glk_map_overlay(7, 1, 2, 3, 4, 5, 9, Some("door".to_string()));
    let b = g.glk_map_fill_rect(0x00FF00, 0, 0, 10, 10, 1);
    assert_eq!((a, b), (1, 2));
    let ov = &g.map.overlays[&1];
    assert_eq!(ov.image, Some(7));
    assert_eq!(ov.link_id, Some(9));
    assert_eq!(ov.link_label.as_deref(), Some("door"));
    assert_eq!(g.map.overlays[&2].color.as_deref(), Some("#00FF00"));
    assert_eq!(g.map.overlays[&2].link_id, None);
    assert_eq!(g.map.pending.as_ref().unwrap().overlays.len(), 2);
    assert_eq!(g.glk_map_overlay_clear(1), 1);
    assert_eq!(g.glk_map_overlay_clear(1), 0);
    assert_eq!(g.glk_map_overlay_clear(0), 0);
    assert_eq!(g.map.pending.as_ref().unwrap().overlay_clears, vec![1]);
    assert_eq!(g.map.overlays.len(), 1);
}

#[test]
fn overlay_refusals() {
    let mut g = presented(true);
    assert_eq!(g.glk_map_overlay(0, 0, 0, 1, 1, 0, 0, None), 0);
    assert_eq!(g.glk_map_overlay(8, 0, 0, 1, 1, 0, 0, None), 0);
    assert_eq!(g.glk_map_fill_rect(0, 0, 0, 0, 1, 0), 0);
    assert_eq!(g.glk_map_fill_rect(0, 0, 0, 1, 0, 0), 0);
    assert_eq!(g.glk_map_overlay_svg(b"<rect/>", 0, 0, 1, 1, 0, 0, None), 0);
    assert_eq!(g.glk_map_overlay_svg(&[0xC0], 0, 0, 1, 1, 0, 0, None), 0);
    assert_eq!(g.glk_map_overlay_svg(b"<svg/>", 0, 0, 1, 1, 0, 3, None), 1);
    assert_eq!(g.map.overlays[&1].svg.as_deref(), Some("<svg/>"));
    assert_eq!(g.map.overlays[&1].link_id, Some(3));
}

#[test]
fn svg_overlays_stop_at_256_but_rectangles_do_not() {
    let mut g = presented(true);
    for i in 1..=256u32 {
        assert_eq!(g.glk_map_fill_rect(0, 0, 0, 1, 1, 0), i);
    }
    assert_eq!(g.glk_map_overlay_svg(b"<svg/>", 0, 0, 1, 1, 0, 0, None), 0);
    assert_eq!(g.glk_map_fill_rect(0, 0, 0, 1, 1, 0), 257);
}

#[test]
fn overlay_ids_skip_zero_when_wrapping() {
    let mut g = presented(true);
    g.map.next_overlay_id = u32::MAX;
    assert_eq!(g.glk_map_fill_rect(0, 0, 0, 1, 1, 0), u32::MAX);
    assert_eq!(g.glk_map_fill_rect(0, 0, 0, 1, 1, 0), 1);
    assert_eq!(g.map.next_overlay_id, 2);
}

#[test]
fn overlay_ids_skip_live_overlays() {
    let mut g = presented(true);
    assert_eq!(g.glk_map_fill_rect(0, 0, 0, 1, 1, 0), 1);
    assert_eq!(g.glk_map_fill_rect(0, 0, 0, 1, 1, 0), 2);
    g.map.next_overlay_id = 1;
    assert_eq!(g.glk_map_fill_rect(0, 0, 0, 1, 1, 0), 3);
}

#[test]
fn overlay_move_updates_geometry() {
    let mut g = presented(true);
    assert_eq!(g.glk_map_overlay_move(1, 0, 0, 1, 1, 0), 0);
    let id = g.glk_map_fill_rect(0xABCDEF, 1, 1, 2, 2, 3);
    assert_eq!(g.glk_map_overlay_move(id, -5, 6, 7, 8, 9), 1);
    let ov = &g.map.overlays[&id];
    assert_eq!((ov.left, ov.top, ov.width, ov.height, ov.zindex), (-5, 6, 7, 8, 9));
    assert_eq!(ov.color.as_deref(), Some("#ABCDEF"));
    let moves = &g.map.pending.as_ref().unwrap().overlay_moves;
    assert_eq!(moves.len(), 1);
    assert_eq!(moves[0].id, id);
    assert_eq!(moves[0].left, -5);
}

#[test]
fn clear_all_drops_overlays_and_staged_changes() {
    let mut g = presented(true);
    g.glk_map_fill_rect(0, 0, 0, 1, 1, 0);
    g.glk_map_overlay_clear(1);
    assert_eq!(g.glk_map_overlay_clear_all(), 1);
    assert!(g.map.overlays.is_empty());
    let pending = g.map.pending.as_ref().unwrap();
    assert!(pending.overlay_clear_all);
    assert!(pending.overlays.is_empty());
    assert!(pending.overlay_clears.is_empty());
}

#[test]
fn present_discards_staged_overlays() {
    let mut g = presented(true);
    g.glk_map_fill_rect(0, 0, 0, 1, 1, 0);
    assert_eq!(g.map.pending.as_ref().unwrap().overlays.len(), 1);
    assert_eq!(g.glk_map_present_svg(b"<svg/>", mapcolor_Default, 0, 0, 0, 0, &[]), 1);
    assert!(g.map.overlays.is_empty());
    assert!(g.map.pending.as_ref().unwrap().overlays.is_empty());
    assert_eq!(g.glk_map_fill_rect(0, 0, 0, 1, 1, 0), 2);
}

#[test]
fn close_hides_map_and_leaves_only_a_clear() {
    let mut g = presented(true);
    g.glk_map_fill_rect(0, 0, 0, 1, 1, 0);
    g.glk_request_map_event();
    g.glk_map_close();
    assert_eq!(g.glk_map_get_visibility(), 0);
    assert!(g.map.overlays.is_empty());
    assert!(!g.map.event_pending);
    let pending = g.map.pending.as_ref().unwrap();
    assert!(pending.clear);
    assert!(pending.present.is_none());
    assert!(pending.overlays.is_empty());
    assert!(!pending.overlay_clear_all);
}

#[test]
fn focus_and_hyperlinks_follow_the_document() {
    let mut g = presented(true);
    g.glk_map_set_focus(1, 2, 0, 4);
    assert_eq!(g.map.doc.as_ref().unwrap().focus, Some(MapFocus { left: 1, top: 2, width: 0, height: 4 }));
    assert_eq!(
        g.map.pending.as_ref().unwrap().focus,
        Some(Some(MapFocus { left: 1, top: 2, width: 0, height: 4 }))
    );
    g.glk_map_clear_focus();
    assert_eq!(g.map.doc.as_ref().unwrap().focus, None);
    assert_eq!(g.map.pending.as_ref().unwrap().focus, Some(None));
    g.glk_map_set_hyperlinks(&[link(5, 4), link(0, 4)]);
    assert_eq!(g.map.doc.as_ref().unwrap().hyperlinks.len(), 1);
    assert_eq!(g.map.pending.as_ref().unwrap().hyperlinks.as_ref().unwrap()[0].id, 5);
}

#[test]
fn focus_without_document_is_still_queued() {
    let mut g = api(true);
    g.glk_map_set_focus(1, 1, 1, 1);
    assert!(g.map.doc.is_none());
    assert!(g.map.changed);
    assert_eq!(g.map.pending.as_ref().unwrap().focus, Some(Some(MapFocus { left: 1, top: 1, width: 1, height: 1 })));
}

#[test]
fn map_events_need_support() {
    let mut off = api(false);
    off.glk_request_map_event();
    assert!(!off.map.event_pending);
    let mut on = api(true);
    on.glk_request_map_event();
    assert!(on.map.event_pending);
    on.glk_map_show_at_user_request();
    assert!(on.map.event_pending);
    on.glk_cancel_map_event();
    assert!(!on.map.event_pending);
}

#[test]
fn map_state_starts_empty() {
    let s = MapState::default();
    assert!(s.doc.is_none());
    assert!(s.overlays.is_empty());
    assert_eq!(s.next_overlay_id, 1);
    assert!(s.pending.is_none());
    assert!(!s.changed);
    assert!(!s.event_pending);
}

#[test]
fn image_info_lookup() {
    let g = api(true);
    assert_eq!(g.glk_image_get_info(7), Some(ImageInfo { image: 7, width: 100, height: 50 }));
    assert_eq!(g.glk_image_get_info(8), None);
}

#[test]
fn css_colours_are_padded_upper_case_hex() {
    assert_eq!(colour_code_to_css(0xABCDEF), "#ABCDEF");
    assert_eq!(colour_code_to_css(0x1A), "#00001A");
    assert_eq!(colour_code_to_css(0), "#000000");
    assert_eq!(colour_code_to_css(0x1234567), "#1234567");
    assert_eq!(colour_code_to_css(0xFEDCBA98), "#FEDCBA98");
}
