use stunts_native::frame::{plan_frame, DrawObject, DrawStep, DrawTarget, FrameState, PathObjects, TextObject};

fn obj(id: &str, hidden: bool) -> DrawObject {
    DrawObject { id: id.to_string(), hidden }
}

fn state() -> FrameState {
    FrameState {
        is_playing: false,
        motion_mode: false,
        dragging_path_handle: None,
        dragging_path: None,
        dragging_polygon: None,
        dragging_text: None,
        dragging_image: None,
        dragging_video: None,
        static_polygon_ids: vec!["canvas".to_string()],
        motion_paths: vec![PathObjects { id: "path".to_string(), polygon_ids: vec!["h1".to_string(), "h2".to_string()] }],
        polygons: vec![obj("p1", false), obj("p2", true), obj("p3", false)],
        text_items: vec![TextObject { id: "t1".to_string(), hidden: false, background_id: "tb1".to_string(), background_hidden: false }],
        image_items: vec![obj("i1", false)],
        video_items: vec![obj("v1", true)],
        motion_arrows_hidden: vec![false, true],
        resize_handle_count: 2,
        has_cursor_dot: true,
    }
}

fn step(target: DrawTarget, refresh_uniform: bool) -> DrawStep {
    DrawStep { target, refresh_uniform }
}

#[test]
fn hidden_canvas_draws_nothing() {
    assert!(plan_frame(&state(), true).is_none());
}

#[test]
fn idle_frame() {
    let plan = plan_frame(&state(), false).unwrap();
    assert_eq!(
        plan,
        vec![
            step(DrawTarget::StaticPolygon(0), false),
            step(DrawTarget::MotionPath(0), false),
            step(DrawTarget::MotionPathPolygon(0, 0), false),
            step(DrawTarget::MotionPathPolygon(0, 1), false),
            step(DrawTarget::Polygon(0), false),
            step(DrawTarget::Polygon(2), false),
            step(DrawTarget::TextBackground(0), false),
            step(DrawTarget::Text(0), false),
            step(DrawTarget::Image(0), false),
            step(DrawTarget::MotionArrow(0), false),
            step(DrawTarget::ResizeHandle(0), false),
            step(DrawTarget::ResizeHandle(1), false),
            step(DrawTarget::CursorDot, true),
        ]
    );
}

#[test]
fn dragging_a_polygon_while_playing() {
    let mut s = state();
    s.is_playing = true;
    s.dragging_polygon = Some("p3".to_string());
    s.dragging_path_handle = Some("h2".to_string());
    let plan = plan_frame(&s, false).unwrap();
    let refreshed: Vec<DrawTarget> = plan.iter().filter(|st| st.refresh_uniform).map(|st| st.target).collect();
    assert_eq!(
        refreshed,
        vec![
            DrawTarget::MotionPathPolygon(0, 1),
            DrawTarget::Polygon(2),
            DrawTarget::TextBackground(0),
            DrawTarget::Text(0),
            DrawTarget::Image(0),
            DrawTarget::ResizeHandle(0),
            DrawTarget::ResizeHandle(1),
            DrawTarget::CursorDot,
        ]
    );
}

#[test]
fn motion_mode_refreshes_arrows() {
    let mut s = state();
    s.motion_mode = true;
    let plan = plan_frame(&s, false).unwrap();
    assert!(plan.contains(&step(DrawTarget::MotionArrow(0), true)));
    assert!(!plan.iter().any(|st| st.target == DrawTarget::MotionArrow(1)));
}
