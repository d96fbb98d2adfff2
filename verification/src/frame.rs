//! What a frame of the canvas draws, in which order, and which objects get
//! their transform re-uploaded before drawing (uploads are costly, so only
//! moving objects are refreshed).

use vstd::prelude::*;

verus! {

/// An object drawn on the canvas, by id.
pub struct DrawObject {
    pub id: String,
    pub hidden: bool,
}

/// A motion path with the ids of its polygons.
pub struct PathObjects {
    pub id: String,
    pub polygon_ids: Vec<String>,
}

/// A text item with its background polygon.
pub struct TextObject {
    pub id: String,
    pub hidden: bool,
    pub background_id: String,
    pub background_hidden: bool,
}

/// What the frame depends on.
pub struct FrameState {
    pub is_playing: bool,
    pub motion_mode: bool,
    pub dragging_path_handle: Option<String>,
    pub dragging_path: Option<String>,
    pub dragging_polygon: Option<String>,
    pub dragging_text: Option<String>,
    pub dragging_image: Option<String>,
    pub dragging_video: Option<String>,
    pub static_polygon_ids: Vec<String>,
    pub motion_paths: Vec<PathObjects>,
    pub polygons: Vec<DrawObject>,
    pub text_items: Vec<TextObject>,
    pub image_items: Vec<DrawObject>,
    pub video_items: Vec<DrawObject>,
    pub motion_arrows_hidden: Vec<bool>,
    pub resize_handle_count: usize,
    pub has_cursor_dot: bool,
}

/// What a step of the frame draws; indices are positions in the
/// corresponding list of [`FrameState`]. A motion-path step only binds the
/// path's transform for the polygons that follow it.
#[derive(Clone, Copy, Debug, PartialEq, Eq, Structural)]
pub enum DrawTarget {
    StaticPolygon(usize),
    MotionPath(usize),
    MotionPathPolygon(usize, usize),
    Polygon(usize),
    TextBackground(usize),
    Text(usize),
    Image(usize),
    Video(usize),
    MotionArrow(usize),
    ResizeHandle(usize),
    CursorDot,
}

/// A step of the frame and whether the object's transform is re-uploaded first.
#[derive(Clone, Copy, Debug, PartialEq, Eq, Structural)]
pub struct DrawStep {
    pub target: DrawTarget,
    pub refresh_uniform: bool,
}

/// Whether the object `id` is the one being dragged.
pub open spec fn is_dragged(dragging: Option<String>, id: Seq<char>) -> bool {
    match dragging {
        Some(d) => d@ == id,
        None => false,
    }
}

/// Refresh rule for movable objects: the dragged one while a drag of that
/// kind is on, every one during playback otherwise.
pub open spec fn refresh_movable(dragging: Option<String>, id: Seq<char>, playing: bool) -> bool {
    match dragging {
        Some(d) => d@ == id,
        None => playing,
    }
}

/// Steps for the first `n` static polygons: always drawn, refreshed while
/// their handle is dragged.
pub open spec fn static_steps(f: FrameState, n: int) -> Seq<DrawStep>
    decreases n,
{
    if n <= 0 {
        Seq::empty()
    } else {
        static_steps(f, n - 1).push(
            DrawStep {
                target: DrawTarget::StaticPolygon((n - 1) as usize),
                refresh_uniform: is_dragged(f.dragging_path_handle, f.static_polygon_ids@[n - 1]@),
            },
        )
    }
}

/// Steps for the first `n` polygons of motion path `p`.
pub open spec fn path_polygon_steps(f: FrameState, p: int, n: int) -> Seq<DrawStep>
    decreases n,
{
    if n <= 0 {
        Seq::empty()
    } else {
        path_polygon_steps(f, p, n - 1).push(
            DrawStep {
                target: DrawTarget::MotionPathPolygon(p as usize, (n - 1) as usize),
                refresh_uniform: is_dragged(
                    f.dragging_path_handle,
                    f.motion_paths@[p].polygon_ids@[n - 1]@,
                ),
            },
        )
    }
}

/// Steps for the first `n` motion paths: each binds its transform
/// (refreshed while the path is dragged), then draws its polygons.
pub open spec fn path_steps(f: FrameState, n: int) -> Seq<DrawStep>
    decreases n,
{
    if n <= 0 {
        Seq::empty()
    } else {
        path_steps(f, n - 1).push(
            DrawStep {
                target: DrawTarget::MotionPath((n - 1) as usize),
                refresh_uniform: is_dragged(f.dragging_path, f.motion_paths@[n - 1].id@),
            },
        ) + path_polygon_steps(f, n - 1, f.motion_paths@[n - 1].polygon_ids@.len() as int)
    }
}

/// The three kinds of movable objects drawn as single polygons.
#[derive(Clone, Copy, Debug, PartialEq, Eq, Structural)]
pub enum MovableKind {
    Polygon,
    Image,
    Video,
}

pub open spec fn movable_target(kind: MovableKind, k: int) -> DrawTarget {
    match kind {
        MovableKind::Polygon => DrawTarget::Polygon(k as usize),
        MovableKind::Image => DrawTarget::Image(k as usize),
        MovableKind::Video => DrawTarget::Video(k as usize),
    }
}

/// Steps for the first `n` objects of a movable kind: the shown ones only.
pub open spec fn movable_steps(
    objs: Seq<DrawObject>,
    dragging: Option<String>,
    playing: bool,
    kind: MovableKind,
    n: int,
) -> Seq<DrawStep>
    decreases n,
{
    if n <= 0 {
        Seq::empty()
    } else {
        let prev = movable_steps(objs, dragging, playing, kind, n - 1);
        if objs[n - 1].hidden {
            prev
        } else {
            prev.push(
                DrawStep {
                    target: movable_target(kind, n - 1),
                    refresh_uniform: refresh_movable(dragging, objs[n - 1].id@, playing),
                },
            )
        }
    }
}

/// Steps for the first `n` text items: for each shown item, its background
/// when shown, then the text.
pub open spec fn text_steps(f: FrameState, n: int) -> Seq<DrawStep>
    decreases n,
{
    if n <= 0 {
        Seq::empty()
    } else {
        let prev = text_steps(f, n - 1);
        let t = f.text_items@[n - 1];
        if t.hidden {
            prev
        } else {
            let with_background = if t.background_hidden {
                prev
            } else {
                prev.push(
                    DrawStep {
                        target: DrawTarget::TextBackground((n - 1) as usize),
                        refresh_uniform: refresh_movable(
                            f.dragging_text,
                            t.background_id@,
                            f.is_playing,
                        ),
                    },
                )
            };
            with_background.push(
                DrawStep {
                    target: DrawTarget::Text((n - 1) as usize),
                    refresh_uniform: refresh_movable(f.dragging_text, t.id@, f.is_playing),
                },
            )
        }
    }
}

/// Steps for the first `n` motion arrows: the shown ones, refreshed in
/// motion mode.
pub open spec fn arrow_steps(f: FrameState, n: int) -> Seq<DrawStep>
    decreases n,
{
    if n <= 0 {
        Seq::empty()
    } else {
        let prev = arrow_steps(f, n - 1);
        if f.motion_arrows_hidden@[n - 1] {
            prev
        } else {
            prev.push(
                DrawStep { target: DrawTarget::MotionArrow((n - 1) as usize), refresh_uniform: f.motion_mode },
            )
        }
    }
}

/// Whether any object is being dragged (resize handles follow it).
pub open spec fn any_object_dragged(f: FrameState) -> bool {
    f.dragging_polygon is Some || f.dragging_text is Some || f.dragging_video is Some
        || f.dragging_image is Some
}

/// Steps for the first `n` resize handles, drawn on top of everything.
pub open spec fn handle_steps(f: FrameState, n: int) -> Seq<DrawStep>
    decreases n,
{
    if n <= 0 {
        Seq::empty()
    } else {
        handle_steps(f, n - 1).push(
            DrawStep {
                target: DrawTarget::ResizeHandle((n - 1) as usize),
                refresh_uniform: any_object_dragged(f),
            },
        )
    }
}

/// The cursor dot, always refreshed, if there is one.
pub open spec fn cursor_steps(f: FrameState) -> Seq<DrawStep> {
    if f.has_cursor_dot {
        seq![DrawStep { target: DrawTarget::CursorDot, refresh_uniform: true }]
    } else {
        Seq::empty()
    }
}

/// The whole frame: static polygons, motion paths, polygons, text items,
/// images, videos, motion arrows, resize handles, cursor dot.
pub open spec fn frame_steps(f: FrameState) -> Seq<DrawStep> {
    static_steps(f, f.static_polygon_ids@.len() as int) + path_steps(f, f.motion_paths@.len() as int)
        + movable_steps(f.polygons@, f.dragging_polygon, f.is_playing, MovableKind::Polygon, f.polygons@.len() as int)
        + text_steps(f, f.text_items@.len() as int)
        + movable_steps(f.image_items@, f.dragging_image, f.is_playing, MovableKind::Image, f.image_items@.len() as int)
        + movable_steps(f.video_items@, f.dragging_video, f.is_playing, MovableKind::Video, f.video_items@.len() as int)
        + arrow_steps(f, f.motion_arrows_hidden@.len() as int) + handle_steps(f, f.resize_handle_count as int)
        + cursor_steps(f)
}

fn dragged(dragging: &Option<String>, id: &String) -> (b: bool)
    ensures
        b == is_dragged(*dragging, id@),
{
    match dragging {
        Some(d) => *d == *id,
        None => false,
    }
}

fn movable_refresh(dragging: &Option<String>, id: &String, playing: bool) -> (b: bool)
    ensures
        b == refresh_movable(*dragging, id@, playing),
{
    match dragging {
        Some(d) => *d == *id,
        None => playing,
    }
}

fn push_movable_steps(
    out: &mut Vec<DrawStep>,
    objs: &Vec<DrawObject>,
    dragging: &Option<String>,
    playing: bool,
    kind: MovableKind,
)
    ensures
        final(out)@ == old(out)@ + movable_steps(objs@, *dragging, playing, kind, objs@.len() as int),
{
    let ghost start = out@;
    let mut k: usize = 0;
    while k < objs.len()
        invariant
            k <= objs@.len(),
            out@ == start + movable_steps(objs@, *dragging, playing, kind, k as int),
        decreases objs@.len() - k,
    {
        if !objs[k].hidden {
            let target = match kind {
                MovableKind::Polygon => DrawTarget::Polygon(k),
                MovableKind::Image => DrawTarget::Image(k),
                MovableKind::Video => DrawTarget::Video(k),
            };
            let refresh_uniform = movable_refresh(dragging, &objs[k].id, playing);
            out.push(DrawStep { target, refresh_uniform });
        }
        proof {
            let prev = movable_steps(objs@, *dragging, playing, kind, k as int);
            if !objs@[k as int].hidden {
                assert(start + prev.push(
                    DrawStep {
                        target: movable_target(kind, k as int),
                        refresh_uniform: refresh_movable(*dragging, objs@[k as int].id@, playing),
                    },
                ) =~= (start + prev).push(
                    DrawStep {
                        target: movable_target(kind, k as int),
                        refresh_uniform: refresh_movable(*dragging, objs@[k as int].id@, playing),
                    },
                ));
            }
        }
        k = k + 1;
    }
}

/// The steps of a frame, in drawing order; `None` while the canvas is
/// hidden, in which case nothing is drawn.
pub fn plan_frame(f: &FrameState, canvas_hidden: bool) -> (plan: Option<Vec<DrawStep>>)
    ensures
        canvas_hidden ==> plan is None,
        !canvas_hidden ==> plan is Some && plan->0@ == frame_steps(*f),
{
    if canvas_hidden {
        return None;
    }
    let mut out: Vec<DrawStep> = Vec::new();
    let mut k: usize = 0;
    while k < f.static_polygon_ids.len()
        invariant
            k <= f.static_polygon_ids@.len(),
            out@ == static_steps(*f, k as int),
        decreases f.static_polygon_ids@.len() - k,
    {
        let refresh_uniform = dragged(&f.dragging_path_handle, &f.static_polygon_ids[k]);
        out.push(DrawStep { target: DrawTarget::StaticPolygon(k), refresh_uniform });
        k = k + 1;
    }
    let ghost after_static = out@;
    let mut p: usize = 0;
    while p < f.motion_paths.len()
        invariant
            p <= f.motion_paths@.len(),
            after_static == static_steps(*f, f.static_polygon_ids@.len() as int),
            out@ == after_static + path_steps(*f, p as int),
        decreases f.motion_paths@.len() - p,
    {
        let path = &f.motion_paths[p];
        let refresh_uniform = dragged(&f.dragging_path, &path.id);
        out.push(DrawStep { target: DrawTarget::MotionPath(p), refresh_uniform });
        let ghost with_path = out@;
        let mut q: usize = 0;
        while q < path.polygon_ids.len()
            invariant
                q <= path.polygon_ids@.len(),
                *path == f.motion_paths@[p as int],
                out@ == with_path + path_polygon_steps(*f, p as int, q as int),
            decreases path.polygon_ids@.len() - q,
        {
            let refresh_uniform = dragged(&f.dragging_path_handle, &path.polygon_ids[q]);
            out.push(DrawStep { target: DrawTarget::MotionPathPolygon(p, q), refresh_uniform });
            proof {
                assert(with_path + path_polygon_steps(*f, p as int, q as int + 1) =~= (with_path
                    + path_polygon_steps(*f, p as int, q as int)).push(
                    DrawStep {
                        target: DrawTarget::MotionPathPolygon(p, q),
                        refresh_uniform: is_dragged(
                            f.dragging_path_handle,
                            f.motion_paths@[p as int].polygon_ids@[q as int]@,
                        ),
                    },
                ));
            }
            q = q + 1;
        }
        proof {
            assert(after_static + path_steps(*f, p as int + 1) =~= with_path + path_polygon_steps(
                *f,
                p as int,
                path.polygon_ids@.len() as int,
            ));
        }
        p = p + 1;
    }
    push_movable_steps(&mut out, &f.polygons, &f.dragging_polygon, f.is_playing, MovableKind::Polygon);
    let ghost before_text = out@;
    let mut t: usize = 0;
    while t < f.text_items.len()
        invariant
            t <= f.text_items@.len(),
            out@ == before_text + text_steps(*f, t as int),
        decreases f.text_items@.len() - t,
    {
        let item = &f.text_items[t];
        let ghost prev = out@;
        if !item.hidden {
            if !item.background_hidden {
                let refresh_uniform = movable_refresh(&f.dragging_text, &item.background_id, f.is_playing);
                out.push(DrawStep { target: DrawTarget::TextBackground(t), refresh_uniform });
            }
            let refresh_uniform = movable_refresh(&f.dragging_text, &item.id, f.is_playing);
            out.push(DrawStep { target: DrawTarget::Text(t), refresh_uniform });
        }
        proof {
            let ts = text_steps(*f, t as int);
            let it = f.text_items@[t as int];
            assert(*item == it);
            if !it.hidden {
                let bg = DrawStep {
                    target: DrawTarget::TextBackground(t),
                    refresh_uniform: refresh_movable(f.dragging_text, it.background_id@, f.is_playing),
                };
                let tx = DrawStep {
                    target: DrawTarget::Text(t),
                    refresh_uniform: refresh_movable(f.dragging_text, it.id@, f.is_playing),
                };
                if it.background_hidden {
                    assert(before_text + ts.push(tx) =~= (before_text + ts).push(tx));
                } else {
                    assert(before_text + ts.push(bg).push(tx) =~= (before_text + ts).push(bg).push(tx));
                }
            }
        }
        t = t + 1;
    }
    push_movable_steps(&mut out, &f.image_items, &f.dragging_image, f.is_playing, MovableKind::Image);
    push_movable_steps(&mut out, &f.video_items, &f.dragging_video, f.is_playing, MovableKind::Video);
    let ghost before_arrows = out@;
    let mut a: usize = 0;
    while a < f.motion_arrows_hidden.len()
        invariant
            a <= f.motion_arrows_hidden@.len(),
            out@ == before_arrows + arrow_steps(*f, a as int),
        decreases f.motion_arrows_hidden@.len() - a,
    {
        if !f.motion_arrows_hidden[a] {
            out.push(DrawStep { target: DrawTarget::MotionArrow(a), refresh_uniform: f.motion_mode });
            proof {
                let prev = arrow_steps(*f, a as int);
                let st = DrawStep { target: DrawTarget::MotionArrow(a), refresh_uniform: f.motion_mode };
                assert(before_arrows + prev.push(st) =~= (before_arrows + prev).push(st));
            }
        }
        a = a + 1;
    }
    let any_drag = f.dragging_polygon.is_some() || f.dragging_text.is_some() || f.dragging_video.is_some()
        || f.dragging_image.is_some();
    let ghost before_handles = out@;
    let mut h: usize = 0;
    while h < f.resize_handle_count
        invariant
            h <= f.resize_handle_count,
            any_drag == any_object_dragged(*f),
            out@ == before_handles + handle_steps(*f, h as int),
        decreases f.resize_handle_count - h,
    {
        out.push(DrawStep { target: DrawTarget::ResizeHandle(h), refresh_uniform: any_drag });
        proof {
            let prev = handle_steps(*f, h as int);
            let st = DrawStep { target: DrawTarget::ResizeHandle(h), refresh_uniform: any_drag };
            assert(before_handles + prev.push(st) =~= (before_handles + prev).push(st));
        }
        h = h + 1;
    }
    if f.has_cursor_dot {
        out.push(DrawStep { target: DrawTarget::CursorDot, refresh_uniform: true });
    }
    assert(out@ =~= frame_steps(*f));
    Some(out)
}

/// Whether every step of `s` satisfies `p`.
pub open spec fn all_steps(s: Seq<DrawStep>, p: spec_fn(DrawStep) -> bool) -> bool {
    forall|i: int| 0 <= i < s.len() ==> #[trigger] p(s[i])
}

proof fn lemma_all_steps_concat(a: Seq<DrawStep>, b: Seq<DrawStep>, p: spec_fn(DrawStep) -> bool)
    requires
        all_steps(a, p),
        all_steps(b, p),
    ensures
        all_steps(a + b, p),
{
    assert forall|i: int| 0 <= i < (a + b).len() implies #[trigger] p((a + b)[i]) by {
        if i < a.len() {
            assert((a + b)[i] == a[i]);
        } else {
            assert((a + b)[i] == b[i - a.len()]);
        }
    }
}

proof fn lemma_all_steps_push(a: Seq<DrawStep>, x: DrawStep, p: spec_fn(DrawStep) -> bool)
    requires
        all_steps(a, p),
        p(x),
    ensures
        all_steps(a.push(x), p),
{
    assert forall|i: int| 0 <= i < a.push(x).len() implies #[trigger] p(a.push(x)[i]) by {
        if i < a.len() {
            assert(a.push(x)[i] == a[i]);
        }
    }
}

/// Whether nothing moves: no drag of any kind, no playback, no motion mode.
pub open spec fn is_idle(f: FrameState) -> bool {
    &&& f.dragging_path_handle is None
    &&& f.dragging_path is None
    &&& f.dragging_polygon is None
    &&& f.dragging_text is None
    &&& f.dragging_image is None
    &&& f.dragging_video is None
    &&& !f.is_playing
    &&& !f.motion_mode
}

/// Steps that re-upload nothing.
pub open spec fn no_refresh() -> spec_fn(DrawStep) -> bool {
    |st: DrawStep| !st.refresh_uniform
}

proof fn lemma_idle_static(f: FrameState, n: int)
    requires
        is_idle(f),
    ensures
        all_steps(static_steps(f, n), no_refresh()),
    decreases n,
{
    if n > 0 {
        lemma_idle_static(f, n - 1);
        lemma_all_steps_push(static_steps(f, n - 1), static_steps(f, n).last(), no_refresh());
    }
}

proof fn lemma_idle_path_polygons(f: FrameState, p: int, n: int)
    requires
        is_idle(f),
    ensures
        all_steps(path_polygon_steps(f, p, n), no_refresh()),
    decreases n,
{
    if n > 0 {
        lemma_idle_path_polygons(f, p, n - 1);
        lemma_all_steps_push(path_polygon_steps(f, p, n - 1), path_polygon_steps(f, p, n).last(), no_refresh());
    }
}

proof fn lemma_idle_paths(f: FrameState, n: int)
    requires
        is_idle(f),
    ensures
        all_steps(path_steps(f, n), no_refresh()),
    decreases n,
{
    if n > 0 {
        lemma_idle_paths(f, n - 1);
        let st = DrawStep {
            target: DrawTarget::MotionPath((n - 1) as usize),
            refresh_uniform: is_dragged(f.dragging_path, f.motion_paths@[n - 1].id@),
        };
        lemma_all_steps_push(path_steps(f, n - 1), st, no_refresh());
        lemma_idle_path_polygons(f, n - 1, f.motion_paths@[n - 1].polygon_ids@.len() as int);
        lemma_all_steps_concat(
            path_steps(f, n - 1).push(st),
            path_polygon_steps(f, n - 1, f.motion_paths@[n - 1].polygon_ids@.len() as int),
            no_refresh(),
        );
    }
}

proof fn lemma_idle_movable(objs: Seq<DrawObject>, kind: MovableKind, n: int)
    ensures
        all_steps(movable_steps(objs, None, false, kind, n), no_refresh()),
    decreases n,
{
    if n > 0 {
        lemma_idle_movable(objs, kind, n - 1);
        if !objs[n - 1].hidden {
            lemma_all_steps_push(
                movable_steps(objs, None, false, kind, n - 1),
                movable_steps(objs, None, false, kind, n).last(),
                no_refresh(),
            );
        }
    }
}

proof fn lemma_idle_text(f: FrameState, n: int)
    requires
        is_idle(f),
    ensures
        all_steps(text_steps(f, n), no_refresh()),
    decreases n,
{
    if n > 0 {
        lemma_idle_text(f, n - 1);
        let prev = text_steps(f, n - 1);
        let t = f.text_items@[n - 1];
        if !t.hidden {
            let bg = DrawStep {
                target: DrawTarget::TextBackground((n - 1) as usize),
                refresh_uniform: refresh_movable(f.dragging_text, t.background_id@, f.is_playing),
            };
            let tx = DrawStep {
                target: DrawTarget::Text((n - 1) as usize),
                refresh_uniform: refresh_movable(f.dragging_text, t.id@, f.is_playing),
            };
            lemma_all_steps_push(prev, bg, no_refresh());
            if t.background_hidden {
                lemma_all_steps_push(prev, tx, no_refresh());
            } else {
                lemma_all_steps_push(prev.push(bg), tx, no_refresh());
            }
        }
    }
}

proof fn lemma_idle_arrows(f: FrameState, n: int)
    requires
        is_idle(f),
    ensures
        all_steps(arrow_steps(f, n), no_refresh()),
    decreases n,
{
    if n > 0 {
        lemma_idle_arrows(f, n - 1);
        if !f.motion_arrows_hidden@[n - 1] {
            lemma_all_steps_push(arrow_steps(f, n - 1), arrow_steps(f, n).last(), no_refresh());
        }
    }
}

proof fn lemma_idle_handles(f: FrameState, n: int)
    requires
        is_idle(f),
    ensures
        all_steps(handle_steps(f, n), no_refresh()),
    decreases n,
{
    if n > 0 {
        lemma_idle_handles(f, n - 1);
        lemma_all_steps_push(handle_steps(f, n - 1), handle_steps(f, n).last(), no_refresh());
    }
}

/// Transforms are re-uploaded only when something moves: in an idle frame
/// the cursor dot, if any, is the only object refreshed, and it is the last
/// step.
pub proof fn lemma_idle_frame_refreshes_only_cursor(f: FrameState)
    requires
        is_idle(f),
    ensures
        forall|i: int|
            0 <= i < frame_steps(f).len() && (#[trigger] frame_steps(f)[i]).refresh_uniform ==> i
                == frame_steps(f).len() - 1 && frame_steps(f)[i].target == DrawTarget::CursorDot,
{
    let a = static_steps(f, f.static_polygon_ids@.len() as int);
    let b = path_steps(f, f.motion_paths@.len() as int);
    let c = movable_steps(f.polygons@, f.dragging_polygon, f.is_playing, MovableKind::Polygon, f.polygons@.len() as int);
    let d = text_steps(f, f.text_items@.len() as int);
    let e = movable_steps(f.image_items@, f.dragging_image, f.is_playing, MovableKind::Image, f.image_items@.len() as int);
    let g = movable_steps(f.video_items@, f.dragging_video, f.is_playing, MovableKind::Video, f.video_items@.len() as int);
    let h = arrow_steps(f, f.motion_arrows_hidden@.len() as int);
    let k = handle_steps(f, f.resize_handle_count as int);
    lemma_idle_static(f, f.static_polygon_ids@.len() as int);
    lemma_idle_paths(f, f.motion_paths@.len() as int);
    lemma_idle_movable(f.polygons@, MovableKind::Polygon, f.polygons@.len() as int);
    lemma_idle_text(f, f.text_items@.len() as int);
    lemma_idle_movable(f.image_items@, MovableKind::Image, f.image_items@.len() as int);
    lemma_idle_movable(f.video_items@, MovableKind::Video, f.video_items@.len() as int);
    lemma_idle_arrows(f, f.motion_arrows_hidden@.len() as int);
    lemma_idle_handles(f, f.resize_handle_count as int);
    lemma_all_steps_concat(a, b, no_refresh());
    lemma_all_steps_concat(a + b, c, no_refresh());
    lemma_all_steps_concat(a + b + c, d, no_refresh());
    lemma_all_steps_concat(a + b + c + d, e, no_refresh());
    lemma_all_steps_concat(a + b + c + d + e, g, no_refresh());
    lemma_all_steps_concat(a + b + c + d + e + g, h, no_refresh());
    lemma_all_steps_concat(a + b + c + d + e + g + h, k, no_refresh());
    let body = a + b + c + d + e + g + h + k;
    assert(frame_steps(f) == body + cursor_steps(f));
    assert forall|i: int|
        0 <= i < frame_steps(f).len() && (#[trigger] frame_steps(f)[i]).refresh_uniform implies i
            == frame_steps(f).len() - 1 && frame_steps(f)[i].target == DrawTarget::CursorDot by {
        if i < body.len() {
            assert(frame_steps(f)[i] == body[i]);
            assert(no_refresh()(body[i]));
        } else {
            assert(frame_steps(f)[i] == cursor_steps(f)[i - body.len()]);
        }
    }
}

/// Whether a step draws only an object that is shown.
pub open spec fn draws_shown(f: FrameState) -> spec_fn(DrawStep) -> bool {
    |st: DrawStep| match st.target {
        DrawTarget::Polygon(k) => !f.polygons@[k as int].hidden,
        DrawTarget::Image(k) => !f.image_items@[k as int].hidden,
        DrawTarget::Video(k) => !f.video_items@[k as int].hidden,
        DrawTarget::Text(k) => !f.text_items@[k as int].hidden,
        DrawTarget::TextBackground(k) => !f.text_items@[k as int].hidden
            && !f.text_items@[k as int].background_hidden,
        DrawTarget::MotionArrow(k) => !f.motion_arrows_hidden@[k as int],
        _ => true,
    }
}

proof fn lemma_shown_static(f: FrameState, n: int)
    ensures
        all_steps(static_steps(f, n), draws_shown(f)),
    decreases n,
{
    if n > 0 {
        lemma_shown_static(f, n - 1);
        lemma_all_steps_push(static_steps(f, n - 1), static_steps(f, n).last(), draws_shown(f));
    }
}

proof fn lemma_shown_path_polygons(f: FrameState, p: int, n: int)
    ensures
        all_steps(path_polygon_steps(f, p, n), draws_shown(f)),
    decreases n,
{
    if n > 0 {
        lemma_shown_path_polygons(f, p, n - 1);
        lemma_all_steps_push(path_polygon_steps(f, p, n - 1), path_polygon_steps(f, p, n).last(), draws_shown(f));
    }
}

proof fn lemma_shown_paths(f: FrameState, n: int)
    ensures
        all_steps(path_steps(f, n), draws_shown(f)),
    decreases n,
{
    if n > 0 {
        lemma_shown_paths(f, n - 1);
        let st = DrawStep {
            target: DrawTarget::MotionPath((n - 1) as usize),
            refresh_uniform: is_dragged(f.dragging_path, f.motion_paths@[n - 1].id@),
        };
        lemma_all_steps_push(path_steps(f, n - 1), st, draws_shown(f));
        lemma_shown_path_polygons(f, n - 1, f.motion_paths@[n - 1].polygon_ids@.len() as int);
        lemma_all_steps_concat(
            path_steps(f, n - 1).push(st),
            path_polygon_steps(f, n - 1, f.motion_paths@[n - 1].polygon_ids@.len() as int),
            draws_shown(f),
        );
    }
}

proof fn lemma_shown_movable(
    f: FrameState,
    objs: Seq<DrawObject>,
    dragging: Option<String>,
    kind: MovableKind,
    n: int,
)
    requires
        n <= objs.len() <= usize::MAX,
        kind == MovableKind::Polygon ==> objs == f.polygons@,
        kind == MovableKind::Image ==> objs == f.image_items@,
        kind == MovableKind::Video ==> objs == f.video_items@,
    ensures
        all_steps(movable_steps(objs, dragging, f.is_playing, kind, n), draws_shown(f)),
    decreases n,
{
    if n > 0 {
        lemma_shown_movable(f, objs, dragging, kind, n - 1);
        if !objs[n - 1].hidden {
            let st = movable_steps(objs, dragging, f.is_playing, kind, n).last();
            assert(((n - 1) as usize) as int == n - 1);
            assert(draws_shown(f)(st));
            lemma_all_steps_push(movable_steps(objs, dragging, f.is_playing, kind, n - 1), st, draws_shown(f));
        }
    }
}

proof fn lemma_shown_text(f: FrameState, n: int)
    requires
        n <= f.text_items@.len() <= usize::MAX,
    ensures
        all_steps(text_steps(f, n), draws_shown(f)),
    decreases n,
{
    if n > 0 {
        lemma_shown_text(f, n - 1);
        let prev = text_steps(f, n - 1);
        let t = f.text_items@[n - 1];
        assert(((n - 1) as usize) as int == n - 1);
        if !t.hidden {
            let bg = DrawStep {
                target: DrawTarget::TextBackground((n - 1) as usize),
                refresh_uniform: refresh_movable(f.dragging_text, t.background_id@, f.is_playing),
            };
            let tx = DrawStep {
                target: DrawTarget::Text((n - 1) as usize),
                refresh_uniform: refresh_movable(f.dragging_text, t.id@, f.is_playing),
            };
            if t.background_hidden {
                lemma_all_steps_push(prev, tx, draws_shown(f));
            } else {
                lemma_all_steps_push(prev, bg, draws_shown(f));
                lemma_all_steps_push(prev.push(bg), tx, draws_shown(f));
            }
        }
    }
}

proof fn lemma_shown_arrows(f: FrameState, n: int)
    requires
        n <= f.motion_arrows_hidden@.len() <= usize::MAX,
    ensures
        all_steps(arrow_steps(f, n), draws_shown(f)),
    decreases n,
{
    if n > 0 {
        lemma_shown_arrows(f, n - 1);
        assert(((n - 1) as usize) as int == n - 1);
        if !f.motion_arrows_hidden@[n - 1] {
            lemma_all_steps_push(arrow_steps(f, n - 1), arrow_steps(f, n).last(), draws_shown(f));
        }
    }
}

proof fn lemma_shown_handles(f: FrameState, n: int)
    ensures
        all_steps(handle_steps(f, n), draws_shown(f)),
    decreases n,
{
    if n > 0 {
        lemma_shown_handles(f, n - 1);
        lemma_all_steps_push(handle_steps(f, n - 1), handle_steps(f, n).last(), draws_shown(f));
    }
}

/// Hidden objects are never drawn: every polygon, text item, text
/// background, image, video and motion arrow the frame draws is shown.
pub proof fn lemma_frame_draws_only_shown(f: FrameState)
    requires
        f.polygons@.len() <= usize::MAX,
        f.text_items@.len() <= usize::MAX,
        f.image_items@.len() <= usize::MAX,
        f.video_items@.len() <= usize::MAX,
        f.motion_arrows_hidden@.len() <= usize::MAX,
    ensures
        all_steps(frame_steps(f), draws_shown(f)),
{
    let p = draws_shown(f);
    let a = static_steps(f, f.static_polygon_ids@.len() as int);
    let b = path_steps(f, f.motion_paths@.len() as int);
    let c = movable_steps(f.polygons@, f.dragging_polygon, f.is_playing, MovableKind::Polygon, f.polygons@.len() as int);
    let d = text_steps(f, f.text_items@.len() as int);
    let e = movable_steps(f.image_items@, f.dragging_image, f.is_playing, MovableKind::Image, f.image_items@.len() as int);
    let g = movable_steps(f.video_items@, f.dragging_video, f.is_playing, MovableKind::Video, f.video_items@.len() as int);
    let h = arrow_steps(f, f.motion_arrows_hidden@.len() as int);
    let k = handle_steps(f, f.resize_handle_count as int);
    lemma_shown_static(f, f.static_polygon_ids@.len() as int);
    lemma_shown_paths(f, f.motion_paths@.len() as int);
    lemma_shown_movable(f, f.polygons@, f.dragging_polygon, MovableKind::Polygon, f.polygons@.len() as int);
    lemma_shown_text(f, f.text_items@.len() as int);
    lemma_shown_movable(f, f.image_items@, f.dragging_image, MovableKind::Image, f.image_items@.len() as int);
    lemma_shown_movable(f, f.video_items@, f.dragging_video, MovableKind::Video, f.video_items@.len() as int);
    lemma_shown_arrows(f, f.motion_arrows_hidden@.len() as int);
    lemma_shown_handles(f, f.resize_handle_count as int);
    lemma_all_steps_concat(a, b, p);
    lemma_all_steps_concat(a + b, c, p);
    lemma_all_steps_concat(a + b + c, d, p);
    lemma_all_steps_concat(a + b + c + d, e, p);
    lemma_all_steps_concat(a + b + c + d + e, g, p);
    lemma_all_steps_concat(a + b + c + d + e + g, h, p);
    lemma_all_steps_concat(a + b + c + d + e + g + h, k, p);
    assert(p(DrawStep { target: DrawTarget::CursorDot, refresh_uniform: true }));
    assert(all_steps(cursor_steps(f), p));
    lemma_all_steps_concat(a + b + c + d + e + g + h + k, cursor_steps(f), p);
}

/// Whether a step re-uploads exactly the transforms the editor re-uploads
/// for its target.
spec fn refresh_as_expected(f: FrameState) -> spec_fn(DrawStep) -> bool {
    |st: DrawStep| st.refresh_uniform == match st.target {
        DrawTarget::StaticPolygon(k) => match f.dragging_path_handle {
            Some(d) => d@ == f.static_polygon_ids@[k as int]@,
            None => false,
        },
        DrawTarget::MotionPath(p) => match f.dragging_path {
            Some(d) => d@ == f.motion_paths@[p as int].id@,
            None => false,
        },
        DrawTarget::MotionPathPolygon(p, q) => match f.dragging_path_handle {
            Some(d) => d@ == f.motion_paths@[p as int].polygon_ids@[q as int]@,
            None => false,
        },
        DrawTarget::Polygon(k) => match f.dragging_polygon {
            Some(d) => d@ == f.polygons@[k as int].id@,
            None => f.is_playing,
        },
        DrawTarget::TextBackground(k) => match f.dragging_text {
            Some(d) => d@ == f.text_items@[k as int].background_id@,
            None => f.is_playing,
        },
        DrawTarget::Text(k) => match f.dragging_text {
            Some(d) => d@ == f.text_items@[k as int].id@,
            None => f.is_playing,
        },
        DrawTarget::Image(k) => match f.dragging_image {
            Some(d) => d@ == f.image_items@[k as int].id@,
            None => f.is_playing,
        },
        DrawTarget::Video(k) => match f.dragging_video {
            Some(d) => d@ == f.video_items@[k as int].id@,
            None => f.is_playing,
        },
        DrawTarget::MotionArrow(_) => f.motion_mode,
        DrawTarget::ResizeHandle(_) => f.dragging_polygon is Some || f.dragging_text is Some
            || f.dragging_video is Some || f.dragging_image is Some,
        DrawTarget::CursorDot => true,
    }
}

proof fn lemma_refresh_static(f: FrameState, n: int)
    requires
        n <= f.static_polygon_ids@.len() <= usize::MAX,
    ensures
        all_steps(static_steps(f, n), refresh_as_expected(f)),
    decreases n,
{
    if n > 0 {
        lemma_refresh_static(f, n - 1);
        assert(((n - 1) as usize) as int == n - 1);
        lemma_all_steps_push(static_steps(f, n - 1), static_steps(f, n).last(), refresh_as_expected(f));
    }
}

proof fn lemma_refresh_path_polygons(f: FrameState, p: int, n: int)
    requires
        0 <= p < f.motion_paths@.len() <= usize::MAX,
        n <= f.motion_paths@[p].polygon_ids@.len() <= usize::MAX,
    ensures
        all_steps(path_polygon_steps(f, p, n), refresh_as_expected(f)),
    decreases n,
{
    if n > 0 {
        lemma_refresh_path_polygons(f, p, n - 1);
        assert(((n - 1) as usize) as int == n - 1);
        assert((p as usize) as int == p);
        lemma_all_steps_push(
            path_polygon_steps(f, p, n - 1),
            path_polygon_steps(f, p, n).last(),
            refresh_as_expected(f),
        );
    }
}

proof fn lemma_refresh_paths(f: FrameState, n: int)
    requires
        n <= f.motion_paths@.len() <= usize::MAX,
        forall|p: int|
            0 <= p < f.motion_paths@.len() ==> (#[trigger] f.motion_paths@[p]).polygon_ids@.len() <= usize::MAX,
    ensures
        all_steps(path_steps(f, n), refresh_as_expected(f)),
    decreases n,
{
    if n > 0 {
        lemma_refresh_paths(f, n - 1);
        assert(((n - 1) as usize) as int == n - 1);
        let st = DrawStep {
            target: DrawTarget::MotionPath((n - 1) as usize),
            refresh_uniform: is_dragged(f.dragging_path, f.motion_paths@[n - 1].id@),
        };
        lemma_all_steps_push(path_steps(f, n - 1), st, refresh_as_expected(f));
        lemma_refresh_path_polygons(f, n - 1, f.motion_paths@[n - 1].polygon_ids@.len() as int);
        lemma_all_steps_concat(
            path_steps(f, n - 1).push(st),
            path_polygon_steps(f, n - 1, f.motion_paths@[n - 1].polygon_ids@.len() as int),
            refresh_as_expected(f),
        );
    }
}

proof fn lemma_refresh_movable(
    f: FrameState,
    objs: Seq<DrawObject>,
    dragging: Option<String>,
    kind: MovableKind,
    n: int,
)
    requires
        n <= objs.len() <= usize::MAX,
        kind == MovableKind::Polygon ==> objs == f.polygons@ && dragging == f.dragging_polygon,
        kind == MovableKind::Image ==> objs == f.image_items@ && dragging == f.dragging_image,
        kind == MovableKind::Video ==> objs == f.video_items@ && dragging == f.dragging_video,
    ensures
        all_steps(movable_steps(objs, dragging, f.is_playing, kind, n), refresh_as_expected(f)),
    decreases n,
{
    if n > 0 {
        lemma_refresh_movable(f, objs, dragging, kind, n - 1);
        if !objs[n - 1].hidden {
            let st = movable_steps(objs, dragging, f.is_playing, kind, n).last();
            assert(((n - 1) as usize) as int == n - 1);
            assert(refresh_as_expected(f)(st));
            lemma_all_steps_push(
                movable_steps(objs, dragging, f.is_playing, kind, n - 1),
                st,
                refresh_as_expected(f),
            );
        }
    }
}

proof fn lemma_refresh_text(f: FrameState, n: int)
    requires
        n <= f.text_items@.len() <= usize::MAX,
    ensures
        all_steps(text_steps(f, n), refresh_as_expected(f)),
    decreases n,
{
    if n > 0 {
        lemma_refresh_text(f, n - 1);
        let prev = text_steps(f, n - 1);
        let t = f.text_items@[n - 1];
        assert(((n - 1) as usize) as int == n - 1);
        if !t.hidden {
            let bg = DrawStep {
                target: DrawTarget::TextBackground((n - 1) as usize),
                refresh_uniform: refresh_movable(f.dragging_text, t.background_id@, f.is_playing),
            };
            let tx = DrawStep {
                target: DrawTarget::Text((n - 1) as usize),
                refresh_uniform: refresh_movable(f.dragging_text, t.id@, f.is_playing),
            };
            assert(refresh_as_expected(f)(tx));
            if t.background_hidden {
                lemma_all_steps_push(prev, tx, refresh_as_expected(f));
            } else {
                assert(refresh_as_expected(f)(bg));
                lemma_all_steps_push(prev, bg, refresh_as_expected(f));
                lemma_all_steps_push(prev.push(bg), tx, refresh_as_expected(f));
            }
        }
    }
}

proof fn lemma_refresh_arrows(f: FrameState, n: int)
    ensures
        all_steps(arrow_steps(f, n), refresh_as_expected(f)),
    decreases n,
{
    if n > 0 {
        lemma_refresh_arrows(f, n - 1);
        if !f.motion_arrows_hidden@[n - 1] {
            lemma_all_steps_push(arrow_steps(f, n - 1), arrow_steps(f, n).last(), refresh_as_expected(f));
        }
    }
}

proof fn lemma_refresh_handles(f: FrameState, n: int)
    ensures
        all_steps(handle_steps(f, n), refresh_as_expected(f)),
    decreases n,
{
    if n > 0 {
        lemma_refresh_handles(f, n - 1);
        lemma_all_steps_push(handle_steps(f, n - 1), handle_steps(f, n).last(), refresh_as_expected(f));
    }
}

proof fn lemma_frame_lengths_fit(f: FrameState)
    ensures
        f.static_polygon_ids@.len() <= usize::MAX,
        f.motion_paths@.len() <= usize::MAX,
        forall|p: int|
            0 <= p < f.motion_paths@.len() ==> (#[trigger] f.motion_paths@[p]).polygon_ids@.len() <= usize::MAX,
        f.polygons@.len() <= usize::MAX,
        f.text_items@.len() <= usize::MAX,
        f.image_items@.len() <= usize::MAX,
        f.video_items@.len() <= usize::MAX,
        f.motion_arrows_hidden@.len() <= usize::MAX,
{
    assert(f.static_polygon_ids.len() == f.static_polygon_ids@.len());
    assert(f.motion_paths.len() == f.motion_paths@.len());
    assert(f.polygons.len() == f.polygons@.len());
    assert(f.text_items.len() == f.text_items@.len());
    assert(f.image_items.len() == f.image_items@.len());
    assert(f.video_items.len() == f.video_items@.len());
    assert(f.motion_arrows_hidden.len() == f.motion_arrows_hidden@.len());
    assert forall|p: int|
        0 <= p < f.motion_paths@.len() implies (#[trigger] f.motion_paths@[p]).polygon_ids@.len() <= usize::MAX by {
        assert(f.motion_paths@[p].polygon_ids.len() == f.motion_paths@[p].polygon_ids@.len());
    }
}

/// Which transforms a frame re-uploads. A static polygon or a polygon of a
/// motion path is refreshed exactly while its handle is the one dragged, and
/// a motion path while it is the path dragged. A polygon, a text item or its
/// background, an image and a video are refreshed, while an object of their
/// own kind is dragged, exactly when they are that object, and otherwise
/// exactly during playback; a drag of another kind has no effect on them.
/// Motion arrows are refreshed exactly in motion mode, resize handles
/// exactly while any polygon, text, image or video is dragged, and the
/// cursor dot always.
pub proof fn lemma_frame_refresh_rules(f: FrameState)
    ensures
        forall|i: int|
            0 <= i < frame_steps(f).len() ==> (#[trigger] frame_steps(f)[i]).refresh_uniform == match frame_steps(
                f,
            )[i].target {
                DrawTarget::StaticPolygon(k) => match f.dragging_path_handle {
                    Some(d) => d@ == f.static_polygon_ids@[k as int]@,
                    None => false,
                },
                DrawTarget::MotionPath(p) => match f.dragging_path {
                    Some(d) => d@ == f.motion_paths@[p as int].id@,
                    None => false,
                },
                DrawTarget::MotionPathPolygon(p, q) => match f.dragging_path_handle {
                    Some(d) => d@ == f.motion_paths@[p as int].polygon_ids@[q as int]@,
                    None => false,
                },
                DrawTarget::Polygon(k) => match f.dragging_polygon {
                    Some(d) => d@ == f.polygons@[k as int].id@,
                    None => f.is_playing,
                },
                DrawTarget::TextBackground(k) => match f.dragging_text {
                    Some(d) => d@ == f.text_items@[k as int].background_id@,
                    None => f.is_playing,
                },
                DrawTarget::Text(k) => match f.dragging_text {
                    Some(d) => d@ == f.text_items@[k as int].id@,
                    None => f.is_playing,
                },
                DrawTarget::Image(k) => match f.dragging_image {
                    Some(d) => d@ == f.image_items@[k as int].id@,
                    None => f.is_playing,
                },
                DrawTarget::Video(k) => match f.dragging_video {
                    Some(d) => d@ == f.video_items@[k as int].id@,
                    None => f.is_playing,
                },
                DrawTarget::MotionArrow(_) => f.motion_mode,
                DrawTarget::ResizeHandle(_) => f.dragging_polygon is Some || f.dragging_text is Some
                    || f.dragging_video is Some || f.dragging_image is Some,
                DrawTarget::CursorDot => true,
            },
{
    let p = refresh_as_expected(f);
    lemma_frame_lengths_fit(f);
    let a = static_steps(f, f.static_polygon_ids@.len() as int);
    let b = path_steps(f, f.motion_paths@.len() as int);
    let c = movable_steps(f.polygons@, f.dragging_polygon, f.is_playing, MovableKind::Polygon, f.polygons@.len() as int);
    let d = text_steps(f, f.text_items@.len() as int);
    let e = movable_steps(f.image_items@, f.dragging_image, f.is_playing, MovableKind::Image, f.image_items@.len() as int);
    let g = movable_steps(f.video_items@, f.dragging_video, f.is_playing, MovableKind::Video, f.video_items@.len() as int);
    let h = arrow_steps(f, f.motion_arrows_hidden@.len() as int);
    let k = handle_steps(f, f.resize_handle_count as int);
    lemma_refresh_static(f, f.static_polygon_ids@.len() as int);
    lemma_refresh_paths(f, f.motion_paths@.len() as int);
    lemma_refresh_movable(f, f.polygons@, f.dragging_polygon, MovableKind::Polygon, f.polygons@.len() as int);
    lemma_refresh_text(f, f.text_items@.len() as int);
    lemma_refresh_movable(f, f.image_items@, f.dragging_image, MovableKind::Image, f.image_items@.len() as int);
    lemma_refresh_movable(f, f.video_items@, f.dragging_video, MovableKind::Video, f.video_items@.len() as int);
    lemma_refresh_arrows(f, f.motion_arrows_hidden@.len() as int);
    lemma_refresh_handles(f, f.resize_handle_count as int);
    lemma_all_steps_concat(a, b, p);
    lemma_all_steps_concat(a + b, c, p);
    lemma_all_steps_concat(a + b + c, d, p);
    lemma_all_steps_concat(a + b + c + d, e, p);
    lemma_all_steps_concat(a + b + c + d + e, g, p);
    lemma_all_steps_concat(a + b + c + d + e + g, h, p);
    lemma_all_steps_concat(a + b + c + d + e + g + h, k, p);
    assert(p(DrawStep { target: DrawTarget::CursorDot, refresh_uniform: true }));
    assert(all_steps(cursor_steps(f), p));
    lemma_all_steps_concat(a + b + c + d + e + g + h + k, cursor_steps(f), p);
    assert(frame_steps(f) == a + b + c + d + e + g + h + k + cursor_steps(f));
    assert forall|i: int| 0 <= i < frame_steps(f).len() implies p(#[trigger] frame_steps(f)[i]) by {}
}

/// Whether some step of `s` draws `t`.
pub open spec fn draws_target(s: Seq<DrawStep>, t: DrawTarget) -> bool {
    exists|j: int| 0 <= j < s.len() && (#[trigger] s[j]).target == t
}

proof fn lemma_draws_in_concat(a: Seq<DrawStep>, b: Seq<DrawStep>, t: DrawTarget)
    requires
        draws_target(a, t) || draws_target(b, t),
    ensures
        draws_target(a + b, t),
{
    if draws_target(a, t) {
        let j = choose|j: int| 0 <= j < a.len() && (#[trigger] a[j]).target == t;
        assert((a + b)[j] == a[j]);
    } else {
        let j = choose|j: int| 0 <= j < b.len() && (#[trigger] b[j]).target == t;
        assert((a + b)[a.len() + j] == b[j]);
    }
}

proof fn lemma_draws_in_push(a: Seq<DrawStep>, x: DrawStep, t: DrawTarget)
    requires
        draws_target(a, t) || x.target == t,
    ensures
        draws_target(a.push(x), t),
{
    if draws_target(a, t) {
        let j = choose|j: int| 0 <= j < a.len() && (#[trigger] a[j]).target == t;
        assert(a.push(x)[j] == a[j]);
    } else {
        assert(a.push(x)[a.len() as int] == x);
    }
}

proof fn lemma_movable_draws(
    objs: Seq<DrawObject>,
    dragging: Option<String>,
    playing: bool,
    kind: MovableKind,
    n: int,
    k: int,
)
    requires
        0 <= k < n <= objs.len(),
        !objs[k].hidden,
    ensures
        draws_target(movable_steps(objs, dragging, playing, kind, n), movable_target(kind, k)),
    decreases n,
{
    let prev = movable_steps(objs, dragging, playing, kind, n - 1);
    if k < n - 1 {
        lemma_movable_draws(objs, dragging, playing, kind, n - 1, k);
        if !objs[n - 1].hidden {
            lemma_draws_in_push(prev, movable_steps(objs, dragging, playing, kind, n).last(), movable_target(kind, k));
        }
    } else {
        lemma_draws_in_push(prev, movable_steps(objs, dragging, playing, kind, n).last(), movable_target(kind, k));
    }
}

proof fn lemma_text_draws(f: FrameState, n: int, k: int)
    requires
        0 <= k < n <= f.text_items@.len(),
        !f.text_items@[k].hidden,
    ensures
        draws_target(text_steps(f, n), DrawTarget::Text(k as usize)),
        !f.text_items@[k].background_hidden ==> draws_target(text_steps(f, n), DrawTarget::TextBackground(k as usize)),
    decreases n,
{
    let prev = text_steps(f, n - 1);
    let t = f.text_items@[n - 1];
    let bg = DrawStep {
        target: DrawTarget::TextBackground((n - 1) as usize),
        refresh_uniform: refresh_movable(f.dragging_text, t.background_id@, f.is_playing),
    };
    let tx = DrawStep {
        target: DrawTarget::Text((n - 1) as usize),
        refresh_uniform: refresh_movable(f.dragging_text, t.id@, f.is_playing),
    };
    if k < n - 1 {
        lemma_text_draws(f, n - 1, k);
        if !t.hidden {
            if t.background_hidden {
                lemma_draws_in_push(prev, tx, DrawTarget::Text(k as usize));
                if !f.text_items@[k].background_hidden {
                    lemma_draws_in_push(prev, tx, DrawTarget::TextBackground(k as usize));
                }
            } else {
                lemma_draws_in_push(prev, bg, DrawTarget::Text(k as usize));
                lemma_draws_in_push(prev.push(bg), tx, DrawTarget::Text(k as usize));
                if !f.text_items@[k].background_hidden {
                    lemma_draws_in_push(prev, bg, DrawTarget::TextBackground(k as usize));
                    lemma_draws_in_push(prev.push(bg), tx, DrawTarget::TextBackground(k as usize));
                }
            }
        }
    } else {
        if t.background_hidden {
            lemma_draws_in_push(prev, tx, DrawTarget::Text(k as usize));
        } else {
            lemma_draws_in_push(prev, bg, DrawTarget::TextBackground(k as usize));
            lemma_draws_in_push(prev.push(bg), tx, DrawTarget::TextBackground(k as usize));
            lemma_draws_in_push(prev.push(bg), tx, DrawTarget::Text(k as usize));
        }
    }
}

proof fn lemma_arrow_draws(f: FrameState, n: int, k: int)
    requires
        0 <= k < n <= f.motion_arrows_hidden@.len(),
        !f.motion_arrows_hidden@[k],
    ensures
        draws_target(arrow_steps(f, n), DrawTarget::MotionArrow(k as usize)),
    decreases n,
{
    let prev = arrow_steps(f, n - 1);
    if k < n - 1 {
        lemma_arrow_draws(f, n - 1, k);
        if !f.motion_arrows_hidden@[n - 1] {
            lemma_draws_in_push(prev, arrow_steps(f, n).last(), DrawTarget::MotionArrow(k as usize));
        }
    } else {
        lemma_draws_in_push(prev, arrow_steps(f, n).last(), DrawTarget::MotionArrow(k as usize));
    }
}

proof fn lemma_static_draws(f: FrameState, n: int, k: int)
    requires
        0 <= k < n,
    ensures
        draws_target(static_steps(f, n), DrawTarget::StaticPolygon(k as usize)),
    decreases n,
{
    if k < n - 1 {
        lemma_static_draws(f, n - 1, k);
    }
    lemma_draws_in_push(static_steps(f, n - 1), static_steps(f, n).last(), DrawTarget::StaticPolygon(k as usize));
}

proof fn lemma_handle_draws(f: FrameState, n: int, k: int)
    requires
        0 <= k < n,
    ensures
        draws_target(handle_steps(f, n), DrawTarget::ResizeHandle(k as usize)),
    decreases n,
{
    if k < n - 1 {
        lemma_handle_draws(f, n - 1, k);
    }
    lemma_draws_in_push(handle_steps(f, n - 1), handle_steps(f, n).last(), DrawTarget::ResizeHandle(k as usize));
}

/// Every object that is shown is drawn: each static polygon, each shown
/// polygon, text item, image, video and motion arrow, the background of each
/// shown text item whose background is shown, each resize handle, and the
/// cursor dot when there is one.
pub proof fn lemma_frame_draws_every_shown_object(f: FrameState)
    ensures
        forall|k: int|
            #![trigger draws_target(frame_steps(f), DrawTarget::StaticPolygon(k as usize))]
            0 <= k < f.static_polygon_ids@.len() ==> draws_target(frame_steps(f), DrawTarget::StaticPolygon(k as usize)),
        forall|k: int|
            0 <= k < f.polygons@.len() && !(#[trigger] f.polygons@[k]).hidden ==> draws_target(
                frame_steps(f),
                DrawTarget::Polygon(k as usize),
            ),
        forall|k: int|
            0 <= k < f.text_items@.len() && !(#[trigger] f.text_items@[k]).hidden ==> draws_target(
                frame_steps(f),
                DrawTarget::Text(k as usize),
            ),
        forall|k: int|
            0 <= k < f.text_items@.len() && !(#[trigger] f.text_items@[k]).hidden
                && !f.text_items@[k].background_hidden ==> draws_target(
                frame_steps(f),
                DrawTarget::TextBackground(k as usize),
            ),
        forall|k: int|
            0 <= k < f.image_items@.len() && !(#[trigger] f.image_items@[k]).hidden ==> draws_target(
                frame_steps(f),
                DrawTarget::Image(k as usize),
            ),
        forall|k: int|
            0 <= k < f.video_items@.len() && !(#[trigger] f.video_items@[k]).hidden ==> draws_target(
                frame_steps(f),
                DrawTarget::Video(k as usize),
            ),
        forall|k: int|
            0 <= k < f.motion_arrows_hidden@.len() && !(#[trigger] f.motion_arrows_hidden@[k]) ==> draws_target(
                frame_steps(f),
                DrawTarget::MotionArrow(k as usize),
            ),
        forall|k: int|
            #![trigger draws_target(frame_steps(f), DrawTarget::ResizeHandle(k as usize))]
            0 <= k < f.resize_handle_count ==> draws_target(frame_steps(f), DrawTarget::ResizeHandle(k as usize)),
        f.has_cursor_dot ==> draws_target(frame_steps(f), DrawTarget::CursorDot),
{
    let a = static_steps(f, f.static_polygon_ids@.len() as int);
    let b = path_steps(f, f.motion_paths@.len() as int);
    let c = movable_steps(f.polygons@, f.dragging_polygon, f.is_playing, MovableKind::Polygon, f.polygons@.len() as int);
    let d = text_steps(f, f.text_items@.len() as int);
    let e = movable_steps(f.image_items@, f.dragging_image, f.is_playing, MovableKind::Image, f.image_items@.len() as int);
    let g = movable_steps(f.video_items@, f.dragging_video, f.is_playing, MovableKind::Video, f.video_items@.len() as int);
    let h = arrow_steps(f, f.motion_arrows_hidden@.len() as int);
    let k = handle_steps(f, f.resize_handle_count as int);
    let z = cursor_steps(f);
    assert(frame_steps(f) == a + b + c + d + e + g + h + k + z);
    assert forall|t: DrawTarget| draws_target(a, t) implies #[trigger] draws_target(frame_steps(f), t) by {
        lemma_draws_in_concat(a, b, t);
        lemma_draws_in_concat(a + b, c, t);
        lemma_draws_in_concat(a + b + c, d, t);
        lemma_draws_in_concat(a + b + c + d, e, t);
        lemma_draws_in_concat(a + b + c + d + e, g, t);
        lemma_draws_in_concat(a + b + c + d + e + g, h, t);
        lemma_draws_in_concat(a + b + c + d + e + g + h, k, t);
        lemma_draws_in_concat(a + b + c + d + e + g + h + k, z, t);
    }
    assert forall|t: DrawTarget| draws_target(c, t) implies #[trigger] draws_target(frame_steps(f), t) by {
        lemma_draws_in_concat(a + b, c, t);
        lemma_draws_in_concat(a + b + c, d, t);
        lemma_draws_in_concat(a + b + c + d, e, t);
        lemma_draws_in_concat(a + b + c + d + e, g, t);
        lemma_draws_in_concat(a + b + c + d + e + g, h, t);
        lemma_draws_in_concat(a + b + c + d + e + g + h, k, t);
        lemma_draws_in_concat(a + b + c + d + e + g + h + k, z, t);
    }
    assert forall|t: DrawTarget| draws_target(d, t) implies #[trigger] draws_target(frame_steps(f), t) by {
        lemma_draws_in_concat(a + b + c, d, t);
        lemma_draws_in_concat(a + b + c + d, e, t);
        lemma_draws_in_concat(a + b + c + d + e, g, t);
        lemma_draws_in_concat(a + b + c + d + e + g, h, t);
        lemma_draws_in_concat(a + b + c + d + e + g + h, k, t);
        lemma_draws_in_concat(a + b + c + d + e + g + h + k, z, t);
    }
    assert forall|t: DrawTarget| draws_target(e, t) implies #[trigger] draws_target(frame_steps(f), t) by {
        lemma_draws_in_concat(a + b + c + d, e, t);
        lemma_draws_in_concat(a + b + c + d + e, g, t);
        lemma_draws_in_concat(a + b + c + d + e + g, h, t);
        lemma_draws_in_concat(a + b + c + d + e + g + h, k, t);
        lemma_draws_in_concat(a + b + c + d + e + g + h + k, z, t);
    }
    assert forall|t: DrawTarget| draws_target(g, t) implies #[trigger] draws_target(frame_steps(f), t) by {
        lemma_draws_in_concat(a + b + c + d + e, g, t);
        lemma_draws_in_concat(a + b + c + d + e + g, h, t);
        lemma_draws_in_concat(a + b + c + d + e + g + h, k, t);
        lemma_draws_in_concat(a + b + c + d + e + g + h + k, z, t);
    }
    assert forall|t: DrawTarget| draws_target(h, t) implies #[trigger] draws_target(frame_steps(f), t) by {
        lemma_draws_in_concat(a + b + c + d + e + g, h, t);
        lemma_draws_in_concat(a + b + c + d + e + g + h, k, t);
        lemma_draws_in_concat(a + b + c + d + e + g + h + k, z, t);
    }
    assert forall|t: DrawTarget| draws_target(k, t) implies #[trigger] draws_target(frame_steps(f), t) by {
        lemma_draws_in_concat(a + b + c + d + e + g + h, k, t);
        lemma_draws_in_concat(a + b + c + d + e + g + h + k, z, t);
    }
    assert forall|t: DrawTarget| draws_target(z, t) implies #[trigger] draws_target(frame_steps(f), t) by {
        lemma_draws_in_concat(a + b + c + d + e + g + h + k, z, t);
    }
    assert forall|i: int| 0 <= i < f.static_polygon_ids@.len() implies #[trigger] draws_target(
        frame_steps(f),
        DrawTarget::StaticPolygon(i as usize),
    ) by {
        lemma_static_draws(f, f.static_polygon_ids@.len() as int, i);
    }
    assert forall|i: int| 0 <= i < f.polygons@.len() && !(#[trigger] f.polygons@[i]).hidden implies draws_target(
        frame_steps(f),
        DrawTarget::Polygon(i as usize),
    ) by {
        lemma_movable_draws(f.polygons@, f.dragging_polygon, f.is_playing, MovableKind::Polygon, f.polygons@.len() as int, i);
    }
    assert forall|i: int| 0 <= i < f.text_items@.len() && !(#[trigger] f.text_items@[i]).hidden implies draws_target(
        frame_steps(f),
        DrawTarget::Text(i as usize),
    ) && (!f.text_items@[i].background_hidden ==> draws_target(frame_steps(f), DrawTarget::TextBackground(i as usize))) by {
        lemma_text_draws(f, f.text_items@.len() as int, i);
    }
    assert forall|i: int| 0 <= i < f.image_items@.len() && !(#[trigger] f.image_items@[i]).hidden implies draws_target(
        frame_steps(f),
        DrawTarget::Image(i as usize),
    ) by {
        lemma_movable_draws(f.image_items@, f.dragging_image, f.is_playing, MovableKind::Image, f.image_items@.len() as int, i);
    }
    assert forall|i: int| 0 <= i < f.video_items@.len() && !(#[trigger] f.video_items@[i]).hidden implies draws_target(
        frame_steps(f),
        DrawTarget::Video(i as usize),
    ) by {
        lemma_movable_draws(f.video_items@, f.dragging_video, f.is_playing, MovableKind::Video, f.video_items@.len() as int, i);
    }
    assert forall|i: int| 0 <= i < f.motion_arrows_hidden@.len() && !(#[trigger] f.motion_arrows_hidden@[i]) implies draws_target(
        frame_steps(f),
        DrawTarget::MotionArrow(i as usize),
    ) by {
        lemma_arrow_draws(f, f.motion_arrows_hidden@.len() as int, i);
    }
    assert forall|i: int| 0 <= i < f.resize_handle_count implies #[trigger] draws_target(
        frame_steps(f),
        DrawTarget::ResizeHandle(i as usize),
    ) by {
        lemma_handle_draws(f, f.resize_handle_count as int, i);
    }
    if f.has_cursor_dot {
        assert(z[0].target == DrawTarget::CursorDot);
    }
}

/// A shown object being dragged follows the pointer: the frame draws it with
/// its transform re-uploaded. This holds for polygons, text items, images
/// and videos, each under the drag of its own kind.
pub proof fn lemma_dragged_object_is_refreshed(f: FrameState)
    ensures
        forall|k: int|
            0 <= k < f.polygons@.len() && !(#[trigger] f.polygons@[k]).hidden && f.dragging_polygon is Some
                && f.dragging_polygon->0@ == f.polygons@[k].id@ ==> exists|j: int|
                0 <= j < frame_steps(f).len() && #[trigger] frame_steps(f)[j] == (DrawStep {
                    target: DrawTarget::Polygon(k as usize),
                    refresh_uniform: true,
                }),
        forall|k: int|
            0 <= k < f.text_items@.len() && !(#[trigger] f.text_items@[k]).hidden && f.dragging_text is Some
                && f.dragging_text->0@ == f.text_items@[k].id@ ==> exists|j: int|
                0 <= j < frame_steps(f).len() && #[trigger] frame_steps(f)[j] == (DrawStep {
                    target: DrawTarget::Text(k as usize),
                    refresh_uniform: true,
                }),
        forall|k: int|
            0 <= k < f.image_items@.len() && !(#[trigger] f.image_items@[k]).hidden && f.dragging_image is Some
                && f.dragging_image->0@ == f.image_items@[k].id@ ==> exists|j: int|
                0 <= j < frame_steps(f).len() && #[trigger] frame_steps(f)[j] == (DrawStep {
                    target: DrawTarget::Image(k as usize),
                    refresh_uniform: true,
                }),
        forall|k: int|
            0 <= k < f.video_items@.len() && !(#[trigger] f.video_items@[k]).hidden && f.dragging_video is Some
                && f.dragging_video->0@ == f.video_items@[k].id@ ==> exists|j: int|
                0 <= j < frame_steps(f).len() && #[trigger] frame_steps(f)[j] == (DrawStep {
                    target: DrawTarget::Video(k as usize),
                    refresh_uniform: true,
                }),
{
    lemma_frame_refresh_rules(f);
    lemma_frame_draws_every_shown_object(f);
    lemma_frame_lengths_fit(f);
    assert forall|k: int|
        0 <= k < f.polygons@.len() && !(#[trigger] f.polygons@[k]).hidden && f.dragging_polygon is Some
            && f.dragging_polygon->0@ == f.polygons@[k].id@ implies exists|j: int|
            0 <= j < frame_steps(f).len() && #[trigger] frame_steps(f)[j] == (DrawStep {
                target: DrawTarget::Polygon(k as usize),
                refresh_uniform: true,
            }) by {
        assert(draws_target(frame_steps(f), DrawTarget::Polygon(k as usize)));
        let j = choose|j: int| 0 <= j < frame_steps(f).len() && (#[trigger] frame_steps(f)[j]).target == DrawTarget::Polygon(k as usize);
        assert((k as usize) as int == k);
        assert(frame_steps(f)[j].refresh_uniform);
    }
    assert forall|k: int|
        0 <= k < f.text_items@.len() && !(#[trigger] f.text_items@[k]).hidden && f.dragging_text is Some
            && f.dragging_text->0@ == f.text_items@[k].id@ implies exists|j: int|
            0 <= j < frame_steps(f).len() && #[trigger] frame_steps(f)[j] == (DrawStep {
                target: DrawTarget::Text(k as usize),
                refresh_uniform: true,
            }) by {
        assert(draws_target(frame_steps(f), DrawTarget::Text(k as usize)));
        let j = choose|j: int| 0 <= j < frame_steps(f).len() && (#[trigger] frame_steps(f)[j]).target == DrawTarget::Text(k as usize);
        assert((k as usize) as int == k);
        assert(frame_steps(f)[j].refresh_uniform);
    }
    assert forall|k: int|
        0 <= k < f.image_items@.len() && !(#[trigger] f.image_items@[k]).hidden && f.dragging_image is Some
            && f.dragging_image->0@ == f.image_items@[k].id@ implies exists|j: int|
            0 <= j < frame_steps(f).len() && #[trigger] frame_steps(f)[j] == (DrawStep {
                target: DrawTarget::Image(k as usize),
                refresh_uniform: true,
            }) by {
        assert(draws_target(frame_steps(f), DrawTarget::Image(k as usize)));
        let j = choose|j: int| 0 <= j < frame_steps(f).len() && (#[trigger] frame_steps(f)[j]).target == DrawTarget::Image(k as usize);
        assert((k as usize) as int == k);
        assert(frame_steps(f)[j].refresh_uniform);
    }
    assert forall|k: int|
        0 <= k < f.video_items@.len() && !(#[trigger] f.video_items@[k]).hidden && f.dragging_video is Some
            && f.dragging_video->0@ == f.video_items@[k].id@ implies exists|j: int|
            0 <= j < frame_steps(f).len() && #[trigger] frame_steps(f)[j] == (DrawStep {
                target: DrawTarget::Video(k as usize),
                refresh_uniform: true,
            }) by {
        assert(draws_target(frame_steps(f), DrawTarget::Video(k as usize)));
        let j = choose|j: int| 0 <= j < frame_steps(f).len() && (#[trigger] frame_steps(f)[j]).target == DrawTarget::Video(k as usize);
        assert((k as usize) as int == k);
        assert(frame_steps(f)[j].refresh_uniform);
    }
}

} // verus!
