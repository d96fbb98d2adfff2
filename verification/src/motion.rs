//! Generated motion: the shape in which the motion service answers, its
//! conversion into animation data for an object, and replacing an object's
//! motion path in a sequence.

use vstd::prelude::*;
use crate::ids::new_uuid_string;

verus! {

broadcast use vstd::string::to_string_from_display_ensures_for_str;

/// A position in a keyframe of the service's answer.
#[derive(Clone, Copy, Debug, PartialEq, Eq, Structural)]
pub struct ApiPosition {
    pub x: i32,
    pub y: i32,
}

impl Default for ApiPosition {
    fn default() -> (p: ApiPosition)
        ensures
            p == (ApiPosition { x: 0, y: 0 }),
    {
        ApiPosition { x: 0, y: 0 }
    }
}

/// The value of a keyframe in the service's answer; the field names are the
/// keys of the answer.
#[allow(non_snake_case)]
#[derive(Clone, Copy, Debug, PartialEq, Eq, Structural)]
pub enum ApiKeyframeValue {
    Position { Position: ApiPosition },
    Scale { Scale: i32 },
    Opacity { Opacity: i32 },
    Rotation { Rotation: i32 },
}

/// A keyframe of the service's answer: time in milliseconds, value, easing name.
pub struct ApiKeyframe {
    pub time: i32,
    pub value: ApiKeyframeValue,
    pub easing: String,
}

impl Default for ApiKeyframe {
    fn default() -> (k: ApiKeyframe)
        ensures
            k.time == 0,
            k.value == (ApiKeyframeValue::Position { Position: ApiPosition { x: 0, y: 0 } }),
            k.easing@ == "Linear"@,
    {
        ApiKeyframe {
            time: 0,
            value: ApiKeyframeValue::Position { Position: ApiPosition::default() },
            easing: "Linear".to_string(),
        }
    }
}

/// An animated property of the service's answer with its keyframes.
pub struct ApiAnimationProperty {
    pub name: String,
    pub keyframes: Vec<ApiKeyframe>,
}

impl Default for ApiAnimationProperty {
    fn default() -> (p: ApiAnimationProperty)
        ensures
            p.name@.len() == 0,
            p.keyframes@.len() == 0,
    {
        ApiAnimationProperty { name: String::new(), keyframes: Vec::new() }
    }
}

/// The service's answer: an id, a length in milliseconds and the animated
/// properties.
pub struct ApiAnimationData {
    pub id: String,
    pub duration: i32,
    pub properties: Vec<ApiAnimationProperty>,
}

impl Default for ApiAnimationData {
    fn default() -> (d: ApiAnimationData)
        ensures
            d.id@.len() == 0,
            d.duration == 0,
            d.properties@.len() == 0,
    {
        ApiAnimationData { id: String::new(), duration: 0, properties: Vec::new() }
    }
}

/// The kind of object an animation moves.
#[derive(Clone, Copy, Debug, PartialEq, Eq, Structural)]
pub enum ObjectType {
    Polygon,
    TextItem,
    ImageItem,
    VideoItem,
}

/// How a keyframe eases into the next.
#[derive(Clone, Copy, Debug, PartialEq, Eq, Structural)]
pub enum EasingType {
    Linear,
    EaseIn,
    EaseOut,
    EaseInOut,
}

/// The path kind of a keyframe; generated keyframes are linear.
#[derive(Clone, Copy, Debug, PartialEq, Eq, Structural)]
pub enum PathType {
    Linear,
}

/// The kind of a keyframe; generated keyframes are frames.
#[derive(Clone, Copy, Debug, PartialEq, Eq, Structural)]
pub enum KeyType {
    Frame,
}

/// The value of a keyframe of an animation.
#[derive(Clone, Copy, Debug)]
pub enum KeyframeValue {
    Position([i32; 2]),
    Scale(i32),
    Opacity(i32),
    Rotation(i32),
}

/// A keyframe of an animation; the time is in milliseconds.
pub struct UIKeyframe {
    pub id: String,
    pub time_ms: u64,
    pub value: KeyframeValue,
    pub easing: EasingType,
    pub path_type: PathType,
    pub key_type: KeyType,
}

/// An animated property; generated properties have no children.
pub struct AnimationProperty {
    pub name: String,
    pub property_path: String,
    pub keyframes: Vec<UIKeyframe>,
    pub depth: u32,
}

/// The animation of one object; lengths and times are in milliseconds.
pub struct AnimationData {
    pub id: String,
    pub object_type: ObjectType,
    pub polygon_id: String,
    pub duration_ms: u64,
    pub start_time_ms: i32,
    pub properties: Vec<AnimationProperty>,
    pub position: [i32; 2],
}

/// The easing named `name`; any name but `EaseIn`, `EaseOut`, `EaseInOut`
/// means linear.
pub open spec fn easing_named(name: Seq<char>) -> EasingType {
    if name == "EaseIn"@ {
        EasingType::EaseIn
    } else if name == "EaseOut"@ {
        EasingType::EaseOut
    } else if name == "EaseInOut"@ {
        EasingType::EaseInOut
    } else {
        EasingType::Linear
    }
}

/// The keyframe value for a value of the answer.
pub open spec fn value_of(v: ApiKeyframeValue) -> KeyframeValue {
    match v {
        ApiKeyframeValue::Position { Position: p } => KeyframeValue::Position([p.x, p.y]),
        ApiKeyframeValue::Scale { Scale: s } => KeyframeValue::Scale(s),
        ApiKeyframeValue::Opacity { Opacity: o } => KeyframeValue::Opacity(o),
        ApiKeyframeValue::Rotation { Rotation: r } => KeyframeValue::Rotation(r),
    }
}

/// Whether `u` is the conversion of `k` (its id aside, which is fresh).
pub open spec fn converts_keyframe(k: ApiKeyframe, u: UIKeyframe) -> bool {
    &&& u.time_ms == k.time as u64
    &&& u.value == value_of(k.value)
    &&& u.easing == easing_named(k.easing@)
    &&& u.path_type == PathType::Linear
    &&& u.key_type == KeyType::Frame
}

/// Whether `p` is the conversion of `a`.
pub open spec fn converts_property(a: ApiAnimationProperty, p: AnimationProperty) -> bool {
    &&& p.name@ == a.name@
    &&& p.property_path@.len() == 0
    &&& p.depth == 0
    &&& p.keyframes@.len() == a.keyframes@.len()
    &&& forall|j: int|
        0 <= j < a.keyframes@.len() ==> converts_keyframe(
            #[trigger] a.keyframes@[j],
            p.keyframes@[j],
        )
}

/// The easing named `name`.
pub fn easing_from_name(name: &String) -> (e: EasingType)
    ensures
        e == easing_named(name@),
{
    if *name == "EaseIn".to_string() {
        EasingType::EaseIn
    } else if *name == "EaseOut".to_string() {
        EasingType::EaseOut
    } else if *name == "EaseInOut".to_string() {
        EasingType::EaseInOut
    } else {
        EasingType::Linear
    }
}

/// The keyframe value for a value of the answer.
pub fn keyframe_value(v: ApiKeyframeValue) -> (r: KeyframeValue)
    ensures
        r == value_of(v),
{
    match v {
        ApiKeyframeValue::Position { Position: p } => KeyframeValue::Position([p.x, p.y]),
        ApiKeyframeValue::Scale { Scale: s } => KeyframeValue::Scale(s),
        ApiKeyframeValue::Opacity { Opacity: o } => KeyframeValue::Opacity(o),
        ApiKeyframeValue::Rotation { Rotation: r } => KeyframeValue::Rotation(r),
    }
}

fn convert_property(a: &ApiAnimationProperty) -> (p: AnimationProperty)
    ensures
        converts_property(*a, p),
{
    let mut keyframes: Vec<UIKeyframe> = Vec::new();
    let mut j: usize = 0;
    while j < a.keyframes.len()
        invariant
            j <= a.keyframes@.len(),
            keyframes@.len() == j,
            forall|k: int| 0 <= k < j ==> converts_keyframe(#[trigger] a.keyframes@[k], keyframes@[k]),
        decreases a.keyframes@.len() - j,
    {
        let k = &a.keyframes[j];
        keyframes.push(
            UIKeyframe {
                id: new_uuid_string(),
                time_ms: k.time as u64,
                value: keyframe_value(k.value),
                easing: easing_from_name(&k.easing),
                path_type: PathType::Linear,
                key_type: KeyType::Frame,
            },
        );
        j = j + 1;
    }
    AnimationProperty { name: a.name.clone(), property_path: String::new(), keyframes, depth: 0 }
}

impl ApiAnimationData {
    /// The animation data of the answer for object `polygon_id` of kind
    /// `object_type`: same id and properties, lengths and times carried over
    /// as milliseconds (a negative time wraps as `i32 as u64` does), easing
    /// read from its name, every keyframe linear with a fresh id; the
    /// animation starts at 0 ms at position (0, 0).
    pub fn to_animation_data(self, polygon_id: String, object_type: ObjectType) -> (data: AnimationData)
        ensures
            data.id@ == self.id@,
            data.object_type == object_type,
            data.polygon_id@ == polygon_id@,
            data.duration_ms == self.duration as u64,
            data.start_time_ms == 0,
            data.position@ == seq![0i32, 0i32],
            data.properties@.len() == self.properties@.len(),
            forall|i: int|
                0 <= i < self.properties@.len() ==> converts_property(
                    #[trigger] self.properties@[i],
                    data.properties@[i],
                ),
    {
        let mut properties: Vec<AnimationProperty> = Vec::new();
        let mut i: usize = 0;
        while i < self.properties.len()
            invariant
                i <= self.properties@.len(),
                properties@.len() == i,
                forall|k: int|
                    0 <= k < i ==> converts_property(#[trigger] self.properties@[k], properties@[k]),
            decreases self.properties@.len() - i,
        {
            let p = convert_property(&self.properties[i]);
            properties.push(p);
            i = i + 1;
        }
        let position = [0i32, 0i32];
        assert(position@ =~= seq![0i32, 0i32]);
        AnimationData {
            id: self.id,
            object_type,
            polygon_id,
            duration_ms: self.duration as u64,
            start_time_ms: 0,
            properties,
            position,
        }
    }
}

/// Prepares a generated animation for the object it was made for: a fresh
/// id, that object's id, start at 0 ms, position (0, 0). The flag says
/// whether the object is a video, whose animation also gets the default zoom.
pub fn finalize_animation(data: AnimationData, object_id: String, object_type: ObjectType) -> (r: (
    AnimationData,
    bool,
))
    ensures
        r.0.polygon_id@ == object_id@,
        r.0.start_time_ms == 0,
        r.0.position@ == seq![0i32, 0i32],
        r.0.object_type == data.object_type,
        r.0.duration_ms == data.duration_ms,
        r.0.properties@ == data.properties@,
        r.1 == (object_type == ObjectType::VideoItem),
{
    let position = [0i32, 0i32];
    assert(position@ =~= seq![0i32, 0i32]);
    let needs_zoom = match object_type {
        ObjectType::VideoItem => true,
        _ => false,
    };
    (
        AnimationData {
            id: new_uuid_string(),
            object_type: data.object_type,
            polygon_id: object_id,
            duration_ms: data.duration_ms,
            start_time_ms: 0,
            properties: data.properties,
            position,
        },
        needs_zoom,
    )
}

/// The motion paths once `path` replaces every path of object `object_id`:
/// the paths of other objects in their order, then `path`.
pub open spec fn replaced_paths<T>(paths: Seq<(String, T)>, object_id: Seq<char>, path: (String, T)) -> Seq<(String, T)> {
    paths.filter(|p: (String, T)| p.0@ != object_id).push(path)
}

/// Replaces the motion path of an object: every path keyed by the same
/// object id is dropped and the new one is appended.
pub fn merge_motion_path<T>(paths: &mut Vec<(String, T)>, object_id: String, path: T)
    ensures
        final(paths)@ == replaced_paths(old(paths)@, object_id@, (object_id, path)),
{
    let ghost pred = |p: (String, T)| p.0@ != object_id@;
    let mut rest: Vec<(String, T)> = Vec::new();
    std::mem::swap(&mut rest, paths);
    let ghost orig = rest@;
    let n = rest.len();
    let mut i: usize = 0;
    assert(orig.take(0) =~= Seq::<(String, T)>::empty());
    assert(orig.take(0).filter(pred) =~= Seq::<(String, T)>::empty()) by {
        reveal(Seq::filter);
    }
    while rest.len() > 0
        invariant
            n == orig.len(),
            i + rest@.len() == n,
            pred == (|p: (String, T)| p.0@ != object_id@),
            rest@ == orig.skip(i as int),
            paths@ == orig.take(i as int).filter(pred),
        decreases rest@.len(),
    {
        let ghost before = rest@;
        let item = rest.remove(0);
        proof {
            assert(item == orig[i as int]);
            assert(rest@ =~= orig.skip(i as int + 1));
            assert(orig.take(i as int + 1) =~= orig.take(i as int).push(item));
            orig.take(i as int).lemma_filter_push(item, pred);
        }
        if item.0 != object_id {
            paths.push(item);
        }
        i = i + 1;
    }
    assert(orig.take(n as int) =~= orig);
    paths.push((object_id, path));
}

proof fn lemma_filter_filter<A>(s: Seq<A>, a: spec_fn(A) -> bool, b: spec_fn(A) -> bool)
    requires
        forall|y: A| #[trigger] b(y) ==> a(y),
    ensures
        s.filter(a).filter(b) == s.filter(b),
    decreases s.len(),
{
    if s.len() == 0 {
        reveal(Seq::filter);
        assert(s.filter(a) =~= s);
    } else {
        let d = s.drop_last();
        lemma_filter_filter(d, a, b);
        assert(d.push(s.last()) =~= s);
        d.lemma_filter_push(s.last(), a);
        d.lemma_filter_push(s.last(), b);
        d.filter(a).lemma_filter_push(s.last(), b);
    }
}

/// Paths of object `object_id`.
pub open spec fn path_of<T>(object_id: Seq<char>) -> spec_fn((String, T)) -> bool {
    |p: (String, T)| p.0@ == object_id
}

/// After a merge the object has exactly one motion path, the new one, and it
/// comes last.
pub proof fn lemma_merge_leaves_one_path<T>(paths: Seq<(String, T)>, object_id: String, path: T)
    ensures
        replaced_paths(paths, object_id@, (object_id, path)).last() == (object_id, path),
        forall|i: int|
            0 <= i < replaced_paths(paths, object_id@, (object_id, path)).len() - 1 ==> (
            #[trigger] replaced_paths(paths, object_id@, (object_id, path))[i]).0@ != object_id@,
{
    let pred = |p: (String, T)| p.0@ != object_id@;
    let f = paths.filter(pred);
    assert forall|i: int| 0 <= i < f.len() implies (#[trigger] f[i]).0@ != object_id@ by {
        paths.lemma_filter_pred(pred, i);
    }
    assert forall|i: int|
        0 <= i < replaced_paths(paths, object_id@, (object_id, path)).len() - 1 implies (
        #[trigger] replaced_paths(paths, object_id@, (object_id, path))[i]).0@ != object_id@ by {
        assert(replaced_paths(paths, object_id@, (object_id, path))[i] == f[i]);
    }
}

/// A merge leaves the motion paths of every other object as they were, in
/// their order.
pub proof fn lemma_merge_keeps_other_objects<T>(
    paths: Seq<(String, T)>,
    object_id: String,
    path: T,
    other: Seq<char>,
)
    requires
        other != object_id@,
    ensures
        replaced_paths(paths, object_id@, (object_id, path)).filter(path_of(other)) == paths.filter(
            path_of(other),
        ),
{
    let pred = |p: (String, T)| p.0@ != object_id@;
    let b = path_of::<T>(other);
    paths.filter(pred).lemma_filter_push((object_id, path), b);
    assert(!b((object_id, path)));
    lemma_filter_filter(paths, pred, b);
}

/// Merging the same path twice gives what merging it once gives.
pub proof fn lemma_merge_idempotent<T>(paths: Seq<(String, T)>, object_id: String, path: T)
    ensures
        replaced_paths(replaced_paths(paths, object_id@, (object_id, path)), object_id@, (object_id, path))
            == replaced_paths(paths, object_id@, (object_id, path)),
{
    let pred = |p: (String, T)| p.0@ != object_id@;
    paths.filter(pred).lemma_filter_push((object_id, path), pred);
    lemma_filter_filter(paths, pred, pred);
}

/// Converting a keyframe keeps the kind and the numbers of its value: a
/// position stays the same position, and a scale, opacity or rotation stays
/// a scale, opacity or rotation of the same amount.
pub proof fn lemma_conversion_keeps_kind_and_number(k: ApiKeyframe, u: UIKeyframe)
    requires
        converts_keyframe(k, u),
    ensures
        k.value matches ApiKeyframeValue::Position { Position: p } ==> (u.value matches KeyframeValue::Position(a)
            && a@ == seq![p.x, p.y]),
        k.value matches ApiKeyframeValue::Scale { Scale: s } ==> (u.value matches KeyframeValue::Scale(t) && t
            == s),
        k.value matches ApiKeyframeValue::Opacity { Opacity: o } ==> (u.value matches KeyframeValue::Opacity(t)
            && t == o),
        k.value matches ApiKeyframeValue::Rotation { Rotation: r } ==> (u.value matches KeyframeValue::Rotation(
            t,
        ) && t == r),
        u.time_ms == k.time as u64,
{
    match k.value {
        ApiKeyframeValue::Position { Position: p } => {
            assert(u.value == KeyframeValue::Position([p.x, p.y]));
            if let KeyframeValue::Position(a) = u.value {
                assert(a@ =~= seq![p.x, p.y]);
            }
        },
        _ => {},
    }
}

} // verus!
