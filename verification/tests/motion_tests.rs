use stunts_native::motion::{
    easing_from_name, finalize_animation, merge_motion_path, ApiAnimationData, ApiAnimationProperty, ApiKeyframe,
    ApiKeyframeValue, ApiPosition, EasingType, KeyType, KeyframeValue, ObjectType, PathType,
};

fn keyframe(time: i32, value: ApiKeyframeValue, easing: &str) -> ApiKeyframe {
    ApiKeyframe { time, value, easing: easing.to_string() }
}

#[test]
fn defaults() {
    let k = ApiKeyframe::default();
    assert_eq!(k.time, 0);
    assert_eq!(k.value, ApiKeyframeValue::Position { Position: ApiPosition { x: 0, y: 0 } });
    assert_eq!(k.easing, "Linear");
    let d = ApiAnimationData::default();
    assert_eq!(d.id, "");
    assert_eq!(d.duration, 0);
    assert!(d.properties.is_empty());
    assert!(ApiAnimationProperty::default().keyframes.is_empty());
    assert_eq!(ApiPosition::default(), ApiPosition { x: 0, y: 0 });
}

#[test]
fn easing_names() {
    assert_eq!(easing_from_name(&"EaseIn".to_string()), EasingType::EaseIn);
    assert_eq!(easing_from_name(&"EaseOut".to_string()), EasingType::EaseOut);
    assert_eq!(easing_from_name(&"EaseInOut".to_string()), EasingType::EaseInOut);
    assert_eq!(easing_from_name(&"Linear".to_string()), EasingType::Linear);
    assert_eq!(easing_from_name(&"easein".to_string()), EasingType::Linear);
}

#[test]
fn answer_becomes_animation_data() {
    let answer = ApiAnimationData {
        id: "anim".to_string(),
        duration: 3000,
        properties: vec![
            ApiAnimationProperty {
                name: "Position".to_string(),
                keyframes: vec![
                    keyframe(0, ApiKeyframeValue::Position { Position: ApiPosition { x: 100, y: 200 } }, "EaseIn"),
                    keyframe(-1, ApiKeyframeValue::Scale { Scale: 150 }, "Bounce"),
                ],
            },
            ApiAnimationProperty {
                name: "Opacity".to_string(),
                keyframes: vec![keyframe(2500, ApiKeyframeValue::Opacity { Opacity: 40 }, "EaseOut")],
            },
        ],
    };
    let data = answer.to_animation_data("obj-7".to_string(), ObjectType::TextItem);
    assert_eq!(data.id, "anim");
    assert_eq!(data.polygon_id, "obj-7");
    assert_eq!(data.object_type, ObjectType::TextItem);
    assert_eq!(data.duration_ms, 3000);
    assert_eq!(data.start_time_ms, 0);
    assert_eq!(data.position, [0, 0]);
    assert_eq!(data.properties.len(), 2);
    let p = &data.properties[0];
    assert_eq!(p.name, "Position");
    assert_eq!(p.property_path, "");
    assert_eq!(p.depth, 0);
    assert_eq!(p.keyframes[0].time_ms, 0);
    assert!(matches!(p.keyframes[0].value, KeyframeValue::Position([100, 200])));
    assert_eq!(p.keyframes[0].easing, EasingType::EaseIn);
    assert_eq!(p.keyframes[0].path_type, PathType::Linear);
    assert_eq!(p.keyframes[0].key_type, KeyType::Frame);
    assert_eq!(p.keyframes[1].time_ms, u64::MAX);
    assert!(matches!(p.keyframes[1].value, KeyframeValue::Scale(150)));
    assert_eq!(p.keyframes[1].easing, EasingType::Linear);
    assert_ne!(p.keyframes[0].id, p.keyframes[1].id);
    assert_eq!(p.keyframes[0].id.len(), 36);
    assert!(matches!(data.properties[1].keyframes[0].value, KeyframeValue::Opacity(40)));
}

#[test]
fn finalize_for_video() {
    let answer = ApiAnimationData { id: "x".to_string(), duration: 10, properties: Vec::new() };
    let data = answer.to_animation_data("old".to_string(), ObjectType::Polygon);
    let (data, zoom) = finalize_animation(data, "video-1".to_string(), ObjectType::VideoItem);
    assert!(zoom);
    assert_eq!(data.polygon_id, "video-1");
    assert_ne!(data.id, "x");
    assert_eq!(data.id.len(), 36);
    assert_eq!(data.object_type, ObjectType::Polygon);
    let answer = ApiAnimationData { id: "y".to_string(), duration: 10, properties: Vec::new() };
    let (_, zoom) = finalize_animation(answer.to_animation_data("p".to_string(), ObjectType::Polygon), "p".to_string(), ObjectType::ImageItem);
    assert!(!zoom);
}

#[test]
fn merge_replaces_object_path() {
    let mut paths = vec![
        ("a".to_string(), 1),
        ("b".to_string(), 2),
        ("a".to_string(), 3),
        ("c".to_string(), 4),
    ];
    merge_motion_path(&mut paths, "a".to_string(), 9);
    assert_eq!(paths, vec![("b".to_string(), 2), ("c".to_string(), 4), ("a".to_string(), 9)]);
    merge_motion_path(&mut paths, "a".to_string(), 9);
    assert_eq!(paths, vec![("b".to_string(), 2), ("c".to_string(), 4), ("a".to_string(), 9)]);
    merge_motion_path(&mut paths, "d".to_string(), 5);
    assert_eq!(paths.len(), 4);
    assert_eq!(paths[3], ("d".to_string(), 5));
}
