use ldtk_integration::animation::parse_tile_animation_syntax;
use ldtk_integration::tilemap::{
    animator_texture_index, first_frame_texture_index, resolve_level_iid_from_metadata,
    tile_animation_entries, tile_grid_position,
};
use ldtk_integration::{
    LdtkFrameTimer, LdtkIntPoint, LdtkLayerInfo, LdtkLevelInfo, LdtkMapCatalog, LdtkTileMetadata, LdtkTileAnimation, LdtkTileAnimationFrame, LdtkTileAnimator,
    LdtkTimingDirective,
};
use std::time::Duration;

fn nanos(seconds: f32) -> u64 {
    Duration::from_secs_f32(seconds).as_nanos() as u64
}

fn delta(duration: Duration) -> u64 {
    duration.as_nanos() as u64
}

fn two_frame_animation(repeat: bool) -> LdtkTileAnimation {
    LdtkTileAnimation {
        frames: vec![
            LdtkTileAnimationFrame {
                tile_id: 1,
                duration_nanos: nanos(0.05),
            },
            LdtkTileAnimationFrame {
                tile_id: 2,
                duration_nanos: nanos(0.05),
            },
        ],
        repeat,
    }
}

fn timing_texts(timing: &[LdtkTimingDirective]) -> Vec<(bool, String)> {
    timing
        .iter()
        .map(|d| match d {
            LdtkTimingDirective::Fps(t) => (true, t.clone()),
            LdtkTimingDirective::Seconds(t) => (false, t.clone()),
        })
        .collect()
}

#[test]
fn parses_animation_custom_data_with_fps() {
    let animation = parse_tile_animation_syntax("anim=1,2,3;fps=12").expect("animation");

    assert_eq!(animation.frames.len(), 3);
    assert_eq!(animation.frames[0].tile_id, 1);
    assert_eq!(animation.frames[0].duration, None);
    assert_eq!(timing_texts(&animation.timing), vec![(true, "12".to_string())]);
    assert!(animation.repeat);
}

#[test]
fn parses_animation_custom_data_with_frame_durations() {
    let animation =
        parse_tile_animation_syntax("frames=4@0.1,5@0.25;repeat=false").expect("animation");

    assert_eq!(animation.frames.len(), 2);
    assert_eq!(animation.frames[1].tile_id, 5);
    assert_eq!(animation.frames[1].duration.as_deref(), Some("0.25"));
    assert!(!animation.repeat);
}

#[test]
fn ignores_custom_data_without_animation_marker() {
    assert!(parse_tile_animation_syntax("solid=true").is_none());
}

#[test]
fn repeating_animation_wraps_around() {
    let mut animator = LdtkTileAnimator::new(two_frame_animation(true));

    assert_eq!(animator.advance(delta(Duration::from_millis(60))), Some(2));
    assert_eq!(animator.advance(delta(Duration::from_millis(60))), Some(1));
    assert!(!animator.is_finished());
}

#[test]
fn non_repeating_animation_stops_on_last_frame() {
    let mut animator = LdtkTileAnimator::new(two_frame_animation(false));

    assert_eq!(animator.advance(delta(Duration::from_millis(60))), Some(2));
    assert!(animator.is_finished());

    assert_eq!(animator.advance(delta(Duration::from_millis(60))), None);
    assert_eq!(animator.advance(delta(Duration::from_secs(10))), None);
    assert_eq!(animator.frame_index, 1);
}

#[test]
fn short_tick_keeps_the_frame() {
    let mut animator = LdtkTileAnimator::new(two_frame_animation(true));
    assert_eq!(animator.advance(delta(Duration::from_millis(10))), None);
    assert_eq!(animator.frame_index, 0);
}

#[test]
fn timer_holds_each_frame_for_its_own_duration() {
    let animation = LdtkTileAnimation {
        frames: vec![
            LdtkTileAnimationFrame { tile_id: 7, duration_nanos: 30 },
            LdtkTileAnimationFrame { tile_id: 8, duration_nanos: 2_000_000_000 },
        ],
        repeat: true,
    };
    let mut animator = LdtkTileAnimator::new(animation);
    // The first frame's 30 ns are raised to the 1 ms minimum.
    assert_eq!(animator.timer, LdtkFrameTimer { duration_nanos: 1_000_000, elapsed_nanos: 0 });
    assert_eq!(animator.advance(400_000), None);
    assert_eq!(animator.timer.elapsed_nanos, 400_000);
    assert_eq!(animator.advance(600_000), Some(8));
    // The second frame restarts the timer with its own duration.
    assert_eq!(animator.timer, LdtkFrameTimer { duration_nanos: 2_000_000_000, elapsed_nanos: 0 });
    assert_eq!(animator.advance(1_999_999_999), None);
    assert_eq!(animator.advance(1), Some(7));
    // However long the tick, one frame is stepped.
    assert_eq!(animator.advance(u64::MAX), Some(8));
    assert_eq!(animator.frame_index, 1);
}

#[test]
fn frame_timer_repeats_and_keeps_the_remainder() {
    let mut timer = LdtkFrameTimer::new(50);
    assert!(!timer.tick(20));
    assert!(timer.tick(45));
    assert_eq!(timer.elapsed_nanos, 15);
    let mut zero = LdtkFrameTimer::new(0);
    assert!(zero.tick(0));
    assert_eq!(zero.elapsed_nanos, 0);
    let mut saturating = LdtkFrameTimer { duration_nanos: u64::MAX, elapsed_nanos: u64::MAX - 1 };
    assert!(saturating.tick(5));
    assert_eq!(saturating.elapsed_nanos, 0);
}

#[test]
fn empty_animation_never_advances() {
    let mut animator = LdtkTileAnimator::new(LdtkTileAnimation::default());
    assert_eq!(animator.timer, LdtkFrameTimer { duration_nanos: 100_000_001, elapsed_nanos: 0 });
    assert_eq!(animator.advance(delta(Duration::from_secs(5))), None);
    assert_eq!(animator.frame_index, 0);
    assert!(animator.is_finished());
}

#[test]
fn step_frame_wraps_and_holds() {
    let mut animator = LdtkTileAnimator::new(two_frame_animation(true));
    assert_eq!(animator.step_frame(false), None);
    assert_eq!(animator.step_frame(true), Some(2));
    assert_eq!(animator.step_frame(true), Some(1));
    assert_eq!(animator.frame_index, 0);
}

#[test]
fn syntax_reads_trimmed_entries_signs_and_skips_bad_ids() {
    let animation =
        parse_tile_animation_syntax("  anim: +3 , -4,abc, ,99999999999, 7 @ 0.5 ; duration= 2 ; repeat = no  ")
            .expect("animation");
    let ids: Vec<i32> = animation.frames.iter().map(|f| f.tile_id).collect();
    assert_eq!(ids, vec![3, -4, 7]);
    assert_eq!(animation.frames[2].duration.as_deref(), Some("0.5"));
    assert_eq!(timing_texts(&animation.timing), vec![(false, "2".to_string())]);
    // `repeat = no` does not start with `repeat=`, so it is no directive.
    assert!(animation.repeat);
}

#[test]
fn syntax_keeps_timing_directives_in_order_and_last_frame_list_wins() {
    let animation =
        parse_tile_animation_syntax("fps=10;anim=1;frames=8,9;duration=0.2;repeat=0").expect("animation");
    let ids: Vec<i32> = animation.frames.iter().map(|f| f.tile_id).collect();
    assert_eq!(ids, vec![8, 9]);
    assert_eq!(
        timing_texts(&animation.timing),
        vec![(true, "10".to_string()), (false, "0.2".to_string())]
    );
    assert!(!animation.repeat);
}

#[test]
fn syntax_without_readable_frames_is_none() {
    assert!(parse_tile_animation_syntax("anim=x,y").is_none());
    assert!(parse_tile_animation_syntax("   ").is_none());
    assert!(parse_tile_animation_syntax("anim=2147483648").is_none());
    let max = parse_tile_animation_syntax("anim=-2147483648").expect("animation");
    assert_eq!(max.frames[0].tile_id, i32::MIN);
}

#[test]
fn tile_grid_position_divides_toward_zero() {
    let point = |x: i32, y: i32| LdtkIntPoint { x, y };
    assert_eq!(tile_grid_position(point(33, 16), 16), Some(point(2, 1)));
    assert_eq!(tile_grid_position(point(-17, 0), 16), Some(point(-1, 0)));
    assert_eq!(tile_grid_position(point(10, 10), 0), None);
}

fn tile(layer_iid: &str, x: i32, y: i32, animation: Option<LdtkTileAnimation>) -> LdtkTileMetadata {
    LdtkTileMetadata {
        layer_iid: layer_iid.to_string(),
        layer_position: LdtkIntPoint { x, y },
        animation,
        ..Default::default()
    }
}

#[test]
fn animated_tiles_are_listed_by_layer_and_cell() {
    let mut catalog = LdtkMapCatalog::new();
    for (iid, grid_size) in [("layer-16", 16), ("layer-0", 0)] {
        catalog.insert_layer_info(LdtkLayerInfo {
            iid: iid.to_string(),
            grid_size,
            ..Default::default()
        });
    }
    catalog.insert_level_info(LdtkLevelInfo {
        identifier: "A".to_string(),
        iid: "a".to_string(),
        tiles: vec![
            tile("layer-16", 33, 16, Some(two_frame_animation(false))),
            tile("layer-16", 0, 0, None),
            tile("layer-0", 0, 0, Some(two_frame_animation(true))),
            tile("unknown", 0, 0, Some(two_frame_animation(true))),
        ],
        ..Default::default()
    });
    catalog.insert_level_info(LdtkLevelInfo {
        identifier: "B".to_string(),
        iid: "b".to_string(),
        tiles: vec![tile("layer-16", -17, 0, Some(two_frame_animation(true)))],
        ..Default::default()
    });
    let entries = tile_animation_entries(&catalog);
    assert_eq!(entries.len(), 2);
    assert_eq!(entries[0].level_iid, "a");
    assert_eq!(entries[0].layer_iid, "layer-16");
    assert_eq!(entries[0].cell, LdtkIntPoint { x: 2, y: 1 });
    assert_eq!(entries[0].animation.frames.len(), 2);
    assert!(!entries[0].animation.repeat);
    assert_eq!(entries[1].level_iid, "b");
    assert_eq!(entries[1].cell, LdtkIntPoint { x: -1, y: 0 });
    assert!(entries[1].animation.repeat);
    assert!(tile_animation_entries(&LdtkMapCatalog::new()).is_empty());
}

#[test]
fn texture_indices_follow_frames() {
    let animation = two_frame_animation(true);
    assert_eq!(first_frame_texture_index(&animation), Some(1));
    assert_eq!(first_frame_texture_index(&LdtkTileAnimation::default()), None);
    let mut animator = LdtkTileAnimator::new(animation);
    assert_eq!(animator_texture_index(&animator), Some(1));
    animator.frame_index = 1;
    assert_eq!(animator_texture_index(&animator), Some(2));
    animator.frame_index = 5;
    assert_eq!(animator_texture_index(&animator), None);
    let negative = LdtkTileAnimation {
        frames: vec![LdtkTileAnimationFrame { tile_id: -1, duration_nanos: 1 }],
        repeat: true,
    };
    assert_eq!(first_frame_texture_index(&negative), Some(u32::MAX));
}

#[test]
fn metadata_level_id_resolves_to_iid() {
    let mut catalog = LdtkMapCatalog::new();
    catalog.insert_level_info(LdtkLevelInfo {
        identifier: "Level_0".to_string(),
        iid: "iid-0".to_string(),
        ..Default::default()
    });
    assert_eq!(resolve_level_iid_from_metadata(&catalog, "Level_0"), "iid-0");
    assert_eq!(resolve_level_iid_from_metadata(&catalog, "iid-0"), "iid-0");
    assert_eq!(resolve_level_iid_from_metadata(&catalog, "other"), "other");
}
