use rpg_battle::keyframe::{locate_keyframe, sort_keyframes, Keyframe, KeyframeSpan, Track};

fn kf(position: u64, value: char) -> Keyframe<char> {
    Keyframe { position, value }
}

fn positions_and_values(v: &[Keyframe<char>]) -> Vec<(u64, char)> {
    v.iter().map(|k| (k.position, k.value)).collect()
}

#[test]
fn sort_orders_by_position_and_is_stable() {
    let mut v = vec![kf(30, 'a'), kf(10, 'b'), kf(30, 'c'), kf(0, 'd'), kf(10, 'e')];
    sort_keyframes(&mut v);
    assert_eq!(
        positions_and_values(&v),
        vec![(0, 'd'), (10, 'b'), (10, 'e'), (30, 'a'), (30, 'c')]
    );
}

#[test]
fn sort_of_sorted_and_empty_tracks() {
    let mut v = vec![kf(1, 'a'), kf(2, 'b'), kf(2, 'c')];
    sort_keyframes(&mut v);
    assert_eq!(positions_and_values(&v), vec![(1, 'a'), (2, 'b'), (2, 'c')]);
    let mut e: Vec<Keyframe<char>> = Vec::new();
    sort_keyframes(&mut e);
    assert!(e.is_empty());
}

#[test]
fn locate_finds_first_enclosing_pair() {
    let v = vec![kf(0, 'a'), kf(10, 'b'), kf(20, 'c')];
    assert_eq!(locate_keyframe(&v, 0), KeyframeSpan::Between(0));
    assert_eq!(locate_keyframe(&v, 9), KeyframeSpan::Between(0));
    assert_eq!(locate_keyframe(&v, 10), KeyframeSpan::Between(1));
    assert_eq!(locate_keyframe(&v, 19), KeyframeSpan::Between(1));
    assert_eq!(locate_keyframe(&v, 20), KeyframeSpan::Unchanged);
    assert_eq!(locate_keyframe(&v, 21), KeyframeSpan::AfterLast);
}

#[test]
fn locate_before_first_and_single_keyframe() {
    let v = vec![kf(5, 'a'), kf(10, 'b')];
    assert_eq!(locate_keyframe(&v, 4), KeyframeSpan::BeforeFirst);
    let one = vec![kf(5, 'a')];
    assert_eq!(locate_keyframe(&one, 4), KeyframeSpan::BeforeFirst);
    assert_eq!(locate_keyframe(&one, 5), KeyframeSpan::Unchanged);
    assert_eq!(locate_keyframe(&one, 6), KeyframeSpan::AfterLast);
}

#[test]
fn every_inner_frame_of_a_sorted_track_is_enclosed() {
    let mut v = vec![kf(40, 'c'), kf(0, 'a'), kf(15, 'b')];
    sort_keyframes(&mut v);
    for frame in 0..40 {
        assert!(matches!(locate_keyframe(&v, frame), KeyframeSpan::Between(_)));
    }
}

#[test]
fn track_sorts_its_keyframes_and_names_its_entity() {
    let mut t: Track<char, u8> = Track::PositionTrack {
        bind_name: "enemy".to_string(),
        keyframes: vec![kf(3, 'x'), kf(1, 'y')],
    };
    t.sort_keyframes();
    assert_eq!(t.bind_name(), "enemy");
    match &t {
        Track::PositionTrack { keyframes, .. } => {
            assert_eq!(positions_and_values(keyframes), vec![(1, 'y'), (3, 'x')])
        }
        _ => panic!("variant changed"),
    }
    let c: Track<char, u8> = Track::RenderableColorTrack {
        bind_name: "menu-window".to_string(),
        keyframes: vec![],
    };
    assert_eq!(c.bind_name(), "menu-window");
}

#[test]
fn tracks_are_found_by_entity_name() {
    let tracks: Vec<Track<char, u8>> = vec![
        Track::PositionTrack { bind_name: "enemy".to_string(), keyframes: vec![] },
        Track::RenderableColorTrack { bind_name: "menu".to_string(), keyframes: vec![] },
        Track::RenderableColorTrack { bind_name: "enemy".to_string(), keyframes: vec![] },
    ];
    assert_eq!(rpg_battle::keyframe::tracks_bound_to(&tracks, &"enemy".to_string()), vec![0, 2]);
    assert_eq!(rpg_battle::keyframe::tracks_bound_to(&tracks, &"menu".to_string()), vec![1]);
    assert!(rpg_battle::keyframe::tracks_bound_to(&tracks, &"player".to_string()).is_empty());
}

#[test]
fn every_track_of_an_animation_is_sorted_in_place() {
    let mut tracks: Vec<Track<char, char>> = vec![
        Track::RenderableColorTrack { bind_name: "a".to_string(), keyframes: vec![kf(9, 'p'), kf(2, 'q')] },
        Track::PositionTrack { bind_name: "b".to_string(), keyframes: vec![kf(5, 'r'), kf(5, 's'), kf(1, 't')] },
    ];
    rpg_battle::keyframe::sort_tracks(&mut tracks);
    assert_eq!(tracks.len(), 2);
    match &tracks[0] {
        Track::RenderableColorTrack { bind_name, keyframes } => {
            assert_eq!(bind_name, "a");
            assert_eq!(positions_and_values(keyframes), vec![(2, 'q'), (9, 'p')]);
        }
        _ => panic!("variant changed"),
    }
    match &tracks[1] {
        Track::PositionTrack { bind_name, keyframes } => {
            assert_eq!(bind_name, "b");
            assert_eq!(positions_and_values(keyframes), vec![(1, 't'), (5, 'r'), (5, 's')]);
        }
        _ => panic!("variant changed"),
    }
}
