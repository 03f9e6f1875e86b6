use pixel_labs::time::{Duration, Instant};
use pixel_labs::timeline::{Ratio, Timeline};

fn timeline_of(durations: &[u32], caret: u32) -> Timeline<()> {
    let mut t = Timeline::new(30);
    for d in durations {
        t.push_block(Duration::from_millis(*d), ());
    }
    t.caret = Instant { millis: caret };
    t
}

#[test]
fn selection_in_second_block() {
    let t = timeline_of(&[3000, 2000], 3500);
    assert_eq!(t.selected_index(), Some(1));
    let local = t.local_time();
    assert_eq!(local, Ratio { num: 500, den: 2000 });
    assert_eq!(local.num as f32 / local.den as f32, 0.25);
}

#[test]
fn selection_at_boundaries() {
    assert_eq!(timeline_of(&[3000, 2000], 0).selected_index(), Some(0));
    assert_eq!(timeline_of(&[3000, 2000], 2999).selected_index(), Some(0));
    assert_eq!(timeline_of(&[3000, 2000], 3000).selected_index(), Some(1));
    assert_eq!(timeline_of(&[3000, 2000], 5000).selected_index(), None);
    assert_eq!(timeline_of(&[], 0).selected_index(), None);
    assert_eq!(timeline_of(&[3000, 2000], 5000).local_time(), Ratio { num: 0, den: 1 });
}

#[test]
fn duration_and_global_time() {
    let t = timeline_of(&[3000, 2000], 1000);
    assert_eq!(t.duration().as_millis(), 5000);
    assert_eq!(t.global_time(), Ratio { num: 1000, den: 5000 });
    assert_eq!(timeline_of(&[], 0).duration().as_millis(), 0);
}

#[test]
fn deleting_last_block_is_refused() {
    let mut t = timeline_of(&[3000], 100);
    assert!(!t.delete_selected());
    assert_eq!(t.blocks.len(), 1);
    assert_eq!(t.caret.millis, 100);
}

#[test]
fn delete_selected_removes_block_and_clamps() {
    let mut t = timeline_of(&[3000, 2000], 4000);
    assert!(t.delete_selected());
    assert_eq!(t.blocks.len(), 1);
    assert_eq!(t.blocks[0].0.as_millis(), 3000);
    assert_eq!(t.caret.millis, 2999);
}

#[test]
fn delete_past_end_is_refused() {
    let mut t = timeline_of(&[3000, 2000], 5000);
    assert!(!t.delete_selected());
    assert_eq!(t.blocks.len(), 2);
}

#[test]
fn cap_caret_clamps_into_range() {
    let mut t = timeline_of(&[3000, 2000], 7000);
    t.cap_caret();
    assert_eq!(t.caret.millis, 4999);
    let mut t = timeline_of(&[3000, 2000], 5000);
    t.cap_caret();
    assert_eq!(t.caret.millis, 4999);
    let mut t = timeline_of(&[3000], 10);
    t.cap_caret();
    assert_eq!(t.caret.millis, 10);
    let mut t = timeline_of(&[], 10);
    t.cap_caret();
    assert_eq!(t.caret.millis, 0);
}

#[test]
fn advance_moves_by_frame_and_clamps() {
    let mut t = timeline_of(&[1000], 0);
    t.advance();
    assert_eq!(t.caret.millis, 33);
    t.caret = Instant { millis: 990 };
    t.advance();
    assert_eq!(t.caret.millis, 999);
}

#[test]
fn duration_and_instant_arithmetic() {
    let d = Duration::from_millis(1200).add(&Duration::from_millis(300));
    assert_eq!(d.as_millis(), 1500);
    assert_eq!(Instant::zero().after(&d).millis, 1500);
    assert_eq!(Instant::default().millis, 0);
}

#[test]
fn selected_mut_edits_block_under_playhead() {
    let mut t = timeline_of(&[3000, 2000], 3200);
    if let Some((duration, _)) = t.selected_mut() {
        duration.millis = 1000;
    } else {
        panic!("a block under the playhead");
    }
    assert_eq!(t.blocks[1].0.as_millis(), 1000);
    assert_eq!(t.blocks[0].0.as_millis(), 3000);
    let mut t = timeline_of(&[3000], 3000);
    assert!(t.selected_mut().is_none());
}
