use doomie::engine::TextureID;
use doomie::sequence::Sequence;
use doomie::texture::TextureRef;

fn seq_frames(n: usize) -> Vec<TextureRef> {
    let mut v = Vec::new();
    let ids = [
        TextureID::SoldierWalking1,
        TextureID::SoldierWalking2,
        TextureID::SoldierWalking3,
        TextureID::SoldierWalking4,
    ];
    for i in 0..n {
        v.push(TextureRef::new(ids[i % 4], 64, 65536));
    }
    v
}

#[test]
fn blocked_next_never_changes_frame() {
    let mut s = Sequence::new(seq_frames(3), 2);
    s.next();
    s.next();
    let frame_before = s.current_texture;
    s.block();
    for _ in 0..10 {
        s.next();
    }
    assert_eq!(s.current_texture, frame_before);
    assert!(s.blocked);
}

#[test]
fn frame_advances_after_exactly_hold_threshold_calls() {
    let mut s = Sequence::new(seq_frames(3), 3);
    s.next();
    assert_eq!(s.current_texture, 0);
    s.next();
    assert_eq!(s.current_texture, 0);
    s.next();
    assert_eq!(s.current_texture, 1);
    assert_eq!(s.animation_count, 0);
}

#[test]
fn frame_wraps_past_the_end() {
    let mut s = Sequence::new(seq_frames(2), 1);
    s.next();
    assert_eq!(s.current_texture, 1);
    s.next();
    assert_eq!(s.current_texture, 0);
}

#[test]
fn done_iff_last_frame_held_full_threshold() {
    let mut s = Sequence::new(seq_frames(2), 2);
    assert!(!s.done());
    s.next();
    s.next();
    assert_eq!(s.current_texture, 1);
    assert!(!s.done());
    s.next();
    s.next();
    assert_eq!(s.current_texture, 0);
    let mut t = Sequence::new(seq_frames(1), 2);
    assert!(!t.done());
    t.next();
    assert!(!t.done());
    t.next();
    assert!(t.done());
    assert_eq!(t.current_texture, 0);
}

#[test]
fn single_frame_sequence_never_advances() {
    let mut s = Sequence::new(seq_frames(1), 2);
    for _ in 0..20 {
        s.next();
    }
    assert_eq!(s.current_texture, 0);
    assert!(s.done());
}

#[test]
fn reset_returns_to_first_frame_and_unblocks() {
    let mut s = Sequence::new(seq_frames(3), 1);
    s.next();
    s.next();
    s.block();
    s.reset();
    assert_eq!(s.current_texture, 0);
    assert_eq!(s.animation_count, 0);
    assert!(!s.blocked);
}

#[test]
fn sequence_reports_current_texture() {
    let frames = seq_frames(3);
    let mut s = Sequence::new(frames.clone(), 1);
    assert_eq!(s.get_texture_id(), frames[0].id());
    s.next();
    assert_eq!(s.get_texture_id(), frames[1].id());
}
