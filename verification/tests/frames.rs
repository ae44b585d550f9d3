use som_interpreter::frames::{FrameLinks, NonLocalReturn};

fn links(outer: Vec<Option<usize>>, chain: Vec<usize>) -> FrameLinks {
    FrameLinks { outer, chain }
}

#[test]
fn nth_frame_back_follows_lexical_parents() {
    let l = links(vec![None, Some(0), Some(1), None], vec![0, 3, 2]);
    assert_eq!(l.nth_frame_back(2, 0), 2);
    assert_eq!(l.nth_frame_back(2, 1), 1);
    assert_eq!(l.nth_frame_back(2, 2), 0);
}

#[test]
fn frames_above_counts_from_the_top() {
    let l = links(vec![None, Some(0), Some(1), None], vec![0, 3, 2]);
    assert_eq!(l.frames_above(2), Some(0));
    assert_eq!(l.frames_above(3), Some(1));
    assert_eq!(l.frames_above(0), Some(2));
    assert_eq!(l.frames_above(1), None);
}

#[test]
fn non_local_return_unwinds_to_the_method_frame() {
    // method frame 0 called method 3, which runs block frame 2 made in
    // block frame 1, itself made in frame 0
    let l = links(vec![None, Some(0), Some(1), None], vec![0, 3, 2]);
    assert_eq!(l.non_local_return(2), NonLocalReturn::Unwind(3));
    assert_eq!(l.non_local_return(0), NonLocalReturn::Unwind(1));
}

#[test]
fn non_local_return_from_an_escaped_block() {
    let l = links(vec![None, Some(0), Some(1), None], vec![3, 2]);
    assert_eq!(l.non_local_return(2), NonLocalReturn::Escaped);
    assert_eq!(l.non_local_return(1), NonLocalReturn::Escaped);
}

#[test]
fn popping_frames_shortens_the_chain() {
    let mut l = links(vec![None, Some(0), Some(1), None], vec![0, 3, 2]);
    l.pop_n_frames(2);
    assert_eq!(l.chain, vec![0]);
    let mut m = links(vec![None, None], vec![0, 1]);
    m.pop_frame();
    assert_eq!(m.chain, vec![0]);
}
