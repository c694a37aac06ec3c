//! The frames of a page.

use vstd::prelude::*;

use crate::text::{opt_copy, opt_view};

verus! {

/// A frame.
#[derive(Debug)]
pub struct FrameInfo {
    /// Its id.
    pub id: String,
    /// Its URL.
    pub url: String,
    /// Its name.
    pub name: Option<String>,
}

/// The value behind a `FrameInfo`.
pub struct FrameInfoView {
    pub id: Seq<char>,
    pub url: Seq<char>,
    pub name: Option<Seq<char>>,
}

impl View for FrameInfo {
    type V = FrameInfoView;

    open spec fn view(&self) -> FrameInfoView {
        FrameInfoView { id: self.id@, url: self.url@, name: opt_view(self.name) }
    }
}

/// A frame and the frames in it.
pub struct FrameTree {
    /// The frame.
    pub frame: FrameInfo,
    /// The frames in it.
    pub child_frames: Vec<FrameTree>,
}

/// The frames of some trees: each frame before those in it.
pub open spec fn collected(trees: Seq<FrameTree>) -> Seq<FrameInfoView>
    decreases trees,
{
    if trees.len() == 0 {
        Seq::empty()
    } else {
        let last = trees[trees.len() - 1];
        collected(trees.subrange(0, trees.len() - 1)) + (seq![last.frame@] + collected(
            last.child_frames@,
        ))
    }
}

/// The views of frames.
pub open spec fn frame_views(frames: Seq<FrameInfo>) -> Seq<FrameInfoView> {
    frames.map_values(|f: FrameInfo| f@)
}

impl FrameInfo {
    /// A frame with the same data.
    pub fn copy(&self) -> (f: FrameInfo)
        ensures
            f@ == self@,
    {
        FrameInfo { id: self.id.clone(), url: self.url.clone(), name: opt_copy(&self.name) }
    }
}

fn collect_frames(trees: &Vec<FrameTree>, frames: &mut Vec<FrameInfo>)
    ensures
        frame_views(final(frames)@) == frame_views(old(frames)@) + collected(trees@),
    decreases trees,
{
    let mut i: usize = 0;
    let ghost start = frame_views(frames@);
    assert(trees@.subrange(0, 0) =~= Seq::empty());
    assert(start + collected(trees@.subrange(0, 0)) =~= start);
    while i < trees.len()
        invariant
            i <= trees@.len(),
            start == frame_views(old(frames)@),
            frame_views(frames@) == start + collected(trees@.subrange(0, i as int)),
        decreases trees@.len() - i,
    {
        let tree = &trees[i];
        let ghost before = frame_views(frames@);
        frames.push(tree.frame.copy());
        assert(frame_views(frames@) =~= before + seq![tree.frame@]);
        proof {
            assert(decreases_to!(trees => trees@[i as int].child_frames));
        }
        collect_frames(&tree.child_frames, frames);
        proof {
            let taken = trees@.subrange(0, i + 1);
            assert(taken.subrange(0, taken.len() - 1) =~= trees@.subrange(0, i as int));
            assert(taken[taken.len() - 1] == *tree);
            assert(frame_views(frames@) =~= start + collected(taken));
        }
        i = i + 1;
    }
    assert(trees@.subrange(0, i as int) =~= trees@);
}

/// All frames of a page: the page's own, then those in it, each before those in it.
pub fn frames(tree: &FrameTree) -> (r: Vec<FrameInfo>)
    ensures
        frame_views(r@) == seq![tree.frame@] + collected(tree.child_frames@),
{
    let mut r: Vec<FrameInfo> = Vec::new();
    r.push(tree.frame.copy());
    assert(frame_views(r@) =~= seq![tree.frame@]);
    collect_frames(&tree.child_frames, &mut r);
    r
}

/// The frames of two lists of trees are those of the first, then those of the second.
pub proof fn law_frames_of_two_lists(a: Seq<FrameTree>, b: Seq<FrameTree>)
    ensures
        collected(a + b) == collected(a) + collected(b),
    decreases b.len(),
{
    if b.len() == 0 {
        assert(a + b =~= a);
        assert(collected(a) + collected(b) =~= collected(a));
    } else {
        let fewer = b.subrange(0, b.len() - 1);
        let last = b[b.len() - 1];
        law_frames_of_two_lists(a, fewer);
        let all = a + b;
        assert(all.subrange(0, all.len() - 1) =~= a + fewer);
        assert(all[all.len() - 1] == last);
        assert(collected(all) =~= collected(a) + collected(b));
    }
}

/// The frames of a tree are its own frame, with its id, its URL and its name, and then
/// those in it.
pub proof fn law_frame_comes_before_those_in_it(tree: FrameTree)
    ensures
        collected(seq![tree]).len() == 1 + collected(tree.child_frames@).len(),
        collected(seq![tree])[0].id == tree.frame.id@,
        collected(seq![tree])[0].url == tree.frame.url@,
        collected(seq![tree])[0].name == opt_view(tree.frame.name),
        collected(seq![tree]).skip(1) == collected(tree.child_frames@),
        collected(Seq::<FrameTree>::empty()).len() == 0,
{
    let one = seq![tree];
    let none = one.subrange(0, one.len() - 1);
    assert(none.len() == 0);
    assert(collected(none).len() == 0);
    assert(one[one.len() - 1] == tree);
    assert(collected(one) =~= seq![tree.frame@] + collected(tree.child_frames@));
    assert(collected(one).skip(1) =~= collected(tree.child_frames@));
}

} // verus!
