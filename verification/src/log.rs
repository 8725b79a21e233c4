//! The append-only log of a chain's own posts.

use vstd::prelude::*;
use crate::types::{Post, PostView, post_views};

verus! {

/// The most recent posts of `log`, newest first, at most `max_window` of them.
pub open spec fn window_of(log: Seq<PostView>, max_window: nat) -> Seq<PostView> {
    let taken = if log.len() <= max_window { log.len() } else { max_window };
    Seq::new(taken, |i: int| log[log.len() - 1 - i])
}

/// A window is as long as the log or as the bound, whichever is less; read
/// backwards it is the end of the log.
pub proof fn lemma_window_is_reversed_suffix(log: Seq<PostView>, max_window: nat)
    ensures
        window_of(log, max_window).len() == if log.len() <= max_window { log.len() } else { max_window },
        window_of(log, max_window).reverse() == log.subrange(
            log.len() - window_of(log, max_window).len(),
            log.len() as int,
        ),
        forall|i: int|
            0 <= i < window_of(log, max_window).len() ==> #[trigger] window_of(log, max_window)[i]
                == log[log.len() - 1 - i],
{
    let w = window_of(log, max_window);
    assert(w.reverse() =~= log.subrange(log.len() - w.len(), log.len() as int));
}

/// The indices at which the window of a log of `count` posts is read, newest
/// first: from the last index down, at most `max_window` of them.
pub open spec fn window_indices_of(count: nat, max_window: nat) -> Seq<usize> {
    let taken = if count <= max_window { count } else { max_window };
    Seq::new(taken, |i: int| (count - 1 - i) as usize)
}

/// The indices of the posts that make the window of a log of `count` posts,
/// in the order in which the window holds them.
pub fn window_indices(count: usize, max_window: usize) -> (indices: Vec<usize>)
    ensures
        indices@ == window_indices_of(count as nat, max_window as nat),
{
    let taken = if count <= max_window { count } else { max_window };
    let mut indices: Vec<usize> = Vec::new();
    let mut i: usize = 0;
    while i < taken
        invariant
            taken <= count,
            i <= taken,
            indices@.len() == i,
            forall|j: int| 0 <= j < i ==> #[trigger] indices@[j] == count - 1 - j,
        decreases taken - i,
    {
        indices.push(count - 1 - i);
        i = i + 1;
    }
    assert(indices@ =~= window_indices_of(count as nat, max_window as nat));
    indices
}

/// Whether each place of `fetched` holds a post.
pub open spec fn all_present(fetched: Seq<Option<Post>>) -> bool {
    forall|i: int| 0 <= i < fetched.len() ==> (#[trigger] fetched[i]).is_some()
}

/// The posts of `fetched`, in the same order, where none is missing.
pub open spec fn present_views(fetched: Seq<Option<Post>>) -> Seq<PostView> {
    Seq::new(fetched.len(), |i: int| fetched[i].unwrap()@)
}

/// Makes a window of what a store gave for the indices of the window. A store
/// that has no post at an index below its own count is broken: then there is
/// no window.
pub fn window_from_fetched(fetched: Vec<Option<Post>>) -> (res: Option<Vec<Post>>)
    ensures
        res.is_some() == all_present(fetched@),
        res.is_some() ==> post_views(res.unwrap()@) == present_views(fetched@),
{
    let mut window: Vec<Post> = Vec::new();
    let mut i: usize = 0;
    while i < fetched.len()
        invariant
            i <= fetched@.len(),
            window@.len() == i,
            forall|j: int| 0 <= j < i ==> (#[trigger] fetched@[j]).is_some(),
            forall|j: int| 0 <= j < i ==> (#[trigger] window@[j])@ == fetched@[j].unwrap()@,
        decreases fetched@.len() - i,
    {
        match &fetched[i] {
            Some(post) => window.push(post.clone()),
            None => {
                return None;
            },
        }
        i = i + 1;
    }
    assert(post_views(window@) =~= present_views(fetched@));
    Some(window)
}

/// The posts that stand in `log` at the window's indices are the window.
pub proof fn lemma_window_by_indices(log: Seq<PostView>, max_window: nat)
    requires
        log.len() <= usize::MAX,
    ensures
        window_indices_of(log.len(), max_window).len() == window_of(log, max_window).len(),
        forall|i: int|
            0 <= i < window_of(log, max_window).len() ==> 0 <= (#[trigger] window_indices_of(
                log.len(),
                max_window,
            )[i]) < log.len() && log[window_indices_of(log.len(), max_window)[i] as int]
                == window_of(log, max_window)[i],
{
}

/// A chain's own posts, in the order in which they were made. Posts are only
/// ever added at the end.
pub struct Log {
    posts: Vec<Post>,
}

impl View for Log {
    type V = Seq<PostView>;

    closed spec fn view(&self) -> Seq<PostView> {
        post_views(self.posts@)
    }
}

impl Log {
    /// A log without posts.
    pub fn new() -> (log: Log)
        ensures
            log@ == Seq::<PostView>::empty(),
    {
        let log = Log { posts: Vec::new() };
        assert(log@ =~= Seq::<PostView>::empty());
        log
    }

    /// The number of posts.
    pub fn count(&self) -> (n: usize)
        ensures
            n == self@.len(),
    {
        self.posts.len()
    }

    /// Adds `post` at the end and returns its index.
    pub fn push(&mut self, post: Post) -> (index: usize)
        ensures
            final(self)@ == old(self)@.push(post@),
            index == old(self)@.len(),
    {
        let index = self.posts.len();
        self.posts.push(post);
        assert(self@ =~= old(self)@.push(post@));
        index
    }

    /// The post at `index`, if the log is that long.
    pub fn get(&self, index: usize) -> (res: Option<Post>)
        ensures
            index < self@.len() ==> res.is_some() && res.unwrap()@ == self@[index as int],
            index >= self@.len() ==> res.is_none(),
    {
        if index < self.posts.len() {
            Some(self.posts[index].clone())
        } else {
            None
        }
    }

    /// The most recent posts, newest first, at most `max_window` of them. They
    /// are read one by one at the indices of the window, from the last index
    /// down; the log holds a post at each of them.
    pub fn build_window(&self, max_window: usize) -> (window: Vec<Post>)
        ensures
            post_views(window@) == window_of(self@, max_window as nat),
    {
        let count = self.count();
        let indices = window_indices(count, max_window);
        let mut fetched: Vec<Option<Post>> = Vec::new();
        let mut i: usize = 0;
        proof {
            lemma_window_by_indices(self@, max_window as nat);
        }
        while i < indices.len()
            invariant
                i <= indices@.len(),
                indices@ == window_indices_of(self@.len(), max_window as nat),
                indices@.len() == window_of(self@, max_window as nat).len(),
                forall|j: int|
                    0 <= j < indices@.len() ==> 0 <= (#[trigger] indices@[j]) < self@.len()
                        && self@[indices@[j] as int] == window_of(self@, max_window as nat)[j],
                fetched@.len() == i,
                forall|j: int|
                    0 <= j < i ==> (#[trigger] fetched@[j]).is_some() && fetched@[j].unwrap()@
                        == window_of(self@, max_window as nat)[j],
            decreases indices@.len() - i,
        {
            fetched.push(self.get(indices[i]));
            i = i + 1;
        }
        assert(all_present(fetched@));
        assert(present_views(fetched@) =~= window_of(self@, max_window as nat));
        // Every index of the window lies below the count, so no post is missing.
        let window = window_from_fetched(fetched).unwrap();
        window
    }
}

} // verus!
