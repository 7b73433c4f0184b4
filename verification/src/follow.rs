//! Resolution follow: asking the host to render at exactly the size of the window.
use vstd::prelude::*;

verus! {

/// Milliseconds of quiet after the last change of size before the host is asked.
pub const FOLLOW_DEBOUNCE_MS: u64 = 300;

/// Milliseconds after which a request that has not shown is repeated.
pub const FOLLOW_RETRY_MS: u64 = 1200;

/// Requests for one size before giving up on it.
pub const FOLLOW_MAX_TRIES: u32 = 5;

/// How far following the window's size has come.
pub struct Follow {
    /// The last size of the window that was seen.
    pub target: (i32, i32),
    /// When the host is to be asked, in milliseconds; `None` for as soon as possible.
    pub at: Option<u64>,
    /// Requests spent on the current size.
    pub tries: u32,
}

/// What following does now.
#[derive(Debug, Clone, Copy, PartialEq, Eq)]
pub struct FollowStep {
    /// A follow is still under way: look again soon.
    pub pending: bool,
    /// Ask the host for this width and height.
    pub request: Option<(i32, i32)>,
}

/// The window's size as the protocol carries it, where it has one.
pub open spec fn window_size(viewport: (u32, u32)) -> Option<(i32, i32)> {
    if 0 < viewport.0 <= i32::MAX && 0 < viewport.1 <= i32::MAX {
        Some((viewport.0 as i32, viewport.1 as i32))
    } else {
        None
    }
}

/// Nothing to do and nothing under way.
pub open spec fn idle() -> FollowStep {
    FollowStep { pending: false, request: None }
}

/// The frame has the window's size.
pub open spec fn converged(frame: (usize, usize), size: (i32, i32)) -> bool {
    frame.0 as i32 == size.0 && frame.1 as i32 == size.1
}

/// Following the window's size, one look at a time. A window without a size is not followed. A frame
/// of the right size ends the follow. A new size starts the quiet time. After that the host is
/// asked, and asked again while the frame does not change, up to the limit.
pub open spec fn follow_step(st: Follow, viewport: (u32, u32), frame: (usize, usize), now: u64) -> (Follow, FollowStep) {
    match window_size(viewport) {
        None => (st, idle()),
        Some(size) => if converged(frame, size) {
            (Follow { target: size, at: None, tries: 0 }, idle())
        } else if size != st.target {
            (
                Follow { target: size, at: Some((now + FOLLOW_DEBOUNCE_MS) as u64), tries: 0 },
                FollowStep { pending: true, request: None },
            )
        } else if st.tries >= FOLLOW_MAX_TRIES {
            (st, idle())
        } else if st.due(now) {
            (
                Follow { target: size, at: Some((now + FOLLOW_RETRY_MS) as u64), tries: (st.tries + 1) as u32 },
                FollowStep { pending: true, request: Some(size) },
            )
        } else {
            (st, FollowStep { pending: true, request: None })
        },
    }
}

impl Follow {
    /// Nothing seen yet.
    pub fn new() -> (r: Self)
        ensures
            r.target == (0i32, 0i32),
            r.at is None,
            r.tries == 0,
    {
        Follow { target: (0, 0), at: None, tries: 0 }
    }

    /// The time to ask the host has come.
    pub open spec fn due(&self, now: u64) -> bool {
        match self.at {
            Some(t) => now >= t,
            None => true,
        }
    }

    /// Follow the window's size: each request restarts the host's capture, so a size that the host
    /// cannot reach is given up rather than asked for forever.
    pub fn maybe_follow(&mut self, viewport: (u32, u32), frame: (usize, usize), now: u64) -> (r: FollowStep)
        requires
            now + FOLLOW_RETRY_MS <= u64::MAX,
        ensures
            (*final(self), r) == follow_step(*old(self), viewport, frame, now),
    {
        if viewport.0 == 0 || viewport.0 > 0x7FFF_FFFF || viewport.1 == 0 || viewport.1 > 0x7FFF_FFFF {
            return FollowStep { pending: false, request: None };
        }
        let width: i32 = viewport.0 as i32;
        let height: i32 = viewport.1 as i32;
        let frame_width: i32 = #[verifier::truncate] (frame.0 as i32);
        let frame_height: i32 = #[verifier::truncate] (frame.1 as i32);
        if frame_width == width && frame_height == height {
            self.at = None;
            self.target = (width, height);
            self.tries = 0;
            return FollowStep { pending: false, request: None };
        }
        if width != self.target.0 || height != self.target.1 {
            self.target = (width, height);
            self.tries = 0;
            self.at = Some(now + FOLLOW_DEBOUNCE_MS);
            return FollowStep { pending: true, request: None };
        }
        if self.tries >= FOLLOW_MAX_TRIES {
            return FollowStep { pending: false, request: None };
        }
        let due: bool = match self.at {
            Some(t) => now >= t,
            None => true,
        };
        if due {
            self.tries = self.tries + 1;
            self.at = Some(now + FOLLOW_RETRY_MS);
            return FollowStep { pending: true, request: Some((width, height)) };
        }
        FollowStep { pending: true, request: None }
    }
}

/// A request is only ever made for the window's present size, once the quiet time is over, and counts
/// towards the limit of that size.
pub proof fn law_requests_are_counted(st: Follow, viewport: (u32, u32), frame: (usize, usize), now: u64)
    requires
        st.tries <= FOLLOW_MAX_TRIES,
    ensures
        follow_step(st, viewport, frame, now).0.tries <= FOLLOW_MAX_TRIES,
        follow_step(st, viewport, frame, now).1.request matches Some(size) ==> {
            &&& window_size(viewport) == Some(size)
            &&& st.target == size
            &&& !converged(frame, size)
            &&& st.due(now)
            &&& st.tries < FOLLOW_MAX_TRIES
            &&& follow_step(st, viewport, frame, now).0.tries == st.tries + 1
            &&& follow_step(st, viewport, frame, now).0.target == size
        },
{
}

/// A size that the host did not reach within the limit is not asked for again, however often the
/// follow is looked at, until the window changes.
pub proof fn law_gives_up(st: Follow, viewport: (u32, u32), frame: (usize, usize), now: u64)
    requires
        window_size(viewport) == Some(st.target),
        !converged(frame, st.target),
        st.tries >= FOLLOW_MAX_TRIES,
    ensures
        follow_step(st, viewport, frame, now) == (st, idle()),
{
}

/// A new size is not asked for before the window has been quiet for the quiet time.
pub proof fn law_quiet_time(st: Follow, viewport: (u32, u32), frame: (usize, usize), now: u64, later: u64)
    requires
        window_size(viewport) matches Some(size) && size != st.target && !converged(frame, size),
        now <= later < now + FOLLOW_DEBOUNCE_MS,
        now + FOLLOW_DEBOUNCE_MS <= u64::MAX,
    ensures
        follow_step(st, viewport, frame, now).1.request is None,
        follow_step(follow_step(st, viewport, frame, now).0, viewport, frame, later).1.request is None,
{
}

// ── any number of looks at one size ──

/// One look at the follow: the size of the frame, and the time in milliseconds.
pub type Look = ((usize, usize), u64);

/// How far following has come after `n` looks at a window of this size.
pub open spec fn after_looks(st: Follow, viewport: (u32, u32), looks: Seq<Look>, n: nat) -> Follow
    decreases n,
{
    if n == 0 {
        st
    } else {
        let before = after_looks(st, viewport, looks, (n - 1) as nat);
        follow_step(before, viewport, looks[n - 1].0, looks[n - 1].1).0
    }
}

/// What the look number `i` makes following do.
pub open spec fn look(st: Follow, viewport: (u32, u32), looks: Seq<Look>, i: int) -> FollowStep {
    follow_step(after_looks(st, viewport, looks, i as nat), viewport, looks[i].0, looks[i].1).1
}

/// How many of the first `n` looks ask the host.
pub open spec fn requests(st: Follow, viewport: (u32, u32), looks: Seq<Look>, n: nat) -> nat
    decreases n,
{
    if n == 0 {
        0
    } else {
        requests(st, viewport, looks, (n - 1) as nat) + if look(st, viewport, looks, n - 1).request is Some {
            1nat
        } else {
            0
        }
    }
}

/// Looks in the order of their times at a window of a size that was not followed yet and that the
/// frame never reaches; the clock does not run out.
pub open spec fn unmet(st: Follow, viewport: (u32, u32), looks: Seq<Look>) -> bool {
    &&& window_size(viewport) matches Some(size) && size != st.target && forall|i: int|
        0 <= i < looks.len() ==> !converged((#[trigger] looks[i]).0, size)
    &&& forall|i: int, j: int| 0 <= i <= j < looks.len() ==> (#[trigger] looks[i]).1 <= (#[trigger] looks[j]).1
    &&& forall|i: int| 0 <= i < looks.len() ==> (#[trigger] looks[i]).1 + FOLLOW_RETRY_MS <= u64::MAX
}

/// After `n` looks: the size is followed, every request was counted, and the host is not to be asked
/// before the quiet time is over and the last request is old enough.
spec fn counted_up(st: Follow, viewport: (u32, u32), looks: Seq<Look>, n: nat) -> bool {
    let now = after_looks(st, viewport, looks, n);
    &&& window_size(viewport) == Some(now.target)
    &&& now.tries == requests(st, viewport, looks, n)
    &&& now.tries <= FOLLOW_MAX_TRIES
    &&& now.at matches Some(at) && at >= looks[0].1 + FOLLOW_DEBOUNCE_MS && forall|i: int|
        0 <= i < n && (#[trigger] look(st, viewport, looks, i)).request is Some ==> at >= looks[i].1 + FOLLOW_RETRY_MS
}

proof fn lemma_counted_up(st: Follow, viewport: (u32, u32), looks: Seq<Look>, n: nat)
    requires
        unmet(st, viewport, looks),
        1 <= n <= looks.len(),
    ensures
        counted_up(st, viewport, looks, n),
    decreases n,
{
    reveal_with_fuel(after_looks, 2);
    reveal_with_fuel(requests, 2);
    assert(!converged(looks[n - 1].0, window_size(viewport)->0));
    assert(looks[0].1 + FOLLOW_RETRY_MS <= u64::MAX);
    assert(looks[n - 1].1 + FOLLOW_RETRY_MS <= u64::MAX);
    if n > 1 {
        lemma_counted_up(st, viewport, looks, (n - 1) as nat);
        assert(look(st, viewport, looks, n - 1) == look(st, viewport, looks, n - 1));
        assert forall|i: int|
            0 <= i < n && (#[trigger] look(st, viewport, looks, i)).request is Some implies after_looks(
            st,
            viewport,
            looks,
            n,
        ).at->0 >= looks[i].1 + FOLLOW_RETRY_MS by {
            assert(looks[i].1 <= looks[n - 1].1);
        }
        assert(looks[0].1 <= looks[n - 1].1);
    } else {
        assert(look(st, viewport, looks, 0).request is None);
    }
}

/// However often the follow is looked at while the window keeps a new size and the frame does not
/// reach it: the host is asked at most five times, each time for that size; not within the quiet
/// time after the size was first seen; and never twice within the time after which a request is
/// repeated. Up to and with the last request a follow is under way; from then on nothing is done.
pub proof fn law_one_size_is_asked_for_five_times(st: Follow, viewport: (u32, u32), looks: Seq<Look>)
    requires
        unmet(st, viewport, looks),
    ensures
        requests(st, viewport, looks, looks.len()) <= FOLLOW_MAX_TRIES,
        forall|i: int|
            0 <= i < looks.len() && (#[trigger] look(st, viewport, looks, i)).request is Some ==> {
                &&& look(st, viewport, looks, i).request == window_size(viewport)
                &&& looks[i].1 >= looks[0].1 + FOLLOW_DEBOUNCE_MS
            },
        forall|i: int, j: int|
            0 <= i < j < looks.len() && (#[trigger] look(st, viewport, looks, i)).request is Some && (#[trigger] look(
                st,
                viewport,
                looks,
                j,
            )).request is Some ==> looks[j].1 >= looks[i].1 + FOLLOW_RETRY_MS,
        forall|i: int|
            0 <= i < looks.len() ==> if requests(st, viewport, looks, i as nat) < FOLLOW_MAX_TRIES {
                (#[trigger] look(st, viewport, looks, i)).pending
            } else {
                look(st, viewport, looks, i) == idle()
            },
{
    if looks.len() > 0 {
        lemma_counted_up(st, viewport, looks, looks.len());
    }
    assert forall|i: int| 0 <= i < looks.len() implies ({
        &&& (#[trigger] look(st, viewport, looks, i)).request is Some ==> look(st, viewport, looks, i).request == window_size(
            viewport,
        ) && looks[i].1 >= looks[0].1 + FOLLOW_DEBOUNCE_MS
        &&& if requests(st, viewport, looks, i as nat) < FOLLOW_MAX_TRIES {
            look(st, viewport, looks, i).pending
        } else {
            look(st, viewport, looks, i) == idle()
        }
    }) by {
        assert(!converged(looks[i].0, window_size(viewport)->0));
        if i > 0 {
            lemma_counted_up(st, viewport, looks, i as nat);
        }
    }
    assert forall|i: int, j: int|
        0 <= i < j < looks.len() && (#[trigger] look(st, viewport, looks, i)).request is Some && (#[trigger] look(
            st,
            viewport,
            looks,
            j,
        )).request is Some implies looks[j].1 >= looks[i].1 + FOLLOW_RETRY_MS by {
        lemma_counted_up(st, viewport, looks, j as nat);
        assert(!converged(looks[j].0, window_size(viewport)->0));
    }
}

// ── one look, in numbers ──

/// What a look at a window with a size does, whatever was seen before. Nothing is left to do exactly when
/// the frame is as wide and as high as the window, or when the host was asked five times for this very
/// size. A size that is not the one followed so far starts 300 ms of quiet. After that the host is asked
/// for the window's width and height, and asked again every 1200 ms.
pub proof fn law_one_look(st: Follow, viewport: (u32, u32), frame: (usize, usize), now: u64)
    requires
        0 < viewport.0 <= 0x7FFF_FFFF,
        0 < viewport.1 <= 0x7FFF_FFFF,
        frame.0 <= 0x7FFF_FFFF,
        frame.1 <= 0x7FFF_FFFF,
        now + 1200 <= u64::MAX,
    ensures
        ({
            let (after, step) = follow_step(st, viewport, frame, now);
            let same_size = st.target.0 == viewport.0 && st.target.1 == viewport.1;
            let met = frame.0 == viewport.0 && frame.1 == viewport.1;
            let quiet = st.at matches Some(t) && now < t;
            &&& step.pending <==> !met && !(same_size && st.tries >= 5)
            &&& step.request is Some <==> !met && same_size && st.tries < 5 && !quiet
            &&& step.request matches Some((w, h)) ==> w == viewport.0 && h == viewport.1
            &&& met ==> after.tries == 0 && after.at is None
            &&& !met && !same_size ==> after.tries == 0 && after.at == Some((now + 300) as u64)
            &&& step.request is Some ==> after.tries == st.tries + 1 && after.at == Some((now + 1200) as u64)
            &&& !met && same_size && step.request is None ==> after.tries == st.tries && after.at == st.at
            &&& after.target.0 == viewport.0 && after.target.1 == viewport.1
        }),
{
}

/// A window of a size that the frame does not have, in its width or in its height alone, is not left at
/// that: the first look at it is pending, and so is every later one until the host is asked; once 300 ms
/// have gone by the host is asked for exactly that width and height.
pub proof fn law_unmet_size_is_asked_for(
    st: Follow,
    viewport: (u32, u32),
    frame: (usize, usize),
    later_frame: (usize, usize),
    now: u64,
    later: u64,
)
    requires
        0 < viewport.0 <= 0x7FFF_FFFF,
        0 < viewport.1 <= 0x7FFF_FFFF,
        frame.0 <= 0x7FFF_FFFF && frame.1 <= 0x7FFF_FFFF,
        later_frame.0 <= 0x7FFF_FFFF && later_frame.1 <= 0x7FFF_FFFF,
        frame.0 != viewport.0 || frame.1 != viewport.1,
        later_frame.0 != viewport.0 || later_frame.1 != viewport.1,
        st.target.0 != viewport.0 || st.target.1 != viewport.1,
        now <= later,
        later + 1200 <= u64::MAX,
    ensures
        ({
            let (seen, first) = follow_step(st, viewport, frame, now);
            let (_, second) = follow_step(seen, viewport, later_frame, later);
            &&& first.pending && first.request is None
            &&& second.pending
            &&& later >= now + 300 ==> second.request == Some((viewport.0 as i32, viewport.1 as i32))
            &&& later < now + 300 ==> second.request is None
        }),
{
}

/// A window without a width or a height, or with one that the protocol cannot say, is not followed.
pub proof fn law_no_size_no_follow(st: Follow, viewport: (u32, u32), frame: (usize, usize), now: u64)
    requires
        viewport.0 == 0 || viewport.1 == 0 || viewport.0 > 0x7FFF_FFFF || viewport.1 > 0x7FFF_FFFF,
    ensures
        follow_step(st, viewport, frame, now).0 == st,
        !follow_step(st, viewport, frame, now).1.pending,
        follow_step(st, viewport, frame, now).1.request is None,
        window_size(viewport) is None,
{
}

} // verus!
