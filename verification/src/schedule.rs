//! When each repository is due, and how long to wait. Times are in
//! nanoseconds from a moment that does not change.

use vstd::prelude::*;

verus! {

/// The longest time that is waited at once: one second.
pub const LONGEST_WAIT: u128 = 1_000_000_000;

/// The first repository, from a place on, that is due.
pub open spec fn first_due(times: Seq<u128>, from: int, now: u128) -> Option<int>
    decreases times.len() - from,
{
    if from < 0 || from >= times.len() {
        None
    } else if now >= times[from] {
        Some(from)
    } else {
        first_due(times, from + 1, now)
    }
}

/// The earliest of some times.
pub open spec fn earliest(times: Seq<u128>) -> Option<u128>
    decreases times.len(),
{
    if times.len() == 0 {
        None
    } else {
        match earliest(times.drop_last()) {
            Some(time) if time <= times.last() => Some(time),
            _ => Some(times.last()),
        }
    }
}

/// How long to wait: until the earliest time, but no longer than
/// [`LONGEST_WAIT`].
pub open spec fn wait(times: Seq<u128>, now: u128) -> u128 {
    match earliest(times) {
        None => LONGEST_WAIT,
        Some(time) => if time <= now {
            0
        } else if time - now <= LONGEST_WAIT {
            (time - now) as u128
        } else {
            LONGEST_WAIT
        },
    }
}

/// What to do next.
#[derive(Debug)]
pub enum WatchAction {
    /// Run a round for the repository at this place.
    Sync(usize),
    /// Wait for this long.
    Sleep(u128),
    /// Stop watching.
    Stop,
}

/// Repositories that are watched, each at an interval of its own: passes are
/// made over them in which a round is run for each that is due.
#[derive(Debug)]
pub struct Watch {
    times: Vec<u128>,
    intervals: Vec<u128>,
    syncing: Option<(usize, u128)>,
}

/// What a [`Watch`] says.
#[verifier::ext_equal]
pub struct WatchView {
    /// When each repository is next due.
    pub times: Seq<u128>,
    /// How long after a round each repository is due again.
    pub intervals: Seq<u128>,
    /// The repository for which a round is running, with the time at which the
    /// pass began.
    pub syncing: Option<(usize, u128)>,
}

impl View for Watch {
    type V = WatchView;

    closed spec fn view(&self) -> WatchView {
        WatchView { times: self.times@, intervals: self.intervals@, syncing: self.syncing }
    }
}

/// How a pass goes on from a place: with the next repository that was due when
/// it began, and after the last with a wait, or the end if nothing is to be
/// watched any longer.
pub open spec fn pass_step(
    watch: WatchView,
    from: int,
    pass: u128,
    running: bool,
    now: u128,
) -> (WatchView, WatchAction) {
    match first_due(watch.times, from, pass) {
        Some(i) => (
            WatchView { syncing: Some((i as usize, pass)), ..watch },
            WatchAction::Sync(i as usize),
        ),
        None => (
            WatchView { syncing: None, ..watch },
            if running {
                WatchAction::Sleep(wait(watch.times, now))
            } else {
                WatchAction::Stop
            },
        ),
    }
}

/// What to do next: a pass begins unless one is under way, in which case the
/// repository whose round is over is due again one interval from now.
pub open spec fn watch_step(watch: WatchView, running: bool, now: u128) -> (
    WatchView,
    WatchAction,
) {
    match watch.syncing {
        None => if running {
            pass_step(watch, 0, now, running, now)
        } else {
            (watch, WatchAction::Stop)
        },
        Some((i, pass)) => pass_step(
            WatchView {
                times: watch.times.update(i as int, (now + watch.intervals[i as int]) as u128),
                ..watch
            },
            i + 1,
            pass,
            running,
            now,
        ),
    }
}

impl Watch {
    #[verifier::type_invariant]
    spec fn well_formed(self) -> bool {
        &&& self.times.len() == self.intervals.len()
        &&& self.syncing matches Some((i, _)) ==> i < self.times.len()
    }

    /// A watch over repositories with these intervals, all of which are due at
    /// `start`.
    pub fn new(intervals: Vec<u128>, start: u128) -> (watch: Self)
        ensures
            watch@ == (WatchView {
                times: Seq::new(intervals@.len(), |i: int| start),
                intervals: intervals@,
                syncing: None,
            }),
    {
        let mut times: Vec<u128> = Vec::new();
        let mut i: usize = 0;
        while i < intervals.len()
            invariant
                i <= intervals.len(),
                times@ =~= Seq::new(i as nat, |i: int| start),
            decreases intervals.len() - i,
        {
            times.push(start);
            i = i + 1;
        }
        Watch { times, intervals, syncing: None }
    }

    /// The first repository, from a place on, that is due.
    fn next_due(&self, from: usize, now: u128) -> (place: Option<usize>)
        requires
            from <= self@.times.len(),
        ensures
            match place {
                Some(i) => first_due(self@.times, from as int, now) == Some(i as int) && i
                    < self@.times.len(),
                None => first_due(self@.times, from as int, now) is None,
            },
    {
        let mut i: usize = from;
        while i < self.times.len()
            invariant
                first_due(self@.times, from as int, now) == first_due(self@.times, i as int, now),
            decreases self.times.len() - i,
        {
            if now >= self.times[i] {
                return Some(i);
            }
            i = i + 1;
        }
        None
    }

    /// How long to wait until something is due, at most one second.
    fn sleep_for(&self, now: u128) -> (time: u128)
        ensures
            time == wait(self@.times, now),
    {
        let ghost times = self@.times;
        let mut first: Option<u128> = None;
        let mut i: usize = 0;
        assert(times.take(0) =~= Seq::empty());
        while i < self.times.len()
            invariant
                i <= self.times.len(),
                times == self.times@,
                first == earliest(times.take(i as int)),
            decreases self.times.len() - i,
        {
            let time: u128 = self.times[i];
            assert(times.take(i + 1).drop_last() =~= times.take(i as int));
            first = match first {
                Some(earlier) => if earlier <= time {
                    Some(earlier)
                } else {
                    Some(time)
                },
                None => Some(time),
            };
            i = i + 1;
        }
        assert(times.take(i as int) =~= times);
        match first {
            None => LONGEST_WAIT,
            Some(time) => if time <= now {
                0
            } else if time - now <= LONGEST_WAIT {
                time - now
            } else {
                LONGEST_WAIT
            },
        }
    }

    /// What to do next. It is asked for at the start, after each round and
    /// after each wait, with the time and whether to go on watching.
    pub fn next(&mut self, running: bool, now: u128) -> (action: WatchAction)
        requires
            forall|i: int|
                0 <= i < old(self)@.intervals.len() ==> now + #[trigger] old(self)@.intervals[i]
                    <= u128::MAX,
        ensures
            (final(self)@, action) == watch_step(old(self)@, running, now),
    {
        proof {
            use_type_invariant(&*self);
        }
        let mut from: usize = 0;
        let mut pass: u128 = now;
        match self.syncing {
            None => {
                if !running {
                    return WatchAction::Stop;
                }
            },
            Some((i, began)) => {
                assert(self@.intervals[i as int] == self.intervals@[i as int]);
                let time: u128 = now + self.intervals[i];
                self.times[i] = time;
                from = i + 1;
                pass = began;
            },
        }
        match self.next_due(from, pass) {
            Some(i) => {
                self.syncing = Some((i, pass));
                WatchAction::Sync(i)
            },
            None => {
                self.syncing = None;
                if running {
                    WatchAction::Sleep(self.sleep_for(now))
                } else {
                    WatchAction::Stop
                }
            },
        }
    }
}

/// The earliest time is one of them, and none is earlier.
pub proof fn earliest_is_least(times: Seq<u128>)
    requires
        times.len() > 0,
    ensures
        earliest(times) is Some,
        times.contains(earliest(times)->0),
        forall|i: int| 0 <= i < times.len() ==> earliest(times)->0 <= #[trigger] times[i],
    decreases times.len(),
{
    if times.len() == 1 {
        assert(earliest(times.drop_last()) is None);
        assert(times[0] == times.last());
    } else {
        earliest_is_least(times.drop_last());
        let before = earliest(times.drop_last())->0;
        let j = choose|j: int| 0 <= j < times.drop_last().len() && times.drop_last()[j] == before;
        assert(times[j] == before);
        assert(times[times.len() - 1] == times.last());
        assert forall|i: int| 0 <= i < times.len() implies earliest(times)->0
            <= #[trigger] times[i] by {
            if i < times.len() - 1 {
                assert(times[i] == times.drop_last()[i]);
            }
        }
    }
}

/// A repository is found due exactly if its time has come, and none before it
/// from the place on is due.
pub proof fn due_is_first(times: Seq<u128>, from: int, now: u128)
    requires
        0 <= from <= times.len(),
    ensures
        match first_due(times, from, now) {
            Some(i) => {
                &&& from <= i < times.len()
                &&& times[i] <= now
                &&& forall|j: int| from <= j < i ==> now < #[trigger] times[j]
            },
            None => forall|j: int| from <= j < times.len() ==> now < #[trigger] times[j],
        },
    decreases times.len() - from,
{
    if from < times.len() && now < times[from] {
        due_is_first(times, from + 1, now);
    }
}

/// The wait never lasts longer than a second, and no repository is due before
/// it is over unless one was due when it began.
pub proof fn nothing_is_slept_through(times: Seq<u128>, now: u128, i: int)
    requires
        0 <= i < times.len(),
    ensures
        wait(times, now) <= LONGEST_WAIT,
        wait(times, now) > 0 ==> now + wait(times, now) <= times[i],
        times[i] <= now ==> wait(times, now) == 0,
{
    earliest_is_least(times);
}

/// After a wait that was cut short of a second, some repository is due.
pub proof fn short_waits_end_at_something_due(times: Seq<u128>, now: u128)
    requires
        wait(times, now) < LONGEST_WAIT,
        now + wait(times, now) <= u128::MAX,
    ensures
        first_due(times, 0, (now + wait(times, now)) as u128) is Some,
{
    if times.len() > 0 {
        earliest_is_least(times);
        let later = (now + wait(times, now)) as u128;
        due_is_first(times, 0, later);
        let i = choose|i: int| 0 <= i < times.len() && times[i] == earliest(times)->0;
        assert(times[i] <= later);
    }
}

/// A repository whose round is over is not due before its interval is, and is
/// due then; the times of the others stay as they were.
pub proof fn rounds_keep_their_interval(
    watch: WatchView,
    running: bool,
    now: u128,
    later: u128,
    place: usize,
    pass: u128,
)
    requires
        watch.syncing == Some((place, pass)),
        place < watch.times.len(),
        watch.times.len() == watch.intervals.len(),
        now + watch.intervals[place as int] <= u128::MAX,
    ensures
        ({
            let next = watch_step(watch, running, now).0;
            &&& first_due(next.times, place as int, later) == Some(place as int) <==> later >= now
                + watch.intervals[place as int]
            &&& forall|i: int|
                0 <= i < watch.times.len() && i != place ==> next.times[i] == watch.times[i]
        }),
{
    let next = watch_step(watch, running, now).0;
    due_is_first(next.times, place as int, later);
}

/// A pass goes forward: a round is followed by one for a later repository that
/// was due when the pass began, or by the end of the pass, and none that was
/// due is passed over.
pub proof fn passes_go_forward(
    watch: WatchView,
    running: bool,
    now: u128,
    place: usize,
    pass: u128,
)
    requires
        watch.syncing == Some((place, pass)),
        place < watch.times.len() <= usize::MAX,
    ensures
        match watch_step(watch, running, now).1 {
            WatchAction::Sync(i) => {
                &&& place < i < watch.times.len()
                &&& watch.times[i as int] <= pass
                &&& forall|j: int| place < j < i ==> pass < #[trigger] watch.times[j]
            },
            _ => forall|j: int| place < j < watch.times.len() ==> pass < #[trigger] watch.times[j],
        },
{
    let times = watch.times.update(place as int, (now + watch.intervals[place as int]) as u128);
    due_is_first(times, place + 1, pass);
    assert(forall|j: int| place < j < times.len() ==> times[j] == #[trigger] watch.times[j]);
}

/// Watching ends where it is told to, once the pass under way is over.
pub proof fn watching_stops(watch: WatchView, now: u128)
    ensures
        !(watch_step(watch, false, now).1 is Sleep),
        watch.syncing is None ==> watch_step(watch, false, now).1 is Stop,
{
}

/// A repository whose round is over is due again one interval from then, to the
/// nanosecond; no other time and no interval changes.
pub proof fn rounds_set_the_next_time(
    watch: WatchView,
    running: bool,
    now: u128,
    place: usize,
    pass: u128,
    i: int,
)
    requires
        watch.syncing == Some((place, pass)),
        place < watch.times.len(),
        watch.times.len() == watch.intervals.len(),
        now + watch.intervals[place as int] <= u128::MAX,
        0 <= i < watch.times.len(),
    ensures
        ({
            let next = watch_step(watch, running, now).0;
            &&& next.times.len() == watch.times.len()
            &&& next.intervals == watch.intervals
            &&& next.times[i] == if i == place {
                now + watch.intervals[i]
            } else {
                watch.times[i] as int
            }
        }),
{
}

/// A pass begins with the first repository whose time has come; where none has,
/// there is a wait that ends when the first one has, or after a second if that is
/// sooner. Neither changes when anything is due.
pub proof fn passes_begin_with_what_is_due(watch: WatchView, now: u128)
    requires
        watch.syncing is None,
        watch.times.len() <= usize::MAX,
    ensures
        watch_step(watch, true, now).0.times == watch.times,
        watch_step(watch, true, now).0.intervals == watch.intervals,
        match watch_step(watch, true, now).1 {
            WatchAction::Sync(i) => {
                &&& i < watch.times.len()
                &&& watch.times[i as int] <= now
                &&& forall|j: int| 0 <= j < i ==> now < #[trigger] watch.times[j]
                &&& watch_step(watch, true, now).0.syncing == Some((i, now))
            },
            WatchAction::Sleep(time) => {
                &&& time <= 1_000_000_000
                &&& forall|j: int| 0 <= j < watch.times.len() ==> now < #[trigger] watch.times[j]
                &&& forall|j: int|
                    0 <= j < watch.times.len() ==> now + time <= #[trigger] watch.times[j]
                &&& time < 1_000_000_000 ==> exists|j: int|
                    0 <= j < watch.times.len() && #[trigger] watch.times[j] == now + time
                &&& watch_step(watch, true, now).0.syncing is None
            },
            WatchAction::Stop => false,
        },
{
    due_is_first(watch.times, 0, now);
    if watch.times.len() > 0 {
        earliest_is_least(watch.times);
        let j = choose|j: int|
            0 <= j < watch.times.len() && watch.times[j] == earliest(watch.times)->0;
        assert(watch.times[j] == earliest(watch.times)->0);
    }
}

} // verus!
