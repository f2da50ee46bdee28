//! What has become of the notifications so far.

use crate::model;
use crate::model::{Notification, NotificationView};
use crate::rows;
use std::collections::VecDeque;
use vstd::prelude::*;

verus! {

/// How many notifications are remembered.
pub const MAX_RECENT: usize = 20;

/// What becomes of a banner.
#[derive(Debug, Clone, Copy, PartialEq, Eq, Structural)]
pub enum Verdict {
    /// It says nothing.
    Empty,
    /// Its application is not allowed.
    Filtered,
    /// It was seen within the time to live.
    Duplicate,
    /// It is new.
    Forwarded,
}

/// Counters shown in the status.
#[derive(Debug, Clone, Copy, PartialEq, Eq, Structural)]
pub struct Counts {
    pub today: u64,
    pub forwarded: u64,
    pub duplicates: u64,
    pub filtered: u64,
}

impl Counts {
    /// Whether every notification is counted under what became of it.
    pub open spec fn balanced(self) -> bool {
        self.today == self.forwarded + self.duplicates + self.filtered
    }
}

impl Default for Counts {
    fn default() -> (r: Counts)
        ensures
            r == (Counts { today: 0, forwarded: 0, duplicates: 0, filtered: 0 }),
    {
        Counts { today: 0, forwarded: 0, duplicates: 0, filtered: 0 }
    }
}

/// What a tally holds.
#[verifier::ext_equal]
pub struct TallyModel {
    pub counts: Counts,
    /// The notifications that were new, the newest last.
    pub recent: Seq<NotificationView>,
}

/// The tally after one more banner with this verdict.
pub open spec fn tallied(
    tally: TallyModel,
    verdict: Verdict,
    notification: NotificationView,
) -> TallyModel {
    let counts = tally.counts;
    let today = (counts.today + 1) as u64;
    match verdict {
        Verdict::Empty => tally,
        Verdict::Filtered => TallyModel {
            counts: Counts { today, filtered: (counts.filtered + 1) as u64, ..counts },
            ..tally
        },
        Verdict::Duplicate => TallyModel {
            counts: Counts { today, duplicates: (counts.duplicates + 1) as u64, ..counts },
            ..tally
        },
        Verdict::Forwarded => TallyModel {
            counts: Counts { today, forwarded: (counts.forwarded + 1) as u64, ..counts },
            recent: rows::last_of(tally.recent.push(notification), MAX_RECENT as nat),
        },
    }
}

/// The counters and the recent notifications.
pub struct Tally {
    counts: Counts,
    recent: VecDeque<Notification>,
}

impl Tally {
    #[verifier::type_invariant]
    spec fn valid(self) -> bool {
        &&& self.counts.balanced()
        &&& self.recent@.len() <= MAX_RECENT
    }

    /// What the tally holds.
    pub closed spec fn view(&self) -> TallyModel {
        TallyModel { counts: self.counts, recent: model::notification_views(self.recent@) }
    }

    /// Nothing has been counted yet.
    pub fn new() -> (r: Tally)
        ensures
            r@ == (TallyModel {
                counts: Counts { today: 0, forwarded: 0, duplicates: 0, filtered: 0 },
                recent: Seq::<NotificationView>::empty(),
            }),
    {
        Tally { counts: Counts::default(), recent: VecDeque::with_capacity(MAX_RECENT) }
    }

    /// The counters.
    pub fn counts(&self) -> (r: Counts)
        ensures
            r == self@.counts,
            r.balanced(),
    {
        proof {
            use_type_invariant(self);
        }
        self.counts
    }

    /// How many notifications are remembered.
    pub fn recent_len(&self) -> (r: usize)
        ensures
            r == self@.recent.len(),
            r <= MAX_RECENT,
    {
        proof {
            use_type_invariant(self);
        }
        self.recent.len()
    }

    /// A notification that is remembered, by its age: the newest is the last.
    pub fn recent_at(&self, i: usize) -> (r: &Notification)
        requires
            i < self@.recent.len(),
        ensures
            r@ == self@.recent[i as int],
    {
        &self.recent[i]
    }

    fn push_recent(&mut self, notification: &Notification)
        ensures
            final(self)@ == (TallyModel {
                recent: rows::last_of(old(self)@.recent.push(notification@), MAX_RECENT as nat),
                ..old(self)@
            }),
    {
        proof {
            use_type_invariant(&*self);
        }
        let ghost before = model::notification_views(self.recent@);
        let mut recent: VecDeque<Notification> = VecDeque::new();
        std::mem::swap(&mut recent, &mut self.recent);
        if recent.len() >= MAX_RECENT {
            let _ = recent.pop_front();
        }
        let copy = notification.clone();
        recent.push_back(copy);
        self.recent = recent;
        assert(self@.recent =~= rows::last_of(
            before.push(notification@),
            MAX_RECENT as nat,
        ));
    }

    /// Counts a banner, and remembers it if it is new.
    pub fn record(&mut self, verdict: Verdict, notification: &Notification)
        requires
            old(self)@.counts.today < u64::MAX,
        ensures
            final(self)@ == tallied(old(self)@, verdict, notification@),
    {
        proof {
            use_type_invariant(&*self);
        }
        let counts = self.counts;
        match verdict {
            Verdict::Empty => {},
            Verdict::Filtered => {
                self.counts = Counts {
                    today: counts.today + 1,
                    filtered: counts.filtered + 1,
                    ..counts
                };
            },
            Verdict::Duplicate => {
                self.counts = Counts {
                    today: counts.today + 1,
                    duplicates: counts.duplicates + 1,
                    ..counts
                };
            },
            Verdict::Forwarded => {
                self.push_recent(notification);
                proof {
                    use_type_invariant(&*self);
                }
                self.counts = Counts {
                    today: counts.today + 1,
                    forwarded: counts.forwarded + 1,
                    ..counts
                };
            },
        }
    }
}

/// Every notification is counted once, under what became of it: the number of
/// notifications stays the sum of the other counters.
pub proof fn law_counts_stay_balanced(
    tally: TallyModel,
    verdict: Verdict,
    notification: NotificationView,
)
    requires
        tally.counts.balanced(),
        tally.counts.today < u64::MAX,
    ensures
        tallied(tally, verdict, notification).counts.balanced(),
{
}

/// No more than twenty notifications are remembered; a new one is remembered
/// last.
pub proof fn law_history_is_bounded(
    tally: TallyModel,
    verdict: Verdict,
    notification: NotificationView,
)
    requires
        tally.recent.len() <= MAX_RECENT,
    ensures
        tallied(tally, verdict, notification).recent.len() <= MAX_RECENT,
        verdict == Verdict::Forwarded ==> tallied(tally, verdict, notification).recent.last()
            == notification,
        verdict != Verdict::Forwarded ==> tallied(tally, verdict, notification).recent
            == tally.recent,
{
}

/// A banner that says something counts as one notification more, and as one
/// more of what became of it. The other counters stay, and all of them for a
/// banner that says nothing.
pub proof fn law_each_verdict_has_its_counter(
    tally: TallyModel,
    verdict: Verdict,
    notification: NotificationView,
)
    requires
        tally.counts.balanced(),
        tally.counts.today < u64::MAX,
    ensures
        ({
            let before = tally.counts;
            let after = tallied(tally, verdict, notification).counts;
            &&& after.today - before.today == (if verdict == Verdict::Empty {
                0int
            } else {
                1
            })
            &&& after.forwarded - before.forwarded == (if verdict == Verdict::Forwarded {
                1int
            } else {
                0
            })
            &&& after.duplicates - before.duplicates == (if verdict == Verdict::Duplicate {
                1int
            } else {
                0
            })
            &&& after.filtered - before.filtered == (if verdict == Verdict::Filtered {
                1int
            } else {
                0
            })
        }),
{
}

/// The newest twenty notifications are remembered, in the order in which they
/// came: a new one pushes out the oldest where there are twenty already, and no
/// other one.
pub proof fn law_newest_twenty_are_remembered(
    tally: TallyModel,
    verdict: Verdict,
    notification: NotificationView,
)
    requires
        tally.recent.len() <= 20,
    ensures
        verdict == Verdict::Forwarded && tally.recent.len() < 20 ==> tallied(
            tally,
            verdict,
            notification,
        ).recent == tally.recent.push(notification),
        verdict == Verdict::Forwarded && tally.recent.len() == 20 ==> tallied(
            tally,
            verdict,
            notification,
        ).recent == tally.recent.drop_first().push(notification),
{
    assert(tally.recent.push(notification).skip(1) =~= tally.recent.drop_first().push(
        notification,
    ) || tally.recent.len() == 0);
}

} // verus!
