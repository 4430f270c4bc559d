//! Queue of short-lived notifications shown over the interface.

use vstd::prelude::*;

use crate::clock;

verus! {

/// Kind of a notification (decides its colour and lifetime).
#[derive(Debug, Clone, Copy, PartialEq, Eq, Structural)]
pub enum NotificationType {
    /// Informational message (3 s).
    Info,
    /// Completed operation (3 s).
    Success,
    /// Non-critical warning (4 s).
    Warning,
    /// Error the user must see (5 s).
    Error,
}

/// One notification: message, kind, creation time and lifetime.
#[derive(Debug, Clone)]
pub struct Notification {
    /// Text of the notification.
    pub message: String,
    /// Kind of the notification.
    pub notification_type: NotificationType,
    /// When the notification was created.
    pub created_at: std::time::Instant,
    /// Lifetime in milliseconds.
    pub duration_ms: u64,
}

/// Lifetime of a notification of the given kind, in milliseconds.
pub open spec fn lifetime_ms(t: NotificationType) -> u64 {
    match t {
        NotificationType::Info => 3000,
        NotificationType::Success => 3000,
        NotificationType::Warning => 4000,
        NotificationType::Error => 5000,
    }
}

/// Whether a notification with lifetime `duration_ms`, `elapsed` nanoseconds old, has
/// expired.
pub open spec fn expired_after(duration_ms: u64, elapsed: u128) -> bool {
    elapsed >= duration_ms as nat * 1_000_000
}

/// Whole seconds left of a lifetime of `duration_ms`, `elapsed` nanoseconds in.
pub open spec fn seconds_left(duration_ms: u64, elapsed: u128) -> nat {
    if expired_after(duration_ms, elapsed) {
        0
    } else {
        ((duration_ms as nat * 1_000_000 - elapsed) / 1_000_000_000) as nat
    }
}

/// Once a notification has expired it stays expired, and the seconds it has left
/// never grow as time passes.
pub proof fn lemma_expiry_monotone(duration_ms: u64, e1: u128, e2: u128)
    requires
        e1 <= e2,
    ensures
        expired_after(duration_ms, e1) ==> expired_after(duration_ms, e2),
        seconds_left(duration_ms, e2) <= seconds_left(duration_ms, e1),
{
    if !expired_after(duration_ms, e2) {
        let t = duration_ms as nat * 1_000_000;
        assert(t - e2 <= t - e1);
        vstd::arithmetic::div_mod::lemma_div_is_ordered((t - e2) as int, (t - e1) as int, 1_000_000_000);
    }
}

impl Notification {
    /// A notification of the given kind, created now.
    pub fn new(message: &str, notification_type: NotificationType) -> (n: Notification)
        ensures
            n.message@ == message@,
            n.notification_type == notification_type,
            n.duration_ms == lifetime_ms(notification_type),
    {
        let duration_ms: u64 = match notification_type {
            NotificationType::Info => 3000,
            NotificationType::Success => 3000,
            NotificationType::Warning => 4000,
            NotificationType::Error => 5000,
        };
        Notification {
            message: message.to_owned(),
            notification_type,
            created_at: clock::instant_now(),
            duration_ms,
        }
    }

    /// An informational notification (expires after 3 seconds).
    pub fn info(message: &str) -> (n: Notification)
        ensures
            n.message@ == message@,
            n.notification_type == NotificationType::Info,
            n.duration_ms == 3000,
    {
        Self::new(message, NotificationType::Info)
    }

    /// A success notification (expires after 3 seconds).
    pub fn success(message: &str) -> (n: Notification)
        ensures
            n.message@ == message@,
            n.notification_type == NotificationType::Success,
            n.duration_ms == 3000,
    {
        Self::new(message, NotificationType::Success)
    }

    /// A warning notification (expires after 4 seconds).
    pub fn warning(message: &str) -> (n: Notification)
        ensures
            n.message@ == message@,
            n.notification_type == NotificationType::Warning,
            n.duration_ms == 4000,
    {
        Self::new(message, NotificationType::Warning)
    }

    /// An error notification (expires after 5 seconds).
    pub fn error(message: &str) -> (n: Notification)
        ensures
            n.message@ == message@,
            n.notification_type == NotificationType::Error,
            n.duration_ms == 5000,
    {
        Self::new(message, NotificationType::Error)
    }

    /// Whether the notification has expired once `elapsed` nanoseconds have passed
    /// since its creation.
    pub fn is_expired_after(&self, elapsed: u128) -> (b: bool)
        ensures
            b == expired_after(self.duration_ms, elapsed),
    {
        elapsed >= self.duration_ms as u128 * 1_000_000
    }

    /// Whether the notification has expired.
    pub fn is_expired(&self) -> (b: bool)
        ensures
            exists|e: u128| b == expired_after(self.duration_ms, e),
    {
        let e = clock::elapsed_nanos(&self.created_at);
        self.is_expired_after(e)
    }

    /// Whole seconds left once `elapsed` nanoseconds have passed (0 when expired).
    pub fn remaining_secs_after(&self, elapsed: u128) -> (r: u64)
        ensures
            r == seconds_left(self.duration_ms, elapsed),
    {
        let total = self.duration_ms as u128 * 1_000_000;
        if elapsed >= total {
            0
        } else {
            ((total - elapsed) / 1_000_000_000) as u64
        }
    }

    /// Whole seconds left before the notification expires.
    pub fn remaining_secs(&self) -> (r: u64)
        ensures
            exists|e: u128| r == seconds_left(self.duration_ms, e),
            r <= self.duration_ms / 1000,
    {
        let e = clock::elapsed_nanos(&self.created_at);
        let r = self.remaining_secs_after(e);
        assert(r <= self.duration_ms / 1000) by (nonlinear_arith)
            requires
                r == seconds_left(self.duration_ms, e),
        {
        }
        r
    }
}

/// The notifications among `items` that are not expired (by `expired`), at most `max` of
/// them, in queue order.
pub open spec fn visible_among(items: Seq<Notification>, expired: Seq<bool>, max: nat) -> Seq<
    Notification,
>
    decreases items.len(),
{
    if items.len() == 0 || max == 0 {
        Seq::empty()
    } else if expired[0] {
        visible_among(items.drop_first(), expired.drop_first(), max)
    } else {
        seq![items[0]] + visible_among(items.drop_first(), expired.drop_first(), (max - 1) as nat)
    }
}

/// Number of notifications a queue keeps beyond the visible ones.
pub open spec fn queue_slack() -> nat {
    5
}

/// `items` with `n` appended, the oldest dropped when more than `limit` would be held.
pub open spec fn bounded_push(items: Seq<Notification>, n: Notification, limit: nat) -> Seq<
    Notification,
> {
    let all = items.push(n);
    if all.len() > limit {
        all.drop_first()
    } else {
        all
    }
}

/// `after` is `before` with one notification of kind `kind` and text `msg` added, created
/// at some instant.
pub open spec fn notifies(
    before: NotificationQueue,
    after: NotificationQueue,
    kind: NotificationType,
    msg: Seq<char>,
) -> bool {
    &&& after.wf()
    &&& after.visible_limit() == before.visible_limit()
    &&& exists|n: Notification|
        n.message@ == msg && n.notification_type == kind && n.duration_ms == lifetime_ms(kind)
            && after.items() == #[trigger] bounded_push(
            before.items(),
            n,
            before.visible_limit() + queue_slack(),
        )
}

/// `after` is `before` with two notifications added, `(k1, m1)` then `(k2, m2)`.
pub open spec fn notifies_twice(
    before: NotificationQueue,
    after: NotificationQueue,
    k1: NotificationType,
    m1: Seq<char>,
    k2: NotificationType,
    m2: Seq<char>,
) -> bool {
    exists|mid: NotificationQueue| #[trigger] notifies(before, mid, k1, m1) && notifies(mid, after, k2, m2)
}

/// The notification added last is the one `notifies` speaks of.
pub proof fn lemma_notifies_last(
    before: NotificationQueue,
    after: NotificationQueue,
    kind: NotificationType,
    msg: Seq<char>,
)
    requires
        notifies(before, after, kind, msg),
    ensures
        after.items().len() > 0,
        after.items().last().message@ == msg,
        after.items().last().notification_type == kind,
{
    let n = choose|n: Notification|
        n.message@ == msg && n.notification_type == kind && n.duration_ms == lifetime_ms(kind)
            && after.items() == #[trigger] bounded_push(
            before.items(),
            n,
            before.visible_limit() + queue_slack(),
        );
    assert(after.items().last() == n);
}

/// Queue of notifications shown in a corner of the interface.
#[derive(Debug)]
pub struct NotificationQueue {
    notifications: std::collections::VecDeque<Notification>,
    max_visible: usize,
}

impl NotificationQueue {
    /// The notifications held, oldest first.
    pub closed spec fn items(&self) -> Seq<Notification> {
        self.notifications@
    }

    /// How many notifications are shown at once.
    pub closed spec fn visible_limit(&self) -> nat {
        self.max_visible as nat
    }

    /// The queue keeps at most `visible_limit() + 5` notifications.
    pub closed spec fn wf(&self) -> bool {
        &&& self.max_visible == 3
        &&& self.notifications@.len() <= self.max_visible + queue_slack()
    }

    /// A well-formed queue shows at most three notifications at once and holds at
    /// most eight.
    pub proof fn lemma_limits(&self)
        requires
            self.wf(),
        ensures
            self.visible_limit() == 3,
            self.items().len() <= 8,
    {
    }

    /// An empty queue showing at most three notifications.
    pub fn new() -> (q: NotificationQueue)
        ensures
            q.wf(),
            q.items().len() == 0,
            q.visible_limit() == 3,
    {
        NotificationQueue { notifications: std::collections::VecDeque::new(), max_visible: 3 }
    }

    /// Adds a notification; the oldest ones are dropped beyond eight.
    pub fn push(&mut self, notification: Notification)
        requires
            old(self).wf(),
        ensures
            final(self).wf(),
            final(self).visible_limit() == old(self).visible_limit(),
            final(self).items() == bounded_push(
                old(self).items(),
                notification,
                old(self).visible_limit() + queue_slack(),
            ),
    {
        self.notifications.push_back(notification);
        if self.notifications.len() > self.max_visible + 5 {
            let _ = self.notifications.pop_front();
        }
    }

    /// Adds a notification of the given kind, created now.
    pub fn notify(&mut self, kind: NotificationType, message: &str)
        requires
            old(self).wf(),
        ensures
            notifies(*old(self), *final(self), kind, message@),
    {
        let n = Notification::new(message, kind);
        self.push(n);
        assert(n.message@ == message@ && n.notification_type == kind && n.duration_ms
            == lifetime_ms(kind) && final(self).items() == bounded_push(
            old(self).items(),
            n,
            old(self).visible_limit() + queue_slack(),
        ));
    }

    /// Adds an informational notification.
    pub fn info(&mut self, message: &str)
        requires
            old(self).wf(),
        ensures
            notifies(*old(self), *final(self), NotificationType::Info, message@),
    {
        self.notify(NotificationType::Info, message);
    }

    /// Adds a success notification.
    pub fn success(&mut self, message: &str)
        requires
            old(self).wf(),
        ensures
            notifies(*old(self), *final(self), NotificationType::Success, message@),
    {
        self.notify(NotificationType::Success, message);
    }

    /// Adds a warning notification.
    pub fn warning(&mut self, message: &str)
        requires
            old(self).wf(),
        ensures
            notifies(*old(self), *final(self), NotificationType::Warning, message@),
    {
        self.notify(NotificationType::Warning, message);
    }

    /// Adds an error notification.
    pub fn error(&mut self, message: &str)
        requires
            old(self).wf(),
        ensures
            notifies(*old(self), *final(self), NotificationType::Error, message@),
    {
        self.notify(NotificationType::Error, message);
    }

    /// Expiry of each held notification, read from the clock.
    fn expiry_flags(&self) -> (flags: Vec<bool>)
        ensures
            flags@.len() == self.items().len(),
    {
        let mut flags: Vec<bool> = Vec::new();
        let mut i: usize = 0;
        while i < self.notifications.len()
            invariant
                i <= self.notifications@.len(),
                flags@.len() == i,
            decreases self.notifications@.len() - i,
        {
            let b = self.notifications[i].is_expired();
            flags.push(b);
            i = i + 1;
        }
        flags
    }

    /// Keeps the notifications whose `expired` flag is false.
    pub fn retain_unexpired(&mut self, expired: &Vec<bool>)
        requires
            old(self).wf(),
            expired@.len() == old(self).items().len(),
        ensures
            final(self).wf(),
            final(self).visible_limit() == old(self).visible_limit(),
            final(self).items() == visible_among(
                old(self).items(),
                expired@,
                old(self).items().len(),
            ),
    {
        let ghost items = self.notifications@;
        let mut kept: std::collections::VecDeque<Notification> = std::collections::VecDeque::new();
        assert(items.skip(0) =~= items);
        assert(expired@.skip(0) =~= expired@);
        let mut i: usize = 0;
        let n = self.notifications.len();
        while i < n
            invariant
                n == items.len(),
                expired@.len() == n,
                i <= n,
                self.notifications@ == items.skip(i as int),
                self.max_visible == 3,
                kept@.len() <= i,
                kept@ + visible_among(items.skip(i as int), expired@.skip(i as int), (n - i) as nat)
                    == visible_among(items, expired@, n as nat),
            decreases n - i,
        {
            let ghost rest = items.skip(i as int);
            let ghost flags = expired@.skip(i as int);
            assert(rest.drop_first() == items.skip(i + 1));
            assert(flags.drop_first() == expired@.skip(i + 1));
            assert(flags[0] == expired@[i as int]);
            let front = self.notifications.pop_front();
            match front {
                Some(nf) => {
                    if !expired[i] {
                        let ghost before = kept@;
                        assert(nf == rest[0]);
                        kept.push_back(nf);
                        assert(kept@ == before.push(rest[0]));
                        assert(before.push(rest[0]) + visible_among(
                            items.skip(i + 1),
                            expired@.skip(i + 1),
                            (n - i - 1) as nat,
                        ) =~= before + (seq![rest[0]] + visible_among(
                            rest.drop_first(),
                            flags.drop_first(),
                            (n - i - 1) as nat,
                        )));
                    } else {
                        assert(visible_among(rest, flags, (n - i) as nat) == visible_among(
                            rest.drop_first(),
                            flags.drop_first(),
                            (n - i) as nat,
                        ));
                        proof {
                            lemma_visible_among_cap(rest.drop_first(), flags.drop_first(), (n - i) as nat);
                        }
                    }
                },
                None => {},
            }
            i = i + 1;
        }
        assert(items.skip(n as int) =~= Seq::<Notification>::empty());
        assert(kept@ =~= visible_among(items, expired@, n as nat));
        self.notifications = kept;
    }

    /// Removes the notifications that have expired.
    pub fn clear_expired(&mut self)
        requires
            old(self).wf(),
        ensures
            final(self).wf(),
            final(self).visible_limit() == old(self).visible_limit(),
            exists|flags: Seq<bool>|
                flags.len() == old(self).items().len() && final(self).items() == #[trigger] visible_among(
                    old(self).items(),
                    flags,
                    old(self).items().len(),
                ),
    {
        let flags = self.expiry_flags();
        self.retain_unexpired(&flags);
    }

    /// The unexpired notifications among those held, by `expired`, at most the visible
    /// limit of them, oldest first.
    pub fn visible_given(&self, expired: &Vec<bool>) -> (r: Vec<&Notification>)
        requires
            expired@.len() == self.items().len(),
        ensures
            r@.map_values(|n: &Notification| *n) == visible_among(
                self.items(),
                expired@,
                self.visible_limit(),
            ),
    {
        let ghost items = self.notifications@;
        let n = self.notifications.len();
        let mut r: Vec<&Notification> = Vec::new();
        let mut left = self.max_visible;
        assert(items.skip(0) =~= items);
        assert(expired@.skip(0) =~= expired@);
        assert(r@.map_values(|x: &Notification| *x) =~= Seq::<Notification>::empty());
        let mut i: usize = 0;
        while i < n && left > 0
            invariant
                n == items.len(),
                items == self.notifications@,
                expired@.len() == n,
                i <= n,
                r@.map_values(|x: &Notification| *x) + visible_among(
                    items.skip(i as int),
                    expired@.skip(i as int),
                    left as nat,
                ) == visible_among(items, expired@, self.max_visible as nat),
            decreases n - i,
        {
            let ghost rest = items.skip(i as int);
            let ghost flags = expired@.skip(i as int);
            assert(rest.drop_first() == items.skip(i + 1));
            assert(flags.drop_first() == expired@.skip(i + 1));
            assert(flags[0] == expired@[i as int]);
            assert(rest[0] == items[i as int]);
            if !expired[i] {
                let ghost before = r@.map_values(|x: &Notification| *x);
                r.push(&self.notifications[i]);
                assert(r@.map_values(|x: &Notification| *x) =~= before.push(rest[0]));
                assert(before.push(rest[0]) + visible_among(
                    items.skip(i + 1),
                    expired@.skip(i + 1),
                    (left - 1) as nat,
                ) =~= before + (seq![rest[0]] + visible_among(
                    rest.drop_first(),
                    flags.drop_first(),
                    (left - 1) as nat,
                )));
                left = left - 1;
            }
            i = i + 1;
        }
        assert(visible_among(items.skip(i as int), expired@.skip(i as int), left as nat)
            =~= Seq::<Notification>::empty());
        assert(r@.map_values(|x: &Notification| *x) =~= visible_among(
            items,
            expired@,
            self.max_visible as nat,
        ));
        r
    }

    /// The notifications currently visible: unexpired ones, at most the visible limit,
    /// oldest first.
    pub fn visible_notifications(&self) -> (r: Vec<&Notification>)
        ensures
            r@.len() <= self.visible_limit(),
            exists|flags: Seq<bool>|
                flags.len() == self.items().len() && r@.map_values(|n: &Notification| *n) == #[trigger] visible_among(
                    self.items(),
                    flags,
                    self.visible_limit(),
                ),
    {
        let flags = self.expiry_flags();
        let r = self.visible_given(&flags);
        proof {
            lemma_visible_among_len(self.items(), flags@, self.visible_limit());
            assert(r@.len() == r@.map_values(|n: &Notification| *n).len());
        }
        r
    }
}

/// A visible selection holds at most `max` notifications.
pub proof fn lemma_visible_among_len(items: Seq<Notification>, expired: Seq<bool>, max: nat)
    ensures
        visible_among(items, expired, max).len() <= max,
    decreases items.len(),
{
    if items.len() > 0 && max > 0 {
        if expired[0] {
            lemma_visible_among_len(items.drop_first(), expired.drop_first(), max);
        } else {
            lemma_visible_among_len(items.drop_first(), expired.drop_first(), (max - 1) as nat);
        }
    }
}

/// A cap at least the number of items does not cut the selection.
pub proof fn lemma_visible_among_cap(items: Seq<Notification>, expired: Seq<bool>, max: nat)
    requires
        max > items.len(),
    ensures
        visible_among(items, expired, max) == visible_among(items, expired, (max - 1) as nat),
    decreases items.len(),
{
    if items.len() > 0 {
        if expired[0] {
            lemma_visible_among_cap(items.drop_first(), expired.drop_first(), max);
        } else {
            lemma_visible_among_cap(items.drop_first(), expired.drop_first(), (max - 1) as nat);
        }
    }
}


/// A well-formed queue holds at most eight notifications and shows at most three.
pub proof fn lemma_queue_bounded(q: NotificationQueue)
    requires
        q.wf(),
    ensures
        q.items().len() <= 8,
        q.visible_limit() == 3,
{
}

} // verus!
