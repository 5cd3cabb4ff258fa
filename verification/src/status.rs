//! Progress counters of one run and the aggregator that owns them.
//!
//! The aggregator is a single-owner state machine: whoever drains the
//! workers' reports owns the `Status` and applies one transition per report.
//! Every transition is one indivisible step, so an observer never sees a
//! state between two of them.

use vstd::prelude::*;
use crate::text::{append_decimal, decimal_digits};

verus! {

/// A 32-bit counter with the fetch-and-add interface: every operation hands
/// back the value it found and wraps around at the ends of the range.
#[derive(Debug)]
pub struct AtomicU32 {
    value: u32,
}

impl View for AtomicU32 {
    type V = u32;

    closed spec fn view(&self) -> u32 {
        self.value
    }
}

/// `x + y` reduced to 32 bits.
pub open spec fn wrapped_sum(x: u32, y: u32) -> u32 {
    if x + y > u32::MAX {
        (x + y - 0x1_0000_0000) as u32
    } else {
        (x + y) as u32
    }
}

/// `x - y` reduced to 32 bits.
pub open spec fn wrapped_difference(x: u32, y: u32) -> u32 {
    if x - y < 0 {
        (x - y + 0x1_0000_0000) as u32
    } else {
        (x - y) as u32
    }
}

/// `x + n` reduced to 32 bits.
#[verifier::opaque]
pub open spec fn advanced(x: u32, n: nat) -> u32 {
    ((x + n) % 0x1_0000_0000) as u32
}

/// Advancing by nothing changes nothing, advancing by one more is one
/// wrapping step more, and advancing within the range is plain addition.
pub proof fn lemma_advanced_step(x: u32, n: nat)
    ensures
        advanced(x, 0) == x,
        wrapped_sum(advanced(x, n), 1) == advanced(x, n + 1),
        x + n <= u32::MAX ==> advanced(x, n) == x + n,
{
    reveal(advanced);
}

impl AtomicU32 {
    /// A counter that holds `value`.
    pub fn new(value: u32) -> (r: Self)
        ensures
            r@ == value,
    {
        AtomicU32 { value }
    }

    /// Adds `val`, wrapping around; returns the value before.
    pub fn add(&mut self, val: u32) -> (previous: u32)
        ensures
            previous == old(self)@,
            final(self)@ == wrapped_sum(old(self)@, val),
    {
        let previous = self.value;
        self.value = previous.wrapping_add(val);
        previous
    }

    /// Subtracts `val`, wrapping around; returns the value before.
    pub fn subtract(&mut self, val: u32) -> (previous: u32)
        ensures
            previous == old(self)@,
            final(self)@ == wrapped_difference(old(self)@, val),
    {
        let previous = self.value;
        self.value = previous.wrapping_sub(val);
        previous
    }

    /// Adds one, wrapping around; returns the value before.
    pub fn increment(&mut self) -> (previous: u32)
        ensures
            previous == old(self)@,
            final(self)@ == wrapped_sum(old(self)@, 1),
    {
        self.add(1)
    }

    /// Subtracts one, wrapping around; returns the value before.
    pub fn decrement(&mut self) -> (previous: u32)
        ensures
            previous == old(self)@,
            final(self)@ == wrapped_difference(old(self)@, 1),
    {
        self.subtract(1)
    }

    /// The current value.
    pub fn load(&self) -> (current: u32)
        ensures
            current == self@,
    {
        self.value
    }
}

impl Default for AtomicU32 {
    fn default() -> (r: Self)
        ensures
            r@ == 0,
    {
        AtomicU32 { value: 0 }
    }
}

/// The values of the five counters at one moment.
pub struct Counts {
    pub total: u32,
    pub pending: u32,
    pub success: u32,
    pub errored: u32,
    pub duplicates: u32,
}

impl Counts {
    /// Every dispatched unit is pending, succeeded or errored.
    pub open spec fn balanced(self) -> bool {
        self.total == self.pending + self.success + self.errored
    }

    /// The balance as it survives counters that wrapped around.
    pub open spec fn balanced_modulo(self) -> bool {
        self.total as int == (self.pending + self.success + self.errored) % 0x1_0000_0000
    }

    /// Nothing dispatched yet.
    pub open spec fn zero() -> Counts {
        Counts { total: 0, pending: 0, success: 0, errored: 0, duplicates: 0 }
    }

    /// One more unit dispatched.
    pub open spec fn with_pending(self) -> Counts {
        Counts {
            total: wrapped_sum(self.total, 1),
            pending: wrapped_sum(self.pending, 1),
            ..self
        }
    }

    /// One pending unit succeeded.
    pub open spec fn with_success(self) -> Counts {
        Counts {
            pending: wrapped_difference(self.pending, 1),
            success: wrapped_sum(self.success, 1),
            ..self
        }
    }

    /// One pending unit failed.
    pub open spec fn with_error(self) -> Counts {
        Counts {
            pending: wrapped_difference(self.pending, 1),
            errored: wrapped_sum(self.errored, 1),
            ..self
        }
    }

    /// One more duplicate seen.
    pub open spec fn with_duplicate(self) -> Counts {
        Counts { duplicates: wrapped_sum(self.duplicates, 1), ..self }
    }

    /// `n` more units dispatched.
    pub open spec fn with_pendings(self, n: nat) -> Counts {
        Counts { total: advanced(self.total, n), pending: advanced(self.pending, n), ..self }
    }

    /// `n` more duplicates seen.
    pub open spec fn with_duplicates(self, n: nat) -> Counts {
        Counts { duplicates: advanced(self.duplicates, n), ..self }
    }
}

/// Every transition keeps the balance of total against pending, succeeded
/// and failed, reduced to 32 bits; and it keeps the balance as it stands
/// where it does not wrap a counter around: a dispatch below the largest
/// total, and a completion of a unit that is pending.
pub proof fn lemma_transitions_keep_balance(c: Counts)
    ensures
        Counts::zero().balanced(),
        c.balanced_modulo() ==> c.with_pending().balanced_modulo()
            && c.with_success().balanced_modulo() && c.with_error().balanced_modulo()
            && c.with_duplicate().balanced_modulo(),
        c.balanced() ==> c.balanced_modulo() && c.with_duplicate().balanced(),
        c.balanced() && c.total < u32::MAX ==> c.with_pending().balanced(),
        c.balanced() && c.pending > 0 ==> c.with_success().balanced() && c.with_error().balanced(),
{
}

/// The five progress counters. `pending` rises on dispatch and falls on
/// completion; the others only rise.
#[derive(Debug)]
pub struct QueryStatus {
    pub total: AtomicU32,
    pub pending: AtomicU32,
    pub success: AtomicU32,
    pub errored: AtomicU32,
    pub duplicates: AtomicU32,
}

impl View for QueryStatus {
    type V = Counts;

    open spec fn view(&self) -> Counts {
        Counts {
            total: self.total@,
            pending: self.pending@,
            success: self.success@,
            errored: self.errored@,
            duplicates: self.duplicates@,
        }
    }
}

/// The text of a counter report: one labelled counter per line, in the order
/// total, pending, done, errored, duplicates.
pub open spec fn report_text(c: Counts) -> Seq<char> {
    "total: "@ + decimal_digits(c.total as nat) + "\n"@
        + "pending: "@ + decimal_digits(c.pending as nat) + "\n"@
        + "done: "@ + decimal_digits(c.success as nat) + "\n"@
        + "errored: "@ + decimal_digits(c.errored as nat) + "\n"@
        + "duplicates: "@ + decimal_digits(c.duplicates as nat) + "\n"@
}

impl QueryStatus {
    /// The report of the counters as text.
    pub fn to_string(&self) -> (s: String)
        ensures
            s@ == report_text(self@),
    {
        let mut s = String::new();
        s.append("total: ");
        append_decimal(&mut s, self.total.load() as u64);
        s.append("\n");
        s.append("pending: ");
        append_decimal(&mut s, self.pending.load() as u64);
        s.append("\n");
        s.append("done: ");
        append_decimal(&mut s, self.success.load() as u64);
        s.append("\n");
        s.append("errored: ");
        append_decimal(&mut s, self.errored.load() as u64);
        s.append("\n");
        s.append("duplicates: ");
        append_decimal(&mut s, self.duplicates.load() as u64);
        s.append("\n");
        s
    }
}

impl Default for QueryStatus {
    fn default() -> (r: Self)
        ensures
            r@ == Counts::zero(),
    {
        QueryStatus {
            total: AtomicU32::new(0),
            pending: AtomicU32::new(0),
            success: AtomicU32::new(0),
            errored: AtomicU32::new(0),
            duplicates: AtomicU32::new(0),
        }
    }
}

/// The aggregator: the counters and the callback that is told of every
/// change.
pub struct Status<F: Fn(&QueryStatus)> {
    queries: QueryStatus,
    on_update: F,
}

impl<F: Fn(&QueryStatus)> Status<F> {
    /// The counters as they stand.
    pub closed spec fn counts(&self) -> Counts {
        self.queries@
    }

    /// The callback accepts whatever the counters hold.
    pub closed spec fn callable(&self) -> bool {
        forall|q: &QueryStatus| call_requires(self.on_update, (q,))
    }

    /// The callback was told of the counters as they stand: what it
    /// promises of a call holds of them.
    pub closed spec fn notified(&self) -> bool {
        call_ensures(self.on_update, (&self.queries,), ())
    }

    /// An aggregator with all counters at zero. `on_update` is called after
    /// every change, with the counters as they then stand.
    pub fn new(on_update: F) -> (r: Self)
        requires
            forall|q: &QueryStatus| call_requires(on_update, (q,)),
        ensures
            r.counts() == Counts::zero(),
            r.callable(),
    {
        Status { queries: QueryStatus::default(), on_update }
    }

    /// The counters, to read.
    pub fn queries(&self) -> (q: &QueryStatus)
        ensures
            q@ == self.counts(),
    {
        &self.queries
    }

    fn update(&self)
        requires
            self.callable(),
        ensures
            self.notified(),
    {
        (self.on_update)(&self.queries);
    }

    /// A unit was dispatched: total and pending rise by one.
    pub fn add_pending(&mut self)
        requires
            old(self).callable(),
        ensures
            final(self).counts() == old(self).counts().with_pending(),
            final(self).callable(),
            final(self).notified(),
    {
        self.queries.total.increment();
        self.queries.pending.increment();
        self.update();
    }

    /// A pending unit succeeded: pending falls, success rises by one. Only
    /// a unit that is pending can succeed.
    pub fn pending_success(&mut self)
        requires
            old(self).callable(),
            old(self).counts().pending > 0,
        ensures
            final(self).counts() == old(self).counts().with_success(),
            final(self).callable(),
            final(self).notified(),
    {
        self.queries.pending.decrement();
        self.queries.success.increment();
        self.update();
    }

    /// A pending unit failed: pending falls, errored rises by one. Only a
    /// unit that is pending can fail.
    pub fn pending_errored(&mut self)
        requires
            old(self).callable(),
            old(self).counts().pending > 0,
        ensures
            final(self).counts() == old(self).counts().with_error(),
            final(self).callable(),
            final(self).notified(),
    {
        self.queries.pending.decrement();
        self.queries.errored.increment();
        self.update();
    }

    /// `n` units were dispatched, one after the other.
    pub fn add_pendings(&mut self, n: usize)
        requires
            old(self).callable(),
        ensures
            final(self).counts() == old(self).counts().with_pendings(n as nat),
            final(self).callable(),
            n > 0 ==> final(self).notified(),
    {
        let mut i: usize = 0;
        proof {
            lemma_advanced_step(self.counts().total, 0);
            lemma_advanced_step(self.counts().pending, 0);
        }
        while i < n
            invariant
                i <= n,
                self.callable(),
                self.counts() == old(self).counts().with_pendings(i as nat),
                i > 0 ==> self.notified(),
            decreases n - i,
        {
            proof {
                lemma_advanced_step(old(self).counts().total, i as nat);
                lemma_advanced_step(old(self).counts().pending, i as nat);
            }
            self.add_pending();
            i += 1;
        }
    }

    /// `n` duplicates were seen, one after the other.
    pub fn add_duplicates(&mut self, n: usize)
        requires
            old(self).callable(),
        ensures
            final(self).counts() == old(self).counts().with_duplicates(n as nat),
            final(self).callable(),
            n > 0 ==> final(self).notified(),
    {
        let mut i: usize = 0;
        proof {
            lemma_advanced_step(self.counts().duplicates, 0);
        }
        while i < n
            invariant
                i <= n,
                self.callable(),
                self.counts() == old(self).counts().with_duplicates(i as nat),
                i > 0 ==> self.notified(),
            decreases n - i,
        {
            proof {
                lemma_advanced_step(old(self).counts().duplicates, i as nat);
            }
            self.add_duplicate();
            i += 1;
        }
    }

    /// A duplicate was seen: duplicates rises by one, nothing else moves.
    pub fn add_duplicate(&mut self)
        requires
            old(self).callable(),
        ensures
            final(self).counts() == old(self).counts().with_duplicate(),
            final(self).callable(),
            final(self).notified(),
    {
        self.queries.duplicates.increment();
        self.update();
    }
}

} // verus!
