//! Scheduled event records and their recurrence rules.
use vstd::prelude::*;

verus! {

/// A scheduled event in a space.
#[derive(Clone, Debug)]
pub struct Event {
    pub id: String,
    pub name: String,
    pub description: String,
    pub event_type: String,
    pub creator_id: String,
    pub full_day: bool,
    pub start_time: Option<i32>,
    pub end_time: Option<i32>,
    pub day: Option<i32>,
    pub recurrence: Option<Recurrence>,
    pub time_zone: String,
    pub location: String,
    pub external_location: bool,
    pub external_link: Option<String>,
    pub rsvp_attendees: Option<Vec<Attendee>>,
}

/// One weekday of a weekly recurrence.
#[derive(Clone, Copy, Debug, PartialEq, Eq, Structural)]
pub enum RecurringDay {
    Sunday,
    Monday,
    Tuesday,
    Wednesday,
    Thursday,
    Friday,
    Saturday,
}

impl RecurringDay {
    /// Position of this day's flag inside the word.
    pub open spec fn spec_shift(self) -> u32 {
        match self {
            RecurringDay::Sunday => 0,
            RecurringDay::Monday => 1,
            RecurringDay::Tuesday => 2,
            RecurringDay::Wednesday => 3,
            RecurringDay::Thursday => 4,
            RecurringDay::Friday => 5,
            RecurringDay::Saturday => 6,
        }
    }

    /// The single-bit mask of this day.
    pub open spec fn spec_bit(self) -> u32 {
        1u32 << self.spec_shift()
    }

    pub fn bit(self) -> (r: u32)
        ensures
            r == self.spec_bit(),
    {
        let s: u32 = match self {
            RecurringDay::Sunday => 0,
            RecurringDay::Monday => 1,
            RecurringDay::Tuesday => 2,
            RecurringDay::Wednesday => 3,
            RecurringDay::Thursday => 4,
            RecurringDay::Friday => 5,
            RecurringDay::Saturday => 6,
        };
        assert(s == self.spec_shift());
        1u32 << s
    }
}

proof fn lemma_day_or_bit(x: u32, b: u32, c: u32)
    ensures
        ((x | b) & c != 0) == ((x & c != 0) || (b & c != 0)),
{
    assert(((x | b) & c != 0) == ((x & c != 0) || (b & c != 0))) by (bit_vector);
}

proof fn lemma_day_and_bit(x: u32, b: u32, s: u32)
    requires
        s < 32,
    ensures
        ((x & !b) & (1u32 << s) != 0) == ((x & (1u32 << s) != 0) && (b & (1u32 << s) == 0)),
{
    assert(s < 32 ==> (((x & !b) & (1u32 << s) != 0) == ((x & (1u32 << s) != 0) && (b & (1u32 << s)
        == 0)))) by (bit_vector);
}

proof fn lemma_day_single_bits(s: u32, t: u32)
    requires
        s < 32,
        t < 32,
    ensures
        ((1u32 << s) & (1u32 << t) != 0) == (s == t),
{
    assert((s < 32 && t < 32) ==> (((1u32 << s) & (1u32 << t) != 0) == (s == t))) by (bit_vector);
}

/// The set of weekdays a weekly recurrence repeats on, one flag per day.
#[derive(Clone, Copy, Debug)]
pub struct RecurringDays {
    pub days: u32,
}

impl RecurringDays {
    pub open spec fn spec_has(self, day: RecurringDay) -> bool {
        self.days & day.spec_bit() != 0
    }

    /// No day set.
    pub fn new() -> (r: RecurringDays)
        ensures
            forall|d: RecurringDay| !r.spec_has(d),
    {
        let r = RecurringDays { days: 0 };
        assert forall|d: RecurringDay| !r.spec_has(d) by {
            assert(0u32 & d.spec_bit() == 0) by (bit_vector);
        }
        r
    }

    pub fn add_day(&mut self, day: RecurringDay)
        ensures
            forall|q: RecurringDay|
                #[trigger] final(self).spec_has(q) == (old(self).spec_has(q) || q == day),
    {
        self.days = self.days | day.bit();
        assert forall|q: RecurringDay|
            #[trigger] self.spec_has(q) == (old(self).spec_has(q) || q == day) by {
            lemma_day_or_bit(old(self).days, day.spec_bit(), q.spec_bit());
            lemma_day_single_bits(day.spec_shift(), q.spec_shift());
        }
    }

    pub fn remove_day(&mut self, day: RecurringDay)
        ensures
            forall|q: RecurringDay|
                #[trigger] final(self).spec_has(q) == (old(self).spec_has(q) && q != day),
    {
        self.days = self.days & !day.bit();
        assert forall|q: RecurringDay|
            #[trigger] self.spec_has(q) == (old(self).spec_has(q) && q != day) by {
            lemma_day_and_bit(old(self).days, day.spec_bit(), q.spec_shift());
            lemma_day_single_bits(day.spec_shift(), q.spec_shift());
        }
    }

    pub fn contains(&self, day: RecurringDay) -> (r: bool)
        ensures
            r == self.spec_has(day),
    {
        self.days & day.bit() != 0
    }
}

impl Default for RecurringDays {
    /// The default recurrence repeats on no day.
    fn default() -> (r: Self)
        ensures
            r.days == 0,
    {
        RecurringDays { days: 0 }
    }
}

/// One day of a yearly recurrence.
#[derive(Clone, Copy, Debug, PartialEq, Eq, Structural)]
pub struct AnnualRecurringDay {
    pub day: i32,
    pub month: i32,
}

/// How often an event repeats.
#[derive(Clone, Debug)]
pub enum Recurrence {
    Daily { interval: i32, end_date: Option<i32> },
    Weekly { interval: i32, end_date: Option<i32>, days: RecurringDays },
    Monthly { interval: i32, end_date: Option<i32>, days: Vec<i32> },
    Yearly { interval: i32, end_date: Option<i32>, days: Vec<AnnualRecurringDay> },
}

#[derive(Clone, Debug)]
pub struct Attendee {
    pub id: String,
    pub status: AttendeeStatus,
}

#[derive(Clone, Copy, Debug, PartialEq, Eq, Structural)]
pub enum AttendeeStatus {
    Awaiting,
    Accepted,
    Declined,
    Tentative,
}

} // verus!
