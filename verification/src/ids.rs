//! Identifiers of workflows, runs, activities, timers, schedules and processes.

use vstd::arithmetic::div_mod::lemma_div_denominator;
use vstd::arithmetic::power::{lemma_pow0, lemma_pow1, lemma_pow_adds, lemma_pow_positive, pow};
use vstd::prelude::*;
use vstd::string::*;

use crate::text::{decimal, decimal_is_injective, decimal_text, joined, same_text};

verus! {

/// Process identifier assigned by the runtime.
pub type Pid = u64;

/// The lower-case hexadecimal character of a value below sixteen.
pub open spec fn hex_digit(d: nat) -> char {
    if d < 10 {
        crate::text::digit(d)
    } else if d == 10 {
        'a'
    } else if d == 11 {
        'b'
    } else if d == 12 {
        'c'
    } else if d == 13 {
        'd'
    } else if d == 14 {
        'e'
    } else {
        'f'
    }
}

/// The `i`-th of the 32 hexadecimal digits of a 128-bit value, most significant first.
pub open spec fn nibble(value: u128, i: int) -> nat {
    ((value as int / pow(16, (31 - i) as nat)) % 16) as nat
}

/// The canonical text of a 128-bit identifier: 32 lower-case hexadecimal digits in groups of
/// eight, four, four, four and twelve, with a hyphen between groups.
pub open spec fn hyphenated(value: u128) -> Seq<char> {
    Seq::new(
        36,
        |i: int|
            if i == 8 || i == 13 || i == 18 || i == 23 {
                '-'
            } else if i < 8 {
                hex_digit(nibble(value, i))
            } else if i < 13 {
                hex_digit(nibble(value, i - 1))
            } else if i < 18 {
                hex_digit(nibble(value, i - 2))
            } else if i < 23 {
                hex_digit(nibble(value, i - 3))
            } else {
                hex_digit(nibble(value, i - 4))
            },
    )
}

/// Formats with `uuid::Uuid::from_u128` and the `Display` of [`uuid::Uuid`]: the text is the
/// hyphenated lower-case form of the value in big-endian order.
#[verifier::external_body]
pub(crate) fn uuid_text(value: u128) -> (text: String)
    ensures
        text@ == hyphenated(value),
{
    uuid::Uuid::from_u128(value).to_string()
}

/// Logical workflow identifier.
#[derive(Clone, Copy, Debug, PartialEq, Eq, Structural, Hash)]
pub struct WorkflowId {
    /// The identifier as a 128-bit number.
    pub value: u128,
}

impl WorkflowId {
    /// The identifier with the given 128-bit value.
    pub fn new(value: u128) -> (id: Self)
        ensures
            id.value == value,
    {
        WorkflowId { value }
    }

    /// The text under which the identifier is listed and reported.
    pub fn to_string(&self) -> (text: String)
        ensures
            text@ == hyphenated(self.value),
    {
        uuid_text(self.value)
    }
}

/// Identifier of one run of a workflow.
#[derive(Clone, Copy, Debug, PartialEq, Eq, Structural, Hash)]
pub struct RunId {
    /// The identifier as a 128-bit number.
    pub value: u128,
}

impl RunId {
    /// The identifier with the given 128-bit value.
    pub fn new(value: u128) -> (id: Self)
        ensures
            id.value == value,
    {
        RunId { value }
    }

    /// The text under which the run is reported.
    pub fn to_string(&self) -> (text: String)
        ensures
            text@ == hyphenated(self.value),
    {
        uuid_text(self.value)
    }
}

/// Identifier of a durable schedule.
#[derive(Clone, Copy, Debug, PartialEq, Eq, Structural, Hash)]
pub struct ScheduleId {
    /// The identifier as a 128-bit number.
    pub value: u128,
}

impl ScheduleId {
    /// The identifier with the given 128-bit value.
    pub fn new(value: u128) -> (id: Self)
        ensures
            id.value == value,
    {
        ScheduleId { value }
    }

    /// The text under which the schedule is listed.
    pub fn to_string(&self) -> (text: String)
        ensures
            text@ == hyphenated(self.value),
    {
        uuid_text(self.value)
    }
}

/// Per-workflow activity ordinal.
#[derive(Clone, Copy, Debug, PartialEq, Eq, Structural, Hash)]
pub struct ActivityId {
    /// Position of the activity in its workflow.
    pub position: u64,
}

impl ActivityId {
    /// The activity at `position`.
    pub fn from_sequence_position(position: u64) -> (id: Self)
        ensures
            id.position == position,
    {
        ActivityId { position }
    }

    /// Position of the activity in its workflow.
    pub fn sequence_position(&self) -> (position: u64)
        ensures
            position == self.position,
    {
        self.position
    }
}

/// Reasons for which an identifier is refused.
#[derive(Clone, Copy, Debug, PartialEq, Eq, Structural)]
pub enum IdError {
    /// A named timer needs a name.
    EmptyTimerName,
}

impl IdError {
    /// The text under which the refusal is reported.
    pub fn to_string(&self) -> (text: String)
        ensures
            text@ == self.text(),
    {
        "timer name must not be empty".to_owned()
    }

    /// The text under which the refusal is reported.
    pub open spec fn text(self) -> Seq<char> {
        "timer name must not be empty"@
    }
}

/// Durable timer identifier.
#[derive(Debug, PartialEq, Eq, Hash)]
pub enum TimerId {
    /// Author-assigned name of a cancellable timer.
    Named(String),
    /// Engine-assigned position of an anonymous sleep.
    Anonymous(u64),
}

/// Mathematical value of a [`TimerId`].
pub enum TimerIdView {
    /// Author-assigned name.
    Named(Seq<char>),
    /// Engine-assigned position.
    Anonymous(u64),
}

impl TimerIdView {
    /// The text under which the timer is listed.
    pub open spec fn text(self) -> Seq<char> {
        match self {
            TimerIdView::Named(name) => "timer:named:"@ + name,
            TimerIdView::Anonymous(position) => "timer:anonymous:"@ + decimal(position as nat),
        }
    }
}

impl View for TimerId {
    type V = TimerIdView;

    open spec fn view(&self) -> TimerIdView {
        match self {
            TimerId::Named(name) => TimerIdView::Named(name@),
            TimerId::Anonymous(position) => TimerIdView::Anonymous(*position),
        }
    }
}

impl Clone for TimerId {
    fn clone(&self) -> (copy: Self)
        ensures
            copy == *self,
    {
        match self {
            TimerId::Named(name) => TimerId::Named(name.clone()),
            TimerId::Anonymous(position) => TimerId::Anonymous(*position),
        }
    }
}

impl TimerId {
    /// A timer with an author-assigned name; an empty name is refused.
    pub fn named(name: &str) -> (id: Result<Self, IdError>)
        ensures
            id is Ok <==> name@.len() > 0,
            id matches Ok(timer) ==> timer@ == TimerIdView::Named(name@),
            id matches Err(error) ==> error == IdError::EmptyTimerName,
    {
        if name.is_empty() {
            Err(IdError::EmptyTimerName)
        } else {
            Ok(TimerId::Named(name.to_owned()))
        }
    }

    /// The anonymous timer at `position`.
    pub fn anonymous(position: u64) -> (id: Self)
        ensures
            id@ == TimerIdView::Anonymous(position),
    {
        TimerId::Anonymous(position)
    }

    /// The author-assigned name, if the timer has one.
    pub fn name(&self) -> (name: Option<&str>)
        ensures
            name is Some <==> self@ is Named,
            name matches Some(text) ==> self@ == TimerIdView::Named(text@),
    {
        match self {
            TimerId::Named(name) => Some(name.as_str()),
            TimerId::Anonymous(_) => None,
        }
    }

    /// The engine-assigned position, if the timer is anonymous.
    pub fn sequence_position(&self) -> (position: Option<u64>)
        ensures
            position is Some <==> self@ is Anonymous,
            position matches Some(p) ==> self@ == TimerIdView::Anonymous(p),
    {
        match self {
            TimerId::Named(_) => None,
            TimerId::Anonymous(position) => Some(*position),
        }
    }

    /// The text under which the timer is listed.
    pub fn to_string(&self) -> (text: String)
        ensures
            text@ == self@.text(),
    {
        match self {
            TimerId::Named(name) => joined("timer:named:", name.as_str()),
            TimerId::Anonymous(position) => joined(
                "timer:anonymous:",
                decimal_text(*position as u128).as_str(),
            ),
        }
    }

    /// Whether two timer identifiers denote the same timer.
    pub fn same(&self, other: &Self) -> (same: bool)
        ensures
            same == (self@ == other@),
    {
        match (self, other) {
            (TimerId::Named(a), TimerId::Named(b)) => same_text(a.as_str(), b.as_str()),
            (TimerId::Anonymous(a), TimerId::Anonymous(b)) => *a == *b,
            _ => false,
        }
    }
}

proof fn hex_digit_is_injective(a: nat, b: nat)
    requires
        a < 16,
        b < 16,
        hex_digit(a) == hex_digit(b),
    ensures
        a == b,
{
}

/// Different identifiers have different texts.
pub proof fn hyphenated_is_injective(a: u128, b: u128)
    requires
        hyphenated(a) == hyphenated(b),
    ensures
        a == b,
{
    assert forall|i: int| 0 <= i < 32 implies #[trigger] nibble(a, i) == nibble(b, i) by {
        let at = if i < 8 {
            i
        } else if i < 12 {
            i + 1
        } else if i < 16 {
            i + 2
        } else if i < 20 {
            i + 3
        } else {
            i + 4
        };
        assert(hyphenated(a)[at] == hyphenated(b)[at]);
        lemma_pow_positive(16, (31 - i) as nat);
        assert(hyphenated(a)[at] == hex_digit(nibble(a, i)));
        assert(hyphenated(b)[at] == hex_digit(nibble(b, i)));
        hex_digit_is_injective(nibble(a, i), nibble(b, i));
    }
    same_leading_digits(a, b, 32);
    lemma_pow0(16);
}

/// Values whose first `n` digits agree agree up to the digits behind them.
proof fn same_leading_digits(a: u128, b: u128, n: int)
    requires
        0 <= n <= 32,
        forall|i: int| 0 <= i < 32 ==> #[trigger] nibble(a, i) == nibble(b, i),
    ensures
        a as int / pow(16, (32 - n) as nat) == b as int / pow(16, (32 - n) as nat),
    decreases n,
{
    if n == 0 {
        assert(pow(16, 32) == 0x1_0000_0000_0000_0000_0000_0000_0000_0000int) by {
            reveal(pow);
            reveal_with_fuel(pow, 33);
        }
    } else {
        same_leading_digits(a, b, n - 1);
        let unit = pow(16, (32 - n) as nat);
        lemma_pow_positive(16, (32 - n) as nat);
        lemma_pow_adds(16, (32 - n) as nat, 1);
        lemma_pow1(16);
        assert(pow(16, (33 - n) as nat) == unit * 16);
        lemma_div_denominator(a as int, unit, 16);
        lemma_div_denominator(b as int, unit, 16);
        assert(nibble(a, n - 1) == nibble(b, n - 1));
        let x = a as int / unit;
        let y = b as int / unit;
        assert(x / 16 == y / 16 && x % 16 == y % 16);
    }
}

/// Different timers have different texts.
pub proof fn timer_text_is_injective(a: TimerIdView, b: TimerIdView)
    requires
        a.text() == b.text(),
    ensures
        a == b,
{
    reveal_strlit("timer:named:");
    reveal_strlit("timer:anonymous:");
    let named = "timer:named:"@;
    let anonymous = "timer:anonymous:"@;
    assert(named[6] == 'n' && anonymous[6] == 'a');
    match (a, b) {
        (TimerIdView::Named(x), TimerIdView::Named(y)) => {
            assert(a.text().skip(named.len() as int) =~= x);
            assert(b.text().skip(named.len() as int) =~= y);
        },
        (TimerIdView::Anonymous(x), TimerIdView::Anonymous(y)) => {
            assert(a.text().skip(anonymous.len() as int) =~= decimal(x as nat));
            assert(b.text().skip(anonymous.len() as int) =~= decimal(y as nat));
            decimal_is_injective(x as nat, y as nat);
        },
        (TimerIdView::Named(x), TimerIdView::Anonymous(y)) => {
            assert((named + x)[6] == named[6]);
            assert((anonymous + decimal(y as nat))[6] == anonymous[6]);
        },
        (TimerIdView::Anonymous(x), TimerIdView::Named(y)) => {
            assert((anonymous + decimal(x as nat))[6] == anonymous[6]);
            assert((named + y)[6] == named[6]);
        },
    }
}

/// Place of the `i`-th digit in the text of an identifier.
pub open spec fn digit_place(i: int) -> int {
    if i < 8 {
        i
    } else if i < 12 {
        i + 1
    } else if i < 16 {
        i + 2
    } else if i < 20 {
        i + 3
    } else {
        i + 4
    }
}

/// An identifier is written in lower case hexadecimal, in groups of eight, four, four, four and twelve
/// digits: a further digit shifts the digits before it one place to the left, and that of zero is
/// zero.
pub proof fn identifiers_are_written_in_hexadecimal(value: u128, further: u128, i: int)
    requires
        value <= 0x0fff_ffff_ffff_ffff_ffff_ffff_ffff_ffff,
        further < 16,
        0 <= i < 32,
    ensures
        hyphenated(value).len() == 36,
        forall|at: int|
            0 <= at < 36 ==> (#[trigger] hyphenated(value)[at] == '-' <==> at == 8 || at == 13 || at
                == 18 || at == 23),
        i < 31 ==> hyphenated((value * 16 + further) as u128)[digit_place(i)] == hyphenated(
            value,
        )[digit_place(i + 1)],
        hyphenated((value * 16 + further) as u128)[35] as int == (if further < 10 {
            '0' as int + further
        } else {
            'a' as int + further - 10
        }),
        hyphenated(0)[digit_place(i)] == '0',
{
    let longer = (value * 16 + further) as u128;
    assert(longer == value * 16 + further);
    assert forall|at: int| 0 <= at < 36 implies (#[trigger] hyphenated(value)[at] == '-' <==> at == 8
        || at == 13 || at == 18 || at == 23) by {
        digits_are_no_hyphens();
    }
    lemma_pow_positive(16, (31 - i) as nat);
    assert(nibble(0, i) == 0) by {
        vstd::arithmetic::div_mod::lemma_div_of0(pow(16, (31 - i) as nat));
    }
    assert(hyphenated(0)[digit_place(i)] == hex_digit(nibble(0, i)));
    lemma_pow0(16);
    assert(longer as int / 1 == longer);
    assert(nibble(longer, 31) == further as nat);
    assert(hyphenated(longer)[35] == hex_digit(nibble(longer, 31)));
    if i < 31 {
        let k = (31 - i) as nat;
        lemma_pow_adds(16, 1, (k - 1) as nat);
        lemma_pow1(16);
        lemma_pow_positive(16, (k - 1) as nat);
        lemma_div_denominator(longer as int, 16, pow(16, (k - 1) as nat));
        assert(longer as int / 16 == value as int);
        assert(nibble(longer, i) == nibble(value, i + 1));
        assert(hyphenated(longer)[digit_place(i)] == hex_digit(nibble(longer, i)));
        assert(hyphenated(value)[digit_place(i + 1)] == hex_digit(nibble(value, i + 1)));
    }
}

proof fn digits_are_no_hyphens()
    ensures
        forall|d: nat| #[trigger] hex_digit(d) != '-',
{
}

/// The text of a timer says whether it is named, and then gives its name or its position.
pub proof fn timer_texts_tell_name_or_position(name: Seq<char>, position: u64)
    ensures
        TimerIdView::Named(name).text() == "timer:named:"@ + name,
        TimerIdView::Anonymous(position).text() == "timer:anonymous:"@ + decimal(position as nat),
{
}

} // verus!
