//! Alarm patterns and their evaluation against the time of day.

use vstd::prelude::*;

verus! {

/// Largest hour a pattern can name.
pub const MAX_HOUR: u8 = 23;

/// Largest minute a pattern can name.
pub const MAX_MINUTE: u8 = 59;

/// Largest second a pattern can name.
pub const MAX_SECOND: u8 = 59;

/// An hour / minute / second triple. A field that is `None` is a wildcard.
#[derive(Clone, Copy, Debug, PartialEq, Eq)]
pub struct TriggerPattern {
    pub hour: Option<u8>,
    pub minute: Option<u8>,
    pub second: Option<u8>,
}

impl TriggerPattern {
    /// Every field that is present lies on the clock face.
    pub open spec fn in_range(self) -> bool {
        &&& self.hour matches Some(h) ==> h <= MAX_HOUR
        &&& self.minute matches Some(m) ==> m <= MAX_MINUTE
        &&& self.second matches Some(s) ==> s <= MAX_SECOND
    }

    /// The pattern fires at `hour:minute:second`.
    ///
    /// Each field that is present must equal the actual value. A wildcard
    /// hour or minute accepts any value, but a wildcard second accepts only
    /// second 0, so that a pattern without a second fires once, at the start
    /// of the minute, and not on every tick of that minute.
    pub open spec fn fires_at(self, hour: u8, minute: u8, second: u8) -> bool {
        &&& self.hour matches Some(h) ==> h == hour
        &&& self.minute matches Some(m) ==> m == minute
        &&& self.second matches Some(s) ==> s == second
        &&& self.second is None ==> second == 0
    }

    /// Builds a pattern, or `None` if a field lies off the clock face.
    pub fn new(hour: Option<u8>, minute: Option<u8>, second: Option<u8>) -> (r: Option<Self>)
        ensures
            r == (if (TriggerPattern { hour, minute, second }).in_range() {
                Some(TriggerPattern { hour, minute, second })
            } else {
                None
            }),
    {
        let p = TriggerPattern { hour, minute, second };
        if p.is_in_range() {
            Some(p)
        } else {
            None
        }
    }

    /// Tests whether every present field lies on the clock face.
    pub fn is_in_range(&self) -> (b: bool)
        ensures
            b == self.in_range(),
    {
        let hour_ok = match self.hour {
            Some(h) => h <= MAX_HOUR,
            None => true,
        };
        let minute_ok = match self.minute {
            Some(m) => m <= MAX_MINUTE,
            None => true,
        };
        let second_ok = match self.second {
            Some(s) => s <= MAX_SECOND,
            None => true,
        };
        hour_ok && minute_ok && second_ok
    }

    /// Tests whether the pattern fires at the given time of day.
    pub fn matches(&self, hour: u8, minute: u8, second: u8) -> (b: bool)
        ensures
            b == self.fires_at(hour, minute, second),
    {
        let hour_ok = match self.hour {
            Some(h) => h == hour,
            None => true,
        };
        let minute_ok = match self.minute {
            Some(m) => m == minute,
            None => true,
        };
        let second_ok = match self.second {
            Some(s) => s == second,
            None => second == 0,
        };
        hour_ok && minute_ok && second_ok
    }
}

/// `found` is what evaluating `patterns` at `hour:minute:second` yields: the
/// index of the first pattern that fires, or `None` where none does.
pub open spec fn is_first_match(
    patterns: Seq<TriggerPattern>,
    hour: u8,
    minute: u8,
    second: u8,
    found: Option<usize>,
) -> bool {
    match found {
        Some(i) => {
            &&& i < patterns.len()
            &&& patterns[i as int].fires_at(hour, minute, second)
            &&& forall|j: int| 0 <= j < i ==> !(#[trigger] patterns[j]).fires_at(hour, minute, second)
        },
        None => forall|j: int|
            0 <= j < patterns.len() ==> !(#[trigger] patterns[j]).fires_at(hour, minute, second),
    }
}

/// An ordered set of patterns. Earlier patterns take precedence, and the set
/// does not change once it is built.
pub struct TriggerSet {
    patterns: Vec<TriggerPattern>,
}

impl View for TriggerSet {
    type V = Seq<TriggerPattern>;

    closed spec fn view(&self) -> Seq<TriggerPattern> {
        self.patterns@
    }
}

impl TriggerSet {
    #[verifier::type_invariant]
    spec fn all_in_range(self) -> bool {
        forall|i: int| 0 <= i < self.patterns@.len() ==> (#[trigger] self.patterns@[i]).in_range()
    }

    /// The set without patterns, which never fires.
    pub fn empty() -> (set: Self)
        ensures
            set@ == Seq::<TriggerPattern>::empty(),
    {
        TriggerSet { patterns: Vec::new() }
    }

    /// Takes the patterns in the order given, or `None` if one of them has a
    /// field off the clock face.
    pub fn from_patterns(patterns: Vec<TriggerPattern>) -> (r: Option<Self>)
        ensures
            match r {
                Some(set) => set@ == patterns@,
                None => exists|i: int| 0 <= i < patterns@.len() && !(#[trigger] patterns@[i]).in_range(),
            },
            r is Some <==> forall|i: int|
                0 <= i < patterns@.len() ==> (#[trigger] patterns@[i]).in_range(),
    {
        let mut i: usize = 0;
        while i < patterns.len()
            invariant
                i <= patterns@.len(),
                forall|j: int| 0 <= j < i ==> (#[trigger] patterns@[j]).in_range(),
            decreases patterns@.len() - i,
        {
            if !patterns[i].is_in_range() {
                return None;
            }
            i += 1;
        }
        Some(TriggerSet { patterns })
    }

    /// Takes patterns that are known to lie on the clock face.
    pub(crate) fn from_in_range(patterns: Vec<TriggerPattern>) -> (set: Self)
        requires
            forall|i: int| 0 <= i < patterns@.len() ==> (#[trigger] patterns@[i]).in_range(),
        ensures
            set@ == patterns@,
    {
        TriggerSet { patterns }
    }

    /// Number of patterns in the set.
    pub fn len(&self) -> (n: usize)
        ensures
            n == self@.len(),
    {
        self.patterns.len()
    }

    /// The pattern at `index`, or `None` past the end.
    pub fn get(&self, index: usize) -> (r: Option<TriggerPattern>)
        ensures
            r == (if index < self@.len() {
                Some(self@[index as int])
            } else {
                None
            }),
            r matches Some(p) ==> p.in_range(),
    {
        proof {
            use_type_invariant(self);
        }
        if index < self.patterns.len() {
            Some(self.patterns[index])
        } else {
            None
        }
    }
}

/// Index of the first pattern of `patterns` that fires at
/// `hour:minute:second`, or `None` where none fires.
///
/// The answer depends on the four arguments alone; nothing is remembered
/// between calls.
pub fn evaluate(hour: u8, minute: u8, second: u8, patterns: &TriggerSet) -> (found: Option<usize>)
    ensures
        is_first_match(patterns@, hour, minute, second, found),
{
    let n = patterns.len();
    let mut i: usize = 0;
    while i < n
        invariant
            n == patterns@.len(),
            i <= n,
            forall|j: int| 0 <= j < i ==> !(#[trigger] patterns@[j]).fires_at(hour, minute, second),
        decreases n - i,
    {
        if patterns.patterns[i].matches(hour, minute, second) {
            return Some(i);
        }
        i += 1;
    }
    None
}

/// Evaluation has one answer: two results for the same time and the same
/// patterns are equal, so asking again changes nothing.
pub proof fn lemma_first_match_unique(
    patterns: Seq<TriggerPattern>,
    hour: u8,
    minute: u8,
    second: u8,
    a: Option<usize>,
    b: Option<usize>,
)
    requires
        is_first_match(patterns, hour, minute, second, a),
        is_first_match(patterns, hour, minute, second, b),
    ensures
        a == b,
{
    match (a, b) {
        (Some(i), Some(j)) => {
            if i < j {
                assert(!patterns[i as int].fires_at(hour, minute, second));
            } else if j < i {
                assert(!patterns[j as int].fires_at(hour, minute, second));
            }
        },
        (Some(i), None) => {
            assert(!patterns[i as int].fires_at(hour, minute, second));
        },
        (None, Some(j)) => {
            assert(!patterns[j as int].fires_at(hour, minute, second));
        },
        (None, None) => {},
    }
}

} // verus!
