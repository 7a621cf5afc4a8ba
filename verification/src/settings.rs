//! Per-root watch settings and the merge used when several agents share a
//! watch root.

use vstd::prelude::*;

verus! {

/// Debounce window used when a configuration names none, in seconds.
pub const DEFAULT_EVENT_WINDOW_SECONDS: u64 = 5;

/// Smallest debounce window a configuration may ask for, in seconds.
pub const MIN_EVENT_WINDOW_SECONDS: u64 = 1;

/// Largest debounce window a configuration may ask for, in seconds.
pub const MAX_EVENT_WINDOW_SECONDS: u64 = 3600;

/// Watch configuration contributed by one agent for its root: how long the
/// root must stay quiet before a batch of events is delivered, and whether
/// subdirectories are watched too. Unset fields fall back to the defaults
/// (window of `DEFAULT_EVENT_WINDOW_SECONDS` seconds, non-recursive).
#[derive(Debug, Clone, Copy)]
pub struct PathSettings {
    pub recursive: Option<bool>,
    pub window: Option<u64>,
}

impl PathSettings {
    /// The recursion flag with its default applied.
    pub open spec fn recursive_spec(self) -> bool {
        match self.recursive {
            Some(b) => b,
            None => false,
        }
    }

    /// The debounce window with its default applied.
    pub open spec fn window_spec(self) -> u64 {
        match self.window {
            Some(w) => w,
            None => DEFAULT_EVENT_WINDOW_SECONDS,
        }
    }

    pub fn recursive(&self) -> (r: bool)
        ensures
            r == self.recursive_spec(),
    {
        match self.recursive {
            Some(b) => b,
            None => false,
        }
    }

    pub fn window(&self) -> (w: u64)
        ensures
            w == self.window_spec(),
    {
        match self.window {
            Some(w) => w,
            None => DEFAULT_EVENT_WINDOW_SECONDS,
        }
    }

    /// Merge of two settings that apply to the same root: the shorter window
    /// wins, so no agent loses responsiveness, and recursion wins over
    /// non-recursion, so no agent loses coverage.
    pub open spec fn combine_spec(self, other: Self) -> Self {
        PathSettings {
            recursive: Some(self.recursive_spec() || other.recursive_spec()),
            window: Some(
                if self.window_spec() <= other.window_spec() {
                    self.window_spec()
                } else {
                    other.window_spec()
                },
            ),
        }
    }

    pub fn combine(&self, other: &Self) -> (r: Self)
        ensures
            r == self.combine_spec(*other),
    {
        let w1 = self.window();
        let w2 = other.window();
        let window: u64 = if w1 <= w2 {
            w1
        } else {
            w2
        };
        PathSettings { recursive: Some(self.recursive() || other.recursive()), window: Some(window) }
    }

    /// Whether the effective window lies within the accepted bounds.
    pub open spec fn window_in_bounds_spec(self) -> bool {
        MIN_EVENT_WINDOW_SECONDS <= self.window_spec() <= MAX_EVENT_WINDOW_SECONDS
    }

    pub fn window_in_bounds(&self) -> (r: bool)
        ensures
            r == self.window_in_bounds_spec(),
    {
        let w = self.window();
        MIN_EVENT_WINDOW_SECONDS <= w && w <= MAX_EVENT_WINDOW_SECONDS
    }
}

impl Default for PathSettings {
    fn default() -> (r: Self)
        ensures
            r.recursive == Some(false),
            r.window == Some(DEFAULT_EVENT_WINDOW_SECONDS),
    {
        PathSettings { recursive: Some(false), window: Some(DEFAULT_EVENT_WINDOW_SECONDS) }
    }
}

/// Is `c` a decimal digit?
pub open spec fn is_digit(c: char) -> bool {
    '0' <= c && c <= '9'
}

/// The value of one decimal digit.
pub open spec fn digit_val(c: char) -> int {
    c as int - 48
}

/// The number a digit sequence denotes, most significant digit first.
pub open spec fn dec_value(s: Seq<char>) -> int
    decreases s.len(),
{
    if s.len() == 0 {
        0
    } else {
        dec_value(s.drop_last()) * 10 + digit_val(s.last())
    }
}

/// The digits of a number written the way `u64` is parsed from text: an
/// optional leading `+` is not part of the value.
pub open spec fn number_body(s: Seq<char>) -> Seq<char> {
    if s.len() > 0 && s[0] == '+' {
        s.subrange(1, s.len() as int)
    } else {
        s
    }
}

/// Does `s` spell an unsigned decimal number: an optional leading `+`,
/// then one or more digits and nothing else?
pub open spec fn is_decimal(s: Seq<char>) -> bool {
    number_body(s).len() > 0 && forall|i: int|
        0 <= i < number_body(s).len() ==> is_digit(#[trigger] number_body(s)[i])
}

/// The window a command-line argument denotes, if it is a decimal number
/// within the accepted bounds.
pub open spec fn window_accepted(s: Seq<char>) -> Option<u64> {
    if is_decimal(s) && MIN_EVENT_WINDOW_SECONDS <= dec_value(number_body(s))
        <= MAX_EVENT_WINDOW_SECONDS {
        Some(dec_value(number_body(s)) as u64)
    } else {
        None
    }
}

/// Parses a debounce window given in seconds, accepting exactly the decimal
/// numbers from `MIN_EVENT_WINDOW_SECONDS` to `MAX_EVENT_WINDOW_SECONDS`.
pub fn window_seconds_range(s: &str) -> (r: Result<u64, String>)
    ensures
        match r {
            Ok(w) => window_accepted(s@) == Some(w),
            Err(_) => window_accepted(s@) is None,
        },
{
    let n = s.unicode_len();
    let start: usize = if n > 0 && s.get_char(0) == '+' {
        1
    } else {
        0
    };
    if n == start {
        return Err(String::from_str("invalid digit found in string"));
    }
    let ghost body = number_body(s@);
    proof {
        assert(body =~= s@.subrange(start as int, n as int));
    }
    let mut val: u64 = 0;
    let mut too_big = false;
    let mut i: usize = start;
    while i < n
        invariant
            start <= i <= n,
            n == s@.len(),
            start == 0 || (start == 1 && s@[0] == '+'),
            body == number_body(s@),
            body == s@.subrange(start as int, n as int),
            forall|j: int| start <= j < i ==> is_digit(#[trigger] s@[j]),
            !too_big ==> val == dec_value(s@.subrange(start as int, i as int)) && val
                <= MAX_EVENT_WINDOW_SECONDS,
            too_big ==> dec_value(s@.subrange(start as int, i as int))
                > MAX_EVENT_WINDOW_SECONDS,
        decreases n - i,
    {
        let c = s.get_char(i);
        let d = c as u32;
        if d < 48 || d > 57 {
            proof {
                assert(number_body(s@)[i - start] == s@[i as int]);
                assert(!is_digit(number_body(s@)[i - start]));
                assert(!is_decimal(s@));
            }
            return Err(String::from_str("invalid digit found in string"));
        }
        let ghost done = s@.subrange(start as int, i as int);
        proof {
            assert(s@.subrange(start as int, i + 1 as int).drop_last() =~= done);
            assert(s@.subrange(start as int, i + 1 as int).last() == s@[i as int]);
        }
        if too_big {
            proof {
                assert(dec_value(done) * 10 >= dec_value(done));
            }
        } else {
            let step: u64 = val * 10 + (d - 48) as u64;
            if step > MAX_EVENT_WINDOW_SECONDS {
                too_big = true;
            } else {
                val = step;
            }
        }
        i += 1;
    }
    proof {
        assert(s@.subrange(start as int, n as int) =~= body);
        assert(is_decimal(s@));
    }
    if too_big {
        return Err(String::from_str("exceeds maximum of 3600"));
    }
    if val < MIN_EVENT_WINDOW_SECONDS {
        return Err(String::from_str("less than minimum of 1"));
    }
    Ok(val)
}

/// Merging the settings of two agents gives the same result whichever agent
/// is named first.
pub proof fn lemma_combine_commutative(a: PathSettings, b: PathSettings)
    ensures
        a.combine_spec(b) == b.combine_spec(a),
{
}

/// Merging the settings of three agents gives the same result however the
/// merges are grouped, so a registry may fold any number of settings in any
/// order.
pub proof fn lemma_combine_associative(a: PathSettings, b: PathSettings, c: PathSettings)
    ensures
        a.combine_spec(b).combine_spec(c) == a.combine_spec(b.combine_spec(c)),
{
}

/// For settings whose window does not exceed the default, merging with the
/// default settings changes neither the effective window nor the effective
/// recursion flag. (For a longer window the default's shorter window wins,
/// so the default is only an identity on this restricted range.)
pub proof fn lemma_combine_default_identity(a: PathSettings)
    requires
        a.window_spec() <= DEFAULT_EVENT_WINDOW_SECONDS,
    ensures
        a.combine_spec(
            PathSettings { recursive: Some(false), window: Some(DEFAULT_EVENT_WINDOW_SECONDS) },
        ).window_spec() == a.window_spec(),
        a.combine_spec(
            PathSettings { recursive: Some(false), window: Some(DEFAULT_EVENT_WINDOW_SECONDS) },
        ).recursive_spec() == a.recursive_spec(),
{
}

} // verus!
