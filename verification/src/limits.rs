//! Warnings about how much of the rate limits is used up.
//!
//! How much is used is told by the number of thresholds that were reached: at 75,
//! at 90 and at 95 percent.

use vstd::prelude::*;

use crate::prompts::Lines;
use crate::text;

verus! {

/// How long a window is, in words: a number of hours, `weekly`, `monthly` or
/// `annual`. Windows are given to within three minutes.
pub open spec fn window_label(minutes: int) -> Seq<char> {
    let minutes = if minutes < 0 {
        0
    } else {
        minutes
    };
    if minutes <= 24 * 60 + 3 {
        let hours = (minutes + 3) / 60;
        text::decimal(
            (if hours < 1 {
                1
            } else {
                hours
            }) as nat,
        ) + "h"@
    } else if minutes <= 7 * 24 * 60 + 3 {
        "weekly"@
    } else if minutes <= 30 * 24 * 60 + 3 {
        "monthly"@
    } else {
        "annual"@
    }
}

/// How long a window is, in words.
pub fn get_limits_duration(windows_minutes: i64) -> (r: String)
    ensures
        r@ == window_label(windows_minutes as int),
{
    let minutes: i64 = if windows_minutes < 0 {
        0
    } else {
        windows_minutes
    };
    if minutes <= 1443 {
        let hours: i64 = (minutes + 3) / 60;
        let number = text::to_decimal(
            if hours < 1 {
                1
            } else {
                hours as u64
            },
        );
        text::concat2(number.as_str(), "h")
    } else if minutes <= 10083 {
        "weekly".to_owned()
    } else if minutes <= 43203 {
        "monthly".to_owned()
    } else {
        "annual".to_owned()
    }
}

/// What is known after a report: what it says, or else what was known before.
pub open spec fn latest<T>(before: Option<T>, reported: Option<T>) -> Option<T> {
    if reported is Some {
        reported
    } else {
        before
    }
}

/// What is known after a report: what it says, or else what was known before.
pub fn keep_latest<T>(before: Option<T>, reported: Option<T>) -> (r: Option<T>)
    ensures
        r == latest(before, reported),
{
    match reported {
        Some(value) => Some(value),
        None => before,
    }
}

/// How much of a limit is used.
#[derive(Debug, Clone, Copy, PartialEq, Eq, Structural)]
pub struct LimitUse {
    /// How many thresholds were reached.
    pub passed: usize,
    /// Whether all of it is used.
    pub capped: bool,
    pub window_minutes: Option<i64>,
}

impl LimitUse {
    /// Whether 90 percent or more is used.
    pub open spec fn is_high(self) -> bool {
        self.passed >= 2
    }
}

/// How many thresholds were warned of, for each of the two limits.
#[derive(Debug, Clone, Copy, PartialEq, Eq, Structural)]
pub struct RateLimitWarningState {
    pub secondary_index: usize,
    pub primary_index: usize,
}

/// Whether all of a limit is used.
pub open spec fn is_capped(used: Option<LimitUse>) -> bool {
    used matches Some(used) && used.capped
}

/// How many thresholds are warned of after this use. There are three.
pub open spec fn warned(index: usize, used: Option<LimitUse>) -> usize {
    match used {
        Some(used) => {
            let reached: usize = if used.passed < 3 {
                used.passed
            } else {
                3
            };
            if reached > index {
                reached
            } else {
                index
            }
        },
        None => index,
    }
}

/// How many percent are left behind the threshold that was reached last.
pub open spec fn left_percent(warned: usize) -> Seq<char> {
    if warned <= 1 {
        "25"@
    } else if warned == 2 {
        "10"@
    } else {
        "5"@
    }
}

/// What the user is told at a threshold.
pub open spec fn warning_line(warned: usize, label: Seq<char>) -> Seq<char> {
    "Heads up, you have less than "@ + left_percent(warned) + "% of your "@ + label
        + " limit left. Run /status for a breakdown."@
}

/// What the user is told of one limit: one line if a new threshold was reached,
/// and that line names the highest one.
pub open spec fn limit_warnings(
    index: usize,
    used: Option<LimitUse>,
    default_label: Seq<char>,
) -> Seq<Seq<char>> {
    match used {
        Some(limit) => if warned(index, used) > index {
            seq![
                warning_line(
                    warned(index, used),
                    match limit.window_minutes {
                        Some(minutes) => window_label(minutes as int),
                        None => default_label,
                    },
                ),
            ]
        } else {
            seq![]
        },
        None => seq![],
    }
}

impl RateLimitWarningState {
    /// After these uses were reported. Nothing changes while a limit is used up.
    pub open spec fn after(
        self,
        secondary: Option<LimitUse>,
        primary: Option<LimitUse>,
    ) -> RateLimitWarningState {
        if is_capped(secondary) || is_capped(primary) {
            self
        } else {
            RateLimitWarningState {
                secondary_index: warned(self.secondary_index, secondary),
                primary_index: warned(self.primary_index, primary),
            }
        }
    }

    /// What the user is told when these uses are reported: nothing while a limit
    /// is used up.
    pub open spec fn warnings(
        self,
        secondary: Option<LimitUse>,
        primary: Option<LimitUse>,
    ) -> Seq<Seq<char>> {
        if is_capped(secondary) || is_capped(primary) {
            seq![]
        } else {
            limit_warnings(self.secondary_index, secondary, "weekly"@) + limit_warnings(
                self.primary_index,
                primary,
                "5h"@,
            )
        }
    }

    /// A state in which nothing was warned of.
    pub fn new() -> (r: RateLimitWarningState)
        ensures
            r == (RateLimitWarningState { secondary_index: 0, primary_index: 0 }),
    {
        RateLimitWarningState { secondary_index: 0, primary_index: 0 }
    }

    /// Takes in how much is used, and gives what to tell the user.
    pub fn take_warnings(
        &mut self,
        secondary: Option<LimitUse>,
        primary: Option<LimitUse>,
    ) -> (r: Vec<String>)
        ensures
            *final(self) == old(self).after(secondary, primary),
            text::views(r@) == old(self).warnings(secondary, primary),
    {
        let mut lines = Lines::new();
        if used_up(secondary) || used_up(primary) {
            return lines.into_texts();
        }
        let ghost start = *self;
        self.secondary_index = warn(self.secondary_index, secondary, "weekly", &mut lines);
        self.primary_index = warn(self.primary_index, primary, "5h", &mut lines);
        proof {
            assert(lines@ =~= start.warnings(secondary, primary));
        }
        lines.into_texts()
    }
}

fn used_up(used: Option<LimitUse>) -> (r: bool)
    ensures
        r == is_capped(used),
{
    match used {
        Some(used) => used.capped,
        None => false,
    }
}

fn warn(index: usize, used: Option<LimitUse>, default_label: &str, lines: &mut Lines) -> (r: usize)
    ensures
        r == warned(index, used),
        final(lines)@ == old(lines)@ + limit_warnings(index, used, default_label@),
{
    let limit = match used {
        Some(limit) => limit,
        None => {
            proof {
                assert(lines@ + Seq::<Seq<char>>::empty() =~= lines@);
            }
            return index;
        },
    };
    let reached: usize = if limit.passed < 3 {
        limit.passed
    } else {
        3
    };
    if reached <= index {
        proof {
            assert(lines@ + Seq::<Seq<char>>::empty() =~= lines@);
        }
        return index;
    }
    let label = match limit.window_minutes {
        Some(minutes) => get_limits_duration(minutes),
        None => default_label.to_owned(),
    };
    let left = if reached <= 1 {
        "25"
    } else if reached == 2 {
        "10"
    } else {
        "5"
    };
    let mut line = text::concat3("Heads up, you have less than ", left, "% of your ");
    line.append(label.as_str());
    line.append(" limit left. Run /status for a breakdown.");
    let ghost before = lines@;
    lines.put(line);
    proof {
        assert(lines@ =~= before + limit_warnings(index, used, default_label@));
    }
    reached
}

// ---------------------------------------------------------------------------
// Laws
// ---------------------------------------------------------------------------

/// The user is warned of a threshold once: the same use reported again gives no
/// warning.
pub proof fn law_each_threshold_is_warned_of_once(
    state: RateLimitWarningState,
    secondary: Option<LimitUse>,
    primary: Option<LimitUse>,
)
    ensures
        state.after(secondary, primary).warnings(secondary, primary).len() == 0,
{
}

/// What was warned of stays so.
pub proof fn law_warnings_are_kept(
    state: RateLimitWarningState,
    secondary: Option<LimitUse>,
    primary: Option<LimitUse>,
)
    ensures
        state.after(secondary, primary).secondary_index >= state.secondary_index,
        state.after(secondary, primary).primary_index >= state.primary_index,
{
}

/// A window is named after the hours that it is nearest to from below, with three minutes
/// of grace, as long as it is no longer than a day; a longer one is weekly, monthly or
/// annual.
pub proof fn law_a_window_is_named_after_its_length(minutes: int, hours: nat)
    ensures
        1 <= hours <= 24 && 60 * hours - 3 <= minutes < 60 * hours + 57 && minutes <= 24 * 60 + 3
            ==> window_label(minutes) == text::decimal(hours) + "h"@,
        minutes < 57 ==> window_label(minutes) == text::decimal(1) + "h"@,
        24 * 60 + 3 < minutes <= 7 * 24 * 60 + 3 ==> window_label(minutes) == "weekly"@,
        7 * 24 * 60 + 3 < minutes <= 30 * 24 * 60 + 3 ==> window_label(minutes) == "monthly"@,
        30 * 24 * 60 + 3 < minutes ==> window_label(minutes) == "annual"@,
{
}

/// Each threshold that is newly reached is told with what is left behind it: a quarter, a
/// tenth, a twentieth. Of several that are reached at once only the highest is told.
pub proof fn law_a_warning_tells_what_is_left(
    state: RateLimitWarningState,
    used: LimitUse,
    label: Seq<char>,
)
    requires
        !used.capped,
        used.passed > state.primary_index,
        state.primary_index < 3,
        used.window_minutes matches Some(minutes) ==> label == window_label(minutes as int),
        used.window_minutes is None ==> label == "5h"@,
    ensures
        ({
            let left = if used.passed == 1 {
                "25"@
            } else if used.passed == 2 {
                "10"@
            } else {
                "5"@
            };
            state.warnings(None, Some(used)) == seq![
                "Heads up, you have less than "@ + left + "% of your "@ + label
                    + " limit left. Run /status for a breakdown."@,
            ]
        }),
{
    assert(state.warnings(None, Some(used)) =~= limit_warnings(
        state.primary_index,
        Some(used),
        "5h"@,
    ));
}

/// Both limits are warned of, the longer one first; a limit that is used up, or that
/// reaches nothing new, is not.
pub proof fn law_both_limits_are_warned_of(
    state: RateLimitWarningState,
    secondary: Option<LimitUse>,
    primary: Option<LimitUse>,
)
    ensures
        is_capped(secondary) || is_capped(primary) ==> state.warnings(secondary, primary).len() == 0
            && state.after(secondary, primary) == state,
        !is_capped(secondary) && !is_capped(primary) ==> state.warnings(secondary, primary)
            == state.warnings(secondary, None) + state.warnings(None, primary),
        secondary matches Some(used) ==> used.passed <= state.secondary_index ==> state.warnings(
            secondary,
            None,
        ).len() == 0,
        primary matches Some(used) ==> used.passed <= state.primary_index ==> state.warnings(
            None,
            primary,
        ).len() == 0,
        state.warnings(None, None).len() == 0,
        secondary matches Some(used) && !used.capped && used.passed > state.secondary_index
            && state.secondary_index < 3 ==> state.warnings(secondary, None).len() == 1,
{
    let none: Seq<Seq<char>> = seq![];
    assert(state.warnings(secondary, None) =~= if is_capped(secondary) {
        none
    } else {
        limit_warnings(state.secondary_index, secondary, "weekly"@)
    });
    assert(state.warnings(None, primary) =~= if is_capped(primary) {
        none
    } else {
        limit_warnings(state.primary_index, primary, "5h"@)
    });
}

} // verus!
