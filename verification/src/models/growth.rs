use vstd::prelude::*;
use vstd::arithmetic::power::{lemma_pow_adds, lemma_pow_distributes, lemma_pow_increases, pow};
use crate::utils::bignat::BigNat;
use crate::utils::roots::{
    floor_root10, floor_root10_of, is_floor_root10, lemma_floor_root10_at_least,
    lemma_floor_root10_exists, lemma_floor_root10_unique, lemma_pow_at_least_one,
    lemma_pow_base_increases, lemma_pow_base_strictly_increases, lemma_pow_nonnegative,
    lemma_step_of_two,
};

verus! {

/// Level and experience as the presentation layer shows them.
#[derive(Debug, Clone, Copy, PartialEq, Eq, Structural)]
pub struct LevelInfo {
    pub level: u32,
    pub current_exp: u32,
    pub exp_to_next: u32,
    pub total_exp: u32,
}

/// Experience for one minute of coding.
pub const EXP_PER_CODING_MINUTE: u32 = 1;

/// Experience for one commit below the daily cap.
pub const EXP_PER_COMMIT: u32 = 20;

/// Experience for one finished focused-work session.
pub const EXP_PER_POMODORO: u32 = 30;

/// Number of commits a day that earn the full rate.
pub const DAILY_COMMIT_CAP: u32 = 20;

/// Share of the full rate, in percent, that a commit beyond the cap earns.
pub const COMMIT_DECAY_PERCENT: u32 = 20;

/// The tenth power of twice the experience that a level asks for:
/// `(2 * 60 * level^1.3)^10`, which is the whole number
/// `120^10 * level^13`.
pub open spec fn scaled_power(level: nat) -> int {
    pow(120, 10) * pow(level as int, 13)
}

/// The experience that takes an avatar from `level` to the next:
/// `60 * level^1.3`, rounded to the nearest whole number.
///
/// Twice that amount is the tenth root of [`scaled_power`]; adding one to the
/// integer part of the root and halving rounds the amount itself.
pub open spec fn exp_required(level: nat) -> nat {
    ((floor_root10(scaled_power(level)) + 1) / 2) as nat
}

proof fn lemma_scaled_power_nonnegative(level: nat)
    ensures
        scaled_power(level) >= 0,
{
    lemma_pow_nonnegative(120, 10);
    lemma_pow_nonnegative(level as int, 13);
    assert(pow(120, 10) * pow(level as int, 13) >= 0) by (nonlinear_arith)
        requires
            pow(120, 10) >= 0,
            pow(level as int, 13) >= 0,
    ;
}

/// Twice the experience of a level is at least `120 * level`.
proof fn lemma_root_at_least_linear(level: nat)
    requires
        level >= 1,
    ensures
        pow(120 * level as int, 10) <= scaled_power(level),
{
    let l = level as int;
    lemma_pow_distributes(120, l, 10);
    lemma_pow_increases(level, 10, 13);
    lemma_pow_nonnegative(120, 10);
    let c = pow(120, 10);
    let p = pow(l, 10);
    let q = pow(l, 13);
    assert(c * p <= c * q) by (nonlinear_arith)
        requires
            c >= 0,
            p <= q,
    ;
}

/// Twice the experience of a level is below `120 * 1024 * level + 1`, for a
/// level that fits in 32 bits.
proof fn lemma_root_below_bound(level: nat)
    requires
        1 <= level <= u32::MAX,
    ensures
        scaled_power(level) < pow(120 * 1024 * level as int + 1, 10),
{
    let l = level as int;
    let c = pow(120, 10);
    let p = pow(l, 10);
    let q = pow(l, 3);
    let k = pow(1024, 10);
    lemma_pow_adds(l, 10, 3);
    assert(q <= k) by {
        lemma_pow_base_increases(l, 0x1_0000_0000, 3);
        assert(pow(0x1_0000_0000, 3) == 0x1_0000_0000_0000_0000_0000_0000) by {
            reveal_with_fuel(pow, 4);
        }
        assert(pow(1024, 10) == 0x10_0000_0000_0000_0000_0000_0000) by {
            reveal_with_fuel(pow, 11);
        }
    }
    lemma_pow_nonnegative(120, 10);
    lemma_pow_nonnegative(l, 10);
    assert(c * (p * q) <= c * (k * p)) by (nonlinear_arith)
        requires
            c >= 0,
            p >= 0,
            q <= k,
    ;
    lemma_pow_distributes(1024, l, 10);
    lemma_pow_distributes(120, 1024 * l, 10);
    assert(120 * (1024 * l) == 120 * 1024 * l) by (nonlinear_arith);
    lemma_pow_base_strictly_increases(120 * 1024 * l, 120 * 1024 * l + 1, 10);
}

/// Where the integer part of the root for one level is `a`, the root for the
/// next level is at least `a + 2`.
proof fn lemma_root_grows_by_two(level: nat, a: int)
    requires
        level >= 1,
        a >= 120 * level,
        pow(a, 10) <= scaled_power(level),
    ensures
        pow(a + 2, 10) <= scaled_power(level + 1),
{
    let l = level as int;
    let c = pow(120, 10);
    let s = pow(a, 10);
    let t = pow(a + 2, 10);
    let m = pow(l, 12);
    let n = pow(l + 1, 12);
    let d = a - 20;
    lemma_step_of_two(a, 10);
    assert(pow(a, 11) == a * s) by {
        reveal(pow);
    }
    assert(pow(l, 13) == l * m) by {
        reveal(pow);
    }
    assert(pow(l + 1, 13) == (l + 1) * n) by {
        reveal(pow);
    }
    lemma_pow_base_increases(l, l + 1, 12);
    lemma_pow_nonnegative(120, 10);
    assert(a * s <= a * (c * (l * m))) by (nonlinear_arith)
        requires
            a >= 0,
            s <= c * (l * m),
    ;
    assert(a * l <= d * (l + 1)) by (nonlinear_arith)
        requires
            d == a - 20,
            a >= 120 * l,
            l >= 1,
    ;
    assert((a * l) * m <= (d * (l + 1)) * n) by (nonlinear_arith)
        requires
            a * l <= d * (l + 1),
            0 <= a * l,
            0 <= m <= n,
    ;
    assert(c * ((a * l) * m) <= c * ((d * (l + 1)) * n)) by (nonlinear_arith)
        requires
            c >= 0,
            (a * l) * m <= (d * (l + 1)) * n,
    ;
    assert(a * (c * (l * m)) == c * ((a * l) * m)) by (nonlinear_arith);
    assert(c * ((d * (l + 1)) * n) == (c * ((l + 1) * n)) * d) by (nonlinear_arith);
    assert(0 <= a * l) by (nonlinear_arith)
        requires
            a >= 0,
            l >= 0,
    ;
    assert(t <= c * ((l + 1) * n)) by (nonlinear_arith)
        requires
            t * d <= (c * ((l + 1) * n)) * d,
            d > 0,
    ;
}

/// The experience of a level is at least sixty times the level, so it is
/// positive from level one on.
pub proof fn lemma_exp_required_at_least(level: nat)
    requires
        level >= 1,
    ensures
        exp_required(level) >= 60 * level,
{
    let x = scaled_power(level);
    lemma_scaled_power_nonnegative(level);
    lemma_floor_root10_exists(x);
    lemma_root_at_least_linear(level);
    lemma_floor_root10_at_least(x, floor_root10(x), 120 * level as int);
}

/// The first level asks for sixty points.
pub proof fn lemma_exp_required_of_first_level()
    ensures
        exp_required(1) == 60,
{
    let x = scaled_power(1);
    assert(pow(1, 13) == 1) by {
        reveal_with_fuel(pow, 14);
    }
    assert(x == pow(120, 10));
    lemma_scaled_power_nonnegative(1);
    lemma_pow_base_strictly_increases(120, 121, 10);
    assert(is_floor_root10(x, 120));
    lemma_floor_root10_exists(x);
    lemma_floor_root10_unique(x, floor_root10(x), 120);
}

/// The experience of a level is the whole number nearest to
/// `60 * level^1.3`: the one number `n` with
/// `2 * n - 1 <= 2 * 60 * level^1.3 < 2 * n + 1`, stated here over the tenth
/// powers of the three.
pub proof fn lemma_exp_required_is_nearest(level: nat, n: nat)
    requires
        n >= 1,
        pow(2 * n - 1, 10) <= scaled_power(level) < pow(2 * n as int + 1, 10),
    ensures
        exp_required(level) == n,
{
    let x = scaled_power(level);
    lemma_pow_nonnegative(2 * n - 1, 10);
    lemma_floor_root10_exists(x);
    let r = floor_root10(x);
    lemma_floor_root10_at_least(x, r, 2 * n - 1);
    if r >= 2 * n + 1 {
        lemma_pow_base_increases(2 * n as int + 1, r, 10);
    }
}

/// Each level asks for more experience than the level before it.
pub proof fn lemma_exp_required_strictly_increases(level: nat)
    requires
        level >= 1,
    ensures
        exp_required(level + 1) > exp_required(level),
{
    let x = scaled_power(level);
    let y = scaled_power(level + 1);
    lemma_scaled_power_nonnegative(level);
    lemma_scaled_power_nonnegative(level + 1);
    lemma_floor_root10_exists(x);
    lemma_floor_root10_exists(y);
    let a = floor_root10(x);
    lemma_root_at_least_linear(level);
    lemma_floor_root10_at_least(x, a, 120 * level as int);
    lemma_root_grows_by_two(level, a);
    lemma_floor_root10_at_least(y, floor_root10(y), a + 2);
}

/// The number `120^10 * level^13`, whose tenth root is twice what the level
/// asks for.
fn scaled_power_of(level: u32) -> (target: BigNat)
    ensures
        target@ == scaled_power(level as nat),
{
    let mut target = BigNat::pow_of(120, 10);
    let mut k: u32 = 0;
    assert(pow(level as int, 0) == 1) by {
        reveal(pow);
    }
    assert(pow(120, 10) * 1 == pow(120, 10)) by (nonlinear_arith);
    while k < 13
        invariant
            k <= 13,
            target@ == pow(120, 10) * pow(level as int, k as nat),
        decreases 13 - k,
    {
        let ghost before = pow(level as int, k as nat);
        target = target.mul_small(level as u64);
        assert(pow(level as int, (k + 1) as nat) == level * before) by {
            reveal(pow);
        }
        assert((pow(120, 10) * before) * level == pow(120, 10) * (level * before))
            by (nonlinear_arith);
        k += 1;
    }
    target
}

/// The experience that takes an avatar from `level` to the next.
///
/// Computed in whole numbers throughout: the tenth root of
/// `120^10 * level^13` is found by bisection, and its integer part gives the
/// rounded amount.
pub fn exp_for_level(level: u32) -> (required: u64)
    ensures
        required == exp_required(level as nat),
{
    let target = scaled_power_of(level);
    let bound: u64 = 122_880 * (level as u64) + 1;
    proof {
        assert(120 * 1024 * level as int == 122_880 * level) by (nonlinear_arith);
        lemma_scaled_power_nonnegative(level as nat);
        if level == 0 {
            assert(pow(0, 13) == 0) by {
                reveal(pow);
            }
            assert(pow(120, 10) * 0 == 0) by (nonlinear_arith);
            lemma_pow_at_least_one(1, 10);
        } else {
            lemma_root_below_bound(level as nat);
        }
    }
    let root: u64 = floor_root10_of(&target, bound);
    (root + 1) / 2
}

/// The experience that a day's commits earn: twenty points a commit up to
/// the daily cap of twenty commits, and four points, a fifth of the rate, for
/// each commit beyond it.
pub open spec fn commit_exp_of(commit_count: nat) -> nat {
    if commit_count <= 20 {
        commit_count * 20
    } else {
        (400 + (commit_count - 20) * 4) as nat
    }
}

/// The experience that a day's commits earn.
pub fn commit_exp(commit_count: u32) -> (exp: u64)
    ensures
        exp == commit_exp_of(commit_count as nat),
{
    let rate: u64 = EXP_PER_COMMIT as u64;
    let cap: u64 = DAILY_COMMIT_CAP as u64;
    let percent: u64 = COMMIT_DECAY_PERCENT as u64;
    assert(rate == 20 && cap == 20 && percent == 20);
    let count: u64 = commit_count as u64;
    if count <= cap {
        count * rate
    } else {
        let base: u64 = cap * rate;
        let extra: u64 = (count - cap) * rate * percent / 100;
        base + extra
    }
}

/// The daily bonus for a streak of consecutive active days.
pub open spec fn streak_bonus_of(streak_days: nat) -> nat {
    if streak_days <= 1 {
        0
    } else if streak_days <= 6 {
        5
    } else if streak_days <= 13 {
        15
    } else if streak_days <= 29 {
        30
    } else {
        50
    }
}

/// The daily bonus for a streak of consecutive active days.
pub fn streak_bonus(streak_days: u32) -> (bonus: u32)
    ensures
        bonus == streak_bonus_of(streak_days as nat),
{
    if streak_days <= 1 {
        0
    } else if streak_days <= 6 {
        5
    } else if streak_days <= 13 {
        15
    } else if streak_days <= 29 {
        30
    } else {
        50
    }
}

/// The experience that minutes of coding earn: one point a minute, without
/// any dampening.
pub fn coding_minute_exp(minutes: u32) -> (exp: u64)
    ensures
        exp == minutes,
{
    let rate: u64 = EXP_PER_CODING_MINUTE as u64;
    assert(rate == 1);
    minutes as u64 * rate
}

/// The experience that finished focused-work sessions earn: thirty points a
/// session.
pub fn pomodoro_exp(sessions: u32) -> (exp: u64)
    ensures
        exp == sessions * 30,
{
    let rate: u64 = EXP_PER_POMODORO as u64;
    assert(rate == 30);
    sessions as u64 * rate
}

/// One day's experience by source.
#[derive(Debug, Clone, Copy, PartialEq, Eq, Structural)]
pub struct ExpBreakdown {
    pub coding: u64,
    pub commits: u64,
    pub pomodoro: u64,
    pub streak: u64,
    pub total: u64,
}

/// One day's experience: each of the four sources on its own, and their sum.
pub fn exp_breakdown(coding_minutes: u32, commits: u32, sessions: u32, streak_days: u32) -> (day:
    ExpBreakdown)
    ensures
        day.coding == coding_minutes,
        day.commits == commit_exp_of(commits as nat),
        day.pomodoro == sessions * 30,
        day.streak == streak_bonus_of(streak_days as nat),
        day.total == day.coding + day.commits + day.pomodoro + day.streak,
{
    let coding: u64 = coding_minute_exp(coding_minutes);
    let from_commits: u64 = commit_exp(commits);
    let pomodoro: u64 = pomodoro_exp(sessions);
    let streak: u64 = streak_bonus(streak_days) as u64;
    ExpBreakdown {
        coding,
        commits: from_commits,
        pomodoro,
        streak,
        total: coding + from_commits + pomodoro + streak,
    }
}

/// Where `exp` points on top of `level` come to rest: as long as the points
/// cover what the level asks for, that amount is taken off and the level goes
/// up by one. The result is the level reached and the points left over.
pub open spec fn settle(level: nat, exp: nat) -> (nat, nat)
    decreases exp,
{
    if 0 < exp_required(level) <= exp {
        settle(level + 1, (exp - exp_required(level)) as nat)
    } else {
        (level, exp)
    }
}

/// Settling never lowers the level.
pub proof fn lemma_settle_keeps_level(level: nat, exp: nat)
    ensures
        settle(level, exp).0 >= level,
    decreases exp,
{
    if 0 < exp_required(level) <= exp {
        lemma_settle_keeps_level(level + 1, (exp - exp_required(level)) as nat);
    }
}

/// From level one on, what settling leaves over is less than what the level
/// reached asks for.
pub proof fn lemma_settle_is_settled(level: nat, exp: nat)
    requires
        level >= 1,
    ensures
        settle(level, exp).1 < exp_required(settle(level, exp).0),
    decreases exp,
{
    lemma_exp_required_at_least(level);
    if exp_required(level) <= exp {
        lemma_settle_is_settled(level + 1, (exp - exp_required(level)) as nat);
    }
}

/// What the levels from `from` up to, not including, `to` ask for together.
pub open spec fn exp_between(from: nat, to: nat) -> nat
    decreases to,
{
    if to <= from {
        0
    } else {
        exp_between(from, (to - 1) as nat) + exp_required((to - 1) as nat)
    }
}

proof fn lemma_exp_between_from_next(from: nat, to: nat)
    requires
        from < to,
    ensures
        exp_between(from, to) == exp_required(from) + exp_between(from + 1, to),
    decreases to,
{
    if from + 1 < to {
        lemma_exp_between_from_next(from, (to - 1) as nat);
    } else {
        assert(exp_between(from, from) == 0);
        assert(exp_between(from + 1, to) == 0);
    }
}

/// Settling neither loses nor makes points: what the levels passed asked
/// for, and what is left over, add up to the points that were there.
pub proof fn lemma_settle_conserves_exp(level: nat, exp: nat)
    ensures
        exp_between(level, settle(level, exp).0) + settle(level, exp).1 == exp,
    decreases exp,
{
    if 0 < exp_required(level) <= exp {
        let rest = (exp - exp_required(level)) as nat;
        lemma_settle_conserves_exp(level + 1, rest);
        lemma_settle_keeps_level(level + 1, rest);
        lemma_exp_between_from_next(level, settle(level, exp).0);
    }
}

/// Cumulative level and experience, the counters of the running day, and the
/// streak.
#[derive(Debug, Clone, Copy, PartialEq, Eq, Structural)]
pub struct ProgressionTotals {
    pub level: u32,
    /// Experience gathered on the current level.
    pub current_exp: u64,
    /// Experience gathered over all levels.
    pub total_exp: u64,
    pub coding_minutes: u32,
    pub commits: u32,
    pub focused_sessions: u32,
    pub streak_days: u32,
}

impl ProgressionTotals {
    /// The totals have come to rest: the level is at least one, and the
    /// experience on it is less than what the level asks for.
    pub open spec fn settled(&self) -> bool {
        self.level >= 1 && self.current_exp < exp_required(self.level as nat)
    }

    /// Whether `delta` more points can be taken in: the level is at least
    /// one, the sums fit in 64 bits, and the level that the points lead to
    /// fits in 32 bits.
    pub open spec fn can_take(&self, delta: u32) -> bool {
        &&& self.level >= 1
        &&& self.current_exp + delta <= u64::MAX
        &&& self.total_exp + delta <= u64::MAX
        &&& settle(self.level as nat, (self.current_exp + delta) as nat).0 <= u32::MAX
    }

    /// The totals after `delta` more points.
    pub open spec fn with_exp(&self, delta: u32) -> ProgressionTotals {
        let rest = settle(self.level as nat, (self.current_exp + delta) as nat);
        ProgressionTotals {
            level: rest.0 as u32,
            current_exp: rest.1 as u64,
            total_exp: (self.total_exp + delta) as u64,
            ..*self
        }
    }

    /// Fresh totals: level one and nothing gathered.
    pub fn new() -> (totals: ProgressionTotals)
        ensures
            totals.settled(),
            totals == (ProgressionTotals {
                level: 1,
                current_exp: 0,
                total_exp: 0,
                coding_minutes: 0,
                commits: 0,
                focused_sessions: 0,
                streak_days: 0,
            }),
    {
        proof {
            lemma_exp_required_at_least(1);
        }
        ProgressionTotals {
            level: 1,
            current_exp: 0,
            total_exp: 0,
            coding_minutes: 0,
            commits: 0,
            focused_sessions: 0,
            streak_days: 0,
        }
    }

    /// Whether the totals have come to rest.
    pub fn is_settled(&self) -> (b: bool)
        ensures
            b == self.settled(),
    {
        self.level >= 1 && self.current_exp < exp_for_level(self.level)
    }

    /// The totals as the presentation layer shows them, where all of it fits
    /// in 32 bits.
    pub fn level_info(&self) -> (info: Option<LevelInfo>)
        ensures
            info == if self.current_exp <= u32::MAX && self.total_exp <= u32::MAX && exp_required(
                self.level as nat,
            ) <= u32::MAX {
                Some(
                    LevelInfo {
                        level: self.level,
                        current_exp: self.current_exp as u32,
                        exp_to_next: exp_required(self.level as nat) as u32,
                        total_exp: self.total_exp as u32,
                    },
                )
            } else {
                None
            },
    {
        let needed: u64 = exp_for_level(self.level);
        if self.current_exp <= 0xFFFF_FFFF && self.total_exp <= 0xFFFF_FFFF && needed
            <= 0xFFFF_FFFF {
            Some(
                LevelInfo {
                    level: self.level,
                    current_exp: self.current_exp as u32,
                    exp_to_next: needed as u32,
                    total_exp: self.total_exp as u32,
                },
            )
        } else {
            None
        }
    }
}

/// Adds `delta` points to the totals and lets them settle, through as many
/// levels as the points cover. Returns the number of levels gained, and
/// leaves the experience on the level reached below what that level asks
/// for. Totals without a level, and points whose result cannot be held,
/// change nothing and give `None`.
pub fn apply_exp(totals: &mut ProgressionTotals, delta: u32) -> (gained: Option<u32>)
    ensures
        old(totals).can_take(delta) ==> *final(totals) == old(totals).with_exp(delta) && gained
            == Some((final(totals).level - old(totals).level) as u32),
        !old(totals).can_take(delta) ==> *final(totals) == *old(totals) && gained is None,
        old(totals).can_take(delta) ==> final(totals).settled(),
        final(totals).level >= old(totals).level,
{
    if totals.level == 0 || totals.current_exp > u64::MAX - delta as u64 || totals.total_exp
        > u64::MAX - delta as u64 {
        return None;
    }
    let first: u32 = totals.level;
    let mut level: u32 = totals.level;
    let mut exp: u64 = totals.current_exp + delta as u64;
    let ghost sum = exp as nat;
    loop
        invariant
            1 <= first <= level,
            first == old(totals).level,
            *totals == *old(totals),
            sum == old(totals).current_exp + delta,
            old(totals).total_exp + delta <= u64::MAX,
            settle(level as nat, exp as nat) == settle(first as nat, sum),
        ensures
            settle(level as nat, exp as nat) == (level as nat, exp as nat),
        decreases exp,
    {
        let needed: u64 = exp_for_level(level);
        proof {
            lemma_exp_required_at_least(level as nat);
        }
        if exp < needed {
            break;
        }
        if level == u32::MAX {
            proof {
                lemma_settle_keeps_level(level as nat + 1, (exp - needed) as nat);
            }
            return None;
        }
        exp = exp - needed;
        level = level + 1;
    }
    proof {
        lemma_settle_is_settled(first as nat, sum);
    }
    totals.level = level;
    totals.current_exp = exp;
    totals.total_exp = totals.total_exp + delta as u64;
    Some(level - first)
}

/// Totals that took points in have come to rest.
pub proof fn lemma_with_exp_is_settled(totals: ProgressionTotals, delta: u32)
    requires
        totals.can_take(delta),
    ensures
        totals.with_exp(delta).settled(),
{
    let sum = (totals.current_exp + delta) as nat;
    lemma_settle_is_settled(totals.level as nat, sum);
    lemma_settle_keeps_level(totals.level as nat, sum);
    lemma_settle_conserves_exp(totals.level as nat, sum);
}

/// Adding no points to settled totals changes nothing, however often it is
/// done.
pub proof fn lemma_zero_delta_changes_nothing(totals: ProgressionTotals)
    requires
        totals.settled(),
    ensures
        totals.can_take(0),
        totals.with_exp(0) == totals,
        totals.with_exp(0).with_exp(0) == totals,
{
}

/// Points that cover the current level and the next, and not the one after,
/// raise the level by exactly two and leave less than the level reached asks
/// for.
pub proof fn lemma_two_thresholds_give_two_levels(level: nat, exp: nat)
    requires
        level >= 1,
        exp_required(level) + exp_required(level + 1) <= exp,
        exp < exp_required(level) + exp_required(level + 1) + exp_required(level + 2),
    ensures
        settle(level, exp) == (
            level + 2,
            (exp - exp_required(level) - exp_required(level + 1)) as nat,
        ),
        settle(level, exp).1 < exp_required(level + 2),
{
    lemma_exp_required_at_least(level);
    lemma_exp_required_at_least(level + 1);
    let after_one = (exp - exp_required(level)) as nat;
    let after_two = (after_one - exp_required(level + 1)) as nat;
    assert(settle(level, exp) == settle(level + 1, after_one));
    assert(settle(level + 1, after_one) == settle(level + 2, after_two));
    assert(settle(level + 2, after_two) == (level + 2, after_two));
}

/// Settling what has settled changes nothing.
pub proof fn lemma_settle_is_idempotent(level: nat, exp: nat)
    ensures
        settle(settle(level, exp).0, settle(level, exp).1) == settle(level, exp),
    decreases exp,
{
    if 0 < exp_required(level) <= exp {
        lemma_settle_is_idempotent(level + 1, (exp - exp_required(level)) as nat);
    }
}

/// What one recorded activity brought in.
#[derive(Debug, Clone, Copy, PartialEq, Eq, Structural)]
pub struct ExpGain {
    /// Points gained.
    pub exp: u32,
    /// Levels gained.
    pub levels: u32,
}

/// What one more commit earns on a day that already has `commits` of them.
pub open spec fn next_commit_exp(commits: nat) -> nat {
    (commit_exp_of(commits + 1) - commit_exp_of(commits)) as nat
}

/// One more commit earns twenty points while the day has fewer than twenty
/// commits, and four points from then on.
pub proof fn lemma_next_commit_exp(commits: nat)
    ensures
        next_commit_exp(commits) == if commits < 20 {
            20nat
        } else {
            4nat
        },
{
}

impl ProgressionTotals {
    /// The totals after one more commit today.
    pub open spec fn with_commit(&self) -> ProgressionTotals {
        (ProgressionTotals { commits: (self.commits + 1) as u32, ..*self }).with_exp(
            next_commit_exp(self.commits as nat) as u32,
        )
    }

    /// Whether one more commit can be taken in.
    pub open spec fn can_take_commit(&self) -> bool {
        self.commits < u32::MAX && self.can_take(next_commit_exp(self.commits as nat) as u32)
    }

    /// The totals after `minutes` more minutes of coding today.
    pub open spec fn with_coding(&self, minutes: u32) -> ProgressionTotals {
        (ProgressionTotals {
            coding_minutes: (self.coding_minutes + minutes) as u32,
            ..*self
        }).with_exp(minutes)
    }

    /// Whether `minutes` more minutes of coding can be taken in.
    pub open spec fn can_take_coding(&self, minutes: u32) -> bool {
        self.coding_minutes + minutes <= u32::MAX && self.can_take(minutes)
    }

    /// The totals after one more focused-work session today.
    pub open spec fn with_session(&self) -> ProgressionTotals {
        (ProgressionTotals {
            focused_sessions: (self.focused_sessions + 1) as u32,
            ..*self
        }).with_exp(30)
    }

    /// Whether one more focused-work session can be taken in.
    pub open spec fn can_take_session(&self) -> bool {
        self.focused_sessions < u32::MAX && self.can_take(30)
    }
}

/// Counts one commit for the running day and adds what it earns: the full
/// rate below the daily cap, the dampened rate from the cap on. Where the
/// result cannot be held, nothing changes and `None` comes back.
pub fn record_commit(totals: &mut ProgressionTotals) -> (gain: Option<ExpGain>)
    ensures
        old(totals).can_take_commit() ==> *final(totals) == old(totals).with_commit() && gain
            == Some(
            ExpGain {
                exp: next_commit_exp(old(totals).commits as nat) as u32,
                levels: (final(totals).level - old(totals).level) as u32,
            },
        ),
        !old(totals).can_take_commit() ==> *final(totals) == *old(totals) && gain is None,
        old(totals).can_take_commit() ==> final(totals).settled(),
        final(totals).level >= old(totals).level,
{
    if totals.commits == u32::MAX {
        return None;
    }
    let exp: u32 = (commit_exp(totals.commits + 1) - commit_exp(totals.commits)) as u32;
    match apply_exp(totals, exp) {
        Some(levels) => {
            totals.commits = totals.commits + 1;
            Some(ExpGain { exp, levels })
        },
        None => None,
    }
}

/// Counts `minutes` of coding for the running day and adds what they earn.
/// Where the result cannot be held, nothing changes and `None` comes back.
pub fn record_coding_minutes(totals: &mut ProgressionTotals, minutes: u32) -> (gain: Option<
    ExpGain,
>)
    ensures
        old(totals).can_take_coding(minutes) ==> *final(totals) == old(totals).with_coding(minutes)
            && gain == Some(
            ExpGain { exp: minutes, levels: (final(totals).level - old(totals).level) as u32 },
        ),
        !old(totals).can_take_coding(minutes) ==> *final(totals) == *old(totals) && gain is None,
        old(totals).can_take_coding(minutes) ==> final(totals).settled(),
        final(totals).level >= old(totals).level,
{
    if totals.coding_minutes > u32::MAX - minutes {
        return None;
    }
    match apply_exp(totals, minutes) {
        Some(levels) => {
            totals.coding_minutes = totals.coding_minutes + minutes;
            Some(ExpGain { exp: minutes, levels })
        },
        None => None,
    }
}

/// Counts one finished focused-work session for the running day and adds
/// what it earns. Where the result cannot be held, nothing changes and `None`
/// comes back.
pub fn record_focused_session(totals: &mut ProgressionTotals) -> (gain: Option<ExpGain>)
    ensures
        old(totals).can_take_session() ==> *final(totals) == old(totals).with_session() && gain
            == Some(
            ExpGain { exp: 30, levels: (final(totals).level - old(totals).level) as u32 },
        ),
        !old(totals).can_take_session() ==> *final(totals) == *old(totals) && gain is None,
        old(totals).can_take_session() ==> final(totals).settled(),
        final(totals).level >= old(totals).level,
{
    if totals.focused_sessions == u32::MAX {
        return None;
    }
    match apply_exp(totals, EXP_PER_POMODORO) {
        Some(levels) => {
            totals.focused_sessions = totals.focused_sessions + 1;
            Some(ExpGain { exp: EXP_PER_POMODORO, levels })
        },
        None => None,
    }
}

} // verus!
