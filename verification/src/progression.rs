use vstd::prelude::*;
use vstd::string::*;

use crate::text::{decimal_spec, push_decimal};
use crate::world::GhostClicked;

verus! {

/// Skill points at the start of a game.
pub const INITIAL_SKILL_POINTS: u32 = 1;

/// Experience needed for the first level.
pub const INITIAL_XP_MAX: u32 = 10;

/// How much the experience needed grows with each level.
pub const XP_MAX_INCREMENT: u32 = 10;

/// The player's experience towards the next level.
pub struct XpValue(pub u32);

/// The experience that the next level needs.
pub struct XpMax(pub u32);

/// Points that place tiles.
pub struct SkillPoints(pub u32);

/// The player reached a new level.
#[derive(Debug, Clone, Copy, PartialEq, Eq, Structural)]
pub struct LevelUp;

/// A request to turn the ghost with this entity id into a tile.
#[derive(Debug, Clone, Copy, PartialEq, Eq, Structural)]
pub struct PlaceTile(pub u64);

impl Default for XpValue {
    fn default() -> (value: XpValue)
        ensures
            value.0 == 0,
    {
        XpValue(0)
    }
}

impl Default for XpMax {
    fn default() -> (value: XpMax)
        ensures
            value.0 == INITIAL_XP_MAX,
    {
        XpMax(INITIAL_XP_MAX)
    }
}

impl Default for SkillPoints {
    fn default() -> (value: SkillPoints)
        ensures
            value.0 == INITIAL_SKILL_POINTS,
    {
        SkillPoints(INITIAL_SKILL_POINTS)
    }
}

/// Progression as plain numbers: experience, experience needed, skill points.
pub type Progress = (int, int, int);

/// One level-up check: with the experience at or above its maximum, the maximum is spent, one
/// skill point is granted and the maximum grows by the increment; otherwise nothing changes.
pub open spec fn level_up(p: Progress) -> (Progress, bool) {
    let (xp, max, points) = p;
    if xp < max {
        (p, false)
    } else {
        ((xp - max, max + XP_MAX_INCREMENT, points + 1), true)
    }
}

/// Progression after `earned` tile clicks of one update: no change without clicks, otherwise the
/// experience grows by `earned` and one level-up check follows.
pub open spec fn earn(p: Progress, earned: int) -> (Progress, bool) {
    if earned == 0 {
        (p, false)
    } else {
        level_up((p.0 + earned, p.1, p.2))
    }
}

/// The numbers stay inside `u32` through one level-up check.
pub open spec fn level_up_fits(xp: int, max: int, points: int) -> bool {
    xp >= max ==> points + 1 <= u32::MAX && max + XP_MAX_INCREMENT <= u32::MAX
}

/// Applies one level-up check; reports whether a level was gained.
pub fn apply_level_up(xp_value: &mut u32, xp_max: &mut u32, skill_points: &mut u32) -> (leveled: bool)
    requires
        level_up_fits(*old(xp_value) as int, *old(xp_max) as int, *old(skill_points) as int),
    ensures
        level_up((*old(xp_value) as int, *old(xp_max) as int, *old(skill_points) as int)) == (
        (*final(xp_value) as int, *final(xp_max) as int, *final(skill_points) as int),
        leveled,
        ),
{
    if *xp_value < *xp_max {
        return false;
    }
    *xp_value -= *xp_max;
    *skill_points += 1;
    *xp_max += XP_MAX_INCREMENT;
    true
}

/// Awards one experience point per clicked tile of an update and applies the level-up check;
/// returns the level-up it causes.
pub fn earn_xp(earned: u32, xp_value: &mut XpValue, xp_max: &mut XpMax, skill_points: &mut SkillPoints) -> (level: Option<LevelUp>)
    requires
        old(xp_value).0 + earned <= u32::MAX,
        level_up_fits(
            old(xp_value).0 + earned,
            old(xp_max).0 as int,
            old(skill_points).0 as int,
        ),
    ensures
        earn((old(xp_value).0 as int, old(xp_max).0 as int, old(skill_points).0 as int), earned as int) == (
        (final(xp_value).0 as int, final(xp_max).0 as int, final(skill_points).0 as int),
        level is Some,
        ),
{
    if earned == 0 {
        return None;
    }
    xp_value.0 += earned;
    if apply_level_up(&mut xp_value.0, &mut xp_max.0, &mut skill_points.0) {
        Some(LevelUp)
    } else {
        None
    }
}

pub open spec fn min(a: int, b: int) -> int {
    if a <= b {
        a
    } else {
        b
    }
}

/// Spends skill points on ghost clicks: each click, while a point is left, costs one point and
/// requests a placement on the clicked ghost.
pub fn spend_skill_point(clicks: &Vec<GhostClicked>, skill_points: &mut SkillPoints) -> (placements: Vec<PlaceTile>)
    ensures
        placements@.len() == min(clicks@.len() as int, old(skill_points).0 as int),
        forall|i: int| 0 <= i < placements@.len() ==> #[trigger] placements@[i] == PlaceTile(clicks@[i].entity),
        final(skill_points).0 == old(skill_points).0 - placements@.len(),
{
    let mut placements: Vec<PlaceTile> = Vec::new();
    let ghost start = skill_points.0;
    let mut k: usize = 0;
    while k < clicks.len()
        invariant
            k <= clicks@.len(),
            placements@.len() == min(k as int, start as int),
            skill_points.0 == start - placements@.len(),
            forall|i: int| 0 <= i < placements@.len() ==> #[trigger] placements@[i] == PlaceTile(clicks@[i].entity),
        decreases clicks@.len() - k,
    {
        if skill_points.0 != 0 {
            skill_points.0 -= 1;
            placements.push(PlaceTile(clicks[k].entity));
        }
        k = k + 1;
    }
    placements
}

/// Whether the skill-point notification shows: whenever a point is left.
pub fn skill_points_notification_visible(skill_points: &SkillPoints) -> (visible: bool)
    ensures
        visible == (skill_points.0 > 0),
{
    skill_points.0 > 0
}

/// The experience of the skill tree's player.
pub struct LevelXP(pub u32);

/// The experience that the skill tree's next level needs.
pub struct NextLevelXP(pub u32);

/// The skill tree's points; one is added on each level up.
pub struct SkillTreePoints(pub u32);

/// The skill tree's level-up check for one player: with the experience at or above the next
/// level's, that experience is spent, one point is granted and the next level needs ten more.
pub fn handle_level_up_player(skill: &mut SkillTreePoints, level: &mut LevelXP, next_level: &mut NextLevelXP)
    requires
        level_up_fits(old(level).0 as int, old(next_level).0 as int, old(skill).0 as int),
    ensures
        level_up((old(level).0 as int, old(next_level).0 as int, old(skill).0 as int)).0 == (
        final(level).0 as int,
        final(next_level).0 as int,
        final(skill).0 as int,
        ),
{
    if level.0 >= next_level.0 {
        level.0 = level.0 - next_level.0;
        skill.0 = skill.0 + 1;
        next_level.0 = next_level.0 + 10;
    }
}

/// Whether the skill tree's alert for unspent points shows.
pub fn skill_tree_points_alert_visible(points: &SkillTreePoints) -> (visible: bool)
    ensures
        visible == (points.0 != 0),
{
    points.0 != 0
}

/// The visibility that the unspent-points alerts take: when exactly one player holds skill-tree
/// points, shown exactly when that player has some; with no player or several, `None` (the alerts
/// keep their visibility).
pub fn update_skill_tree_points_ui(holders: &Vec<SkillTreePoints>) -> (visible: Option<bool>)
    ensures
        visible == (if holders@.len() == 1 { Some(holders@[0].0 != 0) } else { None }),
{
    if holders.len() != 1 {
        return None;
    }
    Some(skill_tree_points_alert_visible(&holders[0]))
}

/// The description of the skill tree's unspent points.
pub open spec fn skill_points_text(points: nat) -> Seq<char> {
    "You have "@ + decimal_spec(points) + " skill points available."@
}

/// Writes the description of the skill tree's unspent points.
pub fn skill_tree_description(points: &SkillTreePoints) -> (text: String)
    ensures
        text@ == skill_points_text(points.0 as nat),
{
    let mut text = String::from_str("You have ");
    push_decimal(&mut text, points.0 as u64);
    text.append(" skill points available.");
    text
}

/// The value of a fill bar.
pub struct FillBarValue(pub u32);

/// The value at which a fill bar is full.
pub struct FillBarMaxValue(pub u32);

/// The fill bar of this entity reached its maximum.
#[derive(Debug, Clone, Copy, PartialEq, Eq, Structural)]
pub struct FillBarValueReachedMax(pub u64);

/// One fill bar: its entity, value and maximum.
#[derive(Debug, Clone, Copy, PartialEq, Eq, Structural)]
pub struct FillBar {
    pub entity: u64,
    pub value: u32,
    pub max_value: u32,
}

/// The fill bars at or above their maximum, in order.
pub open spec fn full_bars(bars: Seq<FillBar>) -> Seq<FillBarValueReachedMax>
    decreases bars.len(),
{
    if bars.len() == 0 {
        Seq::empty()
    } else if bars.last().value >= bars.last().max_value {
        full_bars(bars.drop_last()).push(FillBarValueReachedMax(bars.last().entity))
    } else {
        full_bars(bars.drop_last())
    }
}

/// Reports every fill bar whose value reached its maximum.
pub fn handle_fill_bar_value_reached_max(bars: &Vec<FillBar>) -> (reached: Vec<FillBarValueReachedMax>)
    ensures
        reached@ == full_bars(bars@),
{
    let mut reached: Vec<FillBarValueReachedMax> = Vec::new();
    let mut k: usize = 0;
    while k < bars.len()
        invariant
            k <= bars@.len(),
            reached@ == full_bars(bars@.take(k as int)),
        decreases bars@.len() - k,
    {
        assert(bars@.take(k + 1).drop_last() =~= bars@.take(k as int));
        if bars[k].value >= bars[k].max_value {
            reached.push(FillBarValueReachedMax(bars[k].entity));
        }
        k = k + 1;
    }
    assert(bars@.take(k as int) =~= bars@);
    reached
}

/// The progression as the timeline last recorded it.
pub struct ProgressionRecorder {
    pub previous: Option<(u32, u32, u32)>,
}

impl ProgressionRecorder {
    pub fn new() -> (recorder: ProgressionRecorder)
        ensures
            recorder.previous is None,
    {
        ProgressionRecorder { previous: None }
    }

    /// Whether the timeline records the current progression: only when it differs from the one
    /// recorded last, which it then becomes.
    pub fn observe(&mut self, current: (u32, u32, u32)) -> (record: bool)
        ensures
            record == (old(self).previous != Some(current)),
            final(self).previous == Some(current),
    {
        let record = match self.previous {
            Some(previous) => !(previous.0 == current.0 && previous.1 == current.1 && previous.2
                == current.2),
            None => true,
        };
        self.previous = Some(current);
        record
    }
}

/// Experience stays below its maximum after an update whose clicks bring it under twice the
/// maximum plus the increment.
pub proof fn lemma_earn_keeps_xp_below_max(p: Progress, earned: int)
    requires
        0 <= p.0 < p.1,
        earned >= 0,
        p.0 + earned < 2 * p.1 + XP_MAX_INCREMENT,
    ensures
        earn(p, earned).0.0 < earn(p, earned).0.1,
{
}

/// A level-up check loses no experience: what remains plus what was spent is what there was,
/// and the skill points grow by exactly the levels gained.
pub proof fn lemma_level_up_conserves(p: Progress)
    ensures
        ({
            let (q, leveled) = level_up(p);
            &&& q.0 + (if leveled { p.1 } else { 0 }) == p.0
            &&& q.2 == p.2 + (if leveled { 1int } else { 0int })
            &&& q.1 == p.1 + (if leveled { XP_MAX_INCREMENT as int } else { 0int })
            &&& leveled == (p.0 >= p.1)
        }),
{
}

/// The text of the skill-tree description: when exactly one player holds skill-tree points,
/// the description of that player's points; with no player or several, `None` (the text is
/// left as it is).
pub fn update_skill_tree_description_points_ui(holders: &Vec<SkillTreePoints>) -> (text: Option<String>)
    ensures
        holders@.len() == 1 <==> text is Some,
        text matches Some(t) ==> t@ == skill_points_text(holders@[0].0 as nat),
{
    if holders.len() != 1 {
        return None;
    }
    Some(skill_tree_description(&holders[0]))
}

} // verus!
