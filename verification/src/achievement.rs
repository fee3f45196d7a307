//! Achievement tiers whose combat buff a player has earned.
use vstd::prelude::*;
use crate::text::same_text;

verus! {

/// An achievement tier of the game data; `B` is the kind of buff it grants.
pub struct AchievementTier<B> {
    pub hrid: String,
    /// Whether the tier's buff applies in combat.
    pub usable_in_combat: bool,
    /// The tier's buff; `None` where the data names no usable buff.
    pub buff: Option<B>,
}

/// An achievement of the game data, as read from it.
pub struct AchievementInfo {
    pub hrid: Option<String>,
    pub tier_hrid: Option<String>,
}

/// The achievement is one of the tier's: it has an hrid and names the tier.
pub open spec fn in_tier(a: AchievementInfo, tier_hrid: Seq<char>) -> bool {
    &&& a.hrid is Some
    &&& a.tier_hrid matches Some(t) && t@ == tier_hrid
}

/// `hrid` is among the completed achievements.
pub open spec fn is_completed(completed: Seq<String>, hrid: Seq<char>) -> bool {
    exists|j: int| 0 <= j < completed.len() && (#[trigger] completed[j])@ == hrid
}

/// A tier's buff is earned when it applies in combat, the tier has at least one
/// achievement, and every achievement of the tier is completed.
pub open spec fn tier_earned<B>(
    tier: AchievementTier<B>,
    achievements: Seq<AchievementInfo>,
    completed: Seq<String>,
) -> bool {
    &&& tier.usable_in_combat
    &&& exists|i: int| 0 <= i < achievements.len() && in_tier(#[trigger] achievements[i], tier.hrid@)
    &&& forall|i: int|
        0 <= i < achievements.len() && in_tier(#[trigger] achievements[i], tier.hrid@) ==> is_completed(
            completed,
            achievements[i].hrid->Some_0@,
        )
}

/// The buffs of the earned tiers among `tiers`, in order.
pub open spec fn earned_buffs<B>(
    tiers: Seq<AchievementTier<B>>,
    achievements: Seq<AchievementInfo>,
    completed: Seq<String>,
) -> Seq<B>
    decreases tiers.len(),
{
    if tiers.len() == 0 {
        Seq::empty()
    } else {
        let rest = earned_buffs(tiers.drop_last(), achievements, completed);
        let t = tiers.last();
        if tier_earned(t, achievements, completed) && t.buff is Some {
            rest.push(t.buff->Some_0)
        } else {
            rest
        }
    }
}

/// A tier with an achievement that is not completed grants nothing: adding it
/// to the tiers leaves the earned buffs as they were, whatever its other
/// achievements are.
pub proof fn lemma_incomplete_tier_adds_nothing<B>(
    tiers: Seq<AchievementTier<B>>,
    tier: AchievementTier<B>,
    achievements: Seq<AchievementInfo>,
    completed: Seq<String>,
    i: int,
)
    requires
        0 <= i < achievements.len(),
        achievements[i].hrid is Some,
        achievements[i].tier_hrid matches Some(t) && t@ == tier.hrid@,
        forall|j: int| 0 <= j < completed.len() ==> (#[trigger] completed[j])@ != achievements[i].hrid->Some_0@,
    ensures
        earned_buffs(tiers.push(tier), achievements, completed) == earned_buffs(tiers, achievements, completed),
{
    assert(tiers.push(tier).drop_last() =~= tiers);
    assert(in_tier(achievements[i], tier.hrid@));
    assert(!is_completed(completed, achievements[i].hrid->Some_0@));
}

/// A tier that applies in combat, has a buff and at least one achievement, all
/// of them completed, grants its buff after those of the tiers before it.
pub proof fn lemma_complete_tier_adds_its_buff<B>(
    tiers: Seq<AchievementTier<B>>,
    tier: AchievementTier<B>,
    achievements: Seq<AchievementInfo>,
    completed: Seq<String>,
    i: int,
)
    requires
        tier.usable_in_combat,
        tier.buff is Some,
        0 <= i < achievements.len(),
        achievements[i].hrid is Some,
        achievements[i].tier_hrid matches Some(t) && t@ == tier.hrid@,
        forall|k: int|
            0 <= k < achievements.len() && (#[trigger] achievements[k]).hrid is Some && (
            achievements[k].tier_hrid matches Some(t) && t@ == tier.hrid@) ==> exists|j: int|
                0 <= j < completed.len() && (#[trigger] completed[j])@ == achievements[k].hrid->Some_0@,
    ensures
        earned_buffs(tiers.push(tier), achievements, completed) == earned_buffs(tiers, achievements, completed).push(
            tier.buff->Some_0,
        ),
{
    assert(tiers.push(tier).drop_last() =~= tiers);
    assert(tiers.push(tier).last() == tier);
    assert(in_tier(achievements[i], tier.hrid@));
    assert forall|k: int|
        0 <= k < achievements.len() && in_tier(#[trigger] achievements[k], tier.hrid@) implies is_completed(
        completed,
        achievements[k].hrid->Some_0@,
    ) by {
        assert(achievements[k].hrid is Some);
    }
}

pub struct Achievement;

impl Achievement {
    fn completed_contains(completed: &Vec<String>, hrid: &str) -> (r: bool)
        ensures
            r == is_completed(completed@, hrid@),
    {
        let mut j: usize = 0;
        while j < completed.len()
            invariant
                j <= completed@.len(),
                forall|k: int| 0 <= k < j ==> (#[trigger] completed@[k])@ != hrid@,
            decreases completed@.len() - j,
        {
            if same_text(completed[j].as_str(), hrid) {
                return true;
            }
            j += 1;
        }
        false
    }

    fn belongs(a: &AchievementInfo, tier_hrid: &str) -> (r: bool)
        ensures
            r == in_tier(*a, tier_hrid@),
    {
        match (&a.hrid, &a.tier_hrid) {
            (Some(_), Some(t)) => same_text(t.as_str(), tier_hrid),
            _ => false,
        }
    }

    fn is_earned<B>(tier: &AchievementTier<B>, achievements: &Vec<AchievementInfo>, completed: &Vec<String>) -> (r:
        bool)
        ensures
            r == tier_earned(*tier, achievements@, completed@),
    {
        if !tier.usable_in_combat {
            return false;
        }
        let mut any = false;
        let mut i: usize = 0;
        while i < achievements.len()
            invariant
                i <= achievements@.len(),
                any == exists|k: int| 0 <= k < i && in_tier(#[trigger] achievements@[k], tier.hrid@),
                forall|k: int|
                    0 <= k < i && in_tier(#[trigger] achievements@[k], tier.hrid@) ==> is_completed(
                        completed@,
                        achievements@[k].hrid->Some_0@,
                    ),
            decreases achievements@.len() - i,
        {
            let a = &achievements[i];
            if Self::belongs(a, tier.hrid.as_str()) {
                any = true;
                match &a.hrid {
                    Some(h) => {
                        if !Self::completed_contains(completed, h.as_str()) {
                            return false;
                        }
                    },
                    None => {},
                }
            }
            i += 1;
        }
        any
    }

    /// The buffs, in the order of the tiers, of the tiers whose combat buff the
    /// player has earned, given the hrids of the achievements the player has completed.
    pub fn get_buffs<B>(
        tiers: Vec<AchievementTier<B>>,
        achievements: &Vec<AchievementInfo>,
        completed: &Vec<String>,
    ) -> (r: Vec<B>)
        ensures
            r@ == earned_buffs(tiers@, achievements@, completed@),
    {
        let ghost orig = tiers@;
        let mut tiers = tiers;
        let mut r: Vec<B> = Vec::new();
        let ghost mut k: int = 0;
        while tiers.len() > 0
            invariant
                0 <= k <= orig.len(),
                tiers@ == orig.skip(k),
                r@ == earned_buffs(orig.take(k), achievements@, completed@),
            decreases tiers@.len(),
        {
            let tier = tiers.remove(0);
            assert(tier == orig[k]);
            let earned = Self::is_earned(&tier, achievements, completed);
            if earned {
                match tier.buff {
                    Some(b) => {
                        r.push(b);
                    },
                    None => {},
                }
            }
            proof {
                assert(orig.take(k + 1).drop_last() =~= orig.take(k));
                assert(orig.take(k + 1).last() == orig[k]);
                assert(tiers@ =~= orig.skip(k + 1));
                k = k + 1;
            }
        }
        proof {
            assert(orig.take(k) =~= orig);
        }
        r
    }
}

} // verus!
