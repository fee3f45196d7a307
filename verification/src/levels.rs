//! Experience needed per skill level.
use vstd::prelude::*;

verus! {

/// Total experience needed to reach each level: entry `i` is level `i + 1`, up to level 200.
pub const XP_TABLE: [i64; 200] = [
    0, 33, 76, 132, 202, 286, 386, 503, 637, 791,
    964, 1159, 1377, 1620, 1891, 2192, 2525, 2893, 3300, 3750,
    4247, 4795, 5400, 6068, 6805, 7618, 8517, 9508, 10604, 11814,
    13151, 14629, 16262, 18068, 20064, 22271, 24712, 27411, 30396, 33697,
    37346, 41381, 45842, 50773, 56222, 62243, 68895, 76242, 84355, 93311,
    103195, 114100, 126127, 139390, 154009, 170118, 187863, 207403, 228914, 252584,
    278623, 307256, 338731, 373318, 411311, 453030, 498824, 549074, 604193, 664632,
    730881, 803472, 882985, 970050, 1065351, 1169633, 1283701, 1408433, 1544780, 1693774,
    1856536, 2034279, 2228321, 2440088, 2671127, 2923113, 3197861, 3497335, 3823663, 4179145,
    4566274, 4987741, 5446463, 5945587, 6488521, 7078945, 7720834, 8418485, 9176537, 10000000,
    11404976, 12904567, 14514400, 16242080, 18095702, 20083886, 22215808, 24501230, 26950540, 29574787,
    32385721, 35395838, 38618420, 42067584, 45758332, 49706603, 53929328, 58444489, 63271179, 68429670,
    73941479, 79829440, 86117783, 92832214, 100000000, 114406130, 130118394, 147319656, 166147618, 186752428,
    209297771, 233962072, 260939787, 290442814, 322702028, 357968938, 396517495, 438646053, 484679494, 534971538,
    589907252, 649905763, 715423218, 786955977, 865044093, 950275074, 1043287971, 1144777804, 1255500373, 1376277458,
    1508002470, 1651646566, 1808265285, 1979005730, 2165114358, 2367945418, 2588970089, 2829786381, 3092129857, 3377885250,
    3689099031, 4027993033, 4396979184, 4798675471, 5235923207, 5711805728, 6229668624, 6793141628, 7406162301, 8073001662,
    8798291902, 9587056372, 10444742007, 11377254401, 12390995728, 13492905745, 14690506120, 15991948361, 17406065609, 18942428633,
    20611406335, 22424231139, 24393069640, 26531098945, 28852589138, 31372992363, 34109039054, 37078841860, 40302007875, 43799759843,
    47595067021, 51712786465, 56179815564, 61025256696, 66280594953, 71979889960, 78159982881, 84860719814, 92125192822, 100000000000,
];

/// The table entry used for level `n`: levels below 1 count as 1, above 200 as 200.
pub open spec fn level_index(n: int) -> int {
    if n - 1 < 0 {
        0
    } else if n - 1 > 199 {
        199
    } else {
        n - 1
    }
}

/// Total experience needed to reach level `n` (clamped to levels 1 through 200).
pub fn xp_at_level(n: i64) -> (r: i64)
    requires
        n > i64::MIN,
    ensures
        r == XP_TABLE@[level_index(n as int)],
{
    let m = n - 1;
    let idx: usize = if m < 0 {
        0
    } else if m > 199 {
        199
    } else {
        m as usize
    };
    XP_TABLE[idx]
}

/// Experience needed to go from level `base` up by `count` levels.
pub fn xp_for_levels(base: i64, count: i64) -> (r: i64)
    requires
        base > i64::MIN,
        i64::MIN < base + count <= i64::MAX,
    ensures
        r == XP_TABLE@[level_index(base + count)] - XP_TABLE@[level_index(base as int)],
{
    proof {
        lemma_table_bounds();
    }
    xp_at_level(base + count) - xp_at_level(base)
}

/// Every entry of the table lies between 0 and 100,000,000,000.
proof fn lemma_table_bounds()
    ensures
        forall|i: int| 0 <= i < 200 ==> 0 <= #[trigger] XP_TABLE@[i] <= 100_000_000_000,
{
    assert(XP_TABLE@.len() == 200);
}

proof fn lemma_table_steps()
    ensures
        forall|i: int| 0 <= i < 199 ==> #[trigger] XP_TABLE@[i] <= XP_TABLE@[i + 1],
{
    assert(XP_TABLE@.len() == 200);
}

proof fn lemma_table_ordered(i: int, j: int)
    requires
        0 <= i <= j < 200,
    ensures
        XP_TABLE@[i] <= XP_TABLE@[j],
    decreases j - i,
{
    lemma_table_steps();
    if i < j {
        lemma_table_ordered(i, j - 1);
        assert(XP_TABLE@[j - 1] <= XP_TABLE@[j]);
    }
}

/// More levels never need less experience: the experience needed grows with the level.
pub proof fn lemma_xp_grows_with_level(a: int, b: int)
    requires
        a <= b,
    ensures
        XP_TABLE@[level_index(a)] <= XP_TABLE@[level_index(b)],
{
    lemma_table_ordered(level_index(a), level_index(b));
}

} // verus!
