//! Which combat trigger dependencies look at a single unit.
use vstd::prelude::*;
use crate::text::same_text;
use serde_json::Value;

verus! {

/// The (hrid, `isSingleTarget` flag) pairs that serde_json reads from the text
/// of a JSON object of trigger dependencies, in the order of its object map;
/// none for a text that is not such an object.
pub uninterp spec fn json_trigger_dependencies(text: Seq<char>) -> Seq<(Seq<char>, Option<bool>)>;

/// Reads the trigger dependencies with `serde_json::from_str`: one per member
/// of the top-level object, in the order in which serde_json's map yields them,
/// with the member's `isSingleTarget` where it is a boolean; none where the text
/// does not parse to an object. The contract only names that result.
#[verifier::external_body]
fn parse_trigger_dependencies(text: &str) -> (r: Vec<TriggerDependency>)
    ensures
        r@.map_values(|d: TriggerDependency| (d.hrid@, d.is_single_target)) == json_trigger_dependencies(text@),
{
    match serde_json::from_str::<Value>(text) {
        Ok(Value::Object(m)) => m.iter().map(|(hrid, detail)| TriggerDependency {
            hrid: hrid.clone(),
            is_single_target: detail["isSingleTarget"].as_bool(),
        }).collect(),
        _ => Vec::new(),
    }
}

/// One combat trigger dependency of the game data, as read from it.
pub struct TriggerDependency {
    pub hrid: String,
    /// The `isSingleTarget` flag, where the data gives one.
    pub is_single_target: Option<bool>,
}

/// For each trigger dependency hrid, whether it looks at a single unit.
pub struct TriggerDependencyMap {
    entries: Vec<(String, bool)>,
}

/// The flag of a dependency, `false` where the data gives none.
pub open spec fn single_target_flag(d: TriggerDependency) -> bool {
    match d.is_single_target {
        Some(b) => b,
        None => false,
    }
}

/// The flag of the first entry, from `from` on, for `hrid`.
pub open spec fn flag_from(entries: Seq<(String, bool)>, hrid: Seq<char>, from: int) -> Option<bool>
    decreases entries.len() - from,
{
    if from < 0 || from >= entries.len() {
        None
    } else if entries[from].0@ == hrid {
        Some(entries[from].1)
    } else {
        flag_from(entries, hrid, from + 1)
    }
}

impl View for TriggerDependencyMap {
    type V = Seq<(Seq<char>, bool)>;

    closed spec fn view(&self) -> Seq<(Seq<char>, bool)> {
        self.entries@.map_values(|e: (String, bool)| (e.0@, e.1))
    }
}

impl TriggerDependencyMap {
    /// The flag recorded for `hrid`, where the map has it.
    pub closed spec fn flag(&self, hrid: Seq<char>) -> Option<bool> {
        flag_from(self.entries@, hrid, 0)
    }

    pub fn get(&self, hrid: &str) -> (r: Option<bool>)
        ensures
            r == self.flag(hrid@),
    {
        let mut i: usize = 0;
        while i < self.entries.len()
            invariant
                i <= self.entries@.len(),
                flag_from(self.entries@, hrid@, 0) == flag_from(self.entries@, hrid@, i as int),
            decreases self.entries@.len() - i,
        {
            if same_text(self.entries[i].0.as_str(), hrid) {
                return Some(self.entries[i].1);
            }
            i += 1;
        }
        None
    }

    /// Whether the dependency looks at a single unit; `false` for one the map does not hold.
    pub fn is_single_target(&self, dependency_hrid: &str) -> (r: bool)
        ensures
            r == (self.flag(dependency_hrid@) == Some(true)),
    {
        match self.get(dependency_hrid) {
            Some(b) => b,
            None => false,
        }
    }
}

/// The map of the given dependencies, each flag defaulting to `false`.
pub fn combat_trigger_dependency_map(details: Vec<TriggerDependency>) -> (m: TriggerDependencyMap)
    ensures
        m@ == details@.map_values(|d: TriggerDependency| (d.hrid@, single_target_flag(d))),
        forall|h: Seq<char>| m.flag(h) == flag_from(
            details@.map_values(|d: TriggerDependency| (d.hrid, single_target_flag(d))),
            h,
            0,
        ),
{
    let mut entries: Vec<(String, bool)> = Vec::new();
    let mut i: usize = 0;
    let ghost want = details@.map_values(|d: TriggerDependency| (d.hrid, single_target_flag(d)));
    while i < details.len()
        invariant
            i <= details@.len(),
            want == details@.map_values(|d: TriggerDependency| (d.hrid, single_target_flag(d))),
            entries@ == want.take(i as int),
        decreases details@.len() - i,
    {
        let d = &details[i];
        let flag = match d.is_single_target {
            Some(b) => b,
            None => false,
        };
        entries.push((d.hrid.clone(), flag));
        assert(want.take(i as int + 1) =~= want.take(i as int).push(want[i as int]));
        i += 1;
    }
    assert(want.take(i as int) =~= want);
    let m = TriggerDependencyMap { entries };
    assert(m@ =~= details@.map_values(|d: TriggerDependency| (d.hrid@, single_target_flag(d))));
    m
}

/// The map of the trigger dependencies in the text of the game data's JSON object.
pub fn trigger_dependency_map_from_json(text: &str) -> (m: TriggerDependencyMap)
    ensures
        m@ == json_trigger_dependencies(text@).map_values(
            |e: (Seq<char>, Option<bool>)| (e.0, e.1 == Some(true)),
        ),
{
    let details = parse_trigger_dependencies(text);
    let ghost dv = details@;
    let m = combat_trigger_dependency_map(details);
    proof {
        let parsed = dv.map_values(|d: TriggerDependency| (d.hrid@, d.is_single_target));
        assert forall|i: int| 0 <= i < dv.len() implies #[trigger] m@[i] == parsed.map_values(
            |e: (Seq<char>, Option<bool>)| (e.0, e.1 == Some(true)),
        )[i] by {
            assert(parsed[i] == (dv[i].hrid@, dv[i].is_single_target));
        }
        assert(m@ =~= parsed.map_values(|e: (Seq<char>, Option<bool>)| (e.0, e.1 == Some(true))));
    }
    m
}

} // verus!
