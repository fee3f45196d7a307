//! Equipped items and the catalog of what the combat rules read of each item.
use vstd::prelude::*;
use crate::text::same_text;
use serde_json::Value;

verus! {

/// What the combat rules read of one item of the game data.
pub struct ItemInfo {
    pub hrid: String,
    /// The first of the item's combat style hrids, where it has one.
    pub combat_style: Option<String>,
    pub damage_type: Option<String>,
    pub primary_training: Option<String>,
    pub focus_training: Option<String>,
}

/// The items of the game data.
pub struct ItemCatalog {
    pub items: Vec<ItemInfo>,
}

/// A text of the data as characters, where there is one.
pub open spec fn opt_text(value: Option<String>) -> Option<Seq<char>> {
    match value {
        Some(s) => Some(s@),
        None => None,
    }
}

/// An item's entry as plain values: hrid, combat style, damage type, primary
/// and focus training.
pub open spec fn item_view(item: ItemInfo) -> (
    Seq<char>,
    Option<Seq<char>>,
    Option<Seq<char>>,
    Option<Seq<char>>,
    Option<Seq<char>>,
) {
    (
        item.hrid@,
        opt_text(item.combat_style),
        opt_text(item.damage_type),
        opt_text(item.primary_training),
        opt_text(item.focus_training),
    )
}

/// The entries that serde_json reads from the text of the game data's JSON
/// object of items, in the order of its object map; none for a text that is not
/// such an object.
pub uninterp spec fn json_item_infos(text: Seq<char>) -> Seq<(
    Seq<char>,
    Option<Seq<char>>,
    Option<Seq<char>>,
    Option<Seq<char>>,
    Option<Seq<char>>,
)>;

/// Reads the items with `serde_json::from_str`: one per member of the top-level
/// object, in the order in which serde_json's map yields them, with the texts of
/// `equipmentDetail.combatStats`' first `combatStyleHrids`, `damageType`,
/// `primaryTraining` and `focusTraining` where they are strings; none where the
/// text does not parse to an object. The contract only names that result.
#[verifier::external_body]
fn parse_item_infos(text: &str) -> (r: Vec<ItemInfo>)
    ensures
        r@.map_values(|i: ItemInfo| item_view(i)) == json_item_infos(text@),
{
    let text_of = |v: &Value| v.as_str().map(String::from);
    match serde_json::from_str::<Value>(text) {
        Ok(Value::Object(m)) => m.iter().map(|(hrid, item)| {
            let stats = &item["equipmentDetail"]["combatStats"];
            ItemInfo {
                hrid: hrid.clone(),
                combat_style: text_of(&stats["combatStyleHrids"][0]),
                damage_type: text_of(&stats["damageType"]),
                primary_training: text_of(&stats["primaryTraining"]),
                focus_training: text_of(&stats["focusTraining"]),
            }
        }).collect(),
        _ => Vec::new(),
    }
}

/// Position of the first item, from `from` on, whose hrid is `hrid`.
pub open spec fn item_position_from(items: Seq<ItemInfo>, hrid: Seq<char>, from: int) -> Option<int>
    decreases items.len() - from,
{
    if from < 0 || from >= items.len() {
        None
    } else if items[from].hrid@ == hrid {
        Some(from)
    } else {
        item_position_from(items, hrid, from + 1)
    }
}

/// Position of the first item whose hrid is `hrid`.
pub open spec fn item_position(items: Seq<ItemInfo>, hrid: Seq<char>) -> Option<int> {
    item_position_from(items, hrid, 0)
}

/// The catalog entry of an item; meaningful where the catalog holds the hrid.
pub open spec fn catalog_item(catalog: ItemCatalog, hrid: Seq<char>) -> ItemInfo {
    catalog.items@[item_position(catalog.items@, hrid)->Some_0]
}

/// A text of the data, or the given default where the data has none.
pub open spec fn text_or(value: Option<String>, default: Seq<char>) -> Seq<char> {
    match value {
        Some(s) => s@,
        None => default,
    }
}

proof fn lemma_item_position_from(items: Seq<ItemInfo>, hrid: Seq<char>, from: int)
    requires
        0 <= from,
    ensures
        item_position_from(items, hrid, from) matches Some(p) ==> from <= p < items.len()
            && items[p].hrid@ == hrid,
    decreases items.len() - from,
{
    if from < items.len() && items[from].hrid@ != hrid {
        lemma_item_position_from(items, hrid, from + 1);
    }
}

impl ItemCatalog {
    pub fn new(items: Vec<ItemInfo>) -> (c: Self)
        ensures
            c.items == items,
    {
        ItemCatalog { items }
    }

    /// Position of the first item whose hrid is `hrid`.
    pub fn position(&self, hrid: &str) -> (r: Option<usize>)
        ensures
            r matches Some(p) ==> item_position(self.items@, hrid@) == Some(p as int),
            r is None ==> item_position(self.items@, hrid@) is None,
    {
        let mut i: usize = 0;
        while i < self.items.len()
            invariant
                i <= self.items@.len(),
                item_position(self.items@, hrid@) == item_position_from(self.items@, hrid@, i as int),
            decreases self.items@.len() - i,
        {
            if same_text(self.items[i].hrid.as_str(), hrid) {
                return Some(i);
            }
            i += 1;
        }
        None
    }

    /// The catalog of the items in the text of the game data's JSON object.
    pub fn from_json(text: &str) -> (c: Self)
        ensures
            c.items@.map_values(|i: ItemInfo| item_view(i)) == json_item_infos(text@),
    {
        ItemCatalog { items: parse_item_infos(text) }
    }

    pub fn contains(&self, hrid: &str) -> (r: bool)
        ensures
            r == (item_position(self.items@, hrid@) is Some),
    {
        self.position(hrid).is_some()
    }
}

/// An equipped item at an enhancement level.
#[derive(Clone, Debug)]
pub struct Equipment {
    pub hrid: String,
    pub enhancement_level: usize,
}

impl Equipment {
    /// Equips an item, which must be in the catalog.
    pub fn new(hrid: String, enhancement_level: usize, catalog: &ItemCatalog) -> (e: Self)
        requires
            item_position(catalog.items@, hrid@) is Some,
        ensures
            e.hrid == hrid,
            e.enhancement_level == enhancement_level,
    {
        Equipment { hrid, enhancement_level }
    }

    fn game_item<'a>(&self, catalog: &'a ItemCatalog) -> (item: &'a ItemInfo)
        requires
            item_position(catalog.items@, self.hrid@) is Some,
        ensures
            *item == catalog_item(*catalog, self.hrid@),
    {
        proof {
            lemma_item_position_from(catalog.items@, self.hrid@, 0);
        }
        match catalog.position(self.hrid.as_str()) {
            Some(p) => &catalog.items[p],
            None => &catalog.items[0],
        }
    }

    fn text_or_default(value: &Option<String>, default: &str) -> (r: String)
        ensures
            r@ == text_or(*value, default@),
    {
        match value {
            Some(s) => s.clone(),
            None => default.to_owned(),
        }
    }

    pub fn get_combat_style(&self, catalog: &ItemCatalog) -> (r: String)
        requires
            item_position(catalog.items@, self.hrid@) is Some,
        ensures
            r@ == text_or(catalog_item(*catalog, self.hrid@).combat_style, "/combat_styles/smash"@),
    {
        Self::text_or_default(&self.game_item(catalog).combat_style, "/combat_styles/smash")
    }

    pub fn get_damage_type(&self, catalog: &ItemCatalog) -> (r: String)
        requires
            item_position(catalog.items@, self.hrid@) is Some,
        ensures
            r@ == text_or(catalog_item(*catalog, self.hrid@).damage_type, "/damage_types/physical"@),
    {
        Self::text_or_default(&self.game_item(catalog).damage_type, "/damage_types/physical")
    }

    pub fn get_primary_training(&self, catalog: &ItemCatalog) -> (r: String)
        requires
            item_position(catalog.items@, self.hrid@) is Some,
        ensures
            r@ == text_or(catalog_item(*catalog, self.hrid@).primary_training, ""@),
    {
        Self::text_or_default(&self.game_item(catalog).primary_training, "")
    }

    pub fn get_focus_training(&self, catalog: &ItemCatalog) -> (r: String)
        requires
            item_position(catalog.items@, self.hrid@) is Some,
        ensures
            r@ == text_or(catalog_item(*catalog, self.hrid@).focus_training, ""@),
    {
        Self::text_or_default(&self.game_item(catalog).focus_training, "")
    }
}

} // verus!
