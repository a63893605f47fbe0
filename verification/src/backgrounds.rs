//! The static background catalog: an immutable table of selectable
//! backgrounds, looked up by id. The table is data owned by the
//! product; the logic only needs lookup by id and enumeration.

use vstd::prelude::*;
use vstd::string::*;

use crate::text::str_equal;

verus! {

/// One catalog entry.
pub struct Background {
    pub id: String,
    pub image: String,
    pub name: String,
    pub description: String,
    pub tags: Vec<String>,
    pub new: bool,
}

/// The ids of the catalog, in catalog order.
pub open spec fn catalog_ids() -> Seq<Seq<char>> {
    seq![
        "0x0800000000000864"@,
        "0x0800000000000E77"@,
        "0x0800000000000D6C"@,
        "0x0800000000000F11"@,
        "0x0800000000000DAD"@,
        "0x0800000000000EED"@,
        "0x080000000000112B"@,
        "0x080000000000121A"@,
        "0x08000000000012A5"@,
        "0x0800000000001379"@,
        "0x080000000000138A"@,
        "0x0800000000001389"@,
        "0x080000000000139D"@,
        "0x080000000000139F"@,
        "0x08000000000013A2"@,
    ]
}

/// A background id the catalog knows.
pub open spec fn is_recognized(id: Seq<char>) -> bool {
    catalog_ids().contains(id)
}

fn push_bg(
    r: &mut Vec<Background>,
    id: &str,
    image: &str,
    name: &str,
    description: &str,
    tags: Vec<String>,
    new: bool,
)
    ensures
        final(r)@.len() == old(r)@.len() + 1,
        final(r)@[old(r)@.len() as int].id@ == id@,
        forall|k: int| 0 <= k < old(r)@.len() ==> final(r)@[k] == old(r)@[k],
{
    let b = Background {
        id: String::from_str(id),
        image: String::from_str(image),
        name: String::from_str(name),
        description: String::from_str(description),
        tags,
        new,
    };
    r.push(b);
}

/// The full catalog, in order.
pub fn get_backgrounds() -> (r: Vec<Background>)
    ensures
        r@.len() == catalog_ids().len(),
        forall|i: int| 0 <= i < r@.len() ==> (#[trigger] r@[i]).id@ == catalog_ids()[i],
{
    let mut r: Vec<Background> = Vec::new();
    push_bg(
        &mut r,
        "0x0800000000000864",
        "overwatch_league.jpg",
        "Overwatch League",
        "Overwatch League Promo",
        vec![String::from_str("Overwatch League"), String::from_str("Silent")],
        false,
    );
    push_bg(
        &mut r,
        "0x0800000000000E77",
        "heroes.jpg",
        "Heroes",
        "2022 Alpha Test",
        vec![String::from_str("Animated")],
        false,
    );
    push_bg(
        &mut r,
        "0x0800000000000D6C",
        "sojourn.jpg",
        "Sojourn",
        "2022 PvP Beta",
        Vec::new(),
        false,
    );
    push_bg(
        &mut r,
        "0x0800000000000F11",
        "cyber_demon_genji_green.jpg",
        "Cyber Demon Genji (Green)",
        "Season 1 Mythic Skin",
        vec![String::from_str("Animated")],
        false,
    );
    push_bg(
        &mut r,
        "0x0800000000000DAD",
        "mei_lunar_2023.jpg",
        "Festive Mei",
        "Lunar New Year 2023 (Season 2)",
        Vec::new(),
        false,
    );
    push_bg(
        &mut r,
        "0x0800000000000EED",
        "one_punch_man_doomfist.jpg",
        "Saitama Doomfist",
        "One Punch Man Event (Season 3)",
        vec![String::from_str("Mythic Skin")],
        false,
    );
    push_bg(
        &mut r,
        "0x080000000000112B",
        "illari.jpg",
        "Illari",
        "Illari Release (Season 6)",
        vec![String::from_str("No Music")],
        false,
    );
    push_bg(
        &mut r,
        "0x080000000000121A",
        "venture.jpg",
        "Venture",
        "Venture Release (Season 10)",
        vec![String::from_str("Art")],
        false,
    );
    push_bg(
        &mut r,
        "0x08000000000012A5",
        "spellbinder_widowmaker.jpg",
        "Spellbinder Widowmaker",
        "Widowmaker Mythic Skin (Season 13)",
        vec![String::from_str("Mythic Skin"), String::from_str("Art")],
        false,
    );
    push_bg(
        &mut r,
        "0x0800000000001379",
        "gi_joe.jpg",
        "G.I. Joe",
        "G.I. Joe Event (Season 17)",
        vec![String::from_str("Collaboration"), String::from_str("Art")],
        false,
    );
    push_bg(
        &mut r,
        "0x080000000000138A",
        "radiant_angel.jpg",
        "Radiant Angel Mercy",
        "OWCS 2025 Midseason Championship Crowdfunding Skin",
        vec![String::from_str("Overwatch Champions Series")],
        false,
    );
    push_bg(
        &mut r,
        "0x0800000000001389",
        "nerf.jpg",
        "NERF",
        "NERF Collaboration Event (Season 17)",
        vec![String::from_str("Collaboration"), String::from_str("Art")],
        false,
    );
    push_bg(
        &mut r,
        "0x080000000000139D",
        "wuyang.jpg",
        "Wuyang",
        "Wuyang Release (Season 18)",
        vec![String::from_str("Art")],
        true,
    );
    push_bg(
        &mut r,
        "0x080000000000139F",
        "ultraviolet_sentinel_blazing_sunsetter.jpg",
        "Season 18 Mythics",
        "Ultraviolet Sentinel and Blazing Sunsetter (Season 18)",
        vec![String::from_str("Mythic Skin"), String::from_str("Mythic Weapon")],
        true,
    );
    push_bg(
        &mut r,
        "0x08000000000013A2",
        "ultraviolet_sentinel_blazing_sunsetter_art.jpg",
        "Season 18 Mythic Art",
        "Ultraviolet Sentinel and Blazing Sunsetter (Season 18)",
        vec![String::from_str("Mythic Skin"), String::from_str("Mythic Weapon"), String::from_str("Art")],
        true,
    );
    assert(forall|i: int| 0 <= i < r@.len() ==> (#[trigger] r@[i]).id@ == catalog_ids()[i]);
    r
}

/// Look a background up by its id: the entry with this id, or nothing
/// when the catalog does not know the id.
pub fn find_background_by_id(id: &str) -> (r: Option<Background>)
    ensures
        r is Some <==> is_recognized(id@),
        r matches Some(b) ==> b.id@ == id@,
{
    let bgs = get_backgrounds();
    let n = bgs.len();
    let mut i: usize = 0;
    while i < n
        invariant
            n == bgs@.len(),
            n == catalog_ids().len(),
            0 <= i <= n,
            forall|k: int| 0 <= k < n ==> (#[trigger] bgs@[k]).id@ == catalog_ids()[k],
            forall|k: int| 0 <= k < i ==> catalog_ids()[k] != id@,
        decreases n - i,
    {
        if str_equal(bgs[i].id.as_str(), id) {
            let b = Background {
                id: bgs[i].id.clone(),
                image: bgs[i].image.clone(),
                name: bgs[i].name.clone(),
                description: bgs[i].description.clone(),
                tags: Vec::new(),
                new: bgs[i].new,
            };
            assert(catalog_ids()[i as int] == id@);
            assert(is_recognized(id@));
            return Some(b);
        }
        i = i + 1;
    }
    assert(!is_recognized(id@)) by {
        if is_recognized(id@) {
            let k = choose|k: int| 0 <= k < catalog_ids().len() && catalog_ids()[k] == id@;
            assert(catalog_ids()[k] != id@);
        }
    }
    None
}

} // verus!
