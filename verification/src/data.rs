//! The crop and machinery catalogs, their validation and the built-in data.
use vstd::prelude::*;

use crate::text::{owned as text, same_text};

verus! {

/// A crop that can be sown, grown and sold.
#[derive(Debug)]
pub struct CropDefinition {
    pub id: String,
    pub name: String,
    pub seed_price: u64,
    pub sell_price: u64,
    pub grow_seconds: u64,
    pub unlock_earnings: u64,
    pub color: String,
    /// Two lines of three characters for each of the four growth stages.
    pub art: [[String; 2]; 4],
}

/// The crops on offer, in shop order.
#[derive(Debug)]
pub struct CropCatalog {
    pub crops: Vec<CropDefinition>,
}

/// What a machine does when it runs.
#[derive(Debug, Clone, Copy, PartialEq, Eq, Structural)]
pub enum UpgradeKind {
    AutoTill,
    AutoSow,
    GrowthBoost,
    AutoHarvest,
    AutoSell,
}

/// A machine that can be bought in levels.
#[derive(Debug)]
pub struct UpgradeDefinition {
    pub id: String,
    pub name: String,
    pub kind: UpgradeKind,
    pub base_price: u64,
    pub unlock_earnings: u64,
    pub interval_seconds: u64,
    /// Part of the catalog format and checked to be positive; buying levels
    /// is not capped by it.
    pub max_level: u32,
}

/// The machines on offer, in shop order.
#[derive(Debug)]
pub struct UpgradeCatalog {
    pub upgrades: Vec<UpgradeDefinition>,
}

/// Why a catalog was refused.
#[derive(Debug, PartialEq, Eq)]
pub enum DataError {
    Empty,
    DuplicateId(String),
    InvalidCrop(String),
    EmptyUpgrades,
    DuplicateUpgradeId(String),
    InvalidUpgrade(String),
}

// ---------------------------------------------------------------------------
// Lookup by id

/// `i` is the first position whose id is `id`.
pub open spec fn is_first_match(ids: Seq<Seq<char>>, id: Seq<char>, i: int) -> bool {
    &&& 0 <= i < ids.len()
    &&& ids[i] == id
    &&& forall|j: int| 0 <= j < i ==> ids[j] != id
}

/// The first position whose id is `id`, if any.
pub open spec fn first_match(ids: Seq<Seq<char>>, id: Seq<char>) -> Option<int> {
    if exists|i: int| is_first_match(ids, id, i) {
        Some(choose|i: int| is_first_match(ids, id, i))
    } else {
        None
    }
}

/// The first match is the one position that is a first match.
pub proof fn lemma_first_match_unique(ids: Seq<Seq<char>>, id: Seq<char>, i: int)
    requires
        is_first_match(ids, id, i),
    ensures
        first_match(ids, id) == Some(i),
{
    let k = choose|k: int| is_first_match(ids, id, k);
    if k < i {
        assert(ids[k] == id);
    } else if k > i {
        assert(ids[i] != id);
    }
}

/// There is no first match exactly when no position holds `id`.
pub proof fn lemma_first_match_none(ids: Seq<Seq<char>>, id: Seq<char>)
    ensures
        first_match(ids, id) is None <==> (forall|j: int| 0 <= j < ids.len() ==> ids[j] != id),
{
    if exists|j: int| 0 <= j < ids.len() && ids[j] == id {
        let j = choose|j: int| 0 <= j < ids.len() && ids[j] == id;
        lemma_first_exists(ids, id, j);
    }
}

proof fn lemma_first_exists(ids: Seq<Seq<char>>, id: Seq<char>, j: int)
    requires
        0 <= j < ids.len(),
        ids[j] == id,
    ensures
        exists|i: int| is_first_match(ids, id, i),
    decreases j,
{
    if exists|k: int| 0 <= k < j && ids[k] == id {
        let k = choose|k: int| 0 <= k < j && ids[k] == id;
        lemma_first_exists(ids, id, k);
    } else {
        assert(is_first_match(ids, id, j));
    }
}

/// The ids of the crops, in order.
pub open spec fn crop_ids(crops: Seq<CropDefinition>) -> Seq<Seq<char>> {
    crops.map_values(|c: CropDefinition| c.id@)
}

/// The ids of the machines, in order.
pub open spec fn upgrade_ids(upgrades: Seq<UpgradeDefinition>) -> Seq<Seq<char>> {
    upgrades.map_values(|u: UpgradeDefinition| u.id@)
}

/// The first crop whose id is `id`.
pub open spec fn lookup_crop(crops: Seq<CropDefinition>, id: Seq<char>) -> Option<CropDefinition> {
    match first_match(crop_ids(crops), id) {
        Some(i) => Some(crops[i]),
        None => None,
    }
}

/// The first machine whose id is `id`.
pub open spec fn lookup_upgrade(upgrades: Seq<UpgradeDefinition>, id: Seq<char>) -> Option<UpgradeDefinition> {
    match first_match(upgrade_ids(upgrades), id) {
        Some(i) => Some(upgrades[i]),
        None => None,
    }
}

// ---------------------------------------------------------------------------
// Validation

/// The longest growing time a crop may have, in seconds.
pub const MAX_GROW_SECONDS: u64 = 9_000;

/// A line of stage art: three printable ASCII characters, so three columns on screen.
pub open spec fn art_line_ok(line: Seq<char>) -> bool {
    line.len() == 3 && forall|k: int| 0 <= k < 3 ==> ' ' <= #[trigger] line[k] <= '~'
}

/// A crop's own fields are acceptable: names, positive prices, a sale price of
/// at least three times the seed price, a growing time of at most
/// `MAX_GROW_SECONDS`, and stage art three columns wide.
pub open spec fn crop_valid(c: CropDefinition) -> bool {
    &&& c.id@.len() > 0
    &&& c.name@.len() > 0
    &&& c.seed_price > 0
    &&& c.sell_price > 0
    &&& c.sell_price >= 3 * c.seed_price
    &&& 0 < c.grow_seconds <= MAX_GROW_SECONDS
    &&& forall|s: int, r: int| 0 <= s < 4 && 0 <= r < 2 ==> art_line_ok((#[trigger] c.art[s][r])@)
}

/// Crop `i` unlocks earlier or grows faster than the crop before it.
pub open spec fn out_of_order(crops: Seq<CropDefinition>, i: int) -> bool {
    i > 0 && (crops[i - 1].unlock_earnings > crops[i].unlock_earnings || crops[i - 1].grow_seconds
        > crops[i].grow_seconds)
}

/// A machine's own fields are acceptable: only the growth boost runs without an interval.
pub open spec fn upgrade_valid(u: UpgradeDefinition) -> bool {
    &&& u.id@.len() > 0
    &&& u.name@.len() > 0
    &&& u.base_price > 0
    &&& u.max_level > 0
    &&& (u.kind != UpgradeKind::GrowthBoost ==> u.interval_seconds > 0)
    &&& (u.kind == UpgradeKind::GrowthBoost ==> u.interval_seconds == 0)
}

/// Position `i` repeats an id that came before it.
pub open spec fn id_seen_before(ids: Seq<Seq<char>>, i: int) -> bool {
    exists|j: int| 0 <= j < i && ids[j] == ids[i]
}

/// Crop `i` is refused: its id repeats, its fields are not acceptable, or it
/// unlocks earlier or grows faster than the crop before it.
pub open spec fn crop_problem(crops: Seq<CropDefinition>, i: int) -> bool {
    id_seen_before(crop_ids(crops), i) || !crop_valid(crops[i]) || out_of_order(crops, i)
}

/// Machine `i` is refused: its id repeats or its fields are not acceptable.
pub open spec fn upgrade_problem(upgrades: Seq<UpgradeDefinition>, i: int) -> bool {
    id_seen_before(upgrade_ids(upgrades), i) || !upgrade_valid(upgrades[i])
}

pub open spec fn is_first_crop_problem(crops: Seq<CropDefinition>, i: int) -> bool {
    0 <= i < crops.len() && crop_problem(crops, i) && forall|j: int| 0 <= j < i ==> !crop_problem(crops, j)
}

pub open spec fn is_first_upgrade_problem(upgrades: Seq<UpgradeDefinition>, i: int) -> bool {
    0 <= i < upgrades.len() && upgrade_problem(upgrades, i) && forall|j: int|
        0 <= j < i ==> !upgrade_problem(upgrades, j)
}

/// The verdict on a crop list: the first refused crop decides the error.
pub open spec fn crop_check(crops: Seq<CropDefinition>) -> Result<(), DataError> {
    if crops.len() == 0 {
        Err(DataError::Empty)
    } else if exists|i: int| is_first_crop_problem(crops, i) {
        let i = choose|i: int| is_first_crop_problem(crops, i);
        if id_seen_before(crop_ids(crops), i) {
            Err(DataError::DuplicateId(crops[i].id))
        } else {
            Err(DataError::InvalidCrop(crops[i].id))
        }
    } else {
        Ok(())
    }
}

/// The verdict on a machine list: the first refused machine decides the error.
pub open spec fn upgrade_check(upgrades: Seq<UpgradeDefinition>) -> Result<(), DataError> {
    if upgrades.len() == 0 {
        Err(DataError::EmptyUpgrades)
    } else if exists|i: int| is_first_upgrade_problem(upgrades, i) {
        let i = choose|i: int| is_first_upgrade_problem(upgrades, i);
        if id_seen_before(upgrade_ids(upgrades), i) {
            Err(DataError::DuplicateUpgradeId(upgrades[i].id))
        } else {
            Err(DataError::InvalidUpgrade(upgrades[i].id))
        }
    } else {
        Ok(())
    }
}

/// Whether some crop before position `i` has the same id as crop `i`.
fn crop_id_repeats(crops: &Vec<CropDefinition>, i: usize) -> (res: bool)
    requires
        i < crops@.len(),
    ensures
        res == id_seen_before(crop_ids(crops@), i as int),
{
    let ghost ids = crop_ids(crops@);
    let mut j: usize = 0;
    while j < i
        invariant
            i < crops@.len(),
            ids == crop_ids(crops@),
            j <= i,
            forall|k: int| 0 <= k < j ==> ids[k] != ids[i as int],
        decreases i - j,
    {
        assert(ids[j as int] == crops@[j as int].id@);
        assert(ids[i as int] == crops@[i as int].id@);
        if same_text(crops[j].id.as_str(), crops[i].id.as_str()) {
            return true;
        }
        j = j + 1;
    }
    false
}

/// Whether some machine before position `i` has the same id as machine `i`.
fn upgrade_id_repeats(upgrades: &Vec<UpgradeDefinition>, i: usize) -> (res: bool)
    requires
        i < upgrades@.len(),
    ensures
        res == id_seen_before(upgrade_ids(upgrades@), i as int),
{
    let ghost ids = upgrade_ids(upgrades@);
    let mut j: usize = 0;
    while j < i
        invariant
            i < upgrades@.len(),
            ids == upgrade_ids(upgrades@),
            j <= i,
            forall|k: int| 0 <= k < j ==> ids[k] != ids[i as int],
        decreases i - j,
    {
        assert(ids[j as int] == upgrades@[j as int].id@);
        assert(ids[i as int] == upgrades@[i as int].id@);
        if same_text(upgrades[j].id.as_str(), upgrades[i].id.as_str()) {
            return true;
        }
        j = j + 1;
    }
    false
}

/// Whether a line of stage art is three printable ASCII characters.
fn art_line_is_ok(line: &str) -> (res: bool)
    ensures
        res == art_line_ok(line@),
{
    if line.unicode_len() != 3 {
        return false;
    }
    let mut k: usize = 0;
    while k < 3
        invariant
            line@.len() == 3,
            k <= 3,
            forall|j: int| 0 <= j < k ==> ' ' <= #[trigger] line@[j] <= '~',
        decreases 3 - k,
    {
        let c = line.get_char(k);
        if c < ' ' || c > '~' {
            return false;
        }
        k = k + 1;
    }
    true
}

impl CropDefinition {
    /// Whether this crop's own fields are acceptable.
    pub fn is_valid(&self) -> (res: bool)
        ensures
            res == crop_valid(*self),
    {
        if self.id.unicode_len() == 0 || self.name.unicode_len() == 0 || self.seed_price == 0
            || self.sell_price == 0 || self.grow_seconds == 0 || self.grow_seconds > MAX_GROW_SECONDS
            || (self.sell_price as u128) < 3 * self.seed_price as u128 {
            return false;
        }
        let mut s: usize = 0;
        while s < 4
            invariant
                s <= 4,
                forall|a: int, b: int| 0 <= a < s && 0 <= b < 2 ==> art_line_ok((#[trigger] self.art[a][b])@),
            decreases 4 - s,
        {
            let mut r: usize = 0;
            while r < 2
                invariant
                    s < 4,
                    r <= 2,
                    forall|a: int, b: int| 0 <= a < s && 0 <= b < 2 ==> art_line_ok((#[trigger] self.art[a][b])@),
                    forall|b: int| 0 <= b < r ==> art_line_ok((#[trigger] self.art[s as int][b])@),
                decreases 2 - r,
            {
                if !art_line_is_ok(self.art[s][r].as_str()) {
                    return false;
                }
                r = r + 1;
            }
            s = s + 1;
        }
        true
    }
}

impl UpgradeDefinition {
    /// Whether this machine's own fields are acceptable.
    pub fn is_valid(&self) -> (res: bool)
        ensures
            res == upgrade_valid(*self),
    {
        let timed = self.kind != UpgradeKind::GrowthBoost;
        !(self.id.unicode_len() == 0 || self.name.unicode_len() == 0 || self.base_price == 0
            || self.max_level == 0 || (timed && self.interval_seconds == 0) || (!timed
            && self.interval_seconds != 0))
    }
}

impl CropCatalog {
    /// The first crop whose id is `id`.
    pub fn get(&self, id: &str) -> (res: Option<&CropDefinition>)
        ensures
            res is Some == lookup_crop(self.crops@, id@) is Some,
            res matches Some(c) ==> lookup_crop(self.crops@, id@) == Some(*c),
    {
        let ghost ids = crop_ids(self.crops@);
        let n = self.crops.len();
        let mut i: usize = 0;
        while i < n
            invariant
                n == self.crops@.len(),
                ids == crop_ids(self.crops@),
                i <= n,
                forall|j: int| 0 <= j < i ==> ids[j] != id@,
            decreases n - i,
        {
            assert(ids[i as int] == self.crops@[i as int].id@);
            if same_text(self.crops[i].id.as_str(), id) {
                proof {
                    lemma_first_match_unique(ids, id@, i as int);
                }
                return Some(&self.crops[i]);
            }
            i = i + 1;
        }
        proof {
            lemma_first_match_none(ids, id@);
        }
        None
    }

    /// Checks the catalog: it must not be empty, ids must not repeat, every
    /// crop's fields must be acceptable, and along the list crops must unlock
    /// no earlier and grow no faster. The first refused crop decides.
    pub fn validate(&self) -> (res: Result<(), DataError>)
        ensures
            res == crop_check(self.crops@),
            res is Ok ==> forall|i: int| 0 <= i < self.crops@.len() ==> crop_valid(#[trigger] self.crops@[i]),
            res is Ok ==> forall|i: int, j: int|
                0 <= i < j < self.crops@.len() ==> #[trigger] self.crops@[i].unlock_earnings
                    <= #[trigger] self.crops@[j].unlock_earnings && self.crops@[i].grow_seconds
                    <= self.crops@[j].grow_seconds,
    {
        let n = self.crops.len();
        if n == 0 {
            return Err(DataError::Empty);
        }
        let mut i: usize = 0;
        while i < n
            invariant
                n == self.crops@.len(),
                i <= n,
                forall|j: int| 0 <= j < i ==> !crop_problem(self.crops@, j),
            decreases n - i,
        {
            let repeats = crop_id_repeats(&self.crops, i);
            let misplaced = i > 0 && (self.crops[i - 1].unlock_earnings > self.crops[i].unlock_earnings
                || self.crops[i - 1].grow_seconds > self.crops[i].grow_seconds);
            if repeats || !self.crops[i].is_valid() || misplaced {
                let ghost crops = self.crops@;
                proof {
                    assert(is_first_crop_problem(crops, i as int));
                    let k = choose|k: int| is_first_crop_problem(crops, k);
                    if k < i {
                        assert(!crop_problem(crops, k));
                    } else if k > i {
                        assert(!crop_problem(crops, i as int));
                    }
                }
                if repeats {
                    return Err(DataError::DuplicateId(self.crops[i].id.clone()));
                } else {
                    return Err(DataError::InvalidCrop(self.crops[i].id.clone()));
                }
            }
            i = i + 1;
        }
        proof {
            lemma_checked_crops_ordered(self.crops@);
        }
        Ok(())
    }
}

/// In a catalog with no refused crop, crops along the list unlock no earlier
/// and grow no faster.
proof fn lemma_checked_crops_ordered(crops: Seq<CropDefinition>)
    requires
        forall|j: int| 0 <= j < crops.len() ==> !crop_problem(crops, j),
    ensures
        forall|i: int| 0 <= i < crops.len() ==> crop_valid(#[trigger] crops[i]),
        forall|i: int, j: int|
            0 <= i < j < crops.len() ==> #[trigger] crops[i].unlock_earnings <= #[trigger] crops[j].unlock_earnings
                && crops[i].grow_seconds <= crops[j].grow_seconds,
{
    assert forall|i: int| 0 <= i < crops.len() implies crop_valid(#[trigger] crops[i]) by {
        assert(!crop_problem(crops, i));
    }
    assert forall|i: int, j: int| 0 <= i < j < crops.len() implies #[trigger] crops[i].unlock_earnings
        <= #[trigger] crops[j].unlock_earnings && crops[i].grow_seconds <= crops[j].grow_seconds by {
        lemma_crops_ordered_from(crops, i, j);
    }
}

proof fn lemma_crops_ordered_from(crops: Seq<CropDefinition>, i: int, j: int)
    requires
        forall|k: int| 0 <= k < crops.len() ==> !crop_problem(crops, k),
        0 <= i <= j < crops.len(),
    ensures
        crops[i].unlock_earnings <= crops[j].unlock_earnings,
        crops[i].grow_seconds <= crops[j].grow_seconds,
    decreases j - i,
{
    if i < j {
        lemma_crops_ordered_from(crops, i, j - 1);
        assert(!crop_problem(crops, j));
    }
}

impl UpgradeCatalog {
    /// The first machine whose id is `id`.
    pub fn get(&self, id: &str) -> (res: Option<&UpgradeDefinition>)
        ensures
            res is Some == lookup_upgrade(self.upgrades@, id@) is Some,
            res matches Some(u) ==> lookup_upgrade(self.upgrades@, id@) == Some(*u),
    {
        let ghost ids = upgrade_ids(self.upgrades@);
        let n = self.upgrades.len();
        let mut i: usize = 0;
        while i < n
            invariant
                n == self.upgrades@.len(),
                ids == upgrade_ids(self.upgrades@),
                i <= n,
                forall|j: int| 0 <= j < i ==> ids[j] != id@,
            decreases n - i,
        {
            assert(ids[i as int] == self.upgrades@[i as int].id@);
            if same_text(self.upgrades[i].id.as_str(), id) {
                proof {
                    lemma_first_match_unique(ids, id@, i as int);
                }
                return Some(&self.upgrades[i]);
            }
            i = i + 1;
        }
        proof {
            lemma_first_match_none(ids, id@);
        }
        None
    }

    /// Checks the catalog: it must not be empty, ids must not repeat, and
    /// every machine's fields must be acceptable. The first refused machine decides.
    pub fn validate(&self) -> (res: Result<(), DataError>)
        ensures
            res == upgrade_check(self.upgrades@),
    {
        let n = self.upgrades.len();
        if n == 0 {
            return Err(DataError::EmptyUpgrades);
        }
        let mut i: usize = 0;
        while i < n
            invariant
                n == self.upgrades@.len(),
                i <= n,
                forall|j: int| 0 <= j < i ==> !upgrade_problem(self.upgrades@, j),
            decreases n - i,
        {
            let repeats = upgrade_id_repeats(&self.upgrades, i);
            if repeats || !self.upgrades[i].is_valid() {
                let ghost ups = self.upgrades@;
                proof {
                    assert(is_first_upgrade_problem(ups, i as int));
                    let k = choose|k: int| is_first_upgrade_problem(ups, k);
                    if k < i {
                        assert(!upgrade_problem(ups, k));
                    } else if k > i {
                        assert(!upgrade_problem(ups, i as int));
                    }
                }
                if repeats {
                    return Err(DataError::DuplicateUpgradeId(self.upgrades[i].id.clone()));
                } else {
                    return Err(DataError::InvalidUpgrade(self.upgrades[i].id.clone()));
                }
            }
            i = i + 1;
        }
        Ok(())
    }
}


fn crop(
    id: &str,
    name: &str,
    seed_price: u64,
    sell_price: u64,
    grow_seconds: u64,
    unlock_earnings: u64,
    color: &str,
    art: [[&str; 2]; 4],
) -> (res: CropDefinition)
    ensures
        res.id@ == id@,
        res.name@ == name@,
        res.seed_price == seed_price,
        res.sell_price == sell_price,
        res.grow_seconds == grow_seconds,
        res.unlock_earnings == unlock_earnings,
        res.color@ == color@,
        forall|s: int, r: int| 0 <= s < 4 && 0 <= r < 2 ==> (#[trigger] res.art[s][r])@ == art[s][r]@,
{
    let res = CropDefinition {
        id: text(id),
        name: text(name),
        seed_price,
        sell_price,
        grow_seconds,
        unlock_earnings,
        color: text(color),
        art: [
            [text(art[0][0]), text(art[0][1])],
            [text(art[1][0]), text(art[1][1])],
            [text(art[2][0]), text(art[2][1])],
            [text(art[3][0]), text(art[3][1])],
        ],
    };
    assert forall|s: int, r: int| 0 <= s < 4 && 0 <= r < 2 implies (#[trigger] res.art[s][r])@ == art[s][r]@ by {
        if s == 0 && r == 0 {} else if s == 0 {} else if s == 1 && r == 0 {} else if s == 1 {}
        else if s == 2 && r == 0 {} else if s == 2 {} else if s == 3 && r == 0 {} else {}
    }
    res
}

fn upgrade(
    id: &str,
    name: &str,
    kind: UpgradeKind,
    base_price: u64,
    unlock_earnings: u64,
    interval_seconds: u64,
    max_level: u32,
) -> (res: UpgradeDefinition)
    ensures
        res.id@ == id@,
        res.name@ == name@,
        res.kind == kind,
        res.base_price == base_price,
        res.unlock_earnings == unlock_earnings,
        res.interval_seconds == interval_seconds,
        res.max_level == max_level,
{
    UpgradeDefinition {
        id: text(id),
        name: text(name),
        kind,
        base_price,
        unlock_earnings,
        interval_seconds,
        max_level,
    }
}

/// A crop has these fields; `art` lists its stage art row by row, two lines per stage.
pub open spec fn crop_is(
    c: CropDefinition,
    id: Seq<char>,
    name: Seq<char>,
    seed_price: u64,
    sell_price: u64,
    grow_seconds: u64,
    unlock_earnings: u64,
    color: Seq<char>,
    art: Seq<Seq<char>>,
) -> bool {
    &&& c.id@ == id
    &&& c.name@ == name
    &&& c.seed_price == seed_price
    &&& c.sell_price == sell_price
    &&& c.grow_seconds == grow_seconds
    &&& c.unlock_earnings == unlock_earnings
    &&& c.color@ == color
    &&& art.len() == 8
    &&& forall|s: int, r: int| 0 <= s < 4 && 0 <= r < 2 ==> (#[trigger] c.art[s][r])@ == art[2 * s + r]
}

/// A machine has these fields.
pub open spec fn upgrade_is(
    u: UpgradeDefinition,
    id: Seq<char>,
    name: Seq<char>,
    kind: UpgradeKind,
    base_price: u64,
    unlock_earnings: u64,
    interval_seconds: u64,
    max_level: u32,
) -> bool {
    &&& u.id@ == id
    &&& u.name@ == name
    &&& u.kind == kind
    &&& u.base_price == base_price
    &&& u.unlock_earnings == unlock_earnings
    &&& u.interval_seconds == interval_seconds
    &&& u.max_level == max_level
}

// ---------------------------------------------------------------------------
// The crops that ship with the game

/// How many crops ship with the game.
pub const SHIPPED_CROPS: usize = 50;

/// The first two letters of an id, as one number.
pub open spec fn id_key(id: Seq<char>) -> int {
    (id[0] as int) * 128 + (id[1] as int)
}

/// The stage art of the `p`-th of the four art patterns, two lines per stage.
pub open spec fn stage_art_pattern(p: int) -> Seq<Seq<char>> {
    if p == 0 {
        seq!["   "@, " . "@, " , "@, " | "@, "\\v/"@, " | "@, "\\|/"@, "(o)"@]
    } else if p == 1 {
        seq!["   "@, " . "@, " | "@, " | "@, "\\|/"@, " | "@, "{#}"@, "\\|/"@]
    } else if p == 2 {
        seq!["   "@, " . "@, " v "@, " | "@, "\\v/"@, " | "@, "\\Y/"@, "(@)"@]
    } else {
        seq!["   "@, " . "@, " o "@, " | "@, "(o)"@, " | "@, "(@)"@, "(@)"@]
    }
}

/// The colour that goes with the `p`-th art pattern.
pub open spec fn crop_color(p: int) -> Seq<char> {
    if p == 0 {
        "red"@
    } else if p == 1 {
        "yellow"@
    } else if p == 2 {
        "magenta"@
    } else {
        "green"@
    }
}

/// The `k`-th crop that ships with the game. Along the list the seed price
/// rises by 5, the sale price by 20 and the growing time by 150 seconds, a
/// crop unlocks at 100 times the square of its position in earnings, and
/// the crops take turns among four colours and art patterns.
pub open spec fn shipped_crop_is(c: CropDefinition, k: int) -> bool {
    crop_is(
        c,
        shipped_crop_names(k).0,
        shipped_crop_names(k).1,
        (5 * (k + 1)) as u64,
        (20 * k + 15) as u64,
        (30 + 150 * k) as u64,
        (100 * (k * k)) as u64,
        crop_color(k % 4),
        stage_art_pattern(k % 4),
    )
}

/// The id and the name of the `k`-th crop that ships with the game.
pub open spec fn shipped_crop_names(k: int) -> (Seq<char>, Seq<char>) {
    if k == 0 {
        ("radish"@, "Radish"@)
    } else if k == 1 {
        ("lettuce"@, "Lettuce"@)
    } else if k == 2 {
        ("spinach"@, "Spinach"@)
    } else if k == 3 {
        ("carrot"@, "Carrot"@)
    } else if k == 4 {
        ("pea"@, "Pea"@)
    } else if k == 5 {
        ("bean"@, "Bean"@)
    } else if k == 6 {
        ("onion"@, "Onion"@)
    } else if k == 7 {
        ("garlic"@, "Garlic"@)
    } else if k == 8 {
        ("potato"@, "Potato"@)
    } else if k == 9 {
        ("tomato"@, "Tomato"@)
    } else if k == 10 {
        ("cucumber"@, "Cucumber"@)
    } else if k == 11 {
        ("zucchini"@, "Zucchini"@)
    } else if k == 12 {
        ("kale"@, "Kale"@)
    } else if k == 13 {
        ("broccoli"@, "Broccoli"@)
    } else if k == 14 {
        ("chard"@, "Chard"@)
    } else if k == 15 {
        ("celery"@, "Celery"@)
    } else if k == 16 {
        ("asparagus"@, "Asparagus"@)
    } else if k == 17 {
        ("artichoke"@, "Artichoke"@)
    } else if k == 18 {
        ("eggplant"@, "Eggplant"@)
    } else if k == 19 {
        ("okra"@, "Okra"@)
    } else if k == 20 {
        ("pumpkin"@, "Pumpkin"@)
    } else if k == 21 {
        ("squash"@, "Squash"@)
    } else if k == 22 {
        ("melon"@, "Melon"@)
    } else if k == 23 {
        ("watermelon"@, "Watermelon"@)
    } else if k == 24 {
        ("strawberry"@, "Strawberry"@)
    } else if k == 25 {
        ("blueberry"@, "Blueberry"@)
    } else if k == 26 {
        ("gooseberry"@, "Gooseberry"@)
    } else if k == 27 {
        ("corn"@, "Corn"@)
    } else if k == 28 {
        ("wheat"@, "Wheat"@)
    } else if k == 29 {
        ("barley"@, "Barley"@)
    } else if k == 30 {
        ("oats"@, "Oats"@)
    } else if k == 31 {
        ("rice"@, "Rice"@)
    } else if k == 32 {
        ("rye"@, "Rye"@)
    } else if k == 33 {
        ("sunflower"@, "Sunflower"@)
    } else if k == 34 {
        ("soybean"@, "Soybean"@)
    } else if k == 35 {
        ("millet"@, "Millet"@)
    } else if k == 36 {
        ("quinoa"@, "Quinoa"@)
    } else if k == 37 {
        ("turnip"@, "Turnip"@)
    } else if k == 38 {
        ("yam"@, "Yam"@)
    } else if k == 39 {
        ("taro"@, "Taro"@)
    } else if k == 40 {
        ("ginger"@, "Ginger"@)
    } else if k == 41 {
        ("hops"@, "Hops"@)
    } else if k == 42 {
        ("vanilla"@, "Vanilla"@)
    } else if k == 43 {
        ("tea"@, "Tea"@)
    } else if k == 44 {
        ("nutmeg"@, "Nutmeg"@)
    } else if k == 45 {
        ("saffron"@, "Saffron"@)
    } else if k == 46 {
        ("fennel"@, "Fennel"@)
    } else if k == 47 {
        ("daikon"@, "Daikon"@)
    } else if k == 48 {
        ("parsnip"@, "Parsnip"@)
    } else {
        ("kohlrabi"@, "Kohlrabi"@)
    }
}

/// The crop whose first two letters give `key` (see `id_key`).
spec fn shipped_position(key: int) -> int {
    if key == 14689 {
        0
    } else if key == 13925 {
        1
    } else if key == 14832 {
        2
    } else if key == 12769 {
        3
    } else if key == 14437 {
        4
    } else if key == 12645 {
        5
    } else if key == 14318 {
        6
    } else if key == 13281 {
        7
    } else if key == 14447 {
        8
    } else if key == 14959 {
        9
    } else if key == 12789 {
        10
    } else if key == 15733 {
        11
    } else if key == 13793 {
        12
    } else if key == 12658 {
        13
    } else if key == 12776 {
        14
    } else if key == 12773 {
        15
    } else if key == 12531 {
        16
    } else if key == 12530 {
        17
    } else if key == 13031 {
        18
    } else if key == 14315 {
        19
    } else if key == 14453 {
        20
    } else if key == 14833 {
        21
    } else if key == 14053 {
        22
    } else if key == 15329 {
        23
    } else if key == 14836 {
        24
    } else if key == 12652 {
        25
    } else if key == 13295 {
        26
    } else if key == 12783 {
        27
    } else if key == 15336 {
        28
    } else if key == 12641 {
        29
    } else if key == 14305 {
        30
    } else if key == 14697 {
        31
    } else if key == 14713 {
        32
    } else if key == 14837 {
        33
    } else if key == 14831 {
        34
    } else if key == 14057 {
        35
    } else if key == 14581 {
        36
    } else if key == 14965 {
        37
    } else if key == 15585 {
        38
    } else if key == 14945 {
        39
    } else if key == 13289 {
        40
    } else if key == 13423 {
        41
    } else if key == 15201 {
        42
    } else if key == 14949 {
        43
    } else if key == 14197 {
        44
    } else if key == 14817 {
        45
    } else if key == 13157 {
        46
    } else if key == 12897 {
        47
    } else if key == 14433 {
        48
    } else if key == 13807 {
        49
    } else {
        -1
    }
}

/// Every shipped id and name is non-empty, and the first two letters of an
/// id tell its position.
proof fn lemma_shipped_names(k: int)
    requires
        0 <= k < SHIPPED_CROPS,
    ensures
        shipped_crop_names(k).0.len() >= 2,
        shipped_crop_names(k).1.len() > 0,
        shipped_position(id_key(shipped_crop_names(k).0)) == k,
{
    if k == 0 {
        reveal_strlit("radish");
        reveal_strlit("Radish");
    } else if k == 1 {
        reveal_strlit("lettuce");
        reveal_strlit("Lettuce");
    } else if k == 2 {
        reveal_strlit("spinach");
        reveal_strlit("Spinach");
    } else if k == 3 {
        reveal_strlit("carrot");
        reveal_strlit("Carrot");
    } else if k == 4 {
        reveal_strlit("pea");
        reveal_strlit("Pea");
    } else if k == 5 {
        reveal_strlit("bean");
        reveal_strlit("Bean");
    } else if k == 6 {
        reveal_strlit("onion");
        reveal_strlit("Onion");
    } else if k == 7 {
        reveal_strlit("garlic");
        reveal_strlit("Garlic");
    } else if k == 8 {
        reveal_strlit("potato");
        reveal_strlit("Potato");
    } else if k == 9 {
        reveal_strlit("tomato");
        reveal_strlit("Tomato");
    } else if k == 10 {
        reveal_strlit("cucumber");
        reveal_strlit("Cucumber");
    } else if k == 11 {
        reveal_strlit("zucchini");
        reveal_strlit("Zucchini");
    } else if k == 12 {
        reveal_strlit("kale");
        reveal_strlit("Kale");
    } else if k == 13 {
        reveal_strlit("broccoli");
        reveal_strlit("Broccoli");
    } else if k == 14 {
        reveal_strlit("chard");
        reveal_strlit("Chard");
    } else if k == 15 {
        reveal_strlit("celery");
        reveal_strlit("Celery");
    } else if k == 16 {
        reveal_strlit("asparagus");
        reveal_strlit("Asparagus");
    } else if k == 17 {
        reveal_strlit("artichoke");
        reveal_strlit("Artichoke");
    } else if k == 18 {
        reveal_strlit("eggplant");
        reveal_strlit("Eggplant");
    } else if k == 19 {
        reveal_strlit("okra");
        reveal_strlit("Okra");
    } else if k == 20 {
        reveal_strlit("pumpkin");
        reveal_strlit("Pumpkin");
    } else if k == 21 {
        reveal_strlit("squash");
        reveal_strlit("Squash");
    } else if k == 22 {
        reveal_strlit("melon");
        reveal_strlit("Melon");
    } else if k == 23 {
        reveal_strlit("watermelon");
        reveal_strlit("Watermelon");
    } else if k == 24 {
        reveal_strlit("strawberry");
        reveal_strlit("Strawberry");
    } else if k == 25 {
        reveal_strlit("blueberry");
        reveal_strlit("Blueberry");
    } else if k == 26 {
        reveal_strlit("gooseberry");
        reveal_strlit("Gooseberry");
    } else if k == 27 {
        reveal_strlit("corn");
        reveal_strlit("Corn");
    } else if k == 28 {
        reveal_strlit("wheat");
        reveal_strlit("Wheat");
    } else if k == 29 {
        reveal_strlit("barley");
        reveal_strlit("Barley");
    } else if k == 30 {
        reveal_strlit("oats");
        reveal_strlit("Oats");
    } else if k == 31 {
        reveal_strlit("rice");
        reveal_strlit("Rice");
    } else if k == 32 {
        reveal_strlit("rye");
        reveal_strlit("Rye");
    } else if k == 33 {
        reveal_strlit("sunflower");
        reveal_strlit("Sunflower");
    } else if k == 34 {
        reveal_strlit("soybean");
        reveal_strlit("Soybean");
    } else if k == 35 {
        reveal_strlit("millet");
        reveal_strlit("Millet");
    } else if k == 36 {
        reveal_strlit("quinoa");
        reveal_strlit("Quinoa");
    } else if k == 37 {
        reveal_strlit("turnip");
        reveal_strlit("Turnip");
    } else if k == 38 {
        reveal_strlit("yam");
        reveal_strlit("Yam");
    } else if k == 39 {
        reveal_strlit("taro");
        reveal_strlit("Taro");
    } else if k == 40 {
        reveal_strlit("ginger");
        reveal_strlit("Ginger");
    } else if k == 41 {
        reveal_strlit("hops");
        reveal_strlit("Hops");
    } else if k == 42 {
        reveal_strlit("vanilla");
        reveal_strlit("Vanilla");
    } else if k == 43 {
        reveal_strlit("tea");
        reveal_strlit("Tea");
    } else if k == 44 {
        reveal_strlit("nutmeg");
        reveal_strlit("Nutmeg");
    } else if k == 45 {
        reveal_strlit("saffron");
        reveal_strlit("Saffron");
    } else if k == 46 {
        reveal_strlit("fennel");
        reveal_strlit("Fennel");
    } else if k == 47 {
        reveal_strlit("daikon");
        reveal_strlit("Daikon");
    } else if k == 48 {
        reveal_strlit("parsnip");
        reveal_strlit("Parsnip");
    } else {
        reveal_strlit("kohlrabi");
        reveal_strlit("Kohlrabi");
    }
}

/// The id and the name of the `k`-th shipped crop.
fn shipped_names_at(k: usize) -> (res: (&'static str, &'static str))
    requires
        k < SHIPPED_CROPS,
    ensures
        res.0@ == shipped_crop_names(k as int).0,
        res.1@ == shipped_crop_names(k as int).1,
{
    if k == 0 {
        ("radish", "Radish")
    } else if k == 1 {
        ("lettuce", "Lettuce")
    } else if k == 2 {
        ("spinach", "Spinach")
    } else if k == 3 {
        ("carrot", "Carrot")
    } else if k == 4 {
        ("pea", "Pea")
    } else if k == 5 {
        ("bean", "Bean")
    } else if k == 6 {
        ("onion", "Onion")
    } else if k == 7 {
        ("garlic", "Garlic")
    } else if k == 8 {
        ("potato", "Potato")
    } else if k == 9 {
        ("tomato", "Tomato")
    } else if k == 10 {
        ("cucumber", "Cucumber")
    } else if k == 11 {
        ("zucchini", "Zucchini")
    } else if k == 12 {
        ("kale", "Kale")
    } else if k == 13 {
        ("broccoli", "Broccoli")
    } else if k == 14 {
        ("chard", "Chard")
    } else if k == 15 {
        ("celery", "Celery")
    } else if k == 16 {
        ("asparagus", "Asparagus")
    } else if k == 17 {
        ("artichoke", "Artichoke")
    } else if k == 18 {
        ("eggplant", "Eggplant")
    } else if k == 19 {
        ("okra", "Okra")
    } else if k == 20 {
        ("pumpkin", "Pumpkin")
    } else if k == 21 {
        ("squash", "Squash")
    } else if k == 22 {
        ("melon", "Melon")
    } else if k == 23 {
        ("watermelon", "Watermelon")
    } else if k == 24 {
        ("strawberry", "Strawberry")
    } else if k == 25 {
        ("blueberry", "Blueberry")
    } else if k == 26 {
        ("gooseberry", "Gooseberry")
    } else if k == 27 {
        ("corn", "Corn")
    } else if k == 28 {
        ("wheat", "Wheat")
    } else if k == 29 {
        ("barley", "Barley")
    } else if k == 30 {
        ("oats", "Oats")
    } else if k == 31 {
        ("rice", "Rice")
    } else if k == 32 {
        ("rye", "Rye")
    } else if k == 33 {
        ("sunflower", "Sunflower")
    } else if k == 34 {
        ("soybean", "Soybean")
    } else if k == 35 {
        ("millet", "Millet")
    } else if k == 36 {
        ("quinoa", "Quinoa")
    } else if k == 37 {
        ("turnip", "Turnip")
    } else if k == 38 {
        ("yam", "Yam")
    } else if k == 39 {
        ("taro", "Taro")
    } else if k == 40 {
        ("ginger", "Ginger")
    } else if k == 41 {
        ("hops", "Hops")
    } else if k == 42 {
        ("vanilla", "Vanilla")
    } else if k == 43 {
        ("tea", "Tea")
    } else if k == 44 {
        ("nutmeg", "Nutmeg")
    } else if k == 45 {
        ("saffron", "Saffron")
    } else if k == 46 {
        ("fennel", "Fennel")
    } else if k == 47 {
        ("daikon", "Daikon")
    } else if k == 48 {
        ("parsnip", "Parsnip")
    } else {
        ("kohlrabi", "Kohlrabi")
    }
}

/// The stage art of the `p`-th art pattern.
fn stage_art_at(p: usize) -> (res: [[&'static str; 2]; 4])
    requires
        p < 4,
    ensures
        forall|s: int, r: int|
            0 <= s < 4 && 0 <= r < 2 ==> (#[trigger] res[s][r])@ == stage_art_pattern(p as int)[2 * s + r],
{
    let res = if p == 0 {
        [["   ", " . "], [" , ", " | "], ["\\v/", " | "], ["\\|/", "(o)"]]
    } else if p == 1 {
        [["   ", " . "], [" | ", " | "], ["\\|/", " | "], ["{#}", "\\|/"]]
    } else if p == 2 {
        [["   ", " . "], [" v ", " | "], ["\\v/", " | "], ["\\Y/", "(@)"]]
    } else {
        [["   ", " . "], [" o ", " | "], ["(o)", " | "], ["(@)", "(@)"]]
    };
    assert forall|s: int, r: int| 0 <= s < 4 && 0 <= r < 2 implies (#[trigger] res[s][r])@
        == stage_art_pattern(p as int)[2 * s + r] by {
        if s == 0 && r == 0 {} else if s == 0 {} else if s == 1 && r == 0 {} else if s == 1 {}
        else if s == 2 && r == 0 {} else if s == 2 {} else if s == 3 && r == 0 {} else {}
    }
    res
}

/// The colour of the `p`-th art pattern.
fn color_at(p: usize) -> (res: &'static str)
    requires
        p < 4,
    ensures
        res@ == crop_color(p as int),
{
    if p == 0 {
        "red"
    } else if p == 1 {
        "yellow"
    } else if p == 2 {
        "magenta"
    } else {
        "green"
    }
}

/// The `k`-th crop that ships with the game.
fn shipped_crop_at(k: usize) -> (res: CropDefinition)
    requires
        k < SHIPPED_CROPS,
    ensures
        shipped_crop_is(res, k as int),
{
    let (id, name) = shipped_names_at(k);
    let p = k % 4;
    let position = k as u64;
    proof {
        assert(position * position <= 49 * 49) by (nonlinear_arith)
            requires
                position <= 49,
        ;
    }
    crop(
        id,
        name,
        5 * (position + 1),
        20 * position + 15,
        30 + 150 * position,
        100 * (position * position),
        color_at(p),
        stage_art_at(p),
    )
}

/// The shipped crops pass every check of `validate`.
proof fn lemma_shipped_crops_check(cs: Seq<CropDefinition>)
    requires
        cs.len() == SHIPPED_CROPS,
        forall|k: int| 0 <= k < SHIPPED_CROPS ==> shipped_crop_is(#[trigger] cs[k], k),
    ensures
        crop_check(cs) == Ok::<(), DataError>(()),
{
    reveal_strlit("   ");
    reveal_strlit(" , ");
    reveal_strlit(" . ");
    reveal_strlit(" o ");
    reveal_strlit(" v ");
    reveal_strlit(" | ");
    reveal_strlit("(@)");
    reveal_strlit("(o)");
    reveal_strlit("\\Y/");
    reveal_strlit("\\v/");
    reveal_strlit("\\|/");
    reveal_strlit("{#}");
    let ids = crop_ids(cs);
    assert forall|i: int| 0 <= i < SHIPPED_CROPS implies !crop_problem(cs, i) by {
        assert(shipped_crop_is(cs[i], i));
        lemma_shipped_names(i);
        let p = i % 4;
        assert forall|s: int, r: int| 0 <= s < 4 && 0 <= r < 2 implies art_line_ok((#[trigger] cs[i].art[s][r])@) by {
            assert(cs[i].art[s][r]@ == stage_art_pattern(p)[2 * s + r]);
        }
        assert(crop_valid(cs[i]));
        if i > 0 {
            assert(shipped_crop_is(cs[i - 1], i - 1));
            assert((i - 1) * (i - 1) <= i * i) by (nonlinear_arith)
                requires
                    i >= 1,
            ;
            assert(i * i <= 49 * 49) by (nonlinear_arith)
                requires
                    0 <= i < 50,
            ;
            assert(!out_of_order(cs, i));
        }
        if id_seen_before(ids, i) {
            let j = choose|j: int| 0 <= j < i && ids[j] == ids[i];
            lemma_shipped_names(j);
            assert(shipped_crop_is(cs[j], j));
            assert(ids[j] == cs[j].id@);
            assert(ids[i] == cs[i].id@);
            assert(id_key(ids[j]) == id_key(ids[i]));
        }
    }
    assert(!exists|i: int| is_first_crop_problem(cs, i));
}

impl CropCatalog {
    /// The crops that ship with the game, checked by `validate`: radish
    /// first, unlocking no earlier and growing no faster along the list.
    pub fn embedded() -> (res: Result<Self, DataError>)
        ensures
            res is Ok,
            res matches Ok(c) ==> crop_check(c.crops@) == Ok::<(), DataError>(()),
            res matches Ok(c) ==> c.crops@.len() == SHIPPED_CROPS,
            res matches Ok(c) ==> forall|k: int|
                0 <= k < SHIPPED_CROPS ==> shipped_crop_is(#[trigger] c.crops@[k], k),
            res matches Ok(c) ==> c.crops@[0].id@ == "radish"@,
            res matches Ok(c) ==> forall|i: int, j: int|
                0 <= i < j < c.crops@.len() ==> #[trigger] c.crops@[i].unlock_earnings
                    <= #[trigger] c.crops@[j].unlock_earnings,
    {
        let mut crops: Vec<CropDefinition> = Vec::new();
        let mut k: usize = 0;
        while k < SHIPPED_CROPS
            invariant
                k <= SHIPPED_CROPS,
                crops@.len() == k,
                forall|j: int| 0 <= j < k ==> shipped_crop_is(#[trigger] crops@[j], j),
            decreases SHIPPED_CROPS - k,
        {
            crops.push(shipped_crop_at(k));
            k = k + 1;
        }
        let catalog = CropCatalog { crops };
        proof {
            lemma_shipped_crops_check(catalog.crops@);
            assert(shipped_crop_is(catalog.crops@[0], 0));
        }
        catalog.validate()?;
        Ok(catalog)
    }
}

impl UpgradeCatalog {
    /// The machines that ship with the game, checked by `validate`.
    pub fn embedded() -> (res: Result<Self, DataError>)
        ensures
            res is Ok,
            res matches Ok(c) ==> upgrade_check(c.upgrades@) == Ok::<(), DataError>(()),
            res matches Ok(c) ==> ({
                let us = c.upgrades@;
                &&& us.len() == 5
                &&& upgrade_is(us[0], "cultivator"@, "Cultivator"@, UpgradeKind::AutoTill, 100, 0, 15, 5)
                &&& upgrade_is(us[1], "seed_drill"@, "Seed Drill"@, UpgradeKind::AutoSow, 150, 100, 20, 5)
                &&& upgrade_is(us[2], "sprinkler"@, "Sprinkler"@, UpgradeKind::GrowthBoost, 250, 250, 0, 5)
                &&& upgrade_is(us[3], "harvester"@, "Harvester"@, UpgradeKind::AutoHarvest, 400, 500, 20, 5)
                &&& upgrade_is(us[4], "market_stall"@, "Market Stall"@, UpgradeKind::AutoSell, 600, 1000, 30, 5)
            }),
    {
        let mut upgrades: Vec<UpgradeDefinition> = Vec::new();
        upgrades.push(upgrade("cultivator", "Cultivator", UpgradeKind::AutoTill, 100, 0, 15, 5));
        upgrades.push(upgrade("seed_drill", "Seed Drill", UpgradeKind::AutoSow, 150, 100, 20, 5));
        upgrades.push(upgrade("sprinkler", "Sprinkler", UpgradeKind::GrowthBoost, 250, 250, 0, 5));
        upgrades.push(upgrade("harvester", "Harvester", UpgradeKind::AutoHarvest, 400, 500, 20, 5));
        upgrades.push(upgrade("market_stall", "Market Stall", UpgradeKind::AutoSell, 600, 1000, 30, 5));
        let catalog = UpgradeCatalog { upgrades };
        proof {
            reveal_strlit("Cultivator");
            reveal_strlit("Harvester");
            reveal_strlit("Market Stall");
            reveal_strlit("Seed Drill");
            reveal_strlit("Sprinkler");
            reveal_strlit("cultivator");
            reveal_strlit("harvester");
            reveal_strlit("market_stall");
            reveal_strlit("seed_drill");
            reveal_strlit("sprinkler");
            let us = catalog.upgrades@;
            let ids = upgrade_ids(us);
            assert forall|i: int| 0 <= i < 5 implies upgrade_valid(#[trigger] us[i]) by {
            }
            assert forall|i: int, j: int| 0 <= j < i < 5 implies ids[j] != ids[i] by {
                assert(ids[i] == us[i].id@);
                assert(ids[j] == us[j].id@);
                assert(ids[0] == "cultivator"@ && ids[1] == "seed_drill"@ && ids[2] == "sprinkler"@);
                assert(ids[3] == "harvester"@ && ids[4] == "market_stall"@);
                assert(ids[0].len() == 10 && ids[1].len() == 10 && ids[2].len() == 9);
                assert(ids[3].len() == 9 && ids[4].len() == 12);
                assert(ids[0][0] == 'c' && ids[1][0] == 's' && ids[2][0] == 's' && ids[3][0] == 'h');
            }
            assert forall|i: int| 0 <= i < 5 implies !upgrade_problem(us, i) by {
                assert(upgrade_valid(us[i]));
                if id_seen_before(ids, i) {
                    let j = choose|j: int| 0 <= j < i && ids[j] == ids[i];
                    assert(ids[j] != ids[i]);
                }
            }
            assert(!exists|i: int| is_first_upgrade_problem(us, i));
        }
        catalog.validate()?;
        Ok(catalog)
    }
}

} // verus!
