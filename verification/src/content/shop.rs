//! Shop definitions, the rules market prices follow, and the shops file.

use vstd::prelude::*;

use crate::calendar::date::{Season, Weekday, date_of_day};
use crate::calendar::time::{
    ClockTime, DAWN_HOUR, WorldTime, clock_after_dawn, is_clock_time, parsed_clock,
};
use crate::content::error::{Context, MarketFault, Problem, ShopFault};
use crate::content::item::{ItemId, Items, MAX_DEFINITIONS, Quality, item_id_of};
use crate::content::lookup::{
    first_index, first_index_facts, first_where, first_where_finds_the_first, first_where_prefix,
    first_where_step, position, position_of, texts,
};
use crate::content::number::{Number, at_least, between, one, positive, zero};
use crate::content::paths::{check_models, models_fault};
use crate::content::people::{Look, look_fault};

verus! {

/// Refers to a shop definition within a catalog, like [`ItemId`] does for
/// items.
#[derive(Clone, Copy, Debug, PartialEq, Eq, Hash, PartialOrd, Ord, Structural)]
pub struct ShopId(pub u16);

/// An item a shop buys, and its base price per unit before the market moves
/// it.
#[derive(Clone, Copy, Debug, PartialEq, Eq, Structural)]
pub struct Offer {
    pub item: ItemId,
    pub base_price: u32,
}

/// An item a shop sells, at a fixed price.
#[derive(Debug, PartialEq, Eq)]
pub struct Listing {
    pub item: ItemId,
    pub price: u32,
    /// Seasons it is on sale in; all year if `None`.
    pub seasons: Option<Vec<Season>>,
}

/// Everything the game knows about one shop.
#[derive(Debug, PartialEq, Eq)]
pub struct ShopDef {
    /// The id used in data files, such as `"grocer"`.
    pub key: String,
    pub name: String,
    pub opens: ClockTime,
    pub closes: ClockTime,
    pub closed_on: Vec<Weekday>,
    /// Most units of each item one player can sell the shop in a day.
    pub daily_limit: u16,
    /// What the shop buys, at what base price per unit.
    pub buys: Vec<Offer>,
    /// What the shop sells.
    pub sells: Vec<Listing>,
    /// Model the stall is drawn with, relative to the models folder.
    pub stall: String,
    /// How whoever keeps the shop is dressed.
    pub keeper: Look,
}

/// How the prices shops pay move. One set of rules applies to every shop on a
/// server.
#[derive(Clone, Copy, Debug, PartialEq, Eq, Structural)]
pub struct MarketRules {
    /// Produce sells for this many times its base price outside the seasons
    /// its crop grows in, when it is scarce.
    pub off_season_markup: Number,
    /// Units of an item sold across the server that halve its price.
    pub halves_after: Number,
    /// Share of an item's saturation that fades each night.
    pub daily_recovery: Number,
    /// Price multipliers for better harvests.
    pub silver_bonus: Number,
    pub gold_bonus: Number,
}

/// An item a shop sells, as written in the shops file.
#[derive(Debug, PartialEq, Eq)]
pub struct ListingEntry {
    pub item: String,
    pub price: u32,
    pub seasons: Option<Vec<Season>>,
}

/// A shop as written in the shops file.
#[derive(Debug, PartialEq, Eq)]
pub struct ShopEntry {
    pub id: String,
    pub name: String,
    pub opens: String,
    pub closes: String,
    pub closed_on: Vec<Weekday>,
    pub daily_limit: u16,
    pub buys: Vec<(String, u32)>,
    pub sells: Vec<ListingEntry>,
    pub stall: String,
    pub keeper: Look,
}

/// The shops file as written.
#[derive(Debug, PartialEq, Eq)]
pub struct ShopsFile {
    pub market: MarketRules,
    pub shops: Vec<ShopEntry>,
}

/// Shops with their references resolved.
#[derive(Debug, PartialEq, Eq)]
pub struct Shops {
    pub market: MarketRules,
    pub definitions: Vec<ShopDef>,
    /// The key of each definition, in the same order.
    pub keys: Vec<String>,
}

/// Whether `a` is earlier than `b` on a clock.
pub open spec fn clock_before(a: ClockTime, b: ClockTime) -> bool {
    a.hour < b.hour || (a.hour == b.hour && a.minute < b.minute)
}

/// Whether `listing` is on sale in `season`.
pub open spec fn on_sale(listing: Listing, season: Season) -> bool {
    match listing.seasons {
        None => true,
        Some(seasons) => seasons@.contains(season),
    }
}

/// Whether `shop` trades at `time`: not on a day it closes, and from its
/// opening time up to its closing time.
pub open spec fn open_at(shop: ShopDef, time: WorldTime) -> bool {
    let clock = clock_after_dawn(time.spec_minute() as nat);
    &&& !shop.closed_on@.contains(date_of_day(time.spec_day() as nat).weekday)
    &&& !clock_before(clock, shop.opens)
    &&& clock_before(clock, shop.closes)
}

/// A listing without seasons is on sale all year; one with seasons is on
/// sale in a season exactly when the season is one of them, wherever it
/// stands among them.
pub proof fn listings_sell_in_their_seasons(listing: Listing, season: Season)
    ensures
        listing.seasons is None ==> on_sale(listing, season),
        listing.seasons matches Some(seasons) ==> (on_sale(listing, season) <==> exists|i: int|
            0 <= i < seasons@.len() && seasons@[i] == season),
        listing.seasons matches Some(seasons) ==> forall|i: int|
            0 <= i < seasons@.len() && #[trigger] seasons@[i] == season ==> on_sale(listing, season),
{
    if let Some(seasons) = listing.seasons {
        assert forall|i: int| 0 <= i < seasons@.len() && #[trigger] seasons@[i] == season implies on_sale(
            listing,
            season,
        ) by {
            assert(seasons@.contains(season));
        }
    }
}

/// A shop is shut all day on the weekdays it closes. On other days it is
/// open exactly from its opening time up to, not including, its closing
/// time, counting the wall clock in minutes since midnight.
pub proof fn shops_keep_their_hours(shop: ShopDef, time: WorldTime)
    requires
        is_clock_time(shop.opens),
        is_clock_time(shop.closes),
    ensures
        shop.closed_on@.contains(date_of_day(time.spec_day() as nat).weekday) ==> !open_at(shop, time),
        !shop.closed_on@.contains(date_of_day(time.spec_day() as nat).weekday) ==> (open_at(shop, time)
            <==> {
            let clock = clock_after_dawn(time.spec_minute() as nat);
            let now = clock.hour * 60 + clock.minute;
            &&& shop.opens.hour * 60 + shop.opens.minute <= now
            &&& now < shop.closes.hour * 60 + shop.closes.minute
        }),
{
    let minutes: int = ((DAWN_HOUR as int) * 60 + time.spec_minute() as int) % 1440int;
    assert(0 <= minutes % 60 < 60);
    assert(clock_after_dawn(time.spec_minute() as nat).minute < 60);
}

/// What is wrong with the market rules, if anything.
pub open spec fn market_fault(market: MarketRules) -> Option<MarketFault> {
    if !at_least(market.off_season_markup, one()) {
        Some(MarketFault::Markup)
    } else if !positive(market.halves_after) {
        Some(MarketFault::Halving)
    } else if !between(market.daily_recovery, zero(), one()) {
        Some(MarketFault::Recovery)
    } else if !at_least(market.silver_bonus, one()) || !at_least(market.gold_bonus, market.silver_bonus) {
        Some(MarketFault::Bonuses)
    } else {
        None
    }
}

/// The price multiplier for goods of `quality` under `market`.
pub open spec fn bonus(market: MarketRules, quality: Quality) -> Number {
    match quality {
        Quality::Normal => one(),
        Quality::Silver => market.silver_bonus,
        Quality::Gold => market.gold_bonus,
    }
}

/// Whether `listing` is on sale in no season at all.
pub open spec fn on_sale_in_no_season(listing: ListingEntry) -> bool {
    match listing.seasons {
        Some(seasons) => seasons@.len() == 0,
        None => false,
    }
}

/// Whether two of `ids` are the same.
pub open spec fn has_repeat(ids: Seq<ItemId>) -> bool {
    exists|i: int, j: int| 0 <= i < j < ids.len() && ids[i] == ids[j]
}

/// The items a shop entry buys, resolved among items keyed `keys`.
pub open spec fn bought_ids(keys: Seq<Seq<char>>, entry: ShopEntry) -> Seq<ItemId> {
    entry.buys@.map_values(|offer: (String, u32)| item_id_of(keys, offer.0@))
}

/// The items a shop entry sells, resolved among items keyed `keys`.
pub open spec fn sold_ids(keys: Seq<Seq<char>>, entry: ShopEntry) -> Seq<ItemId> {
    entry.sells@.map_values(|listing: ListingEntry| item_id_of(keys, listing.item@))
}

/// What is wrong with the valid shop entry `entry` once its items and
/// times are resolved, if anything.
pub open spec fn shop_fault(keys: Seq<Seq<char>>, entry: ShopEntry) -> Option<ShopFault> {
    let opens = parsed_clock(entry.opens@).unwrap();
    let closes = parsed_clock(entry.closes@).unwrap();
    if clock_before(opens, ClockTime { hour: 6, minute: 0 }) || !clock_before(opens, closes) {
        Some(ShopFault::Hours)
    } else if entry.daily_limit == 0 {
        Some(ShopFault::DailyLimit)
    } else if models_fault(seq![entry.stall]) is Some {
        Some(ShopFault::Stall)
    } else if look_fault(entry.keeper) is Some {
        Some(ShopFault::Keeper(look_fault(entry.keeper).unwrap()))
    } else if (exists|i: int| 0 <= i < entry.buys@.len() && (#[trigger] entry.buys@[i]).1 == 0)
        || (exists|i: int| 0 <= i < entry.sells@.len() && (#[trigger] entry.sells@[i]).price == 0) {
        Some(ShopFault::Price)
    } else if exists|i: int| 0 <= i < entry.sells@.len() && on_sale_in_no_season(#[trigger] entry.sells@[i]) {
        Some(ShopFault::NoSeason)
    } else if has_repeat(bought_ids(keys, entry)) || has_repeat(sold_ids(keys, entry)) {
        Some(ShopFault::Twice)
    } else {
        None
    }
}

/// Whether the bought item `offer` is unknown among items keyed `keys`.
pub open spec fn unknown_buy(keys: Seq<Seq<char>>) -> spec_fn((String, u32)) -> bool {
    |offer: (String, u32)| position_of(keys, offer.0@) is None
}

/// Whether the sold item `listing` is unknown among items keyed `keys`.
pub open spec fn unknown_sale(keys: Seq<Seq<char>>) -> spec_fn(ListingEntry) -> bool {
    |listing: ListingEntry| position_of(keys, listing.item@) is None
}

/// The keys of the shops `entries`, in order.
pub open spec fn shop_keys(entries: Seq<ShopEntry>) -> Seq<Seq<char>> {
    entries.map_values(|entry: ShopEntry| entry.id@)
}

/// What is wrong with the `i`th shop of `entries` among items keyed `keys`,
/// if anything: its key defined before, an unknown item it buys, then one
/// it sells, an opening then a closing time that is not a clock time, or a
/// fault of the resolved shop.
pub open spec fn shop_problem(keys: Seq<Seq<char>>, entries: Seq<ShopEntry>, i: int) -> Option<Problem> {
    let entry = entries[i];
    if position_of(shop_keys(entries.take(i)), entry.id@) is Some {
        Some(Problem::DuplicateShop(entry.id))
    } else if first_where(entry.buys@, unknown_buy(keys)) is Some {
        Some(Problem::UnknownItem {
            context: Context::Shop(entry.id),
            item: entry.buys@[first_where(entry.buys@, unknown_buy(keys)).unwrap() as int].0,
        })
    } else if first_where(entry.sells@, unknown_sale(keys)) is Some {
        Some(Problem::UnknownItem {
            context: Context::Shop(entry.id),
            item: entry.sells@[first_where(entry.sells@, unknown_sale(keys)).unwrap() as int].item,
        })
    } else if parsed_clock(entry.opens@) is None {
        Some(Problem::InvalidShop { shop: entry.id, fault: ShopFault::NotATime(entry.opens) })
    } else if parsed_clock(entry.closes@) is None {
        Some(Problem::InvalidShop { shop: entry.id, fault: ShopFault::NotATime(entry.closes) })
    } else if shop_fault(keys, entry) is Some {
        Some(Problem::InvalidShop { shop: entry.id, fault: shop_fault(keys, entry).unwrap() })
    } else {
        None
    }
}

/// Whether the shop at position `i` has a problem.
pub open spec fn faulty_shop(keys: Seq<Seq<char>>, entries: Seq<ShopEntry>) -> spec_fn(nat) -> bool {
    |i: nat| shop_problem(keys, entries, i as int) is Some
}

/// The first problem of the shops file `file` among the items `items`:
/// invalid market rules, then the first shop with a problem.
pub open spec fn shops_problem(keys: Seq<Seq<char>>, file: ShopsFile) -> Option<Problem> {
    if market_fault(file.market) is Some {
        Some(Problem::InvalidMarket(market_fault(file.market).unwrap()))
    } else if first_index(file.shops@.len(), faulty_shop(keys, file.shops@)) is Some {
        shop_problem(keys, file.shops@, first_index(file.shops@.len(), faulty_shop(keys, file.shops@)).unwrap() as int)
    } else {
        None
    }
}

/// The listing that the valid `listing` resolves to among items keyed
/// `keys`.
pub open spec fn listing_def(keys: Seq<Seq<char>>, listing: ListingEntry) -> Listing {
    Listing { item: item_id_of(keys, listing.item@), price: listing.price, seasons: listing.seasons }
}

/// Whether `shop` is what the valid shop `entry` resolves to among items
/// keyed `keys`.
pub open spec fn resolved_shop(shop: ShopDef, keys: Seq<Seq<char>>, entry: ShopEntry) -> bool {
    &&& shop.key == entry.id
    &&& shop.name == entry.name
    &&& Some(shop.opens) == parsed_clock(entry.opens@)
    &&& Some(shop.closes) == parsed_clock(entry.closes@)
    &&& shop.closed_on == entry.closed_on
    &&& shop.daily_limit == entry.daily_limit
    &&& shop.buys@ == entry.buys@.map_values(
        |offer: (String, u32)| Offer { item: item_id_of(keys, offer.0@), base_price: offer.1 },
    )
    &&& shop.sells@ == entry.sells@.map_values(|listing: ListingEntry| listing_def(keys, listing))
    &&& shop.stall == entry.stall
    &&& shop.keeper == entry.keeper
}

impl Listing {
    /// Whether the item is on sale in `season`.
    pub fn on_sale_in(&self, season: Season) -> (sold: bool)
        ensures
            sold == on_sale(*self, season),
    {
        match &self.seasons {
            None => true,
            Some(seasons) => {
                let mut i: usize = 0;
                while i < seasons.len()
                    invariant
                        i <= seasons@.len(),
                        self.seasons == Some(*seasons),
                        forall|j: int| 0 <= j < i ==> seasons@[j] != season,
                    decreases seasons@.len() - i,
                {
                    if seasons[i] == season {
                        assert(seasons@[i as int] == season);
                        assert(seasons@.contains(season));
                        return true;
                    }
                    i = i + 1;
                }
                false
            },
        }
    }
}

impl ShopDef {
    /// Whether the shop trades at `time`.
    pub fn is_open(&self, time: WorldTime) -> (open: bool)
        ensures
            open == open_at(*self, time),
    {
        let clock = time.clock();
        let weekday = time.date().weekday;
        let mut i: usize = 0;
        while i < self.closed_on.len()
            invariant
                i <= self.closed_on@.len(),
                weekday == date_of_day(time.spec_day() as nat).weekday,
                forall|j: int| 0 <= j < i ==> self.closed_on@[j] != weekday,
            decreases self.closed_on@.len() - i,
        {
            if self.closed_on[i] == weekday {
                assert(self.closed_on@[i as int] == weekday);
                assert(self.closed_on@.contains(weekday));
                return false;
            }
            i = i + 1;
        }
        let after_opening = !(clock.hour < self.opens.hour || (clock.hour == self.opens.hour
            && clock.minute < self.opens.minute));
        let before_closing = clock.hour < self.closes.hour || (clock.hour == self.closes.hour
            && clock.minute < self.closes.minute);
        after_opening && before_closing
    }

    /// What the shop pays for `item`, if it buys it at all: its first offer
    /// for the item.
    pub fn offer(&self, item: ItemId) -> (offer: Option<Offer>)
        ensures
            offer is None <==> forall|i: int| 0 <= i < self.buys@.len() ==> (#[trigger] self.buys@[i]).item != item,
            offer matches Some(found) ==> exists|i: int| 0 <= i < self.buys@.len() && found == #[trigger] self.buys@[i]
                && found.item == item && forall|j: int| 0 <= j < i ==> (#[trigger] self.buys@[j]).item != item,
    {
        let mut i: usize = 0;
        while i < self.buys.len()
            invariant
                i <= self.buys@.len(),
                forall|j: int| 0 <= j < i ==> (#[trigger] self.buys@[j]).item != item,
            decreases self.buys@.len() - i,
        {
            if self.buys[i].item == item {
                return Some(self.buys[i]);
            }
            i = i + 1;
        }
        None
    }

    /// How the shop sells `item`, if it sells it at all: its first listing
    /// of the item.
    pub fn listing(&self, item: ItemId) -> (listing: Option<&Listing>)
        ensures
            listing is None <==> forall|i: int| 0 <= i < self.sells@.len() ==> (#[trigger] self.sells@[i]).item != item,
            listing matches Some(found) ==> exists|i: int| 0 <= i < self.sells@.len() && *found == #[trigger] self.sells@[i]
                && found.item == item && forall|j: int| 0 <= j < i ==> (#[trigger] self.sells@[j]).item != item,
    {
        let mut i: usize = 0;
        while i < self.sells.len()
            invariant
                i <= self.sells@.len(),
                forall|j: int| 0 <= j < i ==> (#[trigger] self.sells@[j]).item != item,
            decreases self.sells@.len() - i,
        {
            if self.sells[i].item == item {
                return Some(&self.sells[i]);
            }
            i = i + 1;
        }
        None
    }
}

impl MarketRules {
    /// The price multiplier for goods of `quality`.
    pub fn quality_bonus(&self, quality: Quality) -> (multiplier: Number)
        ensures
            multiplier == bonus(*self, quality),
    {
        match quality {
            Quality::Normal => Number::one(),
            Quality::Silver => self.silver_bonus,
            Quality::Gold => self.gold_bonus,
        }
    }

    /// Checks the rules: a markup of at least 1, a positive number of sales
    /// to halve prices, a recovery between 0 and 1, and bonuses of at least
    /// 1 that grow with quality. A missing number (NaN) fails every check.
    pub fn validate(&self) -> (checked: Result<(), MarketFault>)
        ensures
            checked is Ok <==> market_fault(*self) is None,
            checked matches Err(fault) ==> market_fault(*self) == Some(fault),
    {
        if !self.off_season_markup.at_least(Number::one()) {
            return Err(MarketFault::Markup);
        }
        if !self.halves_after.positive() {
            return Err(MarketFault::Halving);
        }
        if !self.daily_recovery.between(Number::zero(), Number::one()) {
            return Err(MarketFault::Recovery);
        }
        if !self.silver_bonus.at_least(Number::one()) || !self.gold_bonus.at_least(self.silver_bonus) {
            return Err(MarketFault::Bonuses);
        }
        Ok(())
    }
}

/// Whether two of `ids` are the same.
fn repeats(ids: &Vec<ItemId>) -> (repeat: bool)
    ensures
        repeat == has_repeat(ids@),
{
    let mut j: usize = 0;
    while j < ids.len()
        invariant
            j <= ids@.len(),
            forall|a: int, b: int| 0 <= a < b < j ==> ids@[a] != ids@[b],
        decreases ids@.len() - j,
    {
        let mut i: usize = 0;
        while i < j
            invariant
                i <= j < ids@.len(),
                forall|a: int, b: int| 0 <= a < b < j ==> ids@[a] != ids@[b],
                forall|a: int| 0 <= a < i ==> ids@[a] != ids@[j as int],
            decreases j - i,
        {
            if ids[i] == ids[j] {
                return true;
            }
            i = i + 1;
        }
        j = j + 1;
    }
    false
}

/// The items `entry` buys, then the items it sells, resolved among
/// `items`, when all of them are known.
fn traded_ids(items: &Items, entry: &ShopEntry) -> (ids: (Vec<ItemId>, Vec<ItemId>))
    requires
        items.keys@.len() <= MAX_DEFINITIONS,
        first_where(entry.buys@, unknown_buy(texts(items.keys@))) is None,
        first_where(entry.sells@, unknown_sale(texts(items.keys@))) is None,
    ensures
        ids.0@ == bought_ids(texts(items.keys@), *entry),
        ids.1@ == sold_ids(texts(items.keys@), *entry),
{
    let ghost keys = texts(items.keys@);
    proof {
        first_where_finds_the_first(entry.buys@, unknown_buy(keys));
        first_where_finds_the_first(entry.sells@, unknown_sale(keys));
    }
    let mut bought: Vec<ItemId> = Vec::new();
    let mut i: usize = 0;
    while i < entry.buys.len()
        invariant
            i <= entry.buys@.len(),
            keys == texts(items.keys@),
            items.keys@.len() <= MAX_DEFINITIONS,
            forall|j: int| 0 <= j < entry.buys@.len() ==> !unknown_buy(keys)(#[trigger] entry.buys@[j]),
            bought@ == entry.buys@.take(i as int).map_values(|offer: (String, u32)| item_id_of(keys, offer.0@)),
        decreases entry.buys@.len() - i,
    {
        let found = items.resolve(Context::Shop(entry.id.clone()), &entry.buys[i].0);
        assert(!unknown_buy(keys)(entry.buys@[i as int]));
        bought.push(found.unwrap());
        assert(entry.buys@.take(i + 1).map_values(|offer: (String, u32)| item_id_of(keys, offer.0@))
            =~= entry.buys@.take(i as int).map_values(|offer: (String, u32)| item_id_of(keys, offer.0@)).push(
            item_id_of(keys, entry.buys@[i as int].0@)));
        i = i + 1;
    }
    assert(entry.buys@.take(i as int) =~= entry.buys@);
    let mut sold: Vec<ItemId> = Vec::new();
    let mut i: usize = 0;
    while i < entry.sells.len()
        invariant
            i <= entry.sells@.len(),
            keys == texts(items.keys@),
            items.keys@.len() <= MAX_DEFINITIONS,
            forall|j: int| 0 <= j < entry.sells@.len() ==> !unknown_sale(keys)(#[trigger] entry.sells@[j]),
            sold@ == entry.sells@.take(i as int).map_values(|listing: ListingEntry| item_id_of(keys, listing.item@)),
        decreases entry.sells@.len() - i,
    {
        let found = items.resolve(Context::Shop(entry.id.clone()), &entry.sells[i].item);
        assert(!unknown_sale(keys)(entry.sells@[i as int]));
        sold.push(found.unwrap());
        assert(entry.sells@.take(i + 1).map_values(|listing: ListingEntry| item_id_of(keys, listing.item@))
            =~= entry.sells@.take(i as int).map_values(|listing: ListingEntry| item_id_of(keys, listing.item@)).push(
            item_id_of(keys, entry.sells@[i as int].item@)));
        i = i + 1;
    }
    assert(entry.sells@.take(i as int) =~= entry.sells@);
    (bought, sold)
}

/// What is wrong with the resolved shop `entry`, opening at `opens` and
/// closing at `closes`, if anything.
#[verifier::loop_isolation(false)]
fn check_shop(items: &Items, entry: &ShopEntry, opens: ClockTime, closes: ClockTime) -> (fault: Option<ShopFault>)
    requires
        items.keys@.len() <= MAX_DEFINITIONS,
        first_where(entry.buys@, unknown_buy(texts(items.keys@))) is None,
        first_where(entry.sells@, unknown_sale(texts(items.keys@))) is None,
        parsed_clock(entry.opens@) == Some(opens),
        parsed_clock(entry.closes@) == Some(closes),
    ensures
        fault == shop_fault(texts(items.keys@), *entry),
{
    if opens.hour < 6 || !(opens.hour < closes.hour || (opens.hour == closes.hour && opens.minute < closes.minute)) {
        return Some(ShopFault::Hours);
    }
    if entry.daily_limit == 0 {
        return Some(ShopFault::DailyLimit);
    }
    let stall = vec![entry.stall.clone()];
    assert(stall@ =~= seq![entry.stall]);
    if check_models(&stall).is_err() {
        return Some(ShopFault::Stall);
    }
    if let Err(fault) = entry.keeper.validate() {
        return Some(ShopFault::Keeper(fault));
    }
    let mut i: usize = 0;
    while i < entry.buys.len()
        invariant
            i <= entry.buys@.len(),
            forall|j: int| 0 <= j < i ==> (#[trigger] entry.buys@[j]).1 != 0,
        decreases entry.buys@.len() - i,
    {
        if entry.buys[i].1 == 0 {
            return Some(ShopFault::Price);
        }
        i = i + 1;
    }
    let mut i: usize = 0;
    while i < entry.sells.len()
        invariant
            i <= entry.sells@.len(),
            forall|j: int| 0 <= j < i ==> (#[trigger] entry.sells@[j]).price != 0,
        decreases entry.sells@.len() - i,
    {
        if entry.sells[i].price == 0 {
            return Some(ShopFault::Price);
        }
        i = i + 1;
    }
    let mut i: usize = 0;
    while i < entry.sells.len()
        invariant
            i <= entry.sells@.len(),
            forall|j: int| 0 <= j < i ==> !on_sale_in_no_season(#[trigger] entry.sells@[j]),
        decreases entry.sells@.len() - i,
    {
        let none = match &entry.sells[i].seasons {
            Some(seasons) => seasons.len() == 0,
            None => false,
        };
        if none {
            assert(on_sale_in_no_season(entry.sells@[i as int]));
            return Some(ShopFault::NoSeason);
        }
        i = i + 1;
    }
    let (bought, sold) = traded_ids(items, entry);
    if repeats(&bought) || repeats(&sold) {
        return Some(ShopFault::Twice);
    }
    None
}

/// The first item `entry` buys, then sells, that no item of `items` is.
fn unknown_item(items: &Items, entry: &ShopEntry) -> (unknown: Option<String>)
    requires
        items.keys@.len() <= MAX_DEFINITIONS,
    ensures
        unknown is None <==> first_where(entry.buys@, unknown_buy(texts(items.keys@))) is None
            && first_where(entry.sells@, unknown_sale(texts(items.keys@))) is None,
        unknown matches Some(key) ==> (if first_where(entry.buys@, unknown_buy(texts(items.keys@))) is Some {
            key == entry.buys@[first_where(entry.buys@, unknown_buy(texts(items.keys@))).unwrap() as int].0
        } else {
            key == entry.sells@[first_where(entry.sells@, unknown_sale(texts(items.keys@))).unwrap() as int].item
        }),
{
    let ghost keys = texts(items.keys@);
    let mut i: usize = 0;
    while i < entry.buys.len()
        invariant
            i <= entry.buys@.len(),
            keys == texts(items.keys@),
            first_where(entry.buys@.take(i as int), unknown_buy(keys)) is None,
        decreases entry.buys@.len() - i,
    {
        proof {
            first_where_step(entry.buys@, unknown_buy(keys), i as nat);
        }
        if position(&items.keys, entry.buys[i].0.as_str()).is_none() {
            proof {
                first_where_prefix(entry.buys@, unknown_buy(keys), (i + 1) as nat);
            }
            return Some(entry.buys[i].0.clone());
        }
        i = i + 1;
    }
    proof {
        first_where_prefix(entry.buys@, unknown_buy(keys), i as nat);
    }
    let mut i: usize = 0;
    while i < entry.sells.len()
        invariant
            i <= entry.sells@.len(),
            keys == texts(items.keys@),
            first_where(entry.buys@, unknown_buy(keys)) is None,
            first_where(entry.sells@.take(i as int), unknown_sale(keys)) is None,
        decreases entry.sells@.len() - i,
    {
        proof {
            first_where_step(entry.sells@, unknown_sale(keys), i as nat);
        }
        if position(&items.keys, entry.sells[i].item.as_str()).is_none() {
            proof {
                first_where_prefix(entry.sells@, unknown_sale(keys), (i + 1) as nat);
            }
            return Some(entry.sells[i].item.clone());
        }
        i = i + 1;
    }
    proof {
        first_where_prefix(entry.sells@, unknown_sale(keys), i as nat);
    }
    None
}

/// What is wrong with the `i`th shop of `entries` among `items`, given the
/// keys of the shops before it.
fn check_shop_entry(items: &Items, entries: &Vec<ShopEntry>, keys: &Vec<String>, i: usize) -> (problem: Option<Problem>)
    requires
        items.keys@.len() <= MAX_DEFINITIONS,
        i < entries@.len(),
        texts(keys@) == shop_keys(entries@.take(i as int)),
    ensures
        problem == shop_problem(texts(items.keys@), entries@, i as int),
{
    let entry = &entries[i];
    if position(keys, entry.id.as_str()).is_some() {
        return Some(Problem::DuplicateShop(entry.id.clone()));
    }
    if let Some(item) = unknown_item(items, entry) {
        return Some(Problem::UnknownItem { context: Context::Shop(entry.id.clone()), item });
    }
    let opens = match ClockTime::parse(entry.opens.as_str()) {
        Ok(opens) => opens,
        Err(_) => return Some(Problem::InvalidShop {
            shop: entry.id.clone(),
            fault: ShopFault::NotATime(entry.opens.clone()),
        }),
    };
    let closes = match ClockTime::parse(entry.closes.as_str()) {
        Ok(closes) => closes,
        Err(_) => return Some(Problem::InvalidShop {
            shop: entry.id.clone(),
            fault: ShopFault::NotATime(entry.closes.clone()),
        }),
    };
    match check_shop(items, entry, opens, closes) {
        Some(fault) => Some(Problem::InvalidShop { shop: entry.id.clone(), fault }),
        None => None,
    }
}

/// The shop that the valid `entry` resolves to among `items`.
fn resolve_shop(items: &Items, entry: ShopEntry) -> (shop: ShopDef)
    requires
        items.keys@.len() <= MAX_DEFINITIONS,
        first_where(entry.buys@, unknown_buy(texts(items.keys@))) is None,
        first_where(entry.sells@, unknown_sale(texts(items.keys@))) is None,
        parsed_clock(entry.opens@) is Some,
        parsed_clock(entry.closes@) is Some,
    ensures
        resolved_shop(shop, texts(items.keys@), entry),
{
    let ghost keys = texts(items.keys@);
    let ghost given = entry;
    proof {
        first_where_finds_the_first(entry.buys@, unknown_buy(keys));
        first_where_finds_the_first(entry.sells@, unknown_sale(keys));
    }
    let opens = ClockTime::parse(entry.opens.as_str()).unwrap();
    let closes = ClockTime::parse(entry.closes.as_str()).unwrap();
    let mut buys: Vec<Offer> = Vec::new();
    let mut i: usize = 0;
    while i < entry.buys.len()
        invariant
            i <= entry.buys@.len(),
            keys == texts(items.keys@),
            items.keys@.len() <= MAX_DEFINITIONS,
            forall|j: int| 0 <= j < entry.buys@.len() ==> !unknown_buy(keys)(#[trigger] entry.buys@[j]),
            buys@ == entry.buys@.take(i as int).map_values(
                |offer: (String, u32)| Offer { item: item_id_of(keys, offer.0@), base_price: offer.1 },
            ),
        decreases entry.buys@.len() - i,
    {
        assert(!unknown_buy(keys)(entry.buys@[i as int]));
        let item = items.resolve(Context::Shop(entry.id.clone()), &entry.buys[i].0).unwrap();
        buys.push(Offer { item, base_price: entry.buys[i].1 });
        assert(entry.buys@.take(i + 1).map_values(|offer: (String, u32)| Offer { item: item_id_of(keys, offer.0@), base_price: offer.1 })
            =~= entry.buys@.take(i as int).map_values(|offer: (String, u32)| Offer { item: item_id_of(keys, offer.0@), base_price: offer.1 }).push(
            Offer { item: item_id_of(keys, entry.buys@[i as int].0@), base_price: entry.buys@[i as int].1 }));
        i = i + 1;
    }
    assert(entry.buys@.take(i as int) =~= entry.buys@);
    let ShopEntry { id, name, opens: _, closes: _, closed_on, daily_limit, buys: _, sells: mut listings, stall, keeper } = entry;
    let ghost all = listings@;
    let count = listings.len();
    let mut sells: Vec<Listing> = Vec::new();
    let mut n: usize = 0;
    while listings.len() > 0
        invariant
            all == given.sells@,
            all.len() == count,
            n <= all.len(),
            listings@ == all.skip(n as int),
            keys == texts(items.keys@),
            items.keys@.len() <= MAX_DEFINITIONS,
            forall|j: int| 0 <= j < all.len() ==> !unknown_sale(keys)(#[trigger] all[j]),
            sells@ == all.take(n as int).map_values(|listing: ListingEntry| listing_def(keys, listing)),
        decreases listings.len(),
    {
        let listing = listings.remove(0);
        assert(listing == all[n as int]);
        assert(!unknown_sale(keys)(all[n as int]));
        let item = items.resolve(Context::Shop(id.clone()), &listing.item).unwrap();
        sells.push(Listing { item, price: listing.price, seasons: listing.seasons });
        assert(all.skip(n as int).drop_first() =~= all.skip(n + 1));
        assert(all.take(n + 1).map_values(|listing: ListingEntry| listing_def(keys, listing))
            =~= all.take(n as int).map_values(|listing: ListingEntry| listing_def(keys, listing)).push(
            listing_def(keys, all[n as int])));
        n = n + 1;
    }
    assert(all.take(n as int) =~= all);
    ShopDef { key: id, name, opens, closes, closed_on, daily_limit, buys, sells, stall, keeper }
}

impl ShopsFile {
    /// Resolves each shop's items and checks every shop and the market rules.
    pub fn resolve(self, items: &Items) -> (resolved: Result<Shops, Problem>)
        requires
            items.wf(),
            self.shops@.len() <= MAX_DEFINITIONS,
        ensures
            resolved is Err <==> shops_problem(texts(items.keys@), self) is Some,
            resolved matches Err(problem) ==> shops_problem(texts(items.keys@), self) == Some(problem),
            resolved matches Ok(shops) ==> {
                &&& shops.market == self.market
                &&& shops.definitions@.len() == self.shops@.len()
                &&& forall|i: int| 0 <= i < self.shops@.len() ==> resolved_shop(
                    #[trigger] shops.definitions@[i],
                    texts(items.keys@),
                    self.shops@[i],
                )
                &&& shops.keys@ == self.shops@.map_values(|entry: ShopEntry| entry.id)
                &&& texts(shops.keys@) == shop_keys(self.shops@)
            },
    {
        let ghost file = self;
        let ghost keys_spec = texts(items.keys@);
        let ShopsFile { market, shops: mut entries } = self;
        if let Err(fault) = market.validate() {
            return Err(Problem::InvalidMarket(fault));
        }
        let ghost all = entries@;
        let ghost faulty = faulty_shop(keys_spec, all);
        let mut keys: Vec<String> = Vec::new();
        let mut i: usize = 0;
        while i < entries.len()
            invariant
                i <= entries@.len(),
                file == self,
                all == entries@,
                all == self.shops@,
                market_fault(self.market) is None,
                keys_spec == texts(items.keys@),
                items.wf(),
                faulty == faulty_shop(keys_spec, all),
                first_index(i as nat, faulty) is None,
                keys@.len() == i,
                forall|j: int| 0 <= j < i ==> #[trigger] keys@[j] == all[j].id,
            decreases entries@.len() - i,
        {
            proof {
                assert(texts(keys@) =~= shop_keys(all.take(i as int)));
            }
            let problem = check_shop_entry(items, &entries, &keys, i);
            if let Some(problem) = problem {
                proof {
                    assert(faulty(i as nat));
                    assert(first_index((i + 1) as nat, faulty) == Some(i as nat));
                    first_index_facts((i + 1) as nat, all.len(), faulty);
                }
                return Err(problem);
            }
            keys.push(entries[i].id.clone());
            i = i + 1;
        }
        proof {
            assert(texts(keys@) =~= shop_keys(all));
        }
        let mut definitions: Vec<ShopDef> = Vec::new();
        let mut n: usize = 0;
        while entries.len() > 0
            invariant
                all == self.shops@,
                all.len() <= MAX_DEFINITIONS,
                keys_spec == texts(items.keys@),
                items.wf(),
                n <= all.len(),
                entries@ == all.skip(n as int),
                first_index(all.len(), faulty) is None,
                faulty == faulty_shop(keys_spec, all),
                definitions@.len() == n,
                forall|j: int| 0 <= j < n ==> resolved_shop(#[trigger] definitions@[j], keys_spec, all[j]),
            decreases entries.len(),
        {
            let entry = entries.remove(0);
            proof {
                assert(entry == all[n as int]);
                first_index_facts(all.len(), all.len(), faulty);
                assert(!faulty(n as nat));
            }
            let definition = resolve_shop(items, entry);
            definitions.push(definition);
            proof {
                assert(all.skip(n as int).drop_first() =~= all.skip(n + 1));
            }
            n = n + 1;
        }
        Ok(Shops { market, definitions, keys })
    }
}

} // verus!
