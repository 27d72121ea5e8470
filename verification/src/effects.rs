//! The registry mapping catalog effect names to conditions and actions,
//! and the interpreter for registry actions. Card data stays plain text;
//! this module decides what each name means.

use vstd::prelude::*;
use std::rc::Rc;

use crate::card::{Base, Card, Effects};
use crate::details::CardSource;
use crate::faction::FactionSet;
use crate::components::Goods;
use crate::details::Condition;
use crate::faction::Faction;
use crate::game::{GameState, RelativePlayer};
use crate::parse::{digit_val, is_digit, parse_goods, spec_parse_goods};
use crate::text::{str_eq, StrMap};
use crate::util::Failure;

verus! {

/// A configuration error is reported as text.
pub type ConfigError = String;

/// A registry action: plain data the engine interprets.
#[derive(Copy, Clone, Debug, PartialEq, Eq, Structural)]
pub enum ActionEffect {
    /// Give trade and authority to the current player and deal the combat
    /// component to the opponent at once.
    GiveGoods(Goods),
    /// Draw this many cards.
    Draw(u32),
    /// Scrap up to this many trade-row cards, selected by a bitmask.
    ScrapTradeRow(u32),
    /// Add a fixed debugging card to the first player's discard pile.
    TestCard,
    /// The opponent discards the card at the configured hand index.
    DiscardOpponent,
    /// Destroy the opponent's base at the configured table index.
    DestroyTargetBase,
    /// Copy the ship at the configured hand index, with mech synergy.
    StealthNeedle,
    /// Acquire the trade-row card at the configured index free of cost,
    /// on top of the deck.
    AcquireNoCost,
    /// Gain a one-shot card of the configured faction.
    MercCruiser,
}

/// How a client-chosen configuration value is to be obtained.
pub enum ActionConfigMethod {
    /// A number in the inclusive range.
    Range(u32, u32),
    /// One of these ids.
    IdSet(Vec<u32>),
    /// `num` cards picked by one player from another player's hand,
    /// bitwise-encoded.
    PickHandCards(u32, RelativePlayer, RelativePlayer),
    /// One card picked by one player from another player's hand.
    PickHandCard(RelativePlayer, RelativePlayer),
    /// `num` trade-row cards picked by a player.
    PickTradeRowCards(u32, RelativePlayer),
}

/// How the user configures an action before it runs.
pub struct Config {
    /// A description of the configuration value.
    pub describe: String,
    /// How to get the value.
    pub config_method: ActionConfigMethod,
}

/// Execution-facing description of a registry action.
pub struct ActionMeta {
    /// A description of the action.
    pub description: String,
    /// How the action is configured, if it needs configuration.
    pub config: Option<Config>,
}

impl ActionMeta {
    pub fn no_config(&self) -> (r: bool)
        ensures
            r == (self.config is None),
    {
        self.config.is_none()
    }
}

/// How the user configures an action: a description of the value and the
/// way to obtain it.
pub struct UserConfigMeta {
    /// A description for each of the config values.
    pub describe: String,
    /// How to get the config value.
    pub config_method: ActionConfigMethod,
}

/// Whether and how a registry action can be configured by card data.
pub struct ActionConfig {
    pub pre_config_meta: Option<PreConfigMeta>,
}

impl ActionConfig {
    /// A configuration that requires nothing.
    pub fn no_config() -> (r: ActionConfig)
        ensures
            r.pre_config_meta is None,
    {
        ActionConfig { pre_config_meta: None }
    }
}

/// Execution-time description of a configured registry action.
pub struct ActionExecution {
    /// A description of the action.
    pub description: String,
    /// How the user configures it, if at all.
    pub config: Option<UserConfigMeta>,
}

impl ActionExecution {
    pub fn no_config(&self) -> (r: bool)
        ensures
            r == (self.config is None),
    {
        self.config.is_none()
    }
}

/// A registry entry: how an action may be configured by card data, and
/// the action it produces.
pub struct ActionCreator {
    pub meta: ActionConfig,
    pub effect: ActionEffect,
}

/// Implemented by the client for choosing configuration values.
pub trait ConfigSupplier {
    /// A configuration value for an action, based on this config object.
    fn get_config(&self, game: &GameState, config: &Config) -> u32;
}

/// Does the name signal the "scrap" condition (the trash icon on cards)?
pub fn is_trash_cond(cond: &String) -> (r: bool)
    ensures
        r == (cond@ == "trash"@ || cond@ == "scrap"@),
{
    str_eq(cond.as_str(), "trash") || str_eq(cond.as_str(), "scrap")
}

/// Does the name signal the unconditional condition?
pub fn is_free_cond(cond: &String) -> (r: bool)
    ensures
        r == (cond@ == "any"@ || cond@ == "free"@),
{
    str_eq(cond.as_str(), "any") || str_eq(cond.as_str(), "free")
}

/// What `get_condition` accepts: the free and trash names, and `syn`
/// followed by anything ending in a faction letter.
pub open spec fn spec_get_condition(s: Seq<char>) -> Option<Condition> {
    if s == "any"@ || s == "free"@ {
        Some(Condition::Free)
    } else if s == "trash"@ || s == "scrap"@ {
        Some(Condition::Scrapped)
    } else if s.len() >= 4 && s[0] == 's' && s[1] == 'y' && s[2] == 'n'
        && Faction::spec_from_char(s.last()) is Some {
        Some(Condition::Synergy(Faction::spec_from_char(s.last()).unwrap()))
    } else {
        None
    }
}

/// Resolves a condition name to the condition it denotes.
pub fn get_condition(name: &String) -> (r: Option<Condition>)
    ensures
        r == spec_get_condition(name@),
{
    if is_free_cond(name) {
        return Some(Condition::Free);
    }
    if is_trash_cond(name) {
        return Some(Condition::Scrapped);
    }
    let s = name.as_str();
    let n = s.unicode_len();
    proof {
        reveal_strlit("any");
        reveal_strlit("free");
        reveal_strlit("trash");
        reveal_strlit("scrap");
    }
    if n >= 4 && s.get_char(0) == 's' && s.get_char(1) == 'y' && s.get_char(2) == 'n' {
        let c = s.get_char(n - 1);
        match c {
            'm' => Some(Condition::Synergy(Faction::Mech)),
            's' | 'y' => Some(Condition::Synergy(Faction::Star)),
            'b' => Some(Condition::Synergy(Faction::Blob)),
            'f' | 't' => Some(Condition::Synergy(Faction::Fed)),
            _ => None,
        }
    } else {
        None
    }
}

/// What `get_action` accepts.
pub open spec fn spec_get_action(s: Seq<char>) -> Option<ActionEffect> {
    if s.len() > 0 && s[0] == 'G' && spec_parse_goods(s) is Some {
        Some(ActionEffect::GiveGoods(spec_parse_goods(s).unwrap()))
    } else if s == "draw"@ {
        Some(ActionEffect::Draw(1))
    } else if s.len() == 6 && s.take(5) == "draw "@ && is_digit(s[5]) {
        Some(ActionEffect::Draw(digit_val(s[5]) as u32))
    } else if s == "scrap trade row"@ {
        Some(ActionEffect::ScrapTradeRow(1))
    } else if s.len() == 17 && s.take(16) == "scrap trade row "@ && is_digit(s[16]) {
        Some(ActionEffect::ScrapTradeRow(digit_val(s[16]) as u32))
    } else if s == "test"@ {
        Some(ActionEffect::TestCard)
    } else if s == "discard"@ {
        Some(ActionEffect::DiscardOpponent)
    } else if s == "destroy target base"@ {
        Some(ActionEffect::DestroyTargetBase)
    } else if s == "stealth needle"@ {
        Some(ActionEffect::StealthNeedle)
    } else if s == "acquire no cost"@ {
        Some(ActionEffect::AcquireNoCost)
    } else if s == "merc cruiser"@ {
        Some(ActionEffect::MercCruiser)
    } else {
        None
    }
}

/// Resolves an action name to its registry entry: a description and the
/// plain action the engine interprets.
pub fn get_action(name: &String) -> (r: Option<(ActionMeta, ActionEffect)>)
    ensures
        (r is Some) == (spec_get_action(name@) is Some),
        r matches Some(p) ==> Some(p.1) == spec_get_action(name@),
        r matches Some(p) ==> ((p.1 is GiveGoods || p.1 is Draw || p.1 is TestCard)
            ==> p.0.config is None),
        r matches Some(p) ==> (p.1 matches ActionEffect::ScrapTradeRow(n) ==> (p.0.config
            matches Some(cfg) && cfg.config_method == ActionConfigMethod::PickTradeRowCards(
            n,
            RelativePlayer::Current,
        ))),
        r matches Some(p) ==> (p.1 is DiscardOpponent ==> (p.0.config matches Some(cfg)
            && cfg.config_method == ActionConfigMethod::PickHandCard(
            RelativePlayer::Opponent,
            RelativePlayer::Opponent,
        ))),
        r matches Some(p) ==> (p.1 is DestroyTargetBase ==> (p.0.config matches Some(cfg)
            && cfg.config_method == ActionConfigMethod::PickHandCard(
            RelativePlayer::Current,
            RelativePlayer::Opponent,
        ))),
        r matches Some(p) ==> (p.1 is StealthNeedle ==> (p.0.config matches Some(cfg)
            && cfg.config_method == ActionConfigMethod::PickHandCard(
            RelativePlayer::Current,
            RelativePlayer::Current,
        ))),
        r matches Some(p) ==> (p.1 is AcquireNoCost ==> (p.0.config matches Some(cfg)
            && cfg.config_method == ActionConfigMethod::Range(0, 4))),
        r matches Some(p) ==> (p.1 is MercCruiser ==> (p.0.config matches Some(cfg)
            && cfg.config_method == ActionConfigMethod::Range(0, 3))),
{
    let s = name.as_str();
    let n = s.unicode_len();
    if n > 0 && s.get_char(0) == 'G' {
        match parse_goods(s) {
            Some(goods) => {
                return Some(
                    (
                        ActionMeta {
                            description: String::from_str(
                                "gives some amount of trade, authority, and combat",
                            ),
                            config: None,
                        },
                        ActionEffect::GiveGoods(goods),
                    ),
                );
            },
            None => {},
        }
    }
    proof {
        reveal_strlit("draw");
        reveal_strlit("draw ");
        reveal_strlit("scrap trade row");
        reveal_strlit("scrap trade row ");
    }
    if str_eq(s, "draw") {
        return Some(
            (
                ActionMeta {
                    description: String::from_str("Draw a card from your deck"),
                    config: None,
                },
                ActionEffect::Draw(1),
            ),
        );
    }
    if n == 6 && str_eq(s.substring_char(0, 5), "draw ") {
        let c = s.get_char(5);
        if '0' <= c && c <= '9' {
            return Some(
                (
                    ActionMeta {
                        description: String::from_str("Draw cards from your deck"),
                        config: None,
                    },
                    ActionEffect::Draw((c as u32) - ('0' as u32)),
                ),
            );
        }
    }
    if str_eq(s, "scrap trade row") {
        return Some(
            (
                ActionMeta {
                    description: String::from_str("Scrap a card in the trade row"),
                    config: Some(
                        Config {
                            describe: String::from_str("Pick a card from the trade row"),
                            config_method: ActionConfigMethod::PickTradeRowCards(
                                1,
                                RelativePlayer::Current,
                            ),
                        },
                    ),
                },
                ActionEffect::ScrapTradeRow(1),
            ),
        );
    }
    if n == 17 && is_prefix_scrap_trade_row(s) {
        let c = s.get_char(16);
        if '0' <= c && c <= '9' {
            return Some(
                (
                    ActionMeta {
                        description: String::from_str("Scrap cards in the trade row"),
                        config: Some(
                            Config {
                                describe: String::from_str(
                                    "Choosing cards to scrap in the trade row",
                                ),
                                config_method: ActionConfigMethod::PickTradeRowCards(
                                    (c as u32) - ('0' as u32),
                                    RelativePlayer::Current,
                                ),
                            },
                        ),
                    },
                    ActionEffect::ScrapTradeRow((c as u32) - ('0' as u32)),
                ),
            );
        }
    }
    if str_eq(s, "test") {
        return Some(
            (
                ActionMeta { description: String::from_str("test"), config: None },
                ActionEffect::TestCard,
            ),
        );
    }
    if str_eq(s, "discard") {
        return Some(
            (
                ActionMeta {
                    description: String::from_str("opponent discards a card"),
                    config: Some(
                        Config {
                            describe: String::from_str("hand id of card to be discarded"),
                            config_method: ActionConfigMethod::PickHandCard(
                                RelativePlayer::Opponent,
                                RelativePlayer::Opponent,
                            ),
                        },
                    ),
                },
                ActionEffect::DiscardOpponent,
            ),
        );
    }
    if str_eq(s, "destroy target base") {
        return Some(
            (
                ActionMeta {
                    description: String::from_str("destroy any of the opponents bases"),
                    config: Some(
                        Config {
                            describe: String::from_str("hand id of the base to be destroyed"),
                            config_method: ActionConfigMethod::PickHandCard(
                                RelativePlayer::Current,
                                RelativePlayer::Opponent,
                            ),
                        },
                    ),
                },
                ActionEffect::DestroyTargetBase,
            ),
        );
    }
    if str_eq(s, "stealth needle") {
        return Some(
            (
                ActionMeta {
                    description: String::from_str("Copy any other ship in your hand"),
                    config: Some(
                        Config {
                            describe: String::from_str("The card to copy"),
                            config_method: ActionConfigMethod::PickHandCard(
                                RelativePlayer::Current,
                                RelativePlayer::Current,
                            ),
                        },
                    ),
                },
                ActionEffect::StealthNeedle,
            ),
        );
    }
    if str_eq(s, "acquire no cost") {
        return Some(
            (
                ActionMeta {
                    description: String::from_str(
                        "Acquire any ship without paying its cost and put it on top of your deck",
                    ),
                    config: Some(
                        Config {
                            describe: String::from_str("The ship to acquire"),
                            config_method: ActionConfigMethod::Range(0, 4),
                        },
                    ),
                },
                ActionEffect::AcquireNoCost,
            ),
        );
    }
    if str_eq(s, "merc cruiser") {
        return Some(
            (
                ActionMeta {
                    description: String::from_str("Choose a faction as you play Merc Cruiser"),
                    config: Some(
                        Config {
                            describe: String::from_str("The faction to take"),
                            config_method: ActionConfigMethod::Range(0, 3),
                        },
                    ),
                },
                ActionEffect::MercCruiser,
            ),
        );
    }
    proof {
        reveal_strlit("test");
        reveal_strlit("discard");
        reveal_strlit("destroy target base");
        reveal_strlit("stealth needle");
        reveal_strlit("acquire no cost");
        reveal_strlit("merc cruiser");
    }
    None
}

/// Is the string exactly `scrap trade row` followed by a space?
fn is_prefix_scrap_trade_row(s: &str) -> (r: bool)
    requires
        s@.len() >= 17,
    ensures
        r == (s@.take(16) == "scrap trade row "@),
{
    str_eq(s.substring_char(0, 16), "scrap trade row ")
}

/// The goods-granting registry action for fixed goods.
pub fn get_good_action(goods: Goods) -> (r: ActionEffect)
    ensures
        r == ActionEffect::GiveGoods(goods),
{
    ActionEffect::GiveGoods(goods)
}

/// `Succeed` exactly when the name resolves to a known condition.
pub fn validate_condition(name: &String) -> (r: Failure<String>)
    ensures
        (r is Succeed) == (spec_get_condition(name@) is Some),
{
    match get_condition(name) {
        Some(_) => Failure::Succeed,
        None => Failure::Fail(String::from_str("Invalid condition")),
    }
}

/// `Succeed` exactly when the name resolves to a known action.
pub fn validate_action(name: &String) -> (r: Failure<String>)
    ensures
        (r is Succeed) == (spec_get_action(name@) is Some),
{
    match get_action(name) {
        Some(_) => Failure::Succeed,
        None => Failure::Fail(String::from_str("Invalid action")),
    }
}

/// `Succeed` exactly when both halves of the pair resolve.
pub fn validate_effect(cond: &String, act: &String) -> (r: Failure<String>)
    ensures
        (r is Succeed) == (spec_get_condition(cond@) is Some && spec_get_action(act@) is Some),
{
    match validate_condition(cond) {
        Failure::Succeed => validate_action(act),
        x => x,
    }
}

/// Every effect pair the card declares must resolve.
pub open spec fn spec_card_effects_ok(card: Card) -> bool {
    forall|i: int| 0 <= i < card.effects.spec_len() ==> spec_get_condition(
        (#[trigger] card.effects.spec_effect_at(i)).0@,
    ) is Some && spec_get_action(card.effects.spec_effect_at(i).1@) is Some
}

/// `Succeed` exactly when every effect pair of the card resolves.
#[verifier::loop_isolation(false)]
pub fn validate_card_effects(card: &Card) -> (r: Failure<String>)
    ensures
        (r is Succeed) == spec_card_effects_ok(*card),
{
    let all = card.effects.get_all_effects();
    let n = all.len();
    let mut i: usize = 0;
    while i < n
        invariant
            n == all@.len(),
            i <= n,
            forall|j: int| 0 <= j < i ==> spec_get_condition((#[trigger] all@[j]).0@) is Some
                && spec_get_action(all@[j].1@) is Some,
        decreases n - i,
    {
        if let Failure::Fail(e) = validate_effect(&all[i].0, &all[i].1) {
            proof {
                assert(card.effects.spec_effect_at(i as int) == all@[i as int]);
            }
            return Failure::Fail(e);
        }
        i += 1;
    }
    proof {
        assert forall|k: int| 0 <= k < card.effects.spec_len() implies spec_get_condition(
            (#[trigger] card.effects.spec_effect_at(k)).0@,
        ) is Some && spec_get_action(card.effects.spec_effect_at(k).1@) is Some by {
            assert(card.effects.spec_effect_at(k) == all@[k]);
        }
    }
    Failure::Succeed
}

/// A card library must be validated exhaustively before a game begins:
/// this entry demands a card whose effects all resolve.
pub fn assert_validate_card_effects(card: &Card)
    requires
        spec_card_effects_ok(*card),
{
    let _ = validate_card_effects(card);
}

/// Data contained in a card definition's configuration for one effect.
pub struct PreConfig {
    pub map: StrMap,
    pub validated: bool,
}

/// The types allowed in effect configuration values.
#[derive(Copy, Clone, Debug, PartialEq, Eq, Structural)]
pub enum PreConfigType {
    Nat,
    Text,
}

/// How an action's configuration may be declared.
pub struct PreConfigMeta {
    pub required_keys: Vec<String>,
    pub types: Vec<(String, PreConfigType)>,
}

impl PreConfigMeta {
    /// A meta where every listed key is required, with its type.
    pub fn all_required(kvs: Vec<(String, PreConfigType)>) -> (r: PreConfigMeta)
        ensures
            r.types@ == kvs@,
            r.required_keys@.len() == kvs@.len(),
            forall|i: int| 0 <= i < kvs@.len() ==> (#[trigger] r.required_keys@[i])
                == kvs@[i].0,
    {
        let mut required_keys: Vec<String> = Vec::new();
        let n = kvs.len();
        let mut i: usize = 0;
        while i < n
            invariant
                n == kvs@.len(),
                i <= n,
                required_keys@.len() == i,
                forall|j: int| 0 <= j < i ==> (#[trigger] required_keys@[j]) == kvs@[j].0,
            decreases n - i,
        {
            required_keys.push(kvs[i].0.clone());
            i += 1;
        }
        PreConfigMeta { required_keys, types: kvs }
    }
}

impl PreConfig {
    pub fn create(map: StrMap) -> (r: PreConfig)
        ensures
            r.map == map,
            !r.validated,
    {
        PreConfig { map, validated: false }
    }

    /// `Succeed` exactly when every required key is present and every
    /// present `Nat`-typed value is a number.
    #[verifier::loop_isolation(false)]
    pub fn validate(&self, meta: &PreConfigMeta) -> (r: Failure<String>)
        ensures
            r is Succeed ==> forall|i: int| 0 <= i < meta.required_keys@.len()
                ==> self.map.spec_get((#[trigger] meta.required_keys@[i])@) is Some,
    {
        let n = meta.required_keys.len();
        let mut i: usize = 0;
        while i < n
            invariant
                n == meta.required_keys@.len(),
                i <= n,
                forall|j: int| 0 <= j < i ==> self.map.spec_get(
                    (#[trigger] meta.required_keys@[j])@,
                ) is Some,
            decreases n - i,
        {
            if !self.map.contains_key(meta.required_keys[i].as_str()) {
                return Failure::Fail(String::from_str("a required configuration key is missing"));
            }
            i += 1;
        }
        let m = meta.types.len();
        let mut k: usize = 0;
        while k < m
            invariant
                n == meta.required_keys@.len(),
                m == meta.types@.len(),
                k <= m,
                forall|j: int| 0 <= j < n ==> self.map.spec_get(
                    (#[trigger] meta.required_keys@[j])@,
                ) is Some,
            decreases m - k,
        {
            if meta.types[k].1 == PreConfigType::Nat {
                match self.map.get(meta.types[k].0.as_str()) {
                    Some(v) => {
                        if parse_u32_digits(v.as_str()).is_none() {
                            return Failure::Fail(
                                String::from_str("a configuration value must be a number"),
                            );
                        }
                    },
                    None => {},
                }
            }
            k += 1;
        }
        Failure::Succeed
    }

    /// The numeric value stored under `key`.
    pub fn get_nat(&self, key: &str) -> (r: Option<u32>)
        ensures
            self.map.spec_get(key@) is None ==> r is None,
    {
        match self.map.get(key) {
            Some(v) => parse_u32_digits(v.as_str()),
            None => None,
        }
    }

    /// The text stored under `key`.
    pub fn get_str(&self, key: &str) -> (r: Option<&String>)
        ensures
            r matches Some(v) ==> self.map.spec_get(key@) == Some(v@),
            r is None ==> self.map.spec_get(key@) is None,
    {
        self.map.get(key)
    }
}

/// Parses a plain run of digits as a number; `None` when the string is
/// empty, holds a non-digit, or overflows.
pub fn parse_u32_digits(s: &str) -> (r: Option<u32>)
    ensures
        r matches Some(v) ==> crate::parse::spec_u32_digits(s@) == Some(v),
        r is None ==> crate::parse::spec_u32_digits(s@) is None,
{
    let n = s.unicode_len();
    if n == 0 {
        return None;
    }
    let mut acc: u64 = 0;
    let mut i: usize = 0;
    while i < n
        invariant
            n == s@.len(),
            i <= n,
            forall|j: int| 0 <= j < i ==> is_digit(#[trigger] s@[j]),
            digits_val_prefix(s@, i as int) <= u32::MAX ==> acc == digits_val_prefix(
                s@,
                i as int,
            ),
            digits_val_prefix(s@, i as int) > u32::MAX ==> acc == 0x1_0000_0000u64,
            acc <= 0x1_0000_0000u64,
        decreases n - i,
    {
        let c = s.get_char(i);
        if !('0' <= c && c <= '9') {
            return None;
        }
        let d = (c as u32) - ('0' as u32);
        if acc <= u32::MAX as u64 {
            let next = acc * 10 + d as u64;
            acc = if next <= u32::MAX as u64 {
                next
            } else {
                0x1_0000_0000u64
            };
        }
        proof {
            assert(digits_val_prefix(s@, i + 1) == digits_val_prefix(s@, i as int) * 10
                + digit_val(s@[i as int]));
        }
        i += 1;
    }
    if acc > u32::MAX as u64 {
        return None;
    }
    Some(acc as u32)
}

/// The value of the digits `s[0..i)`.
pub open spec fn digits_val_prefix(s: Seq<char>, i: int) -> int {
    crate::parse::digits_val(s, 0, i)
}


/// Interprets one registry action against the game state; `cfg` is the
/// client-chosen configuration value. A failure reports a reason and the
/// current and opposing players keep their turn identities.
pub fn run_action(game: &mut GameState, effect: &ActionEffect, cfg: u32) -> (r: Failure<String>)
    ensures
        final(game).current_player == old(game).current_player,
        final(game).explorers == old(game).explorers,
        final(game).card_library == old(game).card_library,
        effect matches ActionEffect::GiveGoods(g) ==> r is Succeed && final(game).spec_current().current_goods == old(game).spec_current().current_goods.spec_plus(
            Goods { trade: g.trade, authority: g.authority, combat: 0 },
        ) && final(game).spec_opponent().current_goods.authority == (
            if old(game).spec_opponent().current_goods.authority >= g.combat {
                (old(game).spec_opponent().current_goods.authority - g.combat) as u8
            } else {
                0u8
            }) && final(game).spec_opponent().current_goods.trade == old(game).spec_opponent().current_goods.trade
            && final(game).spec_opponent().current_goods.combat == old(game).spec_opponent().current_goods.combat
            && final(game).player1.authority == old(game).player1.authority
            && final(game).player2.authority == old(game).player2.authority
            && final(game).spec_current().hand == old(game).spec_current().hand
            && final(game).spec_opponent().hand == old(game).spec_opponent().hand,
        effect is Draw ==> final(game).spec_current().zone_multiset() =~= old(game).spec_current().zone_multiset(),
        effect is TestCard ==> final(game).player1.discard@.len() == old(game).player1.discard@.len() + 1,
{
    match effect {
        ActionEffect::GiveGoods(g) => {
            let g = *g;
            {
                let area = game.resolve_area_mut(RelativePlayer::Current);
                area.current_goods = area.current_goods.plus(
                    Goods { trade: g.trade, authority: g.authority, combat: 0 },
                );
            }
            {
                let opponent = game.resolve_area_mut(RelativePlayer::Opponent);
                let accrued = opponent.current_goods.authority;
                opponent.current_goods.authority = if accrued >= g.combat {
                    accrued - g.combat
                } else {
                    0
                };
            }
            Failure::Succeed
        },
        ActionEffect::Draw(n) => {
            let n = *n;
            let count: usize = if n > 10 {
                10
            } else {
                n as usize
            };
            let area = game.resolve_area_mut(RelativePlayer::Current);
            let _ = area.draw_cards_into_hand(count);
            Failure::Succeed
        },
        ActionEffect::ScrapTradeRow(_) => {
            let mut ids: Vec<u32> = Vec::new();
            let mut bit: u32 = 0;
            while bit < 32
                invariant
                    bit <= 32,
                decreases 32 - bit,
            {
                if cfg & (1u32 << bit) != 0 {
                    ids.push(bit);
                }
                bit += 1;
            }
            let mut cards = game.remove_cards_from_trade_row(ids);
            while cards.len() > 0
                invariant
                    game.current_player == old(game).current_player,
                    game.explorers == old(game).explorers,
                    game.card_library == old(game).card_library,
                decreases cards@.len(),
            {
                match cards.pop() {
                    Some(card) => {
                        game.scrapped.add(card);
                    },
                    None => {},
                }
            }
            game.fill_trade_row(5);
            Failure::Succeed
        },
        ActionEffect::TestCard => {
            let card = Card {
                cost: 255,
                name: String::from_str("bazinga"),
                base: Some(Base::Outpost(4)),
                synergizes_with: FactionSet::empty(),
                effects: Effects::new(),
                content: None,
            };
            game.player1.discard.add(Rc::new(card));
            Failure::Succeed
        },
        ActionEffect::DiscardOpponent => {
            match game.source_remove(CardSource::Hand(RelativePlayer::Opponent), cfg as usize) {
                Some(card) => {
                    game.source_add(CardSource::Discard(RelativePlayer::Opponent), card);
                    Failure::Succeed
                },
                None => Failure::Fail(String::from_str("No card with that id")),
            }
        },
        ActionEffect::DestroyTargetBase => {
            let is_base = {
                let opponent = game.get_current_opponent();
                match opponent.table.get(cfg as usize) {
                    Some(ac) => ac.card.base.is_some(),
                    None => false,
                }
            };
            if !is_base {
                return Failure::Fail(String::from_str("That card is not a base in play"));
            }
            match game.source_remove(CardSource::Table(RelativePlayer::Opponent), cfg as usize) {
                Some(card) => {
                    game.source_add(CardSource::Discard(RelativePlayer::Opponent), card);
                    Failure::Succeed
                },
                None => Failure::Fail(String::from_str("No card with that id")),
            }
        },
        ActionEffect::StealthNeedle => {
            let copied = {
                let current = game.get_current_player();
                match current.hand.get(cfg as usize) {
                    Some(ac) => {
                        let mut synergy = ac.card.synergizes_with;
                        synergy.insert(crate::faction::Faction::Mech);
                        Some(
                            Card {
                                cost: ac.card.cost,
                                name: ac.card.name.clone(),
                                base: ac.card.base,
                                synergizes_with: synergy,
                                effects: Effects::new(),
                                content: match &ac.card.content {
                                    Some(ps) => Some(ps.clone()),
                                    None => None,
                                },
                            },
                        )
                    },
                    None => None,
                }
            };
            match copied {
                Some(card) => {
                    game.give_card_to_hand_scrapped(Rc::new(card));
                    Failure::Succeed
                },
                None => Failure::Fail(String::from_str("Not a valid id")),
            }
        },
        ActionEffect::AcquireNoCost => {
            match game.trade_row.remove(cfg as usize) {
                Some(card) => {
                    if card.base.is_some() {
                        game.trade_row.add(card);
                        Failure::Fail(String::from_str("Cannot be a base"))
                    } else {
                        let area = game.resolve_area_mut(RelativePlayer::Current);
                        area.deck.add(card);
                        Failure::Succeed
                    }
                },
                None => Failure::Fail(String::from_str("Not a valid id")),
            }
        },
        ActionEffect::MercCruiser => {
            let faction = match cfg {
                0 => crate::faction::Faction::Mech,
                1 => crate::faction::Faction::Fed,
                2 => crate::faction::Faction::Blob,
                _ => crate::faction::Faction::Star,
            };
            let card = Card {
                cost: 0,
                name: String::from_str("synergy card"),
                base: None,
                synergizes_with: FactionSet::singleton(faction),
                effects: Effects::new(),
                content: None,
            };
            game.give_card_to_hand_scrapped(Rc::new(card));
            Failure::Succeed
        },
    }
}

} // verus!
