//! Built-in card content: the mandatory basic cards and a handful of
//! cards used to exercise the engine.

use vstd::prelude::*;
use std::rc::Rc;

use crate::actions::{add_goods, discard_card, draw_card, scrap_card, specially_place_next_acquired};
use crate::card::{Base, Card, Effects};
use crate::components::Goods;
use crate::details::{Action, ActionOp, CardSource, Exhaustibility, Play, Requirement, Sacrifice};
use crate::faction::{Faction, FactionSet};
use crate::game::RelativePlayer;
use crate::requirements::synergy;
use crate::util::{Join, Named};

verus! {

/// The two starter cards every deck begins with: `scout` and `viper`,
/// each carrying one once-per-turn play granting a single good.
pub fn get_misc_cards() -> (r: Vec<Card>)
    ensures
        r@.len() == 2,
        r@[0].name@ == "scout"@,
        r@[1].name@ == "viper"@,
        r@[0].cost == 0 && r@[1].cost == 0,
        r@[0].base is None && r@[1].base is None,
        r@[0].content matches Some(ps) && ps@.len() == 1 && ps@[0].cond is None && ps@[0].exhaust
            is Once && (ps@[0].actn.item matches Action::Unit(Join::Unit(a))
            && a.client_query is None && a.op == ActionOp::AddGoods(
            Goods { trade: 1, authority: 0, combat: 0 },
        )),
        r@[1].content matches Some(ps) && ps@.len() == 1 && ps@[0].cond is None && ps@[0].exhaust
            is Once && (ps@[0].actn.item matches Action::Unit(Join::Unit(a))
            && a.client_query is None && a.op == ActionOp::AddGoods(
            Goods { trade: 0, authority: 0, combat: 1 },
        )),
{
    let scout = Card {
        cost: 0,
        base: None,
        synergizes_with: FactionSet::empty(),
        name: String::from_str("scout"),
        effects: Effects::new(),
        content: Some(
            vec![
                Rc::new(
                    Play::new(
                        None,
                        Named::of("Gain 1 trade", Action::Unit(Join::Unit(add_goods(Goods::trade(1))))),
                        Exhaustibility::Once,
                    ),
                ),
            ],
        ),
    };
    let viper = Card {
        cost: 0,
        base: None,
        synergizes_with: FactionSet::empty(),
        name: String::from_str("viper"),
        effects: Effects::new(),
        content: Some(
            vec![
                Rc::new(
                    Play::new(
                        None,
                        Named::of("Gain 1 combat", Action::Unit(Join::Unit(add_goods(Goods::combat(1))))),
                        Exhaustibility::Once,
                    ),
                ),
            ],
        ),
    };
    let mut r: Vec<Card> = Vec::new();
    r.push(scout);
    r.push(viper);
    r
}

/// A small library of cards exercising choices, sequences, costs and
/// exhaustion policies.
pub fn get_debug_cards() -> (r: Vec<Card>)
    ensures
        r@.len() == 6,
        r@[0].name@ == "Outland Station"@,
        r@[1].name@ == "The Ark"@,
        r@[2].name@ == "Trade Bot"@,
        r@[3].name@ == "Trade Envoy"@,
        r@[4].name@ == "Captured Outpost"@,
        r@[5].name@ == "Cargo Rocket"@,
        r@[0].base == Some(Base::Base(4)),
        r@[4].base == Some(Base::Outpost(3)),
        r@[1].base is None && r@[2].base is None && r@[3].base is None && r@[5].base is None,
        r@[0].cost == 3 && r@[1].cost == 7 && r@[2].cost == 1 && r@[3].cost == 7 && r@[4].cost
            == 3 && r@[5].cost == 1,
        r@[0].synergizes_with.spec_contains(Faction::Fed),
        r@[1].synergizes_with.spec_contains(Faction::Mech),
        r@[2].synergizes_with.spec_contains(Faction::Mech),
        r@[3].synergizes_with.spec_contains(Faction::Fed),
        r@[4].synergizes_with.spec_contains(Faction::Star),
        r@[5].synergizes_with.spec_contains(Faction::Fed),
        r@[1].content matches Some(ps) && ps@.len() == 2 && ps@[1].exhaust
            == Exhaustibility::UpTo(2),
{
    let card = Card {
        cost: 3,
        name: String::from_str("Outland Station"),
        base: Some(Base::Base(4)),
        synergizes_with: FactionSet::singleton(Faction::Fed),
        effects: Effects::new(),
        content: Some(
            vec![
                Rc::new(
                    Play::new(
                        None,
                        Named::of(
                            "Add 1 trade or 3 authority",
                            Action::Unit(
                                Join::disjoint(
                                    vec![
                                        add_goods(Goods { trade: 1, authority: 0, combat: 0 }),
                                        add_goods(Goods { trade: 0, authority: 3, combat: 0 }),
                                    ],
                                ),
                            ),
                        ),
                        Exhaustibility::Once,
                    ),
                ),
                Rc::new(
                    Play::new(
                        Some(Join::Unit(Requirement::Cost(Sacrifice::ScrapThis))),
                        Named::of("Draw card", Action::Unit(Join::Unit(draw_card()))),
                        Exhaustibility::Once,
                    ),
                ),
            ],
        ),
    };

    let card_2 = Card {
        cost: 7,
        name: String::from_str("The Ark"),
        base: None,
        synergizes_with: FactionSet::singleton(Faction::Mech),
        effects: Effects::new(),
        content: Some(
            vec![
                Rc::new(
                    Play::new(
                        None,
                        Named::of("Add 5 combat", Action::Unit(Join::Unit(add_goods(Goods::combat(5))))),
                        Exhaustibility::Once,
                    ),
                ),
                Rc::new(
                    Play::new(
                        Some(
                            Join::Unit(
                                Requirement::Cost(
                                    Sacrifice::Scrap(
                                        1,
                                        Join::disjoint(
                                            vec![
                                                CardSource::Discard(RelativePlayer::Current),
                                                CardSource::Hand(RelativePlayer::Current),
                                            ],
                                        ),
                                    ),
                                ),
                            ),
                        ),
                        Named::of("Draw card", Action::Unit(Join::Unit(draw_card()))),
                        Exhaustibility::UpTo(2),
                    ),
                ),
            ],
        ),
    };

    let card_3 = Card {
        cost: 1,
        name: String::from_str("Trade Bot"),
        base: None,
        synergizes_with: FactionSet::singleton(Faction::Mech),
        effects: Effects::new(),
        content: Some(
            vec![
                Rc::new(
                    Play::new(
                        None,
                        Named::of(
                            "Gain 1 trade and scrap a card in your hand or discard pile",
                            Action::Unit(
                                Join::union(
                                    vec![
                                        add_goods(Goods::trade(1)),
                                        scrap_card(
                                            vec![
                                                CardSource::Discard(RelativePlayer::Current),
                                                CardSource::Hand(RelativePlayer::Current),
                                            ],
                                        ),
                                    ],
                                ),
                            ),
                        ),
                        Exhaustibility::Once,
                    ),
                ),
                Rc::new(
                    Play::new(
                        Some(Join::Unit(synergy(Faction::Mech))),
                        Named::of("Gain 2 combat", Action::Unit(Join::Unit(add_goods(Goods::combat(2))))),
                        Exhaustibility::Once,
                    ),
                ),
            ],
        ),
    };

    let card_4 = Card {
        cost: 7,
        name: String::from_str("Trade Envoy"),
        base: None,
        synergizes_with: FactionSet::singleton(Faction::Fed),
        effects: Effects::new(),
        content: Some(
            vec![
                Rc::new(
                    Play::new(
                        None,
                        Named::of(
                            "Gain 3 trade and 5 authority, and draw a card",
                            Action::Unit(
                                Join::union(
                                    vec![
                                        add_goods(Goods { trade: 3, authority: 5, combat: 0 }),
                                        draw_card(),
                                    ],
                                ),
                            ),
                        ),
                        Exhaustibility::Once,
                    ),
                ),
                Rc::new(
                    Play::new(
                        Some(
                            Join::union(
                                vec![
                                    Requirement::Cost(Sacrifice::ScrapThis),
                                    synergy(Faction::Fed),
                                ],
                            ),
                        ),
                        Named::of(
                            "Put the next card you acquire in your hand",
                            Action::Unit(
                                Join::Unit(
                                    specially_place_next_acquired(
                                        CardSource::Hand(RelativePlayer::Current),
                                    ),
                                ),
                            ),
                        ),
                        Exhaustibility::Once,
                    ),
                ),
            ],
        ),
    };

    let card_5 = Card {
        cost: 3,
        name: String::from_str("Captured Outpost"),
        base: Some(Base::Outpost(3)),
        synergizes_with: FactionSet::singleton(Faction::Star),
        effects: Effects::new(),
        content: Some(
            vec![
                Rc::new(
                    Play::new(
                        None,
                        Named::of(
                            "Draw a card, then discard a card",
                            Action::Sequential(
                                Box::new(Join::Unit(Action::Unit(Join::Unit(draw_card())))),
                                Box::new(Join::Unit(Action::Unit(Join::Unit(discard_card())))),
                            ),
                        ),
                        Exhaustibility::Once,
                    ),
                ),
            ],
        ),
    };

    let card_6 = Card {
        cost: 1,
        name: String::from_str("Cargo Rocket"),
        base: None,
        synergizes_with: FactionSet::singleton(Faction::Fed),
        effects: Effects::new(),
        content: Some(
            vec![
                Rc::new(
                    Play::new(
                        None,
                        Named::of(
                            "Gain 1 trade, 2 combat, and 3 authority",
                            Action::Unit(
                                Join::Unit(add_goods(Goods { trade: 1, authority: 3, combat: 2 })),
                            ),
                        ),
                        Exhaustibility::Once,
                    ),
                ),
                Rc::new(
                    Play::new(
                        Some(
                            Join::union(
                                vec![
                                    synergy(Faction::Fed),
                                    Requirement::Cost(Sacrifice::ScrapThis),
                                ],
                            ),
                        ),
                        Named::of(
                            "Put the next ship you acquire this turn on top of your deck",
                            Action::Unit(
                                Join::Unit(
                                    specially_place_next_acquired(
                                        CardSource::Deck(RelativePlayer::Current),
                                    ),
                                ),
                            ),
                        ),
                        Exhaustibility::Once,
                    ),
                ),
            ],
        ),
    };

    let mut r: Vec<Card> = Vec::new();
    r.push(card);
    r.push(card_2);
    r.push(card_3);
    r.push(card_4);
    r.push(card_5);
    r.push(card_6);
    r
}

} // verus!
