use std::collections::HashSet;
use std::mem;
use std::rc::Rc;

use star_realms::actions::{add_goods, draw_card, scrap_card};
use star_realms::client_comms::ClientActionOptionQuery;
use star_realms::details::CardSource;
use star_realms::active_card::ActiveCard;
use star_realms::card::{Base, Card, Effects};
use star_realms::card_library::CardLibrary;
use star_realms::components::Goods;
use star_realms::details::{Action, Exhaustibility, Play};
use star_realms::game::{GameState, PlayerArea, RelativePlayer};
use star_realms::in_game::ActivePlay;
use star_realms::parse::{parse_goods, parse_vec};
use star_realms::stack::SimpleStack;
use star_realms::util::{Join, Named};

fn plain_card(name: &str, cost: u8, base: Option<Base>) -> Card {
    Card {
        cost,
        name: name.to_string(),
        base,
        synergizes_with: star_realms::faction::FactionSet::empty(),
        effects: Effects::new(),
        content: None,
    }
}

fn basic_play(name: &str, goods: Goods, exhaust: Exhaustibility) -> Play {
    Play::new(
        None,
        Named::of(name, Action::Unit(Join::Unit(add_goods(goods)))),
        exhaust,
    )
}

fn test_library() -> Rc<CardLibrary> {
    let trade_cards: Vec<Card> = (0..6).map(|_| plain_card("market ship", 3, None)).collect();
    let mut misc = star_realms::resources::get_misc_cards();
    misc.push(plain_card("explorer", 2, None));
    Rc::new(CardLibrary::new(trade_cards, misc).expect("library must build"))
}

#[test]
fn test_input() {
    // oh wait, I can't test input
}

#[test]
fn test_parse_vec() {
    println!("printed vec: {:?}", vec![1, 2, 3]);
    let vec: Result<Vec<u32>, _> = parse_vec("1, 2,3,  4   , 5,6");
    println!("parsed vec: {:?}", vec);
    assert_eq!(vec.unwrap(), vec![1, 2, 3, 4, 5, 6]);
}

#[test]
fn test_shuffle() {
    println!("testing shuffle");
    for _ in 0..10 {
        let mut stack = SimpleStack::new((1..5).collect());
        stack.shuffle();
        println!("{:?}", stack);
    }
}

#[test]
fn test_parse_goods() {
    assert_eq!(
        parse_goods("G6:3:0").unwrap(),
        Goods { combat: 6, authority: 3, trade: 0 }
    );
    assert_eq!(
        parse_goods("G12:0:4").unwrap(),
        Goods { combat: 12, authority: 0, trade: 4 }
    );
    assert_eq!(
        parse_goods("G144:225:124").unwrap(),
        Goods { combat: 144, authority: 225, trade: 124 }
    );
}

#[test]
fn test_sizes() {
    println!("Size of String: {}", mem::size_of::<String>());
    println!("Size of CardLibrary: {}", mem::size_of::<CardLibrary>());
    println!("Size of GameState: {}", mem::size_of::<GameState>());
    println!("Size of Card: {}", mem::size_of::<Card>());
    println!("Size of &Card: {}", mem::size_of::<&Card>());
    println!("Size of PlayerArea: {}", mem::size_of::<PlayerArea>());
    println!(
        "Size of HashSet<(String, String)>: {}",
        mem::size_of::<HashSet<(String, String)>>()
    );
}

#[test]
fn join_playground() {
    let joined = Join::Unit(5);
    assert!(matches!(joined, Join::Unit(5)));
    let v = vec![1, 2, 3, 4, 5];
    let joined_2 = Join::union(v);
    println!(
        "{:?}",
        if let Join::Union(xs) = joined_2 { xs.len() } else { 0 }
    );
}

#[test]
fn union_of_one_collapses_to_unit() {
    // a single-element union or disjoint construction is structurally a Unit
    let u = Join::union(vec![7u32]);
    assert!(matches!(u, Join::Unit(7)));
    let d = Join::disjoint(vec![9u32]);
    assert!(matches!(d, Join::Unit(9)));
    let u2 = Join::union(vec![1u32, 2]);
    assert!(matches!(u2, Join::Union(_)));
    let d2 = Join::disjoint(vec![1u32, 2]);
    assert!(matches!(d2, Join::Disjoint(_)));
}

#[test]
fn shuffle_then_drain_is_permutation() {
    let mut stack = SimpleStack::new(vec![4u32, 8, 15, 16, 23, 42]);
    stack.shuffle();
    let mut drained = Vec::new();
    while let Some(x) = stack.draw() {
        drained.push(x);
    }
    drained.sort();
    assert_eq!(drained, vec![4, 8, 15, 16, 23, 42]);
}

#[test]
fn once_play_exhausts_after_single_use() {
    let play = Rc::new(basic_play("gain", Goods { trade: 1, authority: 0, combat: 0 }, Exhaustibility::Once));
    let mut active = ActivePlay::new(&play);
    assert!(active.not_exhausted());
    assert_eq!(active.exhaustions_left(), Some(1));
    active.record_use();
    assert!(!active.not_exhausted());
    assert_eq!(active.exhaustions_left(), None);
}

#[test]
fn up_to_play_rejects_excess_use() {
    let play = Rc::new(basic_play("gain", Goods { trade: 1, authority: 0, combat: 0 }, Exhaustibility::UpTo(2)));
    let mut active = ActivePlay::new(&play);
    assert_eq!(active.exhaustions_left(), Some(2));
    active.record_use();
    assert_eq!(active.exhaustions_left(), Some(1));
    active.record_use();
    assert!(!active.not_exhausted());
    assert_eq!(active.exhaustions_left(), None);
}

#[test]
fn fresh_game_has_expected_shape() {
    // scenario: a fresh two-player game
    let game = GameState::new(test_library(), 80);
    for player in [&game.player1, &game.player2] {
        assert_eq!(player.hand.len(), 5);
        assert_eq!(player.deck.len(), 5);
        assert_eq!(player.discard.len(), 0);
        assert_eq!(player.table.len(), 0);
        assert_eq!(player.authority, 80);
    }
    assert_eq!(game.trade_row.len(), 5);
    assert_eq!(game.trade_row_stack.len(), 1);
    assert_eq!(game.explorers, 10);
    assert_eq!(game.scrapped.len(), 0);
}

#[test]
fn combat_below_weakest_outpost_only_destroys_what_it_can() {
    // scenario: outposts of defense 3 and 5 against 4 accrued combat
    let mut game = GameState::new(test_library(), 50);
    game.player2
        .table
        .add(ActiveCard::activate(Rc::new(plain_card("tower", 3, Some(Base::Outpost(3)))), true, true));
    game.player2
        .table
        .add(ActiveCard::activate(Rc::new(plain_card("keep", 5, Some(Base::Outpost(5)))), true, true));
    game.player1.current_goods.combat = 4;
    let dead = game.apply_combat();
    assert!(!dead);
    // the 3-defense outpost is destroyed, the 5-defense outpost survives,
    // and no authority damage is dealt
    assert_eq!(game.player2.table.len(), 1);
    assert_eq!(game.player2.discard.len(), 1);
    assert_eq!(game.player2.authority, 50);
}

#[test]
fn leftover_combat_does_not_overflow_to_authority() {
    // scenario: 6 combat against a single outpost of defense 4
    let mut game = GameState::new(test_library(), 50);
    game.player2
        .table
        .add(ActiveCard::activate(Rc::new(plain_card("fort", 4, Some(Base::Outpost(4)))), true, true));
    game.player1.current_goods.combat = 6;
    let dead = game.apply_combat();
    assert!(!dead);
    assert_eq!(game.player2.table.len(), 0);
    assert_eq!(game.player2.discard.len(), 1);
    // the remaining 2 combat has no further effect
    assert_eq!(game.player2.authority, 50);
}

#[test]
fn combat_without_outposts_hits_authority() {
    let mut game = GameState::new(test_library(), 50);
    game.player1.current_goods.combat = 6;
    let dead = game.apply_combat();
    assert!(!dead);
    assert_eq!(game.player2.authority, 44);
}

#[test]
fn acquiring_with_exact_trade_succeeds() {
    // scenario: a trade-row card costing 3 bought with exactly 3 trade
    let mut game = GameState::new(test_library(), 80);
    game.player1.current_goods.trade = 3;
    let before_discard = game.player1.discard.len();
    assert!(game.acquire_from_trade_row(0).is_ok());
    assert_eq!(game.player1.current_goods.trade, 0);
    assert_eq!(game.player1.discard.len(), before_discard + 1);
    // the trade row refills from the trade deck
    assert_eq!(game.trade_row.len(), 5);
    assert_eq!(game.trade_row_stack.len(), 0);
}

#[test]
fn acquiring_beyond_trade_is_rejected() {
    let mut game = GameState::new(test_library(), 80);
    game.player1.current_goods.trade = 2;
    let r = game.acquire_from_trade_row(0);
    assert!(matches!(r, Err(star_realms::game::Feedback::Invalid(_))));
    assert_eq!(game.player1.current_goods.trade, 2);
    assert_eq!(game.trade_row.len(), 5);
}

#[test]
fn buying_exhausted_explorers_is_rejected() {
    // scenario: the explorer pool is empty
    let mut game = GameState::new(test_library(), 80);
    game.explorers = 0;
    game.player1.current_goods.trade = 10;
    let r = game.buy_explorer();
    assert!(matches!(r, Err(star_realms::game::Feedback::Invalid(_))));
    assert_eq!(game.player1.current_goods.trade, 10);
    assert_eq!(game.player1.discard.len(), 0);
}

#[test]
fn buying_an_explorer_spends_trade() {
    let mut game = GameState::new(test_library(), 80);
    game.player1.current_goods.trade = 5;
    assert!(game.buy_explorer().is_ok());
    assert_eq!(game.explorers, 9);
    assert_eq!(game.player1.current_goods.trade, 3);
    assert_eq!(game.player1.discard.len(), 1);
    assert_eq!(game.player1.discard.get(0).unwrap().name.as_str(), "explorer");
}

#[test]
fn cleanup_routes_cards_by_their_flags() {
    let mut game = GameState::new(test_library(), 80);
    // flag one hand card for the scrap pile
    let mut ac = game.player1.hand.remove(0).unwrap();
    ac.will_discard = false;
    game.player1.hand.insert_at(0, ac);
    let hand_before = game.player1.hand.len();
    game.cleanup_phase();
    assert_eq!(game.player1.hand.len(), 0);
    assert_eq!(game.player1.discard.len(), hand_before - 1);
    assert_eq!(game.scrapped.len(), 1);
}

#[test]
fn draw_reshuffles_discard_when_deck_runs_out() {
    let mut game = GameState::new(test_library(), 80);
    // move the whole deck to the discard pile
    while let Some(c) = game.player1.deck.draw() {
        game.player1.discard.add(c);
    }
    let drawn = game.player1.draw_card();
    assert!(drawn.is_some());
    assert_eq!(game.player1.discard.len(), 0);
    assert_eq!(game.player1.deck.len(), 4);
}

#[test]
fn drawing_from_empty_zones_fails() {
    let mut area = PlayerArea::new(
        Rc::new(plain_card("scout", 0, None)),
        Rc::new(plain_card("viper", 0, None)),
        50,
    );
    // drain everything
    while area.draw_card().is_some() {}
    let r = area.draw_card_into_hand();
    assert!(matches!(r, star_realms::util::Failure::Fail(_)));
}

#[test]
fn trade_row_removal_takes_exactly_the_listed_indices() {
    let mut game = GameState::new(test_library(), 80);
    let before: Vec<String> = (0..game.trade_row.len())
        .map(|i| game.trade_row.get(i).unwrap().name.clone())
        .collect();
    // out-of-range and repeated indices are ignored
    let removed = game.remove_cards_from_trade_row(vec![0, 2, 2, 99]);
    assert_eq!(removed.len(), 2);
    // removal runs from the highest index down
    assert_eq!(removed[0].name, before[2]);
    assert_eq!(removed[1].name, before[0]);
    assert_eq!(game.trade_row.len(), 3);
    assert_eq!(game.trade_row.get(0).unwrap().name, before[1]);
    assert_eq!(game.trade_row.get(1).unwrap().name, before[3]);
    assert_eq!(game.trade_row.get(2).unwrap().name, before[4]);
}

#[test]
fn buying_an_explorer_without_trade_is_rejected() {
    let mut game = GameState::new(test_library(), 80);
    game.player1.current_goods.trade = 1;
    let r = game.buy_explorer();
    assert!(matches!(r, Err(star_realms::game::Feedback::Invalid(_))));
    assert_eq!(game.explorers, 10);
    assert_eq!(game.player1.current_goods.trade, 1);
}

#[test]
fn missing_basics_are_reported_in_order() {
    let r = CardLibrary::new(Vec::new(), Vec::new());
    match r {
        Err(e) => assert_eq!(e, "No scout available in card library!"),
        Ok(_) => panic!("an empty library must be refused"),
    }
    let r = CardLibrary::new(Vec::new(), vec![plain_card("scout", 0, None)]);
    match r {
        Err(e) => assert_eq!(e, "No viper available in card library!"),
        Ok(_) => panic!("a library without a viper must be refused"),
    }
}

#[test]
fn using_an_effect_marks_only_that_pair() {
    let mut status = star_realms::card::CardStatus::new();
    status.use_effect(&("free".to_string(), "draw".to_string()));
    assert!(status.in_play);
    assert!(!status.scrapped);
    assert!(status.has_used(&"free".to_string(), &"draw".to_string()));
    assert!(!status.has_used(&"free".to_string(), &"G1:0:0".to_string()));
}

#[test]
fn scrap_card_query_offers_each_source() {
    let one = scrap_card(vec![CardSource::TradeRow]);
    assert!(matches!(
        one.client_query,
        Some(Join::Unit(ClientActionOptionQuery::CardSelection(CardSource::TradeRow)))
    ));
    let two = scrap_card(vec![
        CardSource::Hand(RelativePlayer::Current),
        CardSource::Discard(RelativePlayer::Current),
    ]);
    match two.client_query {
        Some(Join::Disjoint(children)) => assert_eq!(children.len(), 2),
        _ => panic!("two sources must offer a disjoint choice"),
    }
}

#[test]
fn library_without_explorer_is_refused() {
    let misc = star_realms::resources::get_misc_cards();
    let r = CardLibrary::new(Vec::new(), misc);
    match r {
        Err(e) => assert_eq!(e, "No explorer available in card library!"),
        Ok(_) => panic!("a library without an explorer must be refused"),
    }
}

#[test]
fn give_goods_action_splits_between_players() {
    let mut game = GameState::new(test_library(), 50);
    game.player2.current_goods.authority = 10;
    let effect = star_realms::effects::get_good_action(Goods { trade: 2, authority: 3, combat: 4 });
    let r = star_realms::effects::run_action(&mut game, &effect, 0);
    assert!(matches!(r, star_realms::util::Failure::Succeed));
    assert_eq!(game.player1.current_goods.trade, 2);
    assert_eq!(game.player1.current_goods.authority, 3);
    // the combat component reduces the opponent's accrued authority goods,
    // flooring at zero; life totals are untouched here
    assert_eq!(game.player2.current_goods.authority, 6);
    assert_eq!(game.player2.authority, 50);
    let big = star_realms::effects::get_good_action(Goods { trade: 0, authority: 0, combat: 9 });
    let r = star_realms::effects::run_action(&mut game, &big, 0);
    assert!(matches!(r, star_realms::util::Failure::Succeed));
    assert_eq!(game.player2.current_goods.authority, 0);
    assert_eq!(game.player2.authority, 50);
}

#[test]
fn discard_opponent_action_moves_a_hand_card() {
    let mut game = GameState::new(test_library(), 50);
    let effect = star_realms::effects::ActionEffect::DiscardOpponent;
    let r = star_realms::effects::run_action(&mut game, &effect, 0);
    assert!(matches!(r, star_realms::util::Failure::Succeed));
    assert_eq!(game.player2.hand.len(), 4);
    assert_eq!(game.player2.discard.len(), 1);
    // a stale index is rejected and changes nothing
    let r = star_realms::effects::run_action(&mut game, &effect, 99);
    assert!(matches!(r, star_realms::util::Failure::Fail(_)));
    assert_eq!(game.player2.hand.len(), 4);
}
