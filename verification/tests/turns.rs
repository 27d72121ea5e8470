use std::rc::Rc;

use star_realms::active_card::ActiveCard;
use star_realms::card::{Card, Effects};
use star_realms::card_library::CardLibrary;
use star_realms::client_comms::{
    Client, ClientActionOptionQuery, ClientActionOptionResponse, ClientQuery, PerPlayer,
    TextStyle,
};
use star_realms::game::GameState;
use star_realms::resources::{get_debug_cards, get_misc_cards};

/// A deterministic client for driving turns in tests: it answers every
/// play-selection query with a fixed choice and every anonymous option
/// list with a fixed index.
struct ScriptedClient {
    play: Option<(u32, u32)>,
    choice: Option<usize>,
}

impl Client for ScriptedClient {
    fn resolve_action_query(
        &mut self,
        query: ClientQuery,
        _game: &GameState,
    ) -> ClientActionOptionResponse {
        match query.action_query {
            ClientActionOptionQuery::PlaySelection(_) => {
                ClientActionOptionResponse::PlaySelection(self.play)
            }
            ClientActionOptionQuery::CardSelection(source) => {
                ClientActionOptionResponse::CardSelection(source, 0)
            }
        }
    }

    fn alert(
        &mut self,
        _game: &GameState,
        _message: &PerPlayer<Option<String>>,
        _interrupt: &PerPlayer<Option<Vec<String>>>,
        _style: TextStyle,
    ) -> Option<usize> {
        self.choice
    }
}

fn library() -> Rc<CardLibrary> {
    let mut misc = get_misc_cards();
    misc.push(Card {
        cost: 2,
        name: "explorer".to_string(),
        base: None,
        synergizes_with: star_realms::faction::FactionSet::empty(),
        effects: Effects::new(),
        content: None,
    });
    Rc::new(CardLibrary::new(get_debug_cards(), misc).expect("library must build"))
}

#[test]
fn advance_flips_the_turn_and_redraws() {
    let mut game = GameState::new(library(), 80);
    let mut client = ScriptedClient { play: None, choice: None };
    assert!(game.turn_is_player1());
    game.advance(&mut client);
    assert!(game.turn_is_player2());
    // the player who just finished holds a fresh hand of five
    assert_eq!(game.player1.hand.len(), 5);
    assert_eq!(game.player1.deck.len() + game.player1.discard.len(), 5);
    game.advance(&mut client);
    assert!(game.turn_is_player1());
}

#[test]
fn a_once_play_cannot_run_twice_in_a_turn() {
    let mut game = GameState::new(library(), 80);
    let mut client = ScriptedClient { play: None, choice: None };
    let goods_before = game.player1.current_goods;
    // the starter cards in hand each carry one `Once` play
    let first = game.resolve_play(&mut client, 0, 0);
    assert!(first.is_ok());
    let goods_mid = game.player1.current_goods;
    assert_ne!(goods_before, goods_mid);
    let second = game.resolve_play(&mut client, 0, 0);
    assert!(second.is_err());
    assert_eq!(game.player1.current_goods, goods_mid);
}

#[test]
fn a_disjoint_action_follows_the_client_choice() {
    let mut game = GameState::new(library(), 80);
    // put an Outland Station in hand: its first play offers 1 trade or
    // 3 authority
    let station = Rc::new(get_debug_cards().remove(0));
    game.player1
        .hand
        .add(ActiveCard::activate(station, true, true));
    let idx = game.player1.hand.len() - 1;
    let mut client = ScriptedClient { play: None, choice: Some(1) };
    let r = game.resolve_play(&mut client, idx, 0);
    assert!(r.is_ok());
    assert_eq!(game.player1.current_goods.authority, 3);
    assert_eq!(game.player1.current_goods.trade, 0);
}

#[test]
fn a_scrap_this_cost_flags_the_card_for_the_scrap_pile() {
    let mut game = GameState::new(library(), 80);
    // Outland Station's second play costs scrapping the card itself
    let station = Rc::new(get_debug_cards().remove(0));
    game.player1
        .hand
        .add(ActiveCard::activate(station, true, true));
    let idx = game.player1.hand.len() - 1;
    let mut client = ScriptedClient { play: None, choice: None };
    let hand_before = game.player1.hand.len();
    let r = game.resolve_play(&mut client, idx, 1);
    assert!(r.is_ok());
    // the cost marks the card; the draw happened
    assert!(!game.player1.hand.get(idx).unwrap().will_discard);
    assert_eq!(game.player1.hand.len(), hand_before + 1);
    // at cleanup the flagged card goes to the scrap pile, not the discard
    game.cleanup_phase();
    assert_eq!(game.scrapped.len(), 1);
    assert_eq!(game.scrapped.get(0).unwrap().name.as_str(), "Outland Station");
}

#[test]
fn card_conservation_across_a_full_turn() {
    let mut game = GameState::new(library(), 80);
    let total = |g: &GameState| {
        g.player1.deck.len()
            + g.player1.discard.len()
            + g.player1.hand.len()
            + g.player1.table.len()
            + g.player2.deck.len()
            + g.player2.discard.len()
            + g.player2.hand.len()
            + g.player2.table.len()
            + g.trade_row.len()
            + g.trade_row_stack.len()
            + g.scrapped.len()
    };
    let before = total(&game);
    let mut client = ScriptedClient { play: None, choice: None };
    game.advance(&mut client);
    assert_eq!(total(&game), before);
}
