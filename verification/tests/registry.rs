use star_realms::components::Goods;
use star_realms::details::Condition;
use star_realms::effects::{
    get_action, get_condition, is_free_cond, is_trash_cond, validate_card_effects,
    validate_condition, ActionEffect,
};
use star_realms::faction::Faction;
use star_realms::parse::{parse_card, parse_cards, parse_goods, ConfigNode};
use star_realms::text::{decimal_string, str_eq, StrMap};
use star_realms::util::Failure;

#[test]
fn condition_registry_resolves_names() {
    assert_eq!(get_condition(&"free".to_string()), Some(Condition::Free));
    assert_eq!(get_condition(&"any".to_string()), Some(Condition::Free));
    assert_eq!(get_condition(&"trash".to_string()), Some(Condition::Scrapped));
    assert_eq!(get_condition(&"scrap".to_string()), Some(Condition::Scrapped));
    assert_eq!(
        get_condition(&"syn t".to_string()),
        Some(Condition::Synergy(Faction::Fed))
    );
    assert_eq!(
        get_condition(&"syn m".to_string()),
        Some(Condition::Synergy(Faction::Mech))
    );
    assert_eq!(get_condition(&"nonsense".to_string()), None);
    assert!(is_free_cond(&"any".to_string()));
    assert!(is_trash_cond(&"scrap".to_string()));
    assert!(!is_trash_cond(&"free".to_string()));
}

#[test]
fn action_registry_resolves_names() {
    let (_, goods) = get_action(&"G6:3:0".to_string()).unwrap();
    assert_eq!(
        goods,
        ActionEffect::GiveGoods(Goods { combat: 6, authority: 3, trade: 0 })
    );
    let (_, draw) = get_action(&"draw".to_string()).unwrap();
    assert_eq!(draw, ActionEffect::Draw(1));
    let (_, draw3) = get_action(&"draw 3".to_string()).unwrap();
    assert_eq!(draw3, ActionEffect::Draw(3));
    let (_, scrap) = get_action(&"scrap trade row".to_string()).unwrap();
    assert_eq!(scrap, ActionEffect::ScrapTradeRow(1));
    let (_, scrap2) = get_action(&"scrap trade row 2".to_string()).unwrap();
    assert_eq!(scrap2, ActionEffect::ScrapTradeRow(2));
    let (_, discard) = get_action(&"discard".to_string()).unwrap();
    assert_eq!(discard, ActionEffect::DiscardOpponent);
    assert!(get_action(&"no such action".to_string()).is_none());
    assert!(matches!(
        validate_condition(&"bogus".to_string()),
        Failure::Fail(_)
    ));
}

#[test]
fn card_effects_validate_as_a_whole() {
    let mut effects = star_realms::card::Effects::new();
    effects.add(("free".to_string(), "draw".to_string()));
    effects.add(("syn m".to_string(), "G0:0:2".to_string()));
    let card = star_realms::card::Card {
        cost: 1,
        name: "probe".to_string(),
        base: None,
        synergizes_with: star_realms::faction::FactionSet::empty(),
        effects,
        content: None,
    };
    assert!(matches!(validate_card_effects(&card), Failure::Succeed));
    let mut bad = star_realms::card::Effects::new();
    bad.add(("free".to_string(), "not an action".to_string()));
    let bad_card = star_realms::card::Card {
        cost: 1,
        name: "broken".to_string(),
        base: None,
        synergizes_with: star_realms::faction::FactionSet::empty(),
        effects: bad,
        content: None,
    };
    assert!(matches!(validate_card_effects(&bad_card), Failure::Fail(_)));
}

#[test]
fn parse_card_reads_a_full_definition() {
    let node = ConfigNode::Dict(vec![
        ("base".to_string(), ConfigNode::Bool(true)),
        ("defense".to_string(), ConfigNode::Int(4)),
        ("outpost".to_string(), ConfigNode::Bool(true)),
        ("cost".to_string(), ConfigNode::Int(3)),
        (
            "synergy".to_string(),
            ConfigNode::List(vec![
                ConfigNode::Str("m".to_string()),
                ConfigNode::Str("t".to_string()),
            ]),
        ),
        (
            "effects".to_string(),
            ConfigNode::List(vec![ConfigNode::Dict(vec![(
                "free".to_string(),
                ConfigNode::Str("draw".to_string()),
            )])]),
        ),
    ]);
    let card = parse_card("bastion", &node).expect("a well-formed card parses");
    assert_eq!(card.name, "bastion");
    assert_eq!(card.cost, 3);
    assert_eq!(card.base, Some(star_realms::card::Base::Outpost(4)));
    assert!(card.synergizes_with.contains(Faction::Mech));
    assert!(card.synergizes_with.contains(Faction::Fed));
    assert!(!card.synergizes_with.contains(Faction::Blob));
}

#[test]
fn parse_card_rejects_missing_fields() {
    let node = ConfigNode::Dict(vec![("cost".to_string(), ConfigNode::Int(3))]);
    match parse_card("broken", &node) {
        Err(e) => assert_eq!(e, "must supply 'base'"),
        Ok(_) => panic!("a card without 'base' must be rejected"),
    }

    let node = ConfigNode::Dict(vec![("base".to_string(), ConfigNode::Bool(false))]);
    match parse_card("broken", &node) {
        Err(e) => assert_eq!(e, "must supply 'cost'"),
        Ok(_) => panic!("a card without 'cost' must be rejected"),
    }

    let node = ConfigNode::Dict(vec![
        ("base".to_string(), ConfigNode::Bool(false)),
        ("cost".to_string(), ConfigNode::Int(900)),
    ]);
    assert!(parse_card("broken", &node).is_err());
}

#[test]
fn parse_cards_reads_a_document() {
    let doc = ConfigNode::Dict(vec![
        (
            "alpha".to_string(),
            ConfigNode::Dict(vec![
                ("base".to_string(), ConfigNode::Bool(false)),
                ("cost".to_string(), ConfigNode::Int(1)),
            ]),
        ),
        (
            "beta".to_string(),
            ConfigNode::Dict(vec![
                ("base".to_string(), ConfigNode::Bool(false)),
                ("cost".to_string(), ConfigNode::Int(2)),
            ]),
        ),
    ]);
    let cards = parse_cards(&doc).expect("the document parses");
    assert_eq!(cards.len(), 2);
    assert_eq!(cards[0].name, "alpha");
    assert_eq!(cards[1].name, "beta");
}

#[test]
fn goods_strings_with_separator_variants_parse() {
    assert_eq!(
        parse_goods("G1.2.3"),
        Some(Goods { combat: 1, authority: 2, trade: 3 })
    );
    assert_eq!(parse_goods("goods"), None);
    assert_eq!(parse_goods("G"), None);
    assert_eq!(parse_goods("G1:2"), None);
    assert_eq!(parse_goods("G999:0:0"), None);
}

#[test]
fn text_helpers_behave() {
    assert!(str_eq("hello", "hello"));
    assert!(!str_eq("hello", "hellO"));
    assert_eq!(decimal_string(0).as_str(), "0");
    assert_eq!(decimal_string(42).as_str(), "42");
    assert_eq!(decimal_string(90210).as_str(), "90210");
    let mut map = StrMap::new();
    map.insert("cards".to_string(), "3".to_string());
    assert!(map.contains_key("cards"));
    assert_eq!(map.get("cards").unwrap().as_str(), "3");
    assert!(map.get("missing").is_none());
}

#[test]
fn goods_saturate_instead_of_overflowing() {
    let a = Goods { trade: 200, authority: 0, combat: 10 };
    let b = Goods { trade: 100, authority: 5, combat: 10 };
    let sum = a.plus(b);
    assert_eq!(sum.trade, 255);
    assert_eq!(sum.authority, 5);
    assert_eq!(sum.combat, 20);
}
