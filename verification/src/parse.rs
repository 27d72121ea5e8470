//! Parsing card definitions and the small textual formats cards use.
//!
//! The engine never reads files itself: a surrounding loader hands it a
//! `ConfigNode` tree of plain values, and everything from there on is
//! verified.

use vstd::prelude::*;

use crate::card::{Base, Card, Effects, EffectConfigPair};
use crate::components::Goods;
use crate::faction::{Faction, FactionSet};
use crate::text::{str_eq, StrMap};

verus! {

/// A plain configuration value: what a card-definition document contains,
/// independent of any textual format.
pub enum ConfigNode {
    /// A missing or unusable value.
    Bad,
    Bool(bool),
    Int(i64),
    Str(String),
    List(Vec<ConfigNode>),
    Dict(Vec<(String, ConfigNode)>),
}

/// The value for `k` among dictionary entries, the first entry winning.
pub open spec fn dict_get(s: Seq<(String, ConfigNode)>, k: Seq<char>) -> Option<ConfigNode>
    decreases s.len(),
{
    if s.len() == 0 {
        None
    } else if s[0].0@ == k {
        Some(s[0].1)
    } else {
        dict_get(s.drop_first(), k)
    }
}

impl ConfigNode {
    /// Looking a key up in anything but a dictionary gives `Bad`, as does
    /// a missing key.
    pub open spec fn spec_get(self, k: Seq<char>) -> ConfigNode {
        match self {
            ConfigNode::Dict(entries) => match dict_get(entries@, k) {
                Some(v) => v,
                None => ConfigNode::Bad,
            },
            _ => ConfigNode::Bad,
        }
    }

    /// The entry for `key`, or `Bad`.
    #[verifier::loop_isolation(false)]
    pub fn get(&self, key: &str) -> (r: &ConfigNode)
        ensures
            *r == self.spec_get(key@),
        decreases self,
    {
        match self {
            ConfigNode::Dict(entries) => {
                let n = entries.len();
                let mut i: usize = 0;
                proof {
                    assert(entries@.skip(0) =~= entries@);
                }
                while i < n
                    invariant
                        n == entries@.len(),
                        i <= n,
                        dict_get(entries@, key@) == dict_get(entries@.skip(i as int), key@),
                    decreases n - i,
                {
                    proof {
                        assert(entries@.skip(i as int)[0] == entries@[i as int]);
                        assert(entries@.skip(i as int).drop_first() =~= entries@.skip(i + 1));
                    }
                    if str_eq(entries[i].0.as_str(), key) {
                        proof {
                            assert(dict_get(entries@.skip(i as int), key@) == Some(
                                entries@[i as int].1,
                            ));
                        }
                        return &entries[i].1;
                    }
                    i += 1;
                }
                proof {
                    assert(entries@.skip(n as int).len() == 0);
                }
                &ConfigNode::Bad
            },
            _ => &ConfigNode::Bad,
        }
    }

    pub open spec fn spec_as_bool(self) -> Option<bool> {
        match self {
            ConfigNode::Bool(b) => Some(b),
            _ => None,
        }
    }

    pub fn as_bool(&self) -> (r: Option<bool>)
        ensures
            r == self.spec_as_bool(),
    {
        match self {
            ConfigNode::Bool(b) => Some(*b),
            _ => None,
        }
    }

    pub open spec fn spec_as_i64(self) -> Option<i64> {
        match self {
            ConfigNode::Int(x) => Some(x),
            _ => None,
        }
    }

    pub fn as_i64(&self) -> (r: Option<i64>)
        ensures
            r == self.spec_as_i64(),
    {
        match self {
            ConfigNode::Int(x) => Some(*x),
            _ => None,
        }
    }

    pub open spec fn spec_is_badvalue(self) -> bool {
        self is Bad
    }

    pub fn is_badvalue(&self) -> (r: bool)
        ensures
            r == self.spec_is_badvalue(),
    {
        match self {
            ConfigNode::Bad => true,
            _ => false,
        }
    }

    pub fn as_str(&self) -> (r: Option<&String>)
        ensures
            *self matches ConfigNode::Str(s) ==> r matches Some(v) && v@ == s@,
            !(*self is Str) ==> r is None,
    {
        match self {
            ConfigNode::Str(s) => Some(s),
            _ => None,
        }
    }

    pub fn as_list(&self) -> (r: Option<&Vec<ConfigNode>>)
        ensures
            *self matches ConfigNode::List(v) ==> r == Some(&v),
            !(*self is List) ==> r is None,
    {
        match self {
            ConfigNode::List(v) => Some(v),
            _ => None,
        }
    }
}

/// Is this character a decimal digit?
pub open spec fn is_digit(c: char) -> bool {
    '0' <= c && c <= '9'
}

/// The numeric value of a digit.
pub open spec fn digit_val(c: char) -> int {
    c as int - '0' as int
}

/// The index of the first non-digit at or after `i`.
pub open spec fn digits_end(s: Seq<char>, i: int) -> int
    decreases s.len() - i,
{
    if 0 <= i < s.len() && is_digit(s[i]) {
        digits_end(s, i + 1)
    } else {
        i
    }
}

/// The value of the digit run `s[i..j)`, most significant first.
pub open spec fn digits_val(s: Seq<char>, i: int, j: int) -> int
    decreases j - i,
{
    if i >= j {
        0
    } else {
        digits_val(s, i, j - 1) * 10 + digit_val(s[j - 1])
    }
}

/// What `parse_goods` accepts: `G`, then three digit runs (combat,
/// authority, trade in that order), each at most 255, separated by one
/// character each and reaching the end of the string. The whole string
/// must be the goods form: text before the `G` or after the last digit
/// run is deliberately rejected, so a malformed effect name cannot smuggle
/// a goods value past validation.
pub open spec fn spec_parse_goods(s: Seq<char>) -> Option<Goods> {
    if s.len() == 0 || s[0] != 'G' {
        None
    } else {
        let e1 = digits_end(s, 1);
        let v1 = digits_val(s, 1, e1);
        if e1 == 1 || v1 > 255 || e1 >= s.len() {
            None
        } else {
            let s2 = e1 + 1;
            let e2 = digits_end(s, s2);
            let v2 = digits_val(s, s2, e2);
            if e2 == s2 || v2 > 255 || e2 >= s.len() {
                None
            } else {
                let s3 = e2 + 1;
                let e3 = digits_end(s, s3);
                let v3 = digits_val(s, s3, e3);
                if e3 == s3 || v3 > 255 || e3 != s.len() {
                    None
                } else {
                    Some(Goods { trade: v3 as u8, authority: v2 as u8, combat: v1 as u8 })
                }
            }
        }
    }
}

/// Reads the digit run starting at `i`: its end, and its value capped at
/// 256 (a cap means the run's value exceeds every card bound).
fn scan_digits(s: &str, i: usize) -> (r: (usize, u32))
    requires
        i <= s@.len(),
        s@.len() <= usize::MAX,
    ensures
        r.0 == digits_end(s@, i as int),
        i <= r.0 <= s@.len(),
        digits_val(s@, i as int, r.0 as int) <= 255 ==> r.1 == digits_val(s@, i as int, r.0 as int),
        digits_val(s@, i as int, r.0 as int) > 255 ==> r.1 == 256,
{
    let n = s.unicode_len();
    let mut j: usize = i;
    let mut acc: u32 = 0;
    loop
        invariant_except_break
            n == s@.len(),
            i <= j <= n,
            digits_end(s@, i as int) == digits_end(s@, j as int),
            digits_val(s@, i as int, j as int) <= 255 ==> acc == digits_val(
                s@,
                i as int,
                j as int,
            ),
            digits_val(s@, i as int, j as int) > 255 ==> acc == 256,
            acc <= 256,
        ensures
            n == s@.len(),
            i <= j <= n,
            j == digits_end(s@, i as int),
            digits_val(s@, i as int, j as int) <= 255 ==> acc == digits_val(
                s@,
                i as int,
                j as int,
            ),
            digits_val(s@, i as int, j as int) > 255 ==> acc == 256,
        decreases n - j,
    {
        if j >= n {
            proof {
                assert(digits_end(s@, j as int) == j);
            }
            break;
        }
        let c = s.get_char(j);
        if !('0' <= c && c <= '9') {
            proof {
                assert(!is_digit(s@[j as int]));
                assert(digits_end(s@, j as int) == j);
            }
            break;
        }
        let d = char_digit(c);
        if acc <= 255 {
            let next = acc * 10 + d;
            acc = if next <= 255 {
                next
            } else {
                256
            };
        }
        proof {
            assert(digits_val(s@, i as int, j + 1) == digits_val(s@, i as int, j as int) * 10
                + digit_val(s@[j as int]));
        }
        j += 1;
    }
    (j, acc)
}

/// The numeric value of a digit character.
fn char_digit(c: char) -> (r: u32)
    requires
        is_digit(c),
    ensures
        r == digit_val(c),
        r <= 9,
{
    (c as u32) - ('0' as u32)
}

/// Parses a goods string such as `G2:0:1`: combat, authority and trade in
/// that order.
pub fn parse_goods(good_str: &str) -> (r: Option<Goods>)
    ensures
        r == spec_parse_goods(good_str@),
{
    let n = good_str.unicode_len();
    if n == 0 || good_str.get_char(0) != 'G' {
        return None;
    }
    let (e1, v1) = scan_digits(good_str, 1);
    if e1 == 1 || v1 > 255 || e1 >= n {
        return None;
    }
    let (e2, v2) = scan_digits(good_str, e1 + 1);
    if e2 == e1 + 1 || v2 > 255 || e2 >= n {
        return None;
    }
    let (e3, v3) = scan_digits(good_str, e2 + 1);
    if e3 == e2 + 1 || v3 > 255 || e3 != n {
        return None;
    }
    Some(Goods { trade: v3 as u8, authority: v2 as u8, combat: v1 as u8 })
}


/// A valid synergy letter entry.
pub open spec fn spec_syn_item_ok(item: ConfigNode) -> bool {
    item matches ConfigNode::Str(s) && (s@ == "m"@ || s@ == "s"@ || s@ == "b"@ || s@ == "f"@
        || s@ == "t"@)
}

/// An absent synergy list is fine; a present one must be a list of valid
/// letters.
pub open spec fn spec_synergy_ok(syn: ConfigNode) -> bool {
    ||| syn is Bad
    ||| (syn matches ConfigNode::List(items) && forall|i: int|
        0 <= i < items@.len() ==> spec_syn_item_ok(#[trigger] items@[i]))
}

/// An effects entry is a dictionary from condition names to action names.
pub open spec fn spec_effects_item_ok(item: ConfigNode) -> bool {
    item matches ConfigNode::Dict(entries) && forall|i: int|
        0 <= i < entries@.len() ==> (#[trigger] entries@[i]).1 is Str
}

pub open spec fn spec_effects_ok(eff: ConfigNode) -> bool {
    ||| eff is Bad
    ||| (eff matches ConfigNode::List(items) && forall|i: int|
        0 <= i < items@.len() ==> spec_effects_item_ok(#[trigger] items@[i]))
}

/// A string-to-string dictionary.
pub open spec fn spec_str_dict_ok(node: ConfigNode) -> bool {
    node matches ConfigNode::Dict(entries) && forall|i: int|
        0 <= i < entries@.len() ==> (#[trigger] entries@[i]).1 is Str
}

/// One effect-configuration entry: `cond` and `actn` objects, each a
/// string dictionary naming its base condition or action.
pub open spec fn spec_effcfg_item_ok(item: ConfigNode) -> bool {
    &&& spec_str_dict_ok(item.spec_get("cond"@))
    &&& spec_str_dict_ok(item.spec_get("actn"@))
    &&& item.spec_get("cond"@).spec_get("base"@) is Str
    &&& item.spec_get("actn"@).spec_get("base"@) is Str
}

pub open spec fn spec_effcfg_ok(cfg: ConfigNode) -> bool {
    ||| cfg is Bad
    ||| (cfg matches ConfigNode::List(items) && forall|i: int|
        0 <= i < items@.len() ==> spec_effcfg_item_ok(#[trigger] items@[i]))
}

/// Everything `parse_card` checks of a card-definition node.
pub open spec fn spec_card_node_ok(node: ConfigNode) -> bool {
    &&& node.spec_get("base"@).spec_as_bool() is Some
    &&& (node.spec_get("base"@).spec_as_bool() == Some(true) ==> node.spec_get(
        "defense"@,
    ).spec_as_i64() is Some && node.spec_get("outpost"@).spec_as_bool() is Some)
    &&& (node.spec_get("cost"@).spec_as_i64() matches Some(c) && 0 <= c <= 255)
    &&& spec_synergy_ok(node.spec_get("synergy"@))
    &&& spec_effects_ok(node.spec_get("effects"@))
    &&& spec_effcfg_ok(node.spec_get("effects_config"@))
}

/// Builds a string map from a string dictionary.
#[verifier::loop_isolation(false)]
fn dict_to_strmap(entries: &Vec<(String, ConfigNode)>) -> (r: Result<StrMap, String>)
    ensures
        (r is Ok) == (forall|i: int| 0 <= i < entries@.len() ==> (#[trigger] entries@[i]).1
            is Str),
{
    let n = entries.len();
    let mut out = StrMap::new();
    let mut i: usize = 0;
    while i < n
        invariant
            n == entries@.len(),
            i <= n,
            forall|j: int| 0 <= j < i ==> (#[trigger] entries@[j]).1 is Str,
        decreases n - i,
    {
        match &entries[i].1 {
            ConfigNode::Str(v) => {
                out.insert(entries[i].0.clone(), v.clone());
            },
            _ => {
                return Err(String::from_str("value of an entry could not be a string"));
            },
        }
        i += 1;
    }
    Ok(out)
}

/// Parses one effect-configuration entry into its keyed configuration
/// pair.
pub fn parse_effect_config(card_name: &str, config: &ConfigNode) -> (r: Result<
    ((String, String), EffectConfigPair),
    String,
>)
    ensures
        (r is Ok) == spec_effcfg_item_ok(*config),
{
    let cond = config.get("cond");
    let actn = config.get("actn");
    let cond_entries = match cond {
        ConfigNode::Dict(entries) => entries,
        _ => {
            return Err(String::from_str(
                "a card's effect config entry needs an object for the 'cond' key",
            ));
        },
    };
    let actn_entries = match actn {
        ConfigNode::Dict(entries) => entries,
        _ => {
            return Err(String::from_str(
                "a card's effect config entry needs an object for the 'actn' key",
            ));
        },
    };
    let cond_map = match dict_to_strmap(cond_entries) {
        Ok(m) => m,
        Err(e) => {
            return Err(e);
        },
    };
    let actn_map = match dict_to_strmap(actn_entries) {
        Ok(m) => m,
        Err(e) => {
            return Err(e);
        },
    };
    let cond_base = match cond.get("base").as_str() {
        Some(s) => s.clone(),
        None => {
            return Err(String::from_str(
                "a card's effect config entry needs a 'base' condition name",
            ));
        },
    };
    let actn_base = match actn.get("base").as_str() {
        Some(s) => s.clone(),
        None => {
            return Err(String::from_str(
                "a card's effect config entry needs a 'base' action name",
            ));
        },
    };
    Ok(((cond_base, actn_base), (cond_map, actn_map)))
}

/// Parses one card definition. The result is `Ok` exactly when the node
/// is well-formed, and then carries the declared name, cost, base shape
/// and effect names.
#[verifier::loop_isolation(false)]
pub fn parse_card(name: &str, node: &ConfigNode) -> (r: Result<Card, String>)
    ensures
        (r is Ok) == spec_card_node_ok(*node),
        r matches Ok(c) ==> c.name@ == name@ && Some(c.cost as i64) == node.spec_get(
            "cost"@,
        ).spec_as_i64() && c.content is None,
        r matches Ok(c) ==> (node.spec_get("base"@).spec_as_bool() == Some(false) ==> c.base
            is None),
        r matches Ok(c) ==> (node.spec_get("base"@).spec_as_bool() == Some(true) ==> (c.base
            matches Some(b) && (b is Outpost) == (node.spec_get("outpost"@).spec_as_bool()
            == Some(true)))),
{
    let base = match node.get("base").as_bool() {
        Some(true) => {
            let defense = match node.get("defense").as_i64() {
                Some(d) => d,
                None => {
                    return Err(String::from_str(
                        "must supply a 'defense' (int) value if 'base' is true",
                    ));
                },
            };
            #[verifier::truncate]
            let defense = defense as u8;
            match node.get("outpost").as_bool() {
                Some(true) => Some(Base::Outpost(defense)),
                Some(false) => Some(Base::Base(defense)),
                None => {
                    return Err(String::from_str(
                        "must supply an 'outpost' (bool) value if 'base' is true",
                    ));
                },
            }
        },
        Some(false) => None,
        None => {
            return Err(String::from_str("must supply 'base'"));
        },
    };

    let cost = match node.get("cost").as_i64() {
        Some(c) => {
            if 0 <= c && c <= 255 {
                c as u8
            } else {
                return Err(String::from_str("the cost is not in the range 0..255 for coins"));
            }
        },
        None => {
            return Err(String::from_str("must supply 'cost'"));
        },
    };

    let mut synergizes_with = FactionSet::empty();
    let syn_node = node.get("synergy");
    if !syn_node.is_badvalue() {
        let items = match syn_node.as_list() {
            Some(items) => items,
            None => {
                return Err(String::from_str("synergy must be a vec"));
            },
        };
        let n = items.len();
        let mut i: usize = 0;
        while i < n
            invariant
                n == items@.len(),
                i <= n,
                forall|j: int| 0 <= j < i ==> spec_syn_item_ok(#[trigger] items@[j]),
            decreases n - i,
        {
            let letter = match items[i].as_str() {
                Some(s) => s,
                None => {
                    proof {
                        assert(!spec_syn_item_ok(items@[i as int]));
                    }
                    return Err(String::from_str("synergy could not be a string"));
                },
            };
            if str_eq(letter.as_str(), "m") {
                synergizes_with.insert(Faction::Mech);
            } else if str_eq(letter.as_str(), "s") {
                synergizes_with.insert(Faction::Star);
            } else if str_eq(letter.as_str(), "b") {
                synergizes_with.insert(Faction::Blob);
            } else if str_eq(letter.as_str(), "f") || str_eq(letter.as_str(), "t") {
                synergizes_with.insert(Faction::Fed);
            } else {
                proof {
                    assert(!spec_syn_item_ok(items@[i as int]));
                }
                return Err(String::from_str(
                    "a synergy symbol was not one of [m, s, b, f, t]",
                ));
            }
            i += 1;
        }
    }

    let mut effects: Vec<(String, String)> = Vec::new();
    let eff_node = node.get("effects");
    if !eff_node.is_badvalue() {
        let items = match eff_node.as_list() {
            Some(items) => items,
            None => {
                return Err(String::from_str("effects must be a vec"));
            },
        };
        let n = items.len();
        let mut i: usize = 0;
        while i < n
            invariant
                n == items@.len(),
                i <= n,
                forall|j: int| 0 <= j < i ==> spec_effects_item_ok(#[trigger] items@[j]),
            decreases n - i,
        {
            let entries = match &items[i] {
                ConfigNode::Dict(entries) => entries,
                _ => {
                    proof {
                        assert(!spec_effects_item_ok(items@[i as int]));
                    }
                    return Err(String::from_str("an effects entry could not be an object"));
                },
            };
            let m = entries.len();
            let mut k: usize = 0;
            while k < m
                invariant
                    m == entries@.len(),
                    k <= m,
                    forall|j: int| 0 <= j < k ==> (#[trigger] entries@[j]).1 is Str,
                decreases m - k,
            {
                match &entries[k].1 {
                    ConfigNode::Str(v) => {
                        effects.push((entries[k].0.clone(), v.clone()));
                    },
                    _ => {
                        proof {
                            assert(!spec_effects_item_ok(items@[i as int]));
                        }
                        return Err(String::from_str(
                            "value of an effect could not be a string",
                        ));
                    },
                }
                k += 1;
            }
            i += 1;
        }
    }

    let mut effect_config: Vec<((String, String), EffectConfigPair)> = Vec::new();
    let cfg_node = node.get("effects_config");
    if !cfg_node.is_badvalue() {
        let items = match cfg_node.as_list() {
            Some(items) => items,
            None => {
                return Err(String::from_str("effects_config must be a vec"));
            },
        };
        let n = items.len();
        let mut i: usize = 0;
        while i < n
            invariant
                n == items@.len(),
                i <= n,
                forall|j: int| 0 <= j < i ==> spec_effcfg_item_ok(#[trigger] items@[j]),
            decreases n - i,
        {
            match parse_effect_config(name, &items[i]) {
                Ok(kv) => {
                    effect_config.push(kv);
                },
                Err(e) => {
                    proof {
                        assert(!spec_effcfg_item_ok(items@[i as int]));
                    }
                    return Err(e);
                },
            }
            i += 1;
        }
    }

    let mut all_effects = Effects::from_no_config_effects(effects);
    all_effects.add_configs(effect_config);
    Ok(
        Card {
            cost,
            name: name.to_owned(),
            base,
            synergizes_with,
            effects: all_effects,
            content: None,
        },
    )
}

/// Parses a whole card-definition document: a dictionary from card names
/// to card nodes.
#[verifier::loop_isolation(false)]
pub fn parse_cards(doc: &ConfigNode) -> (r: Result<Vec<Card>, String>)
    ensures
        r matches Ok(cards) ==> (doc matches ConfigNode::Dict(entries) && cards@.len()
            == entries@.len()),
{
    let entries = match doc {
        ConfigNode::Dict(entries) => entries,
        _ => {
            return Err(String::from_str("a card document must be a hash"));
        },
    };
    let n = entries.len();
    let mut cards: Vec<Card> = Vec::new();
    let mut i: usize = 0;
    while i < n
        invariant
            n == entries@.len(),
            i <= n,
            cards@.len() == i,
        decreases n - i,
    {
        match parse_card(entries[i].0.as_str(), &entries[i].1) {
            Ok(card) => {
                cards.push(card);
            },
            Err(e) => {
                return Err(e);
            },
        }
        i += 1;
    }
    Ok(cards)
}


/// The index of the first comma at or after `i`, or the end.
pub open spec fn comma_end(s: Seq<char>, i: int) -> int
    decreases s.len() - i,
{
    if 0 <= i < s.len() && s[i] != ',' {
        comma_end(s, i + 1)
    } else {
        i
    }
}

/// The sequence with leading spaces removed.
pub open spec fn trim_front(s: Seq<char>) -> Seq<char>
    decreases s.len(),
{
    if s.len() > 0 && s[0] == ' ' {
        trim_front(s.drop_first())
    } else {
        s
    }
}

/// The sequence with trailing spaces removed.
pub open spec fn trim_back(s: Seq<char>) -> Seq<char>
    decreases s.len(),
{
    if s.len() > 0 && s.last() == ' ' {
        trim_back(s.drop_last())
    } else {
        s
    }
}

/// A whole run of digits as a number, when it is one and fits.
pub open spec fn spec_u32_digits(s: Seq<char>) -> Option<u32> {
    if s.len() > 0 && (forall|i: int| 0 <= i < s.len() ==> is_digit(#[trigger] s[i]))
        && digits_val(s, 0, s.len() as int) <= u32::MAX {
        Some(digits_val(s, 0, s.len() as int) as u32)
    } else {
        None
    }
}

/// What `parse_vec` accepts: comma-separated pieces, each a number after
/// trimming spaces.
pub open spec fn spec_parse_vec(s: Seq<char>) -> Option<Seq<u32>>
    decreases s.len(),
{
    let k = comma_end(s, 0);
    let piece = trim_back(trim_front(s.take(k)));
    match spec_u32_digits(piece) {
        None => None,
        Some(v) => if 0 <= k < s.len() {
            match spec_parse_vec(s.skip(k + 1)) {
                None => None,
                Some(rest) => Some(seq![v] + rest),
            }
        } else {
            Some(seq![v])
        },
    }
}

/// Parses a comma-separated list of numbers, tolerating spaces around
/// each; any unparsable piece rejects the whole input.
#[verifier::loop_isolation(false)]
pub fn parse_vec(input: &str) -> (r: Result<Vec<u32>, ()>)
    ensures
        r matches Ok(v) ==> spec_parse_vec(input@) == Some(v@),
        r is Err ==> spec_parse_vec(input@) is None,
    decreases input@.len(),
{
    let n = input.unicode_len();
    let mut k: usize = 0;
    while k < n && input.get_char(k) != ','
        invariant
            n == input@.len(),
            0 <= k <= n,
            comma_end(input@, 0) == comma_end(input@, k as int),
        decreases n - k,
    {
        k += 1;
    }
    proof {
        assert(comma_end(input@, k as int) == k);
    }
    let mut a: usize = 0;
    let mut b: usize = k;
    proof {
        assert(input@.take(k as int).skip(0) =~= input@.take(k as int));
    }
    while a < b && input.get_char(a) == ' '
        invariant
            n == input@.len(),
            0 <= a <= b,
            b == k <= n,
            trim_front(input@.take(k as int)) == trim_front(input@.take(k as int).skip(a as int)),
        decreases b - a,
    {
        proof {
            assert(input@.take(k as int).skip(a as int)[0] == input@[a as int]);
            assert(input@.take(k as int).skip(a as int).drop_first() =~= input@.take(
                k as int,
            ).skip(a + 1));
        }
        a += 1;
    }
    proof {
        let t = input@.take(k as int).skip(a as int);
        if t.len() > 0 {
            assert(t[0] == input@[a as int]);
        }
        assert(trim_front(input@.take(k as int)) =~= input@.take(k as int).skip(a as int));
    }
    while b > a && input.get_char(b - 1) == ' '
        invariant
            n == input@.len(),
            0 <= a <= b <= k <= n,
            trim_back(input@.take(k as int).skip(a as int)) == trim_back(
                input@.take(b as int).skip(a as int),
            ),
        decreases b,
    {
        proof {
            let t = input@.take(b as int).skip(a as int);
            assert(t.last() == input@[b - 1]);
            assert(t.drop_last() =~= input@.take(b - 1).skip(a as int));
        }
        b -= 1;
    }
    proof {
        let t = input@.take(b as int).skip(a as int);
        if t.len() > 0 {
            assert(t.last() == input@[b - 1]);
        }
        assert(trim_back(input@.take(b as int).skip(a as int)) =~= input@.take(b as int).skip(
            a as int,
        ));
    }
    let ghost piece = input@.take(b as int).skip(a as int);
    // the piece must be one or more digits, and fit
    if a >= b {
        proof {
            assert(spec_u32_digits(piece) is None);
        }
        return Err(());
    }
    let mut acc: u64 = 0;
    let mut i: usize = a;
    while i < b
        invariant
            n == input@.len(),
            a <= i <= b <= n,
            piece == input@.take(b as int).skip(a as int),
            forall|j: int| a <= j < i ==> is_digit(#[trigger] input@[j]),
            digits_val(input@, a as int, i as int) <= u32::MAX ==> acc == digits_val(
                input@,
                a as int,
                i as int,
            ),
            digits_val(input@, a as int, i as int) > u32::MAX ==> acc == 0x1_0000_0000u64,
            acc <= 0x1_0000_0000u64,
        decreases b - i,
    {
        let c = input.get_char(i);
        if !('0' <= c && c <= '9') {
            proof {
                assert(piece[i - a] == input@[i as int]);
                assert(spec_u32_digits(piece) is None);
            }
            return Err(());
        }
        let d = (c as u32) - ('0' as u32);
        if acc <= u32::MAX as u64 {
            let next = acc * 10 + d as u64;
            acc = if next <= u32::MAX as u64 {
                next
            } else {
                0x1_0000_0000u64
            };
        }
        proof {
            assert(digits_val(input@, a as int, i + 1) == digits_val(input@, a as int, i as int)
                * 10 + digit_val(input@[i as int]));
        }
        i += 1;
    }
    if acc > u32::MAX as u64 {
        proof {
            lemma_piece_digits(input@, a as int, b as int);
            assert(spec_u32_digits(piece) is None);
        }
        return Err(());
    }
    let value = acc as u32;
    proof {
        lemma_piece_digits(input@, a as int, b as int);
        assert(spec_u32_digits(piece) == Some(value));
    }
    if k >= n {
        let mut out: Vec<u32> = Vec::new();
        out.push(value);
        proof {
            assert(out@ =~= seq![value]);
        }
        Ok(out)
    } else {
        let rest_str = input.substring_char(k + 1, n);
        match parse_vec(rest_str) {
            Ok(rest) => {
                let mut out: Vec<u32> = Vec::new();
                out.push(value);
                let mut rest = rest;
                let ghost restg = rest@;
                let mut j: usize = 0;
                let m = rest.len();
                while j < m
                    invariant
                        m == restg.len(),
                        j <= m,
                        rest@ == restg.skip(j as int),
                        out@ == seq![value] + restg.take(j as int),
                    decreases m - j,
                {
                    let x = rest.remove(0);
                    out.push(x);
                    proof {
                        assert(restg.skip(j as int)[0] == restg[j as int]);
                        assert(restg.skip(j as int).drop_first() =~= restg.skip(j + 1));
                        assert(out@ =~= seq![value] + restg.take(j + 1));
                    }
                    j += 1;
                }
                proof {
                    assert(restg.take(m as int) =~= restg);
                    assert(out@ =~= seq![value] + restg);
                }
                Ok(out)
            },
            Err(()) => Err(()),
        }
    }
}

/// The digit facts about a slice transfer to the piece it denotes.
proof fn lemma_piece_digits(s: Seq<char>, a: int, b: int)
    requires
        0 <= a <= b <= s.len(),
    ensures
        s.take(b).skip(a).len() == b - a,
        forall|j: int| 0 <= j < b - a ==> #[trigger] s.take(b).skip(a)[j] == s[a + j],
        forall|i2: int, j2: int| a <= i2 <= j2 <= b ==> digits_val(s, i2, j2) == digits_val(
            s.take(b).skip(a),
            i2 - a,
            j2 - a,
        ),
    decreases b - a,
{
    let t = s.take(b).skip(a);
    assert forall|i2: int, j2: int| a <= i2 <= j2 <= b implies digits_val(s, i2, j2)
        == digits_val(t, i2 - a, j2 - a) by {
        lemma_digits_val_shift(s, t, a, i2, j2);
    }
}

proof fn lemma_digits_val_shift(s: Seq<char>, t: Seq<char>, a: int, i: int, j: int)
    requires
        0 <= a <= i <= j,
        j <= s.len(),
        t.len() >= j - a,
        forall|q: int| 0 <= q < t.len() ==> #[trigger] t[q] == s[a + q],
    ensures
        digits_val(s, i, j) == digits_val(t, i - a, j - a),
    decreases j - i,
{
    if i < j {
        lemma_digits_val_shift(s, t, a, i, j - 1);
    }
}

/// A parsed list of numbers, for reading several values in one line.
pub struct ParsedVec(pub Vec<u32>);

impl ParsedVec {
    pub fn vec(self) -> (r: Vec<u32>)
        ensures
            r == self.0,
    {
        self.0
    }
}

impl std::str::FromStr for ParsedVec {
    type Err = ();

    fn from_str(s: &str) -> Result<Self, ()> {
        match parse_vec(s) {
            Ok(v) => Ok(ParsedVec(v)),
            Err(()) => Err(()),
        }
    }
}

} // verus!
