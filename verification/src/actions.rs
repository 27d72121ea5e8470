//! Constructors for the atomic actionables cards are built from.

use vstd::prelude::*;

use crate::client_comms::ClientActionOptionQuery;
use crate::components::Goods;
use crate::details::{Actionable, ActionOp, CardSource};
use crate::util::Join;

verus! {

/// Add goods to the current player's turn total.
pub fn add_goods(goods: Goods) -> (r: Actionable)
    ensures
        r.op == ActionOp::AddGoods(goods),
        r.client_query is None,
{
    Actionable::no_args(ActionOp::AddGoods(goods))
}

/// Draw one card from the deck.
pub fn draw_card() -> (r: Actionable)
    ensures
        r.op is DrawCard,
        r.client_query is None,
{
    Actionable::no_args(ActionOp::DrawCard)
}

/// Scrap one card from any one of the sources, chosen by the client: the
/// query offers exactly one card selection per source, as a disjoint
/// choice, a single source collapsing to the plain selection.
#[verifier::loop_isolation(false)]
pub fn scrap_card(sources: Vec<CardSource>) -> (r: Actionable)
    requires
        sources@.len() > 0,
    ensures
        r.op is ScrapCard,
        r.client_query matches Some(q) && q.wf(),
        sources@.len() == 1 ==> r.client_query == Some(
            Join::Unit(ClientActionOptionQuery::CardSelection(sources@[0])),
        ),
        sources@.len() > 1 ==> (r.client_query matches Some(q) && q is Disjoint
            && q.children().len() == sources@.len() && forall|i: int| 0 <= i < sources@.len()
            ==> q.children()[i] == Join::Unit(
            ClientActionOptionQuery::CardSelection(sources@[i]),
        )),
{
    let mut joined: Vec<ClientActionOptionQuery> = Vec::new();
    let mut sources = sources;
    let n = sources.len();
    let ghost sources0 = sources@;
    let mut k: usize = 0;
    while sources.len() > 0
        invariant
            n == sources0.len(),
            k <= n,
            k + sources@.len() == sources0.len(),
            sources@ == sources0.skip(k as int),
            joined@.len() == k,
            forall|j: int| 0 <= j < k ==> (#[trigger] joined@[j])
                == ClientActionOptionQuery::CardSelection(sources0[j]),
        decreases sources@.len(),
    {
        proof {
            assert(sources0.skip(k as int)[0] == sources0[k as int]);
        }
        let source = sources.remove(0);
        joined.push(ClientActionOptionQuery::CardSelection(source));
        k += 1;
    }
    Actionable::new(Join::disjoint(joined), ActionOp::ScrapCard)
}

/// Discard the card the client selects from a hand.
pub fn discard_card() -> (r: Actionable)
    ensures
        r.op is DiscardCard,
        r.client_query matches Some(q) && q.wf(),
{
    Actionable::new(
        Join::Unit(
            ClientActionOptionQuery::CardSelection(
                CardSource::Hand(crate::game::RelativePlayer::Current),
            ),
        ),
        ActionOp::DiscardCard,
    )
}

/// Remember to put the next card acquired this turn at `destination`.
pub fn specially_place_next_acquired(destination: CardSource) -> (r: Actionable)
    ensures
        r.op == ActionOp::PlaceNextAcquired(destination),
        r.client_query is None,
{
    Actionable::no_args(ActionOp::PlaceNextAcquired(destination))
}

} // verus!
