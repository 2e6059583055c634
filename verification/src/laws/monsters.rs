//! The stats of a monster: reading groups that tell the stats as they were
//! written gives the fields back.

use vstd::prelude::*;
use crate::card::CardView;
use crate::constants::{Attribute, Linkmarkers, Race, Type};
use crate::laws::flags::{lemma_attribute_round_trip, lemma_race_round_trip};
use crate::laws::kinds::{lemma_subtype_round_trip, shown_subtype};
use crate::laws::levels::{lemma_level_round_trip, lemma_linkmarkers_round_trip};
use crate::laws::stats::lemma_stat_round_trip;
use crate::transformers::xyyz::{
    attribute_text, group, is_stats, level_text, linkmarkers_text, race_text, stat_of_text,
    stat_text, subtype_text, with_stats,
};

verus! {

/// The last piece of the stats of a monster: the link arrows of a Link
/// monster, the defense of any other.
pub open spec fn last_stat(card: CardView) -> Seq<char> {
    if card._type & Type::LINK == Type::LINK {
        linkmarkers_text(card.link_marker)
    } else {
        stat_text(card.defense)
    }
}

/// Whether the groups tell the stats of a monster as they were written:
/// attributes, level, races, subtype list, attack, the last piece, and the
/// link arrows once more where there are any. The whole match does not
/// count.
pub open spec fn tells_stats(stats: Seq<Option<Seq<char>>>, card: CardView) -> bool {
    &&& group(stats, 1) == Some(attribute_text(card.attribute))
    &&& group(stats, 2) == Some(level_text(card))
    &&& group(stats, 3) == Some(race_text(card.race))
    &&& group(stats, 4) == Some(subtype_text(card._type))
    &&& group(stats, 5) == Some(stat_text(card.attack))
    &&& group(stats, 6) == Some(last_stat(card))
    &&& group(stats, 7) == if card._type & Type::LINK == Type::LINK && card.link_marker != 0 {
        Some(linkmarkers_text(card.link_marker))
    } else {
        None
    }
}

/// Whether the stats of a monster can be read back from what is written of
/// them. Its attributes, races and link arrows are of their lists, the races
/// without the second race named `兽战士`. Its kinds are the Monster kind
/// and what its subtype list tells. The defense of a Link monster is its
/// link arrows.
pub open spec fn is_plain_monster(card: CardView) -> bool {
    &&& card._type == shown_subtype(card._type) | Type::MONSTER
    &&& card.attribute & !Attribute::ALL == 0
    &&& card.race & !Race::ALL == 0
    &&& card.race & Race::BEASTWARRIOR == 0
    &&& card.link_marker & !Linkmarkers::ALL == 0
    &&& card._type & Type::LINK == Type::LINK ==> card.defense == card.link_marker
}

/// The empty text is no number.
proof fn lemma_empty_stat()
    ensures
        stat_of_text(Seq::<char>::empty()) == 0,
{
    reveal_strlit("?");
    reveal_strlit("∞");
}

/// The kinds of a Link monster do not change when the Link kind is added.
proof fn lemma_link_again(kinds: u32)
    by (bit_vector)
    requires
        kinds & Type::LINK == Type::LINK,
    ensures
        kinds | Type::LINK == kinds,
{
}

/// Reading groups that tell the stats of a monster as they were written
/// gives its attributes, level, races, kinds, attack and defense back, and
/// its link arrows where it shows any.
pub proof fn lemma_stats_round_trip(
    card: CardView,
    base: CardView,
    stats: Seq<Option<Seq<char>>>,
)
    requires
        is_plain_monster(card),
        tells_stats(stats, card),
    ensures
        is_stats(stats),
        with_stats(base, stats) == (CardView {
            attribute: card.attribute,
            level: card.level,
            race: card.race,
            _type: card._type,
            attack: card.attack,
            defense: card.defense,
            link_marker: if card._type & Type::LINK == Type::LINK && card.link_marker != 0 {
                card.link_marker
            } else {
                base.link_marker
            },
            ..base
        }),
{
    lemma_attribute_round_trip(card.attribute);
    lemma_level_round_trip(card);
    lemma_race_round_trip(card.race);
    lemma_subtype_round_trip(card._type);
    lemma_stat_round_trip(card.attack);
    lemma_stat_round_trip(card.defense);
    if card._type & Type::LINK == Type::LINK {
        lemma_link_again(card._type);
        if card.link_marker != 0 {
            lemma_linkmarkers_round_trip(card.link_marker);
        } else {
            lemma_empty_stat();
        }
    }
}

} // verus!
