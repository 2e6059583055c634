//! The header line of a card: reading groups that tell the header as it was
//! written gives the fields back.

use vstd::prelude::*;
use crate::card::{blank_card, CardView, Range};
use crate::constants::{Type, OT};
use crate::laws::levels::lemma_number_round_trip;
use crate::laws::monsters::{is_plain_monster, lemma_stats_round_trip, tells_stats};
use crate::laws::rule_sets::lemma_ot_round_trip;
use crate::laws::spells::{is_plain_kind, lemma_kind_round_trip};
use crate::number::decimal;
use crate::transformers::xyyz::{group, is_header, is_stats, opened_card, ot_text, type_text};

verus! {

/// Whether the groups tell the header of a card as it was written: no
/// bracketed prefix, the name, the code, the alias where the card has one,
/// the rule sets unless they are OCG with TCG, and for a card that is no
/// monster its kind. The whole match and the groups that hold the alias
/// with its arrow and the rule sets with their parentheses do not count.
pub open spec fn tells_header(groups: Seq<Option<Seq<char>>>, card: CardView) -> bool {
    &&& group(groups, 1) is None
    &&& group(groups, 2) == Some(card.name)
    &&& group(groups, 3) == Some(decimal(card.code as int))
    &&& group(groups, 5) == if card.alias > 0 {
        Some(decimal(card.alias as int))
    } else {
        None
    }
    &&& group(groups, 6) is Some
    &&& card._type & Type::MONSTER != Type::MONSTER ==> group(groups, 6) == Some(
        type_text(card._type),
    )
    &&& group(groups, 8) == if card.ot != 3 {
        Some(ot_text(card.ot))
    } else {
        None
    }
}

/// Whether what is found of stats in the header of a card is what was
/// written: groups that tell the stats of a monster, and no stats for any
/// other card.
pub open spec fn tells_stats_of(stats: Option<Seq<Option<Seq<char>>>>, card: CardView) -> bool {
    if card._type & Type::MONSTER == Type::MONSTER {
        match stats {
            Some(s) => tells_stats(s, card),
            None => false,
        }
    } else {
        match stats {
            Some(s) => !is_stats(s),
            None => true,
        }
    }
}

/// Whether the header of a card can be read back from what is written of
/// it: its rule sets are of their list, and it is a plain monster or a plain
/// spell or trap card.
pub open spec fn is_plain_card(card: CardView) -> bool {
    &&& card.ot & !OT::ALL == 0
    &&& if card._type & Type::MONSTER == Type::MONSTER {
        is_plain_monster(card)
    } else {
        is_plain_kind(card._type)
    }
}

/// What the header line tells of a card, read at the offset `offset`: code,
/// name, alias, rule sets and kinds, and of a monster attributes, level,
/// races, attack and defense, and the link arrows where it shows any.
pub open spec fn header_fields(card: CardView, offset: usize) -> CardView {
    let told = CardView {
        code: card.code,
        name: card.name,
        alias: card.alias,
        ot: card.ot,
        _type: card._type,
        range: Some(Range { start: offset, end: offset }),
        ..blank_card()
    };
    if card._type & Type::MONSTER == Type::MONSTER {
        CardView {
            attribute: card.attribute,
            level: card.level,
            race: card.race,
            attack: card.attack,
            defense: card.defense,
            link_marker: if card._type & Type::LINK == Type::LINK {
                card.link_marker
            } else {
                0
            },
            ..told
        }
    } else {
        told
    }
}

/// Reading groups that tell the header of a plain card as it was written
/// opens a card with the fields that the header tells.
pub proof fn lemma_header_round_trip(
    card: CardView,
    groups: Seq<Option<Seq<char>>>,
    stats: Option<Seq<Option<Seq<char>>>>,
    offset: usize,
)
    requires
        is_plain_card(card),
        tells_header(groups, card),
        tells_stats_of(stats, card),
    ensures
        is_header(groups),
        opened_card(groups, stats, offset) == header_fields(card, offset),
{
    lemma_number_round_trip(card.code);
    lemma_number_round_trip(card.alias);
    lemma_ot_round_trip(card.ot);
    let base = CardView {
        code: card.code,
        name: card.name,
        alias: card.alias,
        ot: card.ot,
        pack: None,
        range: Some(Range { start: offset, end: offset }),
        ..blank_card()
    };
    if card._type & Type::MONSTER == Type::MONSTER {
        lemma_stats_round_trip(card, base, stats->0);
    } else {
        lemma_kind_round_trip(card._type);
    }
}

} // verus!
