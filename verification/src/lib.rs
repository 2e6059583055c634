//! Conversion of trading-card records between the line-oriented "xyyz" text
//! notation and other formats, through one shared [`card::Card`] record.

use vstd::prelude::*;

pub mod card;
pub mod cli;
pub mod constants;
pub mod laws;
pub mod names;
pub mod number;
pub mod pattern;
pub mod setnames;
pub mod text;
pub mod transformers;

use crate::card::{card_views, Card, CardTransformer};
use crate::constants::{Race, Type};
use crate::setnames::{add_conf, SetNames};
use crate::transformers::xyyz::{card_text, cards_of_text, race_text, subtype_text, Xyyz};

verus! {

/// The cards of a text in the xyyz notation.
pub fn parse(text: &str, names: &SetNames) -> (r: Vec<Card>)
    ensures
        card_views(r@) == cards_of_text(text@, names@),
{
    Xyyz::from_string(text, names)
}

/// The table of set names that a configuration text describes.
pub fn set_string_conf(text: &str) -> (r: SetNames)
    ensures
        r@ == add_conf(Map::<u16, Seq<char>>::empty(), text@),
{
    crate::setnames::set_string_conf(text)
}

/// The text of a card in the xyyz notation.
pub fn format(card: &Card, names: &SetNames) -> (r: String)
    ensures
        r@ == card_text(card@, names@),
{
    Xyyz::to_string(card, names)
}

/// The subtype list of a monster with the given kinds.
pub fn format_subtype(_type: u32) -> (r: String)
    ensures
        r@ == subtype_text(_type),
{
    Xyyz::format_subtype(&Type::from_bits_retain(_type))
}

/// The names of the races of the given set.
pub fn format_race(race: u32) -> (r: String)
    ensures
        r@ == race_text(race),
{
    Xyyz::format_race(&Race::from_bits_retain(race))
}

} // verus!
