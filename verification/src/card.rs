//! The card record that every format reads and writes, and the contract that
//! the formats share.

use vstd::prelude::*;
use crate::constants::{Attribute, Category, Linkmarkers, Race, Type, OT};
use crate::setnames::{SetNameMap, SetNames};
use crate::text::{append, append_str, chars_of, join, string_of, string_views};

verus! {

/// Where a card was published.
#[derive(Debug, Clone)]
pub struct PackInfo {
    pub id: u32,
    pub pack_id: String,
    pub pack: String,
    pub rarity: Vec<String>,
    pub date: String,
}

/// The mathematical model of a [`PackInfo`].
pub struct PackInfoView {
    pub id: u32,
    pub pack_id: Seq<char>,
    pub pack: Seq<char>,
    pub rarity: Seq<Seq<char>>,
    pub date: Seq<char>,
}

impl View for PackInfo {
    type V = PackInfoView;

    open spec fn view(&self) -> PackInfoView {
        PackInfoView {
            id: self.id,
            pack_id: self.pack_id@,
            pack: self.pack@,
            rarity: string_views(self.rarity@),
            date: self.date@,
        }
    }
}

/// A half-open span `[start, end)` of character offsets into a source text.
#[derive(Debug, Copy, Clone, PartialEq, Eq, Structural)]
pub struct Range {
    pub start: usize,
    pub end: usize,
}

impl Range {
    /// The span from `start` up to `end`.
    pub fn from(start: usize, end: usize) -> (r: Range)
        ensures
            r.start == start,
            r.end == end,
    {
        Range { start, end }
    }
}

/// One card.
#[derive(Debug)]
pub struct Card {
    pub code: u32,
    pub name: String,
    pub desc: String,
    pub alias: u32,
    pub setcode: u64,
    pub _type: Type,
    pub level: u32,
    pub attribute: Attribute,
    pub race: Race,
    pub attack: i32,
    pub defense: i32,
    pub lscale: u32,
    pub rscale: u32,
    pub link_marker: Linkmarkers,
    pub ot: OT,
    pub category: Category,
    pub texts: Vec<String>,
    pub pack: Option<PackInfo>,
    pub range: Option<Range>,
}

/// The mathematical model of a [`Card`]: the same fields, text as sequences
/// of characters and flag sets as their bits.
pub struct CardView {
    pub code: u32,
    pub name: Seq<char>,
    pub desc: Seq<char>,
    pub alias: u32,
    pub setcode: u64,
    pub _type: u32,
    pub level: u32,
    pub attribute: u32,
    pub race: u32,
    pub attack: i32,
    pub defense: i32,
    pub lscale: u32,
    pub rscale: u32,
    pub link_marker: i32,
    pub ot: u32,
    pub category: u64,
    pub texts: Seq<Seq<char>>,
    pub pack: Option<PackInfoView>,
    pub range: Option<Range>,
}

impl View for Card {
    type V = CardView;

    open spec fn view(&self) -> CardView {
        CardView {
            code: self.code,
            name: self.name@,
            desc: self.desc@,
            alias: self.alias,
            setcode: self.setcode,
            _type: self._type.bits,
            level: self.level,
            attribute: self.attribute.bits,
            race: self.race.bits,
            attack: self.attack,
            defense: self.defense,
            lscale: self.lscale,
            rscale: self.rscale,
            link_marker: self.link_marker.bits,
            ot: self.ot.bits,
            category: self.category.bits,
            texts: string_views(self.texts@),
            pack: match self.pack {
                Some(p) => Some(p@),
                None => None,
            },
            range: self.range,
        }
    }
}

/// What the level of a monster stands for.
#[derive(Clone, Copy, Debug, PartialEq, Eq)]
pub enum MonsterStats {
    /// The level of an ordinary monster.
    Level(u32),
    /// The rank of an Xyz monster.
    Rank(u32),
    /// The link rating of a Link monster, with its link arrows.
    LinkRating(u32, Linkmarkers),
}

/// What the level field of a card stands for: nothing for a card that is no
/// monster, the rank for an Xyz monster, the link rating with the link
/// arrows for a Link monster, the level for any other monster.
pub open spec fn stats_of(card: CardView) -> Option<MonsterStats> {
    if card._type & Type::MONSTER != Type::MONSTER {
        None
    } else if card._type & Type::XYZ == Type::XYZ {
        Some(MonsterStats::Rank(card.level))
    } else if card._type & Type::LINK == Type::LINK {
        Some(MonsterStats::LinkRating(card.level, Linkmarkers { bits: card.link_marker }))
    } else {
        Some(MonsterStats::Level(card.level))
    }
}

/// A card without its span.
pub open spec fn unranged(card: CardView) -> CardView {
    CardView { range: None, ..card }
}

/// The models of a sequence of cards.
pub open spec fn card_views(cards: Seq<Card>) -> Seq<CardView> {
    cards.map_values(|c: Card| c@)
}

/// The card with nothing set: every number 0, every text empty, every flag
/// set empty but for the rule sets, which are OCG and TCG.
pub open spec fn blank_card() -> CardView {
    CardView {
        code: 0,
        name: seq![],
        desc: seq![],
        alias: 0,
        setcode: 0,
        _type: 0,
        level: 0,
        attribute: 0,
        race: 0,
        attack: 0,
        defense: 0,
        lscale: 0,
        rscale: 0,
        link_marker: 0,
        ot: 3,
        category: 0,
        texts: seq![],
        pack: None,
        range: None,
    }
}

/// Whether two lists of texts are the same.
fn same_texts(a: &Vec<String>, b: &Vec<String>) -> (r: bool)
    ensures
        r == (string_views(a@) == string_views(b@)),
{
    if a.len() != b.len() {
        return false;
    }
    let mut i: usize = 0;
    while i < a.len()
        invariant
            i <= a.len(),
            a.len() == b.len(),
            forall|k: int| 0 <= k < i ==> a@[k]@ == b@[k]@,
        decreases a.len() - i,
    {
        if a[i] != b[i] {
            assert(string_views(a@)[i as int] != string_views(b@)[i as int]);
            return false;
        }
        i += 1;
    }
    assert(string_views(a@) =~= string_views(b@));
    true
}

impl PackInfo {
    /// Whether two packs hold the same.
    pub fn same(&self, other: &PackInfo) -> (r: bool)
        ensures
            r == (self@ == other@),
    {
        self.id == other.id && self.pack_id == other.pack_id && self.pack == other.pack
            && same_texts(&self.rarity, &other.rarity) && self.date == other.date
    }
}

impl Card {
    /// Whether two cards hold the same, whatever their spans.
    pub fn same_but_range(&self, other: &Card) -> (r: bool)
        ensures
            r == (unranged(self@) == unranged(other@)),
    {
        let packs = match (&self.pack, &other.pack) {
            (Some(a), Some(b)) => a.same(b),
            (None, None) => true,
            _ => false,
        };
        packs && self.code == other.code && self.name == other.name && self.desc == other.desc
            && self.alias == other.alias && self.setcode == other.setcode && self._type.bits
            == other._type.bits && self.level == other.level && self.attribute.bits
            == other.attribute.bits && self.race.bits == other.race.bits && self.attack
            == other.attack && self.defense == other.defense && self.lscale == other.lscale
            && self.rscale == other.rscale && self.link_marker.bits == other.link_marker.bits
            && self.ot.bits == other.ot.bits && self.category.bits == other.category.bits
            && same_texts(&self.texts, &other.texts)
    }

    /// What the level of the card stands for.
    pub fn stats(&self) -> (r: Option<MonsterStats>)
        ensures
            r == stats_of(self@),
    {
        if self._type.bits & Type::MONSTER != Type::MONSTER {
            None
        } else if self._type.bits & Type::XYZ == Type::XYZ {
            Some(MonsterStats::Rank(self.level))
        } else if self._type.bits & Type::LINK == Type::LINK {
            Some(MonsterStats::LinkRating(self.level, self.link_marker))
        } else {
            Some(MonsterStats::Level(self.level))
        }
    }

    /// Whether the card is a draft: a card that only the xyyz notation can
    /// hold.
    pub fn is_draft(&self) -> (r: bool)
        ensures
            r == (self@.ot & OT::DRAFT == OT::DRAFT),
    {
        self.ot.bits & OT::DRAFT == OT::DRAFT
    }

    /// The card with nothing set.
    pub fn new() -> (r: Card)
        ensures
            r@ == blank_card(),
    {
        let r = Card {
            code: 0,
            name: String::new(),
            desc: String::new(),
            alias: 0,
            setcode: 0,
            _type: Type::empty(),
            level: 0,
            attribute: Attribute::empty(),
            race: Race::empty(),
            attack: 0,
            defense: 0,
            lscale: 0,
            rscale: 0,
            link_marker: Linkmarkers::empty(),
            ot: OT::from_bits_retain(3),
            category: Category::empty(),
            texts: Vec::new(),
            pack: None,
            range: None,
        };
        assert(r@.texts =~= Seq::<Seq<char>>::empty());
        r
    }
}

/// The texts of the cards, one per card.
pub open spec fn card_texts(
    cards: Seq<CardView>,
    text_of: spec_fn(CardView) -> Seq<char>,
) -> Seq<Seq<char>> {
    cards.map_values(text_of)
}

/// A format that cards are written in and read from.
pub trait CardTransformer {
    /// The text of one card in this format.
    spec fn text_of(card: CardView, names: SetNameMap) -> Seq<char>;

    /// The cards that a text in this format holds.
    spec fn cards_of(text: Seq<char>, names: SetNameMap) -> Seq<CardView>;

    fn to_string(card: &Card, names: &SetNames) -> (r: String)
        ensures
            r@ == Self::text_of(card@, names@),
    ;

    fn from_string(text: &str, names: &SetNames) -> (r: Vec<Card>)
        ensures
            card_views(r@) == Self::cards_of(text@, names@),
    ;

    /// The texts of the cards, in their order, with an empty line between
    /// each two.
    fn merge_string(cards: &Vec<Card>, names: &SetNames) -> (r: String)
        ensures
            r@ == join(
                card_texts(card_views(cards@), |c: CardView| Self::text_of(c, names@)),
                "\n\n"@,
            ),
    {
        let mut out: Vec<char> = Vec::new();
        let mut i: usize = 0;
        let ghost texts = card_texts(card_views(cards@), |c: CardView| Self::text_of(c, names@));
        while i < cards.len()
            invariant
                i <= cards.len(),
                texts == card_texts(card_views(cards@), |c: CardView| Self::text_of(c, names@)),
                out@ == join(texts.take(i as int), "\n\n"@),
            decreases cards.len() - i,
        {
            proof {
                let next = texts.take(i + 1);
                assert(next.drop_last() =~= texts.take(i as int));
                assert(next.last() == Self::text_of(cards@[i as int]@, names@));
                if i == 0 {
                    assert(out@ + next.last() =~= next.last());
                }
            }
            if i > 0 {
                append_str(&mut out, "\n\n");
            }
            let one = Self::to_string(&cards[i], names);
            let chars = chars_of(one.as_str());
            append(&mut out, &chars);
            i += 1;
        }
        assert(texts.take(texts.len() as int) =~= texts);
        string_of(&out)
    }
}

} // verus!
