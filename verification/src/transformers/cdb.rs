//! The rows of a card database: each row of the joined tables `datas` and
//! `texts` read as one card.

use vstd::prelude::*;
use crate::card::{card_views, Card, CardView};
use crate::constants::{Attribute, Category, Linkmarkers, Race, Type, OT};
use crate::number::{
    decimal, parse_i32, parse_u32, parse_u64, read_i32, read_u32, read_u64, write_decimal_digits,
};
use crate::text::{append, chars_of, join, seq_eq, string_of, strings_of, views};
use crate::transformers::sql::{sql_text, SQL};

verus! {

/// A card database.
pub struct CDB;

/// One row of a query: the name of each column with its value, `None` for
/// NULL.
pub type Row = Vec<(String, Option<String>)>;

/// The mathematical model of a row.
pub type RowView = Seq<(Seq<char>, Option<Seq<char>>)>;

/// The model of a row.
pub open spec fn row_view(row: Seq<(String, Option<String>)>) -> RowView {
    row.map_values(
        |c: (String, Option<String>)|
            (
                c.0@,
                match c.1 {
                    Some(v) => Some(v@),
                    None => None,
                },
            ),
    )
}

/// The models of the rows of a query.
pub open spec fn rows_view(rows: Seq<Row>) -> Seq<RowView> {
    rows.map_values(|r: Row| row_view(r@))
}

/// The value of the last of the first `n` columns that has the given name
/// and is not NULL.
pub open spec fn column_from(row: RowView, name: Seq<char>, n: int) -> Option<Seq<char>>
    decreases n,
{
    if n <= 0 || n > row.len() {
        None
    } else if row[n - 1].0 == name && row[n - 1].1 is Some {
        row[n - 1].1
    } else {
        column_from(row, name, n - 1)
    }
}

/// The value of a column; of several columns of one name the last counts.
pub open spec fn column(row: RowView, name: Seq<char>) -> Option<Seq<char>> {
    column_from(row, name, row.len() as int)
}

/// The value of a column as a number of 32 bits.
pub open spec fn column_u32(row: RowView, name: Seq<char>) -> Option<u32> {
    match column(row, name) {
        Some(v) => parse_u32(v),
        None => None,
    }
}

/// The value of a column as a number of 64 bits.
pub open spec fn column_u64(row: RowView, name: Seq<char>) -> Option<u64> {
    match column(row, name) {
        Some(v) => parse_u64(v),
        None => None,
    }
}

/// The value of a column as a signed number of 32 bits.
pub open spec fn column_i32(row: RowView, name: Seq<char>) -> Option<i32> {
    match column(row, name) {
        Some(v) => parse_i32(v),
        None => None,
    }
}

/// `texts` filled up with empty texts to the length `n`.
pub open spec fn padded(texts: Seq<Seq<char>>, n: nat) -> Seq<Seq<char>>
    decreases n,
{
    if texts.len() >= n {
        texts
    } else {
        padded(texts, (n - 1) as nat).push(seq![])
    }
}

/// The hint texts that the columns `str1` to `str<n>` give: a column that is
/// not empty gives the text at its place, the places before it that no
/// column filled being empty.
pub open spec fn row_texts(row: RowView, n: nat) -> Seq<Seq<char>>
    decreases n,
{
    if n == 0 {
        seq![]
    } else {
        let before = row_texts(row, (n - 1) as nat);
        match column(row, "str"@ + decimal(n as int)) {
            Some(s) if s.len() > 0 => padded(before, (n - 1) as nat).push(s),
            _ => before,
        }
    }
}

/// Whether a row has what a card takes: identifier, name, description,
/// alias, set code, kinds, rule sets and categories, and for a monster also
/// level, attribute, race, attack and defense, each number in the range of
/// its field.
pub open spec fn is_card_row(row: RowView) -> bool {
    &&& column_u32(row, "id"@) is Some
    &&& column(row, "name"@) is Some
    &&& column(row, "desc"@) is Some
    &&& column_u32(row, "alias"@) is Some
    &&& column_u64(row, "setcode"@) is Some
    &&& column_u32(row, "type"@) is Some
    &&& column_u32(row, "ot"@) is Some
    &&& column_u64(row, "category"@) is Some
    &&& column_u32(row, "type"@)->0 & Type::MONSTER == Type::MONSTER ==> {
        &&& column_u32(row, "level"@) is Some
        &&& column_u32(row, "attribute"@) is Some
        &&& column_u32(row, "race"@) is Some
        &&& column_i32(row, "atk"@) is Some
        &&& column_i32(row, "def"@) is Some
    }
}

/// The card that a row holds.
///
/// Level, attribute, race, attack and defense are read for a monster only.
/// For a Link monster the defense column holds the link arrows, and the
/// defense is the level column as a signed number. For a Pendulum monster
/// the left scale is the fourth byte of the level column and the right scale
/// the third. The level is the lowest byte of the level column. Of the text
/// columns the first 15 are read.
pub open spec fn card_of_row(row: RowView) -> CardView {
    let kinds = column_u32(row, "type"@)->0;
    let monster = kinds & Type::MONSTER == Type::MONSTER;
    let level: u32 = if monster {
        column_u32(row, "level"@)->0
    } else {
        0
    };
    let defense: i32 = if monster {
        column_i32(row, "def"@)->0
    } else {
        0
    };
    let link = kinds & Type::LINK == Type::LINK;
    let pendulum = kinds & Type::PENDULUM == Type::PENDULUM;
    CardView {
        code: column_u32(row, "id"@)->0,
        name: column(row, "name"@)->0,
        desc: column(row, "desc"@)->0,
        alias: column_u32(row, "alias"@)->0,
        setcode: column_u64(row, "setcode"@)->0,
        _type: kinds,
        level: level & 0xff,
        attribute: if monster {
            column_u32(row, "attribute"@)->0
        } else {
            0
        },
        race: if monster {
            column_u32(row, "race"@)->0
        } else {
            0
        },
        attack: if monster {
            column_i32(row, "atk"@)->0
        } else {
            0
        },
        defense: if link {
            level as i32
        } else {
            defense
        },
        lscale: if pendulum {
            (level >> 24) & 0xff
        } else {
            0
        },
        rscale: if pendulum {
            (level >> 16) & 0xff
        } else {
            0
        },
        link_marker: if link {
            defense
        } else {
            0
        },
        ot: column_u32(row, "ot"@)->0,
        category: column_u64(row, "category"@)->0 & Category::ALL,
        texts: row_texts(row, 15),
        pack: None,
        range: None,
    }
}

/// The cards of the first `n` rows, `None` where one of them is no card row.
pub open spec fn cards_of_rows(rows: Seq<RowView>, n: nat) -> Option<Seq<CardView>>
    decreases n,
{
    if n == 0 || n > rows.len() {
        Some(seq![])
    } else {
        match cards_of_rows(rows, (n - 1) as nat) {
            Some(before) if is_card_row(rows[n - 1]) => Some(before.push(card_of_row(rows[n - 1]))),
            _ => None,
        }
    }
}

/// The statements that store the cards, one card per line pair.
pub open spec fn save_text(cards: Seq<CardView>) -> Seq<char> {
    join(cards.map_values(|c: CardView| sql_text(c)), "\n"@)
}

/// The value of a column.
fn column_of(row: &Row, name: &str) -> (r: Option<Vec<char>>)
    ensures
        match r {
            Some(v) => column(row_view(row@), name@) == Some(v@),
            None => column(row_view(row@), name@) is None,
        },
{
    let wanted = chars_of(name);
    let mut n: usize = row.len();
    while n > 0
        invariant
            n <= row.len(),
            wanted@ == name@,
            column(row_view(row@), name@) == column_from(row_view(row@), name@, n as int),
        decreases n,
    {
        let found = seq_eq(&chars_of(row[n - 1].0.as_str()), &wanted);
        assert(row_view(row@)[n - 1].0 == row@[n - 1].0@);
        assert(row_view(row@)[n - 1].1 == match row@[n - 1].1 {
            Some(v) => Some(v@),
            None => None,
        });
        if found {
            match &row[n - 1].1 {
                Some(v) => {
                    return Some(chars_of(v.as_str()));
                },
                None => {},
            }
        }
        n -= 1;
    }
    None
}

fn u32_of(row: &Row, name: &str) -> (r: Option<u32>)
    ensures
        r == column_u32(row_view(row@), name@),
{
    match column_of(row, name) {
        Some(v) => read_u32(&v),
        None => None,
    }
}

fn u64_of(row: &Row, name: &str) -> (r: Option<u64>)
    ensures
        r == column_u64(row_view(row@), name@),
{
    match column_of(row, name) {
        Some(v) => read_u64(&v),
        None => None,
    }
}

fn i32_of(row: &Row, name: &str) -> (r: Option<i32>)
    ensures
        r == column_i32(row_view(row@), name@),
{
    match column_of(row, name) {
        Some(v) => read_i32(&v),
        None => None,
    }
}

/// The hint texts of a row.
fn texts_of(row: &Row) -> (r: Vec<Vec<char>>)
    ensures
        views(r@) == row_texts(row_view(row@), 15),
{
    let mut texts: Vec<Vec<char>> = Vec::new();
    let mut i: usize = 0;
    assert(views(texts@) =~= Seq::<Seq<char>>::empty());
    while i < 15
        invariant
            i <= 15,
            texts@.len() <= i,
            views(texts@) == row_texts(row_view(row@), i as nat),
        decreases 15 - i,
    {
        let mut name = chars_of("str");
        append(&mut name, &write_decimal_digits((i + 1) as u64));
        match column_of(row, string_of(&name).as_str()) {
            Some(s) => {
                if s.len() > 0 {
                    while texts.len() < i
                        invariant
                            texts@.len() <= i,
                            padded(views(texts@), i as nat) == padded(
                                row_texts(row_view(row@), i as nat),
                                i as nat,
                            ),
                        decreases i - texts.len(),
                    {
                        let ghost before = views(texts@);
                        let empty: Vec<char> = Vec::new();
                        texts.push(empty);
                        proof {
                            assert(views(texts@) =~= before.push(seq![]));
                            lemma_padded_push(before, i as nat);
                        }
                    }
                    let ghost before = views(texts@);
                    texts.push(s);
                    assert(views(texts@) =~= before.push(s@));
                }
            },
            None => {},
        }
        i += 1;
    }
    texts
}

/// Filling up is the same after one empty text was added.
pub proof fn lemma_padded_push(texts: Seq<Seq<char>>, n: nat)
    requires
        texts.len() < n,
    ensures
        padded(texts.push(seq![]), n) == padded(texts, n),
    decreases n,
{
    if texts.len() + 1 >= n {
        assert(padded(texts, (n - 1) as nat) == texts);
    } else {
        lemma_padded_push(texts, (n - 1) as nat);
    }
}

impl CDB {
    /// The card that a row holds, `None` where the row has not what a card
    /// takes.
    pub fn card_of_row(row: &Row) -> (r: Option<Card>)
        ensures
            match r {
                Some(card) => is_card_row(row_view(row@)) && card@ == card_of_row(row_view(row@)),
                None => !is_card_row(row_view(row@)),
            },
    {
        let code = u32_of(row, "id")?;
        let name = column_of(row, "name")?;
        let desc = column_of(row, "desc")?;
        let alias = u32_of(row, "alias")?;
        let setcode = u64_of(row, "setcode")?;
        let kinds = u32_of(row, "type")?;
        let ot = u32_of(row, "ot")?;
        let category = u64_of(row, "category")?;
        let monster = kinds & Type::MONSTER == Type::MONSTER;
        let mut level: u32 = 0;
        let mut attribute: u32 = 0;
        let mut race: u32 = 0;
        let mut attack: i32 = 0;
        let mut defense: i32 = 0;
        if monster {
            level = u32_of(row, "level")?;
            attribute = u32_of(row, "attribute")?;
            race = u32_of(row, "race")?;
            attack = i32_of(row, "atk")?;
            defense = i32_of(row, "def")?;
        }
        let link = kinds & Type::LINK == Type::LINK;
        let pendulum = kinds & Type::PENDULUM == Type::PENDULUM;
        let texts = strings_of(&texts_of(row));
        let card = Card {
            code,
            name: string_of(&name),
            desc: string_of(&desc),
            alias,
            setcode,
            _type: Type::from_bits_retain(kinds),
            level: level & 0xff,
            attribute: Attribute::from_bits_retain(attribute),
            race: Race::from_bits_retain(race),
            attack,
            defense: if link {
                level as i32
            } else {
                defense
            },
            lscale: if pendulum {
                (level >> 24) & 0xff
            } else {
                0
            },
            rscale: if pendulum {
                (level >> 16) & 0xff
            } else {
                0
            },
            link_marker: Linkmarkers::from_bits_retain(
                if link {
                    defense
                } else {
                    0
                },
            ),
            ot: OT::from_bits_retain(ot),
            category: Category::from_bits_truncate(category),
            texts,
            pack: None,
            range: None,
        };
        Some(card)
    }

    /// The cards of the rows of a query, `None` where a row has not what a
    /// card takes.
    pub fn from_rows(rows: &Vec<Row>) -> (r: Option<Vec<Card>>)
        ensures
            match r {
                Some(cards) => cards_of_rows(rows_view(rows@), rows@.len()) == Some(
                    card_views(cards@),
                ),
                None => cards_of_rows(rows_view(rows@), rows@.len()) is None,
            },
    {
        let mut cards: Vec<Card> = Vec::new();
        let mut i: usize = 0;
        assert(card_views(cards@) =~= Seq::<CardView>::empty());
        while i < rows.len()
            invariant
                i <= rows.len(),
                cards_of_rows(rows_view(rows@), i as nat) == Some(card_views(cards@)),
            decreases rows.len() - i,
        {
            assert(rows_view(rows@)[i as int] == row_view(rows@[i as int]@));
            match Self::card_of_row(&rows[i]) {
                Some(card) => {
                    proof {
                        assert(card_views(cards@.push(card)) =~= card_views(cards@).push(card@));
                    }
                    cards.push(card);
                },
                None => {
                    proof {
                        lemma_rows_fail(rows_view(rows@), (i + 1) as nat, rows@.len());
                    }
                    return None;
                },
            }
            i += 1;
        }
        Some(cards)
    }

    /// The statements that store the cards.
    pub fn save_script(cards: &Vec<Card>) -> (r: String)
        ensures
            r@ == save_text(card_views(cards@)),
    {
        let mut parts: Vec<Vec<char>> = Vec::new();
        let mut i: usize = 0;
        while i < cards.len()
            invariant
                i <= cards.len(),
                parts@.len() == i,
                forall|k: int| 0 <= k < i ==> parts@[k]@ == sql_text(cards@[k]@),
            decreases cards.len() - i,
        {
            parts.push(chars_of(SQL::to_string(&cards[i]).as_str()));
            i += 1;
        }
        assert(views(parts@) =~= card_views(cards@).map_values(|c: CardView| sql_text(c)));
        let newline = chars_of("\n");
        string_of(&crate::text::join_with(&parts, &newline))
    }
}

/// Once the first `n` rows hold no cards, no more rows do.
pub proof fn lemma_rows_fail(rows: Seq<RowView>, n: nat, m: nat)
    requires
        1 <= n <= m <= rows.len(),
        cards_of_rows(rows, n) is None,
    ensures
        cards_of_rows(rows, m) is None,
    decreases m,
{
    if m > n {
        lemma_rows_fail(rows, n, (m - 1) as nat);
    }
}

} // verus!
