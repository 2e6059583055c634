//! SQL statements that store a card in the two tables of a card database.

use vstd::prelude::*;
use crate::card::{card_texts, card_views, Card, CardView};
use crate::constants::Type;
use crate::number::{decimal, write_decimal, write_decimal_digits};
use crate::text::{append, append_str, chars_of, chars_of_all, join, join_with, string_of, views};
use crate::transformers::script::{replace, replace_all};

verus! {

/// SQL statements for a card database.
pub struct SQL;

/// The number of text columns of a card.
pub const TEXT_COLUMNS: usize = 16;

/// `n` cut to 32 bits.
pub open spec fn wrap32(n: int) -> u32 {
    (n % 0x1_0000_0000) as u32
}

/// The level as the database holds it: for a Pendulum monster the left scale
/// is added 16 bits up and the right scale 24 bits up, the sum cut to 32
/// bits.
pub open spec fn packed_level(card: CardView) -> u32 {
    if card._type & Type::PENDULUM == Type::PENDULUM {
        wrap32(card.level + (card.lscale << 16) + (card.rscale << 24))
    } else {
        card.level
    }
}

/// The defense as the database holds it: the link arrows for a Link monster.
pub open spec fn packed_defense(card: CardView) -> i32 {
    if card._type & Type::LINK == Type::LINK {
        card.link_marker
    } else {
        card.defense
    }
}

/// A text as an SQL literal: between single quotes, each single quote in it
/// doubled.
pub open spec fn sql_quote(s: Seq<char>) -> Seq<char> {
    "'"@ + replace_all(s, "'"@, "''"@) + "'"@
}

/// The first `n` hint texts as SQL literals, each behind a comma; a text that
/// the card has not is empty.
pub open spec fn text_values(texts: Seq<Seq<char>>, n: nat) -> Seq<char>
    decreases n,
{
    if n == 0 {
        seq![]
    } else {
        text_values(texts, (n - 1) as nat) + ","@ + sql_quote(
            if n - 1 < texts.len() {
                texts[n - 1]
            } else {
                seq![]
            },
        )
    }
}

/// The numbers that the statement for the table `datas` holds, in the order
/// of its columns; the category is always 0.
pub open spec fn data_values(card: CardView) -> Seq<Seq<char>> {
    seq![
        decimal(card.code as int),
        decimal(card.ot as int),
        decimal(card.alias as int),
        decimal(card.setcode as int),
        decimal(card._type as int),
        decimal(card.attack as int),
        decimal(packed_defense(card) as int),
        decimal(packed_level(card) as int),
        decimal(card.race as int),
        decimal(card.attribute as int),
        decimal(0),
    ]
}

/// The number of hint texts that the statement holds: all of the card, and
/// at least 16.
pub open spec fn text_count(card: CardView) -> nat {
    if card.texts.len() > 16 {
        card.texts.len()
    } else {
        16
    }
}

/// The two statements that store a card.
pub open spec fn sql_text(card: CardView) -> Seq<char> {
    "INSERT OR REPLACE INTO datas(id, ot,alias,setcode,type,atk,def,level,race,attribute,category) values("@
        + join(data_values(card), ","@) + ");\n"@
        + "INSERT OR REPLACE INTO texts(id,name,desc,str1,str2,str3,str4,str5,str6,str7,str8,str9,str10,str11,str12,str13,str14,str15,str16) values("@
        + decimal(card.code as int) + ","@ + sql_quote(card.name) + ","@ + sql_quote(card.desc)
        + text_values(card.texts, text_count(card)) + ");"@
}

/// The statements that create the two tables where they do not exist.
pub fn create_table_sql() -> (r: &'static str)
    ensures
        r@ == "
CREATE TABLE IF NOT EXISTS datas(id integer primary key,ot integer,alias integer,setcode integer,type integer,atk integer,def integer,level integer,race integer,attribute integer,category integer);
CREATE TABLE IF NOT EXISTS texts(id integer primary key,name text,desc text,str1 text,str2 text,str3 text,str4 text,str5 text,str6 text,str7 text,str8 text,str9 text,str10 text,str11 text,str12 text,str13 text,str14 text,str15 text,str16 text);
"@,
{
    "
CREATE TABLE IF NOT EXISTS datas(id integer primary key,ot integer,alias integer,setcode integer,type integer,atk integer,def integer,level integer,race integer,attribute integer,category integer);
CREATE TABLE IF NOT EXISTS texts(id integer primary key,name text,desc text,str1 text,str2 text,str3 text,str4 text,str5 text,str6 text,str7 text,str8 text,str9 text,str10 text,str11 text,str12 text,str13 text,str14 text,str15 text,str16 text);
"
}

/// A text as an SQL literal.
fn quote(s: &Vec<char>) -> (r: Vec<char>)
    ensures
        r@ == sql_quote(s@),
{
    let one = chars_of("'");
    let two = chars_of("''");
    proof {
        reveal_strlit("'");
    }
    let mut out: Vec<char> = Vec::new();
    append(&mut out, &one);
    append(&mut out, &replace(s, &one, &two));
    append(&mut out, &one);
    assert(out@ =~= sql_quote(s@));
    out
}

fn unsigned(n: u64) -> (r: Vec<char>)
    ensures
        r@ == decimal(n as int),
{
    write_decimal_digits(n)
}

/// The statements of the cards, in their order, with an empty line between
/// each two.
pub open spec fn merged_sql(cards: Seq<CardView>) -> Seq<char> {
    join(card_texts(cards, |c: CardView| sql_text(c)), "\n\n"@)
}

impl SQL {
    /// The statements that store the cards.
    pub fn merge_string(cards: &Vec<Card>) -> (r: String)
        ensures
            r@ == merged_sql(card_views(cards@)),
    {
        let mut parts: Vec<Vec<char>> = Vec::new();
        let mut i: usize = 0;
        while i < cards.len()
            invariant
                i <= cards.len(),
                parts@.len() == i,
                forall|k: int| 0 <= k < i ==> parts@[k]@ == sql_text(cards@[k]@),
            decreases cards.len() - i,
        {
            parts.push(chars_of(Self::to_string(&cards[i]).as_str()));
            i += 1;
        }
        assert(views(parts@) =~= card_texts(card_views(cards@), |c: CardView| sql_text(c)));
        let sep = chars_of("\n\n");
        string_of(&join_with(&parts, &sep))
    }

    /// The level as the database holds it.
    pub fn pack_level(card: &Card) -> (r: u32)
        ensures
            r == packed_level(card@),
    {
        if card._type.bits & Type::PENDULUM == Type::PENDULUM {
            let sum: u64 = card.level as u64 + (card.lscale << 16) as u64 + (card.rscale << 24) as u64;
            (sum % 0x1_0000_0000) as u32
        } else {
            card.level
        }
    }

    /// The defense as the database holds it.
    pub fn pack_defense(card: &Card) -> (r: i32)
        ensures
            r == packed_defense(card@),
    {
        if card._type.bits & Type::LINK == Type::LINK {
            card.link_marker.bits
        } else {
            card.defense
        }
    }

    /// The two statements that store a card.
    pub fn to_string(card: &Card) -> (r: String)
        ensures
            r@ == sql_text(card@),
    {
        let mut values: Vec<Vec<char>> = Vec::new();
        values.push(unsigned(card.code as u64));
        values.push(unsigned(card.ot.bits as u64));
        values.push(unsigned(card.alias as u64));
        values.push(unsigned(card.setcode));
        values.push(unsigned(card._type.bits as u64));
        values.push(write_decimal(card.attack as i64));
        values.push(write_decimal(Self::pack_defense(card) as i64));
        values.push(unsigned(Self::pack_level(card) as u64));
        values.push(unsigned(card.race.bits as u64));
        values.push(unsigned(card.attribute.bits as u64));
        values.push(unsigned(0));
        assert(views(values@) =~= data_values(card@));
        let comma = chars_of(",");
        let mut out: Vec<char> = Vec::new();
        append_str(
            &mut out,
            "INSERT OR REPLACE INTO datas(id, ot,alias,setcode,type,atk,def,level,race,attribute,category) values(",
        );
        append(&mut out, &join_with(&values, &comma));
        append_str(&mut out, ");\n");
        append_str(
            &mut out,
            "INSERT OR REPLACE INTO texts(id,name,desc,str1,str2,str3,str4,str5,str6,str7,str8,str9,str10,str11,str12,str13,str14,str15,str16) values(",
        );
        append(&mut out, &unsigned(card.code as u64));
        append(&mut out, &comma);
        append(&mut out, &quote(&chars_of(card.name.as_str())));
        append(&mut out, &comma);
        append(&mut out, &quote(&chars_of(card.desc.as_str())));
        let ghost head = out@;
        let texts = chars_of_all(&card.texts);
        let count: usize = if texts.len() > 16 {
            texts.len()
        } else {
            16
        };
        let mut i: usize = 0;
        while i < count
            invariant
                i <= count,
                comma@ == ","@,
                views(texts@) == card@.texts,
                out@ == head + text_values(card@.texts, i as nat),
            decreases count - i,
        {
            let ghost before = out@;
            append(&mut out, &comma);
            if i < texts.len() {
                assert(views(texts@)[i as int] == texts@[i as int]@);
                append(&mut out, &quote(&texts[i]));
            } else {
                let empty: Vec<char> = Vec::new();
                append(&mut out, &quote(&empty));
            }
            i += 1;
            assert(out@ =~= head + text_values(card@.texts, i as nat));
        }
        append_str(&mut out, ");");
        assert(out@ =~= sql_text(card@));
        string_of(&out)
    }
}

} // verus!
