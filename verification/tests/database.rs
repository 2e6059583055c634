use cdb_transformer::card::Card;
use cdb_transformer::constants::{Linkmarkers, Type, OT};
use cdb_transformer::setnames::SetNames;
use cdb_transformer::transformers::cdb::{Row, CDB};
use cdb_transformer::transformers::script::Script;
use cdb_transformer::transformers::sql::{create_table_sql, SQL};

fn row(columns: &[(&str, Option<&str>)]) -> Row {
    columns.iter().map(|(n, v)| (n.to_string(), v.map(|s| s.to_string()))).collect()
}

fn spell_row() -> Vec<(&'static str, Option<&'static str>)> {
    vec![
        ("id", Some("10")),
        ("ot", Some("3")),
        ("alias", Some("0")),
        ("setcode", Some("65538")),
        ("type", Some("2")),
        ("atk", Some("100")),
        ("def", Some("200")),
        ("level", Some("4")),
        ("race", Some("1")),
        ("attribute", Some("2")),
        ("category", Some("4294967297")),
        ("id", Some("10")),
        ("name", Some("名")),
        ("desc", Some("述")),
        ("str1", Some("一")),
        ("str2", Some("")),
        ("str3", None),
        ("str4", Some("四")),
        ("str16", Some("十六")),
    ]
}

#[test]
fn statements_hold_the_fields_of_a_card() {
    let mut card = Card::new();
    card.code = 10;
    card.name = "it's".to_string();
    card.desc = "a 'b'\nc".to_string();
    card.alias = 9;
    card.setcode = u64::MAX;
    card._type = Type::from_bits_truncate(Type::MONSTER | Type::EFFECT);
    card.level = 4;
    card.attack = -2;
    card.defense = 1800;
    card.texts = vec!["x".to_string(), "y'".to_string()];
    assert_eq!(
        SQL::to_string(&card),
        "INSERT OR REPLACE INTO datas(id, ot,alias,setcode,type,atk,def,level,race,attribute,category) values(10,3,9,18446744073709551615,33,-2,1800,4,0,0,0);\nINSERT OR REPLACE INTO texts(id,name,desc,str1,str2,str3,str4,str5,str6,str7,str8,str9,str10,str11,str12,str13,str14,str15,str16) values(10,'it''s','a ''b''\nc','x','y''','','','','','','','','','','','','','','');"
    );
}

#[test]
fn scales_and_arrows_are_packed_for_the_database() {
    let mut card = Card::new();
    card._type = Type::from_bits_truncate(Type::MONSTER | Type::PENDULUM);
    card.level = 7;
    card.lscale = 3;
    card.rscale = 8;
    card.defense = 5;
    assert_eq!(SQL::pack_level(&card), 7 + (3 << 16) + (8 << 24));
    assert_eq!(SQL::pack_defense(&card), 5);
    card.rscale = 0xff;
    card.lscale = 0xffff;
    card.level = 0xffff_ffff;
    assert_eq!(SQL::pack_level(&card), 0xfefe_ffff);
    card._type = Type::from_bits_truncate(Type::MONSTER | Type::LINK);
    card.link_marker = Linkmarkers::from_bits_truncate(0x1ef);
    assert_eq!(SQL::pack_level(&card), 0xffff_ffff);
    assert_eq!(SQL::pack_defense(&card), 0x1ef);
    assert!(create_table_sql().contains("CREATE TABLE IF NOT EXISTS texts"));
}

#[test]
fn a_row_reads_as_a_card() {
    let card = CDB::card_of_row(&row(&spell_row())).unwrap();
    assert_eq!(card.code, 10);
    assert_eq!(card.name, "名");
    assert_eq!(card.desc, "述");
    assert_eq!(card.setcode, 65538);
    assert_eq!(card._type.bits, Type::SPELL);
    assert_eq!(card.ot.bits, OT::OCG | OT::TCG);
    assert_eq!(card.category.bits, 1);
    assert_eq!((card.level, card.attack, card.defense), (0, 0, 0));
    assert_eq!((card.attribute.bits, card.race.bits), (0, 0));
    assert_eq!(card.texts, vec!["一", "", "", "四"]);
    assert!(card.pack.is_none());
    assert!(card.range.is_none());
}

#[test]
fn a_monster_row_reads_stats_scales_and_arrows() {
    let mut columns = spell_row();
    columns[4] = ("type", Some("83886113"));
    columns[7] = ("level", Some("50855940"));
    columns[6] = ("def", Some("130"));
    let card = CDB::card_of_row(&row(&columns)).unwrap();
    assert_eq!(card._type.bits, Type::MONSTER | Type::EFFECT | Type::LINK | Type::PENDULUM);
    assert_eq!(card.level, 4);
    assert_eq!(card.lscale, 3);
    assert_eq!(card.rscale, 8);
    assert_eq!(card.link_marker.bits, 130);
    assert_eq!(card.defense, 50855940);
    assert_eq!(card.attack, 100);
    assert_eq!((card.attribute.bits, card.race.bits), (2, 1));
}

#[test]
fn a_row_without_what_a_card_takes_is_no_card() {
    let mut columns = spell_row();
    columns[0] = ("id", None);
    columns[11] = ("id", Some("x"));
    assert!(CDB::card_of_row(&row(&columns)).is_none());
    let mut columns = spell_row();
    columns[12] = ("name", None);
    assert!(CDB::card_of_row(&row(&columns)).is_none());
    let mut columns = spell_row();
    columns[3] = ("setcode", Some("-1"));
    assert!(CDB::card_of_row(&row(&columns)).is_none());
    let mut columns = spell_row();
    columns[4] = ("type", Some("1"));
    columns[5] = ("atk", Some("2147483648"));
    assert!(CDB::card_of_row(&row(&columns)).is_none());
    columns[5] = ("atk", Some("-2"));
    assert_eq!(CDB::card_of_row(&row(&columns)).unwrap().attack, -2);
    assert!(CDB::card_of_row(&Vec::new()).is_none());
    let rows = vec![row(&spell_row()), Vec::new()];
    assert!(CDB::from_rows(&rows).is_none());
    let rows = vec![row(&spell_row()), row(&spell_row())];
    assert_eq!(CDB::from_rows(&rows).unwrap().len(), 2);
    assert_eq!(CDB::from_rows(&Vec::new()).unwrap().len(), 0);
}

#[test]
fn cards_are_saved_one_after_another() {
    let mut a = Card::new();
    a.code = 1;
    let mut b = Card::new();
    b.code = 2;
    let script = CDB::save_script(&vec![a, b]);
    let lines: Vec<&str> = script.split('\n').collect();
    assert_eq!(lines.len(), 4);
    assert!(lines[0].starts_with("INSERT OR REPLACE INTO datas(") && lines[0].ends_with("values(1,3,0,0,0,0,0,0,0,0,0);"));
    assert!(lines[3].starts_with("INSERT OR REPLACE INTO texts(") && lines[3].contains("values(2,'',''"));
    assert_eq!(CDB::save_script(&Vec::new()), "");
}

#[test]
fn script_block_replaces_the_block_at_the_head() {
    let names = SetNames::new();
    let mut card = Card::new();
    card.code = 7;
    card.name = "名".to_string();
    card.desc = "述。".to_string();
    card._type = Type::from_bits_truncate(Type::TRAP);
    let block = "-------------------\n--- 名(7) 通常陷阱\n--- 述。\n-------------------";
    assert_eq!(Script::to_string_with(&card, &names, 100), block);
    let old = "----\n--- 旧(7) 通常陷阱\n--- 旧。\n----\nlocal s=1\n----\n";
    assert_eq!(
        Script::updated_content(old, &card, &names, 100),
        format!("{}\nlocal s=1\n----\n", block)
    );
    let plain = "local s=1\n";
    assert_eq!(
        Script::updated_content(plain, &card, &names, 100),
        format!("{}{}", block, plain)
    );
    assert_eq!(Script::updated_content("", &card, &names, 100), block);
    assert_eq!(Script::merge_content(Some("x".to_string()), "t", "o"), "x");
    assert_eq!(Script::merge_content(None, "t", "o"), "to");
    assert_eq!(Script::target_path("script/c{id}.lua", 7), "script/c7.lua");
    assert_eq!(Script::target_path("{id}/{id}", 12), "12/12");
    assert_eq!(Script::target_path("plain.lua", 12), "plain.lua");
}
