use cdb_transformer::card::{Card, CardTransformer, MonsterStats, Range};
use cdb_transformer::constants::{Attribute, Category, Linkmarkers, Race, Type, OT};
use cdb_transformer::setnames::SetNames;
use cdb_transformer::transformers::xyyz::Xyyz;
use cdb_transformer::{format_race, format_subtype, parse, set_string_conf};

fn monster(name: &str, code: u32) -> Card {
    let mut card = Card::new();
    card.name = name.to_string();
    card.code = code;
    card._type = Type::from_bits_truncate(Type::MONSTER | Type::EFFECT);
    card
}

#[test]
fn new_card_is_blank_with_default_rule_sets() {
    let card = Card::new();
    assert_eq!(card.code, 0);
    assert_eq!(card.name, "");
    assert_eq!(card.desc, "");
    assert_eq!(card.alias, 0);
    assert_eq!(card.setcode, 0);
    assert_eq!(card._type.bits, 0);
    assert_eq!(card.ot.bits, OT::OCG | OT::TCG);
    assert!(card.texts.is_empty());
    assert!(card.pack.is_none());
    assert!(card.range.is_none());
}

#[test]
fn dragon_of_pride_and_soul_parses_and_prints_back() {
    let names = SetNames::new();
    let text = "骄傲与灵魂之龙(100000000) 暗 8星 龙/特殊召唤 2500 2500\n这张卡不能通常召唤。";
    let cards = parse(text, &names);
    assert_eq!(cards.len(), 1);
    let card = &cards[0];
    assert_eq!(card.code, 100000000);
    assert_eq!(card.name, "骄傲与灵魂之龙");
    assert_eq!(card.attribute.bits, Attribute::DARK);
    assert_eq!(card.level, 8);
    assert_eq!(card.race.bits, Race::DRAGON);
    assert_eq!(card._type.bits, Type::MONSTER | Type::SPSUMMON | Type::EFFECT);
    assert_eq!(card.attack, 2500);
    assert_eq!(card.defense, 2500);
    assert_eq!(card.desc, "这张卡不能通常召唤。");
    assert_eq!(card.ot.bits, OT::OCG | OT::TCG);
    assert_eq!(card.range, Some(Range { start: 0, end: 51 }));
    assert_eq!(cdb_transformer::format(card, &names), text);
}

#[test]
fn link_header_sets_rating_arrows_and_defense() {
    let names = SetNames::new();
    let cards = parse("日食爆龙(172017203) 暗 LINK-2 龙/连接 1600 [↓][↘] (Custom)\n效果。", &names);
    assert_eq!(cards.len(), 1);
    let card = &cards[0];
    assert_eq!(card._type.bits & (Type::MONSTER | Type::LINK), Type::MONSTER | Type::LINK);
    assert_eq!(card.level, 2);
    assert_eq!(card.link_marker.bits, Linkmarkers::BOTTOM | Linkmarkers::BOTTOM_RIGHT);
    assert_eq!(card.defense, card.link_marker.bits);
    assert_eq!(card.defense, 6);
    assert_eq!(card.attack, 1600);
    assert_eq!(card.ot.bits, OT::CUSTOM);
    assert_eq!(
        cdb_transformer::format(card, &names),
        "日食爆龙(172017203) 暗 LINK-2 龙/连接 1600 [↓][↘] (Custom)\n效果。"
    );
}

#[test]
fn parsed_card_survives_a_round_trip() {
    let names = set_string_conf("!setname 0x1 原质炉\n");
    let text = "原质阿尔法(114514269=>114514268) 光/暗 3星 恶魔/仪式/非效果/调整 ? ∞ (SC)\n系列：原质炉\n起点之果。\n第二行。\n效果分类：魔陷破坏、特殊召唤\n提示文本：甲、乙、丙";
    let cards = parse(text, &names);
    assert_eq!(cards.len(), 1);
    let card = &cards[0];
    assert_eq!(card.alias, 114514268);
    assert_eq!(card.attack, -2);
    assert_eq!(card.defense, -1);
    assert_eq!(card.setcode, 1);
    assert_eq!(card.desc, "起点之果。\n第二行。");
    assert_eq!(card.category.bits, 0x1 | 0x40000);
    assert_eq!(card.texts, vec!["甲", "乙", "丙"]);
    assert_eq!(card.ot.bits, OT::OCG | OT::TCG | OT::SC);
    assert_eq!(card._type.bits, Type::MONSTER | Type::RITUAL | Type::TUNER);
    let printed = cdb_transformer::format(card, &names);
    assert_eq!(printed, text);
    let again = parse(&printed, &names);
    assert_eq!(again.len(), 1);
    let back = &again[0];
    assert_eq!(back.code, card.code);
    assert_eq!(back.name, card.name);
    assert_eq!(back.desc, card.desc);
    assert_eq!(back.alias, card.alias);
    assert_eq!(back.setcode, card.setcode);
    assert_eq!(back._type, card._type);
    assert_eq!(back.level, card.level);
    assert_eq!(back.attribute, card.attribute);
    assert_eq!(back.race, card.race);
    assert_eq!(back.attack, card.attack);
    assert_eq!(back.defense, card.defense);
    assert_eq!(back.lscale, card.lscale);
    assert_eq!(back.rscale, card.rscale);
    assert_eq!(back.link_marker, card.link_marker);
    assert_eq!(back.ot, card.ot);
    assert_eq!(back.category, card.category);
    assert_eq!(back.texts, card.texts);
}

#[test]
fn joined_cards_parse_back_in_order() {
    let names = SetNames::new();
    let text = "甲(1) 地 4星 战士 1000 1000\n一。\n\n乙(2) 通常魔法\n二。\n\n丙(3) 水 LINK-1 水/连接 500 [↑]\n三。";
    let cards = parse(text, &names);
    assert_eq!(cards.len(), 3);
    let joined = Xyyz::merge_string(&cards, &names);
    assert_eq!(joined, text);
    let again = parse(&joined, &names);
    assert_eq!(again.len(), 3);
    for i in 0..3 {
        assert_eq!(again[i].code, cards[i].code);
        assert_eq!(again[i].name, cards[i].name);
        assert_eq!(again[i].desc, cards[i].desc);
        assert_eq!(again[i]._type, cards[i]._type);
        assert_eq!(again[i].attack, cards[i].attack);
        assert_eq!(again[i].defense, cards[i].defense);
        assert_eq!(again[i].link_marker, cards[i].link_marker);
        assert_eq!(again[i].range, cards[i].range);
    }
    assert_eq!(Xyyz::merge_string(&Vec::new(), &names), "");
}

#[test]
fn sentinel_numbers_are_written_and_read() {
    assert_eq!(Xyyz::format_number(-1), "∞");
    assert_eq!(Xyyz::format_number(-2), "?");
    assert_eq!(Xyyz::format_number(0), "0");
    assert_eq!(Xyyz::format_number(2500), "2500");
    assert_eq!(Xyyz::format_number(-3), "-3");
    assert_eq!(Xyyz::format_number(i32::MIN), "-2147483648");
    assert_eq!(Xyyz::format_number(i32::MAX), "2147483647");
    assert_eq!(Xyyz::get_num("∞"), -1);
    assert_eq!(Xyyz::get_num("?"), -2);
    assert_eq!(Xyyz::get_num("2500"), 2500);
    assert_eq!(Xyyz::get_num("-2147483648"), i32::MIN);
    assert_eq!(Xyyz::get_num("+7"), 7);
    assert_eq!(Xyyz::get_num(""), 0);
    assert_eq!(Xyyz::get_num("12a"), 0);
    assert_eq!(Xyyz::get_num("2147483648"), 0);
    for n in [-2, -1, 0, 1, 9, 10, 99, 100, -100, 65535] {
        assert_eq!(Xyyz::get_num(&Xyyz::format_number(n)), n);
    }
}

#[test]
fn default_rule_sets_are_not_shown() {
    let names = SetNames::new();
    let mut card = Card::new();
    card.name = "卡".to_string();
    card.code = 5;
    card._type = Type::from_bits_truncate(Type::SPELL);
    assert_eq!(cdb_transformer::format(&card, &names), "卡(5) 通常魔法\n");
    card.ot = OT::from_bits_truncate(OT::CUSTOM);
    assert_eq!(cdb_transformer::format(&card, &names), "卡(5) 通常魔法 (Custom)\n");
    card.ot = OT::empty();
    assert_eq!(cdb_transformer::format(&card, &names), "卡(5) 通常魔法 ()\n");
    assert_eq!(parse("卡(5) 通常魔法 ()\n", &names)[0].ot.bits, 0);
}

#[test]
fn rule_sets_are_written_and_read() {
    assert_eq!(Xyyz::format_ot(&OT::from_bits_truncate(OT::OCG | OT::TCG)), "");
    assert_eq!(Xyyz::format_ot(&OT::from_bits_truncate(OT::OCG)), "OCG");
    assert_eq!(Xyyz::format_ot(&OT::from_bits_truncate(OT::TCG)), "TCG");
    assert_eq!(Xyyz::format_ot(&OT::from_bits_truncate(OT::CUSTOM)), "Custom");
    assert_eq!(Xyyz::format_ot(&OT::from_bits_truncate(OT::SC)), "SCONLY");
    assert_eq!(Xyyz::format_ot(&OT::from_bits_truncate(OT::OCG | OT::TCG | OT::SC)), "SC");
    assert_eq!(Xyyz::format_ot(&OT::from_bits_truncate(OT::DRAFT)), "Draft");
    assert_eq!(Xyyz::format_ot(&OT::from_bits_truncate(OT::OCG | OT::CUSTOM)), "OCG&Custom");
    assert_eq!(
        Xyyz::format_ot(&OT::from_bits_truncate(OT::ALL)),
        "OCG&TCG&Custom&SCONLY&Draft"
    );
    assert_eq!(Xyyz::get_ot("OT").bits, 3);
    assert_eq!(Xyyz::get_ot("OCG & Custom").bits, 5);
    assert_eq!(Xyyz::get_ot("What").bits, 0);
    assert_eq!(Xyyz::get_ot("").bits, 0);
    for bits in 0..0x800u32 {
        if bits & !OT::ALL == 0 && bits != 3 {
            let ot = OT::from_bits_truncate(bits);
            assert_eq!(Xyyz::get_ot(&Xyyz::format_ot(&ot)), ot);
        }
    }
}

#[test]
fn first_set_name_ends_in_the_upper_slot() {
    let names = set_string_conf("!setname 0x1 A\n!setname 0x2 B\n");
    assert_eq!(Xyyz::get_setcode("A、B", &names), 0x10002);
    assert_eq!(Xyyz::get_setcode("B、A", &names), 0x20001);
    assert_eq!(Xyyz::get_setcode("A", &names), 0x1);
    assert_eq!(Xyyz::get_setcode(" A 、 0x1f ", &names), 0x1001f);
    assert_eq!(Xyyz::get_setcode("A、Nobody、B", &names), 0x10002);
    assert_eq!(Xyyz::get_setcode("", &names), 0);
    assert_eq!(Xyyz::get_setcode("0xffff、0xffff、0xffff、0xffff", &names), u64::MAX);
    assert_eq!(Xyyz::get_setcode("A、0xffff、0xffff、0xffff、0xffff", &names), u64::MAX);
    assert_eq!(Xyyz::get_setcode("0x10000", &names), 0);
}

#[test]
fn set_code_shows_low_slot_first() {
    let names = set_string_conf("!setname 0x1 A\n!setname 0x2 B\n");
    let mut card = Card::new();
    card.setcode = 0x10002;
    assert_eq!(Xyyz::format_setcode(&card, &names), Some("B、A".to_string()));
    card.setcode = 0x00ab_0000_0001;
    assert_eq!(Xyyz::format_setcode(&card, &names), Some("A、0xAB".to_string()));
    card.setcode = 0;
    assert_eq!(Xyyz::format_setcode(&card, &names), Some(String::new()));
    card.setcode = 0xffff_0000_0000_0000;
    assert_eq!(Xyyz::format_setcode(&card, &names), Some("0xFFFF".to_string()));
}

#[test]
fn fusion_without_effect_is_tagged() {
    let fusion = Type::from_bits_truncate(Type::MONSTER | Type::FUSION);
    let text = Xyyz::format_subtype(&fusion);
    assert_eq!(text, "/融合/非效果");
    let back = Xyyz::get_subtype(&text);
    assert_eq!(back.bits, Type::FUSION);
    assert_eq!(back.bits & Type::EFFECT, 0);
    let effect = Type::from_bits_truncate(Type::MONSTER | Type::FUSION | Type::EFFECT);
    assert_eq!(Xyyz::format_subtype(&effect), "/融合");
    assert_eq!(Xyyz::get_subtype("/融合").bits, Type::FUSION | Type::EFFECT);
    assert_eq!(format_subtype(Type::MONSTER | Type::FUSION), "/融合/非效果");
}

#[test]
fn subtype_lists_follow_the_order_of_the_flags() {
    let all = Type::from_bits_truncate(Type::ALL);
    assert_eq!(
        Xyyz::format_subtype(&all),
        "/融合/仪式/同调/超量/灵摆/特殊召唤/连接/灵魂/同盟/二重/调整/衍生物/反转/卡通"
    );
    let normal = Type::from_bits_truncate(Type::MONSTER | Type::NORMAL | Type::PENDULUM);
    assert_eq!(Xyyz::format_subtype(&normal), "/通常/灵摆");
    assert_eq!(Xyyz::format_subtype(&Type::from_bits_truncate(Type::MONSTER)), "");
    assert_eq!(Xyyz::get_subtype("").bits, Type::EFFECT);
    assert_eq!(Xyyz::get_subtype("/通常").bits, Type::NORMAL);
    assert_eq!(Xyyz::get_subtype("/衍生物").bits, Type::TOKEN);
    assert_eq!(Xyyz::get_subtype("/调整/什么").bits, Type::TUNER | Type::EFFECT);
    assert_eq!(Xyyz::get_subtype("/同调/通常").bits, Type::SYNCHRO);
}

#[test]
fn attributes_and_races_are_written_and_read() {
    assert_eq!(Xyyz::format_attribute(&Attribute::empty()), "无");
    assert_eq!(Xyyz::format_attribute(&Attribute::from_bits_truncate(Attribute::DARK)), "暗");
    assert_eq!(
        Xyyz::format_attribute(&Attribute::from_bits_truncate(Attribute::ALL)),
        "地/水/炎/风/光/暗/神"
    );
    assert_eq!(Xyyz::get_attribute("地/水").bits, 3);
    assert_eq!(Xyyz::get_attribute("无").bits, 0);
    assert_eq!(Xyyz::get_attribute("木").bits, 0);
    assert_eq!(Xyyz::format_race(&Race::empty()), "无种族");
    assert_eq!(
        Xyyz::format_race(&Race::from_bits_truncate(Race::DRAGON | Race::WARRIOR)),
        "战士/龙"
    );
    assert_eq!(format_race(Race::CYBERS), "电子界");
    assert_eq!(Xyyz::get_race("龙").bits, Race::DRAGON);
    assert_eq!(Xyyz::get_race("战士/龙").bits, Race::DRAGON | Race::WARRIOR);
    assert_eq!(Xyyz::get_race("幻想魔").bits, 0);
    assert_eq!(Xyyz::get_race("兽战士").bits, Race::WINDBEAST);
    for bit in 0..7 {
        let a = Attribute::from_bits_truncate(1 << bit);
        assert_eq!(Xyyz::get_attribute(&Xyyz::format_attribute(&a)), a);
    }
}

#[test]
fn kinds_of_spells_and_traps_are_written_and_read() {
    assert_eq!(Xyyz::format_type(&Type::from_bits_truncate(Type::SPELL)), "通常魔法");
    assert_eq!(
        Xyyz::format_type(&Type::from_bits_truncate(Type::SPELL | Type::QUICKPLAY)),
        "速攻魔法"
    );
    assert_eq!(
        Xyyz::format_type(&Type::from_bits_truncate(Type::TRAP | Type::COUNTER)),
        "反击陷阱"
    );
    assert_eq!(Xyyz::format_type(&Type::from_bits_truncate(Type::TRAP)), "通常陷阱");
    assert_eq!(
        Xyyz::format_type(&Type::from_bits_truncate(Type::SPELL | Type::FIELD | Type::EQUIP)),
        "通常魔法"
    );
    assert_eq!(Xyyz::format_type(&Type::from_bits_truncate(Type::MONSTER)), "");
    assert_eq!(Xyyz::get_type("通常魔法").bits, Type::SPELL);
    assert_eq!(Xyyz::get_type("速攻魔法").bits, Type::SPELL | Type::QUICKPLAY);
    assert_eq!(Xyyz::get_type("永续陷阱").bits, Type::TRAP | Type::CONTINUOUS);
    assert_eq!(Xyyz::get_type("通常陷阱").bits, Type::TRAP);
    assert_eq!(Xyyz::get_type("场地魔法").bits, Type::SPELL | Type::FIELD);
    assert_eq!(Xyyz::get_type("反击陷阱").bits, Type::TRAP | Type::COUNTER);
    assert_eq!(Xyyz::get_type("魔法").bits, 0);
    assert_eq!(Xyyz::get_type("陷阱").bits, 0);
    assert_eq!(Xyyz::get_type("魔法魔法").bits, Type::SPELL);
    assert_eq!(Xyyz::get_type("abcdef魔法").bits, 0);
    assert_eq!(Xyyz::get_type("速攻魔法 ").bits, 0);
    assert_eq!(Xyyz::get_type("速攻").bits, 0);
    assert_eq!(Xyyz::get_type("什么东西").bits, 0);
    assert_eq!(Xyyz::get_type("").bits, 0);
    assert_eq!(Xyyz::get_type("a魔法").bits, 0);
}

#[test]
fn link_arrows_are_written_and_read() {
    assert_eq!(Xyyz::format_linkmarkers(&Linkmarkers::empty()), "");
    assert_eq!(
        Xyyz::format_linkmarkers(&Linkmarkers::from_bits_truncate(Linkmarkers::ALL)),
        "[↙][↓][↘][←][→][↖][↑][↗]"
    );
    assert_eq!(Xyyz::get_linkmarkers("[↓][↘]").bits, 6);
    assert_eq!(Xyyz::get_linkmarkers("").bits, 0);
    assert_eq!(Xyyz::get_linkmarkers("[]").bits, 0);
    assert_eq!(Xyyz::get_linkmarkers("[x]").bits, 0);
    assert_eq!(Xyyz::get_linkmarkers("[").bits, 0);
}

#[test]
fn categories_are_written_and_read() {
    assert_eq!(Xyyz::format_category(&Category::empty()), "");
    assert_eq!(
        Xyyz::format_category(&Category::from_bits_truncate(0x8000_0001)),
        "魔陷破坏、效果无效"
    );
    assert_eq!(Xyyz::get_category("魔陷破坏 、 效果无效").bits, 0x8000_0001);
    assert_eq!(Xyyz::get_category("没有").bits, 0);
    let all = Category::from_bits_truncate(Category::ALL);
    assert_eq!(Xyyz::get_category(&Xyyz::format_category(&all)), all);
}

#[test]
fn level_shows_rank_and_link_rating() {
    let mut card = monster("卡", 1);
    card.level = 4;
    assert_eq!(Xyyz::format_level(&card), "4星");
    card._type = Type::from_bits_truncate(Type::MONSTER | Type::XYZ);
    assert_eq!(Xyyz::format_level(&card), "4阶");
    card._type = Type::from_bits_truncate(Type::MONSTER | Type::LINK);
    card.link_marker = Linkmarkers::from_bits_truncate(Linkmarkers::TOP | Linkmarkers::LEFT | Linkmarkers::RIGHT);
    assert_eq!(Xyyz::format_level(&card), "LINK-4");
    card.level = 0;
    assert_eq!(Xyyz::format_level(&card), "LINK-0");
    let mut read = Card::new();
    Xyyz::set_level(&mut read, "12星");
    assert_eq!((read.level, read._type.bits), (12, 0));
    Xyyz::set_level(&mut read, "七阶");
    assert_eq!((read.level, read._type.bits), (0, Type::XYZ));
    Xyyz::set_level(&mut read, " 7 阶");
    assert_eq!((read.level, read._type.bits), (7, Type::XYZ));
    Xyyz::set_level(&mut read, "LINK-3");
    assert_eq!((read.level, read._type.bits), (3, Type::XYZ | Type::LINK));
    Xyyz::set_level(&mut read, "x星");
    assert_eq!(read.level, 0);
    Xyyz::set_level(&mut read, "LINK-5");
    Xyyz::set_level(&mut read, "level 9");
    assert_eq!(read.level, 5);
}

#[test]
fn many_written_cards_read_back() {
    let names = set_string_conf("!setname 0x1 甲组\n!setname 0x2 乙组\n!setname 0xabc 丙组\tC\n");
    let mut cards = Vec::new();
    for i in 0..300u32 {
        let mut card = Card::new();
        card.code = 1000 + i;
        card.name = format!("卡{}", i);
        card.alias = if i % 7 == 0 { 999 } else { 0 };
        card.ot = OT::from_bits_truncate([3, 1, 2, 4, 8, 11, 1024, 5, 0x40f][(i % 9) as usize]);
        card.setcode = [0u64, 1, 2, 0xabc, 0x77][(i % 5) as usize];
        card.desc = if i % 4 == 0 { String::new() } else { format!("第{}行。\n又一行 ok", i) };
        card.category = Category::from_bits_truncate(((i as u64) * 2654435761) & 0xffff_ffff);
        card.texts = (0..(i % 3)).map(|k| format!("提示{}", k)).collect();
        if i % 3 == 0 {
            let kind = [0, Type::QUICKPLAY, Type::CONTINUOUS, Type::EQUIP, Type::FIELD, Type::RITUAL][(i % 6) as usize];
            card._type = Type::from_bits_truncate(Type::SPELL | kind);
        } else if i % 3 == 1 {
            let kind = [0, Type::CONTINUOUS, Type::COUNTER][(i % 3) as usize];
            card._type = Type::from_bits_truncate(Type::TRAP | kind);
        } else {
            card.attribute = Attribute::from_bits_truncate(1 << (i % 7));
            card.race = Race::from_bits_truncate(1 << (i % 15));
            card.attack = (i as i32 % 50) * 100 - 2;
            card.level = i % 13;
            if i % 5 == 2 {
                card.link_marker = Linkmarkers::from_bits_truncate(((i * 37) & 0x1ef) as i32 | 2);
                card.level = card.link_marker.bits.count_ones();
                card.defense = card.link_marker.bits;
                card._type = Type::from_bits_truncate(Type::MONSTER | Type::LINK | Type::EFFECT);
            } else if i % 5 == 3 {
                card.defense = -1;
                card._type = Type::from_bits_truncate(Type::MONSTER | Type::XYZ | Type::EFFECT);
            } else if i % 5 == 4 {
                card.defense = 2000;
                card._type = Type::from_bits_truncate(Type::MONSTER | Type::FUSION | Type::TUNER);
            } else if i % 5 == 0 {
                card.defense = 0;
                card._type = Type::from_bits_truncate(Type::MONSTER | Type::NORMAL);
            } else {
                card.defense = 300;
                card._type = Type::from_bits_truncate(Type::MONSTER | Type::EFFECT | Type::FLIP);
            }
        }
        cards.push(card);
    }
    let text = Xyyz::merge_string(&cards, &names);
    let read = parse(&text, &names);
    assert_eq!(read.len(), cards.len());
    for (a, b) in read.iter().zip(cards.iter()) {
        assert_eq!(a.code, b.code);
        assert_eq!(a.name, b.name);
        assert_eq!(a.desc, b.desc);
        assert_eq!(a.alias, b.alias);
        assert_eq!(a.setcode, b.setcode);
        assert_eq!(a._type, b._type);
        assert_eq!(a.level, b.level);
        assert_eq!(a.attribute, b.attribute);
        assert_eq!(a.race, b.race);
        assert_eq!(a.attack, b.attack);
        assert_eq!(a.defense, b.defense);
        assert_eq!(a.lscale, b.lscale);
        assert_eq!(a.rscale, b.rscale);
        assert_eq!(a.link_marker, b.link_marker);
        assert_eq!(a.ot, b.ot);
        assert_eq!(a.category, b.category);
        assert_eq!(a.texts, b.texts);
        assert!(a.pack.is_none());
        assert_eq!(cdb_transformer::format(a, &names), cdb_transformer::format(b, &names));
    }
}

#[test]
fn set_code_of_two_sets_does_not_read_back() {
    let names = set_string_conf("!setname 0x1 A\n!setname 0x2 B\n");
    let cards = parse("甲(1) 通常魔法\n系列：A、B", &names);
    assert_eq!(cards[0].setcode, 0x10002);
    let text = cdb_transformer::format(&cards[0], &names);
    assert_eq!(text, "甲(1) 通常魔法\n系列：B、A\n");
    assert_eq!(parse(&text, &names)[0].setcode, 0x20001);
}

#[test]
fn drafts_are_told_apart() {
    let mut card = Card::new();
    assert!(!card.is_draft());
    card.ot = OT::from_bits_truncate(OT::DRAFT | OT::OCG);
    assert!(card.is_draft());
    assert_eq!(parse("甲(1) 通常魔法 (Draft)", &SetNames::new())[0].ot.bits, OT::DRAFT);
}

#[test]
fn level_field_stands_for_level_rank_or_link_rating() {
    let mut card = Card::new();
    card.level = 4;
    assert_eq!(card.stats(), None);
    card._type = Type::from_bits_truncate(Type::MONSTER | Type::EFFECT);
    assert_eq!(card.stats(), Some(MonsterStats::Level(4)));
    card._type = Type::from_bits_truncate(Type::MONSTER | Type::XYZ);
    assert_eq!(card.stats(), Some(MonsterStats::Rank(4)));
    card._type = Type::from_bits_truncate(Type::MONSTER | Type::LINK);
    card.link_marker = Linkmarkers::from_bits_truncate(Linkmarkers::TOP);
    assert_eq!(
        card.stats(),
        Some(MonsterStats::LinkRating(4, Linkmarkers::from_bits_truncate(Linkmarkers::TOP)))
    );
}

#[test]
fn reading_back_tells_cards_that_writing_would_change() {
    let names = set_string_conf("!setname 0x1 A\n!setname 0x2 B\n");
    let read = parse("甲(1) 暗 4星 龙/灵摆 100 200\n系列：A\n←3【灵摆】8→\n文", &names);
    assert!(Xyyz::reads_back(&read[0], &names));
    let two_sets = parse("甲(1) 通常魔法\n系列：A、B", &names);
    assert!(!Xyyz::reads_back(&two_sets[0], &names));
    let mut card = Card::new();
    card.name = "乙".to_string();
    card.code = 2;
    card._type = Type::from_bits_truncate(Type::TRAP | Type::COUNTER);
    assert!(Xyyz::reads_back(&card, &names));
    card.lscale = 1;
    assert!(!Xyyz::reads_back(&card, &names));
    card.lscale = 0;
    card.desc = "系列：A".to_string();
    assert!(!Xyyz::reads_back(&card, &names));
    card.desc = "效果：无".to_string();
    assert!(Xyyz::reads_back(&card, &names));
    assert!(card.same_but_range(&card));
    let other = Card::new();
    assert!(!card.same_but_range(&other));
}

#[test]
fn link_rating_is_read_back_whatever_the_arrows() {
    let names = SetNames::new();
    let mut card = monster("链", 9);
    card._type = Type::from_bits_truncate(Type::MONSTER | Type::EFFECT | Type::LINK);
    card.attribute = Attribute::from_bits_truncate(Attribute::DARK);
    card.race = Race::from_bits_truncate(Race::DRAGON);
    card.level = 4;
    card.attack = 2500;
    card.link_marker = Linkmarkers::from_bits_truncate(Linkmarkers::TOP | Linkmarkers::LEFT | Linkmarkers::RIGHT);
    card.defense = card.link_marker.bits;
    card.desc = "效果。".to_string();
    let text = cdb_transformer::format(&card, &names);
    assert_eq!(text, "链(9) 暗 LINK-4 龙/连接 2500 [←][→][↑]\n效果。");
    let back = parse(&text, &names);
    assert_eq!(back.len(), 1);
    assert_eq!(back[0].level, 4);
    assert_eq!(back[0].link_marker.bits, card.link_marker.bits);
    assert_eq!(back[0].defense, card.defense);
    assert_eq!(back[0]._type.bits, card._type.bits);
    assert_eq!(cdb_transformer::format(&back[0], &names), text);
}
