use cdb_transformer::card::{Card, Range};
use cdb_transformer::constants::{Type, OT};
use cdb_transformer::parse;
use cdb_transformer::pattern::Groups;
use cdb_transformer::setnames::SetNames;
use cdb_transformer::transformers::xyyz::{set_card_range, Xyyz};

fn groups(items: &[Option<&str>]) -> Groups {
    items.iter().map(|g| g.map(|s| s.to_string())).collect()
}

#[test]
fn text_without_header_holds_no_card() {
    let names = SetNames::new();
    assert_eq!(parse("", &names).len(), 0);
    assert_eq!(parse("只有描述\n没有卡片\n\n# 注释", &names).len(), 0);
}

#[test]
fn spans_end_at_blank_line_next_header_or_end_of_text() {
    let names = SetNames::new();
    let cards = parse("#c\n\n甲(1) 通常魔法\n一\n\n二\n\n乙(2) 通常陷阱", &names);
    assert_eq!(cards.len(), 2);
    assert_eq!(cards[0].range, Some(Range { start: 4, end: 16 }));
    assert_eq!(cards[0].desc, "一\n二");
    assert_eq!(cards[1].range, Some(Range { start: 20, end: 29 }));
    let cards = parse("甲(1) 通常魔法\n乙(2) 通常陷阱", &names);
    assert_eq!(cards[0].range, Some(Range { start: 0, end: 10 }));
    assert_eq!(cards[1].range, Some(Range { start: 10, end: 19 }));
    assert_eq!(cards[1]._type.bits, Type::TRAP);
}

#[test]
fn comment_lines_are_skipped_but_counted() {
    let names = SetNames::new();
    let cards = parse("甲(1) 通常魔法\n#乙(2) 通常陷阱\n一", &names);
    assert_eq!(cards.len(), 1);
    assert_eq!(cards[0].desc, "一");
    assert_eq!(cards[0].range, Some(Range { start: 0, end: 22 }));
}

#[test]
fn a_line_that_is_no_header_continues_the_open_card() {
    let names = SetNames::new();
    let cards = parse("开头\n甲(1) 通常魔法\n乙(二) 通常陷阱\n  保留  空白 ", &names);
    assert_eq!(cards.len(), 1);
    assert_eq!(cards[0].name, "甲");
    assert_eq!(cards[0].desc, "乙(二) 通常陷阱\n  保留  空白 ");
}

#[test]
fn header_without_known_kind_still_opens_a_card() {
    let names = SetNames::new();
    let cards = parse("甲(1) 什么东西\n一", &names);
    assert_eq!(cards.len(), 1);
    assert_eq!(cards[0]._type.bits, 0);
    assert_eq!(cards[0].desc, "一");
}

#[test]
fn numbers_that_do_not_fit_read_as_zero() {
    let names = SetNames::new();
    let cards = parse("甲(99999999999 => 99999999999) 暗 99999999999星 龙 99999999999 ?", &names);
    assert_eq!(cards.len(), 1);
    assert_eq!(cards[0].code, 0);
    assert_eq!(cards[0].alias, 0);
    assert_eq!(cards[0].level, 0);
    assert_eq!(cards[0].attack, 0);
    assert_eq!(cards[0].defense, -2);
}

#[test]
fn alias_and_rule_sets_tolerate_spaces() {
    let names = SetNames::new();
    let cards = parse("甲(1 => 2 )   通常魔法   (OCG & Custom)", &names);
    assert_eq!(cards.len(), 1);
    assert_eq!(cards[0].code, 1);
    assert_eq!(cards[0].alias, 2);
    assert_eq!(cards[0]._type.bits, Type::SPELL);
    assert_eq!(cards[0].ot.bits, OT::OCG | OT::CUSTOM);
}

#[test]
fn pendulum_line_sets_the_scales_of_a_pendulum_monster() {
    let names = SetNames::new();
    let cards = parse("甲(1) 暗 4星 龙/灵摆 100 200\n←3【灵摆】8→\n文", &names);
    assert_eq!(cards[0]._type.bits, Type::MONSTER | Type::PENDULUM | Type::EFFECT);
    assert_eq!(cards[0].lscale, 3);
    assert_eq!(cards[0].rscale, 8);
    assert_eq!(cards[0].desc, "←3【灵摆】8→\n文");
    let text = cdb_transformer::format(&cards[0], &names);
    assert_eq!(text, "甲(1) 暗 4星 龙/灵摆 100 200\n←3【灵摆】8→\n文");
    let cards = parse("甲(1) 暗 4星 龙 100 200\n←3【灵摆】8→", &names);
    assert_eq!(cards[0].lscale, 0);
    assert_eq!(cards[0].rscale, 0);
    assert_eq!(cards[0].desc, "←3【灵摆】8→");
}

#[test]
fn bracketed_prefix_gives_the_pack() {
    let names = SetNames::new();
    let cards = parse("[INFO-JP000] 甲(7) 通常魔法", &names);
    assert_eq!(cards.len(), 1);
    assert_eq!(cards[0].name, "甲");
    let pack = cards[0].pack.as_ref().unwrap();
    assert_eq!(pack.id, 7);
    assert_eq!(pack.pack_id, "INFO-JP000");
    assert_eq!(pack.pack, "");
    assert!(pack.rarity.is_empty());
    assert_eq!(pack.date, "");
    assert!(parse("甲(7) 通常魔法", &names)[0].pack.is_none());
}

#[test]
fn carriage_returns_are_dropped_from_lines() {
    let names = SetNames::new();
    let cards = parse("甲(1) 通常魔法\r\n一\r\n", &names);
    assert_eq!(cards.len(), 1);
    assert_eq!(cards[0].name, "甲");
    assert_eq!(cards[0]._type.bits, Type::SPELL);
    assert_eq!(cards[0].desc, "一");
    assert_eq!(cards[0].range, Some(Range { start: 0, end: 14 }));
}

#[test]
fn labelled_lines_set_series_categories_and_hints() {
    let names = SetNames::new();
    let cards = parse(
        "甲(1) 通常魔法\n系列字段：0x12、0x34\n系列：0x56\n系列：系列：0x100\n描述\n效果分类：送去墓地\n提示文本：一、、三\n提示文本：",
        &names,
    );
    assert_eq!(cards.len(), 1);
    assert_eq!(cards[0].setcode, 0x120034 | 0x56 | 0x100);
    assert_eq!(cards[0].desc, "描述");
    assert_eq!(cards[0].category.bits, 0x8);
    assert_eq!(cards[0].texts, vec![""]);
    let cards = parse("甲(1) 通常魔法\n提示文本：一、、三", &names);
    assert_eq!(cards[0].texts, vec!["一", "", "三"]);
    let cards = parse("甲(1) 通常魔法\n系列：0x1\n系列字段：0x2", &names);
    assert_eq!(cards[0].setcode, 0x2);
}

#[test]
fn link_monster_without_arrows_has_no_defense() {
    let names = SetNames::new();
    let cards = parse("甲(1) 地 LINK-0 创世神/连接 0  (Custom)", &names);
    assert_eq!(cards[0]._type.bits, Type::MONSTER | Type::LINK | Type::EFFECT);
    assert_eq!(cards[0].defense, 0);
    assert_eq!(cards[0].link_marker.bits, 0);
    assert_eq!(cdb_transformer::format(&cards[0], &names), "甲(1) 地 LINK-0 创世神/连接 0  (Custom)\n");
}

#[test]
fn rank_in_the_level_does_not_make_an_xyz_monster() {
    let names = SetNames::new();
    let cards = parse("甲(1) 地 4阶 战士 0 0", &names);
    assert_eq!(cards[0].level, 4);
    assert_eq!(cards[0]._type.bits, Type::MONSTER | Type::EFFECT);
    let cards = parse("甲(1) 地 4阶 战士/超量 0 0", &names);
    assert_eq!(cards[0]._type.bits, Type::MONSTER | Type::XYZ | Type::EFFECT);
    assert_eq!(cdb_transformer::format(&cards[0], &names), "甲(1) 地 4阶 战士/超量 0 0\n");
}

#[test]
fn open_card_reads_the_groups_of_a_header() {
    let header = groups(&[
        Some("whole"),
        Some("[AB-01] "),
        Some("名"),
        Some("12"),
        Some("=>34"),
        Some("34"),
        Some("速攻魔法"),
        Some("(TCG)"),
        Some("TCG"),
    ]);
    let card = Xyyz::open_card(&header, &None, 9).unwrap();
    assert_eq!(card.code, 12);
    assert_eq!(card.name, "名");
    assert_eq!(card.alias, 34);
    assert_eq!(card._type.bits, Type::SPELL | Type::QUICKPLAY);
    assert_eq!(card.ot.bits, OT::TCG);
    assert_eq!(card.range, Some(Range { start: 9, end: 9 }));
    assert_eq!(card.pack.as_ref().unwrap().pack_id, "AB-01");
    assert_eq!(card.pack.as_ref().unwrap().id, 12);
    let stats = groups(&[
        Some("whole"),
        Some("光"),
        Some("LINK-3"),
        Some("电子界"),
        Some("/连接"),
        Some("2300"),
        Some("[↑][←][→]"),
        Some("[↑][←][→]"),
    ]);
    let card = Xyyz::open_card(&header, &Some(stats), 0).unwrap();
    assert_eq!(card._type.bits, Type::MONSTER | Type::LINK | Type::EFFECT);
    assert_eq!(card.level, 3);
    assert_eq!(card.attack, 2300);
    assert_eq!(card.link_marker.bits, 128 | 8 | 32);
    assert_eq!(card.defense, 128 | 8 | 32);
    let short = groups(&[Some("whole"), None, Some("名")]);
    assert!(Xyyz::open_card(&short, &None, 0).is_none());
    let no_code = groups(&[Some("w"), None, Some("名"), None, None, None, Some("x")]);
    assert!(Xyyz::open_card(&no_code, &None, 0).is_none());
    let half_stats = groups(&[Some("w"), Some("光"), Some("4星")]);
    let card = Xyyz::open_card(&header, &Some(half_stats), 0).unwrap();
    assert_eq!(card._type.bits, Type::SPELL | Type::QUICKPLAY);
}

#[test]
fn continue_card_reads_one_line() {
    let names = SetNames::new();
    let mut card = Card::new();
    Xyyz::continue_card(&mut card, "第一行", &None, &names);
    Xyyz::continue_card(&mut card, "第二行", &None, &names);
    assert_eq!(card.desc, "第一行\n第二行");
    let scales = groups(&[Some("←1【灵摆】2→"), Some("1"), Some("2")]);
    Xyyz::continue_card(&mut card, "←1【灵摆】2→", &Some(scales.clone()), &names);
    assert_eq!((card.lscale, card.rscale), (0, 0));
    card._type = Type::from_bits_truncate(Type::MONSTER | Type::PENDULUM);
    Xyyz::continue_card(&mut card, "←1【灵摆】2→", &Some(scales), &names);
    assert_eq!((card.lscale, card.rscale), (1, 2));
    assert_eq!(card.desc, "第一行\n第二行\n←1【灵摆】2→\n←1【灵摆】2→");
    Xyyz::continue_card(&mut card, "效果分类：幸运", &None, &names);
    assert_eq!(card.category.bits, 0x8000000);
}

#[test]
fn span_is_ended_once() {
    let mut card = Card::new();
    set_card_range(&mut card, 5);
    assert_eq!(card.range, None);
    card.range = Some(Range::from(3, 3));
    set_card_range(&mut card, 9);
    assert_eq!(card.range, Some(Range { start: 3, end: 9 }));
    set_card_range(&mut card, 12);
    assert_eq!(card.range, Some(Range { start: 3, end: 9 }));
}
