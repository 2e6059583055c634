use cdb_transformer::card::{Card, CardTransformer};
use cdb_transformer::constants::{Attribute, Category, Linkmarkers, Race, Type, OT};
use cdb_transformer::setnames::SetNames;
use cdb_transformer::transformers::script::{len, Script};

#[test]
fn script_test_parse() {
    let names = SetNames::new();
    let cards = Script::from_string("
    --------------------------------------------------------
    --- 王家的人柱(172016025) 通常陷阱 (Custom)
    --- ①：当自己场上有「王家长眠之谷」存在时才能发动。
    ---    双方玩家把卡组·额外卡组中的怪兽卡全部送去墓地。
    --------------------------------------------------------
local s,id,o=GetID()
    ", &names);
    println!("{}", Script::to_string(&cards[0], &names));
    assert_eq!(cards.len(), 1);
    assert_eq!(cards[0].code, 172016025);
    assert_eq!(cards[0].name, "王家的人柱");
    assert_eq!(cards[0]._type.bits, Type::TRAP);
    assert_eq!(cards[0].ot.bits, OT::CUSTOM);
    assert_eq!(
        cards[0].desc,
        "①：当自己场上有「王家长眠之谷」存在时才能发动。双方玩家把卡组·额外卡组中的怪兽卡全部送去墓地。"
    );
}

#[test]
fn script_test_format() {
    let names = SetNames::new();
    let card = Card {
        code: 10000,
        name: "测试".to_string(),
        desc: "①：抽1张卡。再选1张手卡丢弃。抽1张卡。再选1张手卡丢弃。抽1张卡。再选1张手卡丢弃。抽1张卡。再选1张手卡丢弃。抽1张卡。再选1张手卡丢弃。抽1张卡。再选1张手卡丢弃。\n②：回复100基本分。".to_string(),
        alias: 0,
        setcode: 0,
        _type: Type::from_bits_truncate(Type::SPELL),
        level: 0,
        attribute: Attribute::empty(),
        race: Race::empty(),
        attack: 0,
        defense: 0,
        lscale: 0,
        rscale: 0,
        link_marker: Linkmarkers::empty(),
        ot: OT::from_bits_truncate(OT::OCG | OT::TCG),
        category: Category::empty(),
        texts: vec![],
        pack: None,
        range: None,
    };
    let text = Script::to_string(&card, &names);
    println!("{}", text);
    let expected = "\
-----------------------------------------------------------------------------
--- 测试(10000) 通常魔法
--- ①：抽1张卡。再选1张手卡丢弃。抽1张卡。再选1张手卡丢弃。抽1张卡。
---    再选1张手卡丢弃。抽1张卡。再选1张手卡丢弃。抽1张卡。再选1张手卡丢弃。
---    抽1张卡。再选1张手卡丢弃。
--- ②：回复100基本分。
-----------------------------------------------------------------------------";
    assert_eq!(text, expected);
}

#[test]
fn width_counts_wide_characters_twice() {
    assert_eq!(len(""), 0);
    assert_eq!(len("abc"), 3);
    assert_eq!(len("抽1张卡。"), 9);
}
