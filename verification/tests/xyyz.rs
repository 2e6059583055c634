use cdb_transformer::card::{Card, CardTransformer};
use cdb_transformer::constants::{Attribute, Linkmarkers, Race, Type, OT};
use cdb_transformer::setnames::SetNames;
use cdb_transformer::transformers::xyyz::Xyyz;

#[test]
fn test_parse_text() {
    let text = "
游戏王九项修改器(65123333) 地/水/炎/风/光/暗 LINK-0 创世神/连接 0  (Custom)
——————第一页——————

日食爆龙(172017203) 暗 LINK-2 龙/连接 1600 [↓][↘] (Custom)
光属性龙族怪兽+暗属性龙族怪兽
①：这张卡连接召唤成功时发动。这张卡以外的场上的怪兽的攻击力只要这张卡在场上表侧表示变成0。为这个效果下降的攻击力每有500，把1个「燃料指示物」在这张卡上放置。
②：1回合1次，把这张卡上1个「燃料指示物」取除才能发动。从卡组选光·暗属性龙族怪兽各1只除外。这个效果发动的回合，自己不能把龙族怪兽以外的怪兽效果发动。
③：龙族怪兽的效果发动时，把这张卡解放才能发动。为这张卡连接召唤的那一组素材在墓地集齐的场合，把那些怪兽在自己场上特殊召唤。那之后，可以把这张卡放置过的「燃料指示物」数量的「燃料指示物」在自己场上1只「主宰龙 无穷烈日」上放置。

#这是一行注释
S.A.R.A.(172016020) 无 3星 龙/调整 0 1800 (Custom)
这张卡的属性是最后召唤·特殊召唤·反转召唤的怪兽的属性。
①：对方的主要阶段，把手卡的这张卡送去墓地才能发动。从卡组选1张和这张卡属性相同的攻0/防1800的调整怪兽加入手卡。这个效果发动的回合，这张卡是公开表示的场合，自己不是与这张卡属性相同的怪兽的效果不能发动。

原质阿尔法(114514269) 暗 3星 恶魔/通常 1000 1000 (Custom)
系列：原质炉
起点之果。

青眼白龙(89631141=>89631139) 通常魔法
以高攻击力著称的传说之龙。任何对手都能粉碎，其破坏力不可估量。";
    let names = SetNames::new();
    let cc = Xyyz::from_string(text, &names);
    println!("{:?}", cc[4]);
    assert_eq!(cc.len(), 5);
    assert_eq!(cc[0].code, 65123333);
    assert_eq!(cc[0].name, "游戏王九项修改器");
    assert_eq!(cc[0].attribute.bits, 1 | 2 | 4 | 8 | 16 | 32);
    assert_eq!(cc[0].level, 0);
    assert_eq!(cc[0].race.bits, Race::CREATORGOD);
    assert_eq!(cc[0]._type.bits, Type::MONSTER | Type::LINK | Type::EFFECT);
    assert_eq!(cc[0].attack, 0);
    assert_eq!(cc[0].defense, 0);
    assert_eq!(cc[0].ot.bits, OT::CUSTOM);
    assert_eq!(cc[0].desc, "——————第一页——————");
    assert_eq!(cc[1].code, 172017203);
    assert_eq!(cc[1].level, 2);
    assert_eq!(cc[1].link_marker.bits, Linkmarkers::BOTTOM | Linkmarkers::BOTTOM_RIGHT);
    assert_eq!(cc[1].defense, 6);
    assert_eq!(cc[1].attack, 1600);
    assert_eq!(cc[2].name, "S.A.R.A.");
    assert_eq!(cc[2].attribute.bits, 0);
    assert_eq!(cc[2]._type.bits, Type::MONSTER | Type::TUNER | Type::EFFECT);
    assert_eq!(cc[2].defense, 1800);
    assert_eq!(cc[3]._type.bits, Type::MONSTER | Type::NORMAL);
    assert_eq!(cc[3].setcode, 0);
    assert_eq!(cc[3].desc, "起点之果。");
    assert_eq!(cc[4].code, 89631141);
    assert_eq!(cc[4].alias, 89631139);
    assert_eq!(cc[4]._type.bits, Type::SPELL);
    assert_eq!(cc[4].ot.bits, OT::OCG | OT::TCG);
    assert_eq!(cc[4].attribute.bits, Attribute::empty().bits);
    let _ = Card::new();
}
