use cdb_transformer::pattern::Groups;
use cdb_transformer::setnames::SetNames;
use cdb_transformer::transformers::warnings::{warnings, warnings_of_header, warnings_of_line, WarningKind};

fn groups(items: &[Option<&str>]) -> Groups {
    items.iter().map(|g| g.map(|s| s.to_string())).collect()
}

#[test]
fn dropped_names_are_told_in_the_order_of_the_text() {
    let names = cdb_transformer::set_string_conf("!setname 0x1 有名");
    let found = warnings(
        "效果分类：开头\n甲(1) 木/暗 4级 龙/什么 100 200 (NoSuch & OCG)\n系列：无名、有名、 0x1 、0xzz\n#效果分类：注释\n效果分类：幸运、怪\n描述 什么\n\n乙(2) 什么魔法\n系列字段： 空 ",
        &names,
    );
    let told: Vec<(WarningKind, &str)> = found.iter().map(|w| (w.kind, w.text.as_str())).collect();
    assert_eq!(
        told,
        vec![
            (WarningKind::Name, "NoSuch"),
            (WarningKind::Name, "木"),
            (WarningKind::Level, "4级"),
            (WarningKind::Name, "什么"),
            (WarningKind::Series, "无名"),
            (WarningKind::Series, "0xzz"),
            (WarningKind::Name, "怪"),
            (WarningKind::Series, "空"),
        ]
    );
    assert!(warnings("甲(1) 暗 8星 龙/特殊召唤 2500 2500\n系列：有名\n效果分类：幸运", &names).is_empty());
    assert!(warnings("", &names).is_empty());
}

#[test]
fn header_and_line_warnings_stand_alone() {
    let names = SetNames::new();
    let header = groups(&[Some("w"), None, Some("名"), Some("1"), None, None, Some("x"), Some("(A&TCG)"), Some("A&TCG")]);
    let stats = groups(&[Some("w"), Some("暗"), Some("LINK-1"), Some("龙/鸟"), Some("/连接/非效果/坏"), Some("1"), Some("[↑][x]"), Some("[↑][x]")]);
    let found = warnings_of_header(&header, &Some(stats));
    let told: Vec<(WarningKind, &str)> = found.iter().map(|w| (w.kind, w.text.as_str())).collect();
    assert_eq!(
        told,
        vec![
            (WarningKind::Name, "A"),
            (WarningKind::Name, "鸟"),
            (WarningKind::Name, "坏"),
            (WarningKind::Name, "x"),
        ]
    );
    assert!(warnings_of_header(&header, &None).len() == 1);
    assert!(warnings_of_line("描述", &names).is_empty());
    assert!(warnings_of_line("提示文本：什么", &names).is_empty());
    let found = warnings_of_line("系列：甲、0x12", &names);
    assert_eq!(found.len(), 1);
    assert_eq!(found[0].kind, WarningKind::Series);
    assert_eq!(found[0].text, "甲");
}
