use cdb_transformer::cli::{guess_format, preprocess};
use cdb_transformer::constants::{Attribute, Format, Type};
use cdb_transformer::number::{read_hex_u16, read_i32, read_u32, read_u64, write_decimal, write_hex_digits};
use cdb_transformer::setnames::{add_string_conf_to_hashmap, SetNames};
use cdb_transformer::text::{chars_of, join_with, split_inclusive_on, split_on, string_of, strip_leading, strip_trailing, trimmed};

fn chars(s: &str) -> Vec<char> {
    s.chars().collect()
}

fn strings(parts: &[Vec<char>]) -> Vec<String> {
    parts.iter().map(|p| p.iter().collect()).collect()
}

#[test]
fn configuration_lines_fill_the_table() {
    let names = cdb_transformer::set_string_conf(
        "#comment\n!setname 0x1 A\n!setname 0x2 B\tbb\n!setname 0x1 C\n!setname zz D\n!setname 0x3\n!setnames 0x4 E\n !setname 0x5 F\n!setname 0X6 G\n!setname 7 H\n!setname  0x8 I\n!setname 0x10000 J\n!setname 0x0x9 K rest",
    );
    assert_eq!(names.name(1), Some("C".to_string()));
    assert_eq!(names.name(2), Some("B".to_string()));
    assert_eq!(names.name(3), None);
    assert_eq!(names.name(4), Some("E".to_string()));
    assert_eq!(names.name(5), None);
    assert_eq!(names.name(6), None);
    assert_eq!(names.name(7), Some("H".to_string()));
    assert_eq!(names.name(8), None);
    assert_eq!(names.name(9), Some("K".to_string()));
    assert_eq!(names.name(0), None);
    assert_eq!(names.name(0xffff), None);
    assert_eq!(names.id("C"), Some(1));
    assert_eq!(names.id("A"), None);
    assert_eq!(names.id(""), None);
}

#[test]
fn a_second_text_adds_to_the_table() {
    let mut names = SetNames::new();
    assert_eq!(names.name(1), None);
    add_string_conf_to_hashmap(&mut names, "!setname 0x1 A\n!setname 0xffff Z");
    add_string_conf_to_hashmap(&mut names, "!setname 0x2 A\n!setname 0x1 B");
    assert_eq!(names.name(1), Some("B".to_string()));
    assert_eq!(names.name(2), Some("A".to_string()));
    assert_eq!(names.name(0xffff), Some("Z".to_string()));
    assert_eq!(names.id("A"), Some(2));
    names.insert(1, chars("A"));
    assert_eq!(names.id("A"), Some(1));
    assert_eq!(string_of(&names.decode(0x0002_0001)), "A、A");
    assert_eq!(string_of(&names.decode(0x0003_0000)), "0x3");
    assert_eq!(names.encode(&chars("A、0x3")), 0x10003);
}

#[test]
fn flags_keep_to_their_list() {
    assert_eq!(Attribute::from_bits_truncate(0xffff).bits, Attribute::ALL);
    assert_eq!(Attribute::from_bits_retain(0xffff).bits(), 0xffff);
    assert_eq!(Type::from_bits_truncate(0x8 | 0x8000 | Type::LINK).bits, Type::LINK);
    let monster = Type::from_bits_truncate(Type::MONSTER | Type::EFFECT);
    assert!(monster.contains(Type::from_bits_truncate(Type::MONSTER)));
    assert!(!monster.contains(Type::from_bits_truncate(Type::MONSTER | Type::LINK)));
    assert!(monster.intersects(Type::from_bits_truncate(Type::MONSTER | Type::LINK)));
    assert!(!monster.intersects(Type::from_bits_truncate(Type::LINK)));
    assert!(Type::empty().is_empty());
    assert!(!monster.is_empty());
    assert_eq!(monster.union(Type::from_bits_truncate(Type::LINK)).bits, Type::MONSTER | Type::EFFECT | Type::LINK);
    assert_eq!(monster.intersection(Type::from_bits_truncate(Type::EFFECT | Type::LINK)).bits, Type::EFFECT);
    assert_eq!(monster.difference(Type::from_bits_truncate(Type::EFFECT | Type::LINK)).bits, Type::MONSTER);
}

#[test]
fn numbers_are_written_and_read() {
    assert_eq!(string_of(&write_decimal(0)), "0");
    assert_eq!(string_of(&write_decimal(-120)), "-120");
    assert_eq!(string_of(&write_decimal(i64::MIN)), "-9223372036854775808");
    assert_eq!(string_of(&write_hex_digits(0)), "0");
    assert_eq!(string_of(&write_hex_digits(0xAB0F)), "AB0F");
    assert_eq!(read_u32(&chars("4294967295")), Some(u32::MAX));
    assert_eq!(read_u32(&chars("4294967296")), None);
    assert_eq!(read_u32(&chars("00012")), Some(12));
    assert_eq!(read_u32(&chars("+12")), Some(12));
    assert_eq!(read_u32(&chars("-0")), None);
    assert_eq!(read_u32(&chars("+")), None);
    assert_eq!(read_u32(&chars("")), None);
    assert_eq!(read_u32(&chars("１２")), None);
    assert_eq!(read_i32(&chars("-2147483648")), Some(i32::MIN));
    assert_eq!(read_i32(&chars("-2147483649")), None);
    assert_eq!(read_i32(&chars("-")), None);
    assert_eq!(read_i32(&chars("--1")), None);
    assert_eq!(read_u64(&chars("18446744073709551615")), Some(u64::MAX));
    assert_eq!(read_u64(&chars("18446744073709551616")), None);
    assert_eq!(read_u64(&chars("99999999999999999999999999999999999999999999")), None);
    assert_eq!(read_hex_u16(&chars("ffff")), Some(0xffff));
    assert_eq!(read_hex_u16(&chars("Ab")), Some(0xab));
    assert_eq!(read_hex_u16(&chars("10000")), None);
    assert_eq!(read_hex_u16(&chars("g")), None);
}

#[test]
fn texts_are_split_joined_and_trimmed() {
    assert_eq!(strings(&split_on(&chars("a、b、、c"), &chars("、"))), vec!["a", "b", "", "c"]);
    assert_eq!(strings(&split_on(&chars(""), &chars("/"))), vec![""]);
    assert_eq!(strings(&split_on(&chars("/"), &chars("/"))), vec!["", ""]);
    assert_eq!(strings(&split_on(&chars("a][b]][c"), &chars("]["))), vec!["a", "b]", "c"]);
    assert_eq!(strings(&split_on(&chars("aaa"), &chars("aa"))), vec!["", "a"]);
    assert_eq!(strings(&split_inclusive_on(&chars("一。二。三"), &chars("。"))), vec!["一。", "二。", "三"]);
    assert_eq!(strings(&split_inclusive_on(&chars("一。"), &chars("。"))), vec!["一。"]);
    assert!(split_inclusive_on(&chars(""), &chars("。")).is_empty());
    assert_eq!(string_of(&join_with(&vec![chars("a"), chars(""), chars("c")], &chars(", "))), "a, , c");
    assert_eq!(string_of(&join_with(&Vec::new(), &chars(", "))), "");
    assert_eq!(string_of(&trimmed(&chars(" \t\u{3000}a b\r\n"))), "a b");
    assert_eq!(string_of(&trimmed(&chars(" \u{a0} "))), "");
    assert_eq!(string_of(&strip_leading(&chars("ababc"), &chars("ab"))), "c");
    assert_eq!(string_of(&strip_trailing(&chars("1星星"), &chars("星"))), "1");
    assert_eq!(string_of(&strip_trailing(&chars("星"), &chars("星星"))), "星");
    assert_eq!(chars_of("龙a"), vec!['龙', 'a']);
}

#[test]
fn file_names_tell_the_format() {
    assert_eq!(guess_format("cards.cdb", None), Format::CDB);
    assert_eq!(guess_format("cards.sql", Some(Format::Xyyz)), Format::SQL);
    assert_eq!(guess_format("cards.txt", Some(Format::SQL)), Format::Xyyz);
    assert_eq!(guess_format("cards.xyyz", Some(Format::SQL)), Format::Xyyz);
    assert_eq!(guess_format("c{id}.lua", None), Format::Script);
    assert_eq!(guess_format("/dev/stdout", Some(Format::SQL)), Format::SQL);
    assert_eq!(guess_format("/dev/stdin", None), Format::Xyyz);
    assert_eq!(guess_format(".cdb.bak", None), Format::Xyyz);
}

#[test]
fn options_are_repeated_before_each_value() {
    let args: Vec<String> = ["prog", "a.txt", "b.txt", "--to", "out.sql", "--strings", "s1", "s2", "--allow-draft"]
        .iter()
        .map(|s| s.to_string())
        .collect();
    assert_eq!(
        preprocess(&args),
        vec!["prog", "--from", "a.txt", "--from", "b.txt", "--to", "out.sql", "--strings", "s1", "--strings", "s2", "--allow-draft"]
    );
    assert_eq!(preprocess(&Vec::new()), Vec::<String>::new());
    let args: Vec<String> = ["--from", "a", "b"].iter().map(|s| s.to_string()).collect();
    assert_eq!(preprocess(&args), vec!["--from", "a", "--from", "b"]);
}

#[test]
fn the_smallest_identifier_of_a_name_is_found() {
    let mut names = SetNames::new();
    let ids: [u16; 9] = [0xffff, 0x7000, 0x123, 0x9000, 0x45, 0x8001, 0x46, 0x3000, 0x100];
    for id in ids {
        names.insert(id, chars("同名"));
        names.insert(id.wrapping_add(1), chars("别名"));
    }
    assert_eq!(names.id("同名"), Some(0x45));
    assert_eq!(names.id("别名"), Some(0));
    assert_eq!(names.id("无名"), None);
    names.insert(0x45, chars("改名"));
    assert_eq!(names.id("同名"), Some(0x46));
    assert_eq!(names.id("改名"), Some(0x45));
    assert_eq!(names.name(0x47), Some("别名".to_string()));
    names.insert(0x46, chars("改名"));
    assert_eq!(names.id("同名"), Some(0x100));
    assert_eq!(names.id("改名"), Some(0x45));
    assert_eq!(names.encode(&chars("同名、别名、改名")), 0x0100_0000_0045);
    assert_eq!(string_of(&names.decode(0x0100_0000_0045)), "改名、同名");
}
