use poe_trans::translator::util::stat::Template;
use poe_trans::translator::util::{get_zh_body, is_dynamic_property};
use std::collections::HashMap;

fn map(entries: &[(i32, &str)]) -> HashMap<i32, String> {
    entries.iter().map(|(k, v)| (*k, v.to_string())).collect()
}

#[test]
fn test_get_zh_body() {
    assert_eq!(
        get_zh_body("低血时最大闪避值提高 {0}%"),
        "低血时最大闪避值提高%"
    );
}

#[test]
fn mod_test_regex() {
    assert_eq!(
        get_zh_body(
            "近期内，你或你的召唤生物每击败一个敌人\n则每秒回复你 {0}% 能量护盾，每秒最多 10%"
        ),
        "近期内，你或你的召唤生物每击败一个敌人则每秒回复你%能量护盾，每秒最多%"
    );
}

#[test]
fn stat_test_regex() {
    let zh_mod = "5 秒内回复 1000 生命";
    let zh_tmpl = Template::new("{1} 秒内回复 {0} 生命");
    let en_tmpl = Template::new("Recovers {0} Life over {1} Seconds");

    let out = en_tmpl.render(zh_tmpl.parse_params(zh_mod).unwrap());
    assert_eq!(out, "Recovers 1000 Life over 5 Seconds");
}

#[test]
fn match_binds_each_slot_to_its_number() {
    let params = Template::new("{1} 秒内回复 {0} 生命")
        .parse_params("5 秒内回复 1000 生命")
        .unwrap();
    assert_eq!(params, map(&[(0, "1000"), (1, "5")]));
}

#[test]
fn body_is_the_same_with_and_without_numbers() {
    assert_eq!(
        get_zh_body("低血时最大闪避值提高 10%"),
        get_zh_body("低血时最大闪避值提高 {0}%")
    );
    assert_eq!(get_zh_body("a1b2,c%d"), "%");
    assert_eq!(get_zh_body(""), "");
}

#[test]
fn parsing_twice_gives_the_same_pattern_and_rendering() {
    let text = "增加 {0} 到 {1} 点{伤害}";
    let a = Template::new(text);
    let b = Template::new(text);
    assert_eq!(a.pattern(), b.pattern());
    let params = map(&[(0, "x"), (1, "y")]);
    assert_eq!(a.render(params.clone()), b.render(params));
}

#[test]
fn pattern_escapes_segments_and_groups_slots() {
    assert_eq!(
        Template::new("+{0}% (a.b)").pattern(),
        r"^\+(\S+)% \(a\.b\)$"
    );
    assert_eq!(Template::new("plain").pattern(), "^plain$");
    assert_eq!(Template::new("{0}").pattern(), r"^(\S+)$");
}

#[test]
fn meta_characters_in_a_template_match_themselves() {
    let params = Template::new("+{0}% (max)")
        .parse_params("+12% (max)")
        .unwrap();
    assert_eq!(params, map(&[(0, "12")]));
    assert!(Template::new("a.c {0}").parse_params("abc 1").is_none());
}

#[test]
fn braces_without_a_number_are_text() {
    let t = Template::new("a{}b{x}c{1");
    assert_eq!(t.pattern(), r"^a\{\}b\{x\}c\{1$");
    assert_eq!(t.render(HashMap::new()), "a{}b{x}c{1");
}

#[test]
fn a_slot_restarts_at_the_next_opening_brace() {
    let t = Template::new("{1{2}");
    assert_eq!(t.render(map(&[(2, "v")])), "{1v");
    assert_eq!(t.render(map(&[(1, "no")])), "{1");
}

#[test]
fn a_number_too_large_for_a_slot_is_text() {
    let t = Template::new("x{99999999999}y{2147483647}");
    assert_eq!(t.render(map(&[(2147483647, "!")])), "x{99999999999}y!");
}

#[test]
fn leading_zeros_name_the_same_parameter() {
    let t = Template::new("{007} and {7}");
    assert_eq!(t.render(map(&[(7, "q")])), "q and q");
}

#[test]
fn render_leaves_out_what_the_map_lacks() {
    let t = Template::new("{0} to {1} damage");
    assert_eq!(t.render(map(&[(1, "9")])), " to 9 damage");
    assert_eq!(t.render(HashMap::new()), " to  damage");
}

#[test]
fn candidate_must_match_from_start_to_end() {
    let t = Template::new("adds {0} life");
    assert!(t.parse_params("adds 5 life").is_some());
    assert!(t.parse_params("adds 5 life!").is_none());
    assert!(t.parse_params("it adds 5 life").is_none());
    assert!(t.parse_params("adds  life").is_none());
    assert!(t.parse_params("adds 5 6 life").is_none());
}

#[test]
fn a_repeated_number_keeps_the_last_binding() {
    let params = Template::new("{0} and {0}")
        .parse_params("a and b")
        .unwrap();
    assert_eq!(params, map(&[(0, "b")]));
}

#[test]
fn bind_wants_one_group_for_each_slot() {
    let t = Template::new("{3} of {4}");
    let whole = Some("x of y".to_string());
    let groups = vec![whole.clone(), Some("x".to_string()), Some("y".to_string())];
    assert_eq!(t.bind(&groups).unwrap(), map(&[(3, "x"), (4, "y")]));
    assert!(t.bind(&vec![whole.clone(), Some("x".to_string())]).is_none());
    assert!(t
        .bind(&vec![whole, Some("x".to_string()), None])
        .is_none());
}

#[test]
fn round_trip_of_rendering_and_matching() {
    let t = Template::new("{1} 秒内回复 {0} 生命");
    let params = map(&[(0, "1000"), (1, "5")]);
    let text = t.render(params.clone());
    assert_eq!(t.parse_params(&text).unwrap(), params);
}

#[test]
fn dynamic_property_carries_the_first_slot() {
    assert!(is_dynamic_property("品质 {0}"));
    assert!(!is_dynamic_property("品质 {1}"));
    assert!(!is_dynamic_property(""));
}
