use poe_trans::db::{
    Attribute, BaseType, Gem, Node, Property, PropertyValue, Requirement, RequirementSuffix,
    RequirementValue, Skill, Stat, Unique,
};
use poe_trans::translator::provider::{
    attribute, base_type, gem, passive_skill, property, requirement, stat,
};
use poe_trans::translator::translator::zh_to_en::Basic;

fn s(text: &str) -> String {
    text.to_string()
}

fn node(zh: &str, en: &str) -> Node {
    Node { id: s("1"), zh: s(zh), en: s(en) }
}

fn stat_of(zh: &str, en: &str) -> Stat {
    Stat { zh: s(zh), en: s(en) }
}

fn base(zh: &str, en: &str, uniques: Option<Vec<(&str, &str)>>) -> BaseType {
    BaseType {
        zh: s(zh),
        en: s(en),
        uniques: uniques.map(|list| {
            list.into_iter().map(|(zh, en)| Unique { zh: s(zh), en: s(en) }).collect()
        }),
    }
}

fn catalog() -> Basic {
    let attributes = vec![
        Attribute {
            zh: s("物品类别"),
            en: s("Item Class"),
            values: Some(vec![Attribute { zh: s("戒指"), en: s("Rings"), values: None }]),
        },
        Attribute { zh: s("稀有度"), en: s("Rarity"), values: None },
    ];
    let base_types = vec![
        vec![
            base("珊瑚戒指", "Coral Ring", None),
            base("皮革腰带", "Leather Belt", Some(vec![("不朽系命", "Immortal Flesh")])),
        ],
        vec![
            base("皮革腰带", "Leather Belt Twin", Some(vec![("龙炎", "Wurm's Molt")])),
            base("帝王战甲", "Glorious Plate", None),
        ],
    ];
    let gems = vec![
        Gem { zh: s("增幅（辅）"), en: s("Enhance Support") },
        Gem { zh: s("火球"), en: s("Fireball") },
        Gem { zh: s("投射物归返（辅）"), en: s("Returning Projectiles Support") },
    ];
    let hybrid = vec![Skill { zh: s("火球"), en: s("Fireball of the Hybrid") }];
    let properties = vec![
        Property {
            zh: s("品质"),
            en: s("Quality"),
            values: Some(vec![PropertyValue { zh: s("高"), en: s("High") }]),
        },
        Property { zh: s("范围"), en: s("Radius"), values: None },
        Property { zh: s("攻击范围 {0} 米"), en: s("Range of {0} metres"), values: None },
    ];
    let requirements = vec![
        Requirement {
            zh: s("职业："),
            en: s("Class:"),
            values: Some(vec![RequirementValue { zh: s("贵族"), en: s("Scion") }]),
        },
        Requirement { zh: s("等级"), en: s("Level"), values: None },
    ];
    let suffixes = vec![RequirementSuffix { zh: s("(宝石)"), en: s("(gem)") }];
    let stats = vec![
        stat_of(
            "低血时最大闪避值提高 {0}%",
            "{0}% increased Global Evasion Rating when on Low Life",
        ),
        stat_of("{1} 秒内回复 {0} 生命", "Recovers {0} Life over {1} Seconds"),
        stat_of("无法被冰冻", "Cannot be Frozen"),
        stat_of("获得 {0} 层\n持续 {1} 秒", "Gain {0} stacks\nfor {1} seconds"),
        stat_of("获得 {0} 层\n持续 {1} 秒\n最多 {2} 层", "Gain {0} stacks\nfor {1} seconds\nup to {2}"),
        stat_of("获得 {0} 层", "Gain {0} stacks"),
    ];
    Basic::new(
        attribute::Provider::new(attributes),
        base_type::Provider::new(base_types),
        gem::Provider::new(gems, hybrid),
        passive_skill::Provider::new(
            vec![node("灵魂吸取", "Soul Siphon")],
            vec![node("异灵之体", "Eldritch Battery")],
            vec![node("暗影（贵族）", "Assassin"), node("深渊行者", "Pathfinder")],
        ),
        property::Provider::new(properties),
        requirement::Provider::new(requirements, suffixes),
        stat::Provider::new(stats),
    )
}

#[test]
fn test_new() {
    let attr = Attribute {
        zh: String::from("物品类别"),
        en: String::from("Item Class"),
        values: None,
    };
    let attributes = vec![attr];

    let provider = attribute::Provider::new(attributes);

    assert_eq!(provider.provide_by_zh("物品类别").unwrap().en, "Item Class");
}

#[test]
fn basic_test_translate() {
    let basic = catalog();

    assert_eq!(
        basic.trans_mod("低血时最大闪避值提高 10%").unwrap(),
        "10% increased Global Evasion Rating when on Low Life"
    );

    assert!(&basic.trans_gem("投射物归返（辅）").unwrap() == "Returning Projectiles Support");
    assert!(&basic.trans_gem("增幅(辅)").unwrap() == "Enhance Support");
}

#[test]
fn provider_gives_the_last_entry_of_a_name() {
    let provider = attribute::Provider::new(vec![
        Attribute { zh: s("甲"), en: s("first"), values: None },
        Attribute { zh: s("乙"), en: s("other"), values: None },
        Attribute { zh: s("甲"), en: s("second"), values: None },
    ]);
    assert_eq!(provider.provide_by_zh("甲").unwrap().en, "second");
    assert_eq!(provider.provide_by_zh("乙").unwrap().en, "other");
    assert!(provider.provide_by_zh("丙").is_none());
}

#[test]
fn base_types_of_a_name_come_in_their_order() {
    let basic = catalog();
    assert_eq!(basic.find_base_type("皮革腰带").unwrap().en, "Leather Belt");
    assert_eq!(basic.trans_base_type("帝王战甲").unwrap(), "Glorious Plate");
    assert!(basic.trans_base_type("没有").is_none());
    assert_eq!(
        basic.find_base_type_by_unique("龙炎", "皮革腰带").unwrap().en,
        "Leather Belt Twin"
    );
    assert!(basic.find_base_type_by_unique("龙炎", "珊瑚戒指").is_none());
}

#[test]
fn names_of_items() {
    let basic = catalog();
    assert_eq!(
        basic.trans_name_and_base_type("龙炎", "皮革腰带"),
        Some((s("Wurm's Molt"), s("Leather Belt Twin")))
    );
    assert_eq!(
        basic.trans_name_and_base_type("灾祸 束带", "皮革腰带"),
        Some((s("Item"), s("Leather Belt")))
    );
    assert_eq!(
        basic.trans_name_and_base_type("", "珊瑚戒指"),
        Some((s(""), s("Coral Ring")))
    );
    assert_eq!(basic.trans_name_and_base_type("龙炎", "没有"), None);
}

#[test]
fn type_lines_lose_their_marks_and_affixes() {
    let basic = catalog();
    assert_eq!(basic.trans_type_line("珊瑚戒指").unwrap(), "Coral Ring");
    assert_eq!(basic.trans_type_line("精良的 珊瑚戒指").unwrap(), "Coral Ring");
    assert_eq!(basic.trans_type_line("忆境 珊瑚戒指").unwrap(), "Coral Ring");
    assert_eq!(basic.trans_type_line("精良的 忆境 珊瑚戒指").unwrap(), "Coral Ring");
    assert_eq!(basic.trans_type_line("狂热之珊瑚戒指").unwrap(), "Coral Ring");
    assert_eq!(basic.trans_type_line("坚固的豹之珊瑚戒指").unwrap(), "Coral Ring");
    assert!(basic.trans_type_line("狂热之没有").is_none());
}

#[test]
fn attributes_properties_and_requirements() {
    let basic = catalog();
    assert_eq!(
        basic.trans_attr("物品类别", "戒指"),
        (Some(s("Item Class")), Some(s("Rings")))
    );
    assert_eq!(basic.trans_attr("物品类别", "腰带"), (Some(s("Item Class")), None));
    assert_eq!(basic.trans_attr("稀有度", "稀有"), (None, None));
    assert_eq!(basic.trans_attr("没有", "戒指"), (None, None));
    assert_eq!(basic.trans_attr_name("稀有度").unwrap(), "Rarity");

    assert_eq!(basic.trans_prop("品质", "高"), (Some(s("Quality")), Some(s("High"))));
    assert_eq!(basic.trans_prop("品质", "低"), (Some(s("Quality")), None));
    assert_eq!(basic.trans_prop("范围", "大"), (Some(s("Radius")), None));
    assert_eq!(basic.trans_prop("没有", "大"), (None, None));

    assert_eq!(basic.trans_req("职业：", "贵族"), (Some(s("Class:")), Some(s("Scion"))));
    assert_eq!(basic.trans_req("等级", "70"), (Some(s("Level")), None));
    assert_eq!(basic.trans_req("没有", "70"), (None, None));
    assert_eq!(basic.trans_req_name("等级").unwrap(), "Level");
    assert_eq!(basic.trans_req_suffix("(宝石)").unwrap(), "(gem)");
    assert!(basic.trans_req_suffix("没有").is_none());
}

#[test]
fn property_names_with_parameters() {
    let basic = catalog();
    assert_eq!(basic.trans_prop_name("品质").unwrap(), "Quality");
    assert_eq!(basic.trans_prop_name("攻击范围 13 米").unwrap(), "Range of 13 metres");
    assert!(basic.trans_prop_name("攻击范围 米").is_none());
    assert!(basic.trans_prop_name("没有").is_none());
}

#[test]
fn gems_and_their_properties() {
    let basic = catalog();
    assert_eq!(Basic::fmt_gem_name("增幅(辅)"), "增幅（辅）");
    assert_eq!(basic.trans_gem("增幅（辅）").unwrap(), "Enhance Support");
    assert_eq!(basic.trans_gem("火球").unwrap(), "Fireball of the Hybrid");
    assert!(basic.trans_gem("没有").is_none());
    assert_eq!(basic.trans_gem_prop("等级").unwrap(), "Level");
    assert_eq!(basic.trans_gem_prop("品质").unwrap(), "Quality");
    assert!(basic.trans_gem_prop("经验值").is_none());
}

#[test]
fn nodes_of_the_tree() {
    let basic = catalog();
    assert_eq!(basic.trans_notable("灵魂吸取").unwrap(), "Soul Siphon");
    assert_eq!(basic.trans_keystone("异灵之体").unwrap(), "Eldritch Battery");
    assert_eq!(basic.trans_ascendant("深渊行者").unwrap(), "Pathfinder");
    assert!(basic.trans_notable("异灵之体").is_none());
}

#[test]
fn modifiers_by_text_and_by_template() {
    let basic = catalog();
    assert_eq!(basic.trans_mod("无法被冰冻").unwrap(), "Cannot be Frozen");
    assert_eq!(
        basic.trans_mod("5 秒内回复 1000 生命").unwrap(),
        "Recovers 1000 Life over 5 Seconds"
    );
    assert!(basic.trans_mod("无法被点燃").is_none());
    assert!(basic.trans_mod("").is_none());
}

#[test]
fn modifiers_behind_known_prefixes() {
    let basic = catalog();
    assert_eq!(basic.trans_mod("配置 灵魂吸取").unwrap(), "Allocates Soul Siphon");
    assert!(basic.trans_mod("配置 没有").is_none());
    assert_eq!(
        basic.trans_mod("禁断之火上有匹配的词缀则配置 深渊行者").unwrap(),
        "Allocates Pathfinder if you have the matching modifier on Forbidden Flame"
    );
    assert_eq!(
        basic.trans_mod("禁断之肉上有匹配的词缀则配置 深渊行者").unwrap(),
        "Allocates Pathfinder if you have the matching modifier on Forbidden Flesh"
    );
    assert_eq!(
        basic.trans_mod("有一个传奇怪物出现在你面前：无法被冰冻").unwrap(),
        "While a Unique Enemy is in your Presence, Cannot be Frozen"
    );
    assert_eq!(
        basic
            .trans_mod("有一个异界图鉴最终首领出现在你面前：低血时最大闪避值提高 7%")
            .unwrap(),
        "While a Pinnacle Atlas Boss is in your Presence, 7% increased Global Evasion Rating when on Low Life"
    );
    assert_eq!(
        basic
            .trans_mod("有一个传奇怪物出现在你面前：有一个异界图鉴最终首领出现在你面前：配置 灵魂吸取")
            .unwrap(),
        "While a Unique Enemy is in your Presence, While a Pinnacle Atlas Boss is in your Presence, Allocates Soul Siphon"
    );
    assert!(basic.trans_mod("有一个传奇怪物出现在你面前：没有").is_none());
    assert!(basic.is_anointed_mod("配置 灵魂吸取"));
    assert!(!basic.is_anointed_mod("配置"));
    assert!(basic.is_eldritch_implicit_mod("有一个传奇怪物出现在你面前：x"));
    assert!(basic.is_forbidden_flame_mod("禁断之火上有匹配的词缀则配置 x"));
    assert!(basic.is_forbidden_flesh_mod("禁断之肉上有匹配的词缀则配置 x"));
}

#[test]
fn modifiers_of_several_lines_prefer_more_lines() {
    let basic = catalog();
    assert_eq!(basic.get_max_lines_of_multiline_mod("获得 3 层"), 3);
    assert_eq!(basic.get_max_lines_of_multiline_mod("无法被冰冻"), 0);
    assert_eq!(
        basic
            .trans_multiline_mod(vec!["获得 3 层", "持续 4 秒", "最多 9 层", "无法被冰冻"])
            .unwrap(),
        "Gain 3 stacks\nfor 4 seconds\nup to 9"
    );
    assert_eq!(
        basic
            .trans_multiline_mod(vec!["获得 3 层", "持续 4 秒", "无法被冰冻"])
            .unwrap(),
        "Gain 3 stacks\nfor 4 seconds"
    );
    assert_eq!(
        basic.trans_multiline_mod(vec!["获得 3 层", "持续 4 秒"]).unwrap(),
        "Gain 3 stacks\nfor 4 seconds"
    );
    assert!(basic.trans_multiline_mod(vec!["获得 3 层"]).is_none());
    assert!(basic.trans_multiline_mod(vec!["获得 3 层", "无法被冰冻"]).is_none());
}

#[test]
fn modifiers_of_several_lines_are_ranked() {
    let provider = stat::Provider::new(vec![
        stat_of("一\n二", "a"),
        stat_of("一", "b"),
        stat_of("一\n二\n三", "c"),
        stat_of("一\n四", "d"),
        stat_of("五\n六", "e"),
    ]);
    let entry = provider.provide_by_first_line_zh_body("一").unwrap();
    let ranked: Vec<(usize, usize)> =
        entry.stats.iter().map(|m| (m.id, m.line_count)).collect();
    assert_eq!(ranked, vec![(2, 3), (0, 2), (3, 2)]);
    assert_eq!(entry.max_lines, 3);
    assert_eq!(provider.provide_by_first_line_zh_body("五").unwrap().max_lines, 2);
    assert!(provider.provide_by_first_line_zh_body("二").is_none());
    assert_eq!(provider.provide(4).en, "e");
    let same: Vec<&str> = provider
        .provide_by_zh("一")
        .unwrap()
        .iter()
        .map(|stat| stat.en.as_str())
        .collect();
    assert_eq!(same, vec!["b"]);
    assert!(provider.provide_by_zh("六").is_none());
}
