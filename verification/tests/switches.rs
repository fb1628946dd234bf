use cydonia::switches::{
    as_submenu, covered_by_config, current_position, select_options, set_to, switches, value_of,
    Category, ConfigKind, ConfigOption, Mode, Modes, SelectOption, SelectOptions, Switch, SwitchId,
    SwitchOption, SUBMENU_ROWS,
};

fn select(value: &str, name: &str) -> SelectOption {
    SelectOption { value: value.to_owned(), name: name.to_owned() }
}

fn mode(id: &str) -> Mode {
    Mode { id: id.to_owned(), name: id.to_uppercase() }
}

#[test]
fn grouped_values_fold_into_one_list() {
    let out = select_options(&SelectOptions::Grouped(vec![
        vec![select("a", "A")],
        vec![select("b", "B"), select("c", "C")],
    ]));
    let ids: Vec<&str> = out.iter().map(|o| o.id.as_str()).collect();
    assert_eq!(ids, vec!["a", "b", "c"]);
}

fn model_option() -> ConfigOption {
    ConfigOption {
        id: "model".to_owned(),
        name: "Model".to_owned(),
        category: Some(Category::Model),
        kind: ConfigKind::Select {
            current: "opus".to_owned(),
            options: SelectOptions::Ungrouped(vec![select("opus", "Opus"), select("sonnet", "Sonnet")]),
        },
    }
}

#[test]
fn config_comes_first_then_modes() {
    let modes = Some(Modes { current: "plan".to_owned(), available: vec![mode("plan"), mode("act")] });
    let out = switches(&vec![model_option()], &modes);
    assert_eq!(out.len(), 2);
    assert!(matches!(&out[0].id, SwitchId::Config(id) if id == "model"));
    assert!(matches!(out[1].id, SwitchId::Mode));
    assert_eq!(out[1].name, "Mode");
    assert_eq!(value_of(&out[0]).as_deref(), Some("Opus"));
    assert_eq!(current_position(&out[1]), Some(0));
}

#[test]
fn modes_offered_as_config_are_not_offered_twice() {
    let modes = Modes { current: "plan".to_owned(), available: vec![mode("plan"), mode("act")] };
    let as_config = ConfigOption {
        id: "mode".to_owned(),
        name: "Mode".to_owned(),
        category: None,
        kind: ConfigKind::Select {
            current: "plan".to_owned(),
            options: SelectOptions::Ungrouped(vec![select("plan", "Plan"), select("act", "Act")]),
        },
    };
    assert!(covered_by_config(&vec![as_config.clone()], &modes));
    assert!(!covered_by_config(&vec![model_option()], &modes));
    assert_eq!(switches(&vec![as_config], &Some(modes)).len(), 1);
}

#[test]
fn a_switch_reads_its_value() {
    let s = Switch {
        id: SwitchId::Mode,
        name: "Mode".to_owned(),
        current: Some("gone".to_owned()),
        options: vec![SwitchOption { id: "a".to_owned(), name: "A".to_owned() }],
    };
    assert_eq!(value_of(&s), None);
    assert_eq!(current_position(&s), None);
    assert_eq!(set_to("Model", Some("Opus".to_owned())), "Model: Opus");
    assert_eq!(set_to("Model", None), "Model");
    assert!(as_submenu(&s));
    let long = Switch {
        options: (0..=SUBMENU_ROWS)
            .map(|i| SwitchOption { id: i.to_string(), name: i.to_string() })
            .collect(),
        ..s
    };
    assert!(!as_submenu(&long));
}
