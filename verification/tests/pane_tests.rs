use myshortcuts::objects::{Configuration, Shortcut};
use myshortcuts::pane::{masked, State, WidgetConfigurations, WidgetShortcuts};

#[test]
fn set_values_empty_substitutes_default_shortcut_row() {
    let mut pane = WidgetShortcuts::from(
        vec![Shortcut::from("a", "Custom")],
        State::Selected { row: 0, column: 1 },
    );
    pane.set_values(vec![]);
    assert_eq!(pane.get_values().len(), 1);
    assert_eq!(pane.get_values()[0].get_name(), "Default0");
    assert_eq!(pane.get_values()[0].get_kind(), "Custom");
}

#[test]
fn set_values_nonempty_never_zero_rows() {
    let mut pane = WidgetShortcuts::from(vec![], State::WasSelected { row: 0 });
    assert_eq!(pane.get_values().len(), 1);
    pane.set_values(vec![Shortcut::from("a", "Redis"), Shortcut::from("b", "Custom")]);
    assert_eq!(pane.get_values().len(), 2);
    assert_eq!(pane.get_values()[0].get_name(), "a");
}

#[test]
fn set_values_empty_substitutes_default_configuration_row() {
    let mut pane = WidgetConfigurations::from(vec![], State::WasSelected { row: 0 });
    assert_eq!(pane.get_values().len(), 1);
    assert_eq!(pane.get_values()[0].get_value(), "echo Welcome on MyShortcuts");
    assert_eq!(pane.get_values()[0].get_kind(), "DefaultProperty");
    pane.set_values(vec![Configuration::from("x", "Host")]);
    pane.set_values(vec![]);
    assert_eq!(pane.get_values().len(), 1);
    assert_eq!(pane.get_values()[0].get_kind(), "DefaultProperty");
}

#[test]
fn hidde_toggles_without_touching_values() {
    let mut pane = WidgetConfigurations::from(
        vec![Configuration::from("secret", "Password")],
        State::WasSelected { row: 0 },
    );
    assert!(pane.is_hidden());
    pane.hidde();
    assert!(!pane.is_hidden());
    pane.hidde();
    assert!(pane.is_hidden());
    assert_eq!(pane.get_values()[0].get_value(), "secret");
}

#[test]
fn masked_replaces_every_character() {
    assert_eq!(masked("secret"), "******");
    assert_eq!(masked(""), "");
}

#[test]
fn get_editing_value_returns_label_and_text() {
    let pane = WidgetShortcuts::from(
        vec![Shortcut::from("prod", "Oracle")],
        State::Selected { row: 0, column: 1 },
    );
    let pair = pane.get_editing_value(0);
    assert_eq!(pair[0], "Oracle");
    assert_eq!(pair[1], "prod");
}

#[test]
fn get_mut_values_allows_in_place_edit() {
    let mut pane = WidgetShortcuts::from(
        vec![Shortcut::from("prod", "Oracle")],
        State::Selected { row: 0, column: 1 },
    );
    pane.get_mut_values()[0].get_mut_name().push('2');
    assert_eq!(pane.get_values()[0].get_name(), "prod2");
}

#[test]
fn column_widths_fit_the_widest_cell_with_floors() {
    let pane = WidgetShortcuts::from(
        vec![Shortcut::from("a-rather-long-name", "Oracle")],
        State::Selected { row: 0, column: 1 },
    );
    let (kind_col, name_col) = pane.constraint_len_calculator();
    assert_eq!(kind_col, 7);
    assert_eq!(name_col, 19);
    let narrow = WidgetShortcuts::from(
        vec![Shortcut::from("a", "b")],
        State::Selected { row: 0, column: 1 },
    );
    assert_eq!(narrow.constraint_len_calculator(), (6, 5));
    let cfg = WidgetConfigurations::from(
        vec![Configuration::from("v", "k")],
        State::WasSelected { row: 0 },
    );
    assert_eq!(cfg.constraint_len_calculator(), (9, 6));
}

#[test]
fn get_state_returns_snapshot() {
    let pane = WidgetShortcuts::from(
        vec![Shortcut::from("a", "Custom")],
        State::Selected { row: 0, column: 1 },
    );
    match pane.get_state() {
        State::Selected { row, column } => {
            assert_eq!(row, 0);
            assert_eq!(column, 1);
        }
        _ => panic!("expected Selected"),
    }
}
