use webweb::trait_objects::{Button, Draw, Label, Screen};

#[test]
fn button_draws_its_frame() {
    let button = Button {
        width: 10,
        height: 3,
        label: String::from("olus:)"),
    };
    assert_eq!(
        button.draw(),
        "+--------+\n| olus:) |\n|        |\n+--------+"
    );
}

#[test]
fn label_centres_its_lines() {
    let label = Label {
        label: String::from("\nPedro...\nPedro?\n Sip. Pedro =D "),
    };
    assert_eq!(
        label.draw(),
        "               \n   Pedro...    \n    Pedro?     \n Sip. Pedro =D "
    );
}

#[test]
fn narrow_button_grows_to_its_label() {
    let button = Button {
        width: 1,
        height: 1,
        label: String::from("A ver flaco no\nentendes nada\nvos"),
    };
    assert_eq!(
        button.draw(),
        "+--------------+\n|A ver flaco no|\n|entendes nada |\n|     vos      |\n+--------------+"
    );
}

#[test]
fn a_screen_holds_its_components() {
    let screen = Screen {
        components: vec![
            Label { label: String::from("one") },
            Label { label: String::from("two") },
        ],
    };
    assert_eq!(screen.components.len(), 2);
    assert_eq!(screen.components[0].draw(), "one");
}

#[test]
fn a_screen_composes_side_by_side() {
    let renders = vec![
        Button { width: 10, height: 3, label: String::from("olus:)") }.draw(),
        Label { label: String::from("\nPedro...\nPedro?\n Sip. Pedro =D ") }.draw(),
        Button { width: 1, height: 1, label: String::from("A ver flaco no\nentendes nada\nvos") }.draw(),
    ];
    let composed = webweb::trait_objects::compose_screen(&renders);
    let mut expected = String::new();
    expected.push_str("+--------+               +--------------+\n");
    expected.push_str("| olus:) |   Pedro...    |A ver flaco no|\n");
    expected.push_str("|        |    Pedro?     |entendes nada |\n");
    expected.push_str("+--------+ Sip. Pedro =D |     vos      |\n");
    expected.push_str("                         +--------------+\n");
    assert_eq!(composed, expected);
}
