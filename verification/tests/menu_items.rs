use minesweeper::menu::items::{
    Button, FormattedString, Lable, MenuObject, MenuType, RadioButton, Selection, TextBox, Value,
};

const NUMBER_OF_TAB: u32 = 5;

#[test]
fn lable_test() {
    let text = "I am a Lable";
    let lable = Lable::new(text);
    assert_eq!(lable.get_type(), &MenuType::Lable);
    assert_eq!(lable.get_text(), text);

    assert_eq!(lable.format(NUMBER_OF_TAB), text);
}

#[test]
fn button_test() {
    let text = "I am a Button";
    let button_text = "Enter";
    let mut button = Button::new(text, button_text);

    assert_eq!(button.get_type(), &MenuType::Button);
    assert_eq!(button.get_text(), text);

    assert_eq!(button.get(button_text).unwrap(), &false);
    button.change(button_text, true).unwrap();
    assert_eq!(button.get(button_text).unwrap(), &true);

    assert_eq!(
        button.format(NUMBER_OF_TAB),
        "I am a Button:\t\t\t\t\t[ Enter ]".to_string()
    )
}

#[test]
fn selection_text() {
    let text = "I am a Selection";
    let options_text = vec!["a".to_string(), "b".to_string(), "c".to_string()];
    let mut selection = Selection::new(text, &options_text);

    assert_eq!(selection.get_type(), &MenuType::Selection);
    assert_eq!(selection.get_text(), text);

    assert_eq!(
        selection.format(NUMBER_OF_TAB),
        "I am a Selection:\t\t\t\t\t  a  ,   b  ,   c  "
    );

    assert_eq!(selection.get("a"), Some(&false));
    assert_eq!(selection.get("b"), Some(&false));
    assert_eq!(selection.get("c"), Some(&false));

    selection.change("a", true).unwrap();
    selection.change("b", true).unwrap();
    selection.change("c", true).unwrap();

    assert_eq!(selection.get("a"), Some(&true));
    assert_eq!(selection.get("b"), Some(&true));
    assert_eq!(selection.get("c"), Some(&true));

    assert_eq!(
        selection.format(NUMBER_OF_TAB),
        "I am a Selection:\t\t\t\t\t[ a ] [ b ] [ c ]"
    );

    assert_eq!(selection.get("d"), None);
}

#[test]
fn radio_button_test() {
    let text = "I am a Selection";
    let options_text = vec!["a".to_string(), "b".to_string(), "c".to_string()];
    let mut radio = RadioButton::new(text, &options_text);

    assert_eq!(radio.get_type(), &MenuType::RadioButton);
    assert_eq!(radio.get_text(), text);

    assert_eq!(radio.get("a"), Some(&false));
    assert_eq!(radio.get("b"), Some(&false));
    assert_eq!(radio.get("c"), Some(&false));

    radio.change("a", true).unwrap();
    radio.change("b", true).unwrap();
    radio.change("c", true).unwrap();

    assert_eq!(radio.get("a"), Some(&true));
    assert_eq!(radio.get("b"), Some(&true));
    assert_eq!(radio.get("c"), Some(&true));

    assert_eq!(radio.get("d"), None);
}

#[test]
fn text_box_test() {
    let text = "I am a TextBox";
    let options_text = "test1";
    let default_text = "shamokwok";

    let mut text_box = TextBox::new(text, &options_text, default_text);

    assert_eq!(text_box.get_type(), &MenuType::TextBox);
    assert_eq!(text_box.get(options_text), Some(&default_text.to_string()));

    text_box.change(&default_text, "kiana");
    assert_eq!(text_box.get(options_text), Some(&"kiana".to_string()));
}
