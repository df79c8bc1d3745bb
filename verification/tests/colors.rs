use tetris_game::Color;

#[test]
fn color_names() {
    assert_eq!(format!("Color::{}", Color::Teal.name()), "Color::Teal");
    assert_eq!(format!("Color::{}", Color::Yellow.name()), "Color::Yellow");
    assert_eq!(format!("Color::{}", Color::Purple.name()), "Color::Purple");
    assert_eq!(format!("Color::{}", Color::Blue.name()), "Color::Blue");
    assert_eq!(format!("Color::{}", Color::Orange.name()), "Color::Orange");
    assert_eq!(format!("Color::{}", Color::Green.name()), "Color::Green");
    assert_eq!(format!("Color::{}", Color::Red.name()), "Color::Red");
    assert_eq!(format!("Color::{}", Color::Gray.name()), "Color::Gray");
}
