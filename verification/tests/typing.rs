use mki::interp::Effect;
use mki::Keyboard;
use mki::Sequence;

#[test]
fn text_with_an_untypable_character_is_refused() {
    assert!(Sequence::text("a!b").is_none());
    assert!(Sequence::text("déjà").is_none());
    assert!(Sequence::text("ok then").is_some());
}

#[test]
fn lowercase_letter_types_as_one_timed_click() {
    let seq = Sequence::text("ab").expect("typable");
    assert_eq!(
        seq.send(),
        vec![
            Effect::KeyPress(Keyboard::A),
            Effect::Sleep(15),
            Effect::KeyRelease(Keyboard::A),
            Effect::Sleep(15),
            Effect::KeyPress(Keyboard::B),
            Effect::Sleep(15),
            Effect::KeyRelease(Keyboard::B),
            Effect::Sleep(15),
        ]
    );
}

#[test]
fn uppercase_letter_is_typed_under_shift() {
    let seq = Sequence::text("A").expect("typable");
    assert_eq!(
        seq.send(),
        vec![
            Effect::KeyPress(Keyboard::LeftShift),
            Effect::KeyPress(Keyboard::A),
            Effect::Sleep(15),
            Effect::KeyRelease(Keyboard::LeftShift),
            Effect::KeyRelease(Keyboard::A),
            Effect::Sleep(15),
        ]
    );
}

#[test]
fn digits_and_spaces_are_typable() {
    let seq = Sequence::text("7 ").expect("typable");
    assert_eq!(
        seq.send(),
        vec![
            Effect::KeyPress(Keyboard::Number7),
            Effect::Sleep(15),
            Effect::KeyRelease(Keyboard::Number7),
            Effect::Sleep(15),
            Effect::KeyPress(Keyboard::Space),
            Effect::Sleep(15),
            Effect::KeyRelease(Keyboard::Space),
            Effect::Sleep(15),
        ]
    );
}

#[test]
fn empty_text_types_nothing() {
    let seq = Sequence::text("").expect("typable");
    assert!(seq.send().is_empty());
}
