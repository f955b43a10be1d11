use slv::dice::{faces, roll_dice, WILDCARD};

#[test]
fn die_has_thirty_faces() {
    let dice = faces();
    assert_eq!(dice.len(), 30);
    let text: String = dice.iter().collect();
    assert_eq!(text, "AABCDEEFGHIJKLMNOOPQRSSTUVWZ**");
}

#[test]
fn die_doubles_four_letters_and_the_wildcard() {
    let dice = faces();
    for letter in ['A', 'E', 'O', 'S', WILDCARD] {
        assert_eq!(dice.iter().filter(|face| **face == letter).count(), 2);
    }
    for letter in "BCDFGHIJKLMNPQRTUVWZ".chars() {
        assert_eq!(dice.iter().filter(|face| **face == letter).count(), 1);
    }
    assert!(!dice.contains(&'X'));
    assert!(!dice.contains(&'Y'));
}

#[test]
fn roll_gives_a_face_of_the_die() {
    let dice = faces();
    for _ in 0..500 {
        let letter = roll_dice();
        assert!(dice.contains(&letter));
    }
}

#[test]
fn roll_reaches_more_than_one_face() {
    let first = roll_dice();
    let mut other = false;
    for _ in 0..2000 {
        if roll_dice() != first {
            other = true;
        }
    }
    assert!(other);
}
