use rotatron::lookup::{classify, Rotation};

#[test]
fn classify_quarter_symbols() {
    assert_eq!(classify("↩️"), Some(Rotation::Quarter));
    assert_eq!(classify("⤵️"), Some(Rotation::Quarter));
}

#[test]
fn classify_three_quarter_symbols() {
    assert_eq!(classify("↪️"), Some(Rotation::ThreeQuarter));
    assert_eq!(classify("⤴️"), Some(Rotation::ThreeQuarter));
}

#[test]
fn classify_half_symbols() {
    assert_eq!(classify("🔃"), Some(Rotation::Half));
    assert_eq!(classify("🔁"), Some(Rotation::Half));
    assert_eq!(classify("🔄"), Some(Rotation::Half));
    assert_eq!(classify("🗘"), Some(Rotation::Half));
}

#[test]
fn classify_documented_degrees() {
    assert_eq!(classify("↪️").unwrap().degrees(), 270);
    assert_eq!(classify("↩️").unwrap().degrees(), 90);
    assert_eq!(classify("⤵️").unwrap().degrees(), 90);
    assert_eq!(classify("⤴️").unwrap().degrees(), 270);
    assert_eq!(classify("🔃").unwrap().degrees(), 180);
    assert_eq!(classify("🔁").unwrap().degrees(), 180);
    assert_eq!(classify("🔄").unwrap().degrees(), 180);
    assert_eq!(classify("🗘").unwrap().degrees(), 180);
}

#[test]
fn classify_unknown_symbols() {
    assert_eq!(classify("🙂"), None);
    assert_eq!(classify(""), None);
    assert_eq!(classify("x"), None);
    // the plain arrow without the variation selector is not in the table
    assert_eq!(classify("↩"), None);
    assert_eq!(classify("rotate"), None);
}

#[test]
fn degrees_of_each_rotation() {
    assert_eq!(Rotation::Quarter.degrees(), 90);
    assert_eq!(Rotation::Half.degrees(), 180);
    assert_eq!(Rotation::ThreeQuarter.degrees(), 270);
}
