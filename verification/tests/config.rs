use nvrc::config::update_config;

fn ups(v: &[(&str, &str)]) -> Vec<(String, String)> {
    v.iter().map(|(k, v)| (k.to_string(), v.to_string())).collect()
}

#[test]
fn a_missing_key_is_appended() {
    assert_eq!(update_config("", &ups(&[("A", "1")])), "A=1\n");
    assert_eq!(update_config("B=2", &ups(&[("A", "1")])), "B=2\nA=1\n");
}

#[test]
fn every_line_of_a_key_is_updated_in_place() {
    assert_eq!(
        update_config("A=0\nB=2\nA=9\n", &ups(&[("A", "1")])),
        "A=1\nB=2\nA=1\n"
    );
}

#[test]
fn a_longer_key_and_a_comment_are_other_lines() {
    assert_eq!(
        update_config("# A=0\nAB=2\nA =3\n A=4\n", &ups(&[("A", "1")])),
        "# A=0\nAB=2\nA =3\n A=4\nA=1\n"
    );
}

#[test]
fn updating_twice_is_updating_once() {
    let u = ups(&[("A", "1"), ("C", "x=y")]);
    let once = update_config("A=0\n\nB=2\n", &u);
    assert_eq!(once, "A=1\n\nB=2\nC=x=y\n");
    assert_eq!(update_config(&once, &u), once);
}

#[test]
fn no_update_ends_every_line() {
    assert_eq!(update_config("a\r\n\nb", &[]), "a\n\nb\n");
}
