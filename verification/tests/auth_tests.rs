use neobot::auth::{split_text, validate};
use neobot::names::{random_username, username_from_picks};
use neobot::text::chars_of;

const SECRET: &str = "12345678901234567890";

#[test]
fn split_like_std() {
    for t in ["a, b", "", "a, ", ", a", "a,b", "a, , b", "x"] {
        let got: Vec<String> = split_text(&chars_of(t), &chars_of(", ")).iter().map(|p| p.iter().collect()).collect();
        let want: Vec<String> = t.split(", ").map(|p| p.to_string()).collect();
        assert_eq!(got, want, "{:?}", t);
    }
}

#[test]
fn validate_accepts_current_and_neighbour_steps() {
    // time step 1 (t = 45): steps 0, 1 and 2 are accepted
    assert!(validate(&"755224".to_string(), SECRET, 45));
    assert!(validate(&"287082".to_string(), SECRET, 45));
    assert!(validate(&"359152".to_string(), SECRET, 45));
    assert!(!validate(&"969429".to_string(), SECRET, 45));
    // time step 0 has no earlier step
    assert!(validate(&"755224".to_string(), SECRET, 0));
    assert!(!validate(&"359152".to_string(), SECRET, 0));
}

#[test]
fn validate_tries_every_secret() {
    let secrets = format!("other, {}", SECRET);
    assert!(validate(&"287082".to_string(), &secrets, 45));
    assert!(!validate(&"287082".to_string(), "other, another", 45));
    assert!(!validate(&"287082".to_string(), "12345678901234567890,x", 45));
}

#[test]
fn usernames_from_alphabet() {
    assert_eq!(username_from_picks(&vec![0, 25, 26, 51, 52, 61]), "AZaz09");
    for _ in 0..20 {
        let n = random_username();
        assert_eq!(n.chars().count(), 6);
        assert!(n.chars().all(|c| c.is_ascii_alphanumeric()));
    }
}

#[test]
fn more_or_reordered_secrets_keep_a_code_accepted() {
    assert!(validate(&"287082".to_string(), SECRET, 45));
    assert!(validate(&"287082".to_string(), &format!("{}, zzz", SECRET), 45));
    assert!(validate(&"287082".to_string(), &format!("zzz, {}", SECRET), 45));
    assert!(validate(&"287082".to_string(), &format!("a, {}, b, {}", SECRET, SECRET), 45));
    assert!(!validate(&"287082".to_string(), "a, b", 45));
}
