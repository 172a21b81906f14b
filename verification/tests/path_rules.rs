use emmm_reconcile::path_rules::{folder_path_key, is_disabled_folder, normalize_display_name};
use emmm_reconcile::settings::normalize_keywords;

fn chars(s: &str) -> Vec<char> {
    s.chars().collect()
}

#[test]
fn disabling_a_mod_keeps_its_identity_key() {
    assert!(is_disabled_folder(&chars("DISABLED Blue")));
    assert!(is_disabled_folder(&chars("  disabled Blue")));
    assert!(!is_disabled_folder(&chars("Blue")));
    assert!(!is_disabled_folder(&chars("DISABLED")));
    assert_eq!(normalize_display_name(&chars("DISABLED Blue")), chars("Blue"));
    assert_eq!(normalize_display_name(&chars(" Blue ")), chars("Blue"));
    assert_eq!(folder_path_key("Alice/DISABLED Blue"), folder_path_key("Alice/Blue"));
    assert_eq!(folder_path_key("Alice\\DISABLED Blue"), "alice/blue");
    assert_eq!(folder_path_key("DISABLED Alice/Blue"), "alice/blue");
}

#[test]
fn keywords_are_stored_trimmed_lowercase_and_once() {
    let stored = normalize_keywords(&vec![
        " Nude ".to_string(),
        "nude".to_string(),
        "".to_string(),
        "   ".to_string(),
        "NSFW".to_string(),
    ]);
    assert_eq!(stored, vec!["nude".to_string(), "nsfw".to_string()]);
}
