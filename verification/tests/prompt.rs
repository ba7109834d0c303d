use mnemosyne::prompt::{fit_entries, prompt_log, strip_code_fence};

#[test]
fn a_fenced_reply_is_unwrapped() {
    assert_eq!(strip_code_fence("```json\n[1, 2]\n```"), "[1, 2]");
    assert_eq!(strip_code_fence("  ```\n{\"a\": 1}\n```  "), "{\"a\": 1}");
    assert_eq!(strip_code_fence("```json\n{\"a\": 1}"), "{\"a\": 1}");
}

#[test]
fn an_unfenced_reply_is_only_trimmed() {
    assert_eq!(strip_code_fence("  {\"a\": 1}\n"), "{\"a\": 1}");
    assert_eq!(strip_code_fence("Here is your flashcard!"), "Here is your flashcard!");
}

#[test]
fn entries_are_kept_whole_within_the_byte_budget() {
    let entries = vec!["abc".to_string(), "ề".to_string(), "defg".to_string()];
    // "ề" is three bytes: 3 + 3 = 6 fits, adding 4 more does not.
    assert_eq!(fit_entries(&entries, 6), (2, "abcề".to_string()));
    assert_eq!(fit_entries(&entries, 10), (3, "abcềdefg".to_string()));
    assert_eq!(fit_entries(&entries, 2), (0, String::new()));
}

#[test]
fn fitting_stops_at_the_first_entry_that_does_not_fit() {
    let entries = vec!["a".to_string(), "too long".to_string(), "b".to_string()];
    assert_eq!(fit_entries(&entries, 3), (1, "a".to_string()));
}

#[test]
fn a_call_is_logged_with_its_tag_and_prompts() {
    assert_eq!(prompt_log("[quiz]", "sys", "usr"), "[quiz]\n[system] sys\n[user] usr");
}
