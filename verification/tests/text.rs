use hook_notify::text::{join_path, parse_u64, replace_str};

#[test]
fn parse_u64_like_std() {
    for s in ["0", "42", "+7", "18446744073709551615", "", "+", "-1", "18446744073709551616", " 1", "1a"] {
        assert_eq!(parse_u64(s), s.parse::<u64>().ok(), "input {s:?}");
    }
}

#[test]
fn replace_like_std() {
    for (s, p, r) in [("aaa", "aa", "b"), ("{{x}}{{x}}", "{{x}}", "y"), ("none", "q", "z")] {
        assert_eq!(replace_str(s, p, r), s.replace(p, r));
    }
}

#[test]
fn join_like_path() {
    assert_eq!(join_path("/opt/p", "sounds"), "/opt/p/sounds");
    assert_eq!(join_path("/opt/p/", "sounds"), "/opt/p/sounds");
    assert_eq!(join_path("", "sounds"), "sounds");
}
