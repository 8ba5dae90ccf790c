use sharder::token::normalize_token;

#[test]
fn token_gets_bot_prefix() {
    assert_eq!(normalize_token("abc.def".to_string()), "Bot abc.def");
    assert_eq!(normalize_token(String::new()), "Bot ");
    assert_eq!(normalize_token("Bot".to_string()), "Bot Bot");
    assert_eq!(normalize_token("bot abc".to_string()), "Bot bot abc");
}

#[test]
fn prefixed_token_is_kept() {
    assert_eq!(normalize_token("Bot abc".to_string()), "Bot abc");
    assert_eq!(normalize_token("Bot ".to_string()), "Bot ");
}
