use mient::overlay::Reactions;

#[test]
fn recording_a_reaction_twice_is_idempotent() {
    let mut once = Reactions::new();
    once.record_reaction("$m".to_string(), "+1".to_string(), "@u:server".to_string());
    let mut twice = Reactions::new();
    twice.record_reaction("$m".to_string(), "+1".to_string(), "@u:server".to_string());
    twice.record_reaction("$m".to_string(), "+1".to_string(), "@u:server".to_string());
    assert_eq!(once, twice);
    assert_eq!(twice.entries.len(), 1);
    assert_eq!(twice.entries[0].users.len(), 1);
}

#[test]
fn distinct_users_aggregate_under_one_emoji() {
    let mut reactions = Reactions::new();
    reactions.record_reaction("$m".to_string(), "+1".to_string(), "@a:server".to_string());
    reactions.record_reaction("$m".to_string(), "+1".to_string(), "@b:server".to_string());
    assert_eq!(reactions.entries.len(), 1);
    assert_eq!(
        reactions.entries[0].users,
        vec!["@a:server".to_string(), "@b:server".to_string()]
    );
}

#[test]
fn distinct_emojis_get_their_own_entries() {
    let mut reactions = Reactions::new();
    reactions.record_reaction("$m".to_string(), "+1".to_string(), "@a:server".to_string());
    reactions.record_reaction("$m".to_string(), "eyes".to_string(), "@a:server".to_string());
    reactions.record_reaction("$other".to_string(), "+1".to_string(), "@a:server".to_string());
    assert_eq!(reactions.entries.len(), 3);
}
