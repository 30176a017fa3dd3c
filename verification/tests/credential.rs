use electrode_command_authority::credential::credential_id;

#[test]
fn credential_id_is_a_stable_16_hex_prefix_of_the_team_name_hash() {
    let id = credential_id("team-alpha");
    assert_eq!(id.len(), 16);
    assert!(id.bytes().all(|byte| byte.is_ascii_hexdigit()));
    assert_eq!(id, credential_id("team-alpha"));
    assert_ne!(id, credential_id("team-beta"));
}
