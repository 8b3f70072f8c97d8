use avail_light_core::network::agent::{supports, AgentVersion};
use semver::Version;

fn agent(role: &str, release: &str) -> AgentVersion {
    AgentVersion {
        base_version: "avail-light-client".to_string(),
        role: role.to_string(),
        client_type: "rust-client".to_string(),
        release_version: release.to_string(),
    }
}

#[test]
fn own_agent_version_is_written_with_slashes() {
    let agent = AgentVersion::new("1.12.4");
    assert_eq!(agent.to_string(), "avail-light-client/light-client/1.12.4/rust-client");
    assert_eq!(agent.clone().to_string(), agent.to_string());
}

#[test]
fn agent_version_is_read_in_the_order_in_which_it_is_written() {
    let agent = AgentVersion::from_str("base/role/release/client").unwrap();
    assert_eq!(agent.base_version, "base");
    assert_eq!(agent.role, "role");
    assert_eq!(agent.release_version, "release");
    assert_eq!(agent.client_type, "client");
}

#[test]
fn agent_version_is_read_back() {
    for fields in [["a", "b", "c", "d"], ["", "", "", ""], ["\u{e9}", "\u{4e2d}\u{6587}", "1.0.0+x", "-"]] {
        let [base_version, role, release_version, client_type] = fields.map(str::to_string);
        let written = AgentVersion { base_version, role, client_type, release_version };
        let read = AgentVersion::from_str(&written.to_string()).unwrap();
        assert_eq!(read.base_version, written.base_version);
        assert_eq!(read.role, written.role);
        assert_eq!(read.release_version, written.release_version);
        assert_eq!(read.client_type, written.client_type);
    }
}

#[test]
fn other_numbers_of_fields_are_refused() {
    for text in ["", "a", "a/b", "a/b/c", "a/b/c/d/e", "////"] {
        let refused = AgentVersion::from_str(text);
        assert_eq!(refused.unwrap_err(), "Failed to parse agent version");
    }
    assert!(AgentVersion::from_str("///").is_ok());
}

#[test]
fn slash_in_a_field_makes_the_text_unreadable() {
    assert!(AgentVersion::from_str(&AgentVersion::new("1/2").to_string()).is_err());
    assert!(AgentVersion::from_str(&AgentVersion::new("1-2").to_string()).is_ok());
}

#[test]
fn light_clients_are_held_to_their_minimum() {
    assert!(agent("light-client", "1.9.2").is_supported());
    assert!(agent("light-client", "1.9.3").is_supported());
    assert!(agent("light-client", "1.10.0").is_supported());
    assert!(agent("light-client", "2.0.0").is_supported());
    assert!(!agent("light-client", "1.9.1").is_supported());
    assert!(!agent("light-client", "1.8.99").is_supported());
    assert!(!agent("light-client", "0.1.1").is_supported());
}

#[test]
fn bootstrap_nodes_are_held_to_theirs() {
    assert!(agent("bootstrap", "0.1.1").is_supported());
    assert!(agent("bootstrap", "0.2.0").is_supported());
    assert!(!agent("bootstrap", "0.1.0").is_supported());
    assert!(!agent("Bootstrap", "0.1.1").is_supported());
    assert!(!agent("", "0.1.1").is_supported());
}

#[test]
fn pre_releases_come_before_the_release() {
    assert!(!agent("light-client", "1.9.2-rc1").is_supported());
    assert!(agent("light-client", "1.9.3-rc1").is_supported());
    assert!(agent("light-client", "1.9.2+build").is_supported());
}

#[test]
fn what_is_no_version_is_not_supported() {
    for text in ["", "1", "1.9", "1.9.2.0", "01.9.2", "v1.9.2", "latest", "99999999999999999999.0.0"] {
        assert!(!agent("light-client", text).is_supported());
        assert!(!agent("bootstrap", text).is_supported());
    }
}

#[test]
fn support_depends_on_what_was_read() {
    assert!(supports("light-client", Version::parse("1.9.2")));
    assert!(!supports("light-client", Version::parse("1.9.1")));
    assert!(supports("bootstrap", Version::parse("1.9.1")));
    assert!(!supports("bootstrap", Version::parse("none")));
}
