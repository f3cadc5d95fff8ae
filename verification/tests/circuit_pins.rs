//! Pinning circuit artifacts and verifying them.
use poker_table::circuit_pins::{
    artifact_path, hash_artifact, pin_artifacts, verify_pinned_artifacts, PinnedArtifacts,
};

/// A directory of artifacts, each with its circuit name.
struct Disk {
    files: Vec<(String, Vec<u8>)>,
}

impl Disk {
    fn new() -> Disk {
        Disk { files: Vec::new() }
    }

    fn write_artifact(&mut self, name: &str, content: &[u8]) {
        self.files.retain(|file| file.0 != name);
        self.files.push((name.to_string(), content.to_vec()));
    }

    fn read(&self, name: &str) -> Result<Vec<u8>, String> {
        match self.files.iter().find(|file| file.0 == name) {
            Some(file) => Ok(file.1.clone()),
            None => Err("No such file or directory (os error 2)".to_string()),
        }
    }

    fn pin(&self, names: &[&str]) -> Result<PinnedArtifacts, String> {
        let reads: Vec<Result<Vec<u8>, String>> =
            names.iter().map(|name| self.read(name)).collect();
        pin_artifacts("/circuits", names, &reads)
    }

    fn verify(&self, pinned: &PinnedArtifacts) -> Result<(), String> {
        let reads: Vec<Result<Vec<u8>, String>> = (0..pinned.len())
            .map(|i| self.read(pinned.name_at(i)))
            .collect();
        verify_pinned_artifacts("/circuits", pinned, &reads)
    }
}

#[test]
fn test_pin_and_verify_ok() {
    let mut tmp = Disk::new();
    tmp.write_artifact("deal_valid", b"{\"bytecode\":\"aaa\"}");

    let pinned = tmp.pin(&["deal_valid"]).unwrap();
    assert!(pinned.contains_key("deal_valid"));

    tmp.verify(&pinned).expect("should pass when artifacts unchanged");
}

#[test]
fn test_verify_detects_change() {
    let mut tmp = Disk::new();
    tmp.write_artifact("deal_valid", b"{\"bytecode\":\"aaa\"}");

    let pinned = tmp.pin(&["deal_valid"]).unwrap();

    // Overwrite the artifact with different content.
    tmp.write_artifact("deal_valid", b"{\"bytecode\":\"bbb\"}");

    let result = tmp.verify(&pinned);
    assert!(result.is_err(), "should fail when artifact changed");
    assert!(result.unwrap_err().contains("has changed since session start"));
}

#[test]
fn test_pin_missing_artifact_returns_error() {
    let tmp = Disk::new();
    // Do not create any artifact file.
    let result = tmp.pin(&["deal_valid"]);
    assert!(result.is_err());
    assert!(result.unwrap_err().contains("cannot read circuit artifact"));
}

#[test]
fn test_verify_empty_pinned_always_passes() {
    let pinned: PinnedArtifacts = PinnedArtifacts::new();
    let result = verify_pinned_artifacts("/nonexistent", &pinned, &[]);
    assert!(result.is_ok());
}

#[test]
fn pins_hold_the_known_digest() {
    let mut disk = Disk::new();
    disk.write_artifact("empty", b"");
    disk.write_artifact("abc", b"abc");
    let pinned = disk.pin(&["empty", "abc"]).unwrap();
    assert_eq!(pinned.len(), 2);
    assert_eq!(
        pinned.get("empty").unwrap().as_str(),
        "e3b0c44298fc1c149afbf4c8996fb92427ae41e4649b934ca495991b7852b855"
    );
    assert_eq!(
        pinned.get("abc").unwrap().as_str(),
        "ba7816bf8f01cfea414140de5dae2223b00361a396177a9cb410ff61f20015ad"
    );
    assert_eq!(pinned.get("other"), None);
    assert!(!pinned.contains_key("other"));
}

#[test]
fn trailing_slashes_of_the_directory_are_dropped() {
    assert_eq!(
        artifact_path("/circuits//", "deal_valid"),
        "/circuits/deal_valid/target/deal_valid.json"
    );
    assert_eq!(artifact_path("", "x"), "/x/target/x.json");
}

#[test]
fn unreadable_artifact_is_named_with_its_path_and_reason() {
    let read: Result<Vec<u8>, String> = Err("denied".to_string());
    assert_eq!(
        hash_artifact("dir/", "deal_valid", &read),
        Err(
            "cannot read circuit artifact 'dir/deal_valid/target/deal_valid.json': denied"
                .to_string()
        )
    );
}

#[test]
fn changed_artifact_is_named_with_both_hashes() {
    let mut disk = Disk::new();
    disk.write_artifact("showdown", b"");
    let pinned = disk.pin(&["showdown"]).unwrap();
    disk.write_artifact("showdown", b"abc");
    assert_eq!(
        disk.verify(&pinned),
        Err(
            "circuit artifact 'showdown' has changed since session start \
             (pinned=e3b0c44298fc1c149afbf4c8996fb92427ae41e4649b934ca495991b7852b855, \
             current=ba7816bf8f01cfea414140de5dae2223b00361a396177a9cb410ff61f20015ad)"
                .to_string()
        )
    );
}

#[test]
fn artifact_removed_after_pinning_is_rejected() {
    let mut disk = Disk::new();
    disk.write_artifact("deal_valid", b"a");
    let pinned = disk.pin(&["deal_valid"]).unwrap();
    disk.files.clear();
    assert!(disk.verify(&pinned).unwrap_err().starts_with("cannot read circuit artifact"));
}

#[test]
fn circuit_named_twice_is_pinned_once() {
    let mut disk = Disk::new();
    disk.write_artifact("deal_valid", b"a");
    let pinned = disk.pin(&["deal_valid", "deal_valid"]).unwrap();
    assert_eq!(pinned.len(), 1);
    assert!(disk.verify(&pinned).is_ok());
}

#[test]
fn pinning_nothing_pins_nothing() {
    let disk = Disk::new();
    assert_eq!(disk.pin(&[]).unwrap().len(), 0);
}

#[test]
fn artifacts_are_verified_against_any_pins() {
    let mut disk = Disk::new();
    disk.write_artifact("abc", b"abc");
    let mut pinned = PinnedArtifacts::new();
    pinned.pin("abc".to_string(), "0".to_string());
    assert!(disk.verify(&pinned).unwrap_err().contains("(pinned=0, current=ba7816bf"));
    pinned.pin(
        "abc".to_string(),
        "ba7816bf8f01cfea414140de5dae2223b00361a396177a9cb410ff61f20015ad".to_string(),
    );
    assert_eq!(pinned.len(), 1);
    assert_eq!(disk.verify(&pinned), Ok(()));
    pinned.pin("gone".to_string(), "0".to_string());
    assert_eq!(pinned.len(), 2);
    assert!(disk.verify(&pinned).is_err());
}

#[test]
fn hashes_are_sixty_four_digits_long() {
    let read: Result<Vec<u8>, String> = Ok(b"abc".to_vec());
    assert_eq!(hash_artifact("dir", "abc", &read).unwrap().len(), 64);
}

#[test]
fn pins_stay_in_the_order_of_their_first_mention() {
    let mut disk = Disk::new();
    disk.write_artifact("a", b"1");
    disk.write_artifact("b", b"2");
    let pinned = disk.pin(&["b", "a", "b"]).unwrap();
    assert_eq!(pinned.len(), 2);
    assert_eq!(pinned.name_at(0), "b");
    assert_eq!(pinned.name_at(1), "a");
}
