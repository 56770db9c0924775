use ghostftp::known_hosts::{
    append, check, fingerprint, matching_lines, replace, rewrite_matching_lines, FileStamp, HostKey,
    HostKeyStatus, ReplaceError,
};
use std::collections::BTreeSet;

fn key(algorithm: &str, base64: &str, blob: &[u8]) -> HostKey {
    HostKey {
        algorithm: algorithm.to_string(),
        base64: base64.to_string(),
        blob: blob.to_vec(),
    }
}

fn stamp(len: u64, modified: i128) -> FileStamp {
    FileStamp {
        len,
        modified: Some(modified),
    }
}

#[test]
fn rewrite_matching_lines_replaces_once_and_preserves_unrelated_rows() {
    let contents = "alpha ssh-ed25519 old-a\nother ssh-rsa keep\nalpha ssh-rsa old-b\n";
    let matching = BTreeSet::from([1usize, 3usize]);
    let replacement = "alpha ssh-ed25519 new\n";

    let rewritten =
        rewrite_matching_lines(contents, &matching, replacement).expect("matching lines");

    assert_eq!(rewritten, "alpha ssh-ed25519 new\nother ssh-rsa keep\n");
}

#[test]
fn rewrite_matching_lines_refuses_missing_match() {
    let matching = BTreeSet::from([4usize]);
    assert!(rewrite_matching_lines("one\ntwo\n", &matching, "new\n").is_none());
}

#[test]
fn fingerprint_is_the_unpadded_base64_of_the_digest() {
    // SHA-256 of the empty input and of "abc".
    assert_eq!(
        fingerprint(&key("ssh-ed25519", "", b"")),
        "SHA256:47DEQpj8HBSa+/TImW+5JCeuQeRkm5NMpJWZG3hSuFU"
    );
    assert_eq!(
        fingerprint(&key("ssh-ed25519", "YWJj", b"abc")),
        "SHA256:ungWv48Bz+pBQUDeXa4iI7ADYaOWF3qctBD/YfIAFa0"
    );
}

#[test]
fn fingerprints_have_fifty_characters_and_no_padding() {
    for blob in [&b""[..], b"a", b"ab", b"abc"] {
        let text = fingerprint(&key("ssh-rsa", "", blob));
        assert_eq!(text.len(), 50);
        assert!(!text.contains('='));
    }
}

#[test]
fn check_tells_unknown_match_and_mismatch_apart() {
    let presented = key("ssh-ed25519", "YWJj", b"abc");
    assert_eq!(check(&vec![], &presented), HostKeyStatus::Unknown);
    let recorded = vec![key("ssh-rsa", "eHl6", b"xyz"), key("ssh-ed25519", "YWJj", b"abc")];
    assert_eq!(check(&recorded, &presented), HostKeyStatus::Match);
    let others = vec![key("ssh-rsa", "eHl6", b"xyz"), key("ssh-rsa", "", b"")];
    assert_eq!(
        check(&others, &presented),
        HostKeyStatus::Mismatch {
            stored_fingerprint: "SHA256:47DEQpj8HBSa+/TImW+5JCeuQeRkm5NMpJWZG3hSuFU".to_string()
        }
    );
}

#[test]
fn append_brackets_a_host_on_another_port() {
    let k = key("ssh-ed25519", "YWJj", b"abc");
    assert_eq!(append("example.org", 22, &k), "example.org ssh-ed25519 YWJj\n");
    assert_eq!(append("example.org", 2222, &k), "[example.org]:2222 ssh-ed25519 YWJj\n");
}

#[test]
fn comments_are_passed_over_when_entries_are_counted() {
    let contents = "# a comment\nalpha ssh-rsa a\n# another\nbeta ssh-rsa b\n";
    assert_eq!(matching_lines(contents, &vec![2]), BTreeSet::from([4usize]));
    assert_eq!(matching_lines(contents, &vec![1, 2]), BTreeSet::from([2usize, 4usize]));
}

#[test]
fn replace_rewrites_the_entries_of_the_host() {
    let contents = "# mine\nalpha ssh-rsa old\nbeta ssh-rsa keep\nalpha ssh-dss old\n";
    let k = key("ssh-ed25519", "YWJj", b"abc");
    assert_eq!(
        replace("alpha", 22, &k, contents, &vec![1, 3], stamp(9, 1), stamp(9, 1)),
        Ok("# mine\nalpha ssh-ed25519 YWJj\nbeta ssh-rsa keep\n".to_string())
    );
}

#[test]
fn replace_refuses_what_it_cannot_do_safely() {
    let k = key("ssh-ed25519", "YWJj", b"abc");
    let none = replace("alpha", 22, &k, "", &vec![], stamp(0, 1), stamp(0, 1)).unwrap_err();
    assert_eq!(none, ReplaceError::NoEntry);
    assert_eq!(
        none.message("alpha", 22),
        "no existing host key entry to replace for alpha:22"
    );
    let changed =
        replace("alpha", 22, &k, "alpha a b\n", &vec![1], stamp(10, 1), stamp(10, 2)).unwrap_err();
    assert_eq!(changed, ReplaceError::Changed);
    assert_eq!(
        changed.message("alpha", 22),
        "known_hosts changed while replacing alpha:22; retry the connection"
    );
    let grown =
        replace("alpha", 22, &k, "alpha a b\n", &vec![1], stamp(10, 1), stamp(11, 1)).unwrap_err();
    assert_eq!(grown, ReplaceError::Changed);
    let gone =
        replace("alpha", 22, &k, "alpha a b\n", &vec![7], stamp(10, 1), stamp(10, 1)).unwrap_err();
    assert_eq!(gone, ReplaceError::Disappeared);
    assert_eq!(
        gone.message("alpha", 22),
        "matching known_hosts entry disappeared during replacement"
    );
}
