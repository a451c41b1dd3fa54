//! What may come out of an archive.
use container::path::Platform;
use container::server::unpack::{check_enclosed, check_entry, check_placed, escapes, link_escapes};

#[test]
fn link_targets_inside_the_archive_are_allowed() {
    for target in ["a.txt", "sub/a.txt", "sub/../a.txt", "./a.txt"] {
        assert!(!escapes(target, Platform::Unix), "'{target}' was refused");
        assert!(!escapes(target, Platform::Windows), "'{target}' was refused");
        assert!(!link_escapes("link", target, Platform::Unix), "'{target}' was refused");
    }
}

/// The entries of an archive with a single link in it, by name and target.
fn links_of(path: &str, target: &str) -> Vec<(String, Option<String>)> {
    let mut builder = tar::Builder::new(Vec::new());
    let mut header = tar::Header::new_gnu();
    header.set_entry_type(tar::EntryType::Symlink);
    header.set_size(0);
    builder.append_link(&mut header, path, target).unwrap();
    let bytes = builder.into_inner().unwrap();
    let mut archive = tar::Archive::new(std::io::Cursor::new(bytes));
    archive
        .entries()
        .unwrap()
        .map(|entry| {
            let entry = entry.unwrap();
            let name = entry.path().unwrap().to_string_lossy().into_owned();
            let link = entry.link_name().unwrap().map(|l| l.to_string_lossy().into_owned());
            (name, link)
        })
        .collect()
}

#[test]
fn escaping_link_targets_are_refused() {
    for target in ["../outside", "sub/../../outside", "/etc/passwd", "C:\\Windows\\win.ini"] {
        for platform in [Platform::Unix, Platform::MacOs, Platform::Windows] {
            let links = links_of("link", target);
            assert_eq!(links.len(), 1);
            for (name, link) in links {
                assert!(
                    check_entry(&name, link.as_deref(), platform).is_err(),
                    "'{target}' was accepted"
                );
            }
        }
    }
}

#[test]
fn a_link_is_seen_from_its_own_directory() {
    assert!(!link_escapes("a/b/link", "../../c", Platform::Unix));
    assert!(link_escapes("a/b/link", "../../../c", Platform::Unix));
    assert!(!link_escapes("a/link", "..", Platform::Unix));
    assert!(link_escapes("link", "..", Platform::Unix));
    assert!(!link_escapes("link", "a:b", Platform::Unix));
    assert!(link_escapes("link", "a:b", Platform::Windows));
    assert!(!link_escapes("link", "a:/b", Platform::Unix));
    assert!(link_escapes("link", "a:/b", Platform::Windows));
    assert!(link_escapes("link", "a:\\b", Platform::Unix));
}

#[test]
fn refusals_name_the_entry() {
    assert_eq!(
        check_entry("a", Some("/b"), Platform::Unix),
        Err("link 'a' -> '/b' points outside the archive".to_string())
    );
    assert_eq!(check_entry("a", None, Platform::Unix), Ok(()));
    assert_eq!(check_placed("a", true), Ok(()));
    assert_eq!(check_placed("a", false), Err("entry 'a' escapes the destination".to_string()));
    assert_eq!(check_enclosed("a", true), Ok(()));
    assert_eq!(
        check_enclosed("a", false),
        Err("zip entry 'a' escapes the destination".to_string())
    );
}
