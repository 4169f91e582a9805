//! Windows paths and the roots they are confined to.
use wvm::guest::paths::{canonicalise, is_within_root, resolve_within, root_covers, to_host_posix};

#[test]
fn canonicalise_lowercases_and_normalises_separators() {
    assert_eq!(
        canonicalise("C:\\WVM\\Sub\\File.txt"),
        "c:/wvm/sub/file.txt"
    );
    assert_eq!(canonicalise("C:/WVM/Sub/File.txt"), "c:/wvm/sub/file.txt");
}

#[test]
fn canonicalise_accepts_both_separators_in_one_path() {
    // Windows does, so we must.
    assert_eq!(canonicalise("C:\\wvm/sub\\file"), "c:/wvm/sub/file");
}

#[test]
fn canonicalise_drops_trailing_separator() {
    assert_eq!(canonicalise("C:\\wvm\\"), "c:/wvm");
    assert_eq!(canonicalise("C:\\wvm"), "c:/wvm");
}

#[test]
fn canonicalise_resolves_dot_segments() {
    assert_eq!(canonicalise("C:\\wvm\\.\\sub"), "c:/wvm/sub");
    assert_eq!(canonicalise("C:\\wvm\\sub\\..\\other"), "c:/wvm/other");
}

#[test]
fn traversal_above_the_root_is_clamped_not_escaped() {
    // ".." past the top cannot produce a path outside; it simply stops.
    assert_eq!(canonicalise("C:\\..\\..\\windows"), "c:/windows");
    assert_eq!(canonicalise("C:\\wvm\\..\\..\\..\\x"), "c:/x");
}

#[test]
fn path_inside_the_root_is_accepted() {
    assert!(is_within_root("C:\\wvm", "C:\\wvm\\file.txt"));
    assert!(is_within_root("C:\\wvm", "C:\\wvm\\sub\\deep\\file.txt"));
    // Case-insensitive, as Windows is.
    assert!(is_within_root("C:\\WVM", "c:\\wvm\\file.txt"));
    // The root itself.
    assert!(is_within_root("C:\\wvm", "C:\\wvm"));
}

#[test]
fn a_sibling_sharing_a_prefix_is_rejected() {
    // The classic: "C:\wvmdata" must not satisfy root "C:\wvm".
    assert!(!is_within_root("C:\\wvm", "C:\\wvmdata\\x"));
    assert!(!is_within_root("C:\\wvm", "C:\\wvmsecret"));
}

#[test]
fn traversal_out_of_the_root_is_rejected() {
    assert!(!is_within_root(
        "C:\\wvm",
        "C:\\wvm\\..\\Windows\\System32\\config\\SAM"
    ));
    assert!(!is_within_root("C:\\wvm", "C:\\wvm\\..\\..\\..\\windows"));
}

#[test]
fn a_different_drive_is_rejected() {
    assert!(!is_within_root("C:\\wvm", "D:\\wvm\\file.txt"));
}

#[test]
fn an_empty_root_permits_nothing() {
    assert!(!is_within_root("", "C:\\wvm\\file.txt"));
    assert!(resolve_within("", "C:\\wvm\\file.txt").is_err());
}

#[test]
fn resolve_returns_a_native_separator_path() {
    let got = resolve_within("C:\\wvm", "C:/wvm/sub/file.txt").unwrap();
    assert_eq!(got, "C:\\wvm\\sub\\file.txt");
}

#[test]
fn resolve_refuses_an_empty_path() {
    assert!(resolve_within("C:\\wvm", "").is_err());
    assert!(resolve_within("C:\\wvm", "   ").is_err());
}

#[test]
fn resolve_error_names_the_root() {
    let err = resolve_within("C:\\wvm", "C:\\Windows\\System32").unwrap_err();
    let text = err.to_string();
    assert!(text.contains("c:/wvm"), "should name the root: {text}");
    assert!(text.contains("refusing"), "should say what it did: {text}");
}

#[test]
fn unc_prefixes_are_handled() {
    // A UNC path is absolute and must not be confused for a relative one.
    assert_eq!(
        canonicalise("\\\\server\\share\\file"),
        "//server/share/file"
    );
    // The same root written either way must agree, or containment checks become bypassable
    // by changing separator style.
    assert_eq!(
        canonicalise("\\\\server\\share\\file"),
        canonicalise("//server/share/file")
    );
    assert!(is_within_root(
        "\\\\server\\share",
        "\\\\server\\share\\file"
    ));
    assert!(is_within_root("\\\\server\\share", "//server/share/file"));
    assert!(!is_within_root(
        "\\\\server\\share",
        "\\\\server\\other\\file"
    ));
}

#[test]
fn unc_paths_do_not_escape_via_traversal() {
    // The share is the boundary; ".." must not climb out of it.
    assert!(!is_within_root(
        "\\\\server\\share",
        "\\\\server\\share\\..\\..\\other\\file"
    ));
}

#[test]
fn host_posix_mapping_joins_cleanly() {
    // A guest absolute path is re-expressed under the host root, separators normalised.
    assert_eq!(
        to_host_posix("/srv/wvm/in", "C:\\wvm\\file.txt"),
        "/srv/wvm/in/C:/wvm/file.txt"
    );
    // A relative guest path joins directly.
    assert_eq!(
        to_host_posix("/srv/wvm/in", "file.txt"),
        "/srv/wvm/in/file.txt"
    );
    // A trailing separator on the root does not double up.
    assert_eq!(
        to_host_posix("/srv/wvm/in/", "file.txt"),
        "/srv/wvm/in/file.txt"
    );
    // Mixed separators in the guest path are normalised.
    assert_eq!(
        to_host_posix("/srv/wvm/in", "C:/wvm\\sub/file"),
        "/srv/wvm/in/C:/wvm/sub/file"
    );
}

#[test]
fn a_mixed_pair_of_separators_names_a_server_too() {
    assert_eq!(canonicalise("/\\srv\\s"), canonicalise("\\\\srv\\s"));
    assert_eq!(canonicalise("/\\srv\\s"), "//srv/s");
    // Such a path is not one on the drive that it names as its server.
    assert!(resolve_within("C:\\wvm", "/\\C:/wvm/x").is_err());
    assert!(!is_within_root("C:\\wvm", "\\\\C:\\wvm\\x"));
}

#[test]
fn the_share_belongs_to_the_prefix() {
    assert_eq!(canonicalise("\\\\server\\share"), "//server/share");
    assert_eq!(canonicalise("\\\\server\\\\share\\a\\..\\..\\b"), "//server/share/b");
    assert_eq!(canonicalise("\\\\server"), "//server/");
    assert_eq!(canonicalise("\\\\server\\"), "//server/");
    // What stands between server and share is resolved, too.
    assert_eq!(canonicalise("\\\\server\\.\\share\\f"), "//server/share/f");
    assert_eq!(canonicalise("\\\\server\\..\\share\\f"), "//server/share/f");
    assert_eq!(canonicalise("\\\\server\\.."), "//server/");
    assert!(is_within_root("\\\\server\\share", "\\\\server\\.\\share\\f"));
    // Another share is not reached through `..`.
    assert!(!is_within_root("\\\\server\\other", "\\\\server\\share\\..\\other\\file"));
    assert!(is_within_root("\\\\server\\share", "\\\\server\\share\\a\\..\\b"));
}

#[test]
fn a_drive_is_a_root() {
    assert_eq!(canonicalise("C:\\"), "c:/");
    assert!(is_within_root("C:\\", "C:\\x"));
    assert!(is_within_root("C:\\", "C:\\"));
    assert!(!is_within_root("C:\\", "D:\\x"));
}

#[test]
fn a_path_from_a_drives_current_directory_is_not_one_from_the_drive() {
    assert!(!is_within_root("C:\\wvm", "C:wvm\\x"));
    assert!(resolve_within("C:\\wvm", "C:wvm\\x").is_err());
    assert!(is_within_root("C:wvm", "C:wvm\\x"));
}

#[test]
fn what_is_resolved_is_inside_the_root_and_the_same_place() {
    for path in ["C:/wvm/x", "c:\\WVM/./a/../b", "C:\\..\\wvm\\y"] {
        let native = resolve_within("C:\\wvm", path).expect("inside");
        assert!(is_within_root("C:\\wvm", &native));
        assert_eq!(canonicalise(&native), canonicalise(path));
        assert!(!native.contains('/'));
    }
}

#[test]
fn separators_and_ascii_case_do_not_matter() {
    for path in ["/\\srv/s/x", "C:/a\\..\\B", "\\a/b", "//Srv\\S/..", "C:x"] {
        let c = canonicalise(path);
        assert_eq!(canonicalise(&path.replace('/', "\\")), c);
        assert_eq!(canonicalise(&path.replace('\\', "/")), c);
        assert_eq!(canonicalise(&path.to_ascii_uppercase()), c);
    }
}

#[test]
fn a_server_by_itself_holds_none_of_its_shares() {
    assert!(!is_within_root("\\\\srv", "\\\\srv\\share\\x"));
    assert!(!is_within_root("//srv/", "\\\\srv\\share"));
    assert!(is_within_root("\\\\srv", "//SRV/"));
    assert!(!is_within_root("\\\\srv", "\\\\srv2"));
}

#[test]
fn ascii_case_does_not_matter_beside_other_letters() {
    for path in ["C:\\wvm\\Größe\\A", "c:/WVM/ΑΣ.txt", "C:\\wvm\\ΣX"] {
        let c = canonicalise(path);
        assert_eq!(canonicalise(&path.to_ascii_uppercase()), c);
        assert_eq!(canonicalise(&path.to_ascii_lowercase()), c);
        assert!(is_within_root("C:\\wvm", &path.to_ascii_uppercase()));
    }
}
