use walked::disk::IoFailure;
use walked::errors::{
    already_exists_error, copy_failed, create_failed, empty_name_error, nested_dir_failed,
    remove_failed, rename_failed, reserved_character_error, PathKind, WalkedError,
};

#[test]
fn path_not_found_reads_by_kind() {
    let file = WalkedError::PathNotFound { path: "/a/x".to_string(), path_kind: PathKind::File };
    let dir = WalkedError::PathNotFound { path: "/a/d".to_string(), path_kind: PathKind::Dir };
    let any =
        WalkedError::PathNotFound { path: "/a/e".to_string(), path_kind: PathKind::Ambiguous };
    assert_eq!(file.to_string(), "Couldn't find file '/a/x'");
    assert_eq!(dir.to_string(), "Couldn't find directory '/a/d'");
    assert_eq!(any.to_string(), "Couldn't find entry '/a/e'");
}

#[test]
fn permission_denied_reads_by_kind() {
    let file =
        WalkedError::PermissionDenied { path: "/a/x".to_string(), path_kind: PathKind::File };
    let dir = WalkedError::PermissionDenied { path: "/a/d".to_string(), path_kind: PathKind::Dir };
    let any =
        WalkedError::PermissionDenied { path: "/a/e".to_string(), path_kind: PathKind::Ambiguous };
    assert_eq!(file.to_string(), "Couldn't access file '/a/x'");
    assert_eq!(dir.to_string(), "Couldn't access directory '/a/d'");
    assert_eq!(any.to_string(), "Couldn't access entry '/a/e'");
}

#[test]
fn message_reads_as_it_is() {
    assert_eq!(WalkedError::Message("plain words".to_string()).to_string(), "plain words");
}

#[test]
fn clone_keeps_the_error() {
    let error = WalkedError::PathNotFound { path: "/p".to_string(), path_kind: PathKind::Dir };
    assert_eq!(error.clone(), error);
}

#[test]
fn path_kind_nouns() {
    assert_eq!(PathKind::File.noun(), "file");
    assert_eq!(PathKind::Dir.noun(), "directory");
    assert_eq!(PathKind::Ambiguous.noun(), "entry");
}

#[test]
fn create_failures() {
    assert_eq!(
        create_failed("/a/NEWFILE", false, IoFailure::PermissionDenied),
        WalkedError::PermissionDenied { path: "/a/NEWFILE".to_string(), path_kind: PathKind::File }
    );
    assert_eq!(
        create_failed("/a/NEWDIR", true, IoFailure::PermissionDenied),
        WalkedError::PermissionDenied { path: "/a/NEWDIR".to_string(), path_kind: PathKind::Dir }
    );
    assert_eq!(
        create_failed("/a/NEWFILE", false, IoFailure::NotFound),
        WalkedError::Message("Couldn't create file '/a/NEWFILE'".to_string())
    );
    assert_eq!(
        create_failed("/a/NEWDIR", true, IoFailure::Other),
        WalkedError::Message("Couldn't create directory '/a/NEWDIR'".to_string())
    );
}

#[test]
fn nested_directory_failures() {
    assert_eq!(
        nested_dir_failed("/b/d", IoFailure::NotFound),
        WalkedError::PathNotFound { path: "/b/d".to_string(), path_kind: PathKind::Dir }
    );
    assert_eq!(
        nested_dir_failed("/b/d", IoFailure::PermissionDenied),
        WalkedError::PermissionDenied { path: "/b/d".to_string(), path_kind: PathKind::Dir }
    );
    assert_eq!(
        nested_dir_failed("/b/d", IoFailure::Other),
        WalkedError::Message("Couldn't create directory '/b/d'".to_string())
    );
}

#[test]
fn copy_failures() {
    assert_eq!(
        copy_failed("/a/x", "/b/x", IoFailure::NotFound),
        WalkedError::PathNotFound { path: "/a/x".to_string(), path_kind: PathKind::File }
    );
    assert_eq!(
        copy_failed("/a/x", "/b/x", IoFailure::PermissionDenied),
        WalkedError::PermissionDenied { path: "/b/x".to_string(), path_kind: PathKind::File }
    );
    assert_eq!(
        copy_failed("/a/x", "/b/x", IoFailure::Other),
        WalkedError::Message("Couldn't copy file from '/a/x' to '/b/x'".to_string())
    );
}

#[test]
fn remove_failures() {
    assert_eq!(
        remove_failed("/a/x", false, IoFailure::NotFound),
        WalkedError::PathNotFound { path: "/a/x".to_string(), path_kind: PathKind::File }
    );
    assert_eq!(
        remove_failed("/a/d", true, IoFailure::PermissionDenied),
        WalkedError::PermissionDenied { path: "/a/d".to_string(), path_kind: PathKind::Dir }
    );
    assert_eq!(
        remove_failed("/a/x", false, IoFailure::Other),
        WalkedError::Message("Couldn't remove file '/a/x'".to_string())
    );
    assert_eq!(
        remove_failed("/a/d", true, IoFailure::Other),
        WalkedError::Message("Couldn't remove directory '/a/d'".to_string())
    );
}

#[test]
fn rename_failures() {
    assert_eq!(
        rename_failed("/a/x", "/a/y", IoFailure::NotFound),
        WalkedError::PathNotFound { path: "/a/x".to_string(), path_kind: PathKind::Ambiguous }
    );
    assert_eq!(
        rename_failed("/a/x", "/a/y", IoFailure::PermissionDenied),
        WalkedError::PermissionDenied { path: "/a/x".to_string(), path_kind: PathKind::Ambiguous }
    );
    assert_eq!(
        rename_failed("/a/x", "/a/y", IoFailure::Other),
        WalkedError::Message("Couldn't rename '/a/x' to '/a/y'".to_string())
    );
}

#[test]
fn validation_errors() {
    assert_eq!(
        reserved_character_error().to_string(),
        "Paths can't contain the following characters: ['\\\\', '/', ':', '*', '?', '\"', '<', '>', '|']"
    );
    let listed = format!("{:?}", ['\\', '/', ':', '*', '?', '"', '<', '>', '|']);
    assert_eq!(
        reserved_character_error().to_string(),
        format!("Paths can't contain the following characters: {}", listed)
    );
    assert_eq!(empty_name_error().to_string(), "Names can't be empty");
    assert_eq!(already_exists_error("/a/x").to_string(), "'/a/x' already exists");
}
