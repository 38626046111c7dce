use narrowd::config::Platform;
use narrowd::sftp::{
    io_error_to_status, ok_status, read_len, read_reply, readdir_reply, realpath_reply,
    symlink_supported, unimplemented, IoErrorKind, LocalSftp, MAX_SFTP_READ_LEN,
};
use russh_sftp::protocol::StatusCode;

fn sftp() -> LocalSftp {
    LocalSftp::new("/home/u".to_string(), Platform::Unix)
}

#[test]
fn read_caps_large_client_lengths() {
    let content_len = MAX_SFTP_READ_LEN as usize + 4096;
    let content = vec![b'x'; content_len];

    let mut sftp = sftp();
    let handle = sftp.opened_file();
    assert_eq!(sftp.file_handle(&handle).unwrap(), 1);

    let len = read_len(u32::MAX) as usize;
    let mut buffer = vec![0u8; len];
    buffer.copy_from_slice(&content[..len]);
    let data = read_reply(buffer, len).unwrap();

    assert_eq!(data.len(), MAX_SFTP_READ_LEN as usize);
    assert!(data.iter().all(|byte| *byte == b'x'));
}

#[test]
fn short_reads_are_cut_and_empty_ones_are_the_end() {
    assert_eq!(read_len(10), 10);
    assert_eq!(
        read_reply(vec![1, 2, 3, 0, 0], 3).unwrap(),
        vec![1, 2, 3]
    );
    let err = read_reply(vec![0; 5], 0).unwrap_err();
    assert_eq!(err.status_code, StatusCode::Eof);
    let err = readdir_reply(None).unwrap_err();
    assert_eq!(err.status_code, StatusCode::Eof);
    assert_eq!(readdir_reply(Some("a".to_string())).unwrap(), "a");
}

#[test]
fn paths_are_resolved_from_the_root() {
    let sftp = sftp();
    assert_eq!(sftp.resolve_path("a/./b"), "/home/u/a/b");
    assert_eq!(sftp.resolve_path("../v"), "/home/v");
    assert_eq!(sftp.resolve_path("../../../.."), "/");
    assert_eq!(sftp.resolve_path("/etc//x/../y"), "/etc/y");
    assert_eq!(sftp.resolve_path("/.."), "/");
    assert_eq!(sftp.resolve_path("."), "/home/u");
    assert_eq!(sftp.resolve_path(""), "/home/u");
}

#[test]
fn handles_are_given_out_in_order_and_closed_once() {
    let mut sftp = sftp();
    let file = sftp.opened_file();
    let dir = sftp.opened_dir("/tmp".to_string());
    assert_eq!(file, "h1");
    assert_eq!(dir, "h2");
    assert_eq!(sftp.dir_handle(&dir).unwrap(), 2);
    assert_eq!(sftp.stat_handle(&file).unwrap(), (1, None));
    assert_eq!(
        sftp.stat_handle(&dir).unwrap(),
        (2, Some("/tmp".to_string()))
    );

    let (number, status) = sftp.close(9, &file).unwrap();
    assert_eq!(number, 1);
    assert_eq!(status.id, 9);
    assert_eq!(status.status_code, StatusCode::Ok);
    let err = sftp.close(10, &file).unwrap_err();
    assert_eq!(err.status_code, StatusCode::NoSuchFile);
    assert_eq!(err.error_message.as_deref(), Some("unknown SFTP handle"));
    assert_eq!(sftp.opened_file(), "h3");
}

#[test]
fn handles_of_the_wrong_kind_are_refused() {
    let mut sftp = sftp();
    let file = sftp.opened_file();
    let dir = sftp.opened_dir("/tmp".to_string());
    let err = sftp.file_handle(&dir).unwrap_err();
    assert_eq!(err.status_code, StatusCode::Failure);
    assert_eq!(err.error_message.as_deref(), Some("handle is not a file"));
    let err = sftp.dir_handle(&file).unwrap_err();
    assert_eq!(err.error_message.as_deref(), Some("handle is not a directory"));
    for name in ["", "h", "h01", "1", "h3", "x1", "h+1"] {
        assert_eq!(
            sftp.stat_handle(name).unwrap_err().status_code,
            StatusCode::NoSuchFile
        );
    }
}

#[test]
fn errors_have_a_code_and_words() {
    let cases = [
        (IoErrorKind::NotFound, StatusCode::NoSuchFile),
        (IoErrorKind::PermissionDenied, StatusCode::PermissionDenied),
        (IoErrorKind::AlreadyExists, StatusCode::Failure),
        (IoErrorKind::UnexpectedEof, StatusCode::Eof),
        (IoErrorKind::Other, StatusCode::Failure),
    ];
    for (kind, code) in cases {
        let reply = io_error_to_status(kind, "words");
        assert_eq!(reply.status_code, code);
        assert_eq!(reply.error_message.as_deref(), Some("words"));
    }
    assert_eq!(unimplemented().status_code, StatusCode::OpUnsupported);
    assert_eq!(ok_status(4).error_message, "Ok");
}

#[test]
fn links_need_unix() {
    assert!(symlink_supported(Platform::Unix).is_ok());
    assert_eq!(
        symlink_supported(Platform::Windows)
            .unwrap_err()
            .status_code,
        StatusCode::OpUnsupported
    );
    assert_eq!(
        realpath_reply("/a".to_string(), Some("/b".to_string())),
        "/b"
    );
    assert_eq!(realpath_reply("/a".to_string(), None), "/a");
}
