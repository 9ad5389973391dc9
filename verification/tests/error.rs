use file_relay::error::CustomError;

#[test]
fn a_file_not_found_names_the_file() {
    let e = CustomError::FileNotFound("special_file.txt".to_string());
    assert_eq!(e.message(), "File not found: special_file.txt");
}

#[test]
fn an_io_error_gives_its_description() {
    let e = CustomError::IoError("Permission denied (os error 13)".to_string());
    assert_eq!(e.message(), "IO Error: Permission denied (os error 13)");
}

#[test]
fn a_decode_error_gives_its_description() {
    let e = CustomError::DecodeError("invalid utf-8".to_string());
    assert_eq!(e.message(), "Decode Error: invalid utf-8");
}

#[test]
fn a_send_error_gives_its_description() {
    let e = CustomError::SendError("Connection refused".to_string());
    assert_eq!(e.message(), "Send Error: Connection refused");
}

#[test]
fn an_empty_description_leaves_the_kind() {
    assert_eq!(CustomError::SendError(String::new()).message(), "Send Error: ");
}

#[test]
fn the_detail_is_what_the_failure_is_about() {
    let not_found = CustomError::FileNotFound("secret_file.txt".to_string());
    assert_eq!(not_found.detail(), "secret_file.txt");
    assert_eq!(CustomError::IoError("denied".to_string()).detail(), "denied");
    assert_eq!(CustomError::DecodeError("bad byte".to_string()).detail(), "bad byte");
    assert_eq!(CustomError::SendError("refused".to_string()).detail(), "refused");
}
