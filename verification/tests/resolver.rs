use default_target::errors::{Error, ErrorKind};
use default_target::resolve_target;

#[test]
fn scenario_typical_probe_output() {
    let bytes = b"rustc 1.70.0\nhost: x86_64-apple-darwin\nrelease: 1.70.0\n".to_vec();
    let r = resolve_target(&bytes);
    assert_eq!(r.unwrap(), "x86_64-apple-darwin".to_string());
}

#[test]
fn scenario_no_host_line() {
    let bytes = b"commit-hash: abc123\n".to_vec();
    let e = resolve_target(&bytes).unwrap_err();
    assert_eq!(e.kind, ErrorKind::Parse);
    assert_eq!(e.message(), "Failed to parse target from rustc output.".to_string());
}

#[test]
fn empty_output_is_parse_error() {
    let bytes = Vec::new();
    let e = resolve_target(&bytes).unwrap_err();
    assert_eq!(e.kind, ErrorKind::Parse);
}

#[test]
fn many_lines_without_host_is_parse_error() {
    let bytes = b"rustc 1.70.0\nbinary: rustc\ncommit-date: unknown\nrelease: 1.70.0\nLLVM version: 16.0.2\n"
        .to_vec();
    let e = resolve_target(&bytes).unwrap_err();
    assert_eq!(e.kind, ErrorKind::Parse);
}

#[test]
fn first_host_line_wins() {
    let bytes = b"host: first-triple\nhost: second-triple\n".to_vec();
    let r = resolve_target(&bytes);
    assert_eq!(r.unwrap(), "first-triple".to_string());
}

#[test]
fn invalid_utf8_is_decode_error() {
    let mut bytes = b"host: x86_64-unknown-linux-gnu\n".to_vec();
    bytes.push(0xff);
    let e = resolve_target(&bytes).unwrap_err();
    assert_eq!(e.kind, ErrorKind::Decode);
}

#[test]
fn value_is_returned_without_trimming() {
    let bytes = b"host: aarch64-apple-darwin \r\nrelease: 1.70.0\n".to_vec();
    let r = resolve_target(&bytes);
    assert_eq!(r.unwrap(), "aarch64-apple-darwin \r".to_string());
}

#[test]
fn empty_value_is_returned_empty() {
    let bytes = b"host: \n".to_vec();
    let r = resolve_target(&bytes);
    assert_eq!(r.unwrap(), "".to_string());
}

#[test]
fn host_line_may_end_the_output_without_newline() {
    let bytes = b"rustc 1.70.0\nhost: i686-pc-windows-msvc".to_vec();
    let r = resolve_target(&bytes);
    assert_eq!(r.unwrap(), "i686-pc-windows-msvc".to_string());
}

#[test]
fn prefix_must_open_the_line() {
    let bytes = b"the host: is elsewhere\n".to_vec();
    let e = resolve_target(&bytes).unwrap_err();
    assert_eq!(e.kind, ErrorKind::Parse);
}

#[test]
fn prefix_is_case_sensitive() {
    let bytes = b"HOST: x86_64-unknown-linux-gnu\n".to_vec();
    let e = resolve_target(&bytes).unwrap_err();
    assert_eq!(e.kind, ErrorKind::Parse);
}

#[test]
fn non_ascii_output_still_resolves() {
    let bytes = "n\u{00e6}vn: intet\nhost: riscv64gc-unknown-linux-gnu\n".as_bytes().to_vec();
    let r = resolve_target(&bytes);
    assert_eq!(r.unwrap(), "riscv64gc-unknown-linux-gnu".to_string());
}

#[test]
fn multibyte_characters_decode_to_their_text() {
    let bytes = b"host: \xc3\xbc-triple\n".to_vec();
    let r = resolve_target(&bytes);
    assert_eq!(r.unwrap(), "\u{00fc}-triple".to_string());
}

#[test]
fn spawn_errors_carry_the_system_diagnostic() {
    let e = Error::new(ErrorKind::Spawn, "No such file or directory (os error 2)");
    assert_eq!(e.kind, ErrorKind::Spawn);
    assert_eq!(e.message(), "No such file or directory (os error 2)".to_string());
}
