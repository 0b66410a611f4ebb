use supervisor::port_text;
use supervisor::resolve_exe;
use supervisor::spawn_args;

#[test]
fn empty_executable_falls_back_to_node() {
    assert_eq!(resolve_exe(String::new()), "node");
}

#[test]
fn explicit_executable_is_kept() {
    assert_eq!(
        resolve_exe(String::from("/opt/node/bin/node")),
        "/opt/node/bin/node"
    );
}

#[test]
fn port_is_written_in_decimal() {
    assert_eq!(port_text(0), "0");
    assert_eq!(port_text(7), "7");
    assert_eq!(port_text(10), "10");
    assert_eq!(port_text(8080), "8080");
    assert_eq!(port_text(65535), "65535");
}

#[test]
fn argument_vector_is_entry_flag_port() {
    let args = spawn_args(1881);
    assert_eq!(args, vec!["main.js", "--port", "1881"]);
}

#[test]
fn argument_vector_for_smallest_and_largest_port() {
    assert_eq!(spawn_args(0), vec!["main.js", "--port", "0"]);
    assert_eq!(spawn_args(65535), vec!["main.js", "--port", "65535"]);
}
