use sysadminlib::os_from_release;
use sysadminlib::packages::ParseError;

#[test]
fn identifier_is_read_from_the_descriptor() {
    let contents = "NAME=\"Fedora Linux\"\nVERSION=\"40 (Workstation Edition)\"\nID=fedora\nVERSION_ID=40\n";
    assert_eq!(os_from_release(contents), Ok("fedora".to_string()));
}

#[test]
fn identifier_is_taken_as_written() {
    assert_eq!(os_from_release("ID=\"opensuse-leap\"\n"), Ok("\"opensuse-leap\"".to_string()));
    assert_eq!(os_from_release("ID=a=b\n"), Ok("a".to_string()));
    assert_eq!(os_from_release("ID=\n"), Ok("".to_string()));
    assert_eq!(os_from_release("ID=alpine\r\n"), Ok("alpine".to_string()));
}

#[test]
fn first_identifier_line_decides() {
    assert_eq!(os_from_release("ID_LIKE=debian\nID=ubuntu\nID=debian\n"), Ok("ubuntu".to_string()));
    assert_eq!(os_from_release(" ID=ubuntu\nid=debian\n"), Ok("none".to_string()));
}

#[test]
fn descriptor_without_identifier_gives_none() {
    assert_eq!(os_from_release(""), Ok("none".to_string()));
    assert_eq!(os_from_release("NAME=x\nVERSION=1\n"), Ok("none".to_string()));
}

#[test]
fn identifier_line_without_value_is_an_error() {
    assert_eq!(os_from_release("NAME=x\nID\n"), Err(ParseError::MissingField));
    assert_eq!(os_from_release("ID\nID=fedora\n"), Err(ParseError::MissingField));
}
