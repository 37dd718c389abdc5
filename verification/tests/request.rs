use ycm_core::request::MalformedRequest;
use ycm_core::ycmd_types::{FileData, SimpleRequest};

fn get_simple_request(
    file_contents: &str,
    filepath: &str,
    line_num: usize,
    column_num: usize,
) -> SimpleRequest {
    let file_data = vec![(
        filepath.to_string(),
        FileData {
            filetypes: vec![String::from("rust"), String::from("c")],
            contents: file_contents.to_string(),
        },
    )];
    SimpleRequest {
        line_num,
        column_num,
        filepath: filepath.to_string(),
        file_data,
        completer_target: None,
        working_dir: None,
        extra_conf_data: None,
        start_column: None,
    }
}

#[test]
fn simple_request_lines() {
    let request = get_simple_request("a\nb\n\n\nc", "aa", 0, 0);
    assert_eq!(request.lines().unwrap(), vec!["a", "b", "", "", "c"]);
}

#[test]
fn simple_request_line_value() {
    let request = get_simple_request("a\nb\n\n\nc", "aa", 2, 0);
    assert_eq!(request.line_value().unwrap(), "b");
}

#[test]
fn simple_request_filetypes() {
    let request = get_simple_request("a\nb\n\n\nc", "aa", 2, 0);
    assert_eq!(
        request.filetypes(),
        vec![String::from("rust"), String::from("c")]
    );
}

#[test]
fn simple_request_first_filetype() {
    let request = get_simple_request("a\nb\n\n\nc", "aa", 2, 0);
    assert_eq!(request.first_filetype(), Some("rust"));
}

#[test]
fn simple_request_start_column() {
    let request = get_simple_request("12345 a8", "aa", 1, 9);
    assert_eq!(request.start_column().unwrap(), 6);

    let request = get_simple_request("u", "aa", 1, 2);
    assert_eq!(request.start_column().unwrap(), 0);
}

#[test]
fn simple_request_query() {
    let request = get_simple_request("12345 a8", "aa", 1, 9);
    assert_eq!(request.query().unwrap(), "a8");
    let request = get_simple_request("u", "aa", 1, 2);
    assert_eq!(request.query().unwrap(), "u");
}

#[test]
fn simple_request_prefix() {
    let request = get_simple_request("12345 a8", "aa", 1, 9);
    assert_eq!(request.prefix().unwrap(), "12345 ");

    let request = get_simple_request("unim", "aa", 1, 5);
    assert_eq!(request.prefix().unwrap(), "");
}

#[test]
fn lines_need_no_final_line_ending() {
    let request = get_simple_request("a\r\nb\n", "aa", 1, 1);
    assert_eq!(request.lines().unwrap(), vec!["a", "b"]);
    let request = get_simple_request("", "aa", 1, 1);
    assert!(request.lines().unwrap().is_empty());
}

#[test]
fn request_without_its_file_is_malformed() {
    let mut request = get_simple_request("abc", "aa", 1, 1);
    request.filepath = String::from("bb");
    assert!(request.file().is_none());
    assert_eq!(request.lines().err(), Some(MalformedRequest));
    assert_eq!(request.line_value().err(), Some(MalformedRequest));
    assert_eq!(request.start_column().err(), Some(MalformedRequest));
    assert_eq!(request.query().err(), Some(MalformedRequest));
    assert_eq!(request.prefix().err(), Some(MalformedRequest));
    assert!(request.filetypes().is_empty());
    assert_eq!(request.first_filetype(), None);
}

#[test]
fn line_out_of_range_is_malformed() {
    let request = get_simple_request("a\nb", "aa", 0, 1);
    assert_eq!(request.line_value().err(), Some(MalformedRequest));
    let request = get_simple_request("a\nb", "aa", 3, 1);
    assert_eq!(request.line_value().err(), Some(MalformedRequest));
    assert_eq!(request.query().err(), Some(MalformedRequest));
    let request = get_simple_request("a\nb", "aa", 2, 1);
    assert_eq!(request.line_value().unwrap(), "b");
}

#[test]
fn column_out_of_range_is_malformed() {
    let request = get_simple_request("abc", "aa", 1, 0);
    assert_eq!(request.start_column().err(), Some(MalformedRequest));
    let request = get_simple_request("abc", "aa", 1, 5);
    assert_eq!(request.start_column().err(), Some(MalformedRequest));
    assert_eq!(request.query().err(), Some(MalformedRequest));
    assert_eq!(request.prefix().err(), Some(MalformedRequest));
    // Just behind the end of the line is in range.
    let request = get_simple_request("abc", "aa", 1, 4);
    assert_eq!(request.start_column().unwrap(), 0);
    assert_eq!(request.query().unwrap(), "abc");
    // On an empty line too.
    let request = get_simple_request("\nx", "aa", 1, 1);
    assert_eq!(request.start_column().unwrap(), 0);
    assert_eq!(request.query().unwrap(), "");
    assert_eq!(request.prefix().unwrap(), "");
}

#[test]
fn column_inside_a_character() {
    // "ä" takes bytes 1 and 2 of the line.
    let request = get_simple_request("fäö", "aa", 1, 3);
    assert_eq!(request.start_column().unwrap(), 2);
    assert_eq!(request.query().err(), Some(MalformedRequest));
    assert_eq!(request.prefix().err(), Some(MalformedRequest));
    let request = get_simple_request("fäö", "aa", 1, 4);
    assert_eq!(request.start_column().unwrap(), 0);
    assert_eq!(request.query().unwrap(), "fä");
}

#[test]
fn first_entry_of_a_path_counts() {
    let mut request = get_simple_request("first", "aa", 1, 6);
    request.file_data.push((
        String::from("aa"),
        FileData {
            filetypes: vec![],
            contents: String::from("second line"),
        },
    ));
    assert_eq!(request.line_value().unwrap(), "first");
    assert_eq!(request.filetypes().len(), 2);
}

#[test]
fn start_column_set_by_a_completer() {
    let mut request = get_simple_request("x /usr/li", "aa", 1, 10);
    assert_eq!(request.start_column().unwrap(), 7);
    assert_eq!(request.query().unwrap(), "li");
    request.start_column = Some(3);
    assert_eq!(request.start_column().unwrap(), 3);
    assert_eq!(request.query().unwrap(), "usr/li");
    assert_eq!(request.prefix().unwrap(), "x /");
    // A start behind the cursor is not taken.
    request.start_column = Some(10);
    assert_eq!(request.start_column().unwrap(), 7);
}

#[test]
fn filetype_decides_the_start_column() {
    let mut request = get_simple_request("a font-fa", "aa", 1, 10);
    assert_eq!(request.start_column().unwrap(), 7);
    request.file_data[0].1.filetypes = vec![String::from("css")];
    assert_eq!(request.start_column().unwrap(), 2);
    assert_eq!(request.query().unwrap(), "font-fa");
    assert_eq!(request.prefix().unwrap(), "a ");
}

#[test]
fn prefix_and_query_make_the_line_up_to_the_cursor() {
    let cases = [
        ("12345 a8", 9),
        ("12345 a8", 7),
        ("u", 2),
        ("x = fäö.bar", 8),
        ("x = fäö.bar", 13),
        (" ", 1),
    ];
    for (line, column_num) in cases {
        let request = get_simple_request(line, "aa", 1, column_num);
        let joined = request.prefix().unwrap() + &request.query().unwrap();
        assert_eq!(joined, &line[..column_num - 1]);
    }
}
