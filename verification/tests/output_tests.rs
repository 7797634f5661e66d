use dirble::output::directory_name;
use dirble::request::RequestResponse;

#[test]
fn check_directory() {
    let request = RequestResponse {
        url: String::from("http://www.example.com/parent/directory/file.txt"),
        code: 0,
        content_len: 0,
        is_directory: false,
        is_listable: false,
        redirect_url: String::from(""),
        found_from_listable: true,
        parent_depth: 0,
    };

    let directory = directory_name(&request);

    assert_eq!(directory, "http://www.example.com/parent/directory");
}

#[test]
fn check_directory_trailing_slash_removal() {
    let request = RequestResponse {
        url: String::from("http://www.example.com/parent/directory/"),
        code: 0,
        content_len: 0,
        is_directory: true,
        is_listable: false,
        redirect_url: String::from(""),
        found_from_listable: true,
        parent_depth: 0,
    };

    let directory = directory_name(&request);

    assert_eq!(directory, "http://www.example.com/parent/directory");
}

#[test]
fn check_directory_without_separator_is_kept() {
    let request = RequestResponse {
        url: String::from("nothing-here"),
        code: 0,
        content_len: 0,
        is_directory: false,
        is_listable: false,
        redirect_url: String::from(""),
        found_from_listable: true,
        parent_depth: 0,
    };

    assert_eq!(directory_name(&request), "nothing-here");
}
