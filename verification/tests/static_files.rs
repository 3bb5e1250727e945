use corrodedweb::response::decimal_string;
use corrodedweb::response::status_line;
use corrodedweb::static_files::StaticOutcome;
use corrodedweb::static_files::generate_index_of;
use corrodedweb::static_files::not_found_response;
use corrodedweb::static_files::resolve_path;
use corrodedweb::static_files::static_outcome;
use corrodedweb::static_files::strip_slashes_str;

#[test]
fn an_existing_file_is_served_with_status_200() {
    assert_eq!(static_outcome(true, true, false, false), StaticOutcome::ServeFile);
    let header = status_line(200);
    assert_eq!(header, "HTTP/1.1 200 OK\r\n\r\n");
    // The runtime writes the header and then the file's bytes verbatim.
    let file_bytes = vec![0x89u8, b'P', b'N', b'G', 0x00, 0xff];
    let mut response: Vec<u8> = header.as_bytes().to_vec();
    response.extend_from_slice(&file_bytes);
    assert_eq!(&response[header.len()..], file_bytes.as_slice());
}

#[test]
fn a_missing_path_gets_the_fixed_404_response() {
    assert_eq!(static_outcome(false, false, false, true), StaticOutcome::NotFound);
    assert_eq!(
        not_found_response(),
        "HTTP/1.1 404 NOT FOUND\r\n\r\n<html><h1>404 not found</h1><hr> powered by corrodedweb</html>"
    );
}

#[test]
fn a_directory_with_listing_enabled_is_listed() {
    assert_eq!(static_outcome(true, false, true, true), StaticOutcome::ServeListing);
}

#[test]
fn a_directory_with_listing_disabled_produces_no_body() {
    assert_eq!(static_outcome(true, false, true, false), StaticOutcome::NoBody);
}

#[test]
fn the_listing_links_the_parent_and_each_child() {
    let names = vec![String::from("a.txt"), String::from("sub")];
    let listing = generate_index_of("dir", &names);
    assert_eq!(
        listing,
        "<html>Index of <b>/dir</b><br><br><ul>\
         <li><a href='..'>..</li>\
         <li><a href='dir/a.txt'>a.txt</li>\
         <li><a href='dir/sub'>sub</li>\
         </ul></html>"
    );
}

#[test]
fn an_empty_directory_still_lists_the_parent_link() {
    let names: Vec<String> = Vec::new();
    let listing = generate_index_of("empty", &names);
    assert_eq!(
        listing,
        "<html>Index of <b>/empty</b><br><br><ul><li><a href='..'>..</li></ul></html>"
    );
}

#[test]
fn resolution_concatenates_root_and_stripped_path() {
    assert_eq!(resolve_path("./www/", "/index.html"), "./www/index.html");
    assert_eq!(resolve_path("./www", "/index.html"), "./wwwindex.html");
    assert_eq!(resolve_path("./www/", "///deep/file"), "./www/deep/file");
    assert_eq!(resolve_path("./www/", ""), "./www/");
    // Parent-directory segments pass through unrejected.
    assert_eq!(resolve_path("./www/", "/../secret"), "./www/../secret");
}

#[test]
fn strip_slashes_removes_only_leading_slashes() {
    assert_eq!(strip_slashes_str("///a/b"), "a/b");
    assert_eq!(strip_slashes_str("a/b/"), "a/b/");
    assert_eq!(strip_slashes_str("////"), "");
}

#[test]
fn status_lines_carry_the_code_and_always_say_ok() {
    assert_eq!(status_line(404), "HTTP/1.1 404 OK\r\n\r\n");
    assert_eq!(status_line(0), "HTTP/1.1 0 OK\r\n\r\n");
    assert_eq!(status_line(4294967295), "HTTP/1.1 4294967295 OK\r\n\r\n");
}

#[test]
fn decimal_rendering_is_exact() {
    assert_eq!(decimal_string(0), "0");
    assert_eq!(decimal_string(7), "7");
    assert_eq!(decimal_string(10), "10");
    assert_eq!(decimal_string(200), "200");
    assert_eq!(decimal_string(1009), "1009");
}
