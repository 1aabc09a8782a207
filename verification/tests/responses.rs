use httpd_rs::mime::{content_type, get_mimetype, DEFAULT_MIME};
use httpd_rs::response::{
    decimal_string, not_found, ok, DIGITS, HEAD_END, LENGTH_FIELD, NOT_FOUND, OK_OPENING,
};

#[test]
fn mime_table() {
    assert_eq!(get_mimetype("html"), "text/html; charset=utf8");
    assert_eq!(get_mimetype("css"), "text/css");
    assert_eq!(get_mimetype("csv"), "text/csv");
    assert_eq!(get_mimetype("rtf"), "text/rtf");
    assert_eq!(get_mimetype("js"), "application/javascript");
    assert_eq!(get_mimetype("json"), "application/json");
    assert_eq!(get_mimetype("xml"), "application/xml");
    assert_eq!(get_mimetype("png"), "image/png");
    assert_eq!(get_mimetype("jpg"), "image/jpg");
    assert_eq!(get_mimetype("jpeg"), "image/jpg");
    assert_eq!(get_mimetype("gif"), "image/gif");
    assert_eq!(get_mimetype("bmp"), "image/bmp");
    assert_eq!(get_mimetype("svg"), "image/svg+xml");
    assert_eq!(get_mimetype("tiff"), "image/tiff");
}

#[test]
fn mime_default() {
    assert_eq!(DEFAULT_MIME, "text/plain");
    assert_eq!(get_mimetype("bin"), "text/plain");
    assert_eq!(get_mimetype(""), "text/plain");
    assert_eq!(get_mimetype("htm"), "text/plain");
    assert_eq!(get_mimetype("html5"), "text/plain");
    assert_eq!(get_mimetype(".html"), "text/plain");
    assert_eq!(get_mimetype("tif"), "text/plain");
}

#[test]
fn mime_match_is_exact_in_case() {
    assert_eq!(get_mimetype("HTML"), "text/plain");
    assert_eq!(get_mimetype("Css"), "text/plain");
    assert_eq!(get_mimetype("JPG"), "text/plain");
}

#[test]
fn content_type_goes_by_the_extension_in_lower_case() {
    assert_eq!(content_type("/httpd_rd_root/INDEX.HTML"), "text/html; charset=utf8");
    assert_eq!(content_type("/httpd_rd_root/a.Css"), "text/css");
    assert_eq!(content_type("/httpd_rd_root/a.JPG"), content_type("/httpd_rd_root/b.jpg"));
    assert_eq!(content_type("/httpd_rd_root/a.JpEg"), "image/jpg");
    assert_eq!(content_type("/httpd_rd_root/a.SVG"), "image/svg+xml");
    assert_eq!(content_type("/httpd_rd_root/HTML"), "text/plain");
    assert_eq!(content_type("/httpd_rd_root/a.\u{212a}"), "text/plain");
}

#[test]
fn mime_is_a_function_of_the_extension() {
    assert_eq!(
        content_type("/httpd_rd_root/a.css"),
        content_type("/httpd_rd_root/deep/er/b.css")
    );
    assert_eq!(content_type("/httpd_rd_root/a.css"), get_mimetype("css"));
    assert_eq!(content_type("/httpd_rd_root/a.b.json"), "application/json");
    assert_eq!(content_type("/httpd_rd_root/x.jpeg"), "image/jpg");
}

#[test]
fn content_type_without_extension() {
    assert_eq!(content_type("/httpd_rd_root/nope"), "text/plain");
    assert_eq!(content_type("/httpd_rd_root"), "text/plain");
    assert_eq!(content_type("/httpd_rd_root/.html"), "text/plain");
    assert_eq!(content_type("/httpd_rd_root/html"), "text/plain");
    assert_eq!(content_type("/httpd_rd_root/x.html/y"), "text/plain");
    assert_eq!(content_type("/httpd_rd_root/x."), "text/plain");
}

#[test]
fn decimal_values() {
    assert_eq!(DIGITS, "0123456789");
    assert_eq!(decimal_string(0), "0");
    assert_eq!(decimal_string(7), "7");
    assert_eq!(decimal_string(9), "9");
    assert_eq!(decimal_string(10), "10");
    assert_eq!(decimal_string(11), "11");
    assert_eq!(decimal_string(100), "100");
    assert_eq!(decimal_string(1024), "1024");
    assert_eq!(decimal_string(9876543210), "9876543210");
    assert_eq!(decimal_string(usize::MAX), format!("{}", usize::MAX));
}

#[test]
fn decimal_reads_back() {
    for n in [0usize, 1, 9, 10, 19, 99, 100, 101, 4096, 65535, 1000000] {
        let digits = decimal_string(n);
        assert_eq!(digits.parse::<usize>().unwrap(), n);
        assert!(digits.bytes().all(|b| b.is_ascii_digit()));
        assert_eq!(digits.starts_with('0'), n == 0);
    }
}

#[test]
fn not_found_is_byte_for_byte() {
    assert_eq!(not_found(), b"HTTP/1.1 404 NOT FOUND\r\n\r\n".to_vec());
    assert_eq!(not_found().len(), 26);
    assert_eq!(NOT_FOUND, "HTTP/1.1 404 NOT FOUND\r\n\r\n");
}

#[test]
fn ok_response_exact() {
    let response = ok("text/css", b"a{}".to_vec());
    assert_eq!(
        response,
        b"HTTP/1.1 200 OK\r\nContent-Type: text/css\r\ncontent-length: 3\r\n\r\na{}".to_vec()
    );
}

#[test]
fn ok_response_with_empty_body() {
    let response = ok("text/plain", Vec::new());
    assert_eq!(
        response,
        b"HTTP/1.1 200 OK\r\nContent-Type: text/plain\r\ncontent-length: 0\r\n\r\n".to_vec()
    );
}

#[test]
fn ok_response_parts() {
    assert_eq!(OK_OPENING, "HTTP/1.1 200 OK\r\nContent-Type: ");
    assert_eq!(LENGTH_FIELD, "\r\ncontent-length: ");
    assert_eq!(HEAD_END, "\r\n\r\n");
}

#[test]
fn ok_response_is_framed_by_its_body() {
    let mut body: Vec<u8> = Vec::new();
    for i in 0..1500u32 {
        body.push((i % 251) as u8);
    }
    body[10] = b'\r';
    body[11] = b'\n';
    body[12] = b'\r';
    body[13] = b'\n';
    body[20] = 0xff;
    let response = ok("image/png", body.clone());
    assert!(response.ends_with(&body));
    let head = &response[..response.len() - body.len()];
    assert_eq!(
        head,
        b"HTTP/1.1 200 OK\r\nContent-Type: image/png\r\ncontent-length: 1500\r\n\r\n"
    );
}
