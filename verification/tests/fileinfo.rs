use invoice_scan::errors::InvoiceError;
use invoice_scan::fileinfo::extract_file_info;

#[test]
fn jpg_extension_is_lowered() {
    let (name, ext, mime) = extract_file_info("scans/Invoice.JPG").unwrap();
    assert_eq!(name, "Invoice.JPG");
    assert_eq!(ext.as_deref(), Some("jpg"));
    assert_eq!(mime, "image/jpeg");
}

#[test]
fn pdf_extension_and_mime() {
    let (name, ext, mime) = extract_file_info("a/b/invoice.pdf").unwrap();
    assert_eq!(name, "invoice.pdf");
    assert_eq!(ext.as_deref(), Some("pdf"));
    assert_eq!(mime, "application/pdf");
}

#[test]
fn bare_file_name_without_directories() {
    let (name, ext, _) = extract_file_info("invoice.jpeg").unwrap();
    assert_eq!(name, "invoice.jpeg");
    assert_eq!(ext.as_deref(), Some("jpeg"));
}

#[test]
fn no_extension_gives_octet_stream() {
    let (name, ext, mime) = extract_file_info("dir/Makefile").unwrap();
    assert_eq!(name, "Makefile");
    assert_eq!(ext, None);
    assert_eq!(mime, "application/octet-stream");
}

#[test]
fn hidden_file_has_no_extension() {
    let (name, ext, mime) = extract_file_info(".bashrc").unwrap();
    assert_eq!(name, ".bashrc");
    assert_eq!(ext, None);
    assert_eq!(mime, "application/octet-stream");
}

#[test]
fn last_dot_wins() {
    let (_, ext, _) = extract_file_info("archive.tar.gz").unwrap();
    assert_eq!(ext.as_deref(), Some("gz"));
}

#[test]
fn unknown_extension_gives_octet_stream() {
    let (_, ext, mime) = extract_file_info("file.zzzqqq").unwrap();
    assert_eq!(ext.as_deref(), Some("zzzqqq"));
    assert_eq!(mime, "application/octet-stream");
}

#[test]
fn trailing_separators_are_ignored() {
    let (name, ext, _) = extract_file_info("some/dir/").unwrap();
    assert_eq!(name, "dir");
    assert_eq!(ext, None);
    let (name, _, _) = extract_file_info("a//").unwrap();
    assert_eq!(name, "a");
}

#[test]
fn trailing_current_dir_components_are_ignored() {
    let (name, _, _) = extract_file_info("a/.").unwrap();
    assert_eq!(name, "a");
    let (name, ext, _) = extract_file_info("scans/invoice.jpg/.").unwrap();
    assert_eq!(name, "invoice.jpg");
    assert_eq!(ext.as_deref(), Some("jpg"));
}

#[test]
fn parent_dir_component_has_no_file_name() {
    assert!(matches!(extract_file_info(".."), Err(InvoiceError::FileName)));
    assert!(matches!(extract_file_info("a/.."), Err(InvoiceError::FileName)));
    assert!(matches!(extract_file_info("/.."), Err(InvoiceError::FileName)));
}

#[test]
fn current_dir_alone_has_no_file_name() {
    assert!(matches!(extract_file_info("."), Err(InvoiceError::FileName)));
    assert!(matches!(extract_file_info("./"), Err(InvoiceError::FileName)));
    assert!(matches!(extract_file_info("/."), Err(InvoiceError::FileName)));
}

#[test]
fn root_has_no_file_name() {
    assert!(matches!(extract_file_info("/"), Err(InvoiceError::FileName)));
    assert!(matches!(extract_file_info("//"), Err(InvoiceError::FileName)));
}

#[test]
fn empty_path_has_no_file_name() {
    let r = extract_file_info("");
    assert!(matches!(r, Err(InvoiceError::FileName)));
}

#[test]
fn leading_current_dir_is_kept_out_of_the_name() {
    let (name, ext, _) = extract_file_info("./invoice.pdf").unwrap();
    assert_eq!(name, "invoice.pdf");
    assert_eq!(ext.as_deref(), Some("pdf"));
}

#[test]
fn dotted_names_are_ordinary_names() {
    let (name, ext, _) = extract_file_info("a/..b").unwrap();
    assert_eq!(name, "..b");
    assert_eq!(ext.as_deref(), Some("b"));
    let (name, _, _) = extract_file_info("...").unwrap();
    assert_eq!(name, "...");
}

#[test]
fn non_ascii_name_is_kept() {
    let (name, ext, _) = extract_file_info("счёт.JPG").unwrap();
    assert_eq!(name, "счёт.JPG");
    assert_eq!(ext.as_deref(), Some("jpg"));
}
