use yaolist::api::archive::archive_format_of_path;
use yaolist::api::files::list::check_visible;
use yaolist::api::files::upload::{is_file_field, upload_form, FormField};

fn text(name: &str, value: &str) -> FormField {
    FormField::Text { name: name.to_string(), value: value.to_string() }
}

#[test]
fn upload_form_without_content_is_refused() {
    let fields = vec![text("path", "/a"), text("filename", "x.txt")];
    assert_eq!(upload_form(&fields).err(), Some(400));
    assert_eq!(upload_form(&Vec::new()).err(), Some(400));
}

#[test]
fn upload_form_reads_fields_in_order() {
    let fields = vec![
        text("chunkIndex", "3"),
        text("totalChunks", "oops"),
        text("totalSize", "1024"),
        FormField::File { file_name: Some("client.bin".to_string()), data: vec![1, 2, 3] },
        text("taskId", "t1"),
        text("other", "ignored"),
    ];
    let f = upload_form(&fields).unwrap();
    assert_eq!(f.target_path, "/");
    assert_eq!(f.filename, "client.bin");
    assert_eq!(f.chunk_index, 3);
    assert_eq!(f.total_chunks, 1);
    assert_eq!(f.total_size, 1024);
    assert_eq!(f.task_id.as_deref(), Some("t1"));
    assert_eq!(f.data, vec![1, 2, 3]);

    let fields = vec![
        text("filename", "given.txt"),
        FormField::File { file_name: None, data: vec![9] },
        text("path", "/d"),
    ];
    let f = upload_form(&fields).unwrap();
    assert_eq!(f.filename, "given.txt");
    assert_eq!(f.target_path, "/d");
    assert_eq!(f.chunk_index, -1);

    let f = upload_form(&vec![FormField::File { file_name: None, data: vec![] }]).unwrap();
    assert_eq!(f.filename, "unknown");
    assert!(is_file_field("file") && is_file_field("files") && !is_file_field("path"));
}

#[test]
fn hidden_entries_are_missing() {
    let e = check_visible(false, true).unwrap_err();
    assert_eq!((e.code, e.message.as_str()), (404, "文件不存在"));
    assert!(check_visible(true, true).is_ok());
    assert!(check_visible(false, false).is_ok());
}

#[test]
fn archive_kinds_of_paths() {
    assert_eq!(archive_format_of_path("/d/a.ZIP").unwrap(), "zip");
    assert_eq!(archive_format_of_path("/d.zip/a.epub").unwrap(), "zip");
    let e = archive_format_of_path("/d.zip/a.rar").unwrap_err();
    assert_eq!((e.code, e.message.as_str()), (400, "不支持的压缩格式，目前仅支持 ZIP"));
}
