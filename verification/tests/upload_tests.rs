use yaolist::api::file_resolver::MountInfo;
use yaolist::api::files::copy_move::{plan_transfer, transfer_dirs, transfer_strategy, transfer_task_name};
use yaolist::api::files::operations::{operation_target, FileOp};
use yaolist::api::files::upload::{
    batch_task_name, chunk_action, control_refusal, parse_conflict_strategy, part_name, plan_batch_upload,
    stream_pieces, upload_target, writer_key, BatchUploadFileInfo, ChunkAction, ConflictStrategy, ControlState,
    PlannedUpload, UploadError,
};
use yaolist::models::UserPermissions;

fn mounts() -> Vec<MountInfo> {
    vec![MountInfo { id: "d1".to_string(), mount_path: "/data".to_string(), order: 0 }]
}

fn uploader() -> UserPermissions {
    let mut p = UserPermissions::none();
    p.create_upload = true;
    p
}

#[test]
fn upload_target_in_storage() {
    let t = upload_target(&uploader(), "/", "/data/sub", "f.txt", &mounts()).unwrap();
    assert_eq!(t.dir, "/data/sub");
    assert_eq!(t.file_path, "/data/sub/f.txt");
    assert_eq!(t.mount_id, "d1");
    assert_eq!(t.actual_path, "/sub/f.txt");
    assert_eq!(t.batch_file_path, "/data/sub/f.txt");
}

#[test]
fn upload_target_keeps_last_segment_for_batches() {
    let t = upload_target(&uploader(), "/", "/data", "x/y.txt", &mounts()).unwrap();
    assert_eq!(t.file_path, "/data/x/y.txt");
    assert_eq!(t.actual_path, "/x/y.txt");
    assert_eq!(t.batch_file_path, "/data/y.txt");
}

#[test]
fn upload_target_refusals() {
    match upload_target(&UserPermissions::none(), "/", "/data", "f", &mounts()) {
        Err(UploadError::Refused(e)) => {
            assert_eq!(e.code, 403);
            assert_eq!(e.message, "没有上传文件的权限");
        },
        _ => panic!("expected a refusal"),
    }
    assert!(matches!(upload_target(&uploader(), "/", "/data", "f", &[]), Err(UploadError::MountNotFound)));
    match upload_target(&uploader(), "/", "/x..y", "f", &mounts()) {
        Err(UploadError::Refused(e)) => assert_eq!(e.message, "路径不合法"),
        _ => panic!("expected a refusal"),
    }
}

#[test]
fn upload_at_mount_point_uses_file_name() {
    let m = vec![MountInfo { id: "d".to_string(), mount_path: "/f".to_string(), order: 0 }];
    let t = upload_target(&uploader(), "/", "/", "f", &m).unwrap();
    assert_eq!(t.actual_path, "/f");
}

#[test]
fn chunk_actions() {
    match chunk_action("t1", "a/b.txt", 0, 3, true) {
        ChunkAction::StorePart { part, last } => {
            assert_eq!(part, "t1_a_b.txt.part0");
            assert!(!last);
        },
        _ => panic!(),
    }
    match chunk_action("t1", "a/b.txt", 2, 3, true) {
        ChunkAction::StorePart { last, .. } => assert!(last),
        _ => panic!(),
    }
    match chunk_action("t1", "a/b.txt", 0, 3, false) {
        ChunkAction::WritePiece { key, open, close } => {
            assert_eq!(key, "t1_a_b.txt");
            assert!(open);
            assert!(!close);
        },
        _ => panic!(),
    }
    assert!(matches!(chunk_action("t", "f", -1, 5, false), ChunkAction::WriteWhole));
    assert!(matches!(chunk_action("t", "f", 0, 1, true), ChunkAction::WriteWhole));
}

#[test]
fn piece_names() {
    assert_eq!(writer_key("task", "dir/sub/x"), "task_dir_sub_x");
    assert_eq!(part_name("task", "x", 12), "task_x.part12");
}

#[test]
fn task_controls() {
    let c = control_refusal(Some(ControlState::Cancelled)).unwrap();
    assert_eq!((c.code, c.message.as_str()), (499, "任务已取消"));
    let p = control_refusal(Some(ControlState::Paused)).unwrap();
    assert_eq!((p.code, p.message.as_str()), (498, "任务已暂停"));
    assert!(control_refusal(Some(ControlState::Running)).is_none());
    assert!(control_refusal(None).is_none());
}

#[test]
fn pieces_cover_the_data() {
    assert!(stream_pieces(0).is_empty());
    assert_eq!(stream_pieces(1048576), vec![(0, 1048576)]);
    assert_eq!(stream_pieces(2500000), vec![(0, 1048576), (1048576, 2097152), (2097152, 2500000)]);
}

fn batch() -> Vec<BatchUploadFileInfo> {
    vec![
        BatchUploadFileInfo { path: "dir/a.txt".to_string(), size: 1 },
        BatchUploadFileInfo { path: "b.txt".to_string(), size: 2 },
    ]
}

fn paths(v: &[PlannedUpload]) -> Vec<(String, u64)> {
    v.iter().map(|u| (u.path.clone(), u.size)).collect()
}

#[test]
fn batch_conflict_strategies() {
    let existing = vec!["a.txt".to_string()];
    let renamed = vec!["a (1).txt".to_string(), "b.txt".to_string()];
    let p = plan_batch_upload("/up", &batch(), ConflictStrategy::AutoRename, &existing, &renamed).unwrap();
    assert_eq!(paths(&p.uploads), vec![("/up/a (1).txt".to_string(), 1), ("/up/b.txt".to_string(), 2)]);
    let p = plan_batch_upload("/up", &batch(), ConflictStrategy::Overwrite, &existing, &renamed).unwrap();
    assert_eq!(paths(&p.uploads), vec![("/up/a.txt".to_string(), 1), ("/up/b.txt".to_string(), 2)]);
    let p = plan_batch_upload("/up", &batch(), ConflictStrategy::Skip, &existing, &renamed).unwrap();
    assert_eq!(paths(&p.uploads), vec![("/up/b.txt".to_string(), 2)]);
    assert!(p.resolved[0].skipped);
    assert_eq!(p.resolved[0].original, "dir/a.txt");
    assert!(p.resolved[0].resolved.is_none());
    assert_eq!(p.resolved[1].resolved.as_deref(), Some("/up/b.txt"));
    let e = plan_batch_upload("/", &batch(), ConflictStrategy::Error, &existing, &renamed).unwrap_err();
    assert_eq!(e.code, 409);
    assert_eq!(e.message, "文件已存在: a.txt");
}

#[test]
fn batch_names_and_strategies() {
    let one = vec![PlannedUpload { path: "/up/b.txt".to_string(), size: 1 }];
    assert_eq!(batch_task_name(&one), "b.txt");
    let two = vec![
        PlannedUpload { path: "/a".to_string(), size: 1 },
        PlannedUpload { path: "/b".to_string(), size: 1 },
    ];
    assert_eq!(batch_task_name(&two), "上传 2 个文件");
    assert_eq!(parse_conflict_strategy(Some("skip")), ConflictStrategy::Skip);
    assert_eq!(parse_conflict_strategy(Some("error")), ConflictStrategy::Error);
    assert_eq!(parse_conflict_strategy(Some("whatever")), ConflictStrategy::AutoRename);
    assert_eq!(parse_conflict_strategy(None), ConflictStrategy::AutoRename);
}

#[test]
fn operations_locate_and_protect_mount_roots() {
    let mut p = UserPermissions::none();
    p.delete_files = true;
    let e = operation_target(FileOp::Remove, &p, "/", "/data", &mounts()).unwrap_err();
    assert_eq!((e.code, e.message.as_str()), (403, "不能删除根目录"));
    let t = operation_target(FileOp::Remove, &p, "/", "/data/x", &mounts()).unwrap();
    assert_eq!((t.mount_id.as_str(), t.actual_path.as_str()), ("d1", "/x"));
    let e = operation_target(FileOp::Rename, &p, "/", "/data/x", &mounts()).unwrap_err();
    assert_eq!(e.message, "没有重命名文件的权限");
    let t = operation_target(FileOp::Mkdir, &uploader(), "/", "/data", &mounts()).unwrap();
    assert_eq!(t.actual_path, "/");
    let e = operation_target(FileOp::Write, &uploader(), "/", "/nowhere", &mounts()).unwrap_err();
    assert_eq!((e.code, e.message.as_str()), (404, "路径不存在"));
}

#[test]
fn transfers() {
    let e = transfer_dirs(true, &UserPermissions::none(), "/", "/a", "/b").unwrap_err();
    assert_eq!(e.message, "没有移动文件的权限");
    let mut p = UserPermissions::none();
    p.copy_files = true;
    assert_eq!(transfer_dirs(false, &p, "/u", "/a", "b").unwrap(), ("/u/a".to_string(), "/u/b".to_string()));
    assert_eq!(transfer_strategy(Some("error")), ConflictStrategy::AutoRename);
    assert_eq!(transfer_task_name(true, &vec!["x".to_string()]), "移动 x");
    assert_eq!(transfer_task_name(false, &vec!["a".to_string(), "b".to_string()]), "复制 2 个项目");
    let names = vec!["a".to_string(), "b".to_string()];
    let existing = vec!["b".to_string()];
    let plan = plan_transfer("/src", "/dst", &names, ConflictStrategy::Skip, &existing, &names, "/", "/");
    assert_eq!(plan.len(), 1);
    assert_eq!(plan[0].src_actual, "/src/a");
    assert_eq!(plan[0].dst_actual, "/dst/a");
    let renamed = vec!["a".to_string(), "b (1)".to_string()];
    let plan = plan_transfer("/src", "/dst", &names, ConflictStrategy::AutoRename, &existing, &renamed, "/src", "/dst");
    assert_eq!(plan[1].final_name, "b (1)");
    assert_eq!(plan[1].src_actual, "/b");
    assert_eq!(plan[1].dst_actual, "/b (1)");
}
