use frame_motion_studio::composite::output_dir_to_prepare;
use frame_motion_studio::paths::{extension, file_stem};
use frame_motion_studio::video::{
    default_output_path, ensure_extension, is_supported_video_extension, str_eq, video_extensions,
};

#[test]
fn extensions_of_paths() {
    assert_eq!(extension("a/b.MP4"), Some("MP4".to_string()));
    assert_eq!(extension("clip.tar.gz"), Some("gz".to_string()));
    assert_eq!(extension("dir/.hidden"), None);
    assert_eq!(extension("noext"), None);
    assert_eq!(extension("a."), Some("".to_string()));
    assert_eq!(extension("/"), None);
}

#[test]
fn stems_of_paths() {
    assert_eq!(file_stem("/x/clip.tar.gz"), Some("clip.tar".to_string()));
    assert_eq!(file_stem(".bashrc"), Some(".bashrc".to_string()));
    assert_eq!(file_stem("movie"), Some("movie".to_string()));
    assert_eq!(file_stem("/"), None);
}

#[test]
fn supported_videos_by_extension() {
    assert!(is_supported_video_extension("/v/clip.MOV"));
    assert!(is_supported_video_extension("run.mp4"));
    assert!(is_supported_video_extension("a.mpeg"));
    assert!(is_supported_video_extension("a.WebM"));
    assert!(!is_supported_video_extension("a.txt"));
    assert!(!is_supported_video_extension("mp4"));
    assert!(!is_supported_video_extension("dir/.mp4"));
    assert!(!is_supported_video_extension("a.mp4x"));
}

#[test]
fn dialog_lists_the_video_extensions() {
    let exts = video_extensions();
    assert_eq!(
        exts,
        vec!["mp4", "avi", "mov", "mkv", "m4v", "webm", "wmv", "flv", "mpg", "mpeg"]
    );
    for e in exts {
        assert!(is_supported_video_extension(&format!("x.{}", e)));
    }
}

#[test]
fn default_output_beside_the_video() {
    assert_eq!(default_output_path("/videos/run.mp4", "png"), "/videos/run_composite.png");
    assert_eq!(default_output_path("clip.mp4", ".jpg"), "clip_composite.jpg");
    assert_eq!(default_output_path("/videos/run.mp4", ""), "/videos/run_composite.png");
    assert_eq!(default_output_path("/videos/run.mp4", "..."), "/videos/run_composite.png");
    assert_eq!(default_output_path("/", "png"), "./output_composite.png");
    assert_eq!(default_output_path("/v/a.b.mov", "jpg"), "/v/a.b_composite.jpg");
}

#[test]
fn extension_is_added_only_where_missing() {
    assert_eq!(ensure_extension("/o/out", "png"), "/o/out.png");
    assert_eq!(ensure_extension("/o/out.jpg", "png"), "/o/out.jpg");
    assert_eq!(ensure_extension("/o/out", ".jpg"), "/o/out.jpg");
    assert_eq!(ensure_extension("out", "png"), "out.png");
}

#[test]
fn output_folder_to_prepare() {
    assert_eq!(output_dir_to_prepare("/a/b/c.png"), Some("/a/b".to_string()));
    assert_eq!(output_dir_to_prepare("c.png"), None);
    assert_eq!(output_dir_to_prepare("/"), None);
}

#[test]
fn string_equality() {
    assert!(str_eq("jpeg", "jpeg"));
    assert!(!str_eq("jpeg", "jpg"));
    assert!(!str_eq("jpg", "jpG"));
    assert!(str_eq("", ""));
}
