use nexspot::paddle::{
    archive_kind, archive_kind_of_lowercase, assemble_full_text, choose_asset, config_file_name, download_file_name, is_ready_line,
    language_from_config_name, launch_args, languages_from_model_files, opt_string_eq,
    paddle_status, reply_status, request_line, reuse_process, select_asset_url, update_info,
    version_from_file, ArchiveKind, DownloadProgress, InitStep, InitWatch,
};

fn strings(v: &[&str]) -> Vec<String> {
    v.iter().map(|s| s.to_string()).collect()
}

#[test]
fn version_file_is_trimmed_and_blank_means_unknown() {
    assert_eq!(version_from_file(Some(" v1.4.1 \n".to_string())), Some("v1.4.1".to_string()));
    assert_eq!(version_from_file(Some(" \t\n".to_string())), None);
    assert_eq!(version_from_file(Some(String::new())), None);
    assert_eq!(version_from_file(None), None);
}

#[test]
fn config_file_names_give_languages() {
    assert_eq!(language_from_config_name("config_chinese.txt"), Some("chinese".to_string()));
    assert_eq!(language_from_config_name("config_chinese_cht.txt"), Some("chinese_cht".to_string()));
    assert_eq!(language_from_config_name("config_.txt"), Some(String::new()));
    assert_eq!(language_from_config_name("config_txt"), None);
    assert_eq!(language_from_config_name("config_en.TXT"), None);
    assert_eq!(language_from_config_name("models.txt"), None);
    assert_eq!(language_from_config_name("config_"), None);
}

#[test]
fn languages_are_collected_and_sorted() {
    let files = strings(&["config_japan.txt", "det.onnx", "config_en.txt", "config_chinese.txt"]);
    assert_eq!(languages_from_model_files(&files), strings(&["chinese", "en", "japan"]));
}

#[test]
fn status_of_installed_component() {
    let files = strings(&["config_korean.txt", "config_en.txt"]);
    let s = paddle_status("C:/ocr".to_string(), true, Some("v1.4.1\n".to_string()), &files);
    assert!(s.installed);
    assert_eq!(s.dir, "C:/ocr");
    assert_eq!(s.version, Some("v1.4.1".to_string()));
    assert_eq!(s.languages, strings(&["en", "korean"]));
}

#[test]
fn status_of_missing_component() {
    let files = strings(&["config_en.txt"]);
    let s = paddle_status("C:/ocr".to_string(), false, Some("v1".to_string()), &files);
    assert!(!s.installed);
    assert_eq!(s.dir, "C:/ocr");
    assert_eq!(s.version, None);
    assert!(s.languages.is_empty());
}

#[test]
fn update_is_offered_only_for_a_different_release() {
    let same = update_info(Some("v1.4.1".to_string()), Some("v1.4.1".to_string()));
    assert!(!same.has_update);
    let newer = update_info(Some("v1.4.0".to_string()), Some("v1.4.1".to_string()));
    assert!(newer.has_update);
    assert_eq!(newer.current, Some("v1.4.0".to_string()));
    assert_eq!(newer.latest, Some("v1.4.1".to_string()));
    let fresh = update_info(None, Some("v1.4.1".to_string()));
    assert!(fresh.has_update);
    let offline = update_info(Some("v1.4.0".to_string()), None);
    assert!(!offline.has_update);
    assert_eq!(offline.latest, None);
}

#[test]
fn optional_strings_compare_by_content() {
    assert!(opt_string_eq(&None, &None));
    assert!(opt_string_eq(&Some("a".to_string()), &Some("a".to_string())));
    assert!(!opt_string_eq(&Some("a".to_string()), &None));
}

#[test]
fn windows_seven_zip_asset_is_preferred() {
    let urls = strings(&[
        "https://x/PaddleOCR-json_Source.zip",
        "https://x/PaddleOCR-json_linux_x64.7z",
        "https://x/PaddleOCR-json_win_x64.zip",
        "https://x/PaddleOCR-json_win_x64.7z",
        "https://x/PaddleOCR-json_docker.zip",
        "https://x/notes.txt",
    ]);
    assert_eq!(select_asset_url(&urls), Ok("https://x/PaddleOCR-json_win_x64.7z".to_string()));
}

#[test]
fn asset_names_are_judged_in_lowercase() {
    let urls = strings(&["https://x/A.ZIP", "https://x/PADDLE_WIN.7Z", "https://x/LINUX_WIN.7Z"]);
    assert_eq!(select_asset_url(&urls), Ok("https://x/PADDLE_WIN.7Z".to_string()));
}

#[test]
fn last_of_equally_ranked_assets_is_chosen() {
    let urls = strings(&["https://x/one.zip", "https://x/two.zip"]);
    assert_eq!(select_asset_url(&urls), Ok("https://x/two.zip".to_string()));
}

#[test]
fn no_suitable_asset_is_an_error() {
    let urls = strings(&["https://x/src_source.zip", "https://x/linux.7z", "https://x/readme.md"]);
    assert_eq!(
        select_asset_url(&urls),
        Err("no suitable windows asset in latest release".to_string())
    );
    assert_eq!(
        select_asset_url(&Vec::new()),
        Err("no suitable windows asset in latest release".to_string())
    );
}

#[test]
fn archive_kind_and_download_name() {
    assert_eq!(archive_kind("https://x/P.7Z"), ArchiveKind::SevenZip);
    assert_eq!(archive_kind("https://x/p.zip"), ArchiveKind::Zip);
    assert_eq!(archive_kind("https://x/p"), ArchiveKind::Zip);
    assert_eq!(download_file_name("v1.4.1", ArchiveKind::SevenZip), "nexspot_paddle_v1.4.1.7z");
    assert_eq!(download_file_name("v2", ArchiveKind::Zip), "nexspot_paddle_v2.zip");
}

#[test]
fn progress_events_are_throttled_to_half_a_mebibyte() {
    let mut p = DownloadProgress::new();
    assert!(!p.add_chunk(100_000));
    assert_eq!(p.downloaded, 100_000);
    assert_eq!(p.last_emit, 0);
    assert!(p.add_chunk(500_000));
    assert_eq!(p.last_emit, 600_000);
    assert!(!p.add_chunk(524_288));
    assert_eq!(p.downloaded, 1_124_288);
    assert!(p.add_chunk(1));
    assert_eq!(p.last_emit, 1_124_289);
    assert!(p.last_emit <= p.downloaded);
}

#[test]
fn recognizer_start_up_arguments() {
    assert_eq!(config_file_name("japan"), "config_japan.txt");
    assert_eq!(
        launch_args("C:/p/models", "C:/p/models/config_en.txt"),
        strings(&["-models_path=C:/p/models", "-config_path=C:/p/models/config_en.txt", "-ensure_ascii=0"])
    );
}

#[test]
fn running_recognizer_is_reused_only_for_the_same_language() {
    assert!(reuse_process("en", false, "en"));
    assert!(!reuse_process("en", true, "en"));
    assert!(!reuse_process("en", false, "japan"));
}

#[test]
fn ready_signal_detection() {
    assert!(is_ready_line("OCR init completed."));
    assert!(is_ready_line("[info] OCR initialization completed\n"));
    assert!(!is_ready_line("loading models"));
}

#[test]
fn start_up_watch_gives_up_after_two_hundred_lines() {
    let mut w = InitWatch::new();
    for _ in 0..199 {
        assert_eq!(w.observe(Some("loading")), InitStep::WaitMore);
    }
    assert_eq!(w.observe(Some("still loading")), InitStep::Failed);
    assert_eq!(w.lines_read, 200);
}

#[test]
fn start_up_watch_outcomes() {
    let mut w = InitWatch::new();
    assert_eq!(w.observe(Some("x")), InitStep::WaitMore);
    assert_eq!(w.observe(Some("OCR init completed")), InitStep::Ready);
    let mut e = InitWatch::new();
    assert_eq!(e.observe(None), InitStep::Failed);
    assert_eq!(e.lines_read, 0);
}

#[test]
fn request_line_carries_base64_png() {
    assert_eq!(request_line(b"hi"), "{\"image_base64\":\"aGk=\"}");
    assert_eq!(request_line(&[0, 1, 2, 3]), "{\"image_base64\":\"AAECAw==\"}");
}

#[test]
fn reply_codes() {
    assert_eq!(reply_status(Some(100), "[]"), Ok(()));
    assert_eq!(reply_status(Some(101), ""), Err("No text detected in selection".to_string()));
    assert_eq!(
        reply_status(Some(200), "\"image decode failed\""),
        Err("PaddleOCR error 200: \"image decode failed\"".to_string())
    );
    assert_eq!(reply_status(None, ""), Err("PaddleOCR error -1: ".to_string()));
}

#[test]
fn full_text_keeps_lines_with_text_and_width() {
    let texts = strings(&["a", "", "b", "c"]);
    let extents = vec![true, true, false, true];
    assert_eq!(assemble_full_text(&texts, &extents), Ok(("a\nc".to_string(), vec![0usize, 3])));
}

#[test]
fn blank_full_text_is_no_text() {
    let err = Err("No text detected in selection".to_string());
    assert_eq!(assemble_full_text(&strings(&["x"]), &vec![false]), err);
    assert_eq!(assemble_full_text(&strings(&["  ", "\t"]), &vec![true, true]), err);
    assert_eq!(assemble_full_text(&Vec::new(), &Vec::new()), err);
}

#[test]
fn launched_configuration_lists_its_language() {
    for lang in ["japan", "chinese_cht", "", "x.txt"].iter() {
        assert_eq!(language_from_config_name(&config_file_name(lang)), Some(lang.to_string()));
    }
}

#[test]
fn asset_choice_on_lowercased_urls() {
    let lower = strings(&["a/win.zip", "a/win.7z", "a/linux.7z", "a/x.zip"]);
    assert_eq!(choose_asset(&lower), Some(1));
    let upper_kept = strings(&["a/WIN.7Z"]);
    assert_eq!(choose_asset(&upper_kept), None);
    assert_eq!(choose_asset(&strings(&["a/b.zip", "a/c.zip"])), Some(1));
    assert_eq!(archive_kind_of_lowercase("x.7z"), ArchiveKind::SevenZip);
    assert_eq!(archive_kind_of_lowercase("x.7Z"), ArchiveKind::Zip);
}
