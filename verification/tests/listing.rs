use hook_notify::listing::{extension_in, file_extension, sorted_with_extension};

#[test]
fn extensions_as_path_reads_them() {
    assert_eq!(file_extension("bell.mp3").as_deref(), Some("mp3"));
    assert_eq!(file_extension("a.tar.gz").as_deref(), Some("gz"));
    assert_eq!(file_extension(".mp3"), None);
    assert_eq!(file_extension("..mp3").as_deref(), Some("mp3"));
    assert_eq!(file_extension("noext"), None);
    assert_eq!(file_extension("trailing.").as_deref(), Some(""));
    assert_eq!(file_extension(".."), None);
}

#[test]
fn sound_names_filtered_and_sorted() {
    let names: Vec<String> = ["zap.wav", "README.md", "alert.mp3", "Beep.ogg", ".hidden.mp3x", "ding.aiff", "x.aac", "song.MP3"]
        .iter()
        .map(|s| s.to_string())
        .collect();
    let exts = vec!["mp3", "wav", "ogg", "aiff", "aac"];
    let r = sorted_with_extension(&names, &exts);
    assert_eq!(r, vec!["Beep.ogg", "alert.mp3", "ding.aiff", "x.aac", "zap.wav"]);
    assert!(extension_in("a.aiff", &vec!["aiff"]));
    assert!(!extension_in("a.wav", &vec!["aiff"]));
}
