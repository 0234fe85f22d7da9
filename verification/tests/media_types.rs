use media_classifier::media_types::{
    get_media_info, is_audio_extension, is_image_extension, is_media_extension,
    is_video_extension, MediaType,
};

#[test]
fn test_image_extensions() {
    assert!(is_image_extension("jpg"));
    assert!(is_image_extension("nef"));
    assert!(is_image_extension("cr2"));
    assert!(!is_image_extension("mp4"));
}

#[test]
fn test_video_extensions() {
    assert!(is_video_extension("mp4"));
    assert!(is_video_extension("mov"));
    assert!(!is_video_extension("jpg"));
}

#[test]
fn test_audio_extensions() {
    assert!(is_audio_extension("mp3"));
    assert!(is_audio_extension("flac"));
    assert!(!is_audio_extension("jpg"));
}

#[test]
fn every_listed_extension_is_known() {
    let images = [
        "jpg", "jpeg", "png", "gif", "tiff", "tif", "bmp", "webp", "heic", "heif", "nef", "nrw",
        "cr2", "cr3", "crw", "arw", "srf", "sr2", "dng", "orf", "pef", "raf", "rw2", "3fr", "iiq",
        "mef", "mos", "erf", "k25", "kdc", "dcr", "dcs",
    ];
    let videos = [
        "mp4", "m4v", "mov", "qt", "avi", "mkv", "webm", "wmv", "flv", "f4v", "mts", "m2ts",
        "3gp", "3g2", "mpg", "mpeg", "mpe", "mpv", "ogv", "vob",
    ];
    let audios = [
        "flac", "wav", "aiff", "alac", "ape", "mp3", "aac", "m4a", "ogg", "oga", "opus", "wma",
        "m4b", "amr",
    ];
    for ext in images {
        assert!(is_image_extension(ext) && !is_video_extension(ext) && !is_audio_extension(ext));
        assert!(is_media_extension(ext));
    }
    for ext in videos {
        assert!(!is_image_extension(ext) && is_video_extension(ext) && !is_audio_extension(ext));
        assert!(is_media_extension(ext));
    }
    for ext in audios {
        assert!(!is_image_extension(ext) && !is_video_extension(ext) && is_audio_extension(ext));
        assert!(is_media_extension(ext));
    }
}

#[test]
fn extensions_are_told_in_lower_case_only() {
    assert!(!is_image_extension("JPG"));
    assert!(!is_video_extension("Mp4"));
    assert!(!is_audio_extension("MP3"));
    assert!(!is_media_extension(""));
    assert!(!is_media_extension("txt"));
    assert!(!is_media_extension("jpg "));
}

#[test]
fn media_info_has_the_kind_and_the_upper_case_extension() {
    let info = get_media_info("photo.jpg").unwrap();
    assert_eq!(info.media_type, MediaType::Image);
    assert_eq!(info.extension, "JPG");

    let info = get_media_info("Holiday.Clip.MoV").unwrap();
    assert_eq!(info.media_type, MediaType::Video);
    assert_eq!(info.extension, "MOV");

    let info = get_media_info("song.flac").unwrap();
    assert_eq!(info.media_type, MediaType::Audio);
    assert_eq!(info.extension, "FLAC");

    let info = get_media_info("DSC_1234.NEF").unwrap();
    assert_eq!(info.media_type, MediaType::Image);
    assert_eq!(info.extension, "NEF");
}

#[test]
fn media_info_is_none_without_a_media_extension() {
    assert!(get_media_info("notes.txt").is_none());
    assert!(get_media_info("jpg").is_none());
    assert!(get_media_info(".jpg").is_none());
    assert!(get_media_info("photo.").is_none());
    assert!(get_media_info("photo.jpg.bak").is_none());
    assert!(get_media_info("").is_none());
    assert!(get_media_info("..").is_none());
}

#[test]
fn media_type_names() {
    assert_eq!(MediaType::Image.name(), "Image");
    assert_eq!(MediaType::Video.name(), "Video");
    assert_eq!(MediaType::Audio.name(), "Audio");
}

#[test]
fn extensions_of_ascii_letters_are_raised_letter_by_letter() {
    for name in ["a.jpg", "a.JPG", "a.Jpg", "a.jPg"] {
        assert_eq!(get_media_info(name).unwrap().extension, "JPG");
    }
    assert_eq!(get_media_info("x.3gp").unwrap().extension, "3GP");
    assert_eq!(get_media_info("x.m2ts").unwrap().extension, "M2TS");
}
