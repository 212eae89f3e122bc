use std::path::PathBuf;
use voice2prompt::model::{
    content_length, lang_cfg, model_dir, model_url, parse_u64, path_join, progress_percent,
    unsupported_language_message, MODEL_BASE_URL, MODELS_SUBDIR,
};

#[test]
fn english_uses_the_english_tiny_model() {
    let c = lang_cfg("en").unwrap();
    assert_eq!(c.model_file, "ggml-tiny.en.bin");
    assert_eq!(c.whisper_lang, "en");
}

#[test]
fn french_uses_the_multilingual_tiny_model() {
    let c = lang_cfg("fr").unwrap();
    assert_eq!(c.model_file, "ggml-tiny.bin");
    assert_eq!(c.whisper_lang, "fr");
}

#[test]
fn other_languages_are_unsupported() {
    assert!(lang_cfg("de").is_none());
    assert!(lang_cfg("EN").is_none());
    assert!(lang_cfg(" en").is_none());
    assert!(lang_cfg("").is_none());
    assert_eq!(unsupported_language_message("de"), "unsupported lang 'de'");
}

#[test]
fn path_join_agrees_with_std() {
    let cases = [
        ("/home/ana", ".local/x"),
        ("/home/ana/", ".local/x"),
        ("", "rel"),
        (".", "rel/y"),
        ("/base", "/abs/path"),
        ("/", "a"),
        ("a", ""),
    ];
    for (base, rel) in cases.iter() {
        let expected = PathBuf::from(base).join(rel);
        assert_eq!(path_join(base, rel), expected.to_str().unwrap(), "{} + {}", base, rel);
    }
}

#[test]
fn model_dir_is_under_home() {
    assert_eq!(model_dir(Some("/home/ana")), "/home/ana/.local/share/voice2prompt/models");
    assert_eq!(model_dir(None), "./.local/share/voice2prompt/models");
    assert_eq!(MODELS_SUBDIR, ".local/share/voice2prompt/models");
}

#[test]
fn model_url_appends_the_file() {
    assert_eq!(
        model_url("ggml-tiny.en.bin"),
        "https://huggingface.co/ggerganov/whisper.cpp/resolve/main/ggml-tiny.en.bin"
    );
    assert!(model_url("x").starts_with(MODEL_BASE_URL));
}

#[test]
fn parse_u64_agrees_with_std() {
    let cases = [
        "0", "7", "+7", "-7", "", "+", "++1", " 5", "5 ", "12a", "0042",
        "18446744073709551615", "18446744073709551616", "99999999999999999999", "+18446744073709551615",
        "1_000", "٣",
    ];
    for s in cases.iter() {
        assert_eq!(parse_u64(s), s.parse::<u64>().ok(), "{:?}", s);
    }
}

#[test]
fn content_length_defaults_to_zero() {
    assert_eq!(content_length(Some("77737494")), 77737494);
    assert_eq!(content_length(Some("abc")), 0);
    assert_eq!(content_length(None), 0);
}

#[test]
fn progress_is_a_rounded_down_percentage() {
    assert_eq!(progress_percent(0, 200), 0);
    assert_eq!(progress_percent(1, 200), 0);
    assert_eq!(progress_percent(3, 200), 1);
    assert_eq!(progress_percent(199, 200), 99);
    assert_eq!(progress_percent(200, 200), 100);
    assert_eq!(progress_percent(8192, 77737494), 0);
    assert_eq!(progress_percent(38868747, 77737494), 50);
    assert_eq!(progress_percent(38868746, 77737494), 49);
}
