//! The speech model: which model file and language each supported
//! dictation language uses, where the model is stored and fetched from, and
//! the arithmetic of the download progress.
use vstd::prelude::*;
use crate::text::{concat_str, str_eq};

verus! {

/// Where the model files are published.
pub const MODEL_BASE_URL: &'static str = "https://huggingface.co/ggerganov/whisper.cpp/resolve/main";

/// Directory of the model files, relative to the home directory.
pub const MODELS_SUBDIR: &'static str = ".local/share/voice2prompt/models";

/// The model file and recogniser language of a dictation language.
#[derive(Clone, Copy, Debug)]
pub struct LangCfg {
    pub model_file: &'static str,
    pub whisper_lang: &'static str,
}

/// The model file and recogniser language of a supported dictation
/// language: English uses the English-only tiny model, French the
/// multilingual tiny model.
pub open spec fn lang_cfg_of(lang: Seq<char>) -> Option<(Seq<char>, Seq<char>)> {
    if lang == "en"@ {
        Some(("ggml-tiny.en.bin"@, "en"@))
    } else if lang == "fr"@ {
        Some(("ggml-tiny.bin"@, "fr"@))
    } else {
        None
    }
}

/// The configuration of a dictation language, or `None` when it is not
/// supported.
pub fn lang_cfg(lang: &str) -> (cfg: Option<LangCfg>)
    ensures
        cfg is Some <==> lang_cfg_of(lang@) is Some,
        cfg matches Some(c) ==> lang_cfg_of(lang@) == Some((c.model_file@, c.whisper_lang@)),
{
    if str_eq(lang, "en") {
        Some(LangCfg { model_file: "ggml-tiny.en.bin", whisper_lang: "en" })
    } else if str_eq(lang, "fr") {
        Some(LangCfg { model_file: "ggml-tiny.bin", whisper_lang: "fr" })
    } else {
        None
    }
}

/// The error reported for a dictation language without a model.
pub fn unsupported_language_message(lang: &str) -> (m: String)
    ensures
        m@ == "unsupported lang '"@ + lang@ + "'"@,
{
    let mut m = String::from_str("unsupported lang '");
    m.append(lang);
    m.append("'");
    m
}

/// `base` extended by the path `rel`, as `Path::join` does on Unix: an
/// absolute `rel` replaces `base`; otherwise a separator is inserted unless
/// `base` is empty or already ends with one.
pub open spec fn joined_path(base: Seq<char>, rel: Seq<char>) -> Seq<char> {
    if rel.len() > 0 && rel[0] == '/' {
        rel
    } else if base.len() == 0 || base.last() == '/' {
        base + rel
    } else {
        base + "/"@ + rel
    }
}

/// `base` extended by the path `rel` (Unix path rules).
pub fn path_join(base: &str, rel: &str) -> (p: String)
    ensures
        p@ == joined_path(base@, rel@),
{
    proof {
        reveal_strlit("/");
    }
    let rel_len = rel.unicode_len();
    if rel_len > 0 && rel.get_char(0) == '/' {
        return String::from_str(rel);
    }
    let base_len = base.unicode_len();
    if base_len == 0 || base.get_char(base_len - 1) == '/' {
        concat_str(base, rel)
    } else {
        let mut p = String::from_str(base);
        p.append("/");
        p.append(rel);
        p
    }
}

/// The directory holding the models, under the home directory, or under
/// the working directory when the home directory is unknown.
pub open spec fn model_dir_of(home: Option<Seq<char>>) -> Seq<char> {
    joined_path(
        match home {
            Some(h) => h,
            None => "."@,
        },
        MODELS_SUBDIR@,
    )
}

/// The directory holding the models.
pub fn model_dir(home: Option<&str>) -> (dir: String)
    ensures
        dir@ == model_dir_of(
            match home {
                Some(h) => Some(h@),
                None => None,
            },
        ),
{
    match home {
        Some(h) => path_join(h, MODELS_SUBDIR),
        None => path_join(".", MODELS_SUBDIR),
    }
}

/// Where a model file is published.
pub fn model_url(model_file: &str) -> (url: String)
    ensures
        url@ == MODEL_BASE_URL@ + "/"@ + model_file@,
{
    let mut url = String::from_str(MODEL_BASE_URL);
    url.append("/");
    url.append(model_file);
    url
}

/// Whether `c` is an ASCII decimal digit.
pub open spec fn is_digit(c: char) -> bool {
    '0' <= c <= '9'
}

/// The value of a string of decimal digits.
pub open spec fn decimal_value(ds: Seq<char>) -> nat
    decreases ds.len(),
{
    if ds.len() == 0 {
        0
    } else {
        decimal_value(ds.drop_last()) * 10 + ((ds.last() as u32 - '0' as u32) as nat)
    }
}

/// The digits of a number text: an optional leading `+` is skipped.
pub open spec fn unsigned_digits(s: Seq<char>) -> Seq<char> {
    if s.len() > 0 && s[0] == '+' {
        s.drop_first()
    } else {
        s
    }
}

/// What `u64::from_str` accepts: an optional `+`, then one or more decimal
/// digits whose value fits in 64 bits; nothing else, no whitespace.
pub open spec fn parsed_u64(s: Seq<char>) -> Option<u64> {
    let ds = unsigned_digits(s);
    if ds.len() > 0 && (forall|i: int| 0 <= i < ds.len() ==> is_digit(#[trigger] ds[i]))
        && decimal_value(ds) <= u64::MAX {
        Some(decimal_value(ds) as u64)
    } else {
        None
    }
}

proof fn lemma_decimal_prefix_le(ds: Seq<char>, k: int)
    requires
        0 <= k <= ds.len(),
        forall|i: int| 0 <= i < ds.len() ==> is_digit(#[trigger] ds[i]),
    ensures
        decimal_value(ds.take(k)) <= decimal_value(ds),
    decreases ds.len() - k,
{
    if k < ds.len() {
        assert(ds.drop_last().take(k) =~= ds.take(k));
        assert forall|i: int| 0 <= i < ds.drop_last().len() implies is_digit(#[trigger] ds.drop_last()[i]) by {
            assert(ds.drop_last()[i] == ds[i]);
        }
        lemma_decimal_prefix_le(ds.drop_last(), k);
        let v = decimal_value(ds.drop_last());
        assert(v <= v * 10) by (nonlinear_arith);
    } else {
        assert(ds.take(k) =~= ds);
    }
}

/// Parses an unsigned 64-bit number as `u64::from_str` does.
pub fn parse_u64(s: &str) -> (r: Option<u64>)
    ensures
        r == parsed_u64(s@),
{
    let n = s.unicode_len();
    let mut start: usize = 0;
    if n > 0 && s.get_char(0) == '+' {
        start = 1;
    }
    let ghost ds = unsigned_digits(s@);
    assert(ds =~= s@.skip(start as int));
    if start == n {
        return None;
    }
    let mut value: u64 = 0;
    let mut i: usize = start;
    while i < n
        invariant
            start <= i <= n,
            n == s@.len(),
            ds == s@.skip(start as int),
            ds == unsigned_digits(s@),
            forall|k: int| 0 <= k < i - start ==> is_digit(#[trigger] ds[k]),
            value as nat == decimal_value(ds.take(i - start)),
        decreases n - i,
    {
        let c = s.get_char(i);
        assert(c == ds[i - start]);
        if !('0' <= c && c <= '9') {
            return None;
        }
        let d = (c as u32 - '0' as u32) as u64;
        assert(ds.take(i - start + 1).drop_last() =~= ds.take(i - start));
        assert(ds.take(i - start + 1).last() == c);
        if value > (u64::MAX - d) / 10 {
            proof {
                assert(value * 10 + d > u64::MAX) by (nonlinear_arith)
                    requires
                        value > (u64::MAX - d) / 10,
                        d <= 9,
                ;
                assert(decimal_value(ds.take(i - start + 1)) == value * 10 + d);
                if forall|k: int| 0 <= k < ds.len() ==> is_digit(#[trigger] ds[k]) {
                    lemma_decimal_prefix_le(ds, i - start + 1);
                }
            }
            return None;
        }
        assert(value * 10 + d <= u64::MAX) by (nonlinear_arith)
            requires
                value <= (u64::MAX - d) / 10,
                d <= 9,
        ;
        value = value * 10 + d;
        i = i + 1;
    }
    assert(ds.take(n - start) =~= ds);
    Some(value)
}

/// The announced size of a download: the value of its `Content-Length`
/// header, or 0 when the header is missing or not a number.
pub open spec fn content_length_of(header: Option<Seq<char>>) -> u64 {
    match header {
        Some(h) => match parsed_u64(h) {
            Some(v) => v,
            None => 0,
        },
        None => 0,
    }
}

/// The announced size of a download, 0 when unknown.
pub fn content_length(header: Option<&str>) -> (n: u64)
    ensures
        n == content_length_of(
            match header {
                Some(h) => Some(h@),
                None => None,
            },
        ),
{
    match header {
        Some(h) => match parse_u64(h) {
            Some(v) => v,
            None => 0,
        },
        None => 0,
    }
}

/// The whole percentage of a download that is done, rounded down. A
/// download of known size never reports more than 100 percent while no
/// more than the announced size has arrived.
pub fn progress_percent(done: u64, total: u64) -> (p: u64)
    requires
        total > 0,
        done * 100 <= u64::MAX,
    ensures
        p as int == (done as int * 100) / (total as int),
        done <= total ==> p <= 100,
{
    let p = done * 100 / total;
    proof {
        let d = done as int;
        let t = total as int;
        assert(d <= t ==> (d * 100) / t <= 100) by (nonlinear_arith)
            requires
                t > 0,
        {
            if d <= t {
                assert(d * 100 <= t * 100);
                assert((t * 100) / t == 100);
            }
        }
    }
    p
}

} // verus!
