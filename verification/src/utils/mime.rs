//! MIME type detection by file extension.
use vstd::prelude::*;
use vstd::string::*;
use crate::strmap::{lemma_put, put, unique_keys, value_of, Pairs, StrMap};
use crate::text::{chars_of, lower, slice_of, starts_with_str, string_of, to_lower};

verus! {

/// `t` with the types of text files.
pub open spec fn with_text_types(t: Pairs) -> Pairs {
    let t0 = put(t, "html"@, "text/html; charset=utf-8"@);
    let t1 = put(t0, "htm"@, "text/html; charset=utf-8"@);
    let t2 = put(t1, "css"@, "text/css; charset=utf-8"@);
    let t3 = put(t2, "js"@, "application/javascript; charset=utf-8"@);
    let t4 = put(t3, "json"@, "application/json; charset=utf-8"@);
    let t5 = put(t4, "xml"@, "application/xml; charset=utf-8"@);
    let t6 = put(t5, "txt"@, "text/plain; charset=utf-8"@);
    let t7 = put(t6, "md"@, "text/markdown; charset=utf-8"@);
    let t8 = put(t7, "csv"@, "text/csv; charset=utf-8"@);
    t8
}

/// `t` with the types of images.
pub open spec fn with_image_types(t: Pairs) -> Pairs {
    let t0 = put(t, "png"@, "image/png"@);
    let t1 = put(t0, "jpg"@, "image/jpeg"@);
    let t2 = put(t1, "jpeg"@, "image/jpeg"@);
    let t3 = put(t2, "gif"@, "image/gif"@);
    let t4 = put(t3, "svg"@, "image/svg+xml"@);
    let t5 = put(t4, "ico"@, "image/x-icon"@);
    let t6 = put(t5, "webp"@, "image/webp"@);
    let t7 = put(t6, "bmp"@, "image/bmp"@);
    let t8 = put(t7, "tiff"@, "image/tiff"@);
    t8
}

/// `t` with the types of audio files.
pub open spec fn with_audio_types(t: Pairs) -> Pairs {
    let t0 = put(t, "mp3"@, "audio/mpeg"@);
    let t1 = put(t0, "wav"@, "audio/wav"@);
    let t2 = put(t1, "ogg"@, "audio/ogg"@);
    let t3 = put(t2, "m4a"@, "audio/mp4"@);
    let t4 = put(t3, "flac"@, "audio/flac"@);
    t4
}

/// `t` with the types of video files.
pub open spec fn with_video_types(t: Pairs) -> Pairs {
    let t0 = put(t, "mp4"@, "video/mp4"@);
    let t1 = put(t0, "avi"@, "video/x-msvideo"@);
    let t2 = put(t1, "mov"@, "video/quicktime"@);
    let t3 = put(t2, "wmv"@, "video/x-ms-wmv"@);
    let t4 = put(t3, "webm"@, "video/webm"@);
    t4
}

/// `t` with the types of documents.
pub open spec fn with_document_types(t: Pairs) -> Pairs {
    let t0 = put(t, "pdf"@, "application/pdf"@);
    let t1 = put(t0, "doc"@, "application/msword"@);
    let t2 = put(t1, "docx"@, "application/vnd.openxmlformats-officedocument.wordprocessingml.document"@);
    let t3 = put(t2, "xls"@, "application/vnd.ms-excel"@);
    let t4 = put(t3, "xlsx"@, "application/vnd.openxmlformats-officedocument.spreadsheetml.sheet"@);
    let t5 = put(t4, "ppt"@, "application/vnd.ms-powerpoint"@);
    let t6 = put(t5, "pptx"@, "application/vnd.openxmlformats-officedocument.presentationml.presentation"@);
    t6
}

/// `t` with the types of archives.
pub open spec fn with_archive_types(t: Pairs) -> Pairs {
    let t0 = put(t, "zip"@, "application/zip"@);
    let t1 = put(t0, "tar"@, "application/x-tar"@);
    let t2 = put(t1, "gz"@, "application/gzip"@);
    let t3 = put(t2, "bz2"@, "application/x-bzip2"@);
    let t4 = put(t3, "7z"@, "application/x-7z-compressed"@);
    let t5 = put(t4, "rar"@, "application/vnd.rar"@);
    t5
}

/// `t` with the types of fonts.
pub open spec fn with_font_types(t: Pairs) -> Pairs {
    let t0 = put(t, "ttf"@, "font/ttf"@);
    let t1 = put(t0, "otf"@, "font/otf"@);
    let t2 = put(t1, "woff"@, "font/woff"@);
    let t3 = put(t2, "woff2"@, "font/woff2"@);
    t3
}

/// `t` with the types of program sources.
pub open spec fn with_source_types(t: Pairs) -> Pairs {
    let t0 = put(t, "py"@, "text/x-python"@);
    let t1 = put(t0, "rs"@, "text/x-rust"@);
    let t2 = put(t1, "c"@, "text/x-c"@);
    let t3 = put(t2, "cpp"@, "text/x-c++"@);
    let t4 = put(t3, "h"@, "text/x-c"@);
    let t5 = put(t4, "java"@, "text/x-java"@);
    let t6 = put(t5, "php"@, "text/x-php"@);
    let t7 = put(t6, "rb"@, "text/x-ruby"@);
    let t8 = put(t7, "go"@, "text/x-go"@);
    t8
}

/// The table that a detector starts with.
pub open spec fn default_types() -> Pairs {
    with_source_types(with_font_types(with_archive_types(with_document_types(with_video_types(with_audio_types(with_image_types(with_text_types(Seq::<(Seq<char>, Seq<char>)>::empty()))))))))
}

/// The text types give `txt` as plain text.
proof fn lemma_text_types_txt(t: Pairs)
    requires
        unique_keys(t),
    ensures
        unique_keys(with_text_types(t)),
        value_of(with_text_types(t), "txt"@) == Some("text/plain; charset=utf-8"@),
{
    let q = "txt"@;
    reveal_strlit("txt");
    reveal_strlit("md");
    reveal_strlit("csv");
    assert("md"@.len() != q.len());
    assert("csv"@[0] != q[0]);
    assert forall|s: Pairs, k: Seq<char>, v: Seq<char>| unique_keys(s) implies unique_keys(
        #[trigger] put(s, k, v),
    ) && value_of(put(s, k, v), q) == if q == k {
        Some(v)
    } else {
        value_of(s, q)
    } by {
        lemma_put(s, k, v, q);
    }
}

/// None of the image types stands for `txt`.
proof fn lemma_image_types_txt(t: Pairs)
    requires
        unique_keys(t),
    ensures
        unique_keys(with_image_types(t)),
        value_of(with_image_types(t), "txt"@) == value_of(t, "txt"@),
{
    let q = "txt"@;
    reveal_strlit("txt");
    reveal_strlit("png");
    reveal_strlit("jpg");
    reveal_strlit("jpeg");
    reveal_strlit("gif");
    reveal_strlit("svg");
    reveal_strlit("ico");
    reveal_strlit("webp");
    reveal_strlit("bmp");
    reveal_strlit("tiff");
    assert("png"@[0] != q[0]);
    assert("jpg"@[0] != q[0]);
    assert("jpeg"@.len() != q.len());
    assert("gif"@[0] != q[0]);
    assert("svg"@[0] != q[0]);
    assert("ico"@[0] != q[0]);
    assert("webp"@.len() != q.len());
    assert("bmp"@[0] != q[0]);
    assert("tiff"@.len() != q.len());
    assert forall|s: Pairs, k: Seq<char>, v: Seq<char>| unique_keys(s) implies unique_keys(
        #[trigger] put(s, k, v),
    ) && value_of(put(s, k, v), q) == if q == k {
        Some(v)
    } else {
        value_of(s, q)
    } by {
        lemma_put(s, k, v, q);
    }
}

/// None of the audio types stands for `txt`.
proof fn lemma_audio_types_txt(t: Pairs)
    requires
        unique_keys(t),
    ensures
        unique_keys(with_audio_types(t)),
        value_of(with_audio_types(t), "txt"@) == value_of(t, "txt"@),
{
    let q = "txt"@;
    reveal_strlit("txt");
    reveal_strlit("mp3");
    reveal_strlit("wav");
    reveal_strlit("ogg");
    reveal_strlit("m4a");
    reveal_strlit("flac");
    assert("mp3"@[0] != q[0]);
    assert("wav"@[0] != q[0]);
    assert("ogg"@[0] != q[0]);
    assert("m4a"@[0] != q[0]);
    assert("flac"@.len() != q.len());
    assert forall|s: Pairs, k: Seq<char>, v: Seq<char>| unique_keys(s) implies unique_keys(
        #[trigger] put(s, k, v),
    ) && value_of(put(s, k, v), q) == if q == k {
        Some(v)
    } else {
        value_of(s, q)
    } by {
        lemma_put(s, k, v, q);
    }
}

/// None of the video types stands for `txt`.
proof fn lemma_video_types_txt(t: Pairs)
    requires
        unique_keys(t),
    ensures
        unique_keys(with_video_types(t)),
        value_of(with_video_types(t), "txt"@) == value_of(t, "txt"@),
{
    let q = "txt"@;
    reveal_strlit("txt");
    reveal_strlit("mp4");
    reveal_strlit("avi");
    reveal_strlit("mov");
    reveal_strlit("wmv");
    reveal_strlit("webm");
    assert("mp4"@[0] != q[0]);
    assert("avi"@[0] != q[0]);
    assert("mov"@[0] != q[0]);
    assert("wmv"@[0] != q[0]);
    assert("webm"@.len() != q.len());
    assert forall|s: Pairs, k: Seq<char>, v: Seq<char>| unique_keys(s) implies unique_keys(
        #[trigger] put(s, k, v),
    ) && value_of(put(s, k, v), q) == if q == k {
        Some(v)
    } else {
        value_of(s, q)
    } by {
        lemma_put(s, k, v, q);
    }
}

/// None of the document types stands for `txt`.
proof fn lemma_document_types_txt(t: Pairs)
    requires
        unique_keys(t),
    ensures
        unique_keys(with_document_types(t)),
        value_of(with_document_types(t), "txt"@) == value_of(t, "txt"@),
{
    let q = "txt"@;
    reveal_strlit("txt");
    reveal_strlit("pdf");
    reveal_strlit("doc");
    reveal_strlit("docx");
    reveal_strlit("xls");
    reveal_strlit("xlsx");
    reveal_strlit("ppt");
    reveal_strlit("pptx");
    assert("pdf"@[0] != q[0]);
    assert("doc"@[0] != q[0]);
    assert("docx"@.len() != q.len());
    assert("xls"@[0] != q[0]);
    assert("xlsx"@.len() != q.len());
    assert("ppt"@[0] != q[0]);
    assert("pptx"@.len() != q.len());
    assert forall|s: Pairs, k: Seq<char>, v: Seq<char>| unique_keys(s) implies unique_keys(
        #[trigger] put(s, k, v),
    ) && value_of(put(s, k, v), q) == if q == k {
        Some(v)
    } else {
        value_of(s, q)
    } by {
        lemma_put(s, k, v, q);
    }
}

/// None of the archive types stands for `txt`.
proof fn lemma_archive_types_txt(t: Pairs)
    requires
        unique_keys(t),
    ensures
        unique_keys(with_archive_types(t)),
        value_of(with_archive_types(t), "txt"@) == value_of(t, "txt"@),
{
    let q = "txt"@;
    reveal_strlit("txt");
    reveal_strlit("zip");
    reveal_strlit("tar");
    reveal_strlit("gz");
    reveal_strlit("bz2");
    reveal_strlit("7z");
    reveal_strlit("rar");
    assert("zip"@[0] != q[0]);
    assert("tar"@[1] != q[1]);
    assert("gz"@.len() != q.len());
    assert("bz2"@[0] != q[0]);
    assert("7z"@.len() != q.len());
    assert("rar"@[0] != q[0]);
    assert forall|s: Pairs, k: Seq<char>, v: Seq<char>| unique_keys(s) implies unique_keys(
        #[trigger] put(s, k, v),
    ) && value_of(put(s, k, v), q) == if q == k {
        Some(v)
    } else {
        value_of(s, q)
    } by {
        lemma_put(s, k, v, q);
    }
}

/// None of the font types stands for `txt`.
proof fn lemma_font_types_txt(t: Pairs)
    requires
        unique_keys(t),
    ensures
        unique_keys(with_font_types(t)),
        value_of(with_font_types(t), "txt"@) == value_of(t, "txt"@),
{
    let q = "txt"@;
    reveal_strlit("txt");
    reveal_strlit("ttf");
    reveal_strlit("otf");
    reveal_strlit("woff");
    reveal_strlit("woff2");
    assert("ttf"@[1] != q[1]);
    assert("otf"@[0] != q[0]);
    assert("woff"@.len() != q.len());
    assert("woff2"@.len() != q.len());
    assert forall|s: Pairs, k: Seq<char>, v: Seq<char>| unique_keys(s) implies unique_keys(
        #[trigger] put(s, k, v),
    ) && value_of(put(s, k, v), q) == if q == k {
        Some(v)
    } else {
        value_of(s, q)
    } by {
        lemma_put(s, k, v, q);
    }
}

/// None of the source types stands for `txt`.
proof fn lemma_source_types_txt(t: Pairs)
    requires
        unique_keys(t),
    ensures
        unique_keys(with_source_types(t)),
        value_of(with_source_types(t), "txt"@) == value_of(t, "txt"@),
{
    let q = "txt"@;
    reveal_strlit("txt");
    reveal_strlit("py");
    reveal_strlit("rs");
    reveal_strlit("c");
    reveal_strlit("cpp");
    reveal_strlit("h");
    reveal_strlit("java");
    reveal_strlit("php");
    reveal_strlit("rb");
    reveal_strlit("go");
    assert("py"@.len() != q.len());
    assert("rs"@.len() != q.len());
    assert("c"@.len() != q.len());
    assert("cpp"@[0] != q[0]);
    assert("h"@.len() != q.len());
    assert("java"@.len() != q.len());
    assert("php"@[0] != q[0]);
    assert("rb"@.len() != q.len());
    assert("go"@.len() != q.len());
    assert forall|s: Pairs, k: Seq<char>, v: Seq<char>| unique_keys(s) implies unique_keys(
        #[trigger] put(s, k, v),
    ) && value_of(put(s, k, v), q) == if q == k {
        Some(v)
    } else {
        value_of(s, q)
    } by {
        lemma_put(s, k, v, q);
    }
}

/// In the table that a detector starts with, the extension `txt` stands
/// for plain text.
pub proof fn lemma_txt_is_plain_text()
    ensures
        type_for(default_types(), Some("txt"@)) == "text/plain; charset=utf-8"@,
{
    let t0 = Seq::<(Seq<char>, Seq<char>)>::empty();
    assert(unique_keys(t0));
    lemma_text_types_txt(t0);
    let t1 = with_text_types(t0);
    lemma_image_types_txt(t1);
    let t2 = with_image_types(t1);
    lemma_audio_types_txt(t2);
    let t3 = with_audio_types(t2);
    lemma_video_types_txt(t3);
    let t4 = with_video_types(t3);
    lemma_document_types_txt(t4);
    let t5 = with_document_types(t4);
    lemma_archive_types_txt(t5);
    let t6 = with_archive_types(t5);
    lemma_font_types_txt(t6);
    let t7 = with_font_types(t6);
    lemma_source_types_txt(t7);
}

/// The index of the last `c` in `s`, or `-1` where there is none.
pub open spec fn last_index_of(s: Seq<char>, c: char) -> int
    decreases s.len(),
{
    if s.len() == 0 {
        -1
    } else if s.last() == c {
        s.len() - 1
    } else {
        last_index_of(s.drop_last(), c)
    }
}

pub proof fn lemma_last_index_of(s: Seq<char>, c: char)
    ensures
        -1 <= last_index_of(s, c) < s.len(),
        last_index_of(s, c) >= 0 ==> s[last_index_of(s, c)] == c,
        forall|j: int| last_index_of(s, c) < j < s.len() ==> #[trigger] s[j] != c,
    decreases s.len(),
{
    if s.len() > 0 && s.last() != c {
        lemma_last_index_of(s.drop_last(), c);
        assert forall|j: int| last_index_of(s, c) < j < s.len() implies #[trigger] s[j] != c by {
            if j < s.len() - 1 {
                assert(s[j] == s.drop_last()[j]);
            }
        }
    }
}

proof fn lemma_last_index_of_unique(s: Seq<char>, c: char, i: int)
    requires
        -1 <= i < s.len(),
        i >= 0 ==> s[i] == c,
        forall|j: int| i < j < s.len() ==> #[trigger] s[j] != c,
    ensures
        last_index_of(s, c) == i,
{
    lemma_last_index_of(s, c);
    let k = last_index_of(s, c);
    if k < i {
        assert(s[i] != c);
    } else if i < k {
        assert(s[k] != c);
    }
}

/// The position of the last `c` in `v`, or `None`.
pub fn find_last(v: &[char], c: char) -> (r: Option<usize>)
    ensures
        match r {
            Some(i) => last_index_of(v@, c) == i && i < v.len() && i < usize::MAX,
            None => last_index_of(v@, c) == -1,
        },
{
    let mut i: usize = v.len();
    while i > 0
        invariant
            i <= v.len(),
            forall|j: int| i <= j < v.len() ==> #[trigger] v@[j] != c,
        decreases i,
    {
        if v[i - 1] == c {
            proof {
                lemma_last_index_of_unique(v@, c, i - 1);
            }
            return Some(i - 1);
        }
        i -= 1;
    }
    proof {
        lemma_last_index_of_unique(v@, c, -1);
    }
    None
}

/// The extension of a file name: what follows its last `.`, in lowercase.
pub open spec fn extension_of(filename: Seq<char>) -> Option<Seq<char>> {
    if last_index_of(filename, '.') >= 0 {
        Some(lower(filename.skip(last_index_of(filename, '.') + 1)))
    } else {
        None
    }
}

/// The last component of a path: what follows its last `/`.
pub open spec fn file_name_of(path: Seq<char>) -> Seq<char> {
    path.skip(last_index_of(path, '/') + 1)
}

/// The extension of the file that a path names: what follows the last `.`
/// of the last component, in lowercase. A component that is `..`, or whose
/// only `.` is its first character, has no extension.
pub open spec fn path_extension(path: Seq<char>) -> Option<Seq<char>> {
    let name = file_name_of(path);
    if name == ".."@ || last_index_of(name, '.') <= 0 {
        None
    } else {
        extension_of(name)
    }
}

/// The type that the table gives for an extension, or the type of
/// arbitrary bytes.
pub open spec fn type_for(table: Pairs, extension: Option<Seq<char>>) -> Seq<char> {
    match extension {
        Some(e) => match value_of(table, e) {
            Some(t) => t,
            None => "application/octet-stream"@,
        },
        None => "application/octet-stream"@,
    }
}

pub open spec fn text_type(mime_type: Seq<char>) -> bool {
    ||| "text/"@.is_prefix_of(mime_type)
    ||| "application/json"@.is_prefix_of(mime_type)
    ||| "application/xml"@.is_prefix_of(mime_type)
    ||| "application/javascript"@.is_prefix_of(mime_type)
}

pub open spec fn compressible_type(mime_type: Seq<char>) -> bool {
    text_type(mime_type) || "image/svg"@.is_prefix_of(mime_type)
}

/// MIME type detector.
pub struct MimeDetector {
    extensions: StrMap,
}

impl View for MimeDetector {
    type V = Pairs;

    closed spec fn view(&self) -> Pairs {
        self.extensions@
    }
}

impl MimeDetector {
    fn map(t: &mut StrMap, extension: &str, mime_type: &str)
        ensures
            final(t)@ == put(old(t)@, extension@, mime_type@),
    {
        let _ = t.insert(String::from_str(extension), String::from_str(mime_type));
    }

    fn add_text_types(t: &mut StrMap)
        ensures
            final(t)@ == with_text_types(old(t)@),
    {
        Self::map(t, "html", "text/html; charset=utf-8");
        Self::map(t, "htm", "text/html; charset=utf-8");
        Self::map(t, "css", "text/css; charset=utf-8");
        Self::map(t, "js", "application/javascript; charset=utf-8");
        Self::map(t, "json", "application/json; charset=utf-8");
        Self::map(t, "xml", "application/xml; charset=utf-8");
        Self::map(t, "txt", "text/plain; charset=utf-8");
        Self::map(t, "md", "text/markdown; charset=utf-8");
        Self::map(t, "csv", "text/csv; charset=utf-8");
    }

    fn add_image_types(t: &mut StrMap)
        ensures
            final(t)@ == with_image_types(old(t)@),
    {
        Self::map(t, "png", "image/png");
        Self::map(t, "jpg", "image/jpeg");
        Self::map(t, "jpeg", "image/jpeg");
        Self::map(t, "gif", "image/gif");
        Self::map(t, "svg", "image/svg+xml");
        Self::map(t, "ico", "image/x-icon");
        Self::map(t, "webp", "image/webp");
        Self::map(t, "bmp", "image/bmp");
        Self::map(t, "tiff", "image/tiff");
    }

    fn add_audio_types(t: &mut StrMap)
        ensures
            final(t)@ == with_audio_types(old(t)@),
    {
        Self::map(t, "mp3", "audio/mpeg");
        Self::map(t, "wav", "audio/wav");
        Self::map(t, "ogg", "audio/ogg");
        Self::map(t, "m4a", "audio/mp4");
        Self::map(t, "flac", "audio/flac");
    }

    fn add_video_types(t: &mut StrMap)
        ensures
            final(t)@ == with_video_types(old(t)@),
    {
        Self::map(t, "mp4", "video/mp4");
        Self::map(t, "avi", "video/x-msvideo");
        Self::map(t, "mov", "video/quicktime");
        Self::map(t, "wmv", "video/x-ms-wmv");
        Self::map(t, "webm", "video/webm");
    }

    fn add_document_types(t: &mut StrMap)
        ensures
            final(t)@ == with_document_types(old(t)@),
    {
        Self::map(t, "pdf", "application/pdf");
        Self::map(t, "doc", "application/msword");
        Self::map(t, "docx", "application/vnd.openxmlformats-officedocument.wordprocessingml.document");
        Self::map(t, "xls", "application/vnd.ms-excel");
        Self::map(t, "xlsx", "application/vnd.openxmlformats-officedocument.spreadsheetml.sheet");
        Self::map(t, "ppt", "application/vnd.ms-powerpoint");
        Self::map(t, "pptx", "application/vnd.openxmlformats-officedocument.presentationml.presentation");
    }

    fn add_archive_types(t: &mut StrMap)
        ensures
            final(t)@ == with_archive_types(old(t)@),
    {
        Self::map(t, "zip", "application/zip");
        Self::map(t, "tar", "application/x-tar");
        Self::map(t, "gz", "application/gzip");
        Self::map(t, "bz2", "application/x-bzip2");
        Self::map(t, "7z", "application/x-7z-compressed");
        Self::map(t, "rar", "application/vnd.rar");
    }

    fn add_font_types(t: &mut StrMap)
        ensures
            final(t)@ == with_font_types(old(t)@),
    {
        Self::map(t, "ttf", "font/ttf");
        Self::map(t, "otf", "font/otf");
        Self::map(t, "woff", "font/woff");
        Self::map(t, "woff2", "font/woff2");
    }

    fn add_source_types(t: &mut StrMap)
        ensures
            final(t)@ == with_source_types(old(t)@),
    {
        Self::map(t, "py", "text/x-python");
        Self::map(t, "rs", "text/x-rust");
        Self::map(t, "c", "text/x-c");
        Self::map(t, "cpp", "text/x-c++");
        Self::map(t, "h", "text/x-c");
        Self::map(t, "java", "text/x-java");
        Self::map(t, "php", "text/x-php");
        Self::map(t, "rb", "text/x-ruby");
        Self::map(t, "go", "text/x-go");
    }

    /// Create a new MIME detector with default mappings.
    pub fn new() -> (d: MimeDetector)
        ensures
            d@ == default_types(),
    {
        let mut extensions = StrMap::new();
        Self::add_text_types(&mut extensions);
        Self::add_image_types(&mut extensions);
        Self::add_audio_types(&mut extensions);
        Self::add_video_types(&mut extensions);
        Self::add_document_types(&mut extensions);
        Self::add_archive_types(&mut extensions);
        Self::add_font_types(&mut extensions);
        Self::add_source_types(&mut extensions);
        MimeDetector { extensions }
    }

    fn lookup(&self, extension: Option<Vec<char>>) -> (r: String)
        ensures
            r@ == type_for(
                self@,
                match extension {
                    Some(e) => Some(e@),
                    None => None,
                },
            ),
    {
        if let Some(e) = extension {
            if let Some(t) = self.extensions.get(string_of(e.as_slice()).as_str()) {
                return t.clone();
            }
        }
        String::from_str("application/octet-stream")
    }

    fn extension(name: &[char]) -> (r: Option<Vec<char>>)
        ensures
            match r {
                Some(e) => extension_of(name@) == Some(e@),
                None => extension_of(name@) is None,
            },
    {
        match find_last(name, '.') {
            Some(dot) => {
                assert(dot < name.len());
                let ext = slice_of(name, dot + 1, name.len());
                assert(ext@ =~= name@.skip(dot + 1));
                Some(to_lower(ext.as_slice()))
            },
            None => None,
        }
    }

    /// Detect MIME type from filename.
    pub fn detect_from_filename(&self, filename: &str) -> (r: String)
        ensures
            r@ == type_for(self@, extension_of(filename@)),
    {
        self.lookup(Self::extension(chars_of(filename).as_slice()))
    }

    /// Detect MIME type from file path.
    pub fn detect_from_path(&self, path: &str) -> (r: String)
        ensures
            r@ == type_for(self@, path_extension(path@)),
    {
        let p = chars_of(path);
        let start: usize = match find_last(p.as_slice(), '/') {
            Some(i) => i + 1,
            None => 0,
        };
        let name = slice_of(p.as_slice(), start, p.len());
        assert(name@ =~= file_name_of(path@));
        let parent = crate::text::text_is(name.as_slice(), "..");
        let dot = find_last(name.as_slice(), '.');
        let hidden = match dot {
            Some(d) => d == 0,
            None => true,
        };
        if parent || hidden {
            self.lookup(None)
        } else {
            self.lookup(Self::extension(name.as_slice()))
        }
    }

    /// Add or update a MIME type mapping.
    pub fn add_mapping(&mut self, extension: &str, mime_type: &str)
        ensures
            final(self)@ == put(old(self)@, lower(extension@), mime_type@),
    {
        let e = string_of(to_lower(chars_of(extension).as_slice()).as_slice());
        let _ = self.extensions.insert(e, String::from_str(mime_type));
    }

    /// Check if a MIME type is text-based.
    pub fn is_text_type(&self, mime_type: &str) -> (b: bool)
        ensures
            b == text_type(mime_type@),
    {
        let m = chars_of(mime_type);
        starts_with_str(m.as_slice(), "text/") || starts_with_str(m.as_slice(), "application/json")
            || starts_with_str(m.as_slice(), "application/xml") || starts_with_str(
            m.as_slice(),
            "application/javascript",
        )
    }

    /// Check if a MIME type is an image.
    pub fn is_image_type(&self, mime_type: &str) -> (b: bool)
        ensures
            b == "image/"@.is_prefix_of(mime_type@),
    {
        starts_with_str(chars_of(mime_type).as_slice(), "image/")
    }

    /// Check if a MIME type is compressible.
    pub fn is_compressible(&self, mime_type: &str) -> (b: bool)
        ensures
            b == compressible_type(mime_type@),
    {
        self.is_text_type(mime_type) || starts_with_str(
            chars_of(mime_type).as_slice(),
            "image/svg",
        )
    }

    /// Get all supported extensions.
    pub fn supported_extensions(&self) -> (r: Vec<&String>)
        ensures
            r@.len() == self@.len(),
            forall|i: int| 0 <= i < r@.len() ==> (#[trigger] r@[i])@ == self@[i].0,
    {
        self.extensions.keys()
    }
}

impl Default for MimeDetector {
    fn default() -> (d: Self)
        ensures
            d@ == default_types(),
    {
        MimeDetector::new()
    }
}

} // verus!
