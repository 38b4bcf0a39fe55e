//! File validation and analysis: size and name rules, magic-number
//! sniffing, and content hashing.

use vstd::prelude::*;
use vstd::string::{StrSliceExecFns, StringExecFns};
use crate::textform::{dec_seq, str_eq, u64_string};
use crate::value_objects::lower_of;

verus! {

/// The outcome of validating an upload.
#[derive(Debug, Clone)]
pub struct FileValidationResult {
    pub is_valid: bool,
    pub errors: Vec<String>,
    pub warnings: Vec<String>,
}

/// The outcome of analysing a file's content.
#[derive(Debug, Clone)]
pub struct FileAnalysis {
    pub is_safe: bool,
    pub detected_type: String,
    pub virus_scan_result: Option<bool>,
    pub metadata: Vec<(String, String)>,
}

/// A user's storage totals.
#[derive(Debug, Clone)]
pub struct UserStorageStats {
    pub file_count: u64,
    pub total_size: i64,
    pub max_file_size: u64,
}

/// What `sha2`'s SHA-256 digest of a byte sequence is. Opaque: the
/// algorithm is the outside crate's.
pub uninterp spec fn sha256_of(data: Seq<u8>) -> Seq<u8>;

/// Relies on `sha2::Sha256::digest`: the digest depends on the bytes
/// alone and is 32 bytes long.
#[verifier::external_body]
fn sha256_bytes(data: &[u8]) -> (r: Vec<u8>)
    ensures
        r@ == sha256_of(data@),
        r@.len() == 32,
{
    <sha2::Sha256 as sha2::Digest>::digest(data).to_vec()
}

/// The lowercase hexadecimal rendering of a byte sequence, two digits per
/// byte.
pub open spec fn bytes_hex(s: Seq<u8>) -> Seq<char>
    decreases s.len(),
{
    if s.len() == 0 {
        Seq::<char>::empty()
    } else {
        bytes_hex(s.drop_last()) + seq![
            crate::textform::hex_digit((s.last() / 16) as u8),
            crate::textform::hex_digit((s.last() % 16) as u8),
        ]
    }
}

/// The SHA-256 digest of the data, spelled as 64 hexadecimal characters.
pub fn sha256_hex(data: &[u8]) -> (r: String)
    ensures
        r@ == bytes_hex(sha256_of(data@)),
        r@.len() == 64,
{
    let digest = sha256_bytes(data);
    let ghost dv = digest@;
    let mut s = String::new();
    let mut i: usize = 0;
    while i < digest.len()
        invariant
            digest@ == dv,
            dv.len() == 32,
            0 <= i <= 32,
            s@ == bytes_hex(dv.take(i as int)),
            s@.len() == 2 * i,
    decreases digest@.len() - i,
    {
        let b = digest[i];
        crate::textform::push_char(&mut s, crate::textform::hex_digit_char(b / 16));
        crate::textform::push_char(&mut s, crate::textform::hex_digit_char(b % 16));
        proof {
            assert(dv.take(i + 1).drop_last() =~= dv.take(i as int));
            assert(dv.take(i + 1).last() == dv[i as int]);
        }
        i = i + 1;
    }
    proof {
        assert(dv.take(32) =~= dv);
    }
    s
}

/// The trailing file-name component: everything after the last slash.
pub open spec fn file_part(s: Seq<char>) -> Seq<char>
    decreases s.len(),
{
    if s.len() == 0 {
        s
    } else if s.last() == '/' {
        Seq::<char>::empty()
    } else {
        file_part(s.drop_last()).push(s.last())
    }
}

/// The extension of a file-name component: the characters after its last
/// dot, unless the only dot starts the name.
pub open spec fn ext_scan(f: Seq<char>, acc: Seq<char>) -> Option<Seq<char>>
    decreases f.len(),
{
    if f.len() <= 1 {
        None
    } else if f.last() == '.' {
        Some(acc)
    } else {
        ext_scan(f.drop_last(), seq![f.last()] + acc)
    }
}

/// The extension of a path, as `std::path::Path::extension` reads it.
pub open spec fn ext_of(name: Seq<char>) -> Option<Seq<char>> {
    ext_scan(file_part(name), Seq::<char>::empty())
}

/// Whether `p` occurs in `s` as a contiguous subsequence.
pub open spec fn contains_sub(s: Seq<char>, p: Seq<char>) -> bool {
    exists|i: int|
        0 <= i <= s.len() - p.len() && #[trigger] s.subrange(i, i + p.len() as int) == p
}

/// The content type a magic-number sniff reports.
pub open spec fn spec_detect_type(data: Seq<u8>) -> Option<Seq<char>> {
    if data.len() < 4 {
        None
    } else if data[0] == 0xff && data[1] == 0xd8 && data[2] == 0xff {
        Some("image/jpeg"@)
    } else if data[0] == 0x89 && data[1] == 0x50 && data[2] == 0x4e && data[3] == 0x47 {
        Some("image/png"@)
    } else if data[0] == 0x47 && data[1] == 0x49 && data[2] == 0x46 && data[3] == 0x38 {
        Some("image/gif"@)
    } else if data[0] == 0x25 && data[1] == 0x50 && data[2] == 0x44 && data[3] == 0x46 {
        Some("application/pdf"@)
    } else if data[0] == 0x50 && data[1] == 0x4b && (
        (data[2] == 0x03 && data[3] == 0x04) || (data[2] == 0x05 && data[3] == 0x06) || (data[2]
            == 0x07 && data[3] == 0x08)
    ) {
        Some("application/zip"@)
    } else {
        None
    }
}

/// Whether a byte counts as non-text: a control byte other than tab,
/// line feed, or carriage return.
pub open spec fn is_non_text_byte(b: u8) -> bool {
    b < 32 && b != 9 && b != 10 && b != 13
}

/// How many of the first `n` bytes are non-text.
pub open spec fn non_text_count(data: Seq<u8>, n: int) -> int
    decreases n,
{
    if n <= 0 {
        0
    } else {
        non_text_count(data, n - 1) + (if is_non_text_byte(data[n - 1]) {
            1int
        } else {
            0int
        })
    }
}

/// Whether a sample of at most 1024 leading bytes reads as text: fewer
/// than one in twenty sampled bytes is a non-text byte.
pub open spec fn spec_is_text(data: Seq<u8>) -> bool {
    let n = if data.len() > 1024 {
        1024int
    } else {
        data.len() as int
    };
    non_text_count(data, n) * 20 < n
}

/// Validates and analyses uploads against a size ceiling, an allow-list
/// of content types, and a block-list of executable extensions.
#[derive(Debug, Clone)]
pub struct DefaultFileService {
    max_file_size: u64,
    allowed_types: Vec<String>,
    blocked_extensions: Vec<String>,
}

/// The content types uploads may declare.
pub open spec fn allowed_types_spec() -> Seq<Seq<char>> {
    seq![
        "image/jpeg"@,
        "image/png"@,
        "image/gif"@,
        "image/webp"@,
        "image/svg+xml"@,
        "application/pdf"@,
        "application/msword"@,
        "application/vnd.openxmlformats-officedocument.wordprocessingml.document"@,
        "application/vnd.ms-excel"@,
        "application/vnd.openxmlformats-officedocument.spreadsheetml.sheet"@,
        "application/vnd.ms-powerpoint"@,
        "application/vnd.openxmlformats-officedocument.presentationml.presentation"@,
        "text/plain"@,
        "text/csv"@,
        "text/html"@,
        "text/css"@,
        "text/javascript"@,
        "application/zip"@,
        "application/x-rar-compressed"@,
        "application/x-7z-compressed"@,
        "application/gzip"@,
        "audio/mpeg"@,
        "audio/wav"@,
        "video/mp4"@,
        "video/avi"@,
        "video/quicktime"@,
    ]
}

/// The file extensions that are rejected outright.
pub open spec fn blocked_extensions_spec() -> Seq<Seq<char>> {
    seq![
        "exe"@,
        "bat"@,
        "cmd"@,
        "com"@,
        "pif"@,
        "scr"@,
        "vbs"@,
        "js"@,
        "jar"@,
        "msi"@,
        "dll"@,
        "sys"@,
    ]
}

impl DefaultFileService {
    /// The service's size ceiling.
    pub closed spec fn spec_max(self) -> u64 {
        self.max_file_size
    }

    /// The service holds exactly the built-in allow- and block-lists.
    pub closed spec fn lists_wf(self) -> bool {
        &&& self.allowed_types.deep_view() == allowed_types_spec()
        &&& self.blocked_extensions.deep_view() == blocked_extensions_spec()
    }

    /// A service with the given size ceiling and the built-in type and
    /// extension lists.
    #[verifier::rlimit(50)]
    pub fn new(max_file_size: u64) -> (r: DefaultFileService)
        ensures
            r.spec_max() == max_file_size,
            r.lists_wf(),
    {
        let mut allowed_types: Vec<String> = Vec::new();
        allowed_types.push(String::from_str("image/jpeg"));
        allowed_types.push(String::from_str("image/png"));
        allowed_types.push(String::from_str("image/gif"));
        allowed_types.push(String::from_str("image/webp"));
        allowed_types.push(String::from_str("image/svg+xml"));
        allowed_types.push(String::from_str("application/pdf"));
        allowed_types.push(String::from_str("application/msword"));
        allowed_types.push(
            String::from_str("application/vnd.openxmlformats-officedocument.wordprocessingml.document"),
        );
        allowed_types.push(String::from_str("application/vnd.ms-excel"));
        allowed_types.push(
            String::from_str("application/vnd.openxmlformats-officedocument.spreadsheetml.sheet"),
        );
        allowed_types.push(String::from_str("application/vnd.ms-powerpoint"));
        allowed_types.push(
            String::from_str(
                "application/vnd.openxmlformats-officedocument.presentationml.presentation",
            ),
        );
        allowed_types.push(String::from_str("text/plain"));
        allowed_types.push(String::from_str("text/csv"));
        allowed_types.push(String::from_str("text/html"));
        allowed_types.push(String::from_str("text/css"));
        allowed_types.push(String::from_str("text/javascript"));
        allowed_types.push(String::from_str("application/zip"));
        allowed_types.push(String::from_str("application/x-rar-compressed"));
        allowed_types.push(String::from_str("application/x-7z-compressed"));
        allowed_types.push(String::from_str("application/gzip"));
        allowed_types.push(String::from_str("audio/mpeg"));
        allowed_types.push(String::from_str("audio/wav"));
        allowed_types.push(String::from_str("video/mp4"));
        allowed_types.push(String::from_str("video/avi"));
        allowed_types.push(String::from_str("video/quicktime"));
        let mut blocked_extensions: Vec<String> = Vec::new();
        blocked_extensions.push(String::from_str("exe"));
        blocked_extensions.push(String::from_str("bat"));
        blocked_extensions.push(String::from_str("cmd"));
        blocked_extensions.push(String::from_str("com"));
        blocked_extensions.push(String::from_str("pif"));
        blocked_extensions.push(String::from_str("scr"));
        blocked_extensions.push(String::from_str("vbs"));
        blocked_extensions.push(String::from_str("js"));
        blocked_extensions.push(String::from_str("jar"));
        blocked_extensions.push(String::from_str("msi"));
        blocked_extensions.push(String::from_str("dll"));
        blocked_extensions.push(String::from_str("sys"));
        let r = DefaultFileService { max_file_size, allowed_types, blocked_extensions };
        proof {
            assert(r.allowed_types.deep_view() =~= allowed_types_spec());
            assert(r.blocked_extensions.deep_view() =~= blocked_extensions_spec());
        }
        r
    }

    /// The lowercased extension of `filename`, if it has one.
    pub fn get_file_extension(filename: &str) -> (r: Option<String>)
        ensures
            match r {
                Some(e) => ext_of(filename@) is Some && e@ == lower_of(
                    ext_of(filename@).unwrap(),
                ),
                None => ext_of(filename@) is None,
            },
    {
        match Self::get_file_extension_raw(filename) {
            Some(raw) => Some(crate::value_objects::lowercase_str(raw.as_str())),
            None => None,
        }
    }

    /// The extension of `filename` exactly as written, if it has one.
    pub fn get_file_extension_raw(filename: &str) -> (r: Option<String>)
        ensures
            match r {
                Some(e) => ext_of(filename@) == Some(e@),
                None => ext_of(filename@) is None,
            },
    {
        let n = filename.unicode_len();
        // Find the file-name component: everything after the last slash.
        let mut start: usize = 0;
        let mut i: usize = 0;
        while i < n
            invariant
                n == filename@.len(),
                0 <= start <= i <= n,
                file_part(filename@.take(i as int)) == filename@.subrange(
                    start as int,
                    i as int,
                ),
            decreases n - i,
        {
            let ghost pre = filename@.take(i as int);
            proof {
                assert(filename@.take(i + 1).drop_last() =~= pre);
                assert(filename@.take(i + 1).last() == filename@[i as int]);
            }
            let c = filename.get_char(i);
            if c == '/' {
                start = i + 1;
                proof {
                    assert(file_part(filename@.take(i + 1)) =~= filename@.subrange(
                        i + 1,
                        i + 1,
                    ));
                }
            } else {
                proof {
                    assert(file_part(filename@.take(i + 1)) =~= filename@.subrange(
                        start as int,
                        i + 1,
                    ));
                }
            }
            i = i + 1;
        }
        proof {
            assert(filename@.take(n as int) =~= filename@);
        }
        // Find the last dot strictly after the component's first character.
        let ghost f = filename@.subrange(start as int, n as int);
        let mut dot: usize = 0;
        let mut has_dot = false;
        let mut j: usize = start;
        while j < n
            invariant
                n == filename@.len(),
                start <= j <= n,
                f == filename@.subrange(start as int, n as int),
                has_dot ==> start < dot < n && filename@[dot as int] == '.' && (forall|x: int|
                    dot < x < j ==> filename@[x] != '.'),
                !has_dot ==> forall|x: int| start < x < j ==> filename@[x] != '.',
            decreases n - j,
        {
            let c = filename.get_char(j);
            if c == '.' && j > start {
                dot = j;
                has_dot = true;
            }
            j = j + 1;
        }
        proof {
            lemma_ext_scan_correct(filename@, start as int, n as int, has_dot, dot as int);
        }
        if has_dot {
            let raw = filename.substring_char(dot + 1, n);
            proof {
                assert(ext_of(filename@).unwrap() == filename@.subrange(dot + 1, n as int));
            }
            Some(String::from_str(raw))
        } else {
            None
        }
    }

    /// Sniffs a content type from the leading magic bytes.
    pub fn detect_content_type_from_bytes(data: &[u8]) -> (r: Option<String>)
        ensures
            match r {
                Some(t) => spec_detect_type(data@) == Some(t@),
                None => spec_detect_type(data@) is None,
            },
    {
        if data.len() < 4 {
            return None;
        }
        let b0 = data[0];
        let b1 = data[1];
        let b2 = data[2];
        let b3 = data[3];
        if b0 == 0xff && b1 == 0xd8 && b2 == 0xff {
            Some(String::from_str("image/jpeg"))
        } else if b0 == 0x89 && b1 == 0x50 && b2 == 0x4e && b3 == 0x47 {
            Some(String::from_str("image/png"))
        } else if b0 == 0x47 && b1 == 0x49 && b2 == 0x46 && b3 == 0x38 {
            Some(String::from_str("image/gif"))
        } else if b0 == 0x25 && b1 == 0x50 && b2 == 0x44 && b3 == 0x46 {
            Some(String::from_str("application/pdf"))
        } else if b0 == 0x50 && b1 == 0x4b && ((b2 == 0x03 && b3 == 0x04) || (b2 == 0x05 && b3
            == 0x06) || (b2 == 0x07 && b3 == 0x08)) {
            Some(String::from_str("application/zip"))
        } else {
            None
        }
    }

    /// Whether the data reads as text: fewer than one in twenty of its
    /// first kilobyte of bytes is a non-text control byte.
    pub fn is_text_file(data: &[u8]) -> (r: bool)
        ensures
            r == spec_is_text(data@),
    {
        let sample_size: usize = if data.len() > 1024 {
            1024
        } else {
            data.len()
        };
        let mut count: usize = 0;
        let mut i: usize = 0;
        while i < sample_size
            invariant
                sample_size <= data@.len(),
                sample_size <= 1024,
                0 <= i <= sample_size,
                count as int == non_text_count(data@, i as int),
                count <= i,
            decreases sample_size - i,
        {
            let b = data[i];
            if b < 32 && b != 9 && b != 10 && b != 13 {
                count = count + 1;
            }
            i = i + 1;
        }
        count * 20 < sample_size
    }

    /// Whether the declared content type is on the allow-list.
    pub fn is_allowed_file_type(&self, content_type: &str) -> (r: bool)
        requires
            self.lists_wf(),
        ensures
            r == allowed_types_spec().contains(content_type@),
    {
        let n = self.allowed_types.len();
        let mut i: usize = 0;
        while i < n
            invariant
                self.lists_wf(),
                n == allowed_types_spec().len(),
                0 <= i <= n,
                forall|j: int| 0 <= j < i ==> allowed_types_spec()[j] != content_type@,
            decreases n - i,
        {
            if str_eq(self.allowed_types[i].as_str(), content_type) {
                proof {
                    assert(allowed_types_spec()[i as int] == content_type@);
                }
                return true;
            }
            i = i + 1;
        }
        proof {
            if allowed_types_spec().contains(content_type@) {
                let j = choose|j: int|
                    0 <= j < allowed_types_spec().len() && allowed_types_spec()[j]
                        == content_type@;
            }
        }
        false
    }

    /// The configured size ceiling.
    pub fn get_max_file_size(&self) -> (r: u64)
        ensures
            r == self.spec_max(),
    {
        self.max_file_size
    }

    /// Whether the lowercased extension is on the block-list.
    fn is_blocked_extension(&self, ext: &str) -> (r: bool)
        requires
            self.lists_wf(),
        ensures
            r == blocked_extensions_spec().contains(ext@),
    {
        let n = self.blocked_extensions.len();
        let mut i: usize = 0;
        while i < n
            invariant
                self.lists_wf(),
                n == blocked_extensions_spec().len(),
                0 <= i <= n,
                forall|j: int| 0 <= j < i ==> blocked_extensions_spec()[j] != ext@,
            decreases n - i,
        {
            if str_eq(self.blocked_extensions[i].as_str(), ext) {
                proof {
                    assert(blocked_extensions_spec()[i as int] == ext@);
                }
                return true;
            }
            i = i + 1;
        }
        proof {
            if blocked_extensions_spec().contains(ext@) {
                let j = choose|j: int|
                    0 <= j < blocked_extensions_spec().len() && blocked_extensions_spec()[j]
                        == ext@;
            }
        }
        false
    }
}

/// The message for an oversized upload.
pub open spec fn size_error_msg(size: u64, max: u64) -> Seq<char> {
    "File size "@ + dec_seq(size as nat) + " exceeds maximum allowed size "@ + dec_seq(
        max as nat,
    )
}

/// The message for a blocked extension.
pub open spec fn ext_error_msg(e: Seq<char>) -> Seq<char> {
    "File extension '"@ + e + "' is not allowed"@
}

/// The message for a content type off the allow-list.
pub open spec fn type_error_msg(ct: Seq<char>) -> Seq<char> {
    "Content type '"@ + ct + "' is not allowed"@
}

/// The warning for a declared type that contradicts the magic bytes.
pub open spec fn mismatch_warning_msg(ct: Seq<char>, dt: Seq<char>) -> Seq<char> {
    "Declared content type '"@ + ct + "' doesn't match detected type '"@ + dt + "'"@
}

/// The message for a dangerous character sequence in a file name.
pub open spec fn pattern_error_msg(p: Seq<char>) -> Seq<char> {
    "Filename contains invalid character sequence: "@ + p
}

/// The character sequences a file name may not contain.
pub open spec fn dangerous_patterns() -> Seq<Seq<char>> {
    seq!["../"@, "..\\"@, "/"@, "\\"@, ":"@, "*"@, "?"@, "\""@, "<"@, ">"@, "|"@]
}

/// The pattern errors for the first `k` dangerous patterns, in list order.
pub open spec fn pattern_errors(name: Seq<char>, k: int) -> Seq<Seq<char>>
    decreases k,
{
    if k <= 0 {
        Seq::<Seq<char>>::empty()
    } else {
        pattern_errors(name, k - 1) + (if contains_sub(name, dangerous_patterns()[k - 1]) {
            seq![pattern_error_msg(dangerous_patterns()[k - 1])]
        } else {
            Seq::<Seq<char>>::empty()
        })
    }
}

/// Every error a validation reports, in report order.
pub open spec fn validation_errors(
    max: u64,
    filename: Seq<char>,
    content_type: Seq<char>,
    size: u64,
) -> Seq<Seq<char>> {
    (if size > max {
        seq![size_error_msg(size, max)]
    } else {
        Seq::<Seq<char>>::empty()
    }) + (if size == 0 {
        seq!["File is empty"@]
    } else {
        Seq::<Seq<char>>::empty()
    }) + (match ext_of(filename) {
        Some(e) => if blocked_extensions_spec().contains(lower_of(e)) {
            seq![ext_error_msg(lower_of(e))]
        } else {
            Seq::<Seq<char>>::empty()
        },
        None => Seq::<Seq<char>>::empty(),
    }) + (if !allowed_types_spec().contains(content_type) {
        seq![type_error_msg(content_type)]
    } else {
        Seq::<Seq<char>>::empty()
    }) + (if filename.len() == 0 {
        seq!["Filename cannot be empty"@]
    } else {
        Seq::<Seq<char>>::empty()
    }) + (if filename.len() > 255 {
        seq!["Filename is too long (maximum 255 characters)"@]
    } else {
        Seq::<Seq<char>>::empty()
    }) + pattern_errors(filename, 11)
}

/// Every warning a validation reports.
pub open spec fn validation_warnings(content_type: Seq<char>, data: Seq<u8>) -> Seq<Seq<char>> {
    match spec_detect_type(data) {
        Some(dt) => if dt != content_type {
            seq![mismatch_warning_msg(content_type, dt)]
        } else {
            Seq::<Seq<char>>::empty()
        },
        None => Seq::<Seq<char>>::empty(),
    }
}

/// Whether `needle` occurs in `hay`.
fn chars_contain(hay: &Vec<char>, needle: &str) -> (r: bool)
    ensures
        r == contains_sub(hay@, needle@),
{
    let m = needle.unicode_len();
    let n = hay.len();
    if m == 0 {
        proof {
            assert(hay@.subrange(0, 0 + needle@.len() as int) =~= needle@);
        }
        return true;
    }
    if m > n {
        proof {
            if contains_sub(hay@, needle@) {
                let i = choose|i: int|
                    0 <= i <= hay@.len() - needle@.len() && #[trigger] hay@.subrange(
                        i,
                        i + needle@.len() as int,
                    ) == needle@;
            }
        }
        return false;
    }
    let mut i: usize = 0;
    while i <= n - m
        invariant
            m == needle@.len(),
            n == hay@.len(),
            m <= n,
            0 <= i <= n - m + 1,
            1 <= m,
            forall|x: int|
                0 <= x < i ==> #[trigger] hay@.subrange(x, x + needle@.len() as int) != needle@,
        decreases n - i,
    {
        let mut j: usize = 0;
        let mut ok = true;
        while j < m
            invariant
                m == needle@.len(),
                n == hay@.len(),
                0 <= i <= n - m,
                0 <= j <= m,
                ok ==> forall|y: int| 0 <= y < j ==> hay@[i + y] == needle@[y],
                !ok ==> hay@.subrange(i as int, i + m as int) != needle@,
            decreases m - j,
        {
            if hay[i + j] != needle.get_char(j) {
                proof {
                    assert(hay@.subrange(i as int, i + m as int)[j as int] != needle@[j as int]);
                }
                ok = false;
                j = m;
            } else {
                j = j + 1;
            }
        }
        if ok {
            proof {
                assert(hay@.subrange(i as int, i + m as int) =~= needle@);
            }
            return true;
        }
        i = i + 1;
    }
    proof {
        if contains_sub(hay@, needle@) {
            let x = choose|x: int|
                0 <= x <= hay@.len() - needle@.len() && #[trigger] hay@.subrange(
                    x,
                    x + needle@.len() as int,
                ) == needle@;
            assert(hay@.subrange(x, x + needle@.len() as int) != needle@);
        }
    }
    false
}

impl DefaultFileService {
    /// Validates an upload: the result is valid exactly when no rule is
    /// broken, and the errors and warnings list each broken rule in report
    /// order with its exact message.
    #[verifier::loop_isolation(false)]
    #[verifier::rlimit(100)]
    #[verifier::spinoff_prover]
    pub fn validate_file(
        &self,
        filename: &str,
        content_type: &str,
        size: u64,
        data: &[u8],
    ) -> (r: FileValidationResult)
        requires
            self.lists_wf(),
        ensures
            r.errors.deep_view() == validation_errors(
                self.spec_max(),
                filename@,
                content_type@,
                size,
            ),
            r.warnings.deep_view() == validation_warnings(content_type@, data@),
            r.is_valid == (validation_errors(
                self.spec_max(),
                filename@,
                content_type@,
                size,
            ).len() == 0),
    {
        let ghost target = validation_errors(self.spec_max(), filename@, content_type@, size);
        let mut errors: Vec<String> = Vec::new();
        let mut warnings: Vec<String> = Vec::new();
        if size > self.max_file_size {
            let mut m = String::from_str("File size ");
            let szs = u64_string(size);
            m.append(szs.as_str());
            m.append(" exceeds maximum allowed size ");
            let mxs = u64_string(self.max_file_size);
            m.append(mxs.as_str());
            proof {
                assert(m@ =~= size_error_msg(size, self.spec_max()));
            }
            errors.push(m);
        }
        if size == 0 {
            errors.push(String::from_str("File is empty"));
        }
        match Self::get_file_extension(filename) {
            Some(ext) => {
                if self.is_blocked_extension(ext.as_str()) {
                    let mut m = String::from_str("File extension '");
                    m.append(ext.as_str());
                    m.append("' is not allowed");
                    proof {
                        assert(m@ =~= ext_error_msg(lower_of(ext_of(filename@).unwrap())));
                    }
                    errors.push(m);
                }
            },
            None => {},
        }
        if !self.is_allowed_file_type(content_type) {
            let mut m = String::from_str("Content type '");
            m.append(content_type);
            m.append("' is not allowed");
            proof {
                assert(m@ =~= type_error_msg(content_type@));
            }
            errors.push(m);
        }
        match Self::detect_content_type_from_bytes(data) {
            Some(detected) => {
                if !str_eq(detected.as_str(), content_type) {
                    let mut m = String::from_str("Declared content type '");
                    m.append(content_type);
                    m.append("' doesn't match detected type '");
                    m.append(detected.as_str());
                    m.append("'");
                    proof {
                        assert("'"@ =~= seq!['\'']) by {
                            reveal_strlit("'");
                        }
                        assert(m@ =~= mismatch_warning_msg(
                            content_type@,
                            spec_detect_type(data@).unwrap(),
                        ));
                    }
                    warnings.push(m);
                }
            },
            None => {},
        }
        if filename.unicode_len() == 0 {
            errors.push(String::from_str("Filename cannot be empty"));
        }
        if filename.unicode_len() > 255 {
            errors.push(String::from_str("Filename is too long (maximum 255 characters)"));
        }
        let ghost before_patterns = errors.deep_view();
        proof {
            assert(target =~= before_patterns + pattern_errors(filename@, 11));
        }
        let name_chars = crate::codec::str_chars(filename);
        self.check_all_patterns(&mut errors, &name_chars, Ghost(filename@));
        proof {
            assert(errors.deep_view() =~= target);
        }
        let is_valid = errors.len() == 0;
        FileValidationResult { is_valid, errors, warnings }
    }

    /// Appends the errors for every dangerous pattern the name contains,
    /// in list order.
    fn check_all_patterns(
        &self,
        errors: &mut Vec<String>,
        name_chars: &Vec<char>,
        Ghost(name): Ghost<Seq<char>>,
    )
        requires
            name_chars@ == name,
        ensures
            final (errors).deep_view() == old(errors).deep_view() + pattern_errors(name, 11),
    {
        let mut patterns: Vec<&str> = Vec::new();
        patterns.push("../");
        patterns.push("..\\");
        patterns.push("/");
        patterns.push("\\");
        patterns.push(":");
        patterns.push("*");
        patterns.push("?");
        patterns.push("\"");
        patterns.push("<");
        patterns.push(">");
        patterns.push("|");
        proof {
            assert(patterns.deep_view() =~= dangerous_patterns());
        }
        let ghost before = errors.deep_view();
        proof {
            assert(pattern_errors(name, 0) == Seq::<Seq<char>>::empty());
            assert(errors.deep_view() =~= before + pattern_errors(name, 0));
        }
        let mut k: usize = 0;
        while k < 11
            invariant
                patterns.deep_view() == dangerous_patterns(),
                patterns@.len() == 11,
                name_chars@ == name,
                0 <= k <= 11,
                errors.deep_view() == before + pattern_errors(name, k as int),
            decreases 11 - k,
        {
            let pat = patterns[k];
            proof {
                assert(pat@ == dangerous_patterns()[k as int]);
            }
            self.check_pattern(errors, name_chars, pat, Ghost(name), Ghost(k as int));
            proof {
                assert(errors.deep_view() =~= before + pattern_errors(name, k + 1));
            }
            k = k + 1;
        }
    }

    /// Appends the pattern error for dangerous pattern number `k` when the
    /// name contains it.
    fn check_pattern(
        &self,
        errors: &mut Vec<String>,
        name_chars: &Vec<char>,
        pattern: &str,
        Ghost(name): Ghost<Seq<char>>,
        Ghost(k): Ghost<int>,
    )
        requires
            name_chars@ == name,
            0 <= k < 11,
            pattern@ == dangerous_patterns()[k],
        ensures
            final (errors).deep_view() == old(errors).deep_view() + (if contains_sub(
                name,
                dangerous_patterns()[k],
            ) {
                seq![pattern_error_msg(dangerous_patterns()[k])]
            } else {
                Seq::<Seq<char>>::empty()
            }),
    {
        if chars_contain(name_chars, pattern) {
            let mut m = String::from_str("Filename contains invalid character sequence: ");
            m.append(pattern);
            proof {
                assert(m@ =~= pattern_error_msg(dangerous_patterns()[k]));
            }
            errors.push(m);
            proof {
                assert(errors.deep_view() =~= old(errors).deep_view() + seq![
                    pattern_error_msg(dangerous_patterns()[k])
                ]);
            }
        } else {
            proof {
                assert(errors.deep_view() =~= old(errors).deep_view()
                    + Seq::<Seq<char>>::empty());
            }
        }
    }

    /// Whether a file is safe to keep: no blocked extension, an allowed
    /// content type, and no executable signature in its leading bytes.
    pub fn is_file_safe(&self, filename: &str, content_type: &str, data: &[u8]) -> (r: bool)
        requires
            self.lists_wf(),
        ensures
            r == ({
                &&& match ext_of(filename@) {
                    Some(e) => !blocked_extensions_spec().contains(lower_of(e)),
                    None => true,
                }
                &&& allowed_types_spec().contains(content_type@)
                &&& !(data@.len() >= 2 && ((data@[0] == 0x4d && data@[1] == 0x5a) || (data@[0]
                    == 0x7f && data@[1] == 0x45)))
            }),
    {
        match Self::get_file_extension(filename) {
            Some(ext) => {
                if self.is_blocked_extension(ext.as_str()) {
                    return false;
                }
            },
            None => {},
        }
        if !self.is_allowed_file_type(content_type) {
            return false;
        }
        if data.len() >= 2 {
            let b0 = data[0];
            let b1 = data[1];
            if (b0 == 0x4d && b1 == 0x5a) || (b0 == 0x7f && b1 == 0x45) {
                return false;
            }
        }
        true
    }
}

/// The last dot found by a right-to-left scan pins the extension.
proof fn lemma_ext_scan_correct(s: Seq<char>, start: int, n: int, has_dot: bool, dot: int)
    requires
        0 <= start <= n == s.len(),
        file_part(s) == s.subrange(start, n),
        has_dot ==> start < dot < n && s[dot] == '.' && (forall|x: int|
            dot < x < n ==> s[x] != '.'),
        !has_dot ==> forall|x: int| start < x < n ==> s[x] != '.',
    ensures
        has_dot ==> ext_of(s) == Some(s.subrange(dot + 1, n)),
        !has_dot ==> ext_of(s) is None,
{
    let f = s.subrange(start, n);
    if has_dot {
        lemma_ext_scan_finds(s, start, n, dot, n);
    } else {
        lemma_ext_scan_misses(s, start, n, n);
    }
}

/// Scanning a component whose suffix past `dot` is dot-free yields the
/// characters after `dot`.
proof fn lemma_ext_scan_finds(s: Seq<char>, start: int, n: int, dot: int, hi: int)
    requires
        0 <= start < n <= s.len(),
        start < dot < n,
        s[dot] == '.',
        forall|x: int| dot < x < n ==> s[x] != '.',
        dot < hi <= n,
    ensures
        ext_scan(s.subrange(start, hi), s.subrange(hi, n)) == Some(s.subrange(dot + 1, n)),
    decreases hi,
{
    let f = s.subrange(start, hi);
    if hi == dot + 1 {
        assert(f.last() == s[dot]);
        assert(f.len() == dot + 1 - start >= 2);
        assert(ext_scan(f, s.subrange(hi, n)) == Some(s.subrange(dot + 1, n)));
    } else {
        assert(f.last() == s[hi - 1]);
        assert(s[hi - 1] != '.');
        assert(f.len() >= 2);
        assert(f.drop_last() =~= s.subrange(start, hi - 1));
        assert(seq![f.last()] + s.subrange(hi, n) =~= s.subrange(hi - 1, n));
        lemma_ext_scan_finds(s, start, n, dot, hi - 1);
    }
}

/// Scanning a component with no counting dot yields nothing.
proof fn lemma_ext_scan_misses(s: Seq<char>, start: int, n: int, hi: int)
    requires
        0 <= start <= n <= s.len(),
        forall|x: int| start < x < n ==> s[x] != '.',
        start <= hi <= n,
    ensures
        ext_scan(s.subrange(start, hi), s.subrange(hi, n)) is None,
    decreases hi,
{
    let f = s.subrange(start, hi);
    if f.len() <= 1 {
    } else {
        assert(f.last() == s[hi - 1]);
        assert(hi - 1 > start);
        assert(s[hi - 1] != '.');
        assert(f.drop_last() =~= s.subrange(start, hi - 1));
        assert(seq![f.last()] + s.subrange(hi, n) =~= s.subrange(hi - 1, n));
        lemma_ext_scan_misses(s, start, n, hi - 1);
    }
}

} // verus!
