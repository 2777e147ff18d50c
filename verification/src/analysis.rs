//! The content analyzer: classifies a byte sample and scores how well it
//! should compress.
//!
//! Fractions are fixed-point numbers in millionths: `SCALE` stands for 1.
//! The Shannon entropy of the sample is the caller's to compute (it needs
//! logarithms); `byte_histogram` gives the counts it is computed from.

use vstd::prelude::*;

verus! {

/// The fixed-point representation of 1.
pub const SCALE: u32 = 1_000_000;

/// The number of bytes at the start of a file that are analyzed.
pub const DETECTION_SAMPLE_SIZE: usize = 64 * 1024;

/// The number of bytes that the text heuristic looks at.
pub const TEXT_HEURISTIC_WINDOW: usize = 4096;

/// The confidence in a class that a magic number gave.
pub const CONFIDENCE_MAGIC: u32 = 800_000;

/// The confidence in a class that the text heuristic gave.
pub const CONFIDENCE_HEURISTIC: u32 = 500_000;

/// The class of a file's content.
#[derive(Debug, Clone, Copy, PartialEq, Eq, Hash, Structural)]
pub enum DetectedFileType {
    Text,
    Binary,
    Image,
    Archive,
    Unknown,
}

/// What the analyzer found in a sample. The four fractions are in
/// millionths.
#[derive(Debug, Clone, Copy, PartialEq, Eq, Structural)]
pub struct ContentAnalysis {
    /// Shannon entropy of the sample in bits per byte, divided by 8.
    pub entropy: u32,
    pub file_type: DetectedFileType,
    pub type_confidence: u32,
    pub compressibility_score: u32,
    /// The sample begins with the signature of an executable or a script.
    pub contains_executable: bool,
    /// The share of printable ASCII and ASCII whitespace in the sample.
    pub text_ratio: u32,
}

impl ContentAnalysis {
    /// Every fraction lies between 0 and 1.
    pub open spec fn wf(self) -> bool {
        &&& self.entropy <= SCALE
        &&& self.type_confidence <= SCALE
        &&& self.compressibility_score <= SCALE
        &&& self.text_ratio <= SCALE
    }
}

/// A printable ASCII character or ASCII whitespace (space, tab, line feed,
/// form feed, carriage return).
pub open spec fn is_text_byte(b: u8) -> bool {
    (0x21 <= b <= 0x7e) || b == 0x20 || b == 0x09 || b == 0x0a || b == 0x0c || b == 0x0d
}

/// The number of text bytes in `s`.
pub open spec fn count_text(s: Seq<u8>) -> nat
    decreases s.len(),
{
    if s.len() == 0 {
        0
    } else {
        count_text(s.drop_last()) + if is_text_byte(s.last()) {
            1nat
        } else {
            0nat
        }
    }
}

/// The number of occurrences of `b` in `s`.
pub open spec fn count_byte(s: Seq<u8>, b: u8) -> nat
    decreases s.len(),
{
    if s.len() == 0 {
        0
    } else {
        count_byte(s.drop_last(), b) + if s.last() == b {
            1nat
        } else {
            0nat
        }
    }
}

/// A byte occurs no more often than there are bytes.
pub proof fn lemma_count_byte_bound(s: Seq<u8>, b: u8)
    ensures
        count_byte(s, b) <= s.len(),
    decreases s.len(),
{
    if s.len() > 0 {
        lemma_count_byte_bound(s.drop_last(), b);
    }
}

/// The text heuristic: more than 70% of the first 4096 bytes (of all, if
/// there are fewer) are text bytes. An empty sample is not text.
pub open spec fn spec_is_text(data: Seq<u8>) -> bool {
    let window = if data.len() < TEXT_HEURISTIC_WINDOW {
        data.len() as int
    } else {
        TEXT_HEURISTIC_WINDOW as int
    };
    data.len() > 0 && count_text(data.subrange(0, window)) * 10 > 7 * window
}

/// The share of text bytes in `data`, in millionths, rounded down; 0 for an
/// empty sample.
pub open spec fn spec_text_ratio(data: Seq<u8>) -> int {
    if data.len() == 0 {
        0
    } else {
        count_text(data) * (SCALE as int) / (data.len() as int)
    }
}

/// The sample begins with `MZ`, `\x7fELF`, `\xfe\xed\xfa\xce` or `#!`.
pub open spec fn spec_is_executable(data: Seq<u8>) -> bool {
    ||| data.len() >= 2 && data[0] == 0x4d && data[1] == 0x5a
    ||| data.len() >= 4 && data[0] == 0x7f && data[1] == 0x45 && data[2] == 0x4c && data[3]
        == 0x46
    ||| data.len() >= 4 && data[0] == 0xfe && data[1] == 0xed && data[2] == 0xfa && data[3]
        == 0xce
    ||| data.len() >= 2 && data[0] == 0x23 && data[1] == 0x21
}

/// The weight of a class in the compressibility score, in hundredths:
/// 1.3 for text, 0.8 for binary, 0.2 for images, 0.05 for archives, 1 for
/// unknown content.
pub open spec fn type_factor(t: DetectedFileType) -> int {
    match t {
        DetectedFileType::Text => 130,
        DetectedFileType::Binary => 80,
        DetectedFileType::Image => 20,
        DetectedFileType::Archive => 5,
        DetectedFileType::Unknown => 100,
    }
}

/// `(1 - entropy) * factor`, kept between 0 and 1.
pub open spec fn spec_compressibility(entropy: u32, t: DetectedFileType) -> int {
    let base = if entropy >= SCALE {
        0
    } else {
        SCALE - entropy
    };
    let raw = base * type_factor(t) / 100;
    if raw > SCALE {
        SCALE as int
    } else {
        raw
    }
}

/// `s` begins with `p`.
pub open spec fn has_prefix(s: Seq<u8>, p: Seq<u8>) -> bool {
    s.len() >= p.len() && s.subrange(0, p.len() as int) == p
}

/// `p` occurs somewhere in `s`.
pub open spec fn has_infix(s: Seq<u8>, p: Seq<u8>) -> bool {
    exists|i: int| 0 <= i <= s.len() - p.len() && #[trigger] s.subrange(i, i + p.len()) == p
}

/// The bytes of `text/`.
pub open spec fn mime_text() -> Seq<u8> {
    seq![0x74u8, 0x65, 0x78, 0x74, 0x2f]
}

/// The bytes of `image/`.
pub open spec fn mime_image() -> Seq<u8> {
    seq![0x69u8, 0x6d, 0x61, 0x67, 0x65, 0x2f]
}

/// The bytes of `zip`.
pub open spec fn mime_zip() -> Seq<u8> {
    seq![0x7au8, 0x69, 0x70]
}

/// The bytes of `tar`.
pub open spec fn mime_tar() -> Seq<u8> {
    seq![0x74u8, 0x61, 0x72]
}

/// The bytes of `gz`.
pub open spec fn mime_gz() -> Seq<u8> {
    seq![0x67u8, 0x7a]
}

/// The class of a file whose magic number gave the MIME type `mime`: text
/// for `text/...`, image for `image/...`, archive where the type mentions
/// `zip`, `tar` or `gz`, binary otherwise. The first match wins.
pub open spec fn spec_classify_mime(mime: Seq<u8>) -> DetectedFileType {
    if has_prefix(mime, mime_text()) {
        DetectedFileType::Text
    } else if has_prefix(mime, mime_image()) {
        DetectedFileType::Image
    } else if has_infix(mime, mime_zip()) || has_infix(mime, mime_tar()) || has_infix(
        mime,
        mime_gz(),
    ) {
        DetectedFileType::Archive
    } else {
        DetectedFileType::Binary
    }
}

/// The class of a sample, given what the magic-number table said of it.
pub open spec fn spec_detect(sniffed: Option<Seq<u8>>, data: Seq<u8>) -> DetectedFileType {
    match sniffed {
        Some(mime) => spec_classify_mime(mime),
        None => if spec_is_text(data) {
            DetectedFileType::Text
        } else {
            DetectedFileType::Unknown
        },
    }
}

/// The confidence in the class: higher when a magic number gave it.
pub open spec fn spec_confidence(sniffed: Option<Seq<u8>>) -> u32 {
    if sniffed is Some {
        CONFIDENCE_MAGIC
    } else {
        CONFIDENCE_HEURISTIC
    }
}

/// The analysis record of a sample.
pub open spec fn spec_analyze(sniffed: Option<Seq<u8>>, data: Seq<u8>, entropy: u32)
    -> ContentAnalysis {
    let file_type = spec_detect(sniffed, data);
    ContentAnalysis {
        entropy,
        file_type,
        type_confidence: spec_confidence(sniffed),
        compressibility_score: spec_compressibility(entropy, file_type) as u32,
        contains_executable: spec_is_executable(data),
        text_ratio: spec_text_ratio(data) as u32,
    }
}

/// The MIME type that `infer::get` finds for `data` by its magic number,
/// as bytes; `None` where it knows none.
pub uninterp spec fn sniffed_mime(data: Seq<u8>) -> Option<Seq<u8>>;

/// The mathematical value of an optional byte vector.
pub open spec fn option_bytes_view(o: Option<Vec<u8>>) -> Option<Seq<u8>> {
    match o {
        Some(v) => Some(v@),
        None => None,
    }
}

/// The bytes of a sample that are analyzed: the first 64 KiB, or all of
/// them if there are fewer.
pub open spec fn sample_of(data: Seq<u8>) -> Seq<u8> {
    if data.len() < DETECTION_SAMPLE_SIZE {
        data
    } else {
        data.subrange(0, DETECTION_SAMPLE_SIZE as int)
    }
}

/// The signature of a compound document (OLE2).
pub open spec fn ole2_signature() -> Seq<u8> {
    seq![0xd0u8, 0xcf, 0x11, 0xe0, 0xa1, 0xb1, 0x1a, 0xe1]
}

/// The bytes of `application/x-ole-storage`, the MIME type of a compound
/// document.
pub open spec fn ole2_mime() -> Seq<u8> {
    seq![
        0x61u8, 0x70, 0x70, 0x6c, 0x69, 0x63, 0x61, 0x74, 0x69, 0x6f, 0x6e, 0x2f, 0x78, 0x2d,
        0x6f, 0x6c, 0x65, 0x2d, 0x73, 0x74, 0x6f, 0x72, 0x61, 0x67, 0x65,
    ]
}

/// The sample begins with a skippable frame of the Zstandard format: a
/// magic number from `0x184D2A50` to `0x184D2A5F` in little-endian order,
/// and the four bytes of the frame's length.
pub open spec fn begins_with_skippable_frame(sample: Seq<u8>) -> bool {
    &&& sample.len() >= 8
    &&& 0x50 <= sample[0] <= 0x5f
    &&& sample[1] == 0x2a
    &&& sample[2] == 0x4d
    &&& sample[3] == 0x18
}

/// The bytes of `application/zstd`, the MIME type of Zstandard data.
pub open spec fn zstd_mime() -> Seq<u8> {
    seq![
        0x61u8, 0x70, 0x70, 0x6c, 0x69, 0x63, 0x61, 0x74, 0x69, 0x6f, 0x6e, 0x2f, 0x7a, 0x73,
        0x74, 0x64,
    ]
}

/// Lengths of 32 bits can be added in a `usize` without overflow.
pub open spec fn wide_address_space() -> bool {
    usize::MAX >= 0xFFFF_FFFF_FFFF_FFFF
}

/// The magic-number table can be asked about `sample`: the sample is no
/// longer than 64 KiB, it is no compound document (for which the table
/// would run a parser of that format), it does not begin with a skippable
/// frame (for which the table's matcher calls itself, once for every frame
/// that follows), and lengths of 32 bits can be added without overflow (the
/// table adds such lengths that it reads from the sample).
pub open spec fn table_admits(sample: Seq<u8>) -> bool {
    &&& sample.len() <= DETECTION_SAMPLE_SIZE
    &&& !has_prefix(sample, ole2_signature())
    &&& !begins_with_skippable_frame(sample)
    &&& wide_address_space()
}

/// The MIME type that stands for the magic number of `sample`, if any: that
/// of a compound document and that of Zstandard data behind a skippable
/// frame by the signature alone, else what the magic-number table finds
/// where it can be asked.
pub open spec fn magic_answer(sample: Seq<u8>) -> Option<Seq<u8>> {
    if has_prefix(sample, ole2_signature()) {
        Some(ole2_mime())
    } else if begins_with_skippable_frame(sample) {
        Some(zstd_mime())
    } else if sample.len() <= DETECTION_SAMPLE_SIZE && wide_address_space() {
        sniffed_mime(sample)
    } else {
        None
    }
}

/// The analysis record of `data`: that of its first 64 KiB.
pub open spec fn spec_analysis_of(data: Seq<u8>, entropy: u32) -> ContentAnalysis {
    spec_analyze(magic_answer(sample_of(data)), sample_of(data), entropy)
}

/// A sample of a sample is the sample.
pub proof fn lemma_sample_idempotent(data: Seq<u8>)
    ensures
        sample_of(data).len() <= DETECTION_SAMPLE_SIZE,
        sample_of(sample_of(data)) == sample_of(data),
{
}

/// Calls `infer::get(data)` and copies the MIME type of the match out.
/// Believed: the result is a function of the data alone (the table of
/// signatures is a constant of the crate). The sample is kept to what
/// `table_admits` allows.
#[verifier::external_body]
fn sniff_mime(data: &[u8]) -> (mime: Option<Vec<u8>>)
    requires
        table_admits(data@),
    ensures
        option_bytes_view(mime) == sniffed_mime(data@),
{
    match infer::get(data) {
        Some(kind) => Some(kind.mime_type().as_bytes().to_vec()),
        None => None,
    }
}

/// Whether `b` is a text byte.
pub fn text_byte(b: u8) -> (r: bool)
    ensures
        r == is_text_byte(b),
{
    (0x21 <= b && b <= 0x7e) || b == 0x20 || b == 0x09 || b == 0x0a || b == 0x0c || b == 0x0d
}

/// Counts the text bytes among the first `limit` bytes of `data`.
pub fn count_text_bytes(data: &[u8], limit: usize) -> (count: usize)
    requires
        limit <= data@.len(),
    ensures
        count == count_text(data@.subrange(0, limit as int)),
        count <= limit,
{
    let mut count: usize = 0;
    let mut i: usize = 0;
    while i < limit
        invariant
            i <= limit <= data@.len(),
            count == count_text(data@.subrange(0, i as int)),
            count <= i,
        decreases limit - i,
    {
        assert(data@.subrange(0, i + 1).drop_last() =~= data@.subrange(0, i as int));
        if text_byte(data[i]) {
            count += 1;
        }
        i += 1;
    }
    count
}

/// For each byte value, the number of times it occurs in `data`: the
/// counts from which the entropy of a sample is computed.
pub fn byte_histogram(data: &[u8]) -> (counts: Vec<usize>)
    ensures
        counts@.len() == 256,
        forall|b: u8| #[trigger] counts@[b as int] == count_byte(data@, b),
{
    let mut counts: Vec<usize> = Vec::new();
    let mut k: usize = 0;
    while k < 256
        invariant
            k <= 256,
            counts@.len() == k,
            forall|j: int| 0 <= j < k ==> counts@[j] == 0,
        decreases 256 - k,
    {
        counts.push(0);
        k += 1;
    }
    let mut i: usize = 0;
    while i < data.len()
        invariant
            i <= data@.len(),
            counts@.len() == 256,
            forall|b: u8| #[trigger] counts@[b as int] == count_byte(data@.subrange(0, i as int), b),
        decreases data@.len() - i,
    {
        let byte = data[i];
        let ghost before = counts@;
        assert(data@.subrange(0, i + 1).drop_last() =~= data@.subrange(0, i as int));
        proof {
            lemma_count_byte_bound(data@.subrange(0, i as int), byte);
        }
        let bumped = counts[byte as usize] + 1;
        counts.set(byte as usize, bumped);
        i += 1;
    }
    assert(data@.subrange(0, data@.len() as int) =~= data@);
    counts
}

/// The text heuristic on a sample.
pub fn is_text_heuristic(data: &[u8]) -> (text: bool)
    ensures
        text == spec_is_text(data@),
{
    if data.len() == 0 {
        return false;
    }
    let window = if data.len() < TEXT_HEURISTIC_WINDOW {
        data.len()
    } else {
        TEXT_HEURISTIC_WINDOW
    };
    let printable = count_text_bytes(data, window);
    printable * 10 > 7 * window
}

/// The share of text bytes in the sample, in millionths.
pub fn calculate_text_ratio(data: &[u8]) -> (ratio: u32)
    ensures
        ratio == spec_text_ratio(data@),
        ratio <= SCALE,
{
    if data.len() == 0 {
        return 0;
    }
    let text_bytes = count_text_bytes(data, data.len());
    assert(data@.subrange(0, data@.len() as int) =~= data@);
    let scaled: u128 = text_bytes as u128 * 1_000_000;
    let ratio: u128 = scaled / (data.len() as u128);
    assert(ratio <= 1_000_000) by {
        let n = data@.len() as int;
        vstd::arithmetic::div_mod::lemma_div_is_ordered(scaled as int, 1_000_000 * n, n);
        vstd::arithmetic::div_mod::lemma_div_by_multiple(1_000_000, n);
    }
    ratio as u32
}

/// Whether the sample begins with the signature of an executable or a
/// script.
pub fn check_executable(data: &[u8]) -> (executable: bool)
    ensures
        executable == spec_is_executable(data@),
{
    let n = data.len();
    (n >= 2 && data[0] == 0x4d && data[1] == 0x5a) || (n >= 4 && data[0] == 0x7f && data[1]
        == 0x45 && data[2] == 0x4c && data[3] == 0x46) || (n >= 4 && data[0] == 0xfe && data[1]
        == 0xed && data[2] == 0xfa && data[3] == 0xce) || (n >= 2 && data[0] == 0x23 && data[1]
        == 0x21)
}

/// The compressibility score of content of class `file_type` whose
/// entropy is `entropy` millionths.
pub fn estimate_compressibility(entropy: u32, file_type: &DetectedFileType) -> (score: u32)
    ensures
        score == spec_compressibility(entropy, *file_type),
        score <= SCALE,
{
    let base: u64 = if entropy >= SCALE {
        0
    } else {
        (SCALE - entropy) as u64
    };
    let factor: u64 = match file_type {
        DetectedFileType::Text => 130,
        DetectedFileType::Binary => 80,
        DetectedFileType::Image => 20,
        DetectedFileType::Archive => 5,
        DetectedFileType::Unknown => 100,
    };
    let raw: u64 = base * factor / 100;
    if raw > SCALE as u64 {
        SCALE
    } else {
        raw as u32
    }
}

/// Whether `haystack` holds `needle` at `at`.
fn matches_at(haystack: &[u8], needle: &[u8], at: usize) -> (found: bool)
    requires
        at + needle@.len() <= haystack@.len(),
    ensures
        found == (haystack@.subrange(at as int, at + needle@.len()) == needle@),
{
    let end = haystack.len();
    let mut k: usize = 0;
    while k < needle.len()
        invariant
            k <= needle@.len(),
            at + needle@.len() <= haystack@.len() == end,
            forall|j: int| 0 <= j < k ==> haystack@[at + j] == needle@[j],
        decreases needle@.len() - k,
    {
        if haystack[at + k] != needle[k] {
            assert(haystack@.subrange(at as int, at + needle@.len())[k as int] != needle@[k as int]);
            return false;
        }
        k += 1;
    }
    assert(haystack@.subrange(at as int, at + needle@.len()) =~= needle@);
    true
}

/// Whether `haystack` begins with `needle`.
pub fn starts_with(haystack: &[u8], needle: &[u8]) -> (found: bool)
    ensures
        found == has_prefix(haystack@, needle@),
{
    if haystack.len() < needle.len() {
        return false;
    }
    matches_at(haystack, needle, 0)
}

/// Whether `needle` occurs in `haystack`.
pub fn contains(haystack: &[u8], needle: &[u8]) -> (found: bool)
    ensures
        found == has_infix(haystack@, needle@),
{
    if haystack.len() < needle.len() {
        return false;
    }
    let last = haystack.len() - needle.len();
    let mut i: usize = 0;
    loop
        invariant
            i <= last,
            last == haystack@.len() - needle@.len(),
            forall|j: int| 0 <= j < i ==> #[trigger] haystack@.subrange(j, j + needle@.len())
                != needle@,
        decreases last - i,
    {
        if matches_at(haystack, needle, i) {
            return true;
        }
        if i == last {
            return false;
        }
        i += 1;
    }
}

/// The class for a MIME type that a magic number gave.
pub fn classify_mime(mime: &[u8]) -> (t: DetectedFileType)
    ensures
        t == spec_classify_mime(mime@),
{
    let text: [u8; 5] = [0x74, 0x65, 0x78, 0x74, 0x2f];
    let image: [u8; 6] = [0x69, 0x6d, 0x61, 0x67, 0x65, 0x2f];
    let zip: [u8; 3] = [0x7a, 0x69, 0x70];
    let tar: [u8; 3] = [0x74, 0x61, 0x72];
    let gz: [u8; 2] = [0x67, 0x7a];
    assert(text@ =~= mime_text());
    assert(image@ =~= mime_image());
    assert(zip@ =~= mime_zip());
    assert(tar@ =~= mime_tar());
    assert(gz@ =~= mime_gz());
    if starts_with(mime, text.as_slice()) {
        DetectedFileType::Text
    } else if starts_with(mime, image.as_slice()) {
        DetectedFileType::Image
    } else if contains(mime, zip.as_slice()) || contains(mime, tar.as_slice()) || contains(
        mime,
        gz.as_slice(),
    ) {
        DetectedFileType::Archive
    } else {
        DetectedFileType::Binary
    }
}

/// The class of a sample, given what the magic-number table said of it:
/// the class of the MIME type where there is one, else text or unknown by
/// the text heuristic.
pub fn classify_sample(sniffed: &Option<Vec<u8>>, data: &[u8]) -> (t: DetectedFileType)
    ensures
        t == spec_detect(option_bytes_view(*sniffed), data@),
{
    match sniffed {
        Some(mime) => classify_mime(mime.as_slice()),
        None => if is_text_heuristic(data) {
            DetectedFileType::Text
        } else {
            DetectedFileType::Unknown
        },
    }
}

/// The first 64 KiB of `data`, or all of it if it is shorter.
pub fn cut_sample(data: &[u8]) -> (sample: &[u8])
    ensures
        sample@ == sample_of(data@),
        sample@.len() <= DETECTION_SAMPLE_SIZE,
{
    if data.len() < DETECTION_SAMPLE_SIZE {
        data
    } else {
        vstd::slice::slice_subrange(data, 0, DETECTION_SAMPLE_SIZE)
    }
}

/// Whether 32-bit lengths can be added in a `usize` without overflow.
pub fn has_wide_address_space() -> (wide: bool)
    ensures
        wide == wide_address_space(),
{
    usize::MAX as u64 == u64::MAX
}

/// The MIME type that stands for the magic number of a sample of at most
/// 64 KiB. A compound document and a skippable frame are known by their
/// signatures alone; for every other sample the magic-number table is
/// asked, where lengths of 32 bits can be added without overflow.
pub fn magic_mime(sample: &[u8]) -> (mime: Option<Vec<u8>>)
    requires
        sample@.len() <= DETECTION_SAMPLE_SIZE,
    ensures
        option_bytes_view(mime) == magic_answer(sample@),
{
    let signature: [u8; 8] = [0xd0, 0xcf, 0x11, 0xe0, 0xa1, 0xb1, 0x1a, 0xe1];
    assert(signature@ =~= ole2_signature());
    if starts_with(sample, signature.as_slice()) {
        let mime: [u8; 25] = [
            0x61, 0x70, 0x70, 0x6c, 0x69, 0x63, 0x61, 0x74, 0x69, 0x6f, 0x6e, 0x2f, 0x78, 0x2d,
            0x6f, 0x6c, 0x65, 0x2d, 0x73, 0x74, 0x6f, 0x72, 0x61, 0x67, 0x65,
        ];
        assert(mime@ =~= ole2_mime());
        let mut copy: Vec<u8> = Vec::new();
        crate::bytes::push_range(&mut copy, mime.as_slice(), 0, 25);
        assert(copy@ =~= ole2_mime());
        Some(copy)
    } else if sample.len() >= 8 && 0x50 <= sample[0] && sample[0] <= 0x5f && sample[1] == 0x2a
        && sample[2] == 0x4d && sample[3] == 0x18 {
        let mime: [u8; 16] = [
            0x61, 0x70, 0x70, 0x6c, 0x69, 0x63, 0x61, 0x74, 0x69, 0x6f, 0x6e, 0x2f, 0x7a, 0x73,
            0x74, 0x64,
        ];
        assert(mime@ =~= zstd_mime());
        let mut copy: Vec<u8> = Vec::new();
        crate::bytes::push_range(&mut copy, mime.as_slice(), 0, 16);
        assert(copy@ =~= zstd_mime());
        Some(copy)
    } else if has_wide_address_space() {
        sniff_mime(sample)
    } else {
        None
    }
}

/// The class of the first 64 KiB of `data`: by their magic number, else by
/// the text heuristic.
pub fn detect_file_type(data: &[u8]) -> (t: DetectedFileType)
    ensures
        t == spec_detect(magic_answer(sample_of(data@)), sample_of(data@)),
{
    let sample = cut_sample(data);
    let sniffed = magic_mime(sample);
    classify_sample(&sniffed, sample)
}

/// The analysis record of a sample, given what the magic-number table said
/// of it and the sample's entropy in millionths.
pub fn analyze_sample(sniffed: &Option<Vec<u8>>, data: &[u8], entropy: u32) -> (analysis:
    ContentAnalysis)
    requires
        entropy <= SCALE,
    ensures
        analysis == spec_analyze(option_bytes_view(*sniffed), data@, entropy),
        analysis.wf(),
{
    let file_type = classify_sample(sniffed, data);
    ContentAnalysis {
        entropy,
        file_type,
        type_confidence: if sniffed.is_some() {
            CONFIDENCE_MAGIC
        } else {
            CONFIDENCE_HEURISTIC
        },
        compressibility_score: estimate_compressibility(entropy, &file_type),
        contains_executable: check_executable(data),
        text_ratio: calculate_text_ratio(data),
    }
}

/// Analyzes the first 64 KiB of `data` (all of it, if it is shorter), whose
/// entropy, in millionths, the caller computed.
pub fn analyze_content_detailed(data: &[u8], entropy: u32) -> (analysis: ContentAnalysis)
    requires
        entropy <= SCALE,
    ensures
        analysis == spec_analysis_of(data@, entropy),
        analysis.wf(),
{
    let sample = cut_sample(data);
    let sniffed = magic_mime(sample);
    analyze_sample(&sniffed, sample, entropy)
}

/// The number of bytes to sample from a file of `file_size` bytes.
pub fn sample_size(file_size: u64) -> (n: usize)
    ensures
        n == if file_size < DETECTION_SAMPLE_SIZE {
            file_size as int
        } else {
            DETECTION_SAMPLE_SIZE as int
        },
{
    if file_size < DETECTION_SAMPLE_SIZE as u64 {
        file_size as usize
    } else {
        DETECTION_SAMPLE_SIZE
    }
}

} // verus!
