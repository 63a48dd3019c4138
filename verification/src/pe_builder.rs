use crate::bytes::{lemma_pad_len, pad_len, 
    append_bytes, append_le32, append_zeros, le32, le64, pad_to, padded, zeros,
};
use vstd::prelude::*;

verus! {

/// The clock reading whose seconds go into the COFF time stamp.
#[verifier::external_type_specification]
#[verifier::external_body]
pub struct ExSystemTime(std::time::SystemTime);

/// Writer of a minimal two-section (`.text`, `.data`) PE32+ image for x86-64.
pub struct PeBuilder {
    code: Vec<u8>,
    data: Vec<u8>,
}

/// The `build` call found no error to report.
#[derive(Debug, PartialEq, Eq, Structural)]
pub struct PeBuildError;

impl View for PeBuilder {
    /// The code bytes and the data bytes added so far.
    type V = (Seq<u8>, Seq<u8>);

    closed spec fn view(&self) -> (Seq<u8>, Seq<u8>) {
        (self.code@, self.data@)
    }
}

/// The 64-byte MS-DOS header; its last field points at offset 0x80.
pub open spec fn dos_header_bytes() -> Seq<u8> {
    seq![0x4Du8, 0x5A, 0x90, 0x00, 0x03, 0x00, 0x00, 0x00, 0x04, 0x00, 0x00, 0x00, 0xFF, 0xFF, 0x00, 0x00]
        + zeros(8) + seq![0x40u8, 0x00] + zeros(34) + le32(0x80)
}

/// "This program cannot be run in DOS mode.\r\n$"
pub open spec fn dos_stub_bytes() -> Seq<u8> {
    seq![
        0x54u8, 0x68, 0x69, 0x73, 0x20, 0x70, 0x72, 0x6F, 0x67, 0x72, 0x61, 0x6D, 0x20, 0x63,
        0x61, 0x6E, 0x6E, 0x6F, 0x74, 0x20, 0x62, 0x65, 0x20, 0x72, 0x75, 0x6E, 0x20, 0x69,
        0x6E, 0x20, 0x44, 0x4F, 0x53, 0x20, 0x6D, 0x6F, 0x64, 0x65, 0x2E, 0x0D, 0x0A, 0x24,
    ]
}

/// "PE\0\0"
pub open spec fn pe_signature_bytes() -> Seq<u8> {
    seq![0x50u8, 0x45, 0x00, 0x00]
}

/// The 20-byte COFF file header: AMD64, two sections, the time stamp,
/// no symbols, a 240-byte optional header, executable image.
pub open spec fn coff_header_bytes(timestamp: u32) -> Seq<u8> {
    seq![0x64u8, 0x86, 0x02, 0x00] + le32(timestamp) + zeros(8) + seq![0xF0u8, 0x00, 0x22, 0x00]
}

/// The 240-byte PE32+ optional header for the given section sizes.
pub open spec fn optional_header_bytes(code_size: u32, data_size: u32) -> Seq<u8> {
    seq![0x0Bu8, 0x02, 0x0E, 0x1C] + le32(code_size) + le32(data_size) + zeros(4)
        + optional_header_layout()
}

/// The part of the optional header that does not depend on the sections:
/// addresses, alignments, versions, sizes, subsystem and stack reservation.
pub open spec fn optional_header_layout() -> Seq<u8> {
    le32(0x1000)  // entry point
        + le32(0x1000)  // base of code
        + le64(0x1_4000_0000)  // image base
        + le32(0x1000)  // section alignment
        + le32(0x200)  // file alignment
        + le32(6)  // operating system version
        + zeros(4)  // image version
        + le32(6)  // subsystem version
        + zeros(4)  // win32 version value
        + le32(0x3000)  // size of image
        + le32(0x100)  // size of headers
        + zeros(4)  // checksum
        + seq![0x03u8, 0x00, 0x00, 0x40]  // console subsystem, DLL characteristics
        + le64(0x10_0000)  // stack reserve
        + le64(0x1000)  // stack commit
        + zeros(16)  // heap reserve and commit
        + le32(0x10)  // number of data directories
        + zeros(132)
}

/// File offset of the `.data` section that the section table records.
pub open spec fn data_file_offset(code_size: u32) -> u32 {
    (0x1000 + (code_size / 0x1000 + 1) * 0x1000) as u32
}

/// The two 40-byte section headers, `.text` then `.data`.
pub open spec fn section_headers_bytes(code_size: u32, data_size: u32) -> Seq<u8> {
    seq![0x2Eu8, 0x74, 0x65, 0x78, 0x74, 0x00, 0x00, 0x00] + le32(code_size) + le32(0x1000)
        + le32(code_size) + le32(0x100) + zeros(12) + seq![0x60u8, 0x00, 0x00, 0x20]
        + seq![0x2Eu8, 0x64, 0x61, 0x74, 0x61, 0x00, 0x00, 0x00] + le32(data_size) + le32(
        0x2000,
    ) + le32(data_size) + le32(data_file_offset(code_size)) + zeros(12) + seq![
        0xC0u8,
        0x00,
        0x00,
        0x40,
    ]
}

/// Everything before the first 4 KiB boundary: the headers, unpadded.
pub open spec fn headers_bytes(code_size: u32, data_size: u32, timestamp: u32) -> Seq<u8> {
    padded(dos_header_bytes() + dos_stub_bytes(), 8) + pe_signature_bytes() + coff_header_bytes(
        timestamp,
    ) + optional_header_bytes(code_size, data_size) + section_headers_bytes(code_size, data_size)
}

/// The whole image: headers, code and data, each padded to a 4 KiB boundary.
/// The size fields hold the lengths reduced modulo 2^32.
pub open spec fn pe_image(code: Seq<u8>, data: Seq<u8>, timestamp: u32) -> Seq<u8> {
    let h = headers_bytes(code.len() as u32, data.len() as u32, timestamp);
    padded(padded(padded(h, 0x1000) + code, 0x1000) + data, 0x1000)
}

/// `build` does not overflow: the `.data` offset fits in 32 bits and the
/// padded image fits in memory.
pub open spec fn pe_fits(code: Seq<u8>, data: Seq<u8>) -> bool {
    &&& (code.len() as u32) < 0xFFFF_E000
    &&& code.len() + data.len() + 0x4000 <= usize::MAX
}

/// Reads the clock (`std::time::SystemTime::now`); nothing is known of the result.
#[verifier::external_body]
fn clock_now() -> std::time::SystemTime {
    std::time::SystemTime::now()
}

/// Time elapsed from the Unix epoch to `t` (`SystemTime::duration_since`);
/// `None` where `t` lies before the epoch. Nothing is stated of the duration.
#[verifier::external_body]
fn elapsed_since_epoch(t: &std::time::SystemTime) -> Option<std::time::Duration> {
    t.duration_since(std::time::UNIX_EPOCH).ok()
}

/// Whole seconds of `d` (`Duration::as_secs`); nothing is stated of the value.
#[verifier::external_body]
fn whole_seconds(d: &std::time::Duration) -> u64 {
    d.as_secs()
}

impl PeBuilder {
    pub fn new() -> (b: Self)
        ensures
            b@ == (Seq::<u8>::empty(), Seq::<u8>::empty()),
    {
        PeBuilder { code: Vec::new(), data: Vec::new() }
    }

    /// Appends machine code to the `.text` section.
    pub fn add_code(&mut self, code: &[u8])
        requires
            old(self)@.0.len() + code@.len() <= usize::MAX,
        ensures
            final(self)@.0 == old(self)@.0 + code@,
            final(self)@.1 == old(self)@.1,
    {
        append_bytes(&mut self.code, code);
    }

    /// Appends bytes to the `.data` section and returns their offset in it.
    pub fn add_data(&mut self, data: &[u8]) -> (offset: usize)
        requires
            old(self)@.1.len() + data@.len() <= usize::MAX,
        ensures
            offset == old(self)@.1.len(),
            final(self)@.1 == old(self)@.1 + data@,
            final(self)@.0 == old(self)@.0,
    {
        let offset = self.data.len();
        append_bytes(&mut self.data, data);
        offset
    }

    /// Builds the image, stamping it with the current Unix time in seconds
    /// (truncated to 32 bits; 0 where the clock reads before 1970).
    pub fn build(&self) -> (r: Result<Vec<u8>, PeBuildError>)
        requires
            pe_fits(self@.0, self@.1),
        ensures
            r matches Ok(img) && exists|ts: u32| img@ == pe_image(self@.0, self@.1, ts),
    {
        let now = clock_now();
        let secs: u64 = match elapsed_since_epoch(&now) {
            Some(d) => whole_seconds(&d),
            None => 0,
        };
        let img = self.build_with_timestamp(secs as u32);
        Ok(img)
    }

    /// Builds the image with the given COFF time stamp.
    pub fn build_with_timestamp(&self, timestamp: u32) -> (img: Vec<u8>)
        requires
            pe_fits(self@.0, self@.1),
        ensures
            img@ == pe_image(self@.0, self@.1, timestamp),
    {
        let code_size = self.code.len() as u32;
        let data_size = self.data.len() as u32;
        let mut pe: Vec<u8> = Vec::new();
        self.build_dos_header(&mut pe);
        append_bytes(
            &mut pe,
            &[
                0x54u8, 0x68, 0x69, 0x73, 0x20, 0x70, 0x72, 0x6F, 0x67, 0x72, 0x61, 0x6D, 0x20,
                0x63, 0x61, 0x6E, 0x6E, 0x6F, 0x74, 0x20, 0x62, 0x65, 0x20, 0x72, 0x75, 0x6E,
                0x20, 0x69, 0x6E, 0x20, 0x44, 0x4F, 0x53, 0x20, 0x6D, 0x6F, 0x64, 0x65, 0x2E,
                0x0D, 0x0A, 0x24,
            ],
        );
        assert(pe@ =~= dos_header_bytes() + dos_stub_bytes());
        pad_to(&mut pe, 8);
        append_bytes(&mut pe, &[0x50u8, 0x45, 0x00, 0x00]);
        self.build_coff_header(&mut pe, timestamp);
        self.build_optional_header(&mut pe);
        self.build_section_headers(&mut pe);
        assert(pe@ =~= headers_bytes(code_size, data_size, timestamp));
        pad_to(&mut pe, 0x1000);
        append_bytes(&mut pe, self.code.as_slice());
        pad_to(&mut pe, 0x1000);
        append_bytes(&mut pe, self.data.as_slice());
        pad_to(&mut pe, 0x1000);
        pe
    }

    fn build_dos_header(&self, out: &mut Vec<u8>)
        requires
            old(out)@.len() == 0,
        ensures
            final(out)@ == dos_header_bytes(),
    {
        append_bytes(
            out,
            &[0x4Du8, 0x5A, 0x90, 0x00, 0x03, 0x00, 0x00, 0x00, 0x04, 0x00, 0x00, 0x00, 0xFF, 0xFF, 0x00, 0x00],
        );
        append_zeros(out, 8);
        append_bytes(out, &[0x40u8, 0x00]);
        append_zeros(out, 34);
        append_le32(out, 0x80);
    }

    fn build_coff_header(&self, out: &mut Vec<u8>, timestamp: u32)
        requires
            old(out)@.len() + 20 <= usize::MAX,
        ensures
            final(out)@ == old(out)@ + coff_header_bytes(timestamp),
    {
        let ghost start = out@;
        append_bytes(out, &[0x64u8, 0x86, 0x02, 0x00]);
        append_le32(out, timestamp);
        append_zeros(out, 8);
        append_bytes(out, &[0xF0u8, 0x00, 0x22, 0x00]);
        assert(out@ =~= start + coff_header_bytes(timestamp));
    }

    fn build_optional_header(&self, out: &mut Vec<u8>)
        requires
            old(out)@.len() + 240 <= usize::MAX,
        ensures
            final(out)@ == old(out)@ + optional_header_bytes(
                self@.0.len() as u32,
                self@.1.len() as u32,
            ),
    {
        let ghost start = out@;
        let code_size = self.code.len() as u32;
        let data_size = self.data.len() as u32;
        append_bytes(out, &[0x0Bu8, 0x02, 0x0E, 0x1C]);
        append_le32(out, code_size);
        append_le32(out, data_size);
        append_zeros(out, 4);
        Self::build_optional_header_layout(out);
        assert(out@ =~= start + optional_header_bytes(code_size, data_size));
    }

    fn build_optional_header_layout(out: &mut Vec<u8>)
        requires
            old(out)@.len() + 224 <= usize::MAX,
        ensures
            final(out)@ == old(out)@ + optional_header_layout(),
    {
        let ghost start = out@;
        append_le32(out, 0x1000);
        append_le32(out, 0x1000);
        append_le32(out, 0x4000_0000);
        append_le32(out, 0x1);
        append_le32(out, 0x1000);
        append_le32(out, 0x200);
        append_le32(out, 6);
        append_zeros(out, 4);
        append_le32(out, 6);
        append_zeros(out, 4);
        append_le32(out, 0x3000);
        append_le32(out, 0x100);
        append_zeros(out, 4);
        append_bytes(out, &[0x03u8, 0x00, 0x00, 0x40]);
        append_le32(out, 0x10_0000);
        append_le32(out, 0);
        append_le32(out, 0x1000);
        append_le32(out, 0);
        append_zeros(out, 16);
        append_le32(out, 0x10);
        append_zeros(out, 132);
        assert(out@ =~= start + optional_header_layout());
    }

    fn build_section_headers(&self, out: &mut Vec<u8>)
        requires
            old(out)@.len() + 80 <= usize::MAX,
            pe_fits(self@.0, self@.1),
        ensures
            final(out)@ == old(out)@ + section_headers_bytes(
                self@.0.len() as u32,
                self@.1.len() as u32,
            ),
    {
        let ghost start = out@;
        let code_size = self.code.len() as u32;
        let data_size = self.data.len() as u32;
        append_bytes(out, &[0x2Eu8, 0x74, 0x65, 0x78, 0x74, 0x00, 0x00, 0x00]);
        append_le32(out, code_size);
        append_le32(out, 0x1000);
        append_le32(out, code_size);
        append_le32(out, 0x100);
        append_zeros(out, 12);
        append_bytes(out, &[0x60u8, 0x00, 0x00, 0x20]);
        append_bytes(out, &[0x2Eu8, 0x64, 0x61, 0x74, 0x61, 0x00, 0x00, 0x00]);
        append_le32(out, data_size);
        append_le32(out, 0x2000);
        append_le32(out, data_size);
        let data_offset: u32 = 0x1000 + (code_size / 0x1000 + 1) * 0x1000;
        append_le32(out, data_offset);
        append_zeros(out, 12);
        append_bytes(out, &[0xC0u8, 0x00, 0x00, 0x40]);
        assert(out@ =~= start + section_headers_bytes(code_size, data_size));
    }
}

impl Default for PeBuilder {
    fn default() -> (b: Self)
        ensures
            b@ == (Seq::<u8>::empty(), Seq::<u8>::empty()),
    {
        Self::new()
    }
}

/// The image is a whole number of 4 KiB pages; it starts with the `MZ`
/// signature, and the code starts at the first page boundary, right after
/// the headers' page.
pub proof fn law_pe_layout(code: Seq<u8>, data: Seq<u8>, timestamp: u32)
    ensures
        pe_image(code, data, timestamp).len() % 0x1000 == 0,
        pe_image(code, data, timestamp).len() >= 0x1000 + code.len() + data.len(),
        pe_image(code, data, timestamp)[0] == 0x4D,
        pe_image(code, data, timestamp)[1] == 0x5A,
        pe_image(code, data, timestamp).subrange(0x1000, 0x1000 + code.len() as int) == code,
{
    let h = headers_bytes(code.len() as u32, data.len() as u32, timestamp);
    assert(h.len() < 0x1000);
    assert(h.len() > 2);
    let p1 = padded(h, 0x1000);
    lemma_pad_len(h.len(), 0x1000, pad_len(h.len(), 0x1000));
    assert(p1.len() == 0x1000);
    let s2 = p1 + code;
    let p2 = padded(s2, 0x1000);
    lemma_pad_len(s2.len(), 0x1000, pad_len(s2.len(), 0x1000));
    let s3 = p2 + data;
    let p3 = padded(s3, 0x1000);
    lemma_pad_len(s3.len(), 0x1000, pad_len(s3.len(), 0x1000));
    assert(p3 == pe_image(code, data, timestamp));
    assert(p3[0] == h[0]);
    assert(p3[1] == h[1]);
    assert(h[0] == 0x4D && h[1] == 0x5A);
    assert(p3.subrange(0x1000, 0x1000 + code.len() as int) =~= code) by {
        assert forall|k: int| 0 <= k < code.len() implies p3[0x1000 + k] == code[k] by {
            assert(p3[0x1000 + k] == s3[0x1000 + k]);
            assert(s3[0x1000 + k] == p2[0x1000 + k]);
            assert(p2[0x1000 + k] == s2[0x1000 + k]);
        }
    }
}

/// `n` rounded up to a whole number of 4 KiB pages.
pub open spec fn page_round(n: nat) -> nat {
    n + pad_len(n, 0x1000)
}

proof fn lemma_padded_sections(h: Seq<u8>, code: Seq<u8>, data: Seq<u8>)
    requires
        0 < h.len() < 0x1000,
    ensures
        ({
            let img = padded(padded(padded(h, 0x1000) + code, 0x1000) + data, 0x1000);
            let data_at = 0x1000 + page_round(code.len());
            &&& img.len() == 0x1000 + page_round(code.len()) + page_round(data.len())
            &&& img.subrange(data_at as int, (data_at + data.len()) as int) == data
            &&& forall|k: int| 0x1000 + code.len() <= k < data_at ==> img[k] == 0
            &&& forall|k: int| data_at + data.len() <= k < img.len() ==> img[k] == 0
        }),
{
    let c = code.len();
    let d = data.len();
    let p1 = padded(h, 0x1000);
    vstd::arithmetic::div_mod::lemma_small_mod(h.len(), 0x1000);
    assert(p1.len() == 0x1000);
    let s2 = p1 + code;
    assert(s2.len() == 0x1000 + c);
    assert((0x1000 + c) % 0x1000 == c % 0x1000);
    assert(pad_len(s2.len(), 0x1000) == pad_len(c, 0x1000));
    let p2 = padded(s2, 0x1000);
    assert(p2.len() == 0x1000 + page_round(c));
    lemma_pad_len(c, 0x1000, pad_len(c, 0x1000));
    assert((c + pad_len(c, 0x1000)) % 0x1000 == 0);
    let s3 = p2 + data;
    let base = 0x1000 + page_round(c);
    assert(base % 0x1000 == 0);
    assert((base + d) % 0x1000 == d % 0x1000);
    assert(pad_len(s3.len(), 0x1000) == pad_len(d, 0x1000));
    let p3 = padded(s3, 0x1000);
    assert(p3.subrange(base as int, (base + d) as int) =~= data) by {
        assert forall|k: int| 0 <= k < d implies p3[base + k] == data[k] by {
            assert(p3[base + k] == s3[base + k]);
        }
    }
    assert forall|k: int| 0x1000 + c <= k < base implies p3[k] == 0 by {
        assert(p3[k] == s3[k]);
        assert(s3[k] == p2[k]);
    }
    assert forall|k: int| base + d <= k < p3.len() implies p3[k] == 0 by {
        assert(p3[k] == zeros(pad_len(s3.len(), 0x1000))[k - s3.len()]);
    }
}

/// The image holds the headers' page, then the code rounded up to whole
/// pages, then the data rounded up to whole pages: its length is
/// `0x1000 + page_round(code) + page_round(data)`, the data starts at
/// `0x1000 + page_round(code)`, and the padding after the code and after
/// the data is zero bytes.
pub proof fn law_pe_sections(code: Seq<u8>, data: Seq<u8>, timestamp: u32)
    ensures
        ({
            let img = pe_image(code, data, timestamp);
            let data_at = 0x1000 + page_round(code.len());
            &&& img.len() == 0x1000 + page_round(code.len()) + page_round(data.len())
            &&& img.subrange(data_at as int, (data_at + data.len()) as int) == data
            &&& forall|k: int| 0x1000 + code.len() <= k < data_at ==> img[k] == 0
            &&& forall|k: int| data_at + data.len() <= k < img.len() ==> img[k] == 0
        }),
{
    let h = headers_bytes(code.len() as u32, data.len() as u32, timestamp);
    assert(0 < h.len() < 0x1000);
    lemma_padded_sections(h, code, data);
}

/// Two byte strings of one length that agree outside the COFF time stamp
/// field (offsets `0x78..0x7C`).
pub open spec fn same_but_stamp(a: Seq<u8>, b: Seq<u8>) -> bool {
    &&& a.len() == b.len()
    &&& forall|k: int| 0 <= k < a.len() && !(0x78 <= k < 0x7C) ==> a[k] == b[k]
}

proof fn lemma_same_but_stamp_extend(a: Seq<u8>, b: Seq<u8>, tail: Seq<u8>)
    requires
        same_but_stamp(a, b),
    ensures
        same_but_stamp(a + tail, b + tail),
        same_but_stamp(padded(a, 0x1000), padded(b, 0x1000)),
{
    assert forall|k: int| 0 <= k < (a + tail).len() && !(0x78 <= k < 0x7C) implies (a + tail)[k]
        == (b + tail)[k] by {
        if k < a.len() {
            assert(a[k] == b[k]);
        }
    }
    let pa = padded(a, 0x1000);
    let pb = padded(b, 0x1000);
    assert forall|k: int| 0 <= k < pa.len() && !(0x78 <= k < 0x7C) implies pa[k] == pb[k] by {
        if k < a.len() {
            assert(a[k] == b[k]);
        }
    }
}

/// The header bytes before the COFF time stamp.
#[verifier::opaque]
spec fn stamp_prefix() -> Seq<u8> {
    padded(dos_header_bytes() + dos_stub_bytes(), 8) + pe_signature_bytes() + seq![
        0x64u8,
        0x86,
        0x02,
        0x00,
    ]
}

/// The header bytes after the COFF time stamp.
#[verifier::opaque]
spec fn stamp_suffix(c: u32, d: u32) -> Seq<u8> {
    zeros(8) + seq![0xF0u8, 0x00, 0x22, 0x00] + optional_header_bytes(c, d)
        + section_headers_bytes(c, d)
}

proof fn lemma_headers_around_stamp(c: u32, d: u32, t: u32)
    ensures
        headers_bytes(c, d, t) == stamp_prefix() + le32(t) + stamp_suffix(c, d),
        stamp_prefix().len() == 0x78,
        stamp_prefix().subrange(64, 106) == dos_stub_bytes(),
{
    reveal(stamp_prefix);
    reveal(stamp_suffix);
    assert(dos_header_bytes().len() == 64);
    assert(headers_bytes(c, d, t) =~= stamp_prefix() + le32(t) + stamp_suffix(c, d));
    let p = stamp_prefix();
    assert(p.subrange(64, 106) =~= dos_stub_bytes()) by {
        assert forall|k: int| 0 <= k < 42 implies #[trigger] p[64 + k] == dos_stub_bytes()[k] by {
            assert(p[64 + k] == (dos_header_bytes() + dos_stub_bytes())[64 + k]);
        }
    }
}

/// Only the COFF time stamp depends on the clock: two images of the same
/// code and data differ at most in bytes `0x78..0x7C`, which hold the time
/// stamp, least significant byte first. Bytes `64..106` hold the DOS stub
/// text "This program cannot be run in DOS mode.\r\n$".
pub proof fn law_pe_stamp_only(code: Seq<u8>, data: Seq<u8>, t1: u32, t2: u32)
    ensures
        same_but_stamp(pe_image(code, data, t1), pe_image(code, data, t2)),
        pe_image(code, data, t1).subrange(0x78, 0x7C) == le32(t1),
        pe_image(code, data, t1).subrange(64, 106) == dos_stub_bytes(),
{
    let c = code.len() as u32;
    let d = data.len() as u32;
    lemma_headers_around_stamp(c, d, t1);
    lemma_headers_around_stamp(c, d, t2);
    let pre = stamp_prefix();
    let post = stamp_suffix(c, d);
    let h1 = headers_bytes(c, d, t1);
    let h2 = headers_bytes(c, d, t2);
    assert(same_but_stamp(h1, h2)) by {
        assert forall|k: int| 0 <= k < h1.len() && !(0x78 <= k < 0x7C) implies h1[k] == h2[k] by {
            if k < 0x78 {
                assert(h1[k] == pre[k] && h2[k] == pre[k]);
            } else {
                assert(h1[k] == post[k - 0x7C] && h2[k] == post[k - 0x7C]);
            }
        }
    }
    let a1 = padded(h1, 0x1000) + code;
    let a2 = padded(h2, 0x1000) + code;
    lemma_same_but_stamp_extend(h1, h2, code);
    lemma_same_but_stamp_extend(padded(h1, 0x1000), padded(h2, 0x1000), code);
    let b1 = padded(a1, 0x1000) + data;
    let b2 = padded(a2, 0x1000) + data;
    lemma_same_but_stamp_extend(a1, a2, data);
    lemma_same_but_stamp_extend(padded(a1, 0x1000), padded(a2, 0x1000), data);
    lemma_same_but_stamp_extend(b1, b2, data);
    assert(pe_image(code, data, t1) == padded(b1, 0x1000));
    assert(pe_image(code, data, t2) == padded(b2, 0x1000));
    let img = pe_image(code, data, t1);
    assert(img.subrange(0x78, 0x7C) =~= le32(t1)) by {
        assert forall|k: int| 0 <= k < 4 implies #[trigger] img[0x78 + k] == le32(t1)[k] by {
            assert(img[0x78 + k] == b1[0x78 + k]);
            assert(b1[0x78 + k] == a1[0x78 + k]);
            assert(a1[0x78 + k] == h1[0x78 + k]);
        }
    }
    assert(img.subrange(64, 106) =~= dos_stub_bytes()) by {
        assert forall|k: int| 0 <= k < 42 implies #[trigger] img[64 + k] == dos_stub_bytes()[k] by {
            assert(img[64 + k] == b1[64 + k]);
            assert(b1[64 + k] == a1[64 + k]);
            assert(a1[64 + k] == h1[64 + k]);
            assert(h1[64 + k] == pre[64 + k]);
            assert(pre.subrange(64, 106)[k] == pre[64 + k]);
        }
    }
}

proof fn lemma_suffix_size_fields(c: u32, d: u32)
    ensures
        stamp_suffix(c, d).len() > 0x138,
        stamp_suffix(c, d).subrange(0x10, 0x14) == le32(c),
        stamp_suffix(c, d).subrange(0x14, 0x18) == le32(d),
        stamp_suffix(c, d).subrange(0x104, 0x108) == le32(c),
        stamp_suffix(c, d).subrange(0x10C, 0x110) == le32(c),
        stamp_suffix(c, d).subrange(0x12C, 0x130) == le32(d),
        stamp_suffix(c, d).subrange(0x134, 0x138) == le32(d),
{
    reveal(stamp_suffix);
    let sfx = stamp_suffix(c, d);
    let head = zeros(8) + seq![0xF0u8, 0x00, 0x22, 0x00];
    let opt = optional_header_bytes(c, d);
    let sec = section_headers_bytes(c, d);
    assert(opt.len() == 240);
    assert(sfx =~= head + opt + sec);
    assert(opt.subrange(4, 8) =~= le32(c));
    assert(opt.subrange(8, 12) =~= le32(d));
    assert(sec.subrange(8, 12) =~= le32(c));
    assert(sec.subrange(16, 20) =~= le32(c));
    assert(sec.subrange(48, 52) =~= le32(d));
    assert(sec.subrange(56, 60) =~= le32(d));
    assert(sfx.subrange(0x10, 0x14) =~= opt.subrange(4, 8));
    assert(sfx.subrange(0x14, 0x18) =~= opt.subrange(8, 12));
    assert(sfx.subrange(0x104, 0x108) =~= sec.subrange(8, 12));
    assert(sfx.subrange(0x10C, 0x110) =~= sec.subrange(16, 20));
    assert(sfx.subrange(0x12C, 0x130) =~= sec.subrange(48, 52));
    assert(sfx.subrange(0x134, 0x138) =~= sec.subrange(56, 60));
}

proof fn lemma_image_starts_with_headers(code: Seq<u8>, data: Seq<u8>, t: u32, k: int)
    requires
        0 <= k < headers_bytes(code.len() as u32, data.len() as u32, t).len(),
    ensures
        pe_image(code, data, t)[k] == headers_bytes(code.len() as u32, data.len() as u32, t)[k],
{
    let h = headers_bytes(code.len() as u32, data.len() as u32, t);
    let a = padded(h, 0x1000) + code;
    let b = padded(a, 0x1000) + data;
    assert(pe_image(code, data, t) == padded(b, 0x1000));
    assert(padded(b, 0x1000)[k] == b[k]);
    assert(b[k] == a[k]);
    assert(a[k] == h[k]);
}

proof fn lemma_image_holds_suffix(code: Seq<u8>, data: Seq<u8>, t: u32)
    ensures
        pe_image(code, data, t).len() >= 0x7C + stamp_suffix(code.len() as u32, data.len() as u32).len(),
        forall|k: int|
            0 <= k < stamp_suffix(code.len() as u32, data.len() as u32).len() ==> #[trigger] pe_image(
                code,
                data,
                t,
            )[0x7C + k] == stamp_suffix(code.len() as u32, data.len() as u32)[k],
{
    let c = code.len() as u32;
    let d = data.len() as u32;
    lemma_headers_around_stamp(c, d, t);
    let h = headers_bytes(c, d, t);
    let sfx = stamp_suffix(c, d);
    assert(h.len() == 0x7C + sfx.len());
    law_pe_sections(code, data, t);
    assert forall|k: int| 0 <= k < sfx.len() implies #[trigger] pe_image(code, data, t)[0x7C + k]
        == sfx[k] by {
        lemma_image_starts_with_headers(code, data, t, 0x7C + k);
        assert(h[0x7C + k] == sfx[k]);
    }
}

proof fn lemma_window(img: Seq<u8>, sfx: Seq<u8>, off: int)
    requires
        0 <= off,
        off + 4 <= sfx.len(),
        img.len() >= 0x7C + sfx.len(),
        forall|k: int| 0 <= k < sfx.len() ==> #[trigger] img[0x7C + k] == sfx[k],
    ensures
        img.subrange(0x7C + off, 0x7C + off + 4) == sfx.subrange(off, off + 4),
{
    assert forall|j: int| 0 <= j < 4 implies #[trigger] img.subrange(0x7C + off, 0x7C + off + 4)[j]
        == sfx.subrange(off, off + 4)[j] by {
        assert(img[0x7C + (off + j)] == sfx[off + j]);
    }
    assert(img.subrange(0x7C + off, 0x7C + off + 4) =~= sfx.subrange(off, off + 4));
}

proof fn lemma_fields_of(img: Seq<u8>, sfx: Seq<u8>, c: u32, d: u32)
    requires
        img.len() >= 0x7C + sfx.len(),
        forall|k: int| 0 <= k < sfx.len() ==> #[trigger] img[0x7C + k] == sfx[k],
        sfx.len() > 0x138,
        sfx.subrange(0x10, 0x14) == le32(c),
        sfx.subrange(0x14, 0x18) == le32(d),
        sfx.subrange(0x104, 0x108) == le32(c),
        sfx.subrange(0x10C, 0x110) == le32(c),
        sfx.subrange(0x12C, 0x130) == le32(d),
        sfx.subrange(0x134, 0x138) == le32(d),
    ensures
        img.subrange(0x8C, 0x90) == le32(c),
        img.subrange(0x90, 0x94) == le32(d),
        img.subrange(0x180, 0x184) == le32(c),
        img.subrange(0x188, 0x18C) == le32(c),
        img.subrange(0x1A8, 0x1AC) == le32(d),
        img.subrange(0x1B0, 0x1B4) == le32(d),
{
    lemma_window(img, sfx, 0x10);
    lemma_window(img, sfx, 0x14);
    lemma_window(img, sfx, 0x104);
    lemma_window(img, sfx, 0x10C);
    lemma_window(img, sfx, 0x12C);
    lemma_window(img, sfx, 0x134);
}

/// The size fields of the image are the lengths of the code and the data
/// (reduced modulo 2^32), least significant byte first: the optional
/// header's SizeOfCode (offset `0x8C`) and SizeOfInitializedData (`0x90`),
/// the `.text` section's VirtualSize (`0x180`) and SizeOfRawData (`0x188`),
/// and the `.data` section's VirtualSize (`0x1A8`) and SizeOfRawData
/// (`0x1B0`).
pub proof fn law_pe_size_fields(code: Seq<u8>, data: Seq<u8>, t: u32)
    ensures
        pe_image(code, data, t).subrange(0x8C, 0x90) == le32(code.len() as u32),
        pe_image(code, data, t).subrange(0x90, 0x94) == le32(data.len() as u32),
        pe_image(code, data, t).subrange(0x180, 0x184) == le32(code.len() as u32),
        pe_image(code, data, t).subrange(0x188, 0x18C) == le32(code.len() as u32),
        pe_image(code, data, t).subrange(0x1A8, 0x1AC) == le32(data.len() as u32),
        pe_image(code, data, t).subrange(0x1B0, 0x1B4) == le32(data.len() as u32),
{
    let c = code.len() as u32;
    let d = data.len() as u32;
    lemma_suffix_size_fields(c, d);
    lemma_image_holds_suffix(code, data, t);
    lemma_fields_of(pe_image(code, data, t), stamp_suffix(c, d), c, d);
}

} // verus!
