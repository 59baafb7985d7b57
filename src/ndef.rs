use vstd::prelude::*;
use vstd::string::StrSliceExecFns;
use vstd::utf8::{decode_utf8, encode_utf8, valid_utf8};

verus! {

/// The 3-bit type name format of an NDEF record.
#[derive(Debug, Clone, Copy, PartialEq, Eq, Structural)]
pub enum TypeNameFormat {
    Empty,
    WellKnown,
    MimeMediaType,
    AbsoluteURI,
    External,
    Unknown,
    Unchanged,
    Reserved,
}

pub open spec fn tnf_code(t: TypeNameFormat) -> u8 {
    match t {
        TypeNameFormat::Empty => 0,
        TypeNameFormat::WellKnown => 1,
        TypeNameFormat::MimeMediaType => 2,
        TypeNameFormat::AbsoluteURI => 3,
        TypeNameFormat::External => 4,
        TypeNameFormat::Unknown => 5,
        TypeNameFormat::Unchanged => 6,
        TypeNameFormat::Reserved => 7,
    }
}

pub open spec fn tnf_of(code: u8) -> TypeNameFormat {
    if code == 0 {
        TypeNameFormat::Empty
    } else if code == 1 {
        TypeNameFormat::WellKnown
    } else if code == 2 {
        TypeNameFormat::MimeMediaType
    } else if code == 3 {
        TypeNameFormat::AbsoluteURI
    } else if code == 4 {
        TypeNameFormat::External
    } else if code == 5 {
        TypeNameFormat::Unknown
    } else if code == 6 {
        TypeNameFormat::Unchanged
    } else {
        TypeNameFormat::Reserved
    }
}

fn tnf_code_exec(t: TypeNameFormat) -> (r: u8)
    ensures
        r == tnf_code(t),
{
    match t {
        TypeNameFormat::Empty => 0,
        TypeNameFormat::WellKnown => 1,
        TypeNameFormat::MimeMediaType => 2,
        TypeNameFormat::AbsoluteURI => 3,
        TypeNameFormat::External => 4,
        TypeNameFormat::Unknown => 5,
        TypeNameFormat::Unchanged => 6,
        TypeNameFormat::Reserved => 7,
    }
}

fn tnf_of_exec(code: u8) -> (r: TypeNameFormat)
    ensures
        r == tnf_of(code),
{
    if code == 0 {
        TypeNameFormat::Empty
    } else if code == 1 {
        TypeNameFormat::WellKnown
    } else if code == 2 {
        TypeNameFormat::MimeMediaType
    } else if code == 3 {
        TypeNameFormat::AbsoluteURI
    } else if code == 4 {
        TypeNameFormat::External
    } else if code == 5 {
        TypeNameFormat::Unknown
    } else if code == 6 {
        TypeNameFormat::Unchanged
    } else {
        TypeNameFormat::Reserved
    }
}

/// One NDEF record. `id_length` is only meaningful when `id_length_is_present`.
#[derive(Debug)]
pub struct Record {
    pub message_begin: bool,
    pub message_end: bool,
    pub chunk_flag: bool,
    pub short_record: bool,
    pub id_length_is_present: bool,
    pub type_name_format: TypeNameFormat,
    pub type_length: u8,
    pub payload_length: u32,
    pub id_length: u8,
    pub type_data: Vec<u8>,
    pub id_data: Vec<u8>,
    pub payload_data: Vec<u8>,
}

pub struct RecordModel {
    pub message_begin: bool,
    pub message_end: bool,
    pub chunk_flag: bool,
    pub short_record: bool,
    pub id_length_is_present: bool,
    pub type_name_format: TypeNameFormat,
    pub type_length: u8,
    pub payload_length: u32,
    pub id_length: u8,
    pub type_data: Seq<u8>,
    pub id_data: Seq<u8>,
    pub payload_data: Seq<u8>,
}

impl View for Record {
    type V = RecordModel;

    open spec fn view(&self) -> RecordModel {
        RecordModel {
            message_begin: self.message_begin,
            message_end: self.message_end,
            chunk_flag: self.chunk_flag,
            short_record: self.short_record,
            id_length_is_present: self.id_length_is_present,
            type_name_format: self.type_name_format,
            type_length: self.type_length,
            payload_length: self.payload_length,
            id_length: self.id_length,
            type_data: self.type_data@,
            id_data: self.id_data@,
            payload_data: self.payload_data@,
        }
    }
}

pub open spec fn flag(b: bool, v: u8) -> u8 {
    if b {
        v
    } else {
        0
    }
}

/// The first byte of a record: flags MB, ME, CF, SR, IL from the top bit down, then
/// the type name format in the low three bits.
pub open spec fn header_byte(r: RecordModel) -> u8 {
    (flag(r.message_begin, 128) + flag(r.message_end, 64) + flag(r.chunk_flag, 32) + flag(
        r.short_record,
        16,
    ) + flag(r.id_length_is_present, 8) + tnf_code(r.type_name_format)) as u8
}

/// `v` as four big-endian bytes.
pub open spec fn be32(v: u32) -> Seq<u8> {
    seq![(v / 0x1000000) as u8, ((v / 0x10000) % 256) as u8, ((v / 0x100) % 256) as u8, (v % 256) as u8]
}

pub open spec fn be32_value(b: Seq<u8>) -> u32 {
    (b[0] as int * 0x1000000 + b[1] as int * 0x10000 + b[2] as int * 0x100 + b[3] as int) as u32
}

/// The bytes of a record: header, type length, payload length (one byte for a short
/// record, else four big-endian), the id length when present, then type, id and payload.
pub open spec fn record_bytes(r: RecordModel) -> Seq<u8> {
    seq![header_byte(r), r.type_length] + (if r.short_record {
        seq![r.payload_length as u8]
    } else {
        be32(r.payload_length)
    }) + (if r.id_length_is_present {
        seq![r.id_length]
    } else {
        Seq::empty()
    }) + r.type_data + r.id_data + r.payload_data
}

/// The record at the start of `b`, if `b` holds a whole one.
pub open spec fn parsed_record(b: Seq<u8>) -> Option<RecordModel> {
    if b.len() < 2 {
        None
    } else {
        let h = b[0];
        let sr = h & 16 != 0;
        let il = h & 8 != 0;
        let n_len: int = if sr {
            1
        } else {
            4
        };
        let after_len = 2 + n_len;
        if b.len() < after_len + (if il {
            1int
        } else {
            0int
        }) {
            None
        } else {
            let payload_length: u32 = if sr {
                b[2] as u32
            } else {
                be32_value(b.subrange(2, 6))
            };
            let id_length: u8 = if il {
                b[after_len]
            } else {
                0
            };
            let start = after_len + if il {
                1int
            } else {
                0int
            };
            let type_end = start + b[1];
            let id_end = type_end + id_length;
            let end = id_end + payload_length;
            if b.len() < end {
                None
            } else {
                Some(
                    RecordModel {
                        message_begin: h & 128 != 0,
                        message_end: h & 64 != 0,
                        chunk_flag: h & 32 != 0,
                        short_record: sr,
                        id_length_is_present: il,
                        type_name_format: tnf_of(h & 7),
                        type_length: b[1],
                        payload_length,
                        id_length,
                        type_data: b.subrange(start, type_end),
                        id_data: b.subrange(type_end, id_end),
                        payload_data: b.subrange(id_end, end),
                    },
                )
            }
        }
    }
}

/// The lengths a record states agree with its data, and an id is carried only when
/// its length is present.
pub open spec fn consistent(r: RecordModel) -> bool {
    &&& r.type_length == r.type_data.len()
    &&& r.payload_length == r.payload_data.len()
    &&& (r.short_record ==> r.payload_length <= 255)
    &&& (r.id_length_is_present ==> r.id_length == r.id_data.len())
    &&& (!r.id_length_is_present ==> r.id_data.len() == 0)
}

/// A record with its length fields set from its data, as written to a tag.
pub open spec fn updated(r: RecordModel) -> RecordModel {
    RecordModel {
        short_record: r.payload_data.len() <= 255,
        type_length: r.type_data.len() as u8,
        payload_length: r.payload_data.len() as u32,
        ..r
    }
}

fn push_slice(out: &mut Vec<u8>, s: &[u8])
    ensures
        final(out)@ == old(out)@ + s@,
{
    let mut i: usize = 0;
    while i < s.len()
        invariant
            0 <= i <= s.len(),
            out@ == old(out)@ + s@.take(i as int),
        decreases s.len() - i,
    {
        out.push(s[i]);
        i = i + 1;
        assert(out@ =~= old(out)@ + s@.take(i as int));
    }
    assert(s@.take(s.len() as int) =~= s@);
}

fn sub_bytes(v: &Vec<u8>, a: usize, b: usize) -> (r: Vec<u8>)
    requires
        a <= b <= v.len(),
    ensures
        r@ == v@.subrange(a as int, b as int),
{
    let mut r: Vec<u8> = Vec::new();
    let mut i: usize = a;
    while i < b
        invariant
            a <= i <= b <= v.len(),
            r@ == v@.subrange(a as int, i as int),
        decreases b - i,
    {
        r.push(v[i]);
        i = i + 1;
        assert(r@ =~= v@.subrange(a as int, i as int));
    }
    r
}

/// `b` starts with `p`.
pub open spec fn starts_with_bytes(b: Seq<u8>, p: Seq<u8>) -> bool {
    b.len() >= p.len() && b.subrange(0, p.len() as int) == p
}

fn starts_with_exec(b: &[u8], p: &[u8]) -> (r: bool)
    ensures
        r == starts_with_bytes(b@, p@),
{
    if b.len() < p.len() {
        return false;
    }
    let mut i: usize = 0;
    while i < p.len()
        invariant
            b.len() >= p.len(),
            0 <= i <= p.len(),
            forall|k: int| 0 <= k < i ==> b@[k] == p@[k],
        decreases p.len() - i,
    {
        if b[i] != p[i] {
            assert(b@.subrange(0, p.len() as int)[i as int] != p@[i as int]);
            return false;
        }
        i = i + 1;
    }
    assert(b@.subrange(0, p.len() as int) =~= p@);
    true
}

/// The URI identifier code and the rest of the text for a URL: the standard
/// abbreviations of `http://www.`, `https://www.`, `http://` and `https://`; any other
/// URL goes under code 0 as it is.
pub open spec fn url_payload_bytes(url: Seq<u8>) -> Seq<u8> {
    let p1 = encode_utf8("http://www."@);
    let p2 = encode_utf8("https://www."@);
    let p3 = encode_utf8("http://"@);
    let p4 = encode_utf8("https://"@);
    if starts_with_bytes(url, p1) {
        seq![1u8] + url.skip(p1.len() as int)
    } else if starts_with_bytes(url, p2) {
        seq![2u8] + url.skip(p2.len() as int)
    } else if starts_with_bytes(url, p3) {
        seq![3u8] + url.skip(p3.len() as int)
    } else if starts_with_bytes(url, p4) {
        seq![4u8] + url.skip(p4.len() as int)
    } else {
        seq![0u8] + url
    }
}

/// The URL prefix a URI identifier code stands for.
pub open spec fn url_prefix(code: u8) -> Seq<char> {
    if code == 1 {
        "http://www."@
    } else if code == 2 {
        "https://www."@
    } else if code == 3 {
        "http://"@
    } else if code == 4 {
        "https://"@
    } else {
        Seq::empty()
    }
}

/// Relies on `core::str::from_utf8`: it succeeds exactly on valid UTF-8, and the text
/// then holds the characters the bytes encode.
#[verifier::external_body]
fn text_of_utf8(b: &[u8]) -> (r: Option<String>)
    ensures
        r is Some <==> valid_utf8(b@),
        r matches Some(s) ==> s@ == decode_utf8(b@),
{
    core::str::from_utf8(b).ok().map(String::from)
}

/// The UTF-8 bytes of `s`.
fn bytes_of(s: &str) -> (r: Vec<u8>)
    ensures
        r@ == encode_utf8(s@),
{
    s.as_bytes_vec()
}

impl Record {
    fn well_known(type_byte: u8, payload: Vec<u8>) -> (r: Self)
        ensures
            r@ == well_known_record(type_byte, payload@),
    {
        let mut type_data: Vec<u8> = Vec::new();
        type_data.push(type_byte);
        let id_data: Vec<u8> = Vec::new();
        Record {
            message_begin: true,
            message_end: true,
            chunk_flag: false,
            short_record: false,
            id_length_is_present: false,
            type_name_format: TypeNameFormat::WellKnown,
            type_length: 1,
            payload_length: 0,
            id_length: 0x34,
            type_data,
            id_data,
            payload_data: payload,
        }
    }

    /// A text record in English: status byte 2, language `en`, then the text.
    pub fn new_text_record_en(text: &str) -> (r: Self)
        ensures
            r@ == well_known_record(0x54, seq![2u8, 0x65, 0x6e] + encode_utf8(text@)),
    {
        let mut payload: Vec<u8> = Vec::new();
        payload.push(0x02);
        payload.push(0x65);
        payload.push(0x6e);
        let t = bytes_of(text);
        push_slice(&mut payload, t.as_slice());
        assert(payload@ =~= seq![2u8, 0x65, 0x6e] + encode_utf8(text@));
        Record::well_known(0x54, payload)
    }

    /// The text of an English text record: the payload after its three header bytes;
    /// empty when there are none; `None` when those bytes are not UTF-8.
    pub fn en_text_payload(&self) -> (r: Option<String>)
        ensures
            self.payload_data.len() > 3 ==> (r is Some <==> valid_utf8(self.payload_data@.skip(3))),
            self.payload_data.len() > 3 ==> (r matches Some(s) ==> s@ == decode_utf8(
                self.payload_data@.skip(3),
            )),
            self.payload_data.len() <= 3 ==> (r matches Some(s) && s@.len() == 0),
    {
        if self.payload_data.len() > 3 {
            let rest = sub_bytes(&self.payload_data, 3, self.payload_data.len());
            assert(rest@ =~= self.payload_data@.skip(3));
            text_of_utf8(rest.as_slice())
        } else {
            Some(String::new())
        }
    }

    /// A URI record for `url`, with its prefix abbreviated.
    pub fn new_url_record(url: &str) -> (r: Self)
        ensures
            r@ == well_known_record(0x55, url_payload_bytes(encode_utf8(url@))),
    {
        let u = bytes_of(url);
        let mut payload: Vec<u8> = Vec::new();
        let p1 = bytes_of("http://www.");
        let p2 = bytes_of("https://www.");
        let p3 = bytes_of("http://");
        let p4 = bytes_of("https://");
        if starts_with_exec(u.as_slice(), p1.as_slice()) {
            payload.push(1);
            push_slice(&mut payload, sub_bytes(&u, p1.len(), u.len()).as_slice());
        } else if starts_with_exec(u.as_slice(), p2.as_slice()) {
            payload.push(2);
            push_slice(&mut payload, sub_bytes(&u, p2.len(), u.len()).as_slice());
        } else if starts_with_exec(u.as_slice(), p3.as_slice()) {
            payload.push(3);
            push_slice(&mut payload, sub_bytes(&u, p3.len(), u.len()).as_slice());
        } else if starts_with_exec(u.as_slice(), p4.as_slice()) {
            payload.push(4);
            push_slice(&mut payload, sub_bytes(&u, p4.len(), u.len()).as_slice());
        } else {
            payload.push(0);
            push_slice(&mut payload, u.as_slice());
        }
        assert(payload@ =~= url_payload_bytes(encode_utf8(url@)));
        Record::well_known(0x55, payload)
    }
}

/// A well-known record of one type byte: message begin and end set, no id.
pub open spec fn well_known_record(type_byte: u8, payload: Seq<u8>) -> RecordModel {
    RecordModel {
        message_begin: true,
        message_end: true,
        chunk_flag: false,
        short_record: false,
        id_length_is_present: false,
        type_name_format: TypeNameFormat::WellKnown,
        type_length: 1,
        payload_length: 0,
        id_length: 0x34,
        type_data: seq![type_byte],
        id_data: Seq::empty(),
        payload_data: payload,
    }
}

/// The number of zero bytes that aligns the tag image of a `size`-byte record to
/// four-byte pages.
pub open spec fn page_padding(size: u8) -> nat {
    ((4 - ((7 + size as int) % 4)) % 4) as nat
}

/// The tag image of a record: capability container (magic 0xE1, version 0x10, data area
/// size in 8-byte units, read-write access), the NDEF message TLV holding the record,
/// the terminator TLV, then zero padding to a whole page.
pub open spec fn tag_image(record: Seq<u8>) -> Seq<u8> {
    let n = record.len();
    seq![0xE1u8, 0x10u8, ((n + 7) / 8) as u8, 0u8, 3u8, n as u8] + record + seq![0xFEu8]
        + Seq::new(page_padding(n as u8), |i: int| 0u8)
}

impl Record {
    /// The record with its length fields set from its data.
    pub fn update(&mut self)
        requires
            old(self).type_data.len() <= 255,
            old(self).payload_data.len() <= u32::MAX,
        ensures
            final(self)@ == updated(old(self)@),
    {
        self.short_record = self.payload_data.len() <= 255;
        self.type_length = self.type_data.len() as u8;
        self.payload_length = self.payload_data.len() as u32;
    }

    /// The bytes of the record.
    pub fn to_bytes(&self) -> (r: Vec<u8>)
        ensures
            r@ == record_bytes(self@),
    {
        let mut out: Vec<u8> = Vec::new();
        let h = ((if self.message_begin { 128u8 } else { 0u8 }) + (if self.message_end { 64u8 } else { 0u8 })
            + (if self.chunk_flag { 32u8 } else { 0u8 }) + (if self.short_record { 16u8 } else { 0u8 })
            + (if self.id_length_is_present { 8u8 } else { 0u8 }) + tnf_code_exec(self.type_name_format));
        out.push(h);
        out.push(self.type_length);
        let v = self.payload_length;
        if self.short_record {
            out.push(v as u8);
        } else {
            out.push((v / 0x1000000) as u8);
            out.push(((v / 0x10000) % 256) as u8);
            out.push(((v / 0x100) % 256) as u8);
            out.push((v % 256) as u8);
        }
        if self.id_length_is_present {
            out.push(self.id_length);
        }
        let ghost head = out@;
        push_slice(&mut out, self.type_data.as_slice());
        push_slice(&mut out, self.id_data.as_slice());
        push_slice(&mut out, self.payload_data.as_slice());
        assert(out@ =~= record_bytes(self@));
        out
    }

    /// The record at the start of `b`; `None` when `b` is too short for it.
    pub fn from_bytes(b: &Vec<u8>) -> (r: Option<Self>)
        ensures
            match parsed_record(b@) {
                Some(m) => r matches Some(x) && x@ == m,
                None => r is None,
            },
    {
        if b.len() < 2 {
            return None;
        }
        let h = b[0];
        let sr = h & 16 != 0;
        let il = h & 8 != 0;
        let after_len: usize = if sr { 3 } else { 6 };
        let need: usize = after_len + if il { 1 } else { 0 };
        if b.len() < need {
            return None;
        }
        let payload_length: u32 = if sr {
            b[2] as u32
        } else {
            ((b[2] as u64) * 0x1000000 + (b[3] as u64) * 0x10000 + (b[4] as u64) * 0x100 + (b[5] as u64)) as u32
        };
        assert(!sr ==> b@.subrange(2, 6) =~= seq![b@[2], b@[3], b@[4], b@[5]]);
        let id_length: u8 = if il { b[after_len] } else { 0 };
        let start = need;
        let type_length = b[1];
        if b.len() - start < type_length as usize {
            return None;
        }
        let type_end = start + type_length as usize;
        if b.len() - type_end < id_length as usize {
            return None;
        }
        let id_end = type_end + id_length as usize;
        if ((b.len() - id_end) as u64) < payload_length as u64 {
            return None;
        }
        let end = id_end + payload_length as usize;
        Some(Record {
            message_begin: h & 128 != 0,
            message_end: h & 64 != 0,
            chunk_flag: h & 32 != 0,
            short_record: sr,
            id_length_is_present: il,
            type_name_format: tnf_of_exec(h & 7),
            type_length,
            payload_length,
            id_length,
            type_data: sub_bytes(b, start, type_end),
            id_data: sub_bytes(b, type_end, id_end),
            payload_data: sub_bytes(b, id_end, end),
        })
    }

    /// The URL of a URI record: the prefix its first byte abbreviates, then the rest;
    /// empty for an empty payload; `None` when the rest is not UTF-8.
    pub fn url_payload(&self) -> (r: Option<String>)
        ensures
            self.payload_data.len() == 0 ==> (r matches Some(s) && s@.len() == 0),
            self.payload_data.len() > 0 ==> (r is Some <==> valid_utf8(self.payload_data@.skip(1))),
            self.payload_data.len() > 0 ==> (r matches Some(s) ==> s@ == url_prefix(self.payload_data@[0])
                + decode_utf8(self.payload_data@.skip(1))),
    {
        if self.payload_data.len() == 0 {
            return Some(String::new());
        }
        let code = self.payload_data[0];
        let mut text = if code == 1 {
            String::from_str("http://www.")
        } else if code == 2 {
            String::from_str("https://www.")
        } else if code == 3 {
            String::from_str("http://")
        } else if code == 4 {
            String::from_str("https://")
        } else {
            String::new()
        };
        let rest = sub_bytes(&self.payload_data, 1, self.payload_data.len());
        assert(rest@ =~= self.payload_data@.skip(1));
        match text_of_utf8(rest.as_slice()) {
            Some(t) => {
                text.append(t.as_str());
                Some(text)
            },
            None => None,
        }
    }
}

/// A record laid out for an NTAG tag, from page 3 on.
#[derive(Debug)]
pub struct NDEFStructure {
    pub magic: u8,
    pub doc_version: u8,
    pub ndef_size: u8,
    pub read_write: u8,
    pub message_start: u8,
    pub message_size: u8,
    pub record: Record,
    pub termination_tlv: u8,
}

impl NDEFStructure {
    /// The layout of `record`, whose length fields are set from its data first.
    pub fn new(record: Record) -> (r: Self)
        requires
            record_bytes(updated(record@)).len() <= 255,
        ensures
            r.record@ == updated(record@),
            r.magic == 0xE1 && r.doc_version == 0x10 && r.read_write == 0 && r.message_start == 3
                && r.termination_tlv == 0xFE,
            r.message_size == record_bytes(updated(record@)).len(),
            r.ndef_size == (record_bytes(updated(record@)).len() + 7) / 8,
    {
        let mut record = record;
        proof {
            assert(record_bytes(updated(record@)).len() >= record@.type_data.len() + record@.payload_data.len());
        }
        record.update();
        let n = record.to_bytes().len();
        NDEFStructure {
            magic: 0xE1,
            doc_version: 0x10,
            ndef_size: ((n + 7) / 8) as u8,
            read_write: 0,
            message_start: 3,
            message_size: n as u8,
            record,
            termination_tlv: 0xFE,
        }
    }

    /// The bytes to write to the tag from page 3 on: a whole number of pages.
    pub fn to_bytes(&self) -> (r: Vec<u8>)
        requires
            self.message_size == record_bytes(self.record@).len(),
            self.ndef_size == (record_bytes(self.record@).len() + 7) / 8,
            self.magic == 0xE1 && self.doc_version == 0x10 && self.read_write == 0
                && self.message_start == 3 && self.termination_tlv == 0xFE,
        ensures
            r@ == tag_image(record_bytes(self.record@)),
            r@.len() % 4 == 0,
    {
        let mut out: Vec<u8> = Vec::new();
        out.push(self.magic);
        out.push(self.doc_version);
        out.push(self.ndef_size);
        out.push(self.read_write);
        out.push(self.message_start);
        out.push(self.message_size);
        let rb = self.record.to_bytes();
        push_slice(&mut out, rb.as_slice());
        out.push(self.termination_tlv);
        let ghost before = out@;
        let pad: usize = ((4 - ((7 + self.message_size as usize) % 4)) % 4) as usize;
        let mut i: usize = 0;
        while i < pad
            invariant
                0 <= i <= pad,
                out@ == before + Seq::new(i as nat, |k: int| 0u8),
            decreases pad - i,
        {
            out.push(0);
            i = i + 1;
            assert(out@ =~= before + Seq::new(i as nat, |k: int| 0u8));
        }
        assert(out@ =~= tag_image(record_bytes(self.record@)));
        assert(out@.len() == 7 + self.message_size + pad);
        assert((7 + self.message_size + pad) % 4 == 0);
        out
    }
}

/// Whether the record, with its length fields set from its data, takes at most 255
/// bytes: the most one tag message can announce.
pub fn fits_tag_message(record: &Record) -> (r: bool)
    ensures
        r == (record_bytes(updated(record@)).len() <= 255),
{
    let t = record.type_data.len();
    let i = record.id_data.len();
    let p = record.payload_data.len();
    if t > 255 || i > 255 || p > 255 {
        proof {
            assert(record_bytes(updated(record@)).len() >= t + i + p);
        }
        return false;
    }
    let n = 3 + (if record.id_length_is_present { 1usize } else { 0usize }) + t + i + p;
    assert(record_bytes(updated(record@)).len() == n);
    n <= 255
}

/// The NDEF message size a tag announces: byte 5 of the eight bytes read from page 3.
pub fn message_size_of(pages3_4: &Vec<u8>) -> (r: Option<u8>)
    ensures
        pages3_4.len() >= 6 ==> r == Some(pages3_4@[5]),
        pages3_4.len() < 6 ==> r is None,
{
    if pages3_4.len() >= 6 {
        Some(pages3_4[5])
    } else {
        None
    }
}

/// The record in the bytes read from page 4 on: after the message TLV's type and length.
pub fn record_from_message(buf: &Vec<u8>) -> (r: Option<Record>)
    ensures
        buf.len() < 2 ==> r is None,
        buf.len() >= 2 ==> match parsed_record(buf@.skip(2)) {
            Some(m) => r matches Some(x) && x@ == m,
            None => r is None,
        },
{
    if buf.len() < 2 {
        return None;
    }
    let rest = sub_bytes(buf, 2, buf.len());
    assert(rest@ =~= buf@.skip(2));
    Record::from_bytes(&rest)
}

proof fn lemma_header_bits(a: u8, b: u8, c: u8, d: u8, e: u8, t: u8)
    requires
        a == 0 || a == 128,
        b == 0 || b == 64,
        c == 0 || c == 32,
        d == 0 || d == 16,
        e == 0 || e == 8,
        t < 8,
    ensures
        ((a + b + c + d + e + t) as u8) & 128 != 0 <==> a == 128,
        ((a + b + c + d + e + t) as u8) & 64 != 0 <==> b == 64,
        ((a + b + c + d + e + t) as u8) & 32 != 0 <==> c == 32,
        ((a + b + c + d + e + t) as u8) & 16 != 0 <==> d == 16,
        ((a + b + c + d + e + t) as u8) & 8 != 0 <==> e == 8,
        ((a + b + c + d + e + t) as u8) & 7 == t,
{
    assert(((a + b + c + d + e + t) as u8) & 128 != 0 <==> a == 128) by (bit_vector)
        requires
            a == 0 || a == 128, b == 0 || b == 64, c == 0 || c == 32, d == 0 || d == 16, e == 0 || e == 8, t < 8;
    assert(((a + b + c + d + e + t) as u8) & 64 != 0 <==> b == 64) by (bit_vector)
        requires
            a == 0 || a == 128, b == 0 || b == 64, c == 0 || c == 32, d == 0 || d == 16, e == 0 || e == 8, t < 8;
    assert(((a + b + c + d + e + t) as u8) & 32 != 0 <==> c == 32) by (bit_vector)
        requires
            a == 0 || a == 128, b == 0 || b == 64, c == 0 || c == 32, d == 0 || d == 16, e == 0 || e == 8, t < 8;
    assert(((a + b + c + d + e + t) as u8) & 16 != 0 <==> d == 16) by (bit_vector)
        requires
            a == 0 || a == 128, b == 0 || b == 64, c == 0 || c == 32, d == 0 || d == 16, e == 0 || e == 8, t < 8;
    assert(((a + b + c + d + e + t) as u8) & 8 != 0 <==> e == 8) by (bit_vector)
        requires
            a == 0 || a == 128, b == 0 || b == 64, c == 0 || c == 32, d == 0 || d == 16, e == 0 || e == 8, t < 8;
    assert(((a + b + c + d + e + t) as u8) & 7 == t) by (bit_vector)
        requires
            a == 0 || a == 128, b == 0 || b == 64, c == 0 || c == 32, d == 0 || d == 16, e == 0 || e == 8, t < 8;
}

proof fn lemma_be32(v: u32)
    ensures
        be32_value(be32(v)) == v,
{
    let b = be32(v);
    assert(b[0] as int == v / 0x1000000);
    assert(b[1] as int == (v / 0x10000) % 256);
    assert(b[2] as int == (v / 0x100) % 256);
    assert(b[3] as int == v % 256);
    assert(v as int == (v / 0x1000000) * 0x1000000 + ((v / 0x10000) % 256) * 0x10000 + ((v / 0x100) % 256) * 0x100 + v % 256) by (nonlinear_arith);
}

/// Parsing the bytes of a record whose lengths agree with its data gives the record
/// back, with no id length when none is present.
pub proof fn lemma_record_round_trip(r: RecordModel)
    requires
        consistent(r),
    ensures
        parsed_record(record_bytes(r)) == Some(
            RecordModel {
                id_length: if r.id_length_is_present {
                    r.id_length
                } else {
                    0
                },
                ..r
            },
        ),
{
    let t = tnf_code(r.type_name_format);
    lemma_header_bits(
        flag(r.message_begin, 128),
        flag(r.message_end, 64),
        flag(r.chunk_flag, 32),
        flag(r.short_record, 16),
        flag(r.id_length_is_present, 8),
        t,
    );
    assert(tnf_of(t) == r.type_name_format);
    let b = record_bytes(r);
    if !r.short_record {
        lemma_be32(r.payload_length);
        assert(b.subrange(2, 6) =~= be32(r.payload_length));
    }
    let n_len: int = if r.short_record { 1 } else { 4 };
    let start = 2 + n_len + if r.id_length_is_present { 1int } else { 0int };
    let type_end = start + r.type_data.len();
    let id_end = type_end + r.id_data.len();
    assert(b.subrange(start, type_end) =~= r.type_data);
    assert(b.subrange(type_end, id_end) =~= r.id_data);
    assert(b.subrange(id_end, b.len() as int) =~= r.payload_data);
}

} // verus!
