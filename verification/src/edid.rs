use vstd::prelude::*;
use vstd::utf8::{decode_utf8, valid_utf8};

use crate::connector::is_dp_connector;
use crate::text::{chars_of, contains_seq, find_char, find_char_in, trim, trim_bounds};

verus! {

/// The HDMI generation that the vendor-specific data blocks announce.
#[derive(Clone, Copy, Debug, PartialEq, Eq, Structural)]
pub enum HdmiGen {
    Unknown,
    Hdmi14,
    Hdmi20,
    Hdmi21,
}

/// The capabilities that the CTA-861 extension blocks of an EDID announce.
#[derive(Clone, Copy, Debug, PartialEq, Eq, Structural)]
pub struct EdidCaps {
    pub hdr10: bool,
    pub hlg: bool,
    pub hdr10plus: bool,
    pub dolby: bool,
    pub bt2020: bool,
    pub dci_p3: bool,
    pub dsc: bool,
    /// The desired content max luminance code of the HDR static metadata
    /// block (luminance 50·2^(code/32) cd/m²); 0 when no block gives one.
    pub max_lum_code: u8,
    pub hdmi: HdmiGen,
}

/// Nothing announced.
pub open spec fn no_caps() -> EdidCaps {
    EdidCaps {
        hdr10: false,
        hlg: false,
        hdr10plus: false,
        dolby: false,
        bt2020: false,
        dci_p3: false,
        dsc: false,
        max_lum_code: 0,
        hdmi: HdmiGen::Unknown,
    }
}

/// An IEEE OUI written in three bytes, least significant first.
pub open spec fn oui(b0: u8, b1: u8, b2: u8) -> int {
    b0 + 256 * b1 + 65536 * b2
}

/// The IEEE OUI of Dolby Laboratories.
pub const DOLBY_OUI: u32 = 0x00D046;

/// The IEEE OUI of HDMI Licensing (HDMI 1.x vendor-specific data block).
pub const HDMI_LLC_OUI: u32 = 0x000C03;

/// The IEEE OUI of the HDMI Forum (HDMI 2.x vendor-specific data block).
pub const HDMI_FORUM_OUI: u32 = 0xC45D00;

/// The effect of one CTA-861 data block, of tag `tag` and contents `data`:
/// - extended tag 6 (HDR static metadata): HDR10 (bit 2) and HLG (bit 3) of
///   the first payload byte, and the max luminance code (third payload
///   byte) when it is there and not 0;
/// - extended tag 5 (colorimetry): BT.2020 RGB (bit 7) and DCI-P3 (bit 1);
/// - extended tag 13: HDR10+;
/// - extended tag 1 with the Dolby OUI: Dolby Vision;
/// - vendor-specific block (tag 3) with the Dolby OUI: Dolby Vision; with the
///   HDMI Licensing OUI: HDMI 1.4 unless a generation is known; with the
///   HDMI Forum OUI: HDMI 2.1 when the max TMDS rate (fifth byte, in 5 MHz
///   steps) reaches 600 MHz, else HDMI 2.0, and DSC when bit 7 of the ninth
///   byte is set.
pub open spec fn apply_block(st: EdidCaps, tag: u8, data: Seq<u8>) -> EdidCaps {
    if tag == 7 && data.len() > 0 {
        apply_extended(st, data[0], data.drop_first())
    } else if tag == 3 && data.len() >= 3 {
        apply_vendor(st, data)
    } else {
        st
    }
}

/// The effect of an extended-tag data block (tag 7) of extended tag `ext`.
pub open spec fn apply_extended(st: EdidCaps, ext: u8, payload: Seq<u8>) -> EdidCaps {
    if ext == 6 && payload.len() > 0 {
        EdidCaps {
            hdr10: payload[0] & 0x04u8 != 0,
            hlg: payload[0] & 0x08u8 != 0,
            max_lum_code: if payload.len() > 2 && payload[2] != 0 {
                payload[2]
            } else {
                st.max_lum_code
            },
            ..st
        }
    } else if ext == 5 && payload.len() > 0 {
        EdidCaps { bt2020: payload[0] & 0x80u8 != 0, dci_p3: payload[0] & 0x02u8 != 0, ..st }
    } else if ext == 13 {
        EdidCaps { hdr10plus: true, ..st }
    } else if ext == 1 && payload.len() >= 3 && oui(payload[0], payload[1], payload[2])
        == DOLBY_OUI {
        EdidCaps { dolby: true, ..st }
    } else {
        st
    }
}

/// The effect of a vendor-specific data block (tag 3) of at least three bytes.
pub open spec fn apply_vendor(st: EdidCaps, data: Seq<u8>) -> EdidCaps {
    let o = oui(data[0], data[1], data[2]);
    if o == DOLBY_OUI {
        EdidCaps { dolby: true, ..st }
    } else if o == HDMI_LLC_OUI {
        EdidCaps {
            hdmi: if st.hdmi == HdmiGen::Unknown {
                HdmiGen::Hdmi14
            } else {
                st.hdmi
            },
            ..st
        }
    } else if o == HDMI_FORUM_OUI {
        EdidCaps {
            hdmi: if data.len() >= 5 && data[4] as int * 5 >= 600 {
                HdmiGen::Hdmi21
            } else {
                HdmiGen::Hdmi20
            },
            dsc: if data.len() >= 9 && data[8] & 0x80u8 != 0 {
                true
            } else {
                st.dsc
            },
            ..st
        }
    } else {
        st
    }
}

/// The data blocks of the CTA-861 extension at offset `bs`, from offset `i`
/// of the block up to the detailed timing offset `dtd`, applied in order.
/// Each block starts with a header byte (tag in bits 5-7, length in bits
/// 0-4); a block that runs past the end of the EDID ends the walk.
pub open spec fn scan_blocks(raw: Seq<u8>, bs: nat, i: nat, dtd: nat, st: EdidCaps) -> EdidCaps
    decreases (if i < dtd {
        dtd - i
    } else {
        0
    }),
{
    if i >= dtd || bs + i >= raw.len() {
        st
    } else {
        let hdr = raw[bs + i as int];
        let length = (hdr & 0x1fu8) as nat;
        if bs + i + 1 + length > raw.len() {
            st
        } else {
            scan_blocks(
                raw,
                bs,
                i + 1 + length,
                dtd,
                apply_block(
                    st,
                    (hdr >> 5u8) & 0x07u8,
                    raw.subrange(bs + i + 1 as int, bs + i + 1 + length as int),
                ),
            )
        }
    }
}

/// The 128-byte extension blocks from offset `bs` on; those of tag 2
/// (CTA-861) have their data blocks applied, from byte 4 up to the offset
/// that byte 2 gives.
pub open spec fn scan_extensions(raw: Seq<u8>, bs: nat, st: EdidCaps) -> EdidCaps
    decreases raw.len() - bs,
{
    if bs + 128 > raw.len() {
        st
    } else {
        let next = if raw[bs as int] == 2 {
            scan_blocks(raw, bs, 4, raw[bs + 2 as int] as nat, st)
        } else {
            st
        };
        scan_extensions(raw, bs + 128, next)
    }
}

/// What the extension blocks of an EDID announce.
pub open spec fn edid_caps(raw: Seq<u8>) -> EdidCaps {
    scan_extensions(raw, 128, no_caps())
}

/// An EDID of the base block alone announces nothing.
pub proof fn lemma_base_block_only(raw: Seq<u8>)
    requires
        raw.len() < 256,
    ensures
        edid_caps(raw) == no_caps(),
{
}

/// Three bytes write a given OUI exactly when they are its bytes.
proof fn lemma_oui_bytes(b0: u8, b1: u8, b2: u8)
    ensures
        (oui(b0, b1, b2) == DOLBY_OUI) <==> (b0 == 0x46 && b1 == 0xD0 && b2 == 0x00),
        (oui(b0, b1, b2) == HDMI_LLC_OUI) <==> (b0 == 0x03 && b1 == 0x0C && b2 == 0x00),
        (oui(b0, b1, b2) == HDMI_FORUM_OUI) <==> (b0 == 0x00 && b1 == 0x5D && b2 == 0xC4),
{
    assert((b0 as int) + 256 * (b1 as int) + 65536 * (b2 as int) == 0x00D046 <==> (b0 == 0x46
        && b1 == 0xD0 && b2 == 0x00)) by (nonlinear_arith)
        requires
            0 <= b0 < 256,
            0 <= b1 < 256,
            0 <= b2 < 256,
    ;
    assert((b0 as int) + 256 * (b1 as int) + 65536 * (b2 as int) == 0x000C03 <==> (b0 == 0x03
        && b1 == 0x0C && b2 == 0x00)) by (nonlinear_arith)
        requires
            0 <= b0 < 256,
            0 <= b1 < 256,
            0 <= b2 < 256,
    ;
    assert((b0 as int) + 256 * (b1 as int) + 65536 * (b2 as int) == 0xC45D00 <==> (b0 == 0x00
        && b1 == 0x5D && b2 == 0xC4)) by (nonlinear_arith)
        requires
            0 <= b0 < 256,
            0 <= b1 < 256,
            0 <= b2 < 256,
    ;
}

/// Dolby Vision, HDR10+ and DSC, once announced, stay announced: no data
/// block takes them back.
pub proof fn lemma_block_keeps_announced(st: EdidCaps, tag: u8, data: Seq<u8>)
    ensures
        st.dolby ==> apply_block(st, tag, data).dolby,
        st.hdr10plus ==> apply_block(st, tag, data).hdr10plus,
        st.dsc ==> apply_block(st, tag, data).dsc,
{
}

/// An extended-tag-1 block (video-specific vendor block) announces Dolby
/// Vision exactly when its payload starts with Dolby's OUI bytes `46 D0 00`;
/// with any other three first bytes it changes nothing.
pub proof fn lemma_vsvdb_dolby_only(st: EdidCaps, payload: Seq<u8>)
    requires
        payload.len() >= 3,
    ensures
        (payload[0] == 0x46 && payload[1] == 0xD0 && payload[2] == 0x00) ==> apply_block(
            st,
            7,
            seq![1u8] + payload,
        ) == (EdidCaps { dolby: true, ..st }),
        !(payload[0] == 0x46 && payload[1] == 0xD0 && payload[2] == 0x00) ==> apply_block(
            st,
            7,
            seq![1u8] + payload,
        ) == st,
{
    let data = seq![1u8] + payload;
    assert(data.drop_first() =~= payload);
    lemma_oui_bytes(payload[0], payload[1], payload[2]);
}

/// An HDMI Licensing block does not lower a known HDMI generation.
pub proof fn lemma_licensing_block_keeps_generation(st: EdidCaps, data: Seq<u8>)
    requires
        data.len() >= 3,
        oui(data[0], data[1], data[2]) == HDMI_LLC_OUI,
        st.hdmi != HdmiGen::Unknown,
    ensures
        apply_block(st, 3, data).hdmi == st.hdmi,
{
}

/// Applies the extended-tag data block whose extended tag is `raw[start]`
/// and whose payload is `raw[start + 1..end]`.
fn apply_extended_block(init: EdidCaps, raw: &[u8], start: usize, end: usize) -> (r: EdidCaps)
    requires
        start < end <= raw@.len(),
    ensures
        r == apply_extended(init, raw@[start as int], raw@.subrange(start + 1, end as int)),
{
    let ghost payload = raw@.subrange(start + 1, end as int);
    let ext = raw[start];
    let plen = end - start - 1;
    let p = start + 1;
    let mut st = init;
    if ext == 6 && plen > 0 {
        st.hdr10 = raw[p] & 0x04 != 0;
        st.hlg = raw[p] & 0x08 != 0;
        if plen > 2 && raw[p + 2] != 0 {
            st.max_lum_code = raw[p + 2];
        }
    } else if ext == 5 && plen > 0 {
        st.bt2020 = raw[p] & 0x80 != 0;
        st.dci_p3 = raw[p] & 0x02 != 0;
    } else if ext == 13 {
        st.hdr10plus = true;
    } else if ext == 1 && plen >= 3 {
        proof {
            lemma_oui_bytes(payload[0], payload[1], payload[2]);
        }
        if raw[p] == 0x46 && raw[p + 1] == 0xD0 && raw[p + 2] == 0x00 {
            st.dolby = true;
        }
    }
    st
}

/// Applies the vendor-specific data block `raw[start..end]`.
fn apply_vendor_block(init: EdidCaps, raw: &[u8], start: usize, end: usize) -> (r: EdidCaps)
    requires
        start + 3 <= end <= raw@.len(),
    ensures
        r == apply_vendor(init, raw@.subrange(start as int, end as int)),
{
    let ghost data = raw@.subrange(start as int, end as int);
    let len = end - start;
    let b0 = raw[start];
    let b1 = raw[start + 1];
    let b2 = raw[start + 2];
    proof {
        lemma_oui_bytes(b0, b1, b2);
        assert(data[0] == b0 && data[1] == b1 && data[2] == b2);
    }
    let mut st = init;
    if b0 == 0x46 && b1 == 0xD0 && b2 == 0x00 {
        st.dolby = true;
    } else if b0 == 0x03 && b1 == 0x0C && b2 == 0x00 {
        if st.hdmi == HdmiGen::Unknown {
            st.hdmi = HdmiGen::Hdmi14;
        }
    } else if b0 == 0x00 && b1 == 0x5D && b2 == 0xC4 {
        if len >= 5 && raw[start + 4] >= 120 {
            st.hdmi = HdmiGen::Hdmi21;
        } else {
            st.hdmi = HdmiGen::Hdmi20;
        }
        if len >= 9 && raw[start + 8] & 0x80 != 0 {
            st.dsc = true;
        }
    }
    st
}

/// Applies the data block `raw[start..end]` of tag `tag`.
fn apply_data_block(init: EdidCaps, tag: u8, raw: &[u8], start: usize, end: usize) -> (r: EdidCaps)
    requires
        start <= end <= raw@.len(),
    ensures
        r == apply_block(init, tag, raw@.subrange(start as int, end as int)),
{
    let ghost data = raw@.subrange(start as int, end as int);
    if tag == 7 && end - start > 0 {
        assert(data.drop_first() =~= raw@.subrange(start + 1, end as int));
        apply_extended_block(init, raw, start, end)
    } else if tag == 3 && end - start >= 3 {
        apply_vendor_block(init, raw, start, end)
    } else {
        init
    }
}

/// Walks the data blocks of the CTA-861 extension at offset `bs`.
fn scan_cta_extension(raw: &[u8], bs: usize, init: EdidCaps) -> (r: EdidCaps)
    requires
        bs + 128 <= raw@.len(),
    ensures
        r == scan_blocks(raw@, bs as nat, 4, raw@[bs + 2] as nat, init),
{
    let n = raw.len();
    let dtd = raw[bs + 2] as usize;
    let mut i: usize = 4;
    let mut st = init;
    while i < dtd && i < n - bs
        invariant
            n == raw@.len(),
            bs + 128 <= raw@.len(),
            dtd == raw@[bs + 2],
            4 <= i,
            scan_blocks(raw@, bs as nat, 4, dtd as nat, init) == scan_blocks(raw@, bs as nat, i as nat, dtd as nat, st),
        decreases (if i < dtd {
            dtd - i
        } else {
            0
        }),
    {
        let hdr = raw[bs + i];
        let length = (hdr & 0x1f) as usize;
        if i + 1 + length > n - bs {
            return st;
        }
        let start = bs + i + 1;
        st = apply_data_block(st, (hdr >> 5) & 0x07, raw, start, start + length);
        i = i + 1 + length;
    }
    st
}

/// The empty capability set.
pub fn no_caps_exec() -> (r: EdidCaps)
    ensures
        r == no_caps(),
{
    EdidCaps {
        hdr10: false,
        hlg: false,
        hdr10plus: false,
        dolby: false,
        bt2020: false,
        dci_p3: false,
        dsc: false,
        max_lum_code: 0,
        hdmi: HdmiGen::Unknown,
    }
}

/// Decodes what the CTA-861 extension blocks of an EDID announce.
pub fn decode_caps(raw: &[u8]) -> (r: EdidCaps)
    ensures
        r == edid_caps(raw@),
{
    let n = raw.len();
    let mut bs: usize = 128;
    let mut st = no_caps_exec();
    while bs <= n && n - bs >= 128
        invariant
            n == raw@.len(),
            bs >= 128,
            edid_caps(raw@) == scan_extensions(raw@, bs as nat, st),
        decreases (if bs <= n {
            n - bs
        } else {
            0
        }),
    {
        if raw[bs] == 2 {
            st = scan_cta_extension(raw, bs, st);
        }
        bs = bs + 128;
    }
    st
}

/// The index of the first `b` in `s`, or `s.len()` when `s` holds none.
pub open spec fn find_byte(s: Seq<u8>, b: u8) -> nat
    decreases s.len(),
{
    if s.len() == 0 {
        0
    } else if s[0] == b {
        0
    } else {
        1 + find_byte(s.drop_first(), b)
    }
}

/// `s` up to its first line feed.
pub open spec fn until_newline(s: Seq<u8>) -> Seq<u8> {
    s.take(find_byte(s, 0x0a) as int)
}

/// The monitor name of the first display descriptor from the `k`-th on:
/// the four 18-byte descriptors start at byte 54; one whose header is
/// `00 00 00 FC` holds the name in its 13 bytes from offset 5, ended by a
/// line feed. The search stops at a descriptor that the EDID does not
/// hold in full.
pub open spec fn name_descriptor_from(raw: Seq<u8>, k: nat) -> Option<Seq<u8>>
    decreases 4 - k,
{
    if k >= 4 {
        None
    } else {
        let i: int = 54 + 18 * (k as int);
        if i + 17 >= raw.len() {
            None
        } else if raw[i] == 0 && raw[i + 1] == 0 && raw[i + 2] == 0 && raw[i + 3] == 0xfc {
            Some(until_newline(raw.subrange(i + 5, i + 18)))
        } else {
            name_descriptor_from(raw, k + 1)
        }
    }
}

/// The bytes of the monitor name descriptor of an EDID, if it has one.
pub open spec fn name_descriptor(raw: Seq<u8>) -> Option<Seq<u8>> {
    name_descriptor_from(raw, 0)
}

proof fn lemma_find_byte(s: Seq<u8>, b: u8)
    ensures
        find_byte(s, b) <= s.len(),
        find_byte(s, b) < s.len() ==> s[find_byte(s, b) as int] == b,
        forall|j: int| 0 <= j < find_byte(s, b) ==> s[j] != b,
    decreases s.len(),
{
    if s.len() > 0 && s[0] != b {
        lemma_find_byte(s.drop_first(), b);
        assert forall|j: int| 0 <= j < find_byte(s, b) implies s[j] != b by {
            if j > 0 {
                assert(s[j] == s.drop_first()[j - 1]);
            }
        }
    }
}

/// Whether the display descriptor at byte `i` has the monitor name header
/// `00 00 00 FC`.
pub open spec fn has_name_header(raw: Seq<u8>, i: int) -> bool {
    raw[i] == 0 && raw[i + 1] == 0 && raw[i + 2] == 0 && raw[i + 3] == 0xfc
}

proof fn lemma_name_descriptor_reaches(raw: Seq<u8>, j: nat, k: nat)
    requires
        raw.len() >= 126,
        j <= k < 4,
        forall|m: int| 0 <= m < k ==> !#[trigger] has_name_header(raw, 54 + 18 * m),
        has_name_header(raw, 54 + 18 * (k as int)),
    ensures
        name_descriptor_from(raw, j) == Some(
            until_newline(raw.subrange(54 + 18 * (k as int) + 5, 54 + 18 * (k as int) + 18)),
        ),
    decreases k - j,
{
    if j < k {
        assert(!has_name_header(raw, 54 + 18 * (j as int)));
        lemma_name_descriptor_reaches(raw, j + 1, k);
    }
}

/// When the EDID holds all four display descriptors and the `k`-th (at
/// byte 54 + 18k) is the first with header `00 00 00 FC`, the name is that
/// descriptor's text: its bytes from offset 5 on, at most 13 of them,
/// ending before the first line feed.
pub proof fn lemma_name_descriptor_found(raw: Seq<u8>, k: nat)
    requires
        raw.len() >= 126,
        k < 4,
        forall|m: int| 0 <= m < k ==> !#[trigger] has_name_header(raw, 54 + 18 * m),
        has_name_header(raw, 54 + 18 * (k as int)),
    ensures
        name_descriptor(raw) is Some,
        ({
            let b = name_descriptor(raw).unwrap();
            let i = 54 + 18 * (k as int);
            &&& b.len() <= 13
            &&& b == raw.subrange(i + 5, i + 5 + b.len())
            &&& forall|j: int| 0 <= j < b.len() ==> b[j] != 0x0a
            &&& (b.len() == 13 || raw[i + 5 + b.len()] == 0x0a)
        }),
{
    lemma_name_descriptor_reaches(raw, 0, k);
    let i = 54 + 18 * (k as int);
    let field = raw.subrange(i + 5, i + 18);
    lemma_find_byte(field, 0x0a);
    let b = until_newline(field);
    assert(b =~= raw.subrange(i + 5, i + 5 + b.len()));
    assert forall|j: int| 0 <= j < b.len() implies b[j] != 0x0a by {
        assert(b[j] == field[j]);
    }
    if b.len() < 13 {
        assert(field[b.len() as int] == raw[i + 5 + b.len()]);
    }
}

/// The bytes of the EDID's monitor name, if a name descriptor holds one.
pub fn monitor_name_bytes(raw: &[u8]) -> (r: Option<Vec<u8>>)
    ensures
        r is None <==> name_descriptor(raw@) is None,
        r matches Some(v) ==> name_descriptor(raw@) == Some(v@),
{
    let n = raw.len();
    let mut k: usize = 0;
    while k < 4
        invariant
            n == raw@.len(),
            k <= 4,
            name_descriptor(raw@) == name_descriptor_from(raw@, k as nat),
        decreases 4 - k,
    {
        let i = 54 + 18 * k;
        if i + 17 >= n {
            return None;
        }
        if raw[i] == 0 && raw[i + 1] == 0 && raw[i + 2] == 0 && raw[i + 3] == 0xfc {
            let ghost field = raw@.subrange(i + 5, i + 18);
            let mut v: Vec<u8> = Vec::new();
            let mut j = i + 5;
            while j < i + 18 && raw[j] != 0x0a
                invariant
                    n == raw@.len(),
                    i + 18 <= n,
                    i + 5 <= j <= i + 18,
                    field == raw@.subrange(i + 5, i + 18),
                    v@ == raw@.subrange(i + 5, j as int),
                    find_byte(field, 0x0a) == (j - (i + 5)) + find_byte(
                        raw@.subrange(j as int, i + 18),
                        0x0a,
                    ),
                decreases i + 18 - j,
            {
                assert(raw@.subrange(j as int, i + 18).drop_first() =~= raw@.subrange(
                    j + 1,
                    i + 18,
                ));
                v.push(raw[j]);
                assert(v@ =~= raw@.subrange(i + 5, j + 1));
                j = j + 1;
            }
            assert(field.take(j - (i + 5)) =~= v@);
            return Some(v);
        }
        k = k + 1;
    }
    None
}

/// What `String::from_utf8_lossy` makes of a byte string.
pub uninterp spec fn utf8_lossy(bytes: Seq<u8>) -> Seq<char>;

/// `String::from_utf8_lossy`: trusted to give `utf8_lossy` of the bytes,
/// which for valid UTF-8 is the decoded text (as its documentation says);
/// what it gives for invalid UTF-8 (replacement characters) is left unsaid.
#[verifier::external_body]
fn decode_utf8_lossy(bytes: &[u8]) -> (r: String)
    ensures
        r@ == utf8_lossy(bytes@),
        valid_utf8(bytes@) ==> r@ == decode_utf8(bytes@),
{
    String::from_utf8_lossy(bytes).into_owned()
}

/// `s` with each `-` turned into a space.
pub open spec fn replace_dashes(s: Seq<char>) -> Seq<char> {
    Seq::new(s.len(), |j: int| if s[j] == '-' { ' ' } else { s[j] })
}

/// The name shown for a display whose EDID names none: the connector's
/// sysfs name after its first `-`, with dashes turned into spaces
/// (`card1-HDMI-A-2` gives `HDMI A 2`), or `Display`.
pub open spec fn fallback_name(dir: Seq<char>) -> Seq<char> {
    let p = find_char(dir, '-');
    if p < dir.len() {
        replace_dashes(dir.skip(p + 1 as int))
    } else {
        "Display"@
    }
}

/// The display's name: the trimmed decoded monitor name when it is not
/// empty, else the fallback name of the connector.
pub open spec fn display_name_spec(decoded: Option<Seq<char>>, dir: Seq<char>) -> Seq<char> {
    let t = match decoded {
        Some(s) => trim(s),
        None => Seq::<char>::empty(),
    };
    if t.len() > 0 {
        t
    } else {
        fallback_name(dir)
    }
}

/// The display's name from its decoded EDID monitor name (if any) and the
/// connector's sysfs name.
pub fn display_name(decoded: Option<&str>, connector_dir: &str) -> (r: String)
    ensures
        r@ == display_name_spec(
            match decoded {
                Some(s) => Some(s@),
                None => None,
            },
            connector_dir@,
        ),
{
    if let Some(s) = decoded {
        let chars = chars_of(s);
        let (a, b) = trim_bounds(&chars, 0, chars.len());
        assert(chars@.subrange(0, chars@.len() as int) =~= chars@);
        if a < b {
            return s.substring_char(a, b).to_owned();
        }
    }
    let dir = chars_of(connector_dir);
    let n = dir.len();
    let p = find_char_in(&dir, 0, n, '-');
    assert(dir@.subrange(0, n as int) =~= dir@);
    if p == n {
        return String::from_str("Display");
    }
    let mut out = String::new();
    let mut j = p + 1;
    assert(replace_dashes(dir@.subrange(p + 1, j as int)) =~= Seq::<char>::empty());
    while j < n
        invariant
            n == dir@.len(),
            dir@ == connector_dir@,
            p < n,
            p + 1 <= j <= n,
            out@ == replace_dashes(dir@.subrange(p + 1, j as int)),
        decreases n - j,
    {
        let ghost prev = out@;
        if dir[j] == '-' {
            proof {
                reveal_strlit(" ");
            }
            out.append(" ");
            assert(out@ =~= prev + seq![' ']);
        } else {
            let piece = connector_dir.substring_char(j, j + 1);
            assert(piece@ =~= seq![dir@[j as int]]);
            out.append(piece);
        }
        assert(out@ =~= replace_dashes(dir@.subrange(p + 1, j + 1)));
        j = j + 1;
    }
    assert(dir@.subrange(p + 1, n as int) =~= dir@.skip(p + 1));
    out
}

/// The label of an HDMI generation.
pub open spec fn hdmi_label(g: HdmiGen) -> Option<Seq<char>> {
    match g {
        HdmiGen::Unknown => None,
        HdmiGen::Hdmi14 => Some("HDMI 1.4"@),
        HdmiGen::Hdmi20 => Some("HDMI 2.0"@),
        HdmiGen::Hdmi21 => Some("HDMI 2.1"@),
    }
}

/// The label of an HDMI generation.
pub fn hdmi_version_label(g: HdmiGen) -> (r: Option<String>)
    ensures
        match r {
            Some(s) => hdmi_label(g) == Some(s@),
            None => hdmi_label(g) is None,
        },
{
    match g {
        HdmiGen::Unknown => None,
        HdmiGen::Hdmi14 => Some(String::from_str("HDMI 1.4")),
        HdmiGen::Hdmi20 => Some(String::from_str("HDMI 2.0")),
        HdmiGen::Hdmi21 => Some(String::from_str("HDMI 2.1")),
    }
}

/// A lower-case hexadecimal digit.
pub open spec fn hex_digit(d: nat) -> char {
    if d < 10 {
        crate::text::digit_char(d)
    } else if d == 10 {
        'a'
    } else if d == 11 {
        'b'
    } else if d == 12 {
        'c'
    } else if d == 13 {
        'd'
    } else if d == 14 {
        'e'
    } else {
        'f'
    }
}

fn hex_str(d: u8) -> (r: &'static str)
    requires
        d < 16,
    ensures
        r@ == seq![hex_digit(d as nat)],
{
    proof {
        reveal_strlit("0");
        reveal_strlit("1");
        reveal_strlit("2");
        reveal_strlit("3");
        reveal_strlit("4");
        reveal_strlit("5");
        reveal_strlit("6");
        reveal_strlit("7");
        reveal_strlit("8");
        reveal_strlit("9");
        reveal_strlit("a");
        reveal_strlit("b");
        reveal_strlit("c");
        reveal_strlit("d");
        reveal_strlit("e");
        reveal_strlit("f");
    }
    let r = match d {
        0 => "0",
        1 => "1",
        2 => "2",
        3 => "3",
        4 => "4",
        5 => "5",
        6 => "6",
        7 => "7",
        8 => "8",
        9 => "9",
        10 => "a",
        11 => "b",
        12 => "c",
        13 => "d",
        14 => "e",
        _ => "f",
    };
    assert(r@ =~= seq![hex_digit(d as nat)]);
    r
}

/// The DisplayPort version that DPCD revision byte `v` names; an unknown
/// revision below 0x20 is shown as `DP (DPCD 0x..)` with two lower-case hex
/// digits.
pub open spec fn dp_label(v: u8) -> Seq<char> {
    if v == 0x10 {
        "DP 1.0"@
    } else if v == 0x11 {
        "DP 1.1"@
    } else if v == 0x12 {
        "DP 1.2"@
    } else if v == 0x13 {
        "DP 1.3"@
    } else if v == 0x14 {
        "DP 1.4"@
    } else if v >= 0x20 {
        "DP 2.x (UHBR)"@
    } else {
        "DP (DPCD 0x"@ + seq![hex_digit((v / 16) as nat), hex_digit((v % 16) as nat)] + ")"@
    }
}

/// The DisplayPort version label of DPCD revision byte `v`.
pub fn dp_version_label(v: u8) -> (r: String)
    ensures
        r@ == dp_label(v),
{
    if v == 0x10 {
        String::from_str("DP 1.0")
    } else if v == 0x11 {
        String::from_str("DP 1.1")
    } else if v == 0x12 {
        String::from_str("DP 1.2")
    } else if v == 0x13 {
        String::from_str("DP 1.3")
    } else if v == 0x14 {
        String::from_str("DP 1.4")
    } else if v >= 0x20 {
        String::from_str("DP 2.x (UHBR)")
    } else {
        String::from_str("DP (DPCD 0x").concat(hex_str(v / 16)).concat(hex_str(v % 16)).concat(
            ")",
        )
    }
}

/// What the panel shows of the connected display.
#[derive(Debug, Clone)]
pub struct DisplayInfo {
    pub name: String,
    /// The connector's sysfs entry, e.g. `card1-HDMI-A-2`.
    pub connector_dir: String,
    pub hdr10: bool,
    pub hlg: bool,
    pub hdr10plus: bool,
    pub dolby: bool,
    pub bt2020: bool,
    pub dci_p3: bool,
    /// Display Stream Compression (EDID or sysfs).
    pub dsc: bool,
    /// HDMI-CEC (`/dev/cec0` present).
    pub cec: bool,
    /// The EDID's max luminance code (see `EdidCaps`), 0 when none.
    pub max_lum_code: u8,
    pub hdmi_ver: Option<String>,
    pub dp_ver: Option<String>,
}

pub struct DisplayInfoView {
    pub name: Seq<char>,
    pub connector_dir: Seq<char>,
    pub hdr10: bool,
    pub hlg: bool,
    pub hdr10plus: bool,
    pub dolby: bool,
    pub bt2020: bool,
    pub dci_p3: bool,
    pub dsc: bool,
    pub cec: bool,
    pub max_lum_code: u8,
    pub hdmi_ver: Option<Seq<char>>,
    pub dp_ver: Option<Seq<char>>,
}

pub open spec fn opt_view(o: Option<String>) -> Option<Seq<char>> {
    match o {
        Some(s) => Some(s@),
        None => None,
    }
}

impl View for DisplayInfo {
    type V = DisplayInfoView;

    open spec fn view(&self) -> DisplayInfoView {
        DisplayInfoView {
            name: self.name@,
            connector_dir: self.connector_dir@,
            hdr10: self.hdr10,
            hlg: self.hlg,
            hdr10plus: self.hdr10plus,
            dolby: self.dolby,
            bt2020: self.bt2020,
            dci_p3: self.dci_p3,
            dsc: self.dsc,
            cec: self.cec,
            max_lum_code: self.max_lum_code,
            hdmi_ver: opt_view(self.hdmi_ver),
            dp_ver: opt_view(self.dp_ver),
        }
    }
}

/// Whether the connector's sysfs name marks a DisplayPort connector.
pub open spec fn is_dp_spec(dir: Seq<char>) -> bool {
    contains_seq(dir, "-DP-"@) || contains_seq(dir, "-eDP-"@)
}

/// What the panel shows of a display with EDID `raw` on connector `dir`,
/// given whether sysfs reports DSC, the connector's DPCD bytes (empty when
/// unreadable) and whether a CEC device exists.
pub open spec fn display_info_spec(
    raw: Seq<u8>,
    dir: Seq<char>,
    dsc_sysfs: bool,
    dpcd: Seq<u8>,
    cec: bool,
) -> DisplayInfoView {
    let caps = edid_caps(raw);
    let decoded = match name_descriptor(raw) {
        Some(b) => Some(utf8_lossy(b)),
        None => None,
    };
    DisplayInfoView {
        name: display_name_spec(decoded, dir),
        connector_dir: dir,
        hdr10: caps.hdr10,
        hlg: caps.hlg,
        hdr10plus: caps.hdr10plus,
        dolby: caps.dolby,
        bt2020: caps.bt2020,
        dci_p3: caps.dci_p3,
        dsc: caps.dsc || dsc_sysfs,
        cec: cec,
        max_lum_code: caps.max_lum_code,
        hdmi_ver: hdmi_label(caps.hdmi),
        dp_ver: if is_dp_spec(dir) && dpcd.len() > 0 {
            Some(dp_label(dpcd[0]))
        } else {
            None
        },
    }
}

/// Reads what the panel shows of a display from its EDID, its connector's
/// sysfs name, whether sysfs reports DSC, its DPCD bytes (empty when
/// unreadable) and whether a CEC device exists.
pub fn parse_display_info(
    raw: &[u8],
    connector_dir: &str,
    dsc_sysfs: bool,
    dpcd: &[u8],
    cec: bool,
) -> (r: DisplayInfo)
    ensures
        r@ == display_info_spec(raw@, connector_dir@, dsc_sysfs, dpcd@, cec),
        name_descriptor(raw@) matches Some(b) ==> (valid_utf8(b) ==> r@.name == display_name_spec(
            Some(decode_utf8(b)),
            connector_dir@,
        )),
{
    let caps = decode_caps(raw);
    let name = match monitor_name_bytes(raw) {
        Some(bytes) => {
            let decoded = decode_utf8_lossy(bytes.as_slice());
            display_name(Some(decoded.as_str()), connector_dir)
        },
        None => display_name(None, connector_dir),
    };
    let dp_ver = if is_dp_connector(connector_dir) && dpcd.len() > 0 {
        Some(dp_version_label(dpcd[0]))
    } else {
        None
    };
    let hdmi_ver = hdmi_version_label(caps.hdmi);
    DisplayInfo {
        name,
        connector_dir: connector_dir.to_owned(),
        hdr10: caps.hdr10,
        hlg: caps.hlg,
        hdr10plus: caps.hdr10plus,
        dolby: caps.dolby,
        bt2020: caps.bt2020,
        dci_p3: caps.dci_p3,
        dsc: caps.dsc || dsc_sysfs,
        cec,
        max_lum_code: caps.max_lum_code,
        hdmi_ver,
        dp_ver,
    }
}

} // verus!
