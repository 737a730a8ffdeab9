//! The typed event vocabulary that rides in an event's `data` slot, the
//! custom-event namespace rule, and session-id minting.
use vstd::prelude::*;

pub mod event_type;

verus! {

/// Prefix of the custom-event namespace: `ext.<vendor>.<name>`.
pub const EXT_EVENT_PREFIX: &'static str = "ext.";

} // verus!

verus! {

/// `"ext."`, character by character.
pub open spec fn ext_prefix() -> Seq<char> {
    seq!['e', 'x', 't', '.']
}

/// The `.`-separated segments of `s`, in order. A string without a dot is
/// one segment; an empty string is one empty segment.
pub open spec fn split_segments(s: Seq<char>) -> Seq<Seq<char>>
    decreases s.len(),
{
    if s.len() == 0 {
        seq![Seq::empty()]
    } else {
        let prev = split_segments(s.drop_last());
        if s.last() == '.' {
            prev.push(Seq::empty())
        } else {
            prev.update(prev.len() - 1, prev.last().push(s.last()))
        }
    }
}

/// Every segment is non-empty.
pub open spec fn all_nonempty(segs: Seq<Seq<char>>) -> bool {
    forall|k: int| 0 <= k < segs.len() ==> #[trigger] segs[k].len() > 0
}

/// A well-formed custom event type: `ext.` followed by at least two
/// segments (`<vendor>.<name>`, more allowed), none of them empty.
pub open spec fn is_ext_event_type(s: Seq<char>) -> bool {
    &&& s.len() >= 4
    &&& s.take(4) == ext_prefix()
    &&& split_segments(s.skip(4)).len() >= 2
    &&& all_nonempty(split_segments(s.skip(4)))
}

proof fn lemma_split_segments_len(s: Seq<char>)
    ensures
        split_segments(s).len() >= 1,
    decreases s.len(),
{
    if s.len() > 0 {
        lemma_split_segments_len(s.drop_last());
    }
}

proof fn lemma_segments_by_dots(r: Seq<char>)
    ensures
        split_segments(r).len() >= 1,
        split_segments(r).last().len() == 0 <==> (r.len() == 0 || r.last() == '.'),
        split_segments(r).len() >= 2 <==> r.contains('.'),
        all_nonempty(split_segments(r).drop_last()) <==> (forall|i: int|
            0 <= i < r.len() && #[trigger] r[i] == '.' ==> i > 0 && r[i - 1] != '.'),
    decreases r.len(),
{
    let segs = split_segments(r);
    if r.len() == 0 {
        assert(segs =~= seq![Seq::<char>::empty()]);
        assert(segs.drop_last() =~= Seq::<Seq<char>>::empty());
        assert(!r.contains('.'));
    } else {
        let p = r.drop_last();
        let c = r.last();
        lemma_segments_by_dots(p);
        let prev = split_segments(p);
        assert(r =~= p.push(c));
        if c == '.' {
            assert(segs == prev.push(Seq::<char>::empty()));
            assert(segs.drop_last() =~= prev);
            assert(r.contains('.')) by {
                assert(r[r.len() - 1] == '.');
            }
            if all_nonempty(prev) {
                assert(all_nonempty(prev.drop_last()));
                assert(prev[prev.len() - 1].len() > 0);
                assert forall|i: int| 0 <= i < r.len() && #[trigger] r[i] == '.' implies i > 0
                    && r[i - 1] != '.' by {
                    if i < r.len() - 1 {
                        assert(p[i] == r[i]);
                        if i > 0 {
                            assert(p[i - 1] == r[i - 1]);
                        }
                    } else {
                        assert(p.len() > 0);
                        assert(r[i - 1] == p.last());
                    }
                }
            }
            if forall|i: int| 0 <= i < r.len() && #[trigger] r[i] == '.' ==> i > 0 && r[i - 1]
                != '.' {
                assert forall|i: int| 0 <= i < p.len() && #[trigger] p[i] == '.' implies i > 0
                    && p[i - 1] != '.' by {
                    assert(r[i] == p[i]);
                }
                assert(r[r.len() - 1] == '.');
                assert(p.len() > 0 && p.last() != '.');
                assert forall|k: int| 0 <= k < prev.len() implies #[trigger] prev[k].len() > 0 by {
                    if k < prev.len() - 1 {
                        assert(prev.drop_last()[k] == prev[k]);
                    }
                }
            }
        } else {
            assert(segs == prev.update(prev.len() - 1, prev.last().push(c)));
            assert(segs.drop_last() =~= prev.drop_last());
            if r.contains('.') {
                let k = choose|k: int| 0 <= k < r.len() && r[k] == '.';
                assert(p[k] == '.');
            }
            if p.contains('.') {
                let k = choose|k: int| 0 <= k < p.len() && p[k] == '.';
                assert(r[k] == '.');
            }
            if forall|i: int| 0 <= i < p.len() && #[trigger] p[i] == '.' ==> i > 0 && p[i - 1]
                != '.' {
                assert forall|i: int| 0 <= i < r.len() && #[trigger] r[i] == '.' implies i > 0
                    && r[i - 1] != '.' by {
                    assert(i < p.len());
                    assert(p[i] == r[i]);
                    if i > 0 {
                        assert(p[i - 1] == r[i - 1]);
                    }
                }
            }
            if forall|i: int| 0 <= i < r.len() && #[trigger] r[i] == '.' ==> i > 0 && r[i - 1]
                != '.' {
                assert forall|i: int| 0 <= i < p.len() && #[trigger] p[i] == '.' implies i > 0
                    && p[i - 1] != '.' by {
                    assert(r[i] == p[i]);
                }
            }
        }
    }
}

/// The custom-event rule in plain terms: a type is a well-formed custom
/// event exactly when it starts with `ext.` and what follows is non-empty,
/// holds at least one dot, does not end with a dot, and has every dot
/// preceded by a character that is not a dot (so no segment is empty).
pub proof fn lemma_ext_event_type_rule(s: Seq<char>)
    ensures
        is_ext_event_type(s) <==> {
            &&& s.len() >= 4
            &&& s[0] == 'e' && s[1] == 'x' && s[2] == 't' && s[3] == '.'
            &&& s.len() > 4
            &&& s.last() != '.'
            &&& exists|i: int| 4 <= i < s.len() && #[trigger] s[i] == '.'
            &&& forall|i: int| 4 <= i < s.len() && #[trigger] s[i] == '.' ==> i > 4 && s[i - 1] != '.'
        },
{
    if s.len() >= 4 {
        let r = s.skip(4);
        lemma_segments_by_dots(r);
        let segs = split_segments(r);
        assert(s.take(4) == ext_prefix() <==> (s[0] == 'e' && s[1] == 'x' && s[2] == 't' && s[3]
            == '.')) by {
            if s[0] == 'e' && s[1] == 'x' && s[2] == 't' && s[3] == '.' {
                assert(s.take(4) =~= ext_prefix());
            }
            if s.take(4) == ext_prefix() {
                assert(s.take(4)[0] == s[0] && s.take(4)[1] == s[1] && s.take(4)[2] == s[2]
                    && s.take(4)[3] == s[3]);
            }
        }
        // all segments non-empty <=> completed ones and the last one are
        if all_nonempty(segs) {
            assert(all_nonempty(segs.drop_last()));
            assert(segs[segs.len() - 1].len() > 0);
        }
        if all_nonempty(segs.drop_last()) && segs.last().len() > 0 {
            assert forall|k: int| 0 <= k < segs.len() implies #[trigger] segs[k].len() > 0 by {
                if k < segs.len() - 1 {
                    assert(segs.drop_last()[k] == segs[k]);
                }
            }
        }
        if r.contains('.') {
            let k = choose|k: int| 0 <= k < r.len() && r[k] == '.';
            assert(s[k + 4] == '.');
        }
        if exists|i: int| 4 <= i < s.len() && #[trigger] s[i] == '.' {
            let i = choose|i: int| 4 <= i < s.len() && #[trigger] s[i] == '.';
            assert(r[i - 4] == '.');
        }
        if r.len() > 0 {
            assert(r.last() == s.last());
        }
        if forall|i: int| 0 <= i < r.len() && #[trigger] r[i] == '.' ==> i > 0 && r[i - 1] != '.' {
            assert forall|i: int| 4 <= i < s.len() && #[trigger] s[i] == '.' implies i > 4 && s[i
                - 1] != '.' by {
                assert(r[i - 4] == s[i]);
                if i > 4 {
                    assert(r[i - 5] == s[i - 1]);
                }
            }
        }
        if forall|i: int| 4 <= i < s.len() && #[trigger] s[i] == '.' ==> i > 4 && s[i - 1] != '.' {
            assert forall|i: int| 0 <= i < r.len() && #[trigger] r[i] == '.' implies i > 0 && r[i
                - 1] != '.' by {
                assert(s[i + 4] == r[i]);
                if i > 0 {
                    assert(s[i + 3] == r[i - 1]);
                }
            }
        }
    }
}

/// True when `event_type` is a well-formed custom event:
/// `ext.<vendor>.<name>` with non-empty segments (more segments allowed).
pub fn is_valid_ext_event_type(event_type: &str) -> (res: bool)
    ensures
        res == is_ext_event_type(event_type@),
        res <==> {
            let s = event_type@;
            &&& s.len() > 4
            &&& s[0] == 'e' && s[1] == 'x' && s[2] == 't' && s[3] == '.'
            &&& s.last() != '.'
            &&& exists|i: int| 4 <= i < s.len() && #[trigger] s[i] == '.'
            &&& forall|i: int| 4 <= i < s.len() && #[trigger] s[i] == '.' ==> i > 4 && s[i - 1] != '.'
        },
{
    proof {
        lemma_ext_event_type_rule(event_type@);
    }
    let ghost s = event_type@;
    let mut pos: u8 = 0;
    let mut seen_dot = false;
    let mut cur_empty = true;
    let mut bad = false;
    for c in it: event_type.chars()
        invariant
            it.seq() == s,
            s == event_type@,
            pos < 4 ==> !seen_dot && cur_empty && !bad,
            pos as int == if it.index() < 4 { it.index() as int } else { 4 },
            pos < 4 ==> s.take(it.index() as int) == ext_prefix().take(it.index() as int),
            pos == 4 ==> s.take(4) == ext_prefix(),
            pos == 4 ==> seen_dot == (split_segments(s.take(it.index() as int).skip(4)).len() >= 2),
            pos == 4 ==> cur_empty == (split_segments(s.take(it.index() as int).skip(4)).last().len() == 0),
            pos == 4 ==> bad == !all_nonempty(split_segments(s.take(it.index() as int).skip(4)).drop_last()),
            pos == 4 ==> split_segments(s.take(it.index() as int).skip(4)).len() >= 1,
    {
        let ghost i = it.index() as int;
        assert(0 <= i < s.len() && c == s[i]);
        if pos < 4 {
            let want = if pos == 0 {
                'e'
            } else if pos == 1 {
                'x'
            } else if pos == 2 {
                't'
            } else {
                '.'
            };
            if c != want {
                proof {
                    if s.len() >= 4 {
                        assert(s.take(4)[i] == c);
                        assert(ext_prefix()[i] == want);
                        assert(s.take(4) != ext_prefix());
                    }
                }
                return false;
            }
            proof {
                assert(s.take(i + 1) =~= s.take(i).push(c));
                assert(ext_prefix().take(i + 1) =~= ext_prefix().take(i).push(want));
            }
            pos = pos + 1;
            proof {
                if pos == 4 {
                    assert(s.take(4) =~= ext_prefix());
                    let r = s.take(i + 1).skip(4);
                    assert(r =~= Seq::<char>::empty());
                    assert(split_segments(r) =~= seq![Seq::<char>::empty()]);
                    assert(split_segments(r).drop_last() =~= Seq::<Seq<char>>::empty());
                }
            }
        } else {
            let ghost r = s.take(i).skip(4);
            let ghost segs = split_segments(r);
            proof {
                lemma_split_segments_len(r);
                assert(s.take(i + 1).skip(4) =~= r.push(c));
                assert(r.push(c).drop_last() =~= r);
            }
            let ghost segs2 = split_segments(r.push(c));
            if c == '.' {
                proof {
                    assert(segs2 == segs.push(Seq::<char>::empty()));
                    assert(segs2.drop_last() =~= segs);
                    if all_nonempty(segs) {
                        assert(all_nonempty(segs.drop_last()));
                    }
                    if all_nonempty(segs.drop_last()) && segs.last().len() > 0 {
                        assert forall|k: int| 0 <= k < segs.len() implies #[trigger] segs[k].len()
                            > 0 by {
                            if k < segs.len() - 1 {
                                assert(segs.drop_last()[k] == segs[k]);
                            }
                        }
                    }
                }
                bad = bad || cur_empty;
                seen_dot = true;
                cur_empty = true;
            } else {
                proof {
                    assert(segs2 == segs.update(segs.len() - 1, segs.last().push(c)));
                    assert(segs2.drop_last() =~= segs.drop_last());
                }
                cur_empty = false;
            }
        }
    }
    if pos < 4 {
        return false;
    }
    proof {
        let segs = split_segments(s.skip(4));
        assert(s.take(s.len() as int) =~= s);
        lemma_split_segments_len(s.skip(4));
        if all_nonempty(segs) {
            assert(all_nonempty(segs.drop_last()));
            assert(segs[segs.len() - 1].len() > 0);
        }
        if all_nonempty(segs.drop_last()) && segs.last().len() > 0 {
            assert forall|k: int| 0 <= k < segs.len() implies #[trigger] segs[k].len() > 0 by {
                if k < segs.len() - 1 {
                    assert(segs.drop_last()[k] == segs[k]);
                }
            }
        }
    }
    !bad && !cur_empty && seen_dot
}

} // verus!

verus! {

/// A PCM audio format: sample rate, sample width in bytes, channel count.
#[derive(Debug, Clone, Copy, PartialEq, Eq, Structural)]
pub struct AudioFormat {
    pub rate: u32,
    pub width: u32,
    pub channels: u32,
}

impl AudioFormat {
    /// 16 kHz mono int16 PCM — the v1 baseline of every shipping audio stage.
    #[allow(non_snake_case)]
    pub fn PCM_16K_MONO() -> (res: AudioFormat)
        ensures
            res.rate == 16000,
            res.width == 2,
            res.channels == 1,
    {
        AudioFormat { rate: 16000, width: 2, channels: 1 }
    }
}

/// A session began upstream.
#[derive(Debug, Clone)]
pub struct AudioStart {
    pub session_id: String,
    pub format: AudioFormat,
}

/// One frame of audio; the samples ride in the event's binary payload.
#[derive(Debug, Clone)]
pub struct AudioChunk {
    pub session_id: String,
    pub timestamp_ms: u64,
}

/// The session ended. `cutoff_ms`, when present, is the shared-clock
/// position after which buffered audio must not be processed.
#[derive(Debug, Clone)]
pub struct AudioStop {
    pub session_id: String,
    pub cutoff_ms: Option<u64>,
}

/// Receiver-side flow credit: the sender may send `frames` more chunks.
#[derive(Debug, Clone)]
pub struct FlowCredit {
    pub session_id: String,
    pub frames: u32,
}

/// A stage-reported error.
#[derive(Debug, Clone)]
pub struct ErrorEvent {
    pub session_id: Option<String>,
    pub code: String,
    pub message: String,
    pub fatal: bool,
}

/// One audio device as the OS reports it.
#[derive(Debug, Clone, PartialEq, Eq)]
pub struct AudioDeviceInfo {
    pub device_id: u32,
    pub uid: String,
    pub name: String,
    pub is_input: bool,
    pub is_output: bool,
    pub is_default_input: bool,
    pub is_default_output: bool,
}

/// The full device list.
#[derive(Debug, Clone)]
pub struct AudioDeviceSnapshot {
    pub devices: Vec<AudioDeviceInfo>,
}

/// A device appeared.
#[derive(Debug, Clone)]
pub struct AudioDeviceAdded {
    pub device: AudioDeviceInfo,
}

/// A device disappeared.
#[derive(Debug, Clone)]
pub struct AudioDeviceRemoved {
    pub device_id: u32,
    pub uid: String,
    pub name: String,
}

/// The default input or output device changed.
#[derive(Debug, Clone)]
pub struct AudioDeviceDefaultChanged {
    pub direction: String,
    pub device_id: u32,
    pub uid: String,
    pub name: String,
}

/// Location services reported an error.
#[derive(Debug, Clone)]
pub struct LocationError {
    pub code: String,
    pub message: String,
}

/// A display disappeared.
#[derive(Debug, Clone)]
pub struct DisplayRemoved {
    pub display_id: u32,
}

} // verus!

verus! {

/// The lowercase hex digit of a nibble.
pub open spec fn hex_char(n: u8) -> char {
    if n < 10 {
        (n + 48) as char
    } else {
        (n + 87) as char
    }
}

/// Two lowercase hex digits, high nibble first.
pub open spec fn hex_byte(b: u8) -> Seq<char> {
    seq![hex_char(b >> 4), hex_char(b & 0x0f)]
}

/// The lowercase hex text of a byte string, two digits per byte.
pub open spec fn hex_text(b: Seq<u8>) -> Seq<char>
    decreases b.len(),
{
    if b.len() == 0 {
        Seq::empty()
    } else {
        hex_text(b.drop_last()) + hex_byte(b.last())
    }
}

/// The 16 random bytes with the RFC 4122 version (4) and variant (10x)
/// bits stamped in.
pub open spec fn stamp_v4(b: Seq<u8>) -> Seq<u8> {
    b.update(6, (b[6] & 0x0f) | 0x40).update(8, (b[8] & 0x3f) | 0x80)
}

/// The canonical 8-4-4-4-12 hyphenated text of 16 bytes.
pub open spec fn uuid_text(b: Seq<u8>) -> Seq<char> {
    hex_text(b.subrange(0, 4)) + seq!['-'] + hex_text(b.subrange(4, 6)) + seq!['-'] + hex_text(
        b.subrange(6, 8),
    ) + seq!['-'] + hex_text(b.subrange(8, 10)) + seq!['-'] + hex_text(b.subrange(10, 16))
}

proof fn lemma_hex_text_len(b: Seq<u8>)
    ensures
        hex_text(b).len() == 2 * b.len(),
    decreases b.len(),
{
    if b.len() > 0 {
        lemma_hex_text_len(b.drop_last());
    }
}

proof fn lemma_hex_text_first(b: Seq<u8>)
    requires
        b.len() > 0,
    ensures
        hex_text(b)[0] == hex_char(b[0] >> 4),
    decreases b.len(),
{
    let p = b.drop_last();
    if b.len() > 1 {
        lemma_hex_text_first(p);
        lemma_hex_text_len(p);
        assert(p[0] == b[0]);
        assert(hex_text(b)[0] == hex_text(p)[0]);
    } else {
        assert(hex_text(p) =~= Seq::<char>::empty());
        assert(hex_text(b) =~= hex_byte(b.last()));
    }
}

/// A lowercase hex digit character.
pub open spec fn is_lower_hex(c: char) -> bool {
    ('0' <= c && c <= '9') || ('a' <= c && c <= 'f')
}

/// The value of a lowercase hex digit character.
pub open spec fn hex_value(c: char) -> int {
    if '0' <= c && c <= '9' {
        c as int - 48
    } else {
        c as int - 87
    }
}

/// Where the high digit of byte `j` stands in the 8-4-4-4-12 text: two
/// characters per byte, plus one for each hyphen before it (after bytes 4,
/// 6, 8 and 10).
pub open spec fn uuid_pos(j: int) -> int {
    2 * j + (if j >= 4 {
        1int
    } else {
        0
    }) + (if j >= 6 {
        1int
    } else {
        0
    }) + (if j >= 8 {
        1int
    } else {
        0
    }) + (if j >= 10 {
        1int
    } else {
        0
    })
}

/// The hyphen positions of the 8-4-4-4-12 text.
pub open spec fn is_uuid_hyphen(i: int) -> bool {
    i == 8 || i == 13 || i == 18 || i == 23
}

proof fn lemma_hex_char_digit(n: u8)
    requires
        n < 16,
    ensures
        is_lower_hex(hex_char(n)),
        hex_value(hex_char(n)) == n,
{
}

proof fn lemma_nibbles(x: u8)
    ensures
        x >> 4 < 16,
        x & 0x0f < 16,
        (x >> 4) * 16 + (x & 0x0f) == x,
{
    assert(x >> 4 < 16 && x & 0x0f < 16 && (x >> 4) * 16 + (x & 0x0f) == x) by (bit_vector);
}

proof fn lemma_hex_text_index(b: Seq<u8>, i: int)
    requires
        0 <= i < b.len(),
    ensures
        hex_text(b).len() == 2 * b.len(),
        hex_text(b)[2 * i] == hex_char(b[i] >> 4),
        hex_text(b)[2 * i + 1] == hex_char(b[i] & 0x0f),
    decreases b.len(),
{
    let p = b.drop_last();
    lemma_hex_text_len(b);
    lemma_hex_text_len(p);
    if i < b.len() - 1 {
        lemma_hex_text_index(p, i);
        assert(p[i] == b[i]);
    }
}

proof fn lemma_hex_text_all_hex(b: Seq<u8>)
    ensures
        forall|k: int| 0 <= k < hex_text(b).len() ==> is_lower_hex(#[trigger] hex_text(b)[k]),
{
    lemma_hex_text_len(b);
    assert forall|k: int| 0 <= k < hex_text(b).len() implies is_lower_hex(
        #[trigger] hex_text(b)[k],
    ) by {
        let i = k / 2;
        lemma_hex_text_index(b, i);
        lemma_nibbles(b[i]);
        lemma_hex_char_digit(b[i] >> 4);
        lemma_hex_char_digit(b[i] & 0x0f);
        if k % 2 == 0 {
            assert(k == 2 * i);
        } else {
            assert(k == 2 * i + 1);
        }
    }
}

/// The text of a session id reads back as its bytes: it is 36 characters;
/// the hyphens stand at 8, 13, 18 and 23 and every other character is a
/// lowercase hex digit; and the two digits at [`uuid_pos`]`(j)` spell byte
/// `j`, high nibble first.
pub proof fn lemma_uuid_text_reads_back(s: Seq<u8>)
    requires
        s.len() == 16,
    ensures
        uuid_text(s).len() == 36,
        forall|i: int| 0 <= i < 36 && is_uuid_hyphen(i) ==> #[trigger] uuid_text(s)[i] == '-',
        forall|i: int|
            0 <= i < 36 && !is_uuid_hyphen(i) ==> is_lower_hex(#[trigger] uuid_text(s)[i]),
        forall|j: int|
            0 <= j < 16 ==> hex_value(#[trigger] uuid_text(s)[uuid_pos(j)]) * 16 + hex_value(
                uuid_text(s)[uuid_pos(j) + 1],
            ) == s[j],
{
    let a = s.subrange(0, 4);
    let b = s.subrange(4, 6);
    let c = s.subrange(6, 8);
    let d = s.subrange(8, 10);
    let e = s.subrange(10, 16);
    lemma_hex_text_len(a);
    lemma_hex_text_len(b);
    lemma_hex_text_len(c);
    lemma_hex_text_len(d);
    lemma_hex_text_len(e);
    lemma_hex_text_all_hex(a);
    lemma_hex_text_all_hex(b);
    lemma_hex_text_all_hex(c);
    lemma_hex_text_all_hex(d);
    lemma_hex_text_all_hex(e);
    let u = uuid_text(s);
    let ha = hex_text(a);
    let hb = hex_text(b);
    let hc = hex_text(c);
    let hd = hex_text(d);
    let he = hex_text(e);
    assert(u =~= ha + seq!['-'] + hb + seq!['-'] + hc + seq!['-'] + hd + seq!['-'] + he);
    assert forall|i: int| 0 <= i < 36 implies (is_uuid_hyphen(i) ==> #[trigger] u[i] == '-') && (
    !is_uuid_hyphen(i) ==> is_lower_hex(u[i])) by {
        if i < 8 {
            assert(u[i] == ha[i]);
        } else if i == 8 {
        } else if i < 13 {
            assert(u[i] == hb[i - 9]);
        } else if i == 13 {
        } else if i < 18 {
            assert(u[i] == hc[i - 14]);
        } else if i == 18 {
        } else if i < 23 {
            assert(u[i] == hd[i - 19]);
        } else if i == 23 {
        } else {
            assert(u[i] == he[i - 24]);
        }
    }
    assert forall|j: int| 0 <= j < 16 implies hex_value(#[trigger] u[uuid_pos(j)]) * 16
        + hex_value(u[uuid_pos(j) + 1]) == s[j] by {
        let p = uuid_pos(j);
        lemma_nibbles(s[j]);
        lemma_hex_char_digit(s[j] >> 4);
        lemma_hex_char_digit(s[j] & 0x0f);
        if j < 4 {
            lemma_hex_text_index(a, j);
            assert(a[j] == s[j]);
            assert(u[p] == ha[2 * j] && u[p + 1] == ha[2 * j + 1]);
        } else if j < 6 {
            lemma_hex_text_index(b, j - 4);
            assert(b[j - 4] == s[j]);
            assert(u[p] == hb[2 * (j - 4)] && u[p + 1] == hb[2 * (j - 4) + 1]);
        } else if j < 8 {
            lemma_hex_text_index(c, j - 6);
            assert(c[j - 6] == s[j]);
            assert(u[p] == hc[2 * (j - 6)] && u[p + 1] == hc[2 * (j - 6) + 1]);
        } else if j < 10 {
            lemma_hex_text_index(d, j - 8);
            assert(d[j - 8] == s[j]);
            assert(u[p] == hd[2 * (j - 8)] && u[p + 1] == hd[2 * (j - 8) + 1]);
        } else {
            lemma_hex_text_index(e, j - 10);
            assert(e[j - 10] == s[j]);
            assert(u[p] == he[2 * (j - 10)] && u[p + 1] == he[2 * (j - 10) + 1]);
        }
    }
}

fn hex_digit(n: u8) -> (res: char)
    requires
        n < 16,
    ensures
        res == hex_char(n),
{
    if n < 10 {
        (n + 48) as char
    } else {
        (n + 87) as char
    }
}

fn push_hex(out: &mut String, b: &[u8; 16], from: usize, to: usize)
    requires
        from <= to <= 16,
    ensures
        final(out)@ == old(out)@ + hex_text(b@.subrange(from as int, to as int)),
{
    let mut i = from;
    while i < to
        invariant
            from <= i <= to <= 16,
            out@ == old(out)@ + hex_text(b@.subrange(from as int, i as int)),
        decreases to - i,
    {
        let x = b[i];
        let hi = x >> 4;
        let lo = x & 0x0f;
        assert(hi < 16 && lo < 16) by (bit_vector)
            requires
                hi == x >> 4,
                lo == x & 0x0f,
        ;
        out.push(hex_digit(hi));
        out.push(hex_digit(lo));
        proof {
            let s = b@.subrange(from as int, i + 1);
            assert(s.drop_last() =~= b@.subrange(from as int, i as int));
            assert(s.last() == x);
            assert(hex_text(s) == hex_text(s.drop_last()) + hex_byte(x));
            assert(out@ =~= old(out)@ + hex_text(s));
        }
        i = i + 1;
    }
}

/// The hyphenated RFC 4122 version-4 text of 16 random bytes: the version
/// nibble set to 4 and the variant bits to `10`, then 8-4-4-4-12 lowercase
/// hex. Always 36 characters, with `4` at index 14 and one of `8 9 a b` at
/// index 19.
pub fn session_id_from_bytes(bytes: [u8; 16]) -> (res: String)
    ensures
        res@ == uuid_text(stamp_v4(bytes@)),
        res@.len() == 36,
        res@[14] == '4',
        res@[19] == '8' || res@[19] == '9' || res@[19] == 'a' || res@[19] == 'b',
        forall|i: int| 0 <= i < 36 && is_uuid_hyphen(i) ==> #[trigger] res@[i] == '-',
        forall|i: int| 0 <= i < 36 && !is_uuid_hyphen(i) ==> is_lower_hex(#[trigger] res@[i]),
        forall|j: int|
            0 <= j < 16 ==> hex_value(#[trigger] res@[uuid_pos(j)]) * 16 + hex_value(
                res@[uuid_pos(j) + 1],
            ) == if j == 6 {
                ((bytes@[6] & 0x0f) | 0x40) as int
            } else if j == 8 {
                ((bytes@[8] & 0x3f) | 0x80) as int
            } else {
                bytes@[j] as int
            },
{
    let mut b = bytes;
    let x6 = b[6];
    let x8 = b[8];
    let b6 = (x6 & 0x0f) | 0x40;
    let b8 = (x8 & 0x3f) | 0x80;
    b[6] = b6;
    b[8] = b8;
    assert(b@ =~= stamp_v4(bytes@));
    let mut out = String::new();
    push_hex(&mut out, &b, 0, 4);
    out.push('-');
    push_hex(&mut out, &b, 4, 6);
    out.push('-');
    push_hex(&mut out, &b, 6, 8);
    out.push('-');
    push_hex(&mut out, &b, 8, 10);
    out.push('-');
    push_hex(&mut out, &b, 10, 16);
    proof {
        let s = b@;
        assert(out@ =~= uuid_text(s));
        lemma_hex_text_len(s.subrange(0, 4));
        lemma_hex_text_len(s.subrange(4, 6));
        lemma_hex_text_len(s.subrange(6, 8));
        lemma_hex_text_len(s.subrange(8, 10));
        lemma_hex_text_len(s.subrange(10, 16));
        lemma_hex_text_first(s.subrange(6, 8));
        lemma_hex_text_first(s.subrange(8, 10));
        assert(b6 >> 4 == 4u8) by (bit_vector)
            requires
                b6 == (x6 & 0x0f) | 0x40,
        ;
        let v = b8 >> 4;
        assert(8 <= v <= 11) by (bit_vector)
            requires
                b8 == (x8 & 0x3f) | 0x80,
                v == b8 >> 4,
        ;
        assert(out@[14] == hex_text(s.subrange(6, 8))[0]);
        assert(out@[19] == hex_text(s.subrange(8, 10))[0]);
        lemma_uuid_text_reads_back(s);
        assert forall|j: int| 0 <= j < 16 implies s[j] as int == if j == 6 {
            ((bytes@[6] & 0x0f) | 0x40) as int
        } else if j == 8 {
            ((bytes@[8] & 0x3f) | 0x80) as int
        } else {
            bytes@[j] as int
        } by {}
    }
    out
}

} // verus!

verus! {

#[verifier::external_type_specification]
#[verifier::external_body]
pub struct ExRandomError(getrandom::Error);

/// Calls `getrandom::getrandom` on a 16-byte buffer: the operating system's
/// random source fills it, or the call reports why it could not. Nothing is
/// stated of the bytes: they are chance.
#[verifier::external_body]
fn fill_random(bytes: &mut [u8; 16]) -> (res: Result<(), getrandom::Error>) {
    getrandom::getrandom(bytes)
}

/// Why a session id could not be minted.
#[derive(Debug)]
pub enum SessionIdError {
    /// The operating system's random source failed.
    RandomSource(getrandom::Error),
}

/// The text is the version-4 UUID of some 16 bytes.
pub open spec fn is_session_id_text(t: Seq<char>) -> bool {
    exists|b: Seq<u8>| b.len() == 16 && t == uuid_text(stamp_v4(b))
}

/// Mint a fresh session ID: an RFC 4122 version-4 UUID drawn from the
/// operating system's random source.
pub fn new_session_id() -> (res: Result<String, SessionIdError>)
    ensures
        res matches Ok(id) ==> {
            &&& is_session_id_text(id@)
            &&& id@.len() == 36
            &&& id@[14] == '4'
            &&& id@[19] == '8' || id@[19] == '9' || id@[19] == 'a' || id@[19] == 'b'
        },
{
    let mut bytes = [0u8; 16];
    match fill_random(&mut bytes) {
        Ok(()) => {
            let id = session_id_from_bytes(bytes);
            assert(bytes@.len() == 16);
            Ok(id)
        },
        Err(e) => Err(SessionIdError::RandomSource(e)),
    }
}

} // verus!
