//! The job wire codec: a JSON-shaped textual object that round-trips
//! losslessly. The encoder writes the fields in a fixed order, the
//! identifier as its hyphenated UUID string and the timestamps as epoch
//! milliseconds; the decoder recovers every field from that order, accepts
//! the timestamps also in their calendar string form, and tolerates unknown
//! members of any JSON shape between the known fields. The round trip is
//! proved for every job.

use vstd::prelude::*;

verus! {

use vstd::string::StringExecFns;
use crate::digits::{
    dec_rep, dec_val, digit_val, is_digit_char, spec_parse_nat, lemma_parse_nat_of_rep,
    lemma_dec_rep_digits, lemma_digit_prefix_len_bounds, u128_to_chars, parse_u128_at, is_digit,
    digit_value,
};
use crate::hex::{
    hex_rep, hex_seq_val, all_hex, is_hex_char, pow16, lemma_hex_rep_props, lemma_hex_val_of_rep,
    lemma_hex_concat, hex_chars_fixed, parse_hex_group,
};
use crate::job::{FileUploadJob, JobView, meta_view};
use crate::text::{
    quoted, spec_parse_string, lemma_parse_string_of_quoted, esc_chars, parse_string_at,
    str_to_chars, chars_to_string,
};

/// The object opener and the first field's key.
pub open spec fn k_id() -> Seq<char> {
    "{\"id\":"@
}

/// The first field's key alone, after the object opener.
pub open spec fn k_id0() -> Seq<char> {
    "\"id\":"@
}

/// The object closer.
pub open spec fn k_close() -> Seq<char> {
    "}"@
}

pub open spec fn k_esign() -> Seq<char> {
    ",\"esign_id\":"@
}

pub open spec fn k_url() -> Seq<char> {
    ",\"document_url\":"@
}

pub open spec fn k_name() -> Seq<char> {
    ",\"document_name\":"@
}

pub open spec fn k_type() -> Seq<char> {
    ",\"document_type\":"@
}

pub open spec fn k_retry() -> Seq<char> {
    ",\"retry_count\":"@
}

pub open spec fn k_created() -> Seq<char> {
    ",\"created_at\":"@
}

pub open spec fn k_updated() -> Seq<char> {
    ",\"updated_at\":"@
}

/// The metadata key together with the opener of its own object.
pub open spec fn k_meta() -> Seq<char> {
    ",\"metadata\":{"@
}

/// Signed decimal representation of an integer.
pub open spec fn int_rep(v: int) -> Seq<char> {
    if v < 0 {
        seq!['-'] + dec_rep((-v) as nat)
    } else {
        dec_rep(v as nat)
    }
}

/// The wire form of the job identifier: thirty-two hexadecimal digits in
/// five hyphen-separated groups, as a UUID is written.
pub open spec fn uuid_rep(id: u128) -> Seq<char> {
    let h = hex_rep(id as nat, 32);
    h.subrange(0, 8) + seq!['-'] + h.subrange(8, 12) + seq!['-'] + h.subrange(12, 16) + seq!['-']
        + h.subrange(16, 20) + seq!['-'] + h.subrange(20, 32)
}

/// Whether thirty-six characters have the identifier's shape.
pub open spec fn uuid_form_ok(u: Seq<char>) -> bool {
    &&& u.len() == 36
    &&& u[8] == '-'
    &&& u[13] == '-'
    &&& u[18] == '-'
    &&& u[23] == '-'
    &&& all_hex(u.subrange(0, 8))
    &&& all_hex(u.subrange(9, 13))
    &&& all_hex(u.subrange(14, 18))
    &&& all_hex(u.subrange(19, 23))
    &&& all_hex(u.subrange(24, 36))
}

/// The identifier a well-formed wire form denotes.
pub open spec fn uuid_val(u: Seq<char>) -> nat {
    hex_seq_val(
        u.subrange(0, 8) + u.subrange(9, 13) + u.subrange(14, 18) + u.subrange(19, 23) + u.subrange(
            24,
            36,
        ),
    )
}

/// One metadata entry: quoted key, colon, quoted value.
pub open spec fn enc_pair(k: Seq<char>, v: Seq<char>) -> Seq<char> {
    quoted(k) + seq![':'] + quoted(v)
}

/// Metadata entries joined by commas.
pub open spec fn enc_pairs(ps: Seq<(Seq<char>, Seq<char>)>) -> Seq<char>
    decreases ps.len(),
{
    if ps.len() == 0 {
        Seq::empty()
    } else if ps.len() == 1 {
        enc_pair(ps[0].0, ps[0].1)
    } else {
        enc_pair(ps[0].0, ps[0].1) + seq![','] + enc_pairs(ps.drop_first())
    }
}

/// The whole encoded job.
pub open spec fn encode_job(j: JobView) -> Seq<char> {
    k_id() + seq!['"'] + uuid_rep(j.id) + seq!['"'] + k_esign() + quoted(j.esign_id) + k_url()
        + quoted(
        j.document_url,
    ) + k_name() + quoted(j.document_name) + k_type() + quoted(j.document_type) + k_retry()
        + dec_rep(j.retry_count as nat) + k_created() + int_rep(j.created_at as int) + k_updated()
        + int_rep(j.updated_at as int) + k_meta() + enc_pairs(j.metadata) + seq!['}'] + seq!['}']
}

/// Whether `lit` is a prefix of `s`.
pub open spec fn starts_with(s: Seq<char>, lit: Seq<char>) -> bool {
    lit.len() <= s.len() && s.take(lit.len() as int) == lit
}

/// Parse of a signed decimal integer at the front of a sequence: the value,
/// unbounded, and the characters consumed.
pub open spec fn spec_parse_int(s: Seq<char>) -> Option<(int, int)> {
    if s.len() > 0 && s[0] == '-' {
        match spec_parse_nat(s.skip(1)) {
            Option::Some((v, n)) => Some((-(v as int), n + 1)),
            Option::None => None,
        }
    } else {
        match spec_parse_nat(s) {
            Option::Some((v, n)) => Some((v as int, n)),
            Option::None => None,
        }
    }
}

/// Ten to the given power.
pub open spec fn pow10(w: nat) -> nat
    decreases w,
{
    if w == 0 {
        1
    } else {
        10 * pow10((w - 1) as nat)
    }
}

/// Milliseconds since the Unix epoch of a civil UTC date and time, by the
/// standard era-based day count over the Gregorian calendar.
pub open spec fn civil_ms(y: int, mo: int, d: int, h: int, mi: int, se: int, ms: int) -> int {
    let yy = if mo <= 2 {
        y - 1
    } else {
        y
    };
    let ys = yy + 400;
    let era = ys / 400;
    let yoe = ys - era * 400;
    let mp = if mo > 2 {
        mo - 3
    } else {
        mo + 9
    };
    let doy = (153 * mp + 2) / 5 + d - 1;
    let doe = yoe * 365 + yoe / 4 - yoe / 100 + doy;
    let days = (era - 1) * 146097 + doe - 719468;
    days * 86400000 + h * 3600000 + mi * 60000 + se * 1000 + ms
}

/// Two decimal digits at position `k`.
pub open spec fn two_digits_at(s: Seq<char>, k: int) -> bool {
    is_digit_char(s[k]) && is_digit_char(s[k + 1])
}

/// Value of the two decimal digits at position `k`.
pub open spec fn two_val_at(s: Seq<char>, k: int) -> int {
    (digit_val(s[k]) * 10 + digit_val(s[k + 1])) as int
}

/// The fixed head of the timestamp's string form: a four-digit year, then
/// month, day, hour, minute and second, two digits each, with their
/// separators.
pub open spec fn iso_head_ok(b: Seq<char>) -> bool {
    &&& b.len() >= 19
    &&& is_digit_char(b[0])
    &&& is_digit_char(b[1])
    &&& two_digits_at(b, 2)
    &&& b[4] == '-'
    &&& two_digits_at(b, 5)
    &&& b[7] == '-'
    &&& two_digits_at(b, 8)
    &&& b[10] == 'T'
    &&& two_digits_at(b, 11)
    &&& b[13] == ':'
    &&& two_digits_at(b, 14)
    &&& b[16] == ':'
    &&& two_digits_at(b, 17)
}

/// Milliseconds denoted by a second fraction of `nf` digits with value
/// `fv`: digits beyond the third are cut off.
pub open spec fn frac_ms(fv: nat, nf: int) -> int {
    if nf >= 3 {
        (fv / pow10((nf - 3) as nat)) as int
    } else {
        (fv * pow10((3 - nf) as nat)) as int
    }
}

/// Parse of a timestamp's quoted string form: a calendar date and UTC time
/// of day, an optional second fraction, and the zone letter. Returns epoch
/// milliseconds and the characters consumed, both quotes included.
pub open spec fn spec_parse_iso(s: Seq<char>) -> Option<(int, int)> {
    if s.len() == 0 || s[0] != '"' {
        None
    } else {
        let b = s.skip(1);
        if !iso_head_ok(b) {
            None
        } else {
            let y = (digit_val(b[0]) * 1000 + digit_val(b[1]) * 100) as int + two_val_at(b, 2);
            let mo = two_val_at(b, 5);
            let d = two_val_at(b, 8);
            let h = two_val_at(b, 11);
            let mi = two_val_at(b, 14);
            let se = two_val_at(b, 17);
            if !(1 <= mo <= 12 && 1 <= d <= 31 && h < 24 && mi < 60 && se <= 60) {
                None
            } else {
                let b2 = b.skip(19);
                if b2.len() > 0 && b2[0] == '.' {
                    match spec_parse_nat(b2.skip(1)) {
                        Option::None => None,
                        Option::Some((fv, nf)) => {
                            if nf > 9 {
                                None
                            } else {
                                let b3 = b2.skip(1 + nf);
                                if b3.len() >= 2 && b3[0] == 'Z' && b3[1] == '"' {
                                    Some(
                                        (
                                            civil_ms(y as int, mo, d, h, mi, se, frac_ms(fv, nf)),
                                            23 + nf,
                                        ),
                                    )
                                } else {
                                    None
                                }
                            }
                        },
                    }
                } else {
                    if b2.len() >= 2 && b2[0] == 'Z' && b2[1] == '"' {
                        Some((civil_ms(y as int, mo, d, h, mi, se, 0), 22))
                    } else {
                        None
                    }
                }
            }
        }
    }
}

/// Parse of a timestamp value: its plain signed-decimal form, or its quoted
/// string form.
pub open spec fn spec_parse_timestamp(s: Seq<char>) -> Option<(int, int)> {
    if s.len() > 0 && s[0] == '"' {
        spec_parse_iso(s)
    } else {
        spec_parse_int(s)
    }
}

/// Parse of the metadata entries up to and including the closing brace of
/// the metadata object: the entries and the characters consumed.
pub open spec fn spec_parse_pairs(s: Seq<char>) -> Option<(Seq<(Seq<char>, Seq<char>)>, int)>
    decreases s.len(),
{
    if s.len() == 0 {
        None
    } else if s[0] == '}' {
        Some((Seq::empty(), 1))
    } else {
        match spec_parse_string(s) {
            Option::None => None,
            Option::Some((k, nk)) => {
                let s1 = s.skip(nk);
                if s1.len() == 0 || s1[0] != ':' {
                    None
                } else {
                    match spec_parse_string(s1.skip(1)) {
                        Option::None => None,
                        Option::Some((v, nv)) => {
                            let s2 = s1.skip(1).skip(nv);
                            if s2.len() == 0 {
                                None
                            } else if s2[0] == ',' {
                                if s2.len() < s.len() {
                                    match spec_parse_pairs(s2.skip(1)) {
                                        Option::None => None,
                                        Option::Some((ps, np)) => Some(
                                            (seq![(k, v)] + ps, nk + 1 + nv + 1 + np),
                                        ),
                                    }
                                } else {
                                    None
                                }
                            } else if s2[0] == '}' {
                                Some((seq![(k, v)], nk + 1 + nv + 1))
                            } else {
                                None
                            }
                        },
                    }
                }
            },
        }
    }
}

/// Consumption of one member's value of any JSON shape: a quoted string, a
/// signed decimal, an object, an array, or one of the three word literals.
pub open spec fn spec_skip_value(s: Seq<char>) -> Option<int>
    decreases s.len(), 0int,
{
    if s.len() == 0 {
        None
    } else if s[0] == '"' {
        match spec_parse_string(s) {
            Option::Some((_t, n)) => Some(n),
            Option::None => None,
        }
    } else if s[0] == '{' {
        match spec_skip_members(s.skip(1)) {
            Option::Some(n) => Some(1 + n),
            Option::None => None,
        }
    } else if s[0] == '[' {
        match spec_skip_elements(s.skip(1)) {
            Option::Some(n) => Some(1 + n),
            Option::None => None,
        }
    } else if starts_with(s, "true"@) {
        Some(4)
    } else if starts_with(s, "false"@) {
        Some(5)
    } else if starts_with(s, "null"@) {
        Some(4)
    } else {
        match spec_parse_int(s) {
            Option::Some((_v, n)) => Some(n),
            Option::None => None,
        }
    }
}

/// Consumption of an object's members and its closing brace, the values of
/// any JSON shape.
pub open spec fn spec_skip_members(s: Seq<char>) -> Option<int>
    decreases s.len(), 1int,
{
    if s.len() == 0 {
        None
    } else if s[0] == '}' {
        Some(1)
    } else {
        match spec_parse_string(s) {
            Option::None => None,
            Option::Some((_k, nk)) => {
                let s1 = s.skip(nk);
                if s1.len() == 0 || s1[0] != ':' || s1.skip(1).len() >= s.len() {
                    None
                } else {
                    match spec_skip_value(s1.skip(1)) {
                        Option::None => None,
                        Option::Some(nv) => {
                            let s2 = s1.skip(1).skip(nv);
                            if s2.len() == 0 {
                                None
                            } else if s2[0] == ',' {
                                if s2.len() < s.len() {
                                    match spec_skip_members(s2.skip(1)) {
                                        Option::None => None,
                                        Option::Some(m) => Some(nk + 1 + nv + 1 + m),
                                    }
                                } else {
                                    None
                                }
                            } else if s2[0] == '}' {
                                Some(nk + 1 + nv + 1)
                            } else {
                                None
                            }
                        },
                    }
                }
            },
        }
    }
}

/// Consumption of an array's elements and its closing bracket, the elements
/// of any JSON shape.
pub open spec fn spec_skip_elements(s: Seq<char>) -> Option<int>
    decreases s.len(), 1int,
{
    if s.len() == 0 {
        None
    } else if s[0] == ']' {
        Some(1)
    } else {
        match spec_skip_value(s) {
            Option::None => None,
            Option::Some(nv) => {
                let s2 = s.skip(nv);
                if s2.len() == 0 || s2.len() >= s.len() {
                    None
                } else if s2[0] == ',' {
                    match spec_skip_elements(s2.skip(1)) {
                        Option::None => None,
                        Option::Some(m) => Some(nv + 1 + m),
                    }
                } else if s2[0] == ']' {
                    Some(nv + 1)
                } else {
                    None
                }
            },
        }
    }
}

/// Seeks the expected key at a field juncture, tolerating unknown members
/// of the form `,"key":value` before it. Returns the characters consumed,
/// the expected key included.
pub open spec fn spec_seek(s: Seq<char>, lit: Seq<char>) -> Option<int>
    decreases s.len(),
{
    if starts_with(s, lit) {
        Some(lit.len() as int)
    } else if s.len() > 0 && s[0] == ',' {
        match spec_parse_string(s.skip(1)) {
            Option::None => None,
            Option::Some((_k, nk)) => {
                let s1 = s.skip(1 + nk);
                if s1.len() == 0 || s1[0] != ':' {
                    None
                } else {
                    match spec_skip_value(s1.skip(1)) {
                        Option::None => None,
                        Option::Some(nv) => {
                            let s2 = s1.skip(1 + nv);
                            if s2.len() < s.len() {
                                match spec_seek(s2, lit) {
                                    Option::None => None,
                                    Option::Some(m) => Some(1 + nk + 1 + nv + m),
                                }
                            } else {
                                None
                            }
                        },
                    }
                }
            },
        }
    } else {
        None
    }
}

/// Seeks the first field's key just after the object opener, tolerating
/// unknown members of the form `"key":value,` before it.
pub open spec fn spec_seek_head(s: Seq<char>, lit: Seq<char>) -> Option<int>
    decreases s.len(),
{
    if starts_with(s, lit) {
        Some(lit.len() as int)
    } else if s.len() > 0 && s[0] == '"' {
        match spec_parse_string(s) {
            Option::None => None,
            Option::Some((_k, nk)) => {
                let s1 = s.skip(nk);
                if s1.len() == 0 || s1[0] != ':' {
                    None
                } else {
                    match spec_skip_value(s1.skip(1)) {
                        Option::None => None,
                        Option::Some(nv) => {
                            let s2 = s1.skip(1 + nv);
                            if s2.len() > 0 && s2[0] == ',' && s2.len() < s.len() {
                                match spec_seek_head(s2.skip(1), lit) {
                                    Option::None => None,
                                    Option::Some(m) => Some(nk + 1 + nv + 1 + m),
                                }
                            } else {
                                None
                            }
                        },
                    }
                }
            },
        }
    } else {
        None
    }
}

/// Deterministic parse of a whole encoded job. The known fields must stand
/// in their wire order, with unknown members tolerated between them; the
/// text must be consumed exactly; the numeric fields must fit their machine
/// types. The identifier comes as its UUID string; each timestamp comes as
/// epoch milliseconds or as a calendar string.
pub open spec fn spec_decode(s: Seq<char>) -> Option<JobView> {
    if s.len() == 0 || s[0] != '{' || spec_seek_head(s.skip(1), k_id0()) is None {
        None
    } else {
        let s1 = s.skip(1 + (spec_seek_head(s.skip(1), k_id0())->0));
        if s1.len() < 38 || s1[0] != '"' || s1[37] != '"' || !uuid_form_ok(s1.subrange(1, 37))
            || uuid_val(s1.subrange(1, 37)) > u128::MAX {
            None
        } else {
            let idv = uuid_val(s1.subrange(1, 37));
            let s2 = s1.skip(38);
            if spec_seek(s2, k_esign()) is None {
                None
            } else {
                let s3 = s2.skip(spec_seek(s2, k_esign())->0);
                match spec_parse_string(s3) {
                    Option::None => None,
                    Option::Some((esign, n3)) => {
                        let s4 = s3.skip(n3);
                        if spec_seek(s4, k_url()) is None {
                            None
                        } else {
                            let s5 = s4.skip(spec_seek(s4, k_url())->0);
                            match spec_parse_string(s5) {
                                Option::None => None,
                                Option::Some((url, n5)) => {
                                    let s6 = s5.skip(n5);
                                    if spec_seek(s6, k_name()) is None {
                                        None
                                    } else {
                                        let s7 = s6.skip(spec_seek(s6, k_name())->0);
                                        match spec_parse_string(s7) {
                                            Option::None => None,
                                            Option::Some((name, n7)) => {
                                                let s8 = s7.skip(n7);
                                                spec_decode_from_type(
                                                    s8,
                                                    idv as u128,
                                                    esign,
                                                    url,
                                                    name,
                                                )
                                            },
                                        }
                                    }
                                },
                            }
                        }
                    },
                }
            }
        }
    }
}

pub open spec fn spec_decode_from_type(
    s8: Seq<char>,
    idv: u128,
    esign: Seq<char>,
    url: Seq<char>,
    name: Seq<char>,
) -> Option<JobView> {
    if spec_seek(s8, k_type()) is None {
        None
    } else {
        let s9 = s8.skip(spec_seek(s8, k_type())->0);
        match spec_parse_string(s9) {
            Option::None => None,
            Option::Some((dtype, n9)) => {
                let s10 = s9.skip(n9);
                if spec_seek(s10, k_retry()) is None {
                    None
                } else {
                    let s11 = s10.skip(spec_seek(s10, k_retry())->0);
                    match spec_parse_nat(s11) {
                        Option::None => None,
                        Option::Some((rv, n11)) => {
                            if rv > u32::MAX {
                                None
                            } else {
                                let s12 = s11.skip(n11);
                                if spec_seek(s12, k_created()) is None {
                                    None
                                } else {
                                    let s13 = s12.skip(spec_seek(s12, k_created())->0);
                                    match spec_parse_timestamp(s13) {
                                        Option::None => None,
                                        Option::Some((cv, n13)) => {
                                            if cv > i64::MAX || cv < i64::MIN {
                                                None
                                            } else {
                                                let s14 = s13.skip(n13);
                                                spec_decode_from_updated(
                                                    s14,
                                                    idv,
                                                    esign,
                                                    url,
                                                    name,
                                                    dtype,
                                                    rv as u32,
                                                    cv as i64,
                                                )
                                            }
                                        },
                                    }
                                }
                            }
                        },
                    }
                }
            },
        }
    }
}

/// Continuation of the parse from the `updated_at` field on.
pub open spec fn spec_decode_from_updated(
    s14: Seq<char>,
    idv: u128,
    esign: Seq<char>,
    url: Seq<char>,
    name: Seq<char>,
    dtype: Seq<char>,
    rv: u32,
    cv: i64,
) -> Option<JobView> {
    if spec_seek(s14, k_updated()) is None {
        None
    } else {
        let s15 = s14.skip(spec_seek(s14, k_updated())->0);
        match spec_parse_timestamp(s15) {
            Option::None => None,
            Option::Some((uv, n15)) => {
                if uv > i64::MAX || uv < i64::MIN {
                    None
                } else {
                    let s16 = s15.skip(n15);
                    if spec_seek(s16, k_meta()) is None {
                        None
                    } else {
                        let s17 = s16.skip(spec_seek(s16, k_meta())->0);
                        match spec_parse_pairs(s17) {
                            Option::None => None,
                            Option::Some((ps, n17)) => {
                                let s18 = s17.skip(n17);
                                if spec_seek(s18, k_close()) is Some && s18.skip(
                                    spec_seek(s18, k_close())->0,
                                ).len() == 0 {
                                    Some(
                                        JobView {
                                            id: idv,
                                            esign_id: esign,
                                            document_url: url,
                                            document_name: name,
                                            document_type: dtype,
                                            retry_count: rv,
                                            created_at: cv,
                                            updated_at: uv as i64,
                                            metadata: ps,
                                        },
                                    )
                                } else {
                                    None
                                }
                            },
                        }
                    }
                }
            },
        }
    }
}

/// A literal prefix parses as itself and leaves exactly what follows; a
/// seek over it finds it at once.
proof fn lemma_step_lit(lit: Seq<char>, tail: Seq<char>)
    ensures
        starts_with(lit + tail, lit),
        (lit + tail).skip(lit.len() as int) =~= tail,
        spec_seek(lit + tail, lit) == Some(lit.len() as int),
        spec_seek_head(lit + tail, lit) == Some(lit.len() as int),
{
    assert((lit + tail).take(lit.len() as int) =~= lit);
}

/// A signed decimal written by the encoder parses back to its value,
/// whatever follows, as long as it does not begin with a digit.
pub proof fn lemma_parse_int_of_rep(v: int, rest: Seq<char>)
    requires
        rest.len() == 0 || !is_digit_char(rest[0]),
    ensures
        spec_parse_int(int_rep(v) + rest) == Some((v, int_rep(v).len() as int)),
{
    let s = int_rep(v) + rest;
    if v < 0 {
        let m = (-v) as nat;
        assert(s[0] == '-');
        assert(s.skip(1) =~= dec_rep(m) + rest);
        lemma_parse_nat_of_rep(m, rest);
    } else {
        lemma_dec_rep_digits(v as nat);
        assert(s[0] == dec_rep(v as nat)[0]);
        assert(is_digit_char(s[0]));
        assert(s[0] != '-');
        lemma_parse_nat_of_rep(v as nat, rest);
        assert(dec_rep(v as nat) + rest =~= s);
    }
}

/// A timestamp written by the encoder in its signed-decimal form parses
/// back to its value through the timestamp grammar.
pub proof fn lemma_parse_timestamp_of_rep(v: int, rest: Seq<char>)
    requires
        rest.len() == 0 || !is_digit_char(rest[0]),
    ensures
        spec_parse_timestamp(int_rep(v) + rest) == Some((v, int_rep(v).len() as int)),
{
    let s = int_rep(v) + rest;
    lemma_parse_int_of_rep(v, rest);
    if v < 0 {
        assert(s[0] == '-');
        assert(s[0] != '"');
    } else {
        lemma_dec_rep_digits(v as nat);
        assert(s[0] == dec_rep(v as nat)[0]);
        assert(is_digit_char(s[0]));
        assert(s[0] != '"');
    }
}

/// The metadata entries written by the encoder, followed by the closing
/// brace, parse back to the same entries.
#[verifier::rlimit(100)]
#[verifier::spinoff_prover]
pub proof fn lemma_parse_pairs_of_enc(ps: Seq<(Seq<char>, Seq<char>)>, rest: Seq<char>)
    ensures
        spec_parse_pairs(enc_pairs(ps) + seq!['}'] + rest) == Some(
            (ps, enc_pairs(ps).len() as int + 1),
        ),
    decreases ps.len(),
{
    let s = enc_pairs(ps) + seq!['}'] + rest;
    if ps.len() == 0 {
        assert(enc_pairs(ps) =~= Seq::<char>::empty());
        assert(s[0] == '}');
        assert(ps =~= Seq::<(Seq<char>, Seq<char>)>::empty());
    } else {
        let k = ps[0].0;
        let v = ps[0].1;
        let tail0 = if ps.len() == 1 {
            seq!['}'] + rest
        } else {
            seq![','] + enc_pairs(ps.drop_first()) + seq!['}'] + rest
        };
        let mid = seq![':'] + quoted(v) + tail0;
        assert(s =~= quoted(k) + mid);
        lemma_parse_string_of_quoted(k, mid);
        assert(s[0] == quoted(k)[0]);
        assert(s[0] == '"');
        assert(s[0] != '}');
        let nk = quoted(k).len() as int;
        let s1 = s.skip(nk);
        assert(s1 =~= mid);
        assert(s1[0] == ':');
        assert(s1.skip(1) =~= quoted(v) + tail0);
        lemma_parse_string_of_quoted(v, tail0);
        let nv = quoted(v).len() as int;
        let s2 = s1.skip(1).skip(nv);
        assert(s2 =~= tail0);
        if ps.len() == 1 {
            assert(s2[0] == '}');
            assert(seq![(k, v)] =~= ps);
            assert(enc_pairs(ps).len() == nk + 1 + nv);
        } else {
            assert(s2[0] == ',');
            assert(s2.len() < s.len());
            assert(s2[0] != '}');
            lemma_parse_pairs_of_enc(ps.drop_first(), rest);
            assert(s2.skip(1) =~= enc_pairs(ps.drop_first()) + seq!['}'] + rest);
            let np = enc_pairs(ps.drop_first()).len() as int + 1;
            assert(seq![(k, v)] + ps.drop_first() =~= ps);
            assert(enc_pairs(ps) =~= enc_pair(k, v) + seq![','] + enc_pairs(ps.drop_first()));
            assert(enc_pairs(ps).len() as int + 1 == nk + 1 + nv + 1 + np);
        }
    }
}

/// The tail written by the encoder from the `updated_at` field on parses
/// back to the whole job.
proof fn lemma_rt_updated(j: JobView)
    ensures
        spec_decode_from_updated(
            k_updated() + int_rep(j.updated_at as int) + k_meta() + enc_pairs(j.metadata)
                + seq!['}'] + seq!['}'],
            j.id,
            j.esign_id,
            j.document_url,
            j.document_name,
            j.document_type,
            j.retry_count,
            j.created_at,
        ) == Some(j),
{
    reveal_strlit(",\"metadata\":{");
    let t18 = enc_pairs(j.metadata) + seq!['}'] + seq!['}'];
    let t17 = k_meta() + t18;
    let t16 = int_rep(j.updated_at as int) + t17;
    let s14 = k_updated() + int_rep(j.updated_at as int) + k_meta() + enc_pairs(j.metadata)
        + seq!['}'] + seq!['}'];
    assert(s14 =~= k_updated() + t16);
    lemma_step_lit(k_updated(), t16);
    let s15 = s14.skip(spec_seek(s14, k_updated())->0);
    assert(s15 == t16);
    assert(t17[0] == k_meta()[0]);
    assert(k_meta()[0] == ',');
    lemma_parse_timestamp_of_rep(j.updated_at as int, t17);
    let s16 = s15.skip(int_rep(j.updated_at as int).len() as int);
    assert(s16 =~= t17);
    lemma_step_lit(k_meta(), t18);
    let s17 = s16.skip(spec_seek(s16, k_meta())->0);
    assert(s17 == t18);
    lemma_parse_pairs_of_enc(j.metadata, seq!['}']);
    assert(t18 =~= enc_pairs(j.metadata) + seq!['}'] + seq!['}']);
    let s18 = s17.skip(enc_pairs(j.metadata).len() as int + 1);
    assert(s18 =~= seq!['}']);
    reveal_strlit("}");
    assert(k_close() =~= seq!['}']);
    assert(starts_with(s18, k_close())) by {
        assert(s18.take(1) =~= k_close());
    }
    assert(spec_seek(s18, k_close()) == Some(1int));
    assert(s18.skip(1).len() == 0);
}

/// The tail written by the encoder from the `document_type` field on parses
/// back to the whole job.
#[verifier::rlimit(100)]
proof fn lemma_rt_type(j: JobView)
    ensures
        spec_decode_from_type(
            k_type() + quoted(j.document_type) + k_retry() + dec_rep(j.retry_count as nat)
                + k_created() + int_rep(j.created_at as int) + k_updated() + int_rep(
                j.updated_at as int,
            ) + k_meta() + enc_pairs(j.metadata) + seq!['}'] + seq!['}'],
            j.id,
            j.esign_id,
            j.document_url,
            j.document_name,
        ) == Some(j),
{
    reveal_strlit(",\"created_at\":");
    reveal_strlit(",\"updated_at\":");
    let tu = k_updated() + int_rep(j.updated_at as int) + k_meta() + enc_pairs(j.metadata)
        + seq!['}'] + seq!['}'];
    let t14 = int_rep(j.created_at as int) + tu;
    let t13 = k_created() + t14;
    let t12 = dec_rep(j.retry_count as nat) + t13;
    let t11 = k_retry() + t12;
    let t10 = quoted(j.document_type) + t11;
    let s8 = k_type() + quoted(j.document_type) + k_retry() + dec_rep(j.retry_count as nat)
        + k_created() + int_rep(j.created_at as int) + k_updated() + int_rep(j.updated_at as int)
        + k_meta() + enc_pairs(j.metadata) + seq!['}'] + seq!['}'];
    assert(s8 =~= k_type() + t10);
    lemma_step_lit(k_type(), t10);
    let s9 = s8.skip(spec_seek(s8, k_type())->0);
    assert(s9 == t10);
    lemma_parse_string_of_quoted(j.document_type, t11);
    let s10 = s9.skip(quoted(j.document_type).len() as int);
    assert(s10 == t11);
    lemma_step_lit(k_retry(), t12);
    let s11 = s10.skip(spec_seek(s10, k_retry())->0);
    assert(s11 == t12);
    assert(t13[0] == k_created()[0]);
    assert(k_created()[0] == ',');
    lemma_parse_nat_of_rep(j.retry_count as nat, t13);
    let s12 = s11.skip(dec_rep(j.retry_count as nat).len() as int);
    assert(s12 =~= t13);
    lemma_step_lit(k_created(), t14);
    let s13 = s12.skip(spec_seek(s12, k_created())->0);
    assert(s13 == t14);
    assert(tu[0] == k_updated()[0]);
    assert(k_updated()[0] == ',');
    lemma_parse_timestamp_of_rep(j.created_at as int, tu);
    let s14 = s13.skip(int_rep(j.created_at as int).len() as int);
    assert(s14 =~= tu);
    lemma_rt_updated(j);
}

/// The encoded job, re-associated so that each field's segment stands at
/// the head of what remains.
#[verifier::rlimit(100)]
#[verifier::spinoff_prover]
proof fn lemma_encode_shape(j: JobView)
    ensures
        encode_job(j) == k_id() + (seq!['"'] + uuid_rep(j.id) + seq!['"'] + (k_esign() + (quoted(
            j.esign_id,
        ) + (k_url() + (quoted(j.document_url) + (k_name() + (quoted(j.document_name) + (k_type()
            + quoted(j.document_type) + k_retry() + dec_rep(j.retry_count as nat) + k_created()
            + int_rep(j.created_at as int) + k_updated() + int_rep(j.updated_at as int) + k_meta()
            + enc_pairs(j.metadata) + seq!['}'] + seq!['}'])))))))),
{
    assert(encode_job(j) =~= k_id() + (seq!['"'] + uuid_rep(j.id) + seq!['"'] + (k_esign() + (
    quoted(j.esign_id) + (k_url() + (quoted(j.document_url) + (k_name() + (quoted(
        j.document_name,
    ) + (k_type() + quoted(j.document_type) + k_retry() + dec_rep(j.retry_count as nat)
        + k_created() + int_rep(j.created_at as int) + k_updated() + int_rep(j.updated_at as int)
        + k_meta() + enc_pairs(j.metadata) + seq!['}'] + seq!['}'])))))))));
}

/// The identifier's wire form is well shaped and denotes the identifier.
proof fn lemma_uuid_round_trip(id: u128)
    ensures
        uuid_rep(id).len() == 36,
        uuid_form_ok(uuid_rep(id)),
        uuid_val(uuid_rep(id)) == id,
{
    let h = hex_rep(id as nat, 32);
    lemma_hex_rep_props(id as nat, 32);
    let u = uuid_rep(id);
    assert(u.len() == 36);
    assert(u[8] == '-');
    assert(u[13] == '-');
    assert(u[18] == '-');
    assert(u[23] == '-');
    assert(u.subrange(0, 8) =~= h.subrange(0, 8));
    assert(u.subrange(9, 13) =~= h.subrange(8, 12));
    assert(u.subrange(14, 18) =~= h.subrange(12, 16));
    assert(u.subrange(19, 23) =~= h.subrange(16, 20));
    assert(u.subrange(24, 36) =~= h.subrange(20, 32));
    assert(all_hex(h.subrange(0, 8))) by {
        assert forall|i: int| 0 <= i < 8 implies is_hex_char(h.subrange(0, 8)[i]) by {
            assert(h.subrange(0, 8)[i] == h[i]);
        }
    }
    assert(all_hex(h.subrange(8, 12))) by {
        assert forall|i: int| 0 <= i < 4 implies is_hex_char(h.subrange(8, 12)[i]) by {
            assert(h.subrange(8, 12)[i] == h[8 + i]);
        }
    }
    assert(all_hex(h.subrange(12, 16))) by {
        assert forall|i: int| 0 <= i < 4 implies is_hex_char(h.subrange(12, 16)[i]) by {
            assert(h.subrange(12, 16)[i] == h[12 + i]);
        }
    }
    assert(all_hex(h.subrange(16, 20))) by {
        assert forall|i: int| 0 <= i < 4 implies is_hex_char(h.subrange(16, 20)[i]) by {
            assert(h.subrange(16, 20)[i] == h[16 + i]);
        }
    }
    assert(all_hex(h.subrange(20, 32))) by {
        assert forall|i: int| 0 <= i < 12 implies is_hex_char(h.subrange(20, 32)[i]) by {
            assert(h.subrange(20, 32)[i] == h[20 + i]);
        }
    }
    assert(u.subrange(0, 8) + u.subrange(9, 13) + u.subrange(14, 18) + u.subrange(19, 23)
        + u.subrange(24, 36) =~= h);
    reveal_with_fuel(pow16, 33);
    assert((id as nat) < pow16(32));
    lemma_hex_val_of_rep(id as nat, 32);
}

/// The codec round trip: decoding an encoded job yields the job back,
/// field for field, for every job.
#[verifier::rlimit(100)]
#[verifier::spinoff_prover]
pub proof fn lemma_codec_round_trip(j: JobView)
    ensures
        spec_decode(encode_job(j)) == Some(j),
{
    reveal_strlit(",\"esign_id\":");
    let t9 = k_type() + quoted(j.document_type) + k_retry() + dec_rep(j.retry_count as nat)
        + k_created() + int_rep(j.created_at as int) + k_updated() + int_rep(j.updated_at as int)
        + k_meta() + enc_pairs(j.metadata) + seq!['}'] + seq!['}'];
    let t8 = quoted(j.document_name) + t9;
    let t7 = k_name() + t8;
    let t6 = quoted(j.document_url) + t7;
    let t5 = k_url() + t6;
    let t4 = quoted(j.esign_id) + t5;
    let t3 = k_esign() + t4;
    let t2 = seq!['"'] + uuid_rep(j.id) + seq!['"'] + t3;
    let e = encode_job(j);
    lemma_encode_shape(j);
    assert(e == k_id() + t2);
    lemma_step_lit(k_id(), t2);
    reveal_strlit("{\"id\":");
    reveal_strlit("\"id\":");
    assert(e[0] == '{');
    assert(e.skip(1) =~= k_id0() + t2);
    lemma_step_lit(k_id0(), t2);
    assert(spec_seek_head(e.skip(1), k_id0()) == Some(k_id0().len() as int));
    let s1 = e.skip(1 + k_id0().len() as int);
    assert(s1 =~= t2);
    lemma_uuid_round_trip(j.id);
    assert(s1.len() >= 38);
    assert(s1[0] == '"');
    assert(s1[37] == '"');
    assert(s1.subrange(1, 37) =~= uuid_rep(j.id));
    assert(uuid_val(s1.subrange(1, 37)) == j.id);
    let s2 = s1.skip(38);
    assert(s2 =~= t3);
    lemma_step_lit(k_esign(), t4);
    let s3 = s2.skip(spec_seek(s2, k_esign())->0);
    assert(s3 == t4);
    lemma_parse_string_of_quoted(j.esign_id, t5);
    let s4 = s3.skip(quoted(j.esign_id).len() as int);
    assert(s4 == t5);
    lemma_step_lit(k_url(), t6);
    let s5 = s4.skip(spec_seek(s4, k_url())->0);
    assert(s5 == t6);
    lemma_parse_string_of_quoted(j.document_url, t7);
    let s6 = s5.skip(quoted(j.document_url).len() as int);
    assert(s6 == t7);
    lemma_step_lit(k_name(), t8);
    let s7 = s6.skip(spec_seek(s6, k_name())->0);
    assert(s7 == t8);
    lemma_parse_string_of_quoted(j.document_name, t9);
    let s8 = s7.skip(quoted(j.document_name).len() as int);
    assert(s8 == t9);
    lemma_rt_type(j);
}

/// Appends characters to the output string.
fn append_chars(out: &mut String, v: &Vec<char>)
    ensures
        final(out)@ == old(out)@ + v@,
{
    let s2 = chars_to_string(v);
    out.append(s2.as_str());
}

/// Appends a string in its quoted, escaped form.
fn append_quoted(out: &mut String, s: &String)
    ensures
        final(out)@ == old(out)@ + quoted(s@),
{
    proof {
        reveal_strlit("\"");
    }
    let ghost base = out@;
    out.append("\"");
    assert("\""@ =~= seq!['"']);
    let cs = str_to_chars(s.as_str());
    let e = esc_chars(&cs);
    append_chars(out, &e);
    out.append("\"");
    proof {
        assert(out@ =~= base + quoted(s@));
    }
}

/// Appending one entry extends the joined encoding by a comma and the entry,
/// or starts it when the list was empty.
proof fn lemma_enc_pairs_push(ps: Seq<(Seq<char>, Seq<char>)>, k: Seq<char>, v: Seq<char>)
    ensures
        ps.len() == 0 ==> enc_pairs(ps.push((k, v))) == enc_pair(k, v),
        ps.len() > 0 ==> enc_pairs(ps.push((k, v))) == enc_pairs(ps) + seq![','] + enc_pair(k, v),
    decreases ps.len(),
{
    let q = ps.push((k, v));
    if ps.len() == 0 {
        assert(q.len() == 1);
        assert(q[0] == (k, v));
        assert(enc_pairs(q) == enc_pair(k, v));
    } else {
        assert(q.len() >= 2);
        assert(q[0] == ps[0]);
        assert(q.drop_first() =~= ps.drop_first().push((k, v)));
        lemma_enc_pairs_push(ps.drop_first(), k, v);
        if ps.len() == 1 {
            assert(ps.drop_first().len() == 0);
            assert(enc_pairs(q) =~= enc_pairs(ps) + seq![','] + enc_pair(k, v));
        } else {
            assert(enc_pairs(ps) == enc_pair(ps[0].0, ps[0].1) + seq![','] + enc_pairs(
                ps.drop_first(),
            ));
            assert(enc_pairs(q) =~= enc_pairs(ps) + seq![','] + enc_pair(k, v));
        }
    }
}

/// Serializes a job into its wire format.
pub fn encode_to_string(job: &FileUploadJob) -> (r: String)
    ensures
        r@ == encode_job(job@),
{
    proof {
        reveal_strlit(",");
        reveal_strlit(":");
        reveal_strlit("}");
    }
    assert(","@ =~= seq![',']);
    assert(":"@ =~= seq![':']);
    assert("}"@ =~= seq!['}']);
    proof {
        reveal_strlit("\"");
    }
    assert("\""@ =~= seq!['"']);
    let mut out = String::new();
    out.append("{\"id\":");
    out.append("\"");
    let idc = uuid_chars(job.id);
    append_chars(&mut out, &idc);
    out.append("\"");
    out.append(",\"esign_id\":");
    append_quoted(&mut out, &job.esign_id);
    out.append(",\"document_url\":");
    append_quoted(&mut out, &job.document_url);
    out.append(",\"document_name\":");
    append_quoted(&mut out, &job.document_name);
    out.append(",\"document_type\":");
    append_quoted(&mut out, &job.document_type);
    out.append(",\"retry_count\":");
    let rc = u128_to_chars(job.retry_count as u128);
    append_chars(&mut out, &rc);
    out.append(",\"created_at\":");
    let ca = i64_to_chars(job.created_at);
    append_chars(&mut out, &ca);
    out.append(",\"updated_at\":");
    let ua = i64_to_chars(job.updated_at);
    append_chars(&mut out, &ua);
    out.append(",\"metadata\":{");
    let ghost base = out@;
    let ghost mv = meta_view(job.metadata@);
    let mut i: usize = 0;
    while i < job.metadata.len()
        invariant
            i <= job.metadata@.len(),
            mv == meta_view(job.metadata@),
            mv.len() == job.metadata@.len(),
            out@ == base + enc_pairs(mv.take(i as int)),
        decreases job.metadata@.len() - i,
    {
        proof {
            reveal_strlit(",");
            reveal_strlit(":");
        }
        assert(","@ =~= seq![',']);
        assert(":"@ =~= seq![':']);
        let ghost before = out@;
        if i > 0 {
            out.append(",");
        }
        append_quoted(&mut out, &job.metadata[i].0);
        out.append(":");
        append_quoted(&mut out, &job.metadata[i].1);
        proof {
            let k = job.metadata@[i as int].0@;
            let v = job.metadata@[i as int].1@;
            assert(mv[i as int] == (k, v));
            lemma_enc_pairs_push(mv.take(i as int), k, v);
            assert(mv.take(i + 1) =~= mv.take(i as int).push((k, v)));
            if i > 0 {
                assert(out@ =~= before + seq![','] + enc_pair(k, v));
                assert(out@ =~= base + enc_pairs(mv.take(i + 1)));
            } else {
                assert(mv.take(0int) =~= Seq::<(Seq<char>, Seq<char>)>::empty());
                assert(before =~= base);
                assert(out@ =~= base + enc_pairs(mv.take(i + 1)));
            }
        }
        i = i + 1;
    }
    proof {
        assert(mv.take(mv.len() as int) =~= mv);
    }
    out.append("}");
    out.append("}");
    proof {
        assert(out@ =~= encode_job(job@));
    }
    out
}

/// Formats a signed integer in decimal.
fn i64_to_chars(v: i64) -> (r: Vec<char>)
    ensures
        r@ == int_rep(v as int),
{
    if v < 0 {
        let mag: u128 = if v == i64::MIN {
            9223372036854775808u128
        } else {
            (-v) as u128
        };
        let mut r = u128_to_chars(mag);
        r.insert(0, '-');
        assert(r@ =~= seq!['-'] + dec_rep(mag as nat));
        r
    } else {
        u128_to_chars(v as u128)
    }
}

/// Appends a slice of the source characters.
fn push_range(out: &mut Vec<char>, src: &Vec<char>, from: usize, to: usize)
    requires
        from <= to <= src@.len(),
    ensures
        final(out)@ == old(out)@ + src@.subrange(from as int, to as int),
{
    let mut k: usize = from;
    while k < to
        invariant
            from <= k <= to <= src@.len(),
            out@ == old(out)@ + src@.subrange(from as int, k as int),
        decreases to - k,
    {
        out.push(src[k]);
        proof {
            assert(src@.subrange(from as int, k + 1) =~= src@.subrange(from as int, k as int).push(
                src@[k as int],
            ));
        }
        k = k + 1;
    }
}

/// The identifier's wire characters: five hyphen-separated groups of
/// hexadecimal digits.
fn uuid_chars(id: u128) -> (r: Vec<char>)
    ensures
        r@ == uuid_rep(id),
{
    let h = hex_chars_fixed(id, 32);
    proof {
        lemma_hex_rep_props(id as nat, 32);
    }
    let mut out: Vec<char> = Vec::new();
    push_range(&mut out, &h, 0, 8);
    out.push('-');
    push_range(&mut out, &h, 8, 12);
    out.push('-');
    push_range(&mut out, &h, 12, 16);
    out.push('-');
    push_range(&mut out, &h, 16, 20);
    out.push('-');
    push_range(&mut out, &h, 20, 32);
    proof {
        assert(out@ =~= uuid_rep(id));
    }
    out
}

/// Parses the identifier's quoted wire form: the value and the index just
/// past the closing quote.
#[verifier::rlimit(100)]
fn parse_uuid_at(s: &Vec<char>, i: usize) -> (r: Option<(u128, usize)>)
    requires
        i <= s@.len(),
    ensures
        ({
            let suf = s@.skip(i as int);
            &&& (r is Some <==> suf.len() >= 38 && suf[0] == '"' && suf[37] == '"' && uuid_form_ok(
                suf.subrange(1, 37),
            ) && uuid_val(suf.subrange(1, 37)) <= u128::MAX)
            &&& (r matches Some(p) ==> p.0 == uuid_val(suf.subrange(1, 37)) && p.1 == i + 38)
        }),
        r matches Some(p) ==> i < p.1 <= s@.len(),
{
    let ghost suf = s@.skip(i as int);
    if s.len() - i < 38 {
        return None;
    }
    if s[i] != '"' {
        assert(suf[0] != '"');
        return None;
    }
    assert(suf[0] == '"');
    if s[i + 37] != '"' {
        assert(suf[37] != '"');
        return None;
    }
    assert(suf[37] == '"');
    let ghost u = suf.subrange(1, 37);
    proof {
        assert forall|k: int| 0 <= k < 36 implies u[k] == s@[i + 1 + k] by {}
    }
    if s[i + 9] != '-' {
        assert(u[8] != '-');
        return None;
    }
    if s[i + 14] != '-' {
        assert(u[13] != '-');
        return None;
    }
    if s[i + 19] != '-' {
        assert(u[18] != '-');
        return None;
    }
    if s[i + 24] != '-' {
        assert(u[23] != '-');
        return None;
    }
    assert(u[8] == '-' && u[13] == '-' && u[18] == '-' && u[23] == '-');
    let ghost c1 = u.subrange(0, 8);
    let ghost c2 = u.subrange(9, 13);
    let ghost c3 = u.subrange(14, 18);
    let ghost c4 = u.subrange(19, 23);
    let ghost c5 = u.subrange(24, 36);
    proof {
        assert(c1 =~= s@.subrange(i + 1, i + 9));
        assert(c2 =~= s@.subrange(i + 10, i + 14));
        assert(c3 =~= s@.subrange(i + 15, i + 19));
        assert(c4 =~= s@.subrange(i + 20, i + 24));
        assert(c5 =~= s@.subrange(i + 25, i + 37));
    }
    let g1 = match parse_hex_group(s, i + 1, 8) {
        Option::Some(v) => v,
        Option::None => {
            assert(!all_hex(c1));
            return None;
        },
    };
    let g2 = match parse_hex_group(s, i + 10, 4) {
        Option::Some(v) => v,
        Option::None => {
            assert(!all_hex(c2));
            return None;
        },
    };
    let g3 = match parse_hex_group(s, i + 15, 4) {
        Option::Some(v) => v,
        Option::None => {
            assert(!all_hex(c3));
            return None;
        },
    };
    let g4 = match parse_hex_group(s, i + 20, 4) {
        Option::Some(v) => v,
        Option::None => {
            assert(!all_hex(c4));
            return None;
        },
    };
    let g5 = match parse_hex_group(s, i + 25, 12) {
        Option::Some(v) => v,
        Option::None => {
            assert(!all_hex(c5));
            return None;
        },
    };
    proof {
        reveal_with_fuel(pow16, 33);
        assert(pow16(4) == 65536);
        assert(pow16(8) == 4294967296);
        assert(pow16(12) == 281474976710656);
        assert(pow16(16) == 18446744073709551616);
        assert(pow16(20) == 1208925819614629174706176);
    }
    assert((g1 as u128) * 65536 + (g2 as u128) < 281474976710656);
    let a: u128 = (g1 as u128) * 65536 + (g2 as u128);
    assert(a * 65536 + (g3 as u128) < 18446744073709551616);
    let b: u128 = a * 65536 + (g3 as u128);
    assert(b * 65536 + (g4 as u128) < 1208925819614629174706176);
    let c: u128 = b * 65536 + (g4 as u128);
    assert(c * 281474976710656 + (g5 as u128) <= u128::MAX) by (nonlinear_arith)
        requires
            c < 1208925819614629174706176,
            g5 < 281474976710656,
    ;
    let idv: u128 = c * 281474976710656 + (g5 as u128);
    proof {
        let n1 = hex_seq_val(c1);
        let n2 = hex_seq_val(c2);
        let n3 = hex_seq_val(c3);
        let n4 = hex_seq_val(c4);
        let n5 = hex_seq_val(c5);
        lemma_hex_concat(c1, c2);
        lemma_hex_concat(c1 + c2, c3);
        lemma_hex_concat(c1 + c2 + c3, c4);
        lemma_hex_concat(c1 + c2 + c3 + c4, c5);
        assert(hex_seq_val(c1 + c2) == n1 * 65536 + n2);
        assert(hex_seq_val(c1 + c2 + c3) == (n1 * 65536 + n2) * 65536 + n3);
        assert(hex_seq_val(c1 + c2 + c3 + c4) == ((n1 * 65536 + n2) * 65536 + n3) * 65536 + n4);
        assert(hex_seq_val(c1 + c2 + c3 + c4 + c5) == (((n1 * 65536 + n2) * 65536 + n3) * 65536
            + n4) * 281474976710656 + n5);
        assert(uuid_val(u) == hex_seq_val(c1 + c2 + c3 + c4 + c5));
        assert(idv == uuid_val(u));
        assert(uuid_form_ok(u));
    }
    Some((idv, i + 38))
}

/// Checks that the given literal stands at index `i` and returns the index
/// just past it.
fn expect_lit(s: &Vec<char>, i: usize, lit: &str) -> (r: Option<usize>)
    requires
        i <= s@.len(),
    ensures
        match r {
            Option::Some(j) => starts_with(s@.skip(i as int), lit@) && j == i + lit@.len(),
            Option::None => !starts_with(s@.skip(i as int), lit@),
        },
        r matches Some(j) ==> i <= j <= s@.len(),
{
    let lc = str_to_chars(lit);
    if s.len() - i < lc.len() {
        return None;
    }
    let mut k: usize = 0;
    while k < lc.len()
        invariant
            i <= s@.len(),
            s@.len() <= usize::MAX,
            lc@ == lit@,
            lc@.len() <= s@.len() - i,
            k <= lc@.len(),
            forall|k0: int| 0 <= k0 < k ==> s@[i + k0] == lc@[k0],
        decreases lc@.len() - k,
    {
        if s[i + k] != lc[k] {
            proof {
                if starts_with(s@.skip(i as int), lit@) {
                    assert(s@.skip(i as int).take(lit@.len() as int)[k as int] == lit@[k as int]);
                    assert(s@.skip(i as int)[k as int] == s@[i + k]);
                }
            }
            return None;
        }
        k = k + 1;
    }
    proof {
        assert(s@.skip(i as int).take(lit@.len() as int) =~= lit@);
    }
    Some(i + lc.len())
}

/// Parses an unsigned decimal that must fit in `u32`.
fn parse_u32_at(s: &Vec<char>, i: usize) -> (r: Option<(u32, usize)>)
    requires
        i <= s@.len(),
    ensures
        match spec_parse_nat(s@.skip(i as int)) {
            Option::None => r is None,
            Option::Some((v, n)) => {
                if v <= u32::MAX {
                    r matches Some(p) && p.0 == v && p.1 == i + n
                } else {
                    r is None
                }
            },
        },
        r matches Some(p) ==> i < p.1 <= s@.len(),
{
    match parse_u128_at(s, i) {
        Option::Some((v, j)) => {
            if v > u32::MAX as u128 {
                None
            } else {
                Some((v as u32, j))
            }
        },
        Option::None => None,
    }
}

/// Parses a signed decimal that must fit in `i64`.
fn parse_i64_at(s: &Vec<char>, i: usize) -> (r: Option<(i64, usize)>)
    requires
        i <= s@.len(),
    ensures
        match spec_parse_int(s@.skip(i as int)) {
            Option::None => r is None,
            Option::Some((v, n)) => {
                if i64::MIN <= v <= i64::MAX {
                    r matches Some(p) && p.0 == v && p.1 == i + n
                } else {
                    r is None
                }
            },
        },
        r matches Some(p) ==> i < p.1 <= s@.len(),
{
    let ghost suf = s@.skip(i as int);
    if i < s.len() && s[i] == '-' {
        assert(suf[0] == '-');
        proof {
            assert(s@.skip(i + 1) =~= suf.skip(1));
        }
        match parse_u128_at(s, i + 1) {
            Option::Some((mag, j)) => {
                if mag > 9223372036854775808u128 {
                    None
                } else if mag == 9223372036854775808u128 {
                    Some((i64::MIN, j))
                } else {
                    Some((-(mag as i64), j))
                }
            },
            Option::None => None,
        }
    } else {
        match parse_u128_at(s, i) {
            Option::Some((v, j)) => {
                if v > 9223372036854775807u128 {
                    None
                } else {
                    Some((v as i64, j))
                }
            },
            Option::None => None,
        }
    }
}

/// A digit sequence's value stays below ten to its length.
proof fn lemma_dec_val_pow_bound(s: Seq<char>)
    ensures
        dec_val(s) < pow10(s.len()),
    decreases s.len(),
{
    if s.len() > 0 {
        lemma_dec_val_pow_bound(s.drop_last());
        let h = dec_val(s.drop_last());
        let p = pow10((s.len() - 1) as nat);
        assert(digit_val(s.last()) < 10);
        assert(h * 10 + digit_val(s.last()) < p * 10) by (nonlinear_arith)
            requires
                h < p,
                digit_val(s.last()) < 10,
        ;
        assert(pow10(s.len()) == 10 * p);
    }
}

/// Ten to a smaller power is no larger.
proof fn lemma_pow10_le(a: nat, b: nat)
    requires
        a <= b,
    ensures
        pow10(a) <= pow10(b),
        pow10(a) >= 1,
    decreases b,
{
    if b > 0 {
        if a == b {
            lemma_pow10_le((b - 1) as nat, (b - 1) as nat);
        } else {
            lemma_pow10_le(a, (b - 1) as nat);
        }
    }
}

/// Ten to a small power.
fn pow10_small(k: usize) -> (r: u64)
    requires
        k <= 9,
    ensures
        r == pow10(k as nat),
{
    proof {
        reveal_with_fuel(pow10, 11);
    }
    if k == 0 {
        1
    } else if k == 1 {
        10
    } else if k == 2 {
        100
    } else if k == 3 {
        1000
    } else if k == 4 {
        10000
    } else if k == 5 {
        100000
    } else if k == 6 {
        1000000
    } else if k == 7 {
        10000000
    } else if k == 8 {
        100000000
    } else {
        1000000000
    }
}

/// Reads two decimal digits.
fn read_two_digits(s: &Vec<char>, at: usize) -> (r: Option<u64>)
    requires
        at + 2 <= s@.len(),
    ensures
        r is Some <==> is_digit_char(s@[at as int]) && is_digit_char(s@[at + 1]),
        r matches Some(v) ==> v == digit_val(s@[at as int]) * 10 + digit_val(s@[at + 1]) && v
            < 100,
{
    let total = s.len();
    let c0 = s[at];
    let c1 = s[at + 1];
    if !is_digit(c0) || !is_digit(c1) {
        return None;
    }
    let v = digit_value(c0) * 10 + digit_value(c1);
    Some(v as u64)
}

/// Reads the fixed head of the timestamp's string form: year, month, day,
/// hour, minute, second, with the shape and range checks.
fn parse_iso_head(s: &Vec<char>, i: usize) -> (r: Option<(u64, u64, u64, u64, u64, u64)>)
    requires
        i + 20 <= s@.len(),
    ensures
        ({
            let b = s@.skip(i as int).skip(1);
            &&& (r is Some <==> iso_head_ok(b) && 1 <= two_val_at(b, 5) <= 12 && 1 <= two_val_at(
                b,
                8,
            ) <= 31 && two_val_at(b, 11) < 24 && two_val_at(b, 14) < 60 && two_val_at(b, 17)
                <= 60)
            &&& (r matches Some(p) ==> p.0 == (digit_val(b[0]) * 1000 + digit_val(b[1])
                * 100) as int + two_val_at(b, 2) && p.1 == two_val_at(b, 5) && p.2 == two_val_at(
                b,
                8,
            ) && p.3 == two_val_at(b, 11) && p.4 == two_val_at(b, 14) && p.5 == two_val_at(b, 17)
                && p.0 < 10000)
        }),
{
    let total = s.len();
    let ghost b = s@.skip(i as int).skip(1);
    proof {
        assert(b.len() >= 19);
        assert forall|k: int| 0 <= k < b.len() implies b[k] == s@[i + 1 + k] by {}
    }
    let y1 = match read_two_digits(s, i + 1) {
        Option::Some(v) => v,
        Option::None => {
            return None;
        },
    };
    let y2 = match read_two_digits(s, i + 3) {
        Option::Some(v) => v,
        Option::None => {
            return None;
        },
    };
    if s[i + 5] != '-' {
        assert(b[4] != '-');
        return None;
    }
    let mo = match read_two_digits(s, i + 6) {
        Option::Some(v) => v,
        Option::None => {
            return None;
        },
    };
    if s[i + 8] != '-' {
        assert(b[7] != '-');
        return None;
    }
    let d = match read_two_digits(s, i + 9) {
        Option::Some(v) => v,
        Option::None => {
            return None;
        },
    };
    if s[i + 11] != 'T' {
        assert(b[10] != 'T');
        return None;
    }
    let h = match read_two_digits(s, i + 12) {
        Option::Some(v) => v,
        Option::None => {
            return None;
        },
    };
    if s[i + 14] != ':' {
        assert(b[13] != ':');
        return None;
    }
    let mi = match read_two_digits(s, i + 15) {
        Option::Some(v) => v,
        Option::None => {
            return None;
        },
    };
    if s[i + 17] != ':' {
        assert(b[16] != ':');
        return None;
    }
    let se = match read_two_digits(s, i + 18) {
        Option::Some(v) => v,
        Option::None => {
            return None;
        },
    };
    assert(iso_head_ok(b));
    if !(1 <= mo && mo <= 12 && 1 <= d && d <= 31 && h < 24 && mi < 60 && se <= 60) {
        return None;
    }
    let y = y1 * 100 + y2;
    Some((y, mo, d, h, mi, se))
}

/// Epoch milliseconds of a civil UTC date and time, by the era-based day
/// count.
fn civil_ms_exec(y: u64, mo: u64, d: u64, h: u64, mi: u64, se: u64, ms: u64) -> (r: i64)
    requires
        y < 10000,
        1 <= mo <= 12,
        1 <= d <= 31,
        h < 24,
        mi < 60,
        se <= 60,
        ms < 1000000000000,
    ensures
        r == civil_ms(y as int, mo as int, d as int, h as int, mi as int, se as int, ms as int),
{
    let yi: i64 = y as i64;
    let moi: i64 = mo as i64;
    let di: i64 = d as i64;
    let hi: i64 = h as i64;
    let mii: i64 = mi as i64;
    let sei: i64 = se as i64;
    let yy: i64 = if moi <= 2 {
        yi - 1
    } else {
        yi
    };
    let ys: i64 = yy + 400;
    assert(ys >= 0);
    let era: i64 = ys / 400;
    let yoe: i64 = ys - era * 400;
    let mp: i64 = if moi > 2 {
        moi - 3
    } else {
        moi + 9
    };
    let doy: i64 = (153 * mp + 2) / 5 + di - 1;
    let doe: i64 = yoe * 365 + yoe / 4 - yoe / 100 + doy;
    let days: i64 = (era - 1) * 146097 + doe - 719468;
    days * 86400000 + hi * 3600000 + mii * 60000 + sei * 1000 + (ms as i64)
}

/// Parses a timestamp's quoted string form into epoch milliseconds.
#[verifier::rlimit(100)]
#[verifier::spinoff_prover]
fn parse_iso_at(s: &Vec<char>, i: usize) -> (r: Option<(i64, usize)>)
    requires
        i <= s@.len(),
    ensures
        match spec_parse_iso(s@.skip(i as int)) {
            Option::None => r is None,
            Option::Some((v, n)) => {
                if i64::MIN <= v <= i64::MAX {
                    r matches Some(p) && p.0 == v && p.1 == i + n
                } else {
                    r is None
                }
            },
        },
        r matches Some(p) ==> i < p.1 <= s@.len(),
{
    let ghost suf = s@.skip(i as int);
    if i == s.len() {
        return None;
    }
    if s[i] != '"' {
        assert(suf[0] != '"');
        return None;
    }
    assert(suf[0] == '"');
    let ghost b = suf.skip(1);
    if s.len() - i < 20 {
        proof {
            assert(b.len() < 19);
        }
        return None;
    }
    proof {
        assert(b =~= s@.skip(i as int).skip(1));
    }
    let (y, mo, d, h, mi, se) = match parse_iso_head(s, i) {
        Option::Some(p) => p,
        Option::None => {
            return None;
        },
    };
    let ghost b2 = b.skip(19);
    let k: usize = i + 20;
    proof {
        assert(s@.skip(k as int) =~= b2);
    }
    let (msv, k2): (u64, usize) = if k < s.len() && s[k] == '.' {
        assert(b2[0] == '.');
        proof {
            assert(s@.skip(k + 1) =~= b2.skip(1));
        }
        match parse_u128_at(s, k + 1) {
            Option::None => {
                proof {
                    let bs = b2.skip(1);
                    if spec_parse_nat(bs) is Some {
                        let nf0 = (spec_parse_nat(bs)->0).1;
                        if nf0 <= 9 {
                            lemma_digit_prefix_len_bounds(bs);
                            lemma_dec_val_pow_bound(bs.take(crate::digits::digit_prefix_len(bs)));
                            lemma_pow10_le(nf0 as nat, 9);
                            reveal_with_fuel(pow10, 11);
                        }
                    }
                }
                return None;
            },
            Option::Some((fv, j)) => {
                let nf = j - (k + 1);
                if nf > 9 {
                    proof {
                        assert((spec_parse_nat(b2.skip(1))->0).1 > 9);
                    }
                    return None;
                }
                proof {
                    let digits = b2.skip(1).take(crate::digits::digit_prefix_len(b2.skip(1)));
                    lemma_digit_prefix_len_bounds(b2.skip(1));
                    lemma_dec_val_pow_bound(digits);
                    lemma_pow10_le(nf as nat, 9);
                    reveal_with_fuel(pow10, 11);
                    assert(fv < 1000000000);
                }
                let fsmall = fv as u64;
                let ms: u64 = if nf >= 3 {
                    fsmall / pow10_small(nf - 3)
                } else {
                    let mult = pow10_small(3 - nf);
                    proof {
                        lemma_pow10_le((3 - nf) as nat, 3);
                        reveal_with_fuel(pow10, 11);
                        assert(mult <= 1000);
                        assert(fsmall * mult < 1000000000000) by (nonlinear_arith)
                            requires
                                fsmall < 1000000000,
                                mult <= 1000,
                        ;
                    }
                    fsmall * mult
                };
                proof {
                    assert(ms == frac_ms(fv as nat, nf as int));
                    assert(ms < 1000000000000);
                }
                (ms, j)
            },
        }
    } else {
        (0, k)
    };
    let ghost b3 = s@.skip(k2 as int);
    proof {
        if k2 == k {
            assert(b3 =~= b2);
        } else {
            assert(b3 =~= b2.skip(1 + (k2 - (k + 1))));
        }
    }
    if s.len() - k2 < 2 {
        proof {
            assert(b3.len() < 2);
        }
        return None;
    }
    if s[k2] != 'Z' {
        assert(b3[0] != 'Z');
        return None;
    }
    if s[k2 + 1] != '"' {
        assert(b3[1] != '"');
        return None;
    }
    assert(b3[0] == 'Z' && b3[1] == '"');
    let v = civil_ms_exec(y, mo, d, h, mi, se, msv);
    Some((v, k2 + 2))
}

/// Parses a timestamp in either of its wire forms.
fn parse_timestamp_at(s: &Vec<char>, i: usize) -> (r: Option<(i64, usize)>)
    requires
        i <= s@.len(),
    ensures
        match spec_parse_timestamp(s@.skip(i as int)) {
            Option::None => r is None,
            Option::Some((v, n)) => {
                if i64::MIN <= v <= i64::MAX {
                    r matches Some(p) && p.0 == v && p.1 == i + n
                } else {
                    r is None
                }
            },
        },
        r matches Some(p) ==> i < p.1 <= s@.len(),
{
    if i < s.len() && s[i] == '"' {
        assert(s@.skip(i as int)[0] == '"');
        parse_iso_at(s, i)
    } else {
        parse_i64_at(s, i)
    }
}

/// Parses the metadata entries and the closing brace of the metadata object.
fn parse_pairs_at(s: &Vec<char>, i: usize) -> (r: Option<(Vec<(String, String)>, usize)>)
    requires
        i <= s@.len(),
    ensures
        match spec_parse_pairs(s@.skip(i as int)) {
            Option::None => r is None,
            Option::Some((ps, n)) => r matches Some(p) && meta_view(p.0@) == ps && p.1 == i + n,
        },
        r matches Some(p) ==> i < p.1 <= s@.len(),
    decreases s@.len() - i,
{
    let ghost suf = s@.skip(i as int);
    if i == s.len() {
        return None;
    }
    if s[i] == '}' {
        let out: Vec<(String, String)> = Vec::new();
        proof {
            assert(suf[0] == '}');
            assert(meta_view(out@) =~= Seq::<(Seq<char>, Seq<char>)>::empty());
        }
        return Some((out, i + 1));
    }
    assert(suf[0] != '}');
    let kr = parse_string_at(s, i);
    match kr {
        Option::None => None,
        Option::Some((kchars, j)) => {
            let ghost nk = (j - i) as int;
            proof {
                assert(s@.skip(j as int) =~= suf.skip(nk));
            }
            if j == s.len() {
                return None;
            }
            if s[j] != ':' {
                assert(suf.skip(nk)[0] != ':');
                return None;
            }
            assert(suf.skip(nk)[0] == ':');
            proof {
                assert(s@.skip(j + 1) =~= suf.skip(nk).skip(1));
            }
            let vr = parse_string_at(s, j + 1);
            match vr {
                Option::None => None,
                Option::Some((vchars, m)) => {
                    let ghost nv = (m - (j + 1)) as int;
                    let ghost s2 = suf.skip(nk).skip(1).skip(nv);
                    proof {
                        assert(s@.skip(m as int) =~= s2);
                    }
                    if m == s.len() {
                        return None;
                    }
                    assert(s2[0] == s@[m as int]);
                    assert(s2.len() < suf.len());
                    if s[m] == ',' {
                        match parse_pairs_at(s, m + 1) {
                            Option::None => {
                                proof {
                                    assert(s@.skip(m + 1) =~= s2.skip(1));
                                }
                                None
                            },
                            Option::Some((tail, q)) => {
                                proof {
                                    assert(s@.skip(m + 1) =~= s2.skip(1));
                                }
                                let kstr = chars_to_string(&kchars);
                                let vstr = chars_to_string(&vchars);
                                let mut out = tail;
                                out.insert(0, (kstr, vstr));
                                proof {
                                    let ghost pk = kchars@;
                                    let ghost pv = vchars@;
                                    assert(meta_view(out@) =~= seq![(pk, pv)] + meta_view(
                                        out@.drop_first(),
                                    ));
                                    assert(out@.drop_first() =~= out@.skip(1));
                                }
                                Some((out, q))
                            },
                        }
                    } else if s[m] == '}' {
                        let kstr = chars_to_string(&kchars);
                        let vstr = chars_to_string(&vchars);
                        let mut out: Vec<(String, String)> = Vec::new();
                        out.push((kstr, vstr));
                        proof {
                            assert(meta_view(out@) =~= seq![(kchars@, vchars@)]);
                        }
                        Some((out, m + 1))
                    } else {
                        None
                    }
                },
            }
        },
    }
}

/// Scans past the decimal digits at index `i`.
fn scan_digits(s: &Vec<char>, i: usize) -> (j: usize)
    requires
        i <= s@.len(),
    ensures
        j == i + crate::digits::digit_prefix_len(s@.skip(i as int)),
        i <= j <= s@.len(),
{
    let ghost suf = s@.skip(i as int);
    proof {
        crate::digits::lemma_digit_prefix_len_bounds(suf);
    }
    let ghost p = crate::digits::digit_prefix_len(suf);
    let mut j: usize = i;
    while j < s.len() && crate::digits::is_digit(s[j])
        invariant
            i <= j <= s@.len(),
            suf == s@.skip(i as int),
            p == crate::digits::digit_prefix_len(suf),
            0 <= p <= suf.len(),
            crate::digits::all_digits(suf.take(p)),
            p < suf.len() ==> !is_digit_char(suf[p]),
            j - i <= p,
        decreases s@.len() - j,
    {
        proof {
            assert(suf[j - i] == s@[j as int]);
            assert(j - i < p);
        }
        j = j + 1;
    }
    proof {
        if j - i < p {
            assert(suf.take(p)[j - i] == suf[j - i]);
            assert(suf[j - i] == s@[j as int]);
        }
    }
    j
}

/// Skips one signed decimal of any size.
fn skip_number_at(s: &Vec<char>, i: usize) -> (r: Option<usize>)
    requires
        i <= s@.len(),
    ensures
        match spec_parse_int(s@.skip(i as int)) {
            Option::None => r is None,
            Option::Some((v, n)) => r matches Some(j) && j == i + n,
        },
        r matches Some(j) ==> i < j <= s@.len(),
{
    let ghost suf = s@.skip(i as int);
    if i < s.len() && s[i] == '-' {
        assert(suf[0] == '-');
        proof {
            assert(s@.skip(i + 1) =~= suf.skip(1));
        }
        let j = scan_digits(s, i + 1);
        if j == i + 1 {
            None
        } else {
            Some(j)
        }
    } else {
        let j = scan_digits(s, i);
        if j == i {
            None
        } else {
            Some(j)
        }
    }
}

/// Skips one member value of any JSON shape.
fn skip_value_at(s: &Vec<char>, i: usize) -> (r: Option<usize>)
    requires
        i <= s@.len(),
    ensures
        match spec_skip_value(s@.skip(i as int)) {
            Option::None => r is None,
            Option::Some(n) => r matches Some(j) && j == i + n,
        },
        r matches Some(j) ==> i < j <= s@.len(),
    decreases s@.len() - i, 0int,
{
    let ghost suf = s@.skip(i as int);
    if i == s.len() {
        return None;
    }
    let c = s[i];
    assert(suf[0] == c);
    if c == '"' {
        match parse_string_at(s, i) {
            Option::Some((_t, j)) => Some(j),
            Option::None => None,
        }
    } else if c == '{' {
        proof {
            assert(s@.skip(i + 1) =~= suf.skip(1));
        }
        match skip_members_at(s, i + 1) {
            Option::Some(j) => Some(j),
            Option::None => None,
        }
    } else if c == '[' {
        proof {
            assert(s@.skip(i + 1) =~= suf.skip(1));
        }
        match skip_elements_at(s, i + 1) {
            Option::Some(j) => Some(j),
            Option::None => None,
        }
    } else {
        proof {
            reveal_strlit("true");
            reveal_strlit("false");
            reveal_strlit("null");
        }
        let word_true = expect_lit(s, i, "true");
        if let Option::Some(j) = word_true {
            return Some(j);
        }
        let word_false = expect_lit(s, i, "false");
        if let Option::Some(j) = word_false {
            return Some(j);
        }
        let word_null = expect_lit(s, i, "null");
        if let Option::Some(j) = word_null {
            return Some(j);
        }
        skip_number_at(s, i)
    }
}

/// Skips an object's members and its closing brace.
fn skip_members_at(s: &Vec<char>, i: usize) -> (r: Option<usize>)
    requires
        i <= s@.len(),
    ensures
        match spec_skip_members(s@.skip(i as int)) {
            Option::None => r is None,
            Option::Some(n) => r matches Some(j) && j == i + n,
        },
        r matches Some(j) ==> i < j <= s@.len(),
    decreases s@.len() - i, 1int,
{
    let ghost suf = s@.skip(i as int);
    if i == s.len() {
        return None;
    }
    if s[i] == '}' {
        assert(suf[0] == '}');
        return Some(i + 1);
    }
    assert(suf[0] != '}');
    match parse_string_at(s, i) {
        Option::None => None,
        Option::Some((_k, j1)) => {
            let ghost nk = (j1 - i) as int;
            proof {
                assert(s@.skip(j1 as int) =~= suf.skip(nk));
            }
            if j1 == s.len() {
                return None;
            }
            if s[j1] != ':' {
                assert(suf.skip(nk)[0] != ':');
                return None;
            }
            assert(suf.skip(nk)[0] == ':');
            proof {
                assert(s@.skip(j1 + 1) =~= suf.skip(nk).skip(1));
                assert(suf.skip(nk).skip(1).len() < suf.len());
            }
            match skip_value_at(s, j1 + 1) {
                Option::None => None,
                Option::Some(j2) => {
                    let ghost nv = (j2 - (j1 + 1)) as int;
                    let ghost s2 = suf.skip(nk).skip(1).skip(nv);
                    proof {
                        assert(s@.skip(j2 as int) =~= s2);
                        assert(s2.len() < suf.len());
                    }
                    if j2 == s.len() {
                        return None;
                    }
                    assert(s2[0] == s@[j2 as int]);
                    if s[j2] == ',' {
                        proof {
                            assert(s@.skip(j2 + 1) =~= s2.skip(1));
                        }
                        match skip_members_at(s, j2 + 1) {
                            Option::None => None,
                            Option::Some(j3) => Some(j3),
                        }
                    } else if s[j2] == '}' {
                        Some(j2 + 1)
                    } else {
                        None
                    }
                },
            }
        },
    }
}

/// Skips an array's elements and its closing bracket.
fn skip_elements_at(s: &Vec<char>, i: usize) -> (r: Option<usize>)
    requires
        i <= s@.len(),
    ensures
        match spec_skip_elements(s@.skip(i as int)) {
            Option::None => r is None,
            Option::Some(n) => r matches Some(j) && j == i + n,
        },
        r matches Some(j) ==> i < j <= s@.len(),
    decreases s@.len() - i, 1int,
{
    let ghost suf = s@.skip(i as int);
    if i == s.len() {
        return None;
    }
    if s[i] == ']' {
        assert(suf[0] == ']');
        return Some(i + 1);
    }
    assert(suf[0] != ']');
    match skip_value_at(s, i) {
        Option::None => None,
        Option::Some(j2) => {
            let ghost nv = (j2 - i) as int;
            let ghost s2 = suf.skip(nv);
            proof {
                assert(s@.skip(j2 as int) =~= s2);
                assert(s2.len() < suf.len());
            }
            if j2 == s.len() {
                return None;
            }
            assert(s2[0] == s@[j2 as int]);
            if s[j2] == ',' {
                proof {
                    assert(s@.skip(j2 + 1) =~= s2.skip(1));
                }
                match skip_elements_at(s, j2 + 1) {
                    Option::None => None,
                    Option::Some(j3) => Some(j3),
                }
            } else if s[j2] == ']' {
                Some(j2 + 1)
            } else {
                None
            }
        },
    }
}

/// Seeks the expected key at a field juncture, skipping unknown members of
/// the form `,"key":value` before it; returns the index just past the key.
fn seek_key(s: &Vec<char>, i: usize, lit: &str) -> (r: Option<usize>)
    requires
        i <= s@.len(),
    ensures
        match spec_seek(s@.skip(i as int), lit@) {
            Option::None => r is None,
            Option::Some(u) => r matches Some(j) && j == i + u,
        },
        r matches Some(j) ==> i <= j <= s@.len(),
    decreases s@.len() - i,
{
    let ghost suf = s@.skip(i as int);
    let hit = expect_lit(s, i, lit);
    if let Option::Some(j) = hit {
        return Some(j);
    }
    if i == s.len() {
        return None;
    }
    if s[i] != ',' {
        assert(suf[0] != ',');
        return None;
    }
    assert(suf[0] == ',');
    proof {
        assert(s@.skip(i + 1) =~= suf.skip(1));
    }
    match parse_string_at(s, i + 1) {
        Option::None => None,
        Option::Some((_k, j1)) => {
            let ghost nk = (j1 - (i + 1)) as int;
            proof {
                assert(s@.skip(j1 as int) =~= suf.skip(1 + nk));
            }
            if j1 == s.len() {
                return None;
            }
            if s[j1] != ':' {
                assert(suf.skip(1 + nk)[0] != ':');
                return None;
            }
            assert(suf.skip(1 + nk)[0] == ':');
            proof {
                assert(s@.skip(j1 + 1) =~= suf.skip(1 + nk).skip(1));
            }
            match skip_value_at(s, j1 + 1) {
                Option::None => None,
                Option::Some(j2) => {
                    let ghost nv = (j2 - (j1 + 1)) as int;
                    let ghost s2 = suf.skip(1 + nk).skip(1 + nv);
                    proof {
                        assert(s@.skip(j2 as int) =~= s2);
                        assert(s2.len() < suf.len());
                    }
                    match seek_key(s, j2, lit) {
                        Option::None => None,
                        Option::Some(j3) => Some(j3),
                    }
                },
            }
        },
    }
}

/// Seeks the first field's key just after the object opener, skipping
/// unknown members of the form `"key":value,` before it.
fn seek_key_head(s: &Vec<char>, i: usize, lit: &str) -> (r: Option<usize>)
    requires
        i <= s@.len(),
    ensures
        match spec_seek_head(s@.skip(i as int), lit@) {
            Option::None => r is None,
            Option::Some(u) => r matches Some(j) && j == i + u,
        },
        r matches Some(j) ==> i <= j <= s@.len(),
    decreases s@.len() - i,
{
    let ghost suf = s@.skip(i as int);
    let hit = expect_lit(s, i, lit);
    if let Option::Some(j) = hit {
        return Some(j);
    }
    if i == s.len() {
        return None;
    }
    if s[i] != '"' {
        assert(suf[0] != '"');
        return None;
    }
    assert(suf[0] == '"');
    match parse_string_at(s, i) {
        Option::None => None,
        Option::Some((_k, j1)) => {
            let ghost nk = (j1 - i) as int;
            proof {
                assert(s@.skip(j1 as int) =~= suf.skip(nk));
            }
            if j1 == s.len() {
                return None;
            }
            if s[j1] != ':' {
                assert(suf.skip(nk)[0] != ':');
                return None;
            }
            assert(suf.skip(nk)[0] == ':');
            proof {
                assert(s@.skip(j1 + 1) =~= suf.skip(nk).skip(1));
            }
            match skip_value_at(s, j1 + 1) {
                Option::None => None,
                Option::Some(j2) => {
                    let ghost nv = (j2 - (j1 + 1)) as int;
                    let ghost s2 = suf.skip(nk).skip(1 + nv);
                    proof {
                        assert(s@.skip(j2 as int) =~= s2);
                        assert(s2.len() < suf.len());
                    }
                    if j2 == s.len() {
                        return None;
                    }
                    if s[j2] != ',' {
                        assert(s2[0] != ',');
                        return None;
                    }
                    assert(s2[0] == ',');
                    proof {
                        assert(s@.skip(j2 + 1) =~= s2.skip(1));
                    }
                    match seek_key_head(s, j2 + 1, lit) {
                        Option::None => None,
                        Option::Some(j3) => Some(j3),
                    }
                },
            }
        },
    }
}

/// Parses a whole encoded job; fails exactly on text the format does not
/// admit.
#[verifier::rlimit(100)]
#[verifier::spinoff_prover]
pub fn decode_chars(s: &Vec<char>) -> (r: Option<FileUploadJob>)
    ensures
        match spec_decode(s@) {
            Option::None => r is None,
            Option::Some(jv) => r matches Some(job) && job@ == jv,
        },
{
    if s.len() == 0 {
        return None;
    }
    if s[0] != '{' {
        return None;
    }
    assert(s@[0int] == '{');
    let i1 = match seek_key_head(s, 1, "\"id\":") {
        Option::Some(j) => j,
        Option::None => {
            return None;
        },
    };
    let ghost u0 = spec_seek_head(s@.skip(1int), k_id0())->0;
    let ghost sp1 = s@.skip(1 + u0);
    proof {
        assert(i1 as int == 1 + u0);
        assert(s@.skip(i1 as int) =~= sp1);
    }
    let (idv, i2) = match parse_uuid_at(s, i1) {
        Option::Some(p) => p,
        Option::None => {
            return None;
        },
    };
    let ghost sp2 = sp1.skip(38);
    proof {
        assert(i2 as int == i1 + 38);
        assert(s@.skip(i2 as int) =~= sp2);
    }
    let i3 = match seek_key(s, i2, ",\"esign_id\":") {
        Option::Some(j) => j,
        Option::None => {
            return None;
        },
    };
    let ghost u_i3 = spec_seek(sp2, k_esign())->0;
    let ghost sp3 = sp2.skip(u_i3);
    proof {
        assert(i3 as int == i2 + u_i3);
        assert(s@.skip(i3 as int) =~= sp3);
    }
    let (esign, i4) = match parse_string_at(s, i3) {
        Option::Some(p) => p,
        Option::None => {
            return None;
        },
    };
    let ghost n3 = (spec_parse_string(sp3)->0).1;
    let ghost sp4 = sp3.skip(n3);
    proof {
        assert(i4 as int == i3 + n3);
        assert(s@.skip(i4 as int) =~= sp4);
    }
    let i5 = match seek_key(s, i4, ",\"document_url\":") {
        Option::Some(j) => j,
        Option::None => {
            return None;
        },
    };
    let ghost u_i5 = spec_seek(sp4, k_url())->0;
    let ghost sp5 = sp4.skip(u_i5);
    proof {
        assert(i5 as int == i4 + u_i5);
        assert(s@.skip(i5 as int) =~= sp5);
    }
    let (url, i6) = match parse_string_at(s, i5) {
        Option::Some(p) => p,
        Option::None => {
            return None;
        },
    };
    let ghost n5 = (spec_parse_string(sp5)->0).1;
    let ghost sp6 = sp5.skip(n5);
    proof {
        assert(i6 as int == i5 + n5);
        assert(s@.skip(i6 as int) =~= sp6);
    }
    let i7 = match seek_key(s, i6, ",\"document_name\":") {
        Option::Some(j) => j,
        Option::None => {
            return None;
        },
    };
    let ghost u_i7 = spec_seek(sp6, k_name())->0;
    let ghost sp7 = sp6.skip(u_i7);
    proof {
        assert(i7 as int == i6 + u_i7);
        assert(s@.skip(i7 as int) =~= sp7);
    }
    let (name, i8) = match parse_string_at(s, i7) {
        Option::Some(p) => p,
        Option::None => {
            return None;
        },
    };
    let ghost n7 = (spec_parse_string(sp7)->0).1;
    let ghost sp8 = sp7.skip(n7);
    proof {
        assert(i8 as int == i7 + n7);
        assert(s@.skip(i8 as int) =~= sp8);
    }
    decode_from_type_at(s, i8, idv, esign, url, name)
}

/// Parses the rest of an encoded job from the `document_type` field on.
#[verifier::rlimit(100)]
#[verifier::spinoff_prover]
fn decode_from_type_at(
    s: &Vec<char>,
    i8: usize,
    idv: u128,
    esign: Vec<char>,
    url: Vec<char>,
    name: Vec<char>,
) -> (r: Option<FileUploadJob>)
    requires
        i8 <= s@.len(),
    ensures
        match spec_decode_from_type(s@.skip(i8 as int), idv, esign@, url@, name@) {
            Option::None => r is None,
            Option::Some(jv) => r matches Some(job) && job@ == jv,
        },
{
    let ghost sp8 = s@.skip(i8 as int);
    let i9 = match seek_key(s, i8, ",\"document_type\":") {
        Option::Some(j) => j,
        Option::None => {
            return None;
        },
    };
    let ghost u_i9 = spec_seek(sp8, k_type())->0;
    let ghost sp9 = sp8.skip(u_i9);
    proof {
        assert(i9 as int == i8 + u_i9);
        assert(s@.skip(i9 as int) =~= sp9);
    }
    let (dtype, i10) = match parse_string_at(s, i9) {
        Option::Some(p) => p,
        Option::None => {
            return None;
        },
    };
    let ghost n9 = (spec_parse_string(sp9)->0).1;
    let ghost sp10 = sp9.skip(n9);
    proof {
        assert(i10 as int == i9 + n9);
        assert(s@.skip(i10 as int) =~= sp10);
    }
    let i11 = match seek_key(s, i10, ",\"retry_count\":") {
        Option::Some(j) => j,
        Option::None => {
            return None;
        },
    };
    let ghost u_i11 = spec_seek(sp10, k_retry())->0;
    let ghost sp11 = sp10.skip(u_i11);
    proof {
        assert(i11 as int == i10 + u_i11);
        assert(s@.skip(i11 as int) =~= sp11);
    }
    let (rv, i12) = match parse_u32_at(s, i11) {
        Option::Some(p) => p,
        Option::None => {
            return None;
        },
    };
    let ghost n11 = (spec_parse_nat(sp11)->0).1;
    let ghost sp12 = sp11.skip(n11);
    proof {
        assert(i12 as int == i11 + n11);
        assert(s@.skip(i12 as int) =~= sp12);
    }
    let i13 = match seek_key(s, i12, ",\"created_at\":") {
        Option::Some(j) => j,
        Option::None => {
            return None;
        },
    };
    let ghost u_i13 = spec_seek(sp12, k_created())->0;
    let ghost sp13 = sp12.skip(u_i13);
    proof {
        assert(i13 as int == i12 + u_i13);
        assert(s@.skip(i13 as int) =~= sp13);
    }
    let (cv, i14) = match parse_timestamp_at(s, i13) {
        Option::Some(p) => p,
        Option::None => {
            return None;
        },
    };
    let ghost n13 = (spec_parse_timestamp(sp13)->0).1;
    let ghost sp14 = sp13.skip(n13);
    proof {
        assert(i14 as int == i13 + n13);
        assert(s@.skip(i14 as int) =~= sp14);
    }
    decode_from_updated_at(s, i14, idv, esign, url, name, dtype, rv, cv)
}

/// Parses the rest of an encoded job from the `updated_at` field on.
#[verifier::rlimit(100)]
#[verifier::spinoff_prover]
fn decode_from_updated_at(
    s: &Vec<char>,
    i14: usize,
    idv: u128,
    esign: Vec<char>,
    url: Vec<char>,
    name: Vec<char>,
    dtype: Vec<char>,
    rv: u32,
    cv: i64,
) -> (r: Option<FileUploadJob>)
    requires
        i14 <= s@.len(),
    ensures
        match spec_decode_from_updated(
            s@.skip(i14 as int),
            idv,
            esign@,
            url@,
            name@,
            dtype@,
            rv,
            cv,
        ) {
            Option::None => r is None,
            Option::Some(jv) => r matches Some(job) && job@ == jv,
        },
{
    let ghost sp14 = s@.skip(i14 as int);
    let i15 = match seek_key(s, i14, ",\"updated_at\":") {
        Option::Some(j) => j,
        Option::None => {
            return None;
        },
    };
    let ghost u_i15 = spec_seek(sp14, k_updated())->0;
    let ghost sp15 = sp14.skip(u_i15);
    proof {
        assert(i15 as int == i14 + u_i15);
        assert(s@.skip(i15 as int) =~= sp15);
    }
    let (uv, i16) = match parse_timestamp_at(s, i15) {
        Option::Some(p) => p,
        Option::None => {
            return None;
        },
    };
    let ghost n15 = (spec_parse_timestamp(sp15)->0).1;
    let ghost sp16 = sp15.skip(n15);
    proof {
        assert(i16 as int == i15 + n15);
        assert(s@.skip(i16 as int) =~= sp16);
    }
    let i17 = match seek_key(s, i16, ",\"metadata\":{") {
        Option::Some(j) => j,
        Option::None => {
            return None;
        },
    };
    let ghost u_i17 = spec_seek(sp16, k_meta())->0;
    let ghost sp17 = sp16.skip(u_i17);
    proof {
        assert(i17 as int == i16 + u_i17);
        assert(s@.skip(i17 as int) =~= sp17);
    }
    let (meta, i18) = match parse_pairs_at(s, i17) {
        Option::Some(p) => p,
        Option::None => {
            return None;
        },
    };
    let ghost n17 = (spec_parse_pairs(sp17)->0).1;
    let ghost sp18 = sp17.skip(n17);
    proof {
        assert(i18 as int == i17 + n17);
        assert(s@.skip(i18 as int) =~= sp18);
    }
    let i19 = match seek_key(s, i18, "}") {
        Option::Some(j) => j,
        Option::None => {
            return None;
        },
    };
    let ghost u18 = spec_seek(sp18, k_close())->0;
    proof {
        assert(i19 as int == i18 + u18);
        assert(s@.skip(i19 as int) =~= sp18.skip(u18));
    }
    if i19 != s.len() {
        return None;
    }
    proof {
        assert(sp18.skip(u18).len() == 0);
    }
    let job = FileUploadJob {
        id: idv,
        esign_id: chars_to_string(&esign),
        document_url: chars_to_string(&url),
        document_name: chars_to_string(&name),
        document_type: chars_to_string(&dtype),
        retry_count: rv,
        created_at: cv,
        updated_at: uv,
        metadata: meta,
    };
    Some(job)
}

} // verus!
