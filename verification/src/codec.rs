//! Canonical byte format of the identity record.
//!
//! A record is stored as the JSON object `{"pid":P,"start_time":T}`
//! with both numbers in canonical decimal form and no surrounding
//! whitespace. `spec_encode` is the format's definition; `encode_record`
//! produces it, and `decode_record` accepts exactly the byte strings
//! that `spec_encode` produces for a well-formed record, so a saved
//! record always reloads as the identical value and anything else is
//! reported as corrupt.

use vstd::prelude::*;

use crate::digits::{
    all_digits, canonical_digits, dec_digits, digits_val, is_digit, lemma_dec_digits_form,
    lemma_dec_of_val, lemma_val_of_dec, lemma_val_prefix_le,
};
use crate::record::PidInfo;

verus! {

/// The bytes of `{"pid":`.
pub open spec fn lit_head() -> Seq<u8> {
    seq![123u8, 34u8, 112u8, 105u8, 100u8, 34u8, 58u8]
}

/// The bytes of `,"start_time":`.
pub open spec fn lit_mid() -> Seq<u8> {
    seq![44u8, 34u8, 115u8, 116u8, 97u8, 114u8, 116u8, 95u8, 116u8, 105u8, 109u8, 101u8, 34u8, 58u8]
}

/// The canonical serialized form of a record.
pub open spec fn spec_encode(info: PidInfo) -> Seq<u8> {
    lit_head() + dec_digits(info.pid as nat) + lit_mid() + dec_digits(info.start_time as nat)
        + seq![125u8]
}

fn lit_head_vec() -> (v: Vec<u8>)
    ensures
        v@ == lit_head(),
{
    let mut v: Vec<u8> = Vec::new();
    v.push(123);
    v.push(34);
    v.push(112);
    v.push(105);
    v.push(100);
    v.push(34);
    v.push(58);
    proof {
        assert(v@ =~= lit_head());
    }
    v
}

fn lit_mid_vec() -> (v: Vec<u8>)
    ensures
        v@ == lit_mid(),
{
    let mut v: Vec<u8> = Vec::new();
    v.push(44);
    v.push(34);
    v.push(115);
    v.push(116);
    v.push(97);
    v.push(114);
    v.push(116);
    v.push(95);
    v.push(116);
    v.push(105);
    v.push(109);
    v.push(101);
    v.push(34);
    v.push(58);
    proof {
        assert(v@ =~= lit_mid());
    }
    v
}

/// Writes `n` in canonical decimal form.
fn encode_u64(n: u64) -> (v: Vec<u8>)
    ensures
        v@ == dec_digits(n as nat),
    decreases n,
{
    if n < 10 {
        let mut v: Vec<u8> = Vec::new();
        v.push(48 + n as u8);
        proof {
            assert(v@ =~= dec_digits(n as nat));
        }
        v
    } else {
        let mut v = encode_u64(n / 10);
        v.push(48 + (n % 10) as u8);
        proof {
            assert(v@ =~= dec_digits(n as nat));
        }
        v
    }
}

/// Serializes a record into its canonical byte form.
pub fn encode_record(info: &PidInfo) -> (r: Vec<u8>)
    requires
        info.wf(),
    ensures
        r@ == spec_encode(*info),
{
    let mut v = lit_head_vec();
    let mut pid_digits = encode_u64(info.pid as u64);
    v.append(&mut pid_digits);
    let mut mid = lit_mid_vec();
    v.append(&mut mid);
    let mut time_digits = encode_u64(info.start_time);
    v.append(&mut time_digits);
    v.push(125);
    proof {
        assert(v@ =~= spec_encode(*info));
    }
    v
}

/// The shape of a serialized well-formed record: the literal segments,
/// the two canonical digit runs, and the total length.
pub proof fn lemma_encode_structure(i: PidInfo)
    requires
        i.wf(),
    ensures
        ({
            let e = spec_encode(i);
            let pd = dec_digits(i.pid as nat);
            let td = dec_digits(i.start_time as nat);
            &&& e.len() == 22 + pd.len() + td.len()
            &&& forall|j: int| 0 <= j < 7 ==> e[j] == lit_head()[j]
            &&& forall|t: int| 0 <= t < pd.len() ==> e[7 + t] == pd[t]
            &&& forall|t: int| 0 <= t < 14 ==> e[7 + pd.len() + t] == lit_mid()[t]
            &&& forall|t: int| 0 <= t < td.len() ==> e[7 + pd.len() + 14 + t] == td[t]
            &&& e[e.len() - 1] == 125
            &&& canonical_digits(pd)
            &&& canonical_digits(td)
            &&& pd[0] != 48
            &&& digits_val(pd) == i.pid as nat
            &&& digits_val(td) == i.start_time as nat
        }),
{
    lemma_dec_digits_form(i.pid as nat);
    lemma_dec_digits_form(i.start_time as nat);
    lemma_val_of_dec(i.pid as nat);
    lemma_val_of_dec(i.start_time as nat);
}

/// No byte string is the canonical encoding of two distinct well-formed
/// records: a record written by `encode_record` reads back as the
/// identical pid and start time, never as some other record.
#[verifier::rlimit(100)]
pub proof fn lemma_encode_injective(a: PidInfo, b: PidInfo)
    requires
        a.wf(),
        b.wf(),
        spec_encode(a) == spec_encode(b),
    ensures
        a == b,
{
    lemma_encode_structure(a);
    lemma_encode_structure(b);
    let e = spec_encode(a);
    let pa = dec_digits(a.pid as nat);
    let ta = dec_digits(a.start_time as nat);
    // The maximal digit run after the head literal is the pid run of
    // either reading: it is bounded by the comma of the middle literal.
    let p_end = 7 + pa.len() as int;
    assert forall|k: int| 7 <= k < p_end implies is_digit(e[k]) by {
        assert(e[k] == pa[k - 7]);
    }
    assert(e[p_end] == lit_mid()[0]);
    assert(!is_digit(e[p_end]));
    lemma_pid_run_matches(e, a, p_end);
    lemma_pid_run_matches(e, b, p_end);
    assert(pa =~= dec_digits(b.pid as nat));
    lemma_val_of_dec(a.pid as nat);
    lemma_val_of_dec(b.pid as nat);
    assert(a.pid == b.pid);
    // The same argument locates the start-time run, bounded by the
    // closing brace.
    let t_start = p_end + 14;
    let t_end = t_start + ta.len() as int;
    assert forall|k: int| t_start <= k < t_end implies is_digit(e[k]) by {
        assert(e[k] == ta[k - t_start]);
    }
    assert(t_end == e.len() - 1);
    assert(e[t_end] == 125);
    assert(!is_digit(e[t_end]));
    lemma_time_run_matches(e, a, t_start, t_end);
    lemma_time_run_matches(e, b, t_start, t_end);
    assert(ta =~= dec_digits(b.start_time as nat));
    lemma_val_of_dec(a.start_time as nat);
    lemma_val_of_dec(b.start_time as nat);
    assert(a.start_time == b.start_time);
}

/// Extends a run of digit bytes starting at `start` as far as it goes.
fn scan_digits(data: &[u8], start: usize) -> (end: usize)
    requires
        start <= data@.len(),
    ensures
        start <= end <= data@.len(),
        forall|k: int| start <= k < end ==> is_digit(data@[k]),
        end < data@.len() ==> !is_digit(data@[end as int]),
{
    let mut j = start;
    while j < data.len()
        invariant
            start <= j <= data@.len(),
            forall|k: int| start <= k < j ==> is_digit(data@[k]),
        decreases data@.len() - j,
    {
        let b = data[j];
        if b < 48 || b > 57 {
            return j;
        }
        j = j + 1;
    }
    j
}

/// Reads the value of the digit run `data[start..end]`, or reports that
/// it does not fit in a `u64`.
fn digits_to_u64(data: &[u8], start: usize, end: usize) -> (r: Option<u64>)
    requires
        start <= end <= data@.len(),
        forall|k: int| start <= k < end ==> is_digit(data@[k]),
    ensures
        ({
            let seg = data@.subrange(start as int, end as int);
            match r {
                Some(v) => v as nat == digits_val(seg),
                None => digits_val(seg) > u64::MAX,
            }
        }),
{
    let mut acc: u64 = 0;
    let mut j = start;
    while j < end
        invariant
            start <= j <= end <= data@.len(),
            forall|k: int| start <= k < end ==> is_digit(data@[k]),
            acc as nat == digits_val(data@.subrange(start as int, j as int)),
        decreases end - j,
    {
        let d = data[j] - 48;
        let limit = (u64::MAX - d as u64) / 10;
        proof {
            let pre = data@.subrange(start as int, j + 1);
            assert(pre.drop_last() =~= data@.subrange(start as int, j as int));
            assert(pre.last() == data@[j as int]);
        }
        if acc > limit {
            proof {
                let seg = data@.subrange(start as int, end as int);
                let pre = data@.subrange(start as int, j + 1);
                assert(acc * 10 + d > u64::MAX) by (nonlinear_arith)
                    requires
                        acc > (u64::MAX - d as u64) / 10,
                        d < 10,
                ;
                assert(digits_val(pre) > u64::MAX);
                assert(pre =~= seg.subrange(0, j + 1 - start));
                assert(all_digits(seg));
                lemma_val_prefix_le(seg, j + 1 - start);
            }
            return None;
        }
        proof {
            assert(acc * 10 + d <= u64::MAX) by (nonlinear_arith)
                requires
                    acc <= (u64::MAX - d as u64) / 10,
                    d < 10,
            ;
        }
        acc = acc * 10 + d as u64;
        j = j + 1;
    }
    proof {
        assert(data@.subrange(start as int, j as int) =~= data@.subrange(
            start as int,
            end as int,
        ));
    }
    Some(acc)
}

/// Under the assumption that `data` is the encoding of a well-formed
/// record, the maximal digit run starting at position 7 is exactly the
/// record's pid run.
proof fn lemma_pid_run_matches(data: Seq<u8>, i: PidInfo, p_end: int)
    requires
        i.wf(),
        data == spec_encode(i),
        7 <= p_end <= data.len(),
        forall|k: int| 7 <= k < p_end ==> is_digit(data[k]),
        p_end < data.len() ==> !is_digit(data[p_end]),
    ensures
        p_end == 7 + dec_digits(i.pid as nat).len(),
        data.subrange(7, p_end) =~= dec_digits(i.pid as nat),
{
    lemma_encode_structure(i);
    let pd = dec_digits(i.pid as nat);
    if p_end < 7 + pd.len() {
        assert(data[p_end] == pd[p_end - 7]);
        assert(is_digit(pd[p_end - 7]));
        assert(p_end < data.len());
        assert(false);
    }
    if p_end > 7 + pd.len() {
        assert(data[7 + pd.len() as int] == lit_mid()[0]);
        assert(is_digit(data[7 + pd.len() as int]));
        assert(false);
    }
    assert forall|t: int| 0 <= t < pd.len() implies data.subrange(7, p_end)[t] == pd[t] by {
        assert(data[7 + t] == pd[t]);
    }
}

/// The same, for the start-time run after the middle literal.
proof fn lemma_time_run_matches(data: Seq<u8>, i: PidInfo, t_start: int, t_end: int)
    requires
        i.wf(),
        data == spec_encode(i),
        t_start == 7 + dec_digits(i.pid as nat).len() + 14,
        t_start <= t_end <= data.len(),
        forall|k: int| t_start <= k < t_end ==> is_digit(data[k]),
        t_end < data.len() ==> !is_digit(data[t_end]),
    ensures
        t_end == t_start + dec_digits(i.start_time as nat).len(),
        data.subrange(t_start, t_end) =~= dec_digits(i.start_time as nat),
{
    lemma_encode_structure(i);
    let pd = dec_digits(i.pid as nat);
    let td = dec_digits(i.start_time as nat);
    if t_end < t_start + td.len() {
        assert(data[t_end] == td[t_end - t_start]);
        assert(is_digit(td[t_end - t_start]));
        assert(t_end < data.len());
        assert(false);
    }
    if t_end > t_start + td.len() {
        assert(data[t_start + td.len() as int] == data[data.len() - 1]);
        assert(data[data.len() - 1] == 125);
        assert(is_digit(data[t_start + td.len() as int]));
        assert(false);
    }
    assert forall|t: int| 0 <= t < td.len() implies data.subrange(t_start, t_end)[t] == td[t] by {
        assert(data[t_start + t] == td[t]);
    }
}

/// Deserializes a record. Returns the record exactly when `data` is the
/// canonical encoding of a well-formed record; anything else — absence
/// of the literal frame, a missing or padded number, a pid outside
/// `1..=i32::MAX`, a start time beyond `u64::MAX`, trailing bytes — is
/// corrupt and yields `None`.
#[verifier::rlimit(100)]
#[verifier::loop_isolation(false)]
pub fn decode_record(data: &[u8]) -> (r: Option<PidInfo>)
    ensures
        ({
            match r {
                Some(i) => i.wf() && data@ == spec_encode(i),
                None => forall|i: PidInfo| i.wf() ==> data@ != spec_encode(i),
            }
        }),
{
    let head = lit_head_vec();
    if data.len() < 7 {
        proof {
            assert forall|i: PidInfo| i.wf() implies data@ != spec_encode(i) by {
                if data@ == spec_encode(i) {
                    lemma_encode_structure(i);
                }
            }
        }
        return None;
    }
    let mut j: usize = 0;
    while j < 7
        invariant
            0 <= j <= 7,
            data@.len() >= 7,
            head@ == lit_head(),
            forall|k: int| 0 <= k < j ==> data@[k] == lit_head()[k],
        decreases 7 - j,
    {
        if data[j] != head[j] {
            proof {
                assert forall|i: PidInfo| i.wf() implies data@ != spec_encode(i) by {
                    if data@ == spec_encode(i) {
                        lemma_encode_structure(i);
                        assert(data@[j as int] == lit_head()[j as int]);
                    }
                }
            }
            return None;
        }
        j = j + 1;
    }
    let p_end = scan_digits(data, 7);
    if p_end == 7 {
        proof {
            assert forall|i: PidInfo| i.wf() implies data@ != spec_encode(i) by {
                if data@ == spec_encode(i) {
                    lemma_pid_run_matches(data@, i, p_end as int);
                    lemma_dec_digits_form(i.pid as nat);
                }
            }
        }
        return None;
    }
    if p_end - 7 > 1 && data[7] == 48 {
        proof {
            assert forall|i: PidInfo| i.wf() implies data@ != spec_encode(i) by {
                if data@ == spec_encode(i) {
                    lemma_pid_run_matches(data@, i, p_end as int);
                    lemma_encode_structure(i);
                    assert(data@[7] == dec_digits(i.pid as nat)[0]);
                }
            }
        }
        return None;
    }
    let pv_opt = digits_to_u64(data, 7, p_end);
    let pv = match pv_opt {
        Some(v) => v,
        None => {
            proof {
                assert forall|i: PidInfo| i.wf() implies data@ != spec_encode(i) by {
                    if data@ == spec_encode(i) {
                        lemma_pid_run_matches(data@, i, p_end as int);
                        lemma_encode_structure(i);
                    }
                }
            }
            return None;
        },
    };
    if pv == 0 || pv > 2147483647 {
        proof {
            assert forall|i: PidInfo| i.wf() implies data@ != spec_encode(i) by {
                if data@ == spec_encode(i) {
                    lemma_pid_run_matches(data@, i, p_end as int);
                    lemma_encode_structure(i);
                }
            }
        }
        return None;
    }
    let mid = lit_mid_vec();
    if data.len() - p_end < 14 {
        proof {
            assert forall|i: PidInfo| i.wf() implies data@ != spec_encode(i) by {
                if data@ == spec_encode(i) {
                    lemma_pid_run_matches(data@, i, p_end as int);
                    lemma_encode_structure(i);
                    lemma_dec_digits_form(i.start_time as nat);
                }
            }
        }
        return None;
    }
    let mut t: usize = 0;
    while t < 14
        invariant
            0 <= t <= 14,
            7 <= p_end <= data@.len(),
            data@.len() - p_end >= 14,
            mid@ == lit_mid(),
            forall|k: int| 0 <= k < t ==> data@[p_end + k] == lit_mid()[k],
        decreases 14 - t,
    {
        if data[p_end + t] != mid[t] {
            proof {
                assert forall|i: PidInfo| i.wf() implies data@ != spec_encode(i) by {
                    if data@ == spec_encode(i) {
                        lemma_pid_run_matches(data@, i, p_end as int);
                        lemma_encode_structure(i);
                        assert(data@[p_end + t] == lit_mid()[t as int]);
                    }
                }
            }
            return None;
        }
        t = t + 1;
    }
    let t_start = p_end + 14;
    let t_end = scan_digits(data, t_start);
    if t_end == t_start {
        proof {
            assert forall|i: PidInfo| i.wf() implies data@ != spec_encode(i) by {
                if data@ == spec_encode(i) {
                    lemma_pid_run_matches(data@, i, p_end as int);
                    lemma_time_run_matches(data@, i, t_start as int, t_end as int);
                    lemma_dec_digits_form(i.start_time as nat);
                }
            }
        }
        return None;
    }
    if t_end - t_start > 1 && data[t_start] == 48 {
        proof {
            assert forall|i: PidInfo| i.wf() implies data@ != spec_encode(i) by {
                if data@ == spec_encode(i) {
                    lemma_pid_run_matches(data@, i, p_end as int);
                    lemma_time_run_matches(data@, i, t_start as int, t_end as int);
                    lemma_encode_structure(i);
                    assert(data@[t_start as int] == dec_digits(i.start_time as nat)[0]);
                }
            }
        }
        return None;
    }
    let tv_opt = digits_to_u64(data, t_start, t_end);
    let tv = match tv_opt {
        Some(v) => v,
        None => {
            proof {
                assert forall|i: PidInfo| i.wf() implies data@ != spec_encode(i) by {
                    if data@ == spec_encode(i) {
                        lemma_pid_run_matches(data@, i, p_end as int);
                        lemma_time_run_matches(data@, i, t_start as int, t_end as int);
                        lemma_encode_structure(i);
                    }
                }
            }
            return None;
        },
    };
    if t_end != data.len() - 1 || data[t_end] != 125 {
        proof {
            assert forall|i: PidInfo| i.wf() implies data@ != spec_encode(i) by {
                if data@ == spec_encode(i) {
                    lemma_pid_run_matches(data@, i, p_end as int);
                    lemma_time_run_matches(data@, i, t_start as int, t_end as int);
                    lemma_encode_structure(i);
                }
            }
        }
        return None;
    }
    let info = PidInfo { pid: pv as i32, start_time: tv };
    proof {
        let run1 = data@.subrange(7, p_end as int);
        let run2 = data@.subrange(t_start as int, t_end as int);
        assert(canonical_digits(run1));
        assert(canonical_digits(run2));
        lemma_dec_of_val(run1);
        lemma_dec_of_val(run2);
        assert(digits_val(run1) == pv as nat);
        assert(digits_val(run2) == tv as nat);
        assert(run1 =~= dec_digits(info.pid as nat));
        assert(run2 =~= dec_digits(info.start_time as nat));
        assert(data@ =~= lit_head() + run1 + lit_mid() + run2 + seq![125u8]);
        assert(data@ == spec_encode(info));
    }
    Some(info)
}

} // verus!
