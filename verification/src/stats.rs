use vstd::prelude::*;
use vstd::string::*;
use crate::num::{
    dec_rep, dec_value, is_digit, lemma_dec_canonical, lemma_dec_rep_digits,
    lemma_dec_value_of_rep, parse_u64_run, u64_to_dec,
};
use crate::text::{match_at, matches_at};

verus! {

/// The counters one ingestion node publishes for one stream.
#[derive(Clone, Copy)]
pub struct PerNodeStats {
    pub events: u64,
    pub ingestion_bytes: u64,
    pub storage_bytes: u64,
}

/// The canonical blob a per-node stats record is stored as.
pub open spec fn stats_encoding(st: PerNodeStats) -> Seq<char> {
    "{\"events\":"@ + dec_rep(st.events as nat) + ",\"ingestion\":"@ + dec_rep(
        st.ingestion_bytes as nat,
    ) + ",\"storage\":"@ + dec_rep(st.storage_bytes as nat) + "}"@
}

pub open spec fn is_stats_encoding(s: Seq<char>) -> bool {
    exists|st: PerNodeStats| s == stats_encoding(st)
}

pub open spec fn stats_decoded(s: Seq<char>) -> PerNodeStats {
    choose|st: PerNodeStats| s == stats_encoding(st)
}

/// `to` is where a maximal digit run starting at `from` ends.
pub open spec fn run_at(s: Seq<char>, from: int, to: int) -> bool {
    &&& 0 <= from <= to <= s.len()
    &&& (forall|j: int| from <= j < to ==> is_digit(#[trigger] s[j]))
    &&& (to == s.len() || !is_digit(s[to]))
}

pub proof fn lemma_run_unique(s: Seq<char>, from: int, a: int, b: int)
    requires
        run_at(s, from, a),
        run_at(s, from, b),
    ensures
        a == b,
{
    if a < b {
        assert(is_digit(s[a]));
    }
    if b < a {
        assert(is_digit(s[b]));
    }
}

/// Find the end of the maximal digit run starting at `from`.
pub fn scan_digits(s: &str, from: usize) -> (r: usize)
    requires
        from <= s@.len(),
    ensures
        run_at(s@, from as int, r as int),
        from <= r,
{
    let n = s.unicode_len();
    let mut i: usize = from;
    while i < n
        invariant
            from <= i <= n,
            n == s@.len(),
            forall|j: int| from <= j < i ==> is_digit(#[trigger] s@[j]),
        decreases n - i,
    {
        match crate::num::digit_of(s.get_char(i)) {
            Some(_) => {
                i += 1;
            },
            None => {
                return i;
            },
        }
    }
    i
}

/// Where each part of a canonical stats blob lies.
pub proof fn lemma_stats_parts(st: PerNodeStats)
    ensures
        ({
            let s = stats_encoding(st);
            let e1 = 10 + dec_rep(st.events as nat).len() as int;
            let p2 = e1 + 13;
            let e2 = p2 + dec_rep(st.ingestion_bytes as nat).len() as int;
            let p3 = e2 + 11;
            let e3 = p3 + dec_rep(st.storage_bytes as nat).len() as int;
            &&& s.len() == e3 + 1
            &&& matches_at(s, 0, "{\"events\":"@)
            &&& run_at(s, 10, e1)
            &&& s.subrange(10, e1) == dec_rep(st.events as nat)
            &&& matches_at(s, e1, ",\"ingestion\":"@)
            &&& run_at(s, p2, e2)
            &&& s.subrange(p2, e2) == dec_rep(st.ingestion_bytes as nat)
            &&& matches_at(s, e2, ",\"storage\":"@)
            &&& run_at(s, p3, e3)
            &&& s.subrange(p3, e3) == dec_rep(st.storage_bytes as nat)
            &&& matches_at(s, e3, "}"@)
        }),
{
    reveal_strlit("{\"events\":");
    reveal_strlit(",\"ingestion\":");
    reveal_strlit(",\"storage\":");
    reveal_strlit("}");
    let s = stats_encoding(st);
    let r1 = dec_rep(st.events as nat);
    let r2 = dec_rep(st.ingestion_bytes as nat);
    let r3 = dec_rep(st.storage_bytes as nat);
    lemma_dec_rep_digits(st.events as nat);
    lemma_dec_rep_digits(st.ingestion_bytes as nat);
    lemma_dec_rep_digits(st.storage_bytes as nat);
    let e1 = 10 + r1.len() as int;
    let p2 = e1 + 13;
    let e2 = p2 + r2.len() as int;
    let p3 = e2 + 11;
    let e3 = p3 + r3.len() as int;
    assert(s.len() == e3 + 1);
    assert(s.subrange(0, 10) =~= "{\"events\":"@);
    assert(r1 =~= s.subrange(10, e1));
    assert(s.subrange(e1, p2) =~= ",\"ingestion\":"@);
    assert(r2 =~= s.subrange(p2, e2));
    assert(s.subrange(e2, p3) =~= ",\"storage\":"@);
    assert(r3 =~= s.subrange(p3, e3));
    assert(s.subrange(e3, e3 + 1) =~= "}"@);
    assert(!is_digit(s[e1]));
    assert(!is_digit(s[e2]));
    assert(!is_digit(s[e3]));
    assert forall|j: int| 10 <= j < e1 implies is_digit(#[trigger] s[j]) by {
        assert(s[j] == r1[j - 10]);
    }
    assert forall|j: int| p2 <= j < e2 implies is_digit(#[trigger] s[j]) by {
        assert(s[j] == r2[j - p2]);
    }
    assert forall|j: int| p3 <= j < e3 implies is_digit(#[trigger] s[j]) by {
        assert(s[j] == r3[j - p3]);
    }
}

/// What must hold of the first digit run and its delimiter if the blob is
/// canonical; a blob that violates any of it is malformed.
proof fn lemma_stats_malformed_run1(s: Seq<char>, e1: int)
    requires
        run_at(s, 10, e1),
        !({
            &&& e1 > 10
            &&& (e1 == 11 || s[10] != '0')
            &&& dec_value(s.subrange(10, e1)) <= u64::MAX
            &&& matches_at(s, e1, ",\"ingestion\":"@)
        }),
    ensures
        !is_stats_encoding(s),
{
    assert forall|st: PerNodeStats| s != stats_encoding(st) by {
        if s == stats_encoding(st) {
            lemma_stats_parts(st);
            lemma_dec_rep_digits(st.events as nat);
            lemma_run_unique(s, 10, e1, 10 + dec_rep(st.events as nat).len() as int);
            lemma_dec_value_of_rep(st.events as nat);
        }
    }
}

proof fn lemma_stats_malformed_prefix(s: Seq<char>)
    requires
        !matches_at(s, 0, "{\"events\":"@),
    ensures
        !is_stats_encoding(s),
{
    assert forall|st: PerNodeStats| s != stats_encoding(st) by {
        if s == stats_encoding(st) {
            lemma_stats_parts(st);
        }
    }
}

proof fn lemma_stats_malformed_run2(s: Seq<char>, e1: int, e2: int)
    requires
        run_at(s, 10, e1),
        matches_at(s, e1, ",\"ingestion\":"@),
        run_at(s, e1 + 13, e2),
        !({
            &&& e2 > e1 + 13
            &&& (e2 == e1 + 14 || s[e1 + 13] != '0')
            &&& dec_value(s.subrange(e1 + 13, e2)) <= u64::MAX
            &&& matches_at(s, e2, ",\"storage\":"@)
        }),
    ensures
        !is_stats_encoding(s),
{
    assert forall|st: PerNodeStats| s != stats_encoding(st) by {
        if s == stats_encoding(st) {
            lemma_stats_parts(st);
            lemma_dec_rep_digits(st.ingestion_bytes as nat);
            lemma_run_unique(s, 10, e1, 10 + dec_rep(st.events as nat).len() as int);
            lemma_run_unique(
                s,
                e1 + 13,
                e2,
                e1 + 13 + dec_rep(st.ingestion_bytes as nat).len() as int,
            );
            lemma_dec_value_of_rep(st.ingestion_bytes as nat);
        }
    }
}

proof fn lemma_stats_malformed_run3(s: Seq<char>, e1: int, e2: int, e3: int)
    requires
        run_at(s, 10, e1),
        matches_at(s, e1, ",\"ingestion\":"@),
        run_at(s, e1 + 13, e2),
        matches_at(s, e2, ",\"storage\":"@),
        run_at(s, e2 + 11, e3),
        !({
            &&& e3 > e2 + 11
            &&& (e3 == e2 + 12 || s[e2 + 11] != '0')
            &&& dec_value(s.subrange(e2 + 11, e3)) <= u64::MAX
            &&& matches_at(s, e3, "}"@)
            &&& e3 + 1 == s.len()
        }),
    ensures
        !is_stats_encoding(s),
{
    assert forall|st: PerNodeStats| s != stats_encoding(st) by {
        if s == stats_encoding(st) {
            lemma_stats_parts(st);
            lemma_dec_rep_digits(st.storage_bytes as nat);
            lemma_run_unique(s, 10, e1, 10 + dec_rep(st.events as nat).len() as int);
            lemma_run_unique(
                s,
                e1 + 13,
                e2,
                e1 + 13 + dec_rep(st.ingestion_bytes as nat).len() as int,
            );
            lemma_run_unique(
                s,
                e2 + 11,
                e3,
                e2 + 11 + dec_rep(st.storage_bytes as nat).len() as int,
            );
            lemma_dec_value_of_rep(st.storage_bytes as nat);
        }
    }
}

/// A blob whose three runs and four delimiters are all in place is the
/// canonical blob of the values the runs spell.
proof fn lemma_stats_success(s: Seq<char>, e1: int, e2: int, e3: int, st: PerNodeStats)
    requires
        matches_at(s, 0, "{\"events\":"@),
        run_at(s, 10, e1),
        e1 > 10,
        e1 == 11 || s[10] != '0',
        dec_value(s.subrange(10, e1)) == st.events,
        matches_at(s, e1, ",\"ingestion\":"@),
        run_at(s, e1 + 13, e2),
        e2 > e1 + 13,
        e2 == e1 + 14 || s[e1 + 13] != '0',
        dec_value(s.subrange(e1 + 13, e2)) == st.ingestion_bytes,
        matches_at(s, e2, ",\"storage\":"@),
        run_at(s, e2 + 11, e3),
        e3 > e2 + 11,
        e3 == e2 + 12 || s[e2 + 11] != '0',
        dec_value(s.subrange(e2 + 11, e3)) == st.storage_bytes,
        matches_at(s, e3, "}"@),
        e3 + 1 == s.len(),
    ensures
        s == stats_encoding(st),
        is_stats_encoding(s),
        stats_decoded(s) == st,
{
    reveal_strlit("{\"events\":");
    reveal_strlit(",\"ingestion\":");
    reveal_strlit(",\"storage\":");
    reveal_strlit("}");
    let r1 = s.subrange(10, e1);
    let r2 = s.subrange(e1 + 13, e2);
    let r3 = s.subrange(e2 + 11, e3);
    lemma_dec_canonical(r1);
    lemma_dec_canonical(r2);
    lemma_dec_canonical(r3);
    assert(r1 == dec_rep(st.events as nat));
    assert(r2 == dec_rep(st.ingestion_bytes as nat));
    assert(r3 == dec_rep(st.storage_bytes as nat));
    assert(s =~= stats_encoding(st));
    assert(is_stats_encoding(s));
    let other = stats_decoded(s);
    lemma_stats_parts(st);
    lemma_stats_parts(other);
    lemma_run_unique(s, 10, e1, 10 + dec_rep(other.events as nat).len() as int);
    lemma_run_unique(
        s,
        e1 + 13,
        e2,
        e1 + 13 + dec_rep(other.ingestion_bytes as nat).len() as int,
    );
    lemma_run_unique(
        s,
        e2 + 11,
        e3,
        e2 + 11 + dec_rep(other.storage_bytes as nat).len() as int,
    );
    lemma_dec_value_of_rep(other.events as nat);
    lemma_dec_value_of_rep(other.ingestion_bytes as nat);
    lemma_dec_value_of_rep(other.storage_bytes as nat);
}

/// Serialize a per-node stats record into its canonical blob.
pub fn to_stats_blob(st: &PerNodeStats) -> (r: String)
    ensures
        r@ == stats_encoding(*st),
{
    let mut out = String::from_str("{\"events\":");
    out.append(u64_to_dec(st.events).as_str());
    out.append(",\"ingestion\":");
    out.append(u64_to_dec(st.ingestion_bytes).as_str());
    out.append(",\"storage\":");
    out.append(u64_to_dec(st.storage_bytes).as_str());
    out.append("}");
    proof {
        assert(out@ =~= stats_encoding(*st));
    }
    out
}

/// Parse a stats blob. Returns the record exactly when the blob is the
/// canonical encoding of one; a malformed or stale blob yields `None` and
/// is skipped by aggregation, never an abort.
#[verifier::rlimit(100)]
pub fn parse_stats_blob(s: &str) -> (r: Option<PerNodeStats>)
    ensures
        match r {
            Some(st) => s@ == stats_encoding(st) && is_stats_encoding(s@) && st == stats_decoded(
                s@,
            ),
            None => !is_stats_encoding(s@),
        },
{
    proof {
        reveal_strlit("{\"events\":");
        reveal_strlit(",\"ingestion\":");
        reveal_strlit(",\"storage\":");
        reveal_strlit("}");
        assert("{\"events\":"@.len() == 10);
        assert(",\"ingestion\":"@.len() == 13);
        assert(",\"storage\":"@.len() == 11);
        assert("}"@.len() == 1);
    }
    let n = s.unicode_len();
    if !match_at(s, 0, "{\"events\":") {
        proof {
            lemma_stats_malformed_prefix(s@);
        }
        return None;
    }
    let p1 = "{\"events\":".unicode_len();
    let e1 = scan_digits(s, p1);
    if e1 == p1 || (e1 > p1 + 1 && s.get_char(p1) == '0') {
        proof {
            lemma_stats_malformed_run1(s@, e1 as int);
        }
        return None;
    }
    let v1 = match parse_u64_run(s, p1, e1) {
        Some(v) => v,
        None => {
            proof {
                lemma_stats_malformed_run1(s@, e1 as int);
            }
            return None;
        },
    };
    if !match_at(s, e1, ",\"ingestion\":") {
        proof {
            lemma_stats_malformed_run1(s@, e1 as int);
        }
        return None;
    }
    let p2 = e1 + ",\"ingestion\":".unicode_len();
    let e2 = scan_digits(s, p2);
    if e2 == p2 || (e2 > p2 + 1 && s.get_char(p2) == '0') {
        proof {
            lemma_stats_malformed_run2(s@, e1 as int, e2 as int);
        }
        return None;
    }
    let v2 = match parse_u64_run(s, p2, e2) {
        Some(v) => v,
        None => {
            proof {
                lemma_stats_malformed_run2(s@, e1 as int, e2 as int);
            }
            return None;
        },
    };
    if !match_at(s, e2, ",\"storage\":") {
        proof {
            lemma_stats_malformed_run2(s@, e1 as int, e2 as int);
        }
        return None;
    }
    let p3 = e2 + ",\"storage\":".unicode_len();
    let e3 = scan_digits(s, p3);
    if e3 == p3 || (e3 > p3 + 1 && s.get_char(p3) == '0') {
        proof {
            lemma_stats_malformed_run3(s@, e1 as int, e2 as int, e3 as int);
        }
        return None;
    }
    let v3 = match parse_u64_run(s, p3, e3) {
        Some(v) => v,
        None => {
            proof {
                lemma_stats_malformed_run3(s@, e1 as int, e2 as int, e3 as int);
            }
            return None;
        },
    };
    if !match_at(s, e3, "}") || e3 + 1 != n {
        proof {
            lemma_stats_malformed_run3(s@, e1 as int, e2 as int, e3 as int);
        }
        return None;
    }
    let st = PerNodeStats { events: v1, ingestion_bytes: v2, storage_bytes: v3 };
    proof {
        lemma_stats_success(s@, e1 as int, e2 as int, e3 as int, st);
    }
    Some(st)
}

/// The cluster-wide aggregate handed back for one stream.
pub struct ClusterStatsRecord {
    pub total_events: u64,
    pub total_ingestion: String,
    pub ingestion_format: String,
    pub total_storage: String,
    pub storage_format: String,
}

/// The records held by a sequence of raw stats blobs, in listing order:
/// well-formed blobs contribute, corrupt or stale ones are skipped.
pub open spec fn stats_seq(blobs: Seq<Seq<char>>) -> Seq<PerNodeStats>
    decreases blobs.len(),
{
    if blobs.len() == 0 {
        Seq::empty()
    } else {
        let rest = stats_seq(blobs.drop_last());
        if is_stats_encoding(blobs.last()) {
            rest.push(stats_decoded(blobs.last()))
        } else {
            rest
        }
    }
}

pub open spec fn sum_events(s: Seq<PerNodeStats>) -> int
    decreases s.len(),
{
    if s.len() == 0 {
        0
    } else {
        sum_events(s.drop_last()) + s.last().events
    }
}

pub open spec fn sum_ingestion(s: Seq<PerNodeStats>) -> int
    decreases s.len(),
{
    if s.len() == 0 {
        0
    } else {
        sum_ingestion(s.drop_last()) + s.last().ingestion_bytes
    }
}

pub open spec fn sum_storage(s: Seq<PerNodeStats>) -> int
    decreases s.len(),
{
    if s.len() == 0 {
        0
    } else {
        sum_storage(s.drop_last()) + s.last().storage_bytes
    }
}

/// A total too large for 64 bits saturates at the top.
pub open spec fn clip64(n: int) -> int {
    if n > u64::MAX {
        u64::MAX as int
    } else {
        n
    }
}

/// The human-readable form a byte total is rendered in at the boundary.
pub open spec fn bytes_label(n: nat) -> Seq<char> {
    dec_rep(n) + " Bytes"@
}

pub proof fn lemma_sums_nonneg(s: Seq<PerNodeStats>)
    ensures
        sum_events(s) >= 0,
        sum_ingestion(s) >= 0,
        sum_storage(s) >= 0,
    decreases s.len(),
{
    if s.len() > 0 {
        lemma_sums_nonneg(s.drop_last());
    }
}

fn sat_add(a: u64, b: u64) -> (r: u64)
    ensures
        r as int == clip64(a as int + b as int),
{
    if b > u64::MAX - a {
        u64::MAX
    } else {
        a + b
    }
}

/// Render a byte total as `"<n> Bytes"`.
pub fn format_bytes(n: u64) -> (r: String)
    ensures
        r@ == bytes_label(n as nat),
{
    let mut out = u64_to_dec(n);
    out.append(" Bytes");
    out
}

/// Fold every parseable stats blob under the stream root into one
/// cluster-wide record: totals saturate rather than wrap, byte totals are
/// rendered as `"<n> Bytes"`, and the two storage formats are fixed.
pub fn aggregate_stats(blobs: &Vec<String>) -> (r: ClusterStatsRecord)
    ensures
        ({
            let parsed = stats_seq(blobs@.map_values(|b: String| b@));
            &&& r.total_events as int == clip64(sum_events(parsed))
            &&& r.total_ingestion@ == bytes_label(clip64(sum_ingestion(parsed)) as nat)
            &&& r.ingestion_format@ == "json"@
            &&& r.total_storage@ == bytes_label(clip64(sum_storage(parsed)) as nat)
            &&& r.storage_format@ == "parquet"@
        }),
{
    let ghost bs = blobs@.map_values(|b: String| b@);
    let mut ev: u64 = 0;
    let mut ing: u64 = 0;
    let mut sto: u64 = 0;
    let mut i: usize = 0;
    while i < blobs.len()
        invariant
            i <= blobs@.len(),
            bs == blobs@.map_values(|b: String| b@),
            ev as int == clip64(sum_events(stats_seq(bs.take(i as int)))),
            ing as int == clip64(sum_ingestion(stats_seq(bs.take(i as int)))),
            sto as int == clip64(sum_storage(stats_seq(bs.take(i as int)))),
        decreases blobs@.len() - i,
    {
        let ghost prev = stats_seq(bs.take(i as int));
        proof {
            lemma_sums_nonneg(prev);
            assert(bs.take(i + 1).drop_last() =~= bs.take(i as int));
            assert(bs.take(i + 1).last() == blobs@[i as int]@);
        }
        match parse_stats_blob(blobs[i].as_str()) {
            Some(st) => {
                ev = sat_add(ev, st.events);
                ing = sat_add(ing, st.ingestion_bytes);
                sto = sat_add(sto, st.storage_bytes);
                proof {
                    assert(stats_seq(bs.take(i + 1)) == prev.push(st));
                    assert(stats_seq(bs.take(i + 1)).drop_last() =~= prev);
                }
            },
            None => {},
        }
        i += 1;
    }
    proof {
        assert(bs.take(blobs@.len() as int) =~= bs);
    }
    ClusterStatsRecord {
        total_events: ev,
        total_ingestion: format_bytes(ing),
        ingestion_format: String::from_str("json"),
        total_storage: format_bytes(sto),
        storage_format: String::from_str("parquet"),
    }
}

/// What one blob contributes to each running total: its parsed counters if
/// it is well formed, nothing if it is corrupt.
pub open spec fn blob_events(blob: Seq<char>) -> int {
    if is_stats_encoding(blob) {
        stats_decoded(blob).events as int
    } else {
        0
    }
}

pub open spec fn blob_ingestion(blob: Seq<char>) -> int {
    if is_stats_encoding(blob) {
        stats_decoded(blob).ingestion_bytes as int
    } else {
        0
    }
}

pub open spec fn blob_storage(blob: Seq<char>) -> int {
    if is_stats_encoding(blob) {
        stats_decoded(blob).storage_bytes as int
    } else {
        0
    }
}

/// The totals over the parsed records are the totals over the blobs
/// themselves, corrupt ones counting for nothing.
pub proof fn lemma_sums_over_blobs(blobs: Seq<Seq<char>>)
    ensures
        sum_events(stats_seq(blobs)) == blob_sum_events(blobs),
        sum_ingestion(stats_seq(blobs)) == blob_sum_ingestion(blobs),
        sum_storage(stats_seq(blobs)) == blob_sum_storage(blobs),
    decreases blobs.len(),
{
    if blobs.len() > 0 {
        lemma_sums_over_blobs(blobs.drop_last());
        if is_stats_encoding(blobs.last()) {
            let rest = stats_seq(blobs.drop_last());
            assert(rest.push(stats_decoded(blobs.last())).drop_last() =~= rest);
        }
    }
}

pub open spec fn blob_sum_events(blobs: Seq<Seq<char>>) -> int
    decreases blobs.len(),
{
    if blobs.len() == 0 {
        0
    } else {
        blob_sum_events(blobs.drop_last()) + blob_events(blobs.last())
    }
}

pub open spec fn blob_sum_ingestion(blobs: Seq<Seq<char>>) -> int
    decreases blobs.len(),
{
    if blobs.len() == 0 {
        0
    } else {
        blob_sum_ingestion(blobs.drop_last()) + blob_ingestion(blobs.last())
    }
}

pub open spec fn blob_sum_storage(blobs: Seq<Seq<char>>) -> int
    decreases blobs.len(),
{
    if blobs.len() == 0 {
        0
    } else {
        blob_sum_storage(blobs.drop_last()) + blob_storage(blobs.last())
    }
}

proof fn lemma_blob_sum_remove(blobs: Seq<Seq<char>>, j: int)
    requires
        0 <= j < blobs.len(),
    ensures
        blob_sum_events(blobs.remove(j)) == blob_sum_events(blobs) - blob_events(blobs[j]),
        blob_sum_ingestion(blobs.remove(j)) == blob_sum_ingestion(blobs) - blob_ingestion(
            blobs[j],
        ),
        blob_sum_storage(blobs.remove(j)) == blob_sum_storage(blobs) - blob_storage(blobs[j]),
    decreases blobs.len(),
{
    if j == blobs.len() - 1 {
        assert(blobs.remove(j) =~= blobs.drop_last());
    } else {
        assert(blobs.remove(j).drop_last() =~= blobs.drop_last().remove(j));
        assert(blobs.remove(j).last() == blobs.last());
        lemma_blob_sum_remove(blobs.drop_last(), j);
    }
}

/// Stats aggregation is commutative and associative over the blobs: two
/// listings of the same blobs — whatever order the store hands them back
/// in — sum to the same cluster totals.
pub proof fn lemma_stats_order_independent(b1: Seq<Seq<char>>, b2: Seq<Seq<char>>)
    requires
        b1.to_multiset() == b2.to_multiset(),
    ensures
        sum_events(stats_seq(b1)) == sum_events(stats_seq(b2)),
        sum_ingestion(stats_seq(b1)) == sum_ingestion(stats_seq(b2)),
        sum_storage(stats_seq(b1)) == sum_storage(stats_seq(b2)),
    decreases b1.len(),
{
    broadcast use vstd::seq_lib::group_to_multiset_ensures;

    lemma_sums_over_blobs(b1);
    lemma_sums_over_blobs(b2);
    if b1.len() == 0 {
        assert(b1.to_multiset().len() == 0);
        assert(b2.len() == 0);
    } else {
        let x = b1.last();
        assert(b1.drop_last().push(x) =~= b1);
        assert(b1.drop_last().push(x).to_multiset() =~= b1.drop_last().to_multiset().insert(
            x,
        ));
        assert(b1.to_multiset().count(x) > 0);
        assert(b2.contains(x));
        let j = choose|j: int| 0 <= j < b2.len() && b2[j] == x;
        assert(b2.remove(j).to_multiset() =~= b2.to_multiset().remove(b2[j]));
        assert(b1.drop_last().to_multiset() =~= b1.to_multiset().remove(x));
        lemma_stats_order_independent(b1.drop_last(), b2.remove(j));
        lemma_sums_over_blobs(b1.drop_last());
        lemma_sums_over_blobs(b2.remove(j));
        lemma_blob_sum_remove(b2, j);
    }
}

/// One corrupt blob among the rest changes nothing: the aggregate over the
/// listing with the corrupt blob in it is the aggregate over the listing
/// without it.
pub proof fn lemma_corrupt_blob_ignored(b1: Seq<Seq<char>>, bad: Seq<char>, b2: Seq<Seq<char>>)
    requires
        !is_stats_encoding(bad),
    ensures
        stats_seq(b1 + seq![bad] + b2) == stats_seq(b1 + b2),
    decreases b2.len(),
{
    if b2.len() == 0 {
        assert(b1 + seq![bad] + b2 =~= b1 + seq![bad]);
        assert((b1 + seq![bad]).drop_last() =~= b1);
        assert((b1 + seq![bad]).last() == bad);
        assert(b1 + b2 =~= b1);
    } else {
        assert((b1 + seq![bad] + b2).drop_last() =~= b1 + seq![bad] + b2.drop_last());
        assert((b1 + seq![bad] + b2).last() == b2.last());
        assert((b1 + b2).drop_last() =~= b1 + b2.drop_last());
        assert((b1 + b2).last() == b2.last());
        lemma_corrupt_blob_ignored(b1, bad, b2.drop_last());
    }
}

} // verus!
